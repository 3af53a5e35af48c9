use vstd::prelude::*;
use vstd::string::StrSliceExecFns;

verus! {

/// Returns true when `c` is a decimal digit.
pub open spec fn is_dec_digit(c: char) -> bool {
    48 <= c as int && c as int <= 57
}

/// Returns true when every character of `s` is a decimal digit.
pub open spec fn all_dec_digits(s: Seq<char>) -> bool {
    forall|i: int| 0 <= i < s.len() ==> is_dec_digit(s[i])
}

/// The integer a string of decimal digits denotes.
pub open spec fn dec_val(s: Seq<char>) -> int
    decreases s.len(),
{
    if s.len() == 0 {
        0
    } else {
        dec_val(s.drop_last()) * 10 + (s.last() as int - 48)
    }
}

/// The unsigned integer a string denotes: one or more decimal digits
/// whose value fits in a `u64`, and nothing else.
pub open spec fn parse_u64_spec(s: Seq<char>) -> Option<u64> {
    if s.len() > 0 && all_dec_digits(s) && dec_val(s) <= u64::MAX {
        Some(dec_val(s) as u64)
    } else {
        None
    }
}

/// The signed integer a string denotes: an optional leading minus sign,
/// then one or more decimal digits, with the signed value in range.
pub open spec fn parse_i64_spec(s: Seq<char>) -> Option<i64> {
    if s.len() > 0 && s[0] == '-' {
        let digits = s.drop_first();
        if digits.len() > 0 && all_dec_digits(digits) && -dec_val(digits) >= i64::MIN {
            Some((-dec_val(digits)) as i64)
        } else {
            None
        }
    } else if s.len() > 0 && all_dec_digits(s) && dec_val(s) <= i64::MAX {
        Some(dec_val(s) as i64)
    } else {
        None
    }
}

/// A digit string's value is not negative.
pub proof fn lemma_dec_val_nonneg(s: Seq<char>)
    requires
        all_dec_digits(s),
    ensures
        dec_val(s) >= 0,
    decreases s.len(),
{
    if s.len() > 0 {
        assert(forall|i: int| 0 <= i < s.drop_last().len() ==> s.drop_last()[i] == s[i]);
        lemma_dec_val_nonneg(s.drop_last());
    }
}

/// A digit string's value is at least the value of each of its prefixes.
pub proof fn lemma_dec_val_take_le(s: Seq<char>, i: int)
    requires
        all_dec_digits(s),
        0 <= i <= s.len(),
    ensures
        dec_val(s.take(i)) <= dec_val(s),
    decreases s.len() - i,
{
    if i == s.len() {
        assert(s.take(i) =~= s);
    } else {
        assert(s.take(i + 1).drop_last() =~= s.take(i));
        assert(s.take(i + 1).last() == s[i]);
        assert(forall|j: int| 0 <= j < i ==> s.take(i)[j] == s[j]);
        lemma_dec_val_nonneg(s.take(i));
        assert(dec_val(s.take(i + 1)) == dec_val(s.take(i)) * 10 + (s[i] as int - 48));
        lemma_dec_val_take_le(s, i + 1);
    }
}

/// Reads an unsigned integer from a string of decimal digits; anything
/// but one or more digits whose value fits is rejected.
#[verifier::loop_isolation(false)]
pub fn parse_u64(s: &str) -> (r: Option<u64>)
    ensures
        r == parse_u64_spec(s@),
{
    let n = s.unicode_len();
    if n == 0 {
        return None;
    }
    let mut val: u64 = 0;
    let mut i: usize = 0;
    while i < n
        invariant
            0 <= i <= n,
            all_dec_digits(s@.take(i as int)),
            val == dec_val(s@.take(i as int)),
        decreases n - i,
    {
        let c = s.get_char(i);
        let code = c as u32;
        if code < 48 || code > 57 {
            proof {
                assert(!is_dec_digit(s@[i as int]));
            }
            return None;
        }
        let digit = (code - 48) as u64;
        proof {
            assert(s@.take(i as int + 1).drop_last() =~= s@.take(i as int));
            assert(s@.take(i as int + 1).last() == s@[i as int]);
            assert(forall|j: int| 0 <= j < i ==> s@.take(i as int)[j] == s@[j]);
        }
        if val > (u64::MAX - digit) / 10 {
            proof {
                let headroom = (u64::MAX - digit) as int;
                assert(headroom == 10 * (headroom / 10) + headroom % 10);
                assert(dec_val(s@.take(i as int + 1)) > u64::MAX);
                if all_dec_digits(s@) {
                    lemma_dec_val_take_le(s@, i as int + 1);
                }
            }
            return None;
        }
        proof {
            let headroom = (u64::MAX - digit) as int;
            assert(headroom == 10 * (headroom / 10) + headroom % 10);
        }
        val = val * 10 + digit;
        i = i + 1;
    }
    proof {
        assert(s@.take(n as int) =~= s@);
    }
    Some(val)
}

/// Reads a signed integer: an optional leading minus sign, then decimal
/// digits, with the value in range.
pub fn parse_i64(s: &str) -> (r: Option<i64>)
    ensures
        r == parse_i64_spec(s@),
{
    let n = s.unicode_len();
    if n == 0 {
        return None;
    }
    if s.get_char(0) == '-' {
        let digits = s.substring_char(1, n);
        proof {
            assert(digits@ =~= s@.drop_first());
        }
        match parse_u64(digits) {
            Some(v) => {
                proof {
                    if all_dec_digits(digits@) {
                        lemma_dec_val_nonneg(digits@);
                    }
                }
                if v <= 0x7fff_ffff_ffff_ffffu64 {
                    Some(-(v as i64))
                } else if v == 0x8000_0000_0000_0000u64 {
                    Some(i64::MIN)
                } else {
                    None
                }
            },
            None => {
                proof {
                    if digits@.len() > 0 && all_dec_digits(digits@) {
                        lemma_dec_val_nonneg(digits@);
                    }
                }
                None
            },
        }
    } else {
        match parse_u64(s) {
            Some(v) => {
                proof {
                    if all_dec_digits(s@) {
                        lemma_dec_val_nonneg(s@);
                    }
                }
                if v <= 0x7fff_ffff_ffff_ffffu64 {
                    Some(v as i64)
                } else {
                    None
                }
            },
            None => None,
        }
    }
}

/// Ten to the power `n`.
pub open spec fn pow10(n: nat) -> int
    decreases n,
{
    if n == 0 {
        1
    } else {
        10 * pow10((n - 1) as nat)
    }
}

/// A digit string's value is below ten to its length.
pub proof fn lemma_dec_val_lt_pow10(s: Seq<char>)
    requires
        all_dec_digits(s),
    ensures
        dec_val(s) < pow10(s.len()),
    decreases s.len(),
{
    if s.len() > 0 {
        assert(forall|i: int| 0 <= i < s.drop_last().len() ==> s.drop_last()[i] == s[i]);
        lemma_dec_val_lt_pow10(s.drop_last());
    }
}

/// Returns true when `o` is a well-formed dotted-quad octet: one to
/// three decimal digits, no leading zero unless the octet is `0` itself,
/// and value at most 255.
pub open spec fn octet_ok(o: Seq<char>) -> bool {
    o.len() > 0 && all_dec_digits(o) && dec_val(o) <= 255 && (o.len() == 1 || o[0] != '0')
}

/// One step of the dotted-quad scan at position `i`, with the octets
/// already read and the digits of the octet being read: at the end of
/// the text a fourth well-formed octet closes the address; a dot closes
/// one of the first three; a digit extends the current octet to at most
/// three digits; anything else rejects.
pub open spec fn ipv4_scan(s: Seq<char>, i: int, octets: Seq<u8>, cur: Seq<char>) -> Option<
    Seq<u8>,
>
    decreases s.len() - i,
{
    if i < 0 || i > s.len() {
        None
    } else if i == s.len() {
        if octets.len() == 3 && octet_ok(cur) {
            Some(octets.push(dec_val(cur) as u8))
        } else {
            None
        }
    } else if s[i] == '.' {
        if octets.len() < 3 && octet_ok(cur) {
            ipv4_scan(s, i + 1, octets.push(dec_val(cur) as u8), Seq::empty())
        } else {
            None
        }
    } else if is_dec_digit(s[i]) && cur.len() < 3 {
        ipv4_scan(s, i + 1, octets, cur.push(s[i]))
    } else {
        None
    }
}

/// The four octets an IPv4 literal in dotted-quad form denotes.
pub open spec fn parse_ipv4_spec(s: Seq<char>) -> Option<Seq<u8>> {
    ipv4_scan(s, 0, Seq::empty(), Seq::empty())
}

/// Scans the rest of a dotted-quad literal.
fn ipv4_scan_exec(
    s: &str,
    i: usize,
    octets: Vec<u8>,
    cur_val: u32,
    cur_len: usize,
    leading_zero: bool,
    Ghost(cur): Ghost<Seq<char>>,
) -> (r: Option<Vec<u8>>)
    requires
        i <= s@.len(),
        octets@.len() <= 3,
        all_dec_digits(cur),
        cur.len() <= 3,
        cur_val == dec_val(cur),
        cur_len == cur.len(),
        leading_zero == (cur.len() > 0 && cur[0] == '0'),
    ensures
        r matches Some(v) ==> ipv4_scan(s@, i as int, octets@, cur) == Some(v@) && v@.len() == 4,
        r is None ==> ipv4_scan(s@, i as int, octets@, cur) is None,
    decreases s@.len() - i,
{
    proof {
        lemma_dec_val_lt_pow10(cur);
    }
    if i == s.unicode_len() {
        if octets.len() == 3 && cur_len > 0 && cur_val <= 255 && (cur_len == 1 || !leading_zero) {
            let mut closed = octets;
            closed.push(cur_val as u8);
            Some(closed)
        } else {
            None
        }
    } else {
        let c = s.get_char(i);
        if c == '.' {
            if octets.len() < 3 && cur_len > 0 && cur_val <= 255 && (cur_len == 1
                || !leading_zero) {
                let mut grown = octets;
                grown.push(cur_val as u8);
                ipv4_scan_exec(s, i + 1, grown, 0, 0, false, Ghost(Seq::empty()))
            } else {
                None
            }
        } else {
            let code = c as u32;
            if 48 <= code && code <= 57 && cur_len < 3 {
                proof {
                    assert(pow10(0) == 1);
                    assert(pow10(1) == 10);
                    assert(pow10(2) == 100);
                    assert(dec_val(cur) < 100);
                    assert(cur.push(c).drop_last() =~= cur);
                    assert(forall|j: int| 0 <= j < cur.len() ==> cur.push(c)[j] == cur[j]);
                }
                ipv4_scan_exec(
                    s,
                    i + 1,
                    octets,
                    cur_val * 10 + (code - 48),
                    cur_len + 1,
                    if cur_len == 0 {
                        code == 48
                    } else {
                        leading_zero
                    },
                    Ghost(cur.push(c)),
                )
            } else {
                None
            }
        }
    }
}

/// Reads the four octets of an IPv4 literal in dotted-quad form;
/// anything else — an empty group, a leading zero, an octet above 255, a
/// stray character, too few or too many groups — is rejected.
pub fn parse_ipv4(s: &str) -> (r: Option<Vec<u8>>)
    ensures
        r matches Some(v) ==> parse_ipv4_spec(s@) == Some(v@) && v@.len() == 4,
        r is None ==> parse_ipv4_spec(s@) is None,
{
    ipv4_scan_exec(s, 0, Vec::new(), 0, 0, false, Ghost(Seq::empty()))
}

} // verus!
