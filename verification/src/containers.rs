use vstd::prelude::*;
use crate::term::{FieldId, Term, TermV, TermRange, TermRangeV, term_eq, term_range_eq};

verus! {

/// Appending an element to a sequence inserts it into the sequence's set
/// of elements.
pub proof fn lemma_push_to_set<A>(s: Seq<A>, x: A)
    ensures
        s.push(x).to_set() =~= s.to_set().insert(x),
{
    assert forall|y: A| s.push(x).to_set().contains(y) implies s.to_set().insert(x).contains(
        y,
    ) by {
        let i = choose|i: int| 0 <= i < s.push(x).len() && s.push(x)[i] == y;
        if i < s.len() {
            assert(s[i] == y);
        }
    }
    assert forall|y: A| s.to_set().insert(x).contains(y) implies s.push(x).to_set().contains(
        y,
    ) by {
        if y == x {
            assert(s.push(x)[s.len() as int] == y);
        } else {
            let i = choose|i: int| 0 <= i < s.len() && s[i] == y;
            assert(s.push(x)[i] == y);
        }
    }
}

/// A set of field names.
#[derive(Debug, Clone, PartialEq, Eq)]
pub struct NameSet {
    pub items: Vec<String>,
}

impl View for NameSet {
    type V = Set<Seq<char>>;

    open spec fn view(&self) -> Set<Seq<char>> {
        self.items@.map_values(|s: String| s@).to_set()
    }
}

impl NameSet {
    /// The empty set of names.
    pub fn new() -> (r: NameSet)
        ensures
            r@ == Set::<Seq<char>>::empty(),
    {
        let r = NameSet { items: Vec::new() };
        proof {
            assert(r.items@.map_values(|s: String| s@) =~= Seq::<Seq<char>>::empty());
            assert(r@ =~= Set::<Seq<char>>::empty());
        }
        r
    }

    /// Whether the set holds this name.
    pub fn contains_name(&self, name: &String) -> (r: bool)
        ensures
            r == self@.contains(name@),
    {
        let ghost vs = self.items@.map_values(|s: String| s@);
        let mut i: usize = 0;
        while i < self.items.len()
            invariant
                vs == self.items@.map_values(|s: String| s@),
                0 <= i <= self.items@.len(),
                forall|j: int| 0 <= j < i ==> vs[j] != name@,
            decreases self.items@.len() - i,
        {
            if self.items[i] == *name {
                proof {
                    assert(vs[i as int] == name@);
                }
                return true;
            }
            i = i + 1;
        }
        proof {
            if self@.contains(name@) {
                let j = choose|j: int| 0 <= j < vs.len() && vs[j] == name@;
                assert(vs[j] != name@);
            }
        }
        false
    }

    /// Adds a name; the set absorbs duplicates.
    pub fn insert(&mut self, name: String)
        ensures
            final(self)@ == old(self)@.insert(name@),
    {
        if self.contains_name(&name) {
            proof {
                assert(self@ =~= self@.insert(name@));
            }
            return;
        }
        let ghost vs = self.items@.map_values(|s: String| s@);
        self.items.push(name);
        proof {
            assert(self.items@.map_values(|s: String| s@) =~= vs.push(name@));
            lemma_push_to_set(vs, name@);
        }
    }
}

/// A set of field identifiers.
#[derive(Debug, Clone, PartialEq, Eq)]
pub struct FieldIdSet {
    pub items: Vec<FieldId>,
}

impl View for FieldIdSet {
    type V = Set<FieldId>;

    open spec fn view(&self) -> Set<FieldId> {
        self.items@.to_set()
    }
}

impl FieldIdSet {
    /// No identifier appears twice, so the vector's length is the set's
    /// cardinality.
    pub open spec fn wf(&self) -> bool {
        self.items@.no_duplicates()
    }

    /// The empty set of identifiers.
    pub fn new() -> (r: FieldIdSet)
        ensures
            r@ == Set::<FieldId>::empty(),
            r.wf(),
    {
        let r = FieldIdSet { items: Vec::new() };
        proof {
            assert(r@ =~= Set::<FieldId>::empty());
        }
        r
    }

    /// Whether the set holds this identifier.
    pub fn contains(&self, field: FieldId) -> (r: bool)
        ensures
            r == self@.contains(field),
    {
        let mut i: usize = 0;
        while i < self.items.len()
            invariant
                0 <= i <= self.items@.len(),
                forall|j: int| 0 <= j < i ==> self.items@[j] != field,
            decreases self.items@.len() - i,
        {
            if self.items[i] == field {
                proof {
                    assert(self.items@[i as int] == field);
                }
                return true;
            }
            i = i + 1;
        }
        proof {
            if self@.contains(field) {
                let j = choose|j: int| 0 <= j < self.items@.len() && self.items@[j] == field;
                assert(self.items@[j] != field);
            }
        }
        false
    }

    /// Adds an identifier; the set absorbs duplicates.
    pub fn insert(&mut self, field: FieldId)
        requires
            old(self).wf(),
        ensures
            final(self).wf(),
            final(self)@ == old(self)@.insert(field),
    {
        if self.contains(field) {
            proof {
                assert(self@ =~= self@.insert(field));
            }
            return;
        }
        let ghost s0 = self.items@;
        self.items.push(field);
        proof {
            lemma_push_to_set(s0, field);
            assert(self.items@.drop_last() =~= s0);
        }
    }

    /// How many identifiers the set holds.
    pub fn len(&self) -> (n: usize)
        requires
            self.wf(),
        ensures
            n == self@.len(),
    {
        proof {
            self.items@.unique_seq_to_set();
        }
        self.items.len()
    }

    /// Whether the set is empty.
    pub fn is_empty(&self) -> (r: bool)
        requires
            self.wf(),
        ensures
            r == (self@ =~= Set::<FieldId>::empty()),
    {
        let n = self.len();
        proof {
            if self@.len() == 0 {
                assert(self@ =~= Set::<FieldId>::empty());
            } else {
                let x = self@.choose();
                assert(self@.contains(x));
            }
        }
        n == 0
    }
}

/// The merge of one more (term, positions-needed) observation into a term
/// map: a fresh term starts from "no positions needed", and the flags of
/// clauses that produce the same term are OR-ed together.
pub open spec fn term_or_insert(m: Map<TermV, bool>, t: TermV, pos: bool) -> Map<TermV, bool> {
    let prev = if m.contains_key(t) {
        m[t]
    } else {
        false
    };
    m.insert(t, prev || pos)
}

/// The map a list of (term, flag) entries denotes, later entries winning.
pub open spec fn terms_map(s: Seq<(Term, bool)>) -> Map<TermV, bool>
    decreases s.len(),
{
    if s.len() == 0 {
        Map::empty()
    } else {
        terms_map(s.drop_last()).insert(s.last().0@, s.last().1)
    }
}

/// The keys of `terms_map` are exactly the term values in the list.
pub proof fn lemma_terms_map_contains(s: Seq<(Term, bool)>)
    ensures
        forall|t: TermV| #[trigger]
            terms_map(s).contains_key(t) <==> exists|i: int| 0 <= i < s.len() && s[i].0@ == t,
    decreases s.len(),
{
    if s.len() == 0 {
    } else {
        lemma_terms_map_contains(s.drop_last());
        assert forall|t: TermV| terms_map(s).contains_key(t) implies exists|i: int|
            0 <= i < s.len() && s[i].0@ == t by {
            if t == s.last().0@ {
                assert(s[s.len() - 1].0@ == t);
            } else {
                assert(terms_map(s.drop_last()).contains_key(t));
                let i = choose|i: int| 0 <= i < s.drop_last().len() && s.drop_last()[i].0@ == t;
                assert(s.drop_last()[i] == s[i]);
                assert(s[i].0@ == t);
            }
        }
        assert forall|t: TermV| (exists|i: int| 0 <= i < s.len() && s[i].0@ == t) implies #[trigger]
            terms_map(s).contains_key(t) by {
            let i = choose|i: int| 0 <= i < s.len() && s[i].0@ == t;
            if i < s.len() - 1 {
                assert(s.drop_last()[i] == s[i]);
                assert(s.drop_last()[i].0@ == t);
                assert(terms_map(s.drop_last()).contains_key(t));
            }
        }
    }
}

/// With unique keys, each entry's flag is what the map holds for its key.
pub proof fn lemma_terms_map_lookup(s: Seq<(Term, bool)>, j: int)
    requires
        forall|a: int, b: int| 0 <= a < b < s.len() ==> s[a].0@ != s[b].0@,
        0 <= j < s.len(),
    ensures
        terms_map(s).contains_key(s[j].0@),
        terms_map(s)[s[j].0@] == s[j].1,
    decreases s.len(),
{
    if j == s.len() - 1 {
    } else {
        assert(forall|a: int, b: int|
            0 <= a < b < s.drop_last().len() ==> s.drop_last()[a].0@ != s.drop_last()[b].0@);
        lemma_terms_map_lookup(s.drop_last(), j);
        assert(s.drop_last()[j] == s[j]);
        assert(s[j].0@ != s.last().0@);
    }
}

/// With unique keys, replacing the flag of entry `j` updates the map at
/// that entry's key and nothing else.
pub proof fn lemma_terms_map_update(s: Seq<(Term, bool)>, j: int, b: bool)
    requires
        forall|a: int, c: int| 0 <= a < c < s.len() ==> s[a].0@ != s[c].0@,
        0 <= j < s.len(),
    ensures
        terms_map(s.update(j, (s[j].0, b))) == terms_map(s).insert(s[j].0@, b),
    decreases s.len(),
{
    let su = s.update(j, (s[j].0, b));
    if j == s.len() - 1 {
        assert(su.drop_last() =~= s.drop_last());
        assert(su.last() == (s[j].0, b));
        assert(terms_map(su) =~= terms_map(s).insert(s[j].0@, b));
    } else {
        assert(forall|a: int, c: int|
            0 <= a < c < s.drop_last().len() ==> s.drop_last()[a].0@ != s.drop_last()[c].0@);
        assert(s.drop_last()[j] == s[j]);
        lemma_terms_map_update(s.drop_last(), j, b);
        assert(su.drop_last() =~= s.drop_last().update(j, (s[j].0, b)));
        assert(su.last() == s.last());
        assert(s[j].0@ != s.last().0@);
        assert(terms_map(su) =~= terms_map(s).insert(s[j].0@, b));
    }
}

/// The literal terms a query touches, each mapped to whether position data
/// is needed for it.
#[derive(Debug, PartialEq, Eq)]
pub struct TermWarmup {
    pub entries: Vec<(Term, bool)>,
}

impl View for TermWarmup {
    type V = Map<TermV, bool>;

    open spec fn view(&self) -> Map<TermV, bool> {
        terms_map(self.entries@)
    }
}

impl TermWarmup {
    /// Each term appears in one entry.
    pub open spec fn wf(&self) -> bool {
        forall|a: int, b: int|
            0 <= a < b < self.entries@.len() ==> self.entries@[a].0@ != self.entries@[b].0@
    }

    /// The empty term map.
    pub fn new() -> (r: TermWarmup)
        ensures
            r@ == Map::<TermV, bool>::empty(),
            r.wf(),
    {
        TermWarmup { entries: Vec::new() }
    }

    /// Merges one observation of a term, OR-ing its flag into the entry.
    #[verifier::loop_isolation(false)]
    pub fn or_insert(&mut self, term: Term, position_needed: bool)
        requires
            old(self).wf(),
        ensures
            final(self).wf(),
            final(self)@ == term_or_insert(old(self)@, term@, position_needed),
    {
        let ghost s0 = self.entries@;
        let mut i: usize = 0;
        while i < self.entries.len()
            invariant
                s0 == self.entries@,
                0 <= i <= s0.len(),
                forall|j: int| 0 <= j < i ==> s0[j].0@ != term@,
            decreases s0.len() - i,
        {
            if term_eq(&self.entries[i].0, &term) {
                let pair = self.entries.remove(i);
                let merged = pair.1 || position_needed;
                self.entries.insert(i, (pair.0, merged));
                proof {
                    assert(self.entries@ =~= s0.update(i as int, (s0[i as int].0, merged)));
                    lemma_terms_map_contains(s0);
                    lemma_terms_map_lookup(s0, i as int);
                    lemma_terms_map_update(s0, i as int, merged);
                    assert(s0[i as int].0@ == term@);
                }
                return;
            }
            i = i + 1;
        }
        self.entries.push((term, position_needed));
        proof {
            assert(self.entries@.drop_last() =~= s0);
            lemma_terms_map_contains(s0);
            if terms_map(s0).contains_key(term@) {
                let j = choose|j: int| 0 <= j < s0.len() && s0[j].0@ == term@;
                assert(s0[j].0@ != term@);
            }
        }
    }

    /// What the map holds for a term, if anything.
    #[verifier::loop_isolation(false)]
    pub fn lookup(&self, term: &Term) -> (r: Option<bool>)
        requires
            self.wf(),
        ensures
            r == (if self@.contains_key(term@) {
                Some(self@[term@])
            } else {
                Option::<bool>::None
            }),
    {
        let mut i: usize = 0;
        while i < self.entries.len()
            invariant
                self.wf(),
                0 <= i <= self.entries@.len(),
                forall|j: int| 0 <= j < i ==> self.entries@[j].0@ != term@,
            decreases self.entries@.len() - i,
        {
            if term_eq(&self.entries[i].0, term) {
                let r = self.entries[i].1;
                proof {
                    lemma_terms_map_lookup(self.entries@, i as int);
                }
                return Some(r);
            }
            i = i + 1;
        }
        proof {
            lemma_terms_map_contains(self.entries@);
            if self@.contains_key(term@) {
                let j = choose|j: int|
                    0 <= j < self.entries@.len() && self.entries@[j].0@ == term@;
                assert(self.entries@[j].0@ != term@);
            }
        }
        None
    }

    /// How many distinct terms the map holds.
    pub fn len(&self) -> (n: usize)
        requires
            self.wf(),
        ensures
            n == self@.dom().len(),
    {
        proof {
            lemma_terms_map_len(self.entries@);
        }
        self.entries.len()
    }
}

/// The merge of one more (range, positions-needed) observation into a
/// range map, keyed by the field and the range: a fresh range starts from
/// "no positions needed", and the flags of clauses that produce the same
/// range are OR-ed together.
pub open spec fn range_or_insert(
    m: Map<(FieldId, TermRangeV), bool>,
    f: FieldId,
    r: TermRangeV,
    pos: bool,
) -> Map<(FieldId, TermRangeV), bool> {
    let prev = if m.contains_key((f, r)) {
        m[(f, r)]
    } else {
        false
    };
    m.insert((f, r), prev || pos)
}

/// Merging two observations is order-independent: when both name the same
/// field and range the surviving flag is the OR of the two, and otherwise
/// the entries do not interact. A traversal may therefore meet prefix
/// clauses in any order and still build the same range map.
pub proof fn lemma_range_or_insert_commutes(
    m: Map<(FieldId, TermRangeV), bool>,
    f1: FieldId,
    r1: TermRangeV,
    p1: bool,
    f2: FieldId,
    r2: TermRangeV,
    p2: bool,
)
    ensures
        range_or_insert(range_or_insert(m, f1, r1, p1), f2, r2, p2) == range_or_insert(
            range_or_insert(m, f2, r2, p2),
            f1,
            r1,
            p1,
        ),
{
    if f1 == f2 && r1 == r2 {
        assert(range_or_insert(range_or_insert(m, f1, r1, p1), f2, r2, p2) =~= range_or_insert(
            range_or_insert(m, f2, r2, p2),
            f1,
            r1,
            p1,
        ));
    } else {
        assert(range_or_insert(range_or_insert(m, f1, r1, p1), f2, r2, p2) =~= range_or_insert(
            range_or_insert(m, f2, r2, p2),
            f1,
            r1,
            p1,
        ));
    }
}

/// The map a list of (field, range, flag) entries denotes, later entries
/// winning.
pub open spec fn ranges_map(s: Seq<(FieldId, TermRange, bool)>) -> Map<(FieldId, TermRangeV), bool>
    decreases s.len(),
{
    if s.len() == 0 {
        Map::empty()
    } else {
        ranges_map(s.drop_last()).insert((s.last().0, s.last().1@), s.last().2)
    }
}

/// The keys of `ranges_map` are exactly the (field, range) pairs in the
/// list.
pub proof fn lemma_ranges_map_contains(s: Seq<(FieldId, TermRange, bool)>)
    ensures
        forall|k: (FieldId, TermRangeV)| #[trigger]
            ranges_map(s).contains_key(k) <==> exists|i: int|
                0 <= i < s.len() && (s[i].0, s[i].1@) == k,
    decreases s.len(),
{
    if s.len() == 0 {
    } else {
        lemma_ranges_map_contains(s.drop_last());
        assert forall|k: (FieldId, TermRangeV)| ranges_map(s).contains_key(k) implies exists|
            i: int,
        |
            0 <= i < s.len() && (s[i].0, s[i].1@) == k by {
            if k == (s.last().0, s.last().1@) {
                assert((s[s.len() - 1].0, s[s.len() - 1].1@) == k);
            } else {
                assert(ranges_map(s.drop_last()).contains_key(k));
                let i = choose|i: int|
                    0 <= i < s.drop_last().len() && (s.drop_last()[i].0, s.drop_last()[i].1@) == k;
                assert(s.drop_last()[i] == s[i]);
                assert((s[i].0, s[i].1@) == k);
            }
        }
        assert forall|k: (FieldId, TermRangeV)|
            (exists|i: int| 0 <= i < s.len() && (s[i].0, s[i].1@) == k) implies #[trigger]
            ranges_map(s).contains_key(k) by {
            let i = choose|i: int| 0 <= i < s.len() && (s[i].0, s[i].1@) == k;
            if i < s.len() - 1 {
                assert(s.drop_last()[i] == s[i]);
                assert((s.drop_last()[i].0, s.drop_last()[i].1@) == k);
                assert(ranges_map(s.drop_last()).contains_key(k));
            }
        }
    }
}

/// With unique keys, each entry's flag is what the map holds for its key.
pub proof fn lemma_ranges_map_lookup(s: Seq<(FieldId, TermRange, bool)>, j: int)
    requires
        forall|a: int, b: int|
            0 <= a < b < s.len() ==> (s[a].0, s[a].1@) != (s[b].0, s[b].1@),
        0 <= j < s.len(),
    ensures
        ranges_map(s).contains_key((s[j].0, s[j].1@)),
        ranges_map(s)[(s[j].0, s[j].1@)] == s[j].2,
    decreases s.len(),
{
    if j == s.len() - 1 {
    } else {
        assert(forall|a: int, b: int|
            0 <= a < b < s.drop_last().len() ==> (s.drop_last()[a].0, s.drop_last()[a].1@) != (
            s.drop_last()[b].0,
            s.drop_last()[b].1@,
            ));
        lemma_ranges_map_lookup(s.drop_last(), j);
        assert(s.drop_last()[j] == s[j]);
        assert((s[j].0, s[j].1@) != (s.last().0, s.last().1@));
    }
}

/// With unique keys, replacing the flag of entry `j` updates the map at
/// that entry's key and nothing else.
pub proof fn lemma_ranges_map_update(s: Seq<(FieldId, TermRange, bool)>, j: int, b: bool)
    requires
        forall|a: int, c: int|
            0 <= a < c < s.len() ==> (s[a].0, s[a].1@) != (s[c].0, s[c].1@),
        0 <= j < s.len(),
    ensures
        ranges_map(s.update(j, (s[j].0, s[j].1, b))) == ranges_map(s).insert(
            (s[j].0, s[j].1@),
            b,
        ),
    decreases s.len(),
{
    let su = s.update(j, (s[j].0, s[j].1, b));
    if j == s.len() - 1 {
        assert(su.drop_last() =~= s.drop_last());
        assert(su.last() == (s[j].0, s[j].1, b));
        assert(ranges_map(su) =~= ranges_map(s).insert((s[j].0, s[j].1@), b));
    } else {
        assert(forall|a: int, c: int|
            0 <= a < c < s.drop_last().len() ==> (s.drop_last()[a].0, s.drop_last()[a].1@) != (
            s.drop_last()[c].0,
            s.drop_last()[c].1@,
            ));
        assert(s.drop_last()[j] == s[j]);
        lemma_ranges_map_update(s.drop_last(), j, b);
        assert(su.drop_last() =~= s.drop_last().update(j, (s[j].0, s[j].1, b)));
        assert(su.last() == s.last());
        assert((s[j].0, s[j].1@) != (s.last().0, s.last().1@));
        assert(ranges_map(su) =~= ranges_map(s).insert((s[j].0, s[j].1@), b));
    }
}

/// The term ranges a query's prefix-shaped clauses expand to, grouped by
/// field, each mapped to whether position data is needed for it.
#[derive(Debug, PartialEq, Eq)]
pub struct TermRangeWarmup {
    pub entries: Vec<(FieldId, TermRange, bool)>,
}

impl View for TermRangeWarmup {
    type V = Map<(FieldId, TermRangeV), bool>;

    open spec fn view(&self) -> Map<(FieldId, TermRangeV), bool> {
        ranges_map(self.entries@)
    }
}

impl TermRangeWarmup {
    /// Each (field, range) pair appears in one entry.
    pub open spec fn wf(&self) -> bool {
        forall|a: int, b: int|
            0 <= a < b < self.entries@.len() ==> (self.entries@[a].0, self.entries@[a].1@) != (
            self.entries@[b].0,
            self.entries@[b].1@,
            )
    }

    /// The empty range map.
    pub fn new() -> (r: TermRangeWarmup)
        ensures
            r@ == Map::<(FieldId, TermRangeV), bool>::empty(),
            r.wf(),
    {
        TermRangeWarmup { entries: Vec::new() }
    }

    /// Merges one observation of a range on a field, OR-ing its flag into
    /// the entry.
    #[verifier::loop_isolation(false)]
    pub fn or_insert(&mut self, field: FieldId, range: TermRange, position_needed: bool)
        requires
            old(self).wf(),
        ensures
            final(self).wf(),
            final(self)@ == range_or_insert(old(self)@, field, range@, position_needed),
    {
        let ghost s0 = self.entries@;
        let mut i: usize = 0;
        while i < self.entries.len()
            invariant
                s0 == self.entries@,
                0 <= i <= s0.len(),
                forall|j: int| 0 <= j < i ==> (s0[j].0, s0[j].1@) != (field, range@),
            decreases s0.len() - i,
        {
            if self.entries[i].0 == field && term_range_eq(&self.entries[i].1, &range) {
                let entry = self.entries.remove(i);
                let merged = entry.2 || position_needed;
                self.entries.insert(i, (entry.0, entry.1, merged));
                proof {
                    assert(self.entries@ =~= s0.update(
                        i as int,
                        (s0[i as int].0, s0[i as int].1, merged),
                    ));
                    lemma_ranges_map_contains(s0);
                    lemma_ranges_map_lookup(s0, i as int);
                    lemma_ranges_map_update(s0, i as int, merged);
                    assert((s0[i as int].0, s0[i as int].1@) == (field, range@));
                }
                return;
            }
            i = i + 1;
        }
        self.entries.push((field, range, position_needed));
        proof {
            assert(self.entries@.drop_last() =~= s0);
            lemma_ranges_map_contains(s0);
            if ranges_map(s0).contains_key((field, range@)) {
                let j = choose|j: int|
                    0 <= j < s0.len() && (s0[j].0, s0[j].1@) == (field, range@);
                assert((s0[j].0, s0[j].1@) != (field, range@));
            }
        }
    }

    /// What the map holds for a range on a field, if anything.
    #[verifier::loop_isolation(false)]
    pub fn lookup(&self, field: FieldId, range: &TermRange) -> (r: Option<bool>)
        requires
            self.wf(),
        ensures
            r == (if self@.contains_key((field, range@)) {
                Some(self@[(field, range@)])
            } else {
                Option::<bool>::None
            }),
    {
        let mut i: usize = 0;
        while i < self.entries.len()
            invariant
                self.wf(),
                0 <= i <= self.entries@.len(),
                forall|j: int|
                    0 <= j < i ==> (self.entries@[j].0, self.entries@[j].1@) != (field, range@),
            decreases self.entries@.len() - i,
        {
            if self.entries[i].0 == field && term_range_eq(&self.entries[i].1, range) {
                let r = self.entries[i].2;
                proof {
                    lemma_ranges_map_lookup(self.entries@, i as int);
                }
                return Some(r);
            }
            i = i + 1;
        }
        proof {
            lemma_ranges_map_contains(self.entries@);
            if self@.contains_key((field, range@)) {
                let j = choose|j: int|
                    0 <= j < self.entries@.len() && (self.entries@[j].0, self.entries@[j].1@) == (
                    field,
                    range@,
                    );
                assert((self.entries@[j].0, self.entries@[j].1@) != (field, range@));
            }
        }
        None
    }

    /// How many entries the map holds.
    pub fn len(&self) -> (n: usize)
        requires
            self.wf(),
        ensures
            n == self@.dom().len(),
    {
        proof {
            lemma_ranges_map_len(self.entries@);
        }
        self.entries.len()
    }
}

/// With unique keys, the map holds as many keys as the list has entries.
pub proof fn lemma_ranges_map_len(s: Seq<(FieldId, TermRange, bool)>)
    requires
        forall|a: int, b: int|
            0 <= a < b < s.len() ==> (s[a].0, s[a].1@) != (s[b].0, s[b].1@),
    ensures
        ranges_map(s).dom().finite(),
        ranges_map(s).dom().len() == s.len(),
    decreases s.len(),
{
    if s.len() == 0 {
        assert(ranges_map(s).dom() =~= Set::<(FieldId, TermRangeV)>::empty());
    } else {
        assert(forall|a: int, b: int|
            0 <= a < b < s.drop_last().len() ==> (s.drop_last()[a].0, s.drop_last()[a].1@) != (
            s.drop_last()[b].0,
            s.drop_last()[b].1@,
            ));
        lemma_ranges_map_len(s.drop_last());
        lemma_ranges_map_contains(s.drop_last());
        if ranges_map(s.drop_last()).contains_key((s.last().0, s.last().1@)) {
            let j = choose|j: int|
                0 <= j < s.drop_last().len() && (s.drop_last()[j].0, s.drop_last()[j].1@) == (
                s.last().0,
                s.last().1@,
                );
            assert((s[j].0, s[j].1@) == (s[s.len() - 1].0, s[s.len() - 1].1@));
        }
        assert(ranges_map(s).dom() =~= ranges_map(s.drop_last()).dom().insert(
            (s.last().0, s.last().1@),
        ));
    }
}

/// With unique keys, the map holds as many keys as the list has entries.
pub proof fn lemma_terms_map_len(s: Seq<(Term, bool)>)
    requires
        forall|a: int, b: int| 0 <= a < b < s.len() ==> s[a].0@ != s[b].0@,
    ensures
        terms_map(s).dom().finite(),
        terms_map(s).dom().len() == s.len(),
    decreases s.len(),
{
    if s.len() == 0 {
        assert(terms_map(s).dom() =~= Set::<TermV>::empty());
    } else {
        assert(forall|a: int, b: int|
            0 <= a < b < s.drop_last().len() ==> s.drop_last()[a].0@ != s.drop_last()[b].0@);
        lemma_terms_map_len(s.drop_last());
        lemma_terms_map_contains(s.drop_last());
        if terms_map(s.drop_last()).contains_key(s.last().0@) {
            let j = choose|j: int|
                0 <= j < s.drop_last().len() && s.drop_last()[j].0@ == s.last().0@;
            assert(s[j].0@ == s[s.len() - 1].0@);
        }
        assert(terms_map(s).dom() =~= terms_map(s.drop_last()).dom().insert(s.last().0@));
    }
}

} // verus!
