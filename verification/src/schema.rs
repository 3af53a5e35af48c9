use vstd::prelude::*;
use crate::term::FieldId;

verus! {

/// The declared value type of a schema field.
#[derive(Debug, Clone, Copy, PartialEq, Eq, Structural)]
pub enum FieldType {
    Text,
    U64,
    I64,
    F64,
    Bool,
    IpAddr,
    Date,
    Json,
}

/// Storage capabilities of a schema field.
#[derive(Debug, Clone, Copy, PartialEq, Eq, Structural)]
pub struct FieldCaps {
    pub indexed: bool,
    pub stored: bool,
    pub fast: bool,
}

/// One entry of the schema's catalog.
#[derive(Debug, Clone)]
pub struct FieldEntry {
    pub name: String,
    pub field_type: FieldType,
    pub caps: FieldCaps,
}

/// The mathematical value of a `FieldEntry`.
pub struct FieldEntryV {
    pub name: Seq<char>,
    pub field_type: FieldType,
    pub caps: FieldCaps,
}

impl View for FieldEntry {
    type V = FieldEntryV;

    open spec fn view(&self) -> FieldEntryV {
        FieldEntryV { name: self.name@, field_type: self.field_type, caps: self.caps }
    }
}

/// An ordered catalog of fields. A field's identifier is its position in
/// the catalog.
#[derive(Debug, Clone)]
pub struct Schema {
    pub fields: Vec<FieldEntry>,
}

impl View for Schema {
    type V = Seq<FieldEntryV>;

    open spec fn view(&self) -> Seq<FieldEntryV> {
        self.fields@.map_values(|e: FieldEntry| e@)
    }
}

/// The name under which a schema may carry its dynamic fallback field: a
/// JSON field of this name absorbs field names missing from the catalog.
pub open spec fn dynamic_field_name() -> Seq<char> {
    "_dynamic"@
}

/// The name of the dynamic fallback field.
pub fn dynamic_field_name_str() -> (r: &'static str)
    ensures
        r@ == dynamic_field_name(),
{
    "_dynamic"
}

/// The name of the field a document's original payload is stored under.
pub fn source_field_name_str() -> (r: &'static str)
    ensures
        r@ == "_source"@,
{
    "_source"
}

/// The position of the first catalog entry named `name`, or -1 when there
/// is none.
pub open spec fn find_field_idx(s: Seq<FieldEntryV>, name: Seq<char>) -> int
    decreases s.len(),
{
    if s.len() == 0 {
        -1
    } else if s[0].name == name {
        0
    } else {
        let rest = find_field_idx(s.drop_first(), name);
        if rest < 0 {
            -1
        } else {
            rest + 1
        }
    }
}

/// `find_field_idx` returns -1 exactly when no entry carries the name, and
/// otherwise the first position that does.
pub proof fn lemma_find_field_idx(s: Seq<FieldEntryV>, name: Seq<char>)
    ensures
        find_field_idx(s, name) < 0 ==> forall|i: int| 0 <= i < s.len() ==> s[i].name != name,
        find_field_idx(s, name) >= 0 ==> {
            &&& find_field_idx(s, name) < s.len()
            &&& s[find_field_idx(s, name)].name == name
            &&& forall|i: int| 0 <= i < find_field_idx(s, name) ==> s[i].name != name
        },
    decreases s.len(),
{
    if s.len() == 0 {
    } else if s[0].name == name {
    } else {
        lemma_find_field_idx(s.drop_first(), name);
        assert(forall|i: int| 0 < i < s.len() ==> s[i] == s.drop_first()[i - 1]);
    }
}

/// The position of the dynamic fallback field: a JSON-typed entry named as
/// `dynamic_field_name` says, or -1 when the schema has none.
pub open spec fn dynamic_field_idx(s: Seq<FieldEntryV>) -> int {
    let i = find_field_idx(s, dynamic_field_name());
    if i >= 0 && s[i].field_type == FieldType::Json {
        i
    } else {
        -1
    }
}

/// The position a field name resolves to: its exact catalog entry when one
/// exists, otherwise the dynamic fallback field, otherwise -1.
pub open spec fn resolve_idx(s: Seq<FieldEntryV>, name: Seq<char>) -> int {
    if find_field_idx(s, name) >= 0 {
        find_field_idx(s, name)
    } else {
        dynamic_field_idx(s)
    }
}

/// Returns true when the name resolves, exactly or through the dynamic
/// fallback field.
pub open spec fn resolves(s: Seq<FieldEntryV>, name: Seq<char>) -> bool {
    resolve_idx(s, name) >= 0
}

/// Returns true when the name resolves only through the dynamic fallback
/// field.
pub open spec fn resolved_is_dynamic(s: Seq<FieldEntryV>, name: Seq<char>) -> bool {
    find_field_idx(s, name) < 0 && dynamic_field_idx(s) >= 0
}

/// Returns true when the name resolves to a field whose storage is fast
/// (columnar).
pub open spec fn is_fast_spec(s: Seq<FieldEntryV>, name: Seq<char>) -> bool {
    resolves(s, name) && s[resolve_idx(s, name)].caps.fast
}

/// What a field name resolved to: the field identifier, what the entry
/// declares, and whether the dynamic fallback field answered.
#[derive(Debug, Clone, Copy)]
pub struct ResolvedField {
    pub field: FieldId,
    pub field_type: FieldType,
    pub fast: bool,
    pub is_dynamic: bool,
}

impl Schema {
    /// A schema's catalog cannot address more fields than identifiers
    /// exist for.
    pub open spec fn wf(&self) -> bool {
        self@.len() <= u32::MAX
    }

    /// How many fields the catalog holds.
    pub fn num_fields(&self) -> (n: usize)
        ensures
            n == self@.len(),
    {
        self.fields.len()
    }

    /// The position of the first catalog entry named `name`, if any.
    fn find_static(&self, name: &String) -> (r: Option<usize>)
        ensures
            r.is_some() == (find_field_idx(self@, name@) >= 0),
            r matches Some(i) ==> i as int == find_field_idx(self@, name@) && i < self@.len(),
    {
        let ghost s = self@;
        let mut i: usize = 0;
        while i < self.fields.len()
            invariant
                s == self@,
                0 <= i <= self.fields@.len(),
                s.len() == self.fields@.len(),
                forall|j: int| 0 <= j < i ==> s[j].name != name@,
            decreases self.fields@.len() - i,
        {
            if self.fields[i].name == *name {
                proof {
                    lemma_find_field_idx(s, name@);
                    assert(s[i as int].name == name@);
                }
                return Some(i);
            }
            i = i + 1;
        }
        proof {
            lemma_find_field_idx(s, name@);
        }
        None
    }

    /// The position of the dynamic fallback field, if the schema has one.
    fn find_dynamic(&self) -> (r: Option<usize>)
        ensures
            r.is_some() == (dynamic_field_idx(self@) >= 0),
            r matches Some(i) ==> i as int == dynamic_field_idx(self@) && i < self@.len(),
    {
        let dyn_name: String = dynamic_field_name_str().to_owned();
        match self.find_static(&dyn_name) {
            Some(i) => {
                match self.fields[i].field_type {
                    FieldType::Json => Some(i),
                    _ => None,
                }
            },
            None => None,
        }
    }
}

/// Resolves a field name against the schema: first by exact match against
/// the catalog, then through the dynamic fallback field, which absorbs the
/// name as a path into its JSON value.
pub fn find_field_or_hit_dynamic(name: &String, schema: &Schema) -> (r: Option<ResolvedField>)
    requires
        schema.wf(),
    ensures
        r.is_some() == resolves(schema@, name@),
        r matches Some(rf) ==> {
            &&& rf.field as int == resolve_idx(schema@, name@)
            &&& rf.field_type == schema@[resolve_idx(schema@, name@)].field_type
            &&& rf.fast == schema@[resolve_idx(schema@, name@)].caps.fast
            &&& rf.is_dynamic == resolved_is_dynamic(schema@, name@)
        },
{
    let (idx, is_dynamic) = match schema.find_static(name) {
        Some(i) => (i, false),
        None => {
            match schema.find_dynamic() {
                Some(i) => (i, true),
                None => {
                    return None;
                },
            }
        },
    };
    let entry = &schema.fields[idx];
    Some(
        ResolvedField {
            field: idx as FieldId,
            field_type: entry.field_type,
            fast: entry.caps.fast,
            is_dynamic,
        },
    )
}

/// Reports whether the name resolves to a fast (columnar) field; a name
/// that does not resolve at all is simply not fast. This is a lenient
/// probe: callers that must enforce existence resolve the name instead.
pub fn is_fast_field(schema: &Schema, field_name: &String) -> (r: bool)
    requires
        schema.wf(),
    ensures
        r == is_fast_spec(schema@, field_name@),
{
    match find_field_or_hit_dynamic(field_name, schema) {
        Some(resolved) => resolved.fast,
        None => false,
    }
}

/// Builds a schema catalog, one field at a time.
#[derive(Debug)]
pub struct SchemaBuilder {
    pub fields: Vec<FieldEntry>,
}

impl View for SchemaBuilder {
    type V = Seq<FieldEntryV>;

    open spec fn view(&self) -> Seq<FieldEntryV> {
        self.fields@.map_values(|e: FieldEntry| e@)
    }
}

impl SchemaBuilder {
    /// An empty catalog.
    pub fn new() -> (r: SchemaBuilder)
        ensures
            r@ =~= Seq::<FieldEntryV>::empty(),
    {
        SchemaBuilder { fields: Vec::new() }
    }

    /// Appends a field; its identifier is the position it lands at.
    pub fn add_field(&mut self, name: &str, field_type: FieldType, caps: FieldCaps)
        requires
            old(self)@.len() < u32::MAX,
        ensures
            final(self)@ =~= old(self)@.push(
                FieldEntryV { name: name@, field_type, caps },
            ),
    {
        self.fields.push(FieldEntry { name: name.to_owned(), field_type, caps });
        proof {
            assert(self.fields@.drop_last() == old(self).fields@);
        }
    }

    /// Closes the catalog.
    pub fn build(self) -> (r: Schema)
        requires
            self@.len() <= u32::MAX,
        ensures
            r@ == self@,
            r.wf(),
    {
        Schema { fields: self.fields }
    }
}

} // verus!
