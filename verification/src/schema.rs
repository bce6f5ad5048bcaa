//! Schema catalog: which keys of a measurement are tags, which are
//! fields, and the declared type of each field.

use vstd::prelude::*;
use vstd::string::StringExecFns;

verus! {

/// Declared type of a field, fixed per field name for one migration run.
/// The store's schema names these `float`, `integer`, `string`, `boolean`.
#[derive(Clone, Copy, PartialEq, Eq, Structural, Debug)]
pub enum FieldType {
    Float,
    Integer,
    Text,
    Boolean,
}

impl FieldType {
    /// Decodes the textual type name used by the store's schema rows.
    /// Returns `None` for any other text.
    pub fn parse(s: &str) -> (r: Option<FieldType>)
        ensures
            r == spec_parse_field_type(s@),
    {
        let owned = s.to_owned();
        if owned == String::from_str("float") {
            Some(FieldType::Float)
        } else if owned == String::from_str("integer") {
            Some(FieldType::Integer)
        } else if owned == String::from_str("string") {
            Some(FieldType::Text)
        } else if owned == String::from_str("boolean") {
            Some(FieldType::Boolean)
        } else {
            None
        }
    }
}

/// What `FieldType::parse` accepts, and the type each name denotes.
pub open spec fn spec_parse_field_type(s: Seq<char>) -> Option<FieldType> {
    if s == "float"@ {
        Some(FieldType::Float)
    } else if s == "integer"@ {
        Some(FieldType::Integer)
    } else if s == "string"@ {
        Some(FieldType::Text)
    } else if s == "boolean"@ {
        Some(FieldType::Boolean)
    } else {
        None
    }
}

/// A key known to be a tag of the measurement.
#[derive(Debug)]
pub struct TagEntry {
    pub tag_key: String,
}

/// A key known to be a field of the measurement, with its declared type.
#[derive(Debug)]
pub struct FieldEntry {
    pub field_key: String,
    pub field_type: FieldType,
}

/// A key is a tag key iff some catalog entry carries its name.
pub open spec fn spec_is_tag_key(tags: Seq<TagEntry>, k: Seq<char>) -> bool {
    exists|i: int| 0 <= i < tags.len() && tags[i].tag_key@ == k
}

/// Declared type of key `k`: that of the first field entry with its name.
pub open spec fn spec_field_type_of(fields: Seq<FieldEntry>, k: Seq<char>) -> Option<FieldType>
    decreases fields.len(),
{
    if fields.len() == 0 {
        None
    } else if fields[0].field_key@ == k {
        Some(fields[0].field_type)
    } else {
        spec_field_type_of(fields.drop_first(), k)
    }
}

proof fn lemma_field_type_of_skip(fields: Seq<FieldEntry>, k: Seq<char>, i: int)
    requires
        0 <= i < fields.len(),
        fields[i].field_key@ != k,
    ensures
        spec_field_type_of(fields.skip(i), k) == spec_field_type_of(fields.skip(i + 1), k),
{
    assert(fields.skip(i)[0] == fields[i]);
    assert(fields.skip(i).drop_first() =~= fields.skip(i + 1));
}

pub fn is_tag_key(tags: &Vec<TagEntry>, k: &String) -> (r: bool)
    ensures
        r == spec_is_tag_key(tags@, k@),
{
    let mut i: usize = 0;
    while i < tags.len()
        invariant
            0 <= i <= tags@.len(),
            forall|j: int| 0 <= j < i ==> tags@[j].tag_key@ != k@,
        decreases tags@.len() - i,
    {
        if tags[i].tag_key == *k {
            return true;
        }
        i += 1;
    }
    false
}

pub fn field_type_of(fields: &Vec<FieldEntry>, k: &String) -> (r: Option<FieldType>)
    ensures
        r == spec_field_type_of(fields@, k@),
{
    let mut i: usize = 0;
    proof {
        assert(fields@.skip(0) =~= fields@);
    }
    while i < fields.len()
        invariant
            0 <= i <= fields@.len(),
            spec_field_type_of(fields@, k@) == spec_field_type_of(fields@.skip(i as int), k@),
        decreases fields@.len() - i,
    {
        if fields[i].field_key == *k {
            assert(fields@.skip(i as int)[0] == fields@[i as int]);
            return Some(fields[i].field_type);
        }
        proof {
            lemma_field_type_of_skip(fields@, k@, i as int);
        }
        i += 1;
    }
    proof {
        assert(fields@.skip(fields@.len() as int) =~= Seq::<FieldEntry>::empty());
    }
    None
}

/// The slot one row key is routed to. A key that is both a tag key and a
/// field key counts as a tag; the reserved key `time` carries the
/// timestamp only when the schema claims it neither as tag nor as field.
pub enum KeyClass {
    Tag,
    Field(FieldType),
    Time,
    Unknown,
}

/// Routing rule for one row key, in priority order: tag, then field,
/// then the reserved timestamp key, then unknown.
pub open spec fn classify(tags: Seq<TagEntry>, fields: Seq<FieldEntry>, k: Seq<char>) -> KeyClass {
    if spec_is_tag_key(tags, k) {
        KeyClass::Tag
    } else if spec_field_type_of(fields, k) is Some {
        KeyClass::Field(spec_field_type_of(fields, k)->0)
    } else if k == "time"@ {
        KeyClass::Time
    } else {
        KeyClass::Unknown
    }
}

} // verus!
