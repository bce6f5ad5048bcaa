use influx_retag::driver::{DatabaseRename, MigrationError};
use influx_retag::point::LineEntry;
use influx_retag::request::WriteRequest;
use influx_retag::schema::{FieldEntry, FieldType, TagEntry};
use influx_retag::value::{coerce, DynValue, FieldValue, Number, RowWarning};

fn tag_entry(k: &str) -> TagEntry {
    TagEntry { tag_key: k.to_string() }
}

fn field_entry(k: &str, t: FieldType) -> FieldEntry {
    FieldEntry { field_key: k.to_string(), field_type: t }
}

fn lookup_tag<'a>(req: &'a WriteRequest, k: &str) -> Option<&'a String> {
    req.tags.iter().find(|p| p.0 == k).map(|p| &p.1)
}

fn lookup_field<'a>(req: &'a WriteRequest, k: &str) -> Option<&'a FieldValue> {
    req.fields.iter().find(|p| p.0 == k).map(|p| &p.1)
}

#[test]
fn parse_field_type_names() {
    assert_eq!(FieldType::parse("float"), Some(FieldType::Float));
    assert_eq!(FieldType::parse("integer"), Some(FieldType::Integer));
    assert_eq!(FieldType::parse("string"), Some(FieldType::Text));
    assert_eq!(FieldType::parse("boolean"), Some(FieldType::Boolean));
    assert_eq!(FieldType::parse("Float"), None);
    assert_eq!(FieldType::parse(""), None);
}

#[test]
fn coerce_preserves_well_formed_values() {
    let bits = 21.5f64.to_bits();
    assert_eq!(
        coerce(&DynValue::FloatBits(bits), FieldType::Float),
        Some(FieldValue::Float(Number::Bits(bits)))
    );
    assert_eq!(
        coerce(&DynValue::UInt(21), FieldType::Float),
        Some(FieldValue::Float(Number::UInt(21)))
    );
    assert_eq!(
        coerce(&DynValue::Int(-3), FieldType::Float),
        Some(FieldValue::Float(Number::Int(-3)))
    );
    assert_eq!(
        coerce(&DynValue::UInt(7), FieldType::Integer),
        Some(FieldValue::Integer(7))
    );
    assert_eq!(
        coerce(&DynValue::Int(7), FieldType::Integer),
        Some(FieldValue::Integer(7))
    );
    assert_eq!(
        coerce(&DynValue::Text("on".to_string()), FieldType::Text),
        Some(FieldValue::Text("on".to_string()))
    );
    assert_eq!(
        coerce(&DynValue::Bool(true), FieldType::Boolean),
        Some(FieldValue::Boolean(true))
    );
}

#[test]
fn coerce_rejects_ill_formed_values() {
    assert_eq!(coerce(&DynValue::Text("x".to_string()), FieldType::Float), None);
    assert_eq!(coerce(&DynValue::Int(-1), FieldType::Integer), None);
    assert_eq!(coerce(&DynValue::FloatBits(0), FieldType::Integer), None);
    assert_eq!(coerce(&DynValue::UInt(1), FieldType::Text), None);
    assert_eq!(coerce(&DynValue::Null, FieldType::Boolean), None);
    assert_eq!(coerce(&DynValue::UInt(0), FieldType::Boolean), None);
}

#[test]
fn reconstruct_routes_keys_by_schema() {
    let tags = vec![tag_entry("room")];
    let fields = vec![field_entry("value", FieldType::Float)];
    let bits = 21.5f64.to_bits();
    let row = vec![
        ("room".to_string(), DynValue::Text("a".to_string())),
        ("value".to_string(), DynValue::FloatBits(bits)),
        ("time".to_string(), DynValue::Text("2024-01-01T00:00:00Z".to_string())),
    ];
    let (entry, warnings) = LineEntry::new("temp", &tags, &fields, row);
    assert!(warnings.is_empty());
    assert_eq!(entry.name, "temp");
    assert_eq!(entry.time, 1_704_067_200_000_000_000u128);
    assert_eq!(entry.tags.len(), 1);
    assert_eq!(entry.tags[0].0, "room");
    assert_eq!(entry.tags[0].1, DynValue::Text("a".to_string()));
    assert_eq!(entry.fields.len(), 1);
    assert_eq!(entry.fields[0].0, "value");
    assert_eq!(entry.fields[0].1, DynValue::FloatBits(bits));
    assert_eq!(entry.fields[0].2, FieldType::Float);
}

#[test]
fn reconstruct_resolves_tag_field_clash_as_tag() {
    let tags = vec![tag_entry("room")];
    let fields = vec![field_entry("room", FieldType::Text)];
    let row = vec![("room".to_string(), DynValue::Text("a".to_string()))];
    let (entry, warnings) = LineEntry::new("temp", &tags, &fields, row);
    assert!(warnings.is_empty());
    assert_eq!(entry.tags.len(), 1);
    assert_eq!(entry.tags[0].0, "room");
    assert!(entry.fields.is_empty());
}

#[test]
fn timestamp_parses_to_exact_nanoseconds() {
    let tags: Vec<TagEntry> = Vec::new();
    let fields: Vec<FieldEntry> = Vec::new();
    let row = vec![(
        "time".to_string(),
        DynValue::Text("2023-01-01T00:00:00.123456789Z".to_string()),
    )];
    let (entry, warnings) = LineEntry::new("m", &tags, &fields, row);
    assert!(warnings.is_empty());
    assert_eq!(entry.time, 1_672_531_200_123_456_789u128);
}

#[test]
fn malformed_timestamp_defaults_to_zero_with_warning() {
    let tags: Vec<TagEntry> = Vec::new();
    let fields: Vec<FieldEntry> = Vec::new();
    let row = vec![("time".to_string(), DynValue::Text("not-a-time".to_string()))];
    let (entry, warnings) = LineEntry::new("m", &tags, &fields, row);
    assert_eq!(entry.time, 0);
    assert_eq!(
        warnings,
        vec![RowWarning::TimestampParse(DynValue::Text("not-a-time".to_string()))]
    );
}

#[test]
fn non_textual_timestamp_defaults_to_zero_with_warning() {
    let tags: Vec<TagEntry> = Vec::new();
    let fields: Vec<FieldEntry> = Vec::new();
    let row = vec![("time".to_string(), DynValue::UInt(5))];
    let (entry, warnings) = LineEntry::new("m", &tags, &fields, row);
    assert_eq!(entry.time, 0);
    assert_eq!(warnings, vec![RowWarning::TimestampParse(DynValue::UInt(5))]);
}

#[test]
fn unknown_key_is_dropped_with_one_warning() {
    let tags = vec![tag_entry("room")];
    let fields = vec![field_entry("value", FieldType::Float)];
    let row = vec![
        ("room".to_string(), DynValue::Text("a".to_string())),
        ("mystery".to_string(), DynValue::UInt(1)),
    ];
    let (entry, warnings) = LineEntry::new("temp", &tags, &fields, row);
    assert_eq!(warnings, vec![RowWarning::Coercion("mystery".to_string())]);
    assert_eq!(entry.tags.len(), 1);
    assert!(entry.fields.is_empty());
    assert!(!entry.tags.iter().any(|p| p.0 == "mystery"));
}

#[test]
fn set_tag_overwrites_and_inserts() {
    let tags = vec![tag_entry("room")];
    let fields: Vec<FieldEntry> = Vec::new();
    let row = vec![("room".to_string(), DynValue::Text("a".to_string()))];
    let (mut entry, _) = LineEntry::new("temp", &tags, &fields, row);
    entry.set_tag("room", "b");
    assert_eq!(entry.tags.len(), 1);
    assert_eq!(entry.tags[0].1, DynValue::Text("b".to_string()));
    entry.set_tag("floor", "2");
    assert_eq!(entry.tags.len(), 2);
    assert_eq!(entry.tags[1].0, "floor");
    assert_eq!(entry.tags[1].1, DynValue::Text("2".to_string()));
}

#[test]
fn renaming_back_restores_the_tag() {
    let tags = vec![tag_entry("room")];
    let fields = vec![field_entry("value", FieldType::Float)];
    let bits = 21.5f64.to_bits();
    let row = vec![
        ("room".to_string(), DynValue::Text("a".to_string())),
        ("value".to_string(), DynValue::FloatBits(bits)),
    ];
    let (mut entry, _) = LineEntry::new("temp", &tags, &fields, row);
    entry.set_tag("room", "b");
    entry.set_tag("room", "a");
    assert_eq!(entry.tags.len(), 1);
    assert_eq!(entry.tags[0].0, "room");
    assert_eq!(entry.tags[0].1, DynValue::Text("a".to_string()));
    assert_eq!(entry.fields.len(), 1);
    assert_eq!(entry.fields[0].1, DynValue::FloatBits(bits));
}

#[test]
fn render_preserves_typed_values() {
    let tags = vec![tag_entry("room")];
    let fields = vec![
        field_entry("f", FieldType::Float),
        field_entry("i", FieldType::Integer),
        field_entry("s", FieldType::Text),
        field_entry("b", FieldType::Boolean),
    ];
    let bits = 21.5f64.to_bits();
    let row = vec![
        ("room".to_string(), DynValue::Text("a".to_string())),
        ("f".to_string(), DynValue::FloatBits(bits)),
        ("i".to_string(), DynValue::UInt(42)),
        ("s".to_string(), DynValue::Text("hi".to_string())),
        ("b".to_string(), DynValue::Bool(false)),
    ];
    let (entry, _) = LineEntry::new("temp", &tags, &fields, row);
    let req = entry.get_query();
    assert_eq!(req.measurement, "temp");
    assert_eq!(lookup_tag(&req, "room"), Some(&"a".to_string()));
    assert_eq!(lookup_field(&req, "f"), Some(&FieldValue::Float(Number::Bits(bits))));
    assert_eq!(f64::from_bits(bits), 21.5);
    assert_eq!(lookup_field(&req, "i"), Some(&FieldValue::Integer(42)));
    assert_eq!(lookup_field(&req, "s"), Some(&FieldValue::Text("hi".to_string())));
    assert_eq!(lookup_field(&req, "b"), Some(&FieldValue::Boolean(false)));
}

#[test]
fn render_drops_ill_formed_values() {
    let tags = vec![tag_entry("room")];
    let fields = vec![field_entry("i", FieldType::Integer)];
    let row = vec![
        ("room".to_string(), DynValue::UInt(9)),
        ("i".to_string(), DynValue::Text("x".to_string())),
    ];
    let (entry, _) = LineEntry::new("temp", &tags, &fields, row);
    let req = entry.get_query();
    assert!(req.tags.is_empty());
    assert!(req.fields.is_empty());
}

#[test]
fn query_texts_are_exact() {
    let db = DatabaseRename {
        host: "http://localhost:8086".to_string(),
        token: "t".to_string(),
        bucket: "b".to_string(),
        measurement: "temp".to_string(),
    };
    assert_eq!(db.tag_keys_query(), "SHOW TAG KEYS FROM temp");
    assert_eq!(db.field_keys_query(), "SHOW FIELD KEYS FROM temp");
    assert_eq!(
        db.read_query("room", "a"),
        "SELECT * FROM temp WHERE (\"room\"::tag = 'a')"
    );
}

#[test]
fn end_to_end_rename_scenario() {
    let db = DatabaseRename {
        host: "http://localhost:8086".to_string(),
        token: "t".to_string(),
        bucket: "b".to_string(),
        measurement: "temp".to_string(),
    };
    let tags = vec![tag_entry("room")];
    let fields = vec![field_entry("value", FieldType::Float)];
    let bits = 21.5f64.to_bits();
    let row = vec![
        ("room".to_string(), DynValue::Text("a".to_string())),
        ("value".to_string(), DynValue::FloatBits(bits)),
        ("time".to_string(), DynValue::Text("2024-01-01T00:00:00Z".to_string())),
    ];
    let (req, warnings) = db.process_row(&tags, &fields, row, "room", "b");
    assert!(warnings.is_empty());
    assert_eq!(req.measurement, "temp");
    assert_eq!(req.timestamp_nanos, 1_704_067_200_000_000_000u128);
    assert_eq!(req.tags.len(), 1);
    assert_eq!(lookup_tag(&req, "room"), Some(&"b".to_string()));
    assert_eq!(req.fields.len(), 1);
    assert_eq!(lookup_field(&req, "value"), Some(&FieldValue::Float(Number::Bits(bits))));
    assert_eq!(f64::from_bits(bits), 21.5);
}

#[test]
fn migration_error_descriptions() {
    assert_eq!(MigrationError::SchemaFetch.describe(), "schema metadata query failed");
    assert_eq!(MigrationError::RowFetch.describe(), "row query failed");
    assert_eq!(MigrationError::Write.describe(), "write failed");
}

#[test]
fn field_type_first_entry_wins() {
    let tags: Vec<TagEntry> = Vec::new();
    let fields = vec![
        field_entry("v", FieldType::Integer),
        field_entry("v", FieldType::Text),
    ];
    let row = vec![("v".to_string(), DynValue::UInt(3))];
    let (entry, warnings) = LineEntry::new("m", &tags, &fields, row);
    assert!(warnings.is_empty());
    assert_eq!(entry.fields[0].2, FieldType::Integer);
}

#[test]
fn schema_claimed_time_key_is_not_a_timestamp() {
    let tags = vec![tag_entry("time")];
    let fields: Vec<FieldEntry> = Vec::new();
    let row = vec![("time".to_string(), DynValue::Text("2024-01-01T00:00:00Z".to_string()))];
    let (entry, warnings) = LineEntry::new("m", &tags, &fields, row);
    assert!(warnings.is_empty());
    assert_eq!(entry.time, 0);
    assert_eq!(entry.tags.len(), 1);
    assert_eq!(entry.tags[0].0, "time");
}
