//! Points: one typed time-series record, reconstructed from a flattened
//! dynamic row with the help of the schema catalog.

use vstd::prelude::*;
use vstd::map::*;
use vstd::string::StringExecFns;
use vstd::pervasive::VecAdditionalExecFns;
use crate::schema::{TagEntry, FieldEntry, FieldType, spec_is_tag_key, spec_field_type_of,
    is_tag_key, field_type_of};
use crate::value::{DynValue, DynVal, RowWarning, RowWarnVal};
use crate::timefmt::{spec_time_of, spec_time_malformed, parse_rfc3339_nanos, wrap_nanos};

verus! {

/// No two entries of the sequence carry the same key.
pub open spec fn pair_keys_unique(s: Seq<(String, DynValue)>) -> bool {
    forall|i: int, j: int| 0 <= i < j < s.len() ==> s[i].0@ != s[j].0@
}

/// No two entries of the sequence carry the same key.
pub open spec fn triple_keys_unique(s: Seq<(String, DynValue, FieldType)>) -> bool {
    forall|i: int, j: int| 0 <= i < j < s.len() ==> s[i].0@ != s[j].0@
}

/// Some entry of the sequence carries key `k`.
pub open spec fn pair_has_key(s: Seq<(String, DynValue)>, k: Seq<char>) -> bool {
    exists|i: int| 0 <= i < s.len() && s[i].0@ == k
}

/// The mapping a key/value sequence denotes; a later entry overrides an
/// earlier one with the same key.
pub open spec fn pairs_map(s: Seq<(String, DynValue)>) -> Map<Seq<char>, DynVal>
    decreases s.len(),
{
    if s.len() == 0 {
        Map::empty()
    } else {
        pairs_map(s.drop_last()).insert(s.last().0@, s.last().1@)
    }
}

/// The mapping a key/value/type sequence denotes.
pub open spec fn triples_map(s: Seq<(String, DynValue, FieldType)>) -> Map<
    Seq<char>,
    (DynVal, FieldType),
>
    decreases s.len(),
{
    if s.len() == 0 {
        Map::empty()
    } else {
        triples_map(s.drop_last()).insert(s.last().0@, (s.last().1@, s.last().2))
    }
}

/// The domain of `pairs_map` is exactly the set of keys in the sequence.
pub proof fn lemma_pairs_map_dom(s: Seq<(String, DynValue)>)
    ensures
        forall|k: Seq<char>| #[trigger] pairs_map(s).dom().contains(k) <==> pair_has_key(s, k),
    decreases s.len(),
{
    if s.len() > 0 {
        lemma_pairs_map_dom(s.drop_last());
        assert forall|k: Seq<char>| #[trigger] pairs_map(s).dom().contains(k) implies pair_has_key(
            s,
            k,
        ) by {
            if k == s.last().0@ {
                assert(s[s.len() - 1].0@ == k);
            } else {
                assert(pairs_map(s.drop_last()).dom().contains(k));
                assert(pair_has_key(s.drop_last(), k));
                let i = choose|i: int| 0 <= i < s.drop_last().len() && s.drop_last()[i].0@ == k;
                assert(s.drop_last()[i] == s[i]);
                assert(s[i].0@ == k);
            }
        }
        assert forall|k: Seq<char>| pair_has_key(s, k) implies #[trigger] pairs_map(
            s,
        ).dom().contains(k) by {
            let i = choose|i: int| 0 <= i < s.len() && s[i].0@ == k;
            if i < s.len() - 1 {
                assert(s.drop_last()[i] == s[i]);
                assert(pair_has_key(s.drop_last(), k));
                assert(pairs_map(s.drop_last()).dom().contains(k));
            } else {
                assert(k == s.last().0@);
            }
        }
    }
}

/// Appending an entry inserts its key.
pub proof fn lemma_pairs_map_push(s: Seq<(String, DynValue)>, p: (String, DynValue))
    ensures
        pairs_map(s.push(p)) == pairs_map(s).insert(p.0@, p.1@),
{
    assert(s.push(p).drop_last() =~= s);
    assert(s.push(p).last() == p);
}

/// Appending an entry inserts its key.
pub proof fn lemma_triples_map_push(
    s: Seq<(String, DynValue, FieldType)>,
    p: (String, DynValue, FieldType),
)
    ensures
        triples_map(s.push(p)) == triples_map(s).insert(p.0@, (p.1@, p.2)),
{
    assert(s.push(p).drop_last() =~= s);
    assert(s.push(p).last() == p);
}

/// Under unique keys, overwriting the entry at `i` in place is an
/// insertion at its key.
pub proof fn lemma_pairs_map_update(s: Seq<(String, DynValue)>, i: int, p: (String, DynValue))
    requires
        pair_keys_unique(s),
        0 <= i < s.len(),
        p.0@ == s[i].0@,
    ensures
        pairs_map(s.update(i, p)) == pairs_map(s).insert(p.0@, p.1@),
    decreases s.len(),
{
    if i == s.len() - 1 {
        assert(s.update(i, p).drop_last() =~= s.drop_last());
        assert(s.update(i, p).last() == p);
        assert(pairs_map(s.update(i, p)) == pairs_map(s.drop_last()).insert(p.0@, p.1@));
        assert(pairs_map(s.drop_last()).insert(s.last().0@, s.last().1@).insert(p.0@, p.1@)
            =~= pairs_map(s.drop_last()).insert(p.0@, p.1@));
    } else {
        assert(s.update(i, p).drop_last() =~= s.drop_last().update(i, p));
        assert(s.drop_last()[i] == s[i]);
        lemma_pairs_map_update(s.drop_last(), i, p);
        assert(s.update(i, p).last() == s.last());
        assert(pairs_map(s.update(i, p)) == pairs_map(s.drop_last()).insert(p.0@, p.1@).insert(
            s.last().0@,
            s.last().1@,
        ));
        assert(s.last().0@ != p.0@);
        assert(pairs_map(s.drop_last()).insert(p.0@, p.1@).insert(s.last().0@, s.last().1@)
            =~= pairs_map(s.drop_last()).insert(s.last().0@, s.last().1@).insert(p.0@, p.1@));
    }
}

/// No two entries of the row carry the same key; what a flattened row
/// from the query layer guarantees.
pub open spec fn row_keys_unique(row: Seq<(String, DynValue)>) -> bool {
    forall|i: int, j: int| 0 <= i < j < row.len() ==> row[i].0@ != row[j].0@
}

/// The tag mapping a row denotes under a schema: every entry whose key
/// the catalog lists as a tag, with its dynamic value kept as it came.
pub open spec fn row_tags(
    tags: Seq<TagEntry>,
    fields: Seq<FieldEntry>,
    row: Seq<(String, DynValue)>,
) -> Map<Seq<char>, DynVal>
    decreases row.len(),
{
    if row.len() == 0 {
        Map::empty()
    } else {
        let m = row_tags(tags, fields, row.drop_last());
        if spec_is_tag_key(tags, row.last().0@) {
            m.insert(row.last().0@, row.last().1@)
        } else {
            m
        }
    }
}

/// The field mapping a row denotes under a schema: every entry whose key
/// the catalog lists as a field and not as a tag, paired with the
/// field's declared type. Coercion to that type happens when the point
/// is rendered, not here.
pub open spec fn row_fields(
    tags: Seq<TagEntry>,
    fields: Seq<FieldEntry>,
    row: Seq<(String, DynValue)>,
) -> Map<Seq<char>, (DynVal, FieldType)>
    decreases row.len(),
{
    if row.len() == 0 {
        Map::empty()
    } else {
        let m = row_fields(tags, fields, row.drop_last());
        let k = row.last().0@;
        if !spec_is_tag_key(tags, k) && spec_field_type_of(fields, k) is Some {
            m.insert(k, (row.last().1@, spec_field_type_of(fields, k)->0))
        } else {
            m
        }
    }
}

/// Whether a key addresses the timestamp slot: the reserved name `time`,
/// claimed by neither the tag nor the field schema.
pub open spec fn is_time_key(
    tags: Seq<TagEntry>,
    fields: Seq<FieldEntry>,
    k: Seq<char>,
) -> bool {
    !spec_is_tag_key(tags, k) && spec_field_type_of(fields, k) is None && k == "time"@
}

/// The timestamp a row denotes: the parsed value of its timestamp entry,
/// zero when there is none or when its text does not parse.
pub open spec fn row_time(
    tags: Seq<TagEntry>,
    fields: Seq<FieldEntry>,
    row: Seq<(String, DynValue)>,
) -> u128
    decreases row.len(),
{
    if row.len() == 0 {
        0
    } else if is_time_key(tags, fields, row.last().0@) {
        spec_time_of(row.last().1@)
    } else {
        row_time(tags, fields, row.drop_last())
    }
}

/// The warnings one row entry contributes: one for a key outside the
/// schema, one for a malformed timestamp value, none otherwise.
pub open spec fn warn_of(
    tags: Seq<TagEntry>,
    fields: Seq<FieldEntry>,
    k: Seq<char>,
    v: DynVal,
) -> Seq<RowWarnVal> {
    if spec_is_tag_key(tags, k) || spec_field_type_of(fields, k) is Some {
        Seq::empty()
    } else if k == "time"@ {
        if spec_time_malformed(v) {
            seq![RowWarnVal::TimestampParse(v)]
        } else {
            Seq::empty()
        }
    } else {
        seq![RowWarnVal::Coercion(k)]
    }
}

/// The warnings a whole row produces, in row order.
pub open spec fn row_warnings(
    tags: Seq<TagEntry>,
    fields: Seq<FieldEntry>,
    row: Seq<(String, DynValue)>,
) -> Seq<RowWarnVal>
    decreases row.len(),
{
    if row.len() == 0 {
        Seq::empty()
    } else {
        row_warnings(tags, fields, row.drop_last()) + warn_of(
            tags,
            fields,
            row.last().0@,
            row.last().1@,
        )
    }
}

/// One typed time-series record: a measurement name, a nanosecond
/// timestamp, string-keyed tags, and string-keyed fields each paired
/// with its declared type.
#[derive(Debug)]
pub struct LineEntry {
    pub name: String,
    pub time: u128,
    pub tags: Vec<(String, DynValue)>,
    pub fields: Vec<(String, DynValue, FieldType)>,
}

/// Mathematical model of a point: tag and field mappings keyed by name.
#[verifier::ext_equal]
pub struct LineVal {
    pub name: Seq<char>,
    pub time: u128,
    pub tags: Map<Seq<char>, DynVal>,
    pub fields: Map<Seq<char>, (DynVal, FieldType)>,
}

/// A point with one tag overwritten (or inserted): what `set_tag`
/// leaves behind. Name, timestamp and fields pass through unchanged.
pub open spec fn retagged(v: LineVal, tag: Seq<char>, val: Seq<char>) -> LineVal {
    LineVal { tags: v.tags.insert(tag, DynVal::Text(val)), ..v }
}

impl View for LineEntry {
    type V = LineVal;

    open spec fn view(&self) -> LineVal {
        LineVal {
            name: self.name@,
            time: self.time,
            tags: pairs_map(self.tags@),
            fields: triples_map(self.fields@),
        }
    }
}

impl LineEntry {
    /// Each tag name and each field name is held at most once.
    pub open spec fn wf(&self) -> bool {
        pair_keys_unique(self.tags@) && triple_keys_unique(self.fields@)
    }

    /// Reconstructs a typed point from a flattened dynamic row, routing
    /// every row entry by the schema catalog: tags as they came, fields
    /// with their declared type, the reserved `time` key into the
    /// timestamp, and anything else into a warning and out of the point.
    pub fn new(
        name: &str,
        tag_entries: &Vec<TagEntry>,
        field_entries: &Vec<FieldEntry>,
        data: Vec<(String, DynValue)>,
    ) -> (r: (LineEntry, Vec<RowWarning>))
        requires
            row_keys_unique(data@),
        ensures
            r.0.wf(),
            r.0@.name == name@,
            r.0@.time == row_time(tag_entries@, field_entries@, data@),
            r.0@.tags == row_tags(tag_entries@, field_entries@, data@),
            r.0@.fields == row_fields(tag_entries@, field_entries@, data@),
            r.1@.map_values(|w: RowWarning| w@) == row_warnings(
                tag_entries@,
                field_entries@,
                data@,
            ),
    {
        let ghost row = data@;
        let mut data = data;
        let mut tags: Vec<(String, DynValue)> = Vec::new();
        let mut fields: Vec<(String, DynValue, FieldType)> = Vec::new();
        let mut time: u128 = 0;
        let mut warnings: Vec<RowWarning> = Vec::new();
        let time_key = String::from_str("time");
        let mut i: usize = 0;
        let total: usize = data.len();
        proof {
            assert(row.len() == total);
            assert(row.skip(0) =~= row);
            assert(row.take(0) =~= Seq::<(String, DynValue)>::empty());
        }
        while data.len() > 0
            invariant
                row.len() <= usize::MAX,
                i + data@.len() == row.len(),
                data@ == row.skip(i as int),
                row_keys_unique(row),
                time_key@ == "time"@,
                pair_keys_unique(tags@),
                triple_keys_unique(fields@),
                forall|j: int| 0 <= j < tags@.len()
                    ==> pair_has_key(row.take(i as int), #[trigger] tags@[j].0@),
                forall|j: int| 0 <= j < fields@.len()
                    ==> pair_has_key(row.take(i as int), #[trigger] fields@[j].0@),
                pairs_map(tags@) == row_tags(tag_entries@, field_entries@, row.take(i as int)),
                triples_map(fields@) == row_fields(
                    tag_entries@,
                    field_entries@,
                    row.take(i as int),
                ),
                time == row_time(tag_entries@, field_entries@, row.take(i as int)),
                warnings@.map_values(|w: RowWarning| w@) == row_warnings(
                    tag_entries@,
                    field_entries@,
                    row.take(i as int),
                ),
            decreases data@.len(),
        {
            let (k, v) = data.remove(0);
            proof {
                assert(row.skip(i as int)[0] == row[i as int]);
                assert(row.skip(i as int).remove(0) =~= row.skip(i as int + 1));
                assert(row.take(i as int + 1).drop_last() =~= row.take(i as int));
                assert(row.take(i as int + 1).last() == row[i as int]);
                assert forall|k2: Seq<char>| pair_has_key(row.take(i as int), k2)
                    implies pair_has_key(row.take(i as int + 1), k2) by {
                    let j = choose|j: int|
                        0 <= j < row.take(i as int).len() && row.take(i as int)[j].0@ == k2;
                    assert(row.take(i as int + 1)[j].0@ == k2);
                };
                assert forall|j: int| 0 <= j < i implies row[j].0@ != row[i as int].0@ by {};
                assert(!pair_has_key(row.take(i as int), row[i as int].0@));
            }
            if is_tag_key(tag_entries, &k) {
                proof {
                    assert forall|j: int| 0 <= j < tags@.len()
                        implies tags@[j].0@ != k@ by {
                        assert(pair_has_key(row.take(i as int), tags@[j].0@));
                    };
                    lemma_pairs_map_push(tags@, (k, v));
                    assert(pair_has_key(row.take(i as int + 1), k@)) by {
                        assert(row.take(i as int + 1)[i as int].0@ == k@);
                    };
                }
                tags.push((k, v));
            } else if let Some(t) = field_type_of(field_entries, &k) {
                proof {
                    assert forall|j: int| 0 <= j < fields@.len()
                        implies fields@[j].0@ != k@ by {
                        assert(pair_has_key(row.take(i as int), fields@[j].0@));
                    };
                    lemma_triples_map_push(fields@, (k, v, t));
                    assert(pair_has_key(row.take(i as int + 1), k@)) by {
                        assert(row.take(i as int + 1)[i as int].0@ == k@);
                    };
                }
                fields.push((k, v, t));
            } else if k == time_key {
                let parsed: Option<Option<i64>> = match &v {
                    DynValue::Text(s) => parse_rfc3339_nanos(s.as_str()),
                    _ => None,
                };
                match parsed {
                    Some(nanos) => {
                        time = match nanos {
                            Some(n) => wrap_nanos(n),
                            None => 0,
                        };
                    },
                    None => {
                        time = 0;
                        warnings.push(RowWarning::TimestampParse(v));
                    },
                }
            } else {
                warnings.push(RowWarning::Coercion(k));
            }
            i += 1;
            proof {
                assert(warnings@.map_values(|w: RowWarning| w@) =~= row_warnings(
                    tag_entries@,
                    field_entries@,
                    row.take(i as int),
                ));
            }
        }
        proof {
            assert(row.take(row.len() as int) =~= row);
        }
        let entry = LineEntry { name: name.to_owned(), time, tags, fields };
        (entry, warnings)
    }

    /// Overwrites the tag named `tag_name` with `new_val`, inserting the
    /// tag when the point does not carry it. Name, timestamp and fields
    /// are untouched.
    pub fn set_tag(&mut self, tag_name: &str, new_val: &str)
        requires
            old(self).wf(),
        ensures
            final(self).wf(),
            final(self)@ == retagged(old(self)@, tag_name@, new_val@),
    {
        let key = tag_name.to_owned();
        let value = DynValue::Text(new_val.to_owned());
        let mut i: usize = 0;
        while i < self.tags.len()
            invariant
                0 <= i <= self.tags@.len(),
                forall|j: int| 0 <= j < i ==> self.tags@[j].0@ != key@,
                key@ == tag_name@,
                value@ == DynVal::Text(new_val@),
                self.tags@ == old(self).tags@,
                self.fields@ == old(self).fields@,
                self.name == old(self).name,
                self.time == old(self).time,
                old(self).wf(),
            decreases self.tags@.len() - i,
        {
            if self.tags[i].0 == key {
                proof {
                    lemma_pairs_map_update(self.tags@, i as int, (key, value));
                    assert forall|p: int, q: int|
                        0 <= p < q < self.tags@.update(i as int, (key, value)).len()
                        implies self.tags@.update(i as int, (key, value))[p].0@
                            != self.tags@.update(i as int, (key, value))[q].0@ by {
                        assert(self.tags@[p].0@ != self.tags@[q].0@);
                    };
                }
                self.tags.set(i, (key, value));
                return ;
            }
            i += 1;
        }
        proof {
            lemma_pairs_map_push(self.tags@, (key, value));
            assert forall|p: int, q: int| 0 <= p < q < self.tags@.push((key, value)).len()
                implies self.tags@.push((key, value))[p].0@
                    != self.tags@.push((key, value))[q].0@ by {
                if q < self.tags@.len() {
                    assert(self.tags@[p].0@ != self.tags@[q].0@);
                } else {
                    assert(self.tags@.push((key, value))[q].0@ == key@);
                    assert(self.tags@[p].0@ != key@);
                }
            };
        }
        self.tags.push((key, value));
    }
}

} // verus!
