//! Laws of the reconstruction pipeline, proved once and for all rows.

use vstd::prelude::*;
use crate::schema::{TagEntry, FieldEntry, spec_is_tag_key, spec_field_type_of};
use crate::value::{DynValue, DynVal, FieldVal, Number, RowWarnVal, spec_coerce};
use crate::point::{row_keys_unique, row_tags, row_fields, row_warnings, warn_of, is_time_key,
    pair_has_key, retagged, LineVal};
use crate::request::rendered_fields_of;

verus! {

/// Which keys of a row end up in the tag mapping: exactly the row's
/// keys that the catalog lists as tags.
pub proof fn lemma_row_tags_dom(
    tags: Seq<TagEntry>,
    fields: Seq<FieldEntry>,
    row: Seq<(String, DynValue)>,
)
    ensures
        forall|k: Seq<char>| #[trigger] row_tags(tags, fields, row).dom().contains(k) <==> (
        pair_has_key(row, k) && spec_is_tag_key(tags, k)),
    decreases row.len(),
{
    if row.len() > 0 {
        lemma_row_tags_dom(tags, fields, row.drop_last());
        assert forall|k: Seq<char>| #[trigger] row_tags(tags, fields, row).dom().contains(k)
            implies pair_has_key(row, k) && spec_is_tag_key(tags, k) by {
            if spec_is_tag_key(tags, row.last().0@) && k == row.last().0@ {
                assert(row[row.len() - 1].0@ == k);
            } else {
                assert(row_tags(tags, fields, row.drop_last()).dom().contains(k));
                let i = choose|i: int|
                    0 <= i < row.drop_last().len() && row.drop_last()[i].0@ == k;
                assert(row[i] == row.drop_last()[i]);
                assert(row[i].0@ == k);
            }
        }
        assert forall|k: Seq<char>| pair_has_key(row, k) && spec_is_tag_key(tags, k)
            implies #[trigger] row_tags(tags, fields, row).dom().contains(k) by {
            let i = choose|i: int| 0 <= i < row.len() && row[i].0@ == k;
            if i < row.len() - 1 {
                assert(row.drop_last()[i] == row[i]);
                assert(pair_has_key(row.drop_last(), k));
                assert(row_tags(tags, fields, row.drop_last()).dom().contains(k));
            } else {
                assert(k == row.last().0@);
            }
        }
    }
}

/// Which keys of a row end up in the field mapping: exactly the row's
/// keys that the catalog lists as fields and not as tags.
pub proof fn lemma_row_fields_dom(
    tags: Seq<TagEntry>,
    fields: Seq<FieldEntry>,
    row: Seq<(String, DynValue)>,
)
    ensures
        forall|k: Seq<char>| #[trigger] row_fields(tags, fields, row).dom().contains(k) <==> (
        pair_has_key(row, k) && !spec_is_tag_key(tags, k) && spec_field_type_of(fields, k)
            is Some),
    decreases row.len(),
{
    if row.len() > 0 {
        lemma_row_fields_dom(tags, fields, row.drop_last());
        assert forall|k: Seq<char>| #[trigger] row_fields(tags, fields, row).dom().contains(k)
            implies pair_has_key(row, k) && !spec_is_tag_key(tags, k) && spec_field_type_of(
            fields,
            k,
        ) is Some by {
            let lk = row.last().0@;
            if !spec_is_tag_key(tags, lk) && spec_field_type_of(fields, lk) is Some && k == lk {
                assert(row[row.len() - 1].0@ == k);
            } else {
                assert(row_fields(tags, fields, row.drop_last()).dom().contains(k));
                let i = choose|i: int|
                    0 <= i < row.drop_last().len() && row.drop_last()[i].0@ == k;
                assert(row[i] == row.drop_last()[i]);
                assert(row[i].0@ == k);
            }
        }
        assert forall|k: Seq<char>|
            pair_has_key(row, k) && !spec_is_tag_key(tags, k) && spec_field_type_of(fields, k)
                is Some implies #[trigger] row_fields(tags, fields, row).dom().contains(k) by {
            let i = choose|i: int| 0 <= i < row.len() && row[i].0@ == k;
            if i < row.len() - 1 {
                assert(row.drop_last()[i] == row[i]);
                assert(pair_has_key(row.drop_last(), k));
                assert(row_fields(tags, fields, row.drop_last()).dom().contains(k));
            } else {
                assert(k == row.last().0@);
            }
        }
    }
}

/// Schema partition completeness: a row key lands in at most one of the
/// three slots. The tag and field mappings of a reconstructed row are
/// disjoint, neither claims the timestamp slot, and a key that the
/// catalog lists both as a tag and as a field is resolved as a tag.
pub proof fn lemma_schema_partition(
    tags: Seq<TagEntry>,
    fields: Seq<FieldEntry>,
    row: Seq<(String, DynValue)>,
    k: Seq<char>,
)
    ensures
        !(row_tags(tags, fields, row).dom().contains(k) && row_fields(tags, fields, row)
            .dom().contains(k)),
        row_tags(tags, fields, row).dom().contains(k) ==> !is_time_key(tags, fields, k),
        row_fields(tags, fields, row).dom().contains(k) ==> !is_time_key(tags, fields, k),
        pair_has_key(row, k) && spec_is_tag_key(tags, k) ==> row_tags(tags, fields, row)
            .dom().contains(k) && !row_fields(tags, fields, row).dom().contains(k),
{
    lemma_row_tags_dom(tags, fields, row);
    lemma_row_fields_dom(tags, fields, row);
}

/// Whether a coerced field value denotes the same number, text or truth
/// value as the dynamic value it came from.
pub open spec fn represents(f: FieldVal, v: DynVal) -> bool {
    match f {
        FieldVal::Float(n) => match n {
            Number::UInt(u) => v == DynVal::UInt(u),
            Number::Int(i) => v == DynVal::Int(i),
            Number::Bits(b) => v == DynVal::FloatBits(b),
        },
        FieldVal::Integer(u) => v == DynVal::UInt(u) || (v matches DynVal::Int(i) && i >= 0 && i
            == u),
        FieldVal::Text(s) => v == DynVal::Text(s),
        FieldVal::Boolean(b) => v == DynVal::Bool(b),
    }
}

/// The value stored under a field key: under unique row keys, the field
/// mapping holds each field-classified entry's own value and type.
pub proof fn lemma_row_fields_at(
    tags: Seq<TagEntry>,
    fields: Seq<FieldEntry>,
    row: Seq<(String, DynValue)>,
    i: int,
)
    requires
        row_keys_unique(row),
        0 <= i < row.len(),
        !spec_is_tag_key(tags, row[i].0@),
        spec_field_type_of(fields, row[i].0@) is Some,
    ensures
        row_fields(tags, fields, row).dom().contains(row[i].0@),
        row_fields(tags, fields, row)[row[i].0@] == (
            row[i].1@,
            spec_field_type_of(fields, row[i].0@)->0,
        ),
    decreases row.len(),
{
    if i < row.len() - 1 {
        assert(row.drop_last()[i] == row[i]);
        lemma_row_fields_at(tags, fields, row.drop_last(), i);
        assert(row[i].0@ != row.last().0@);
    }
}

/// Type-preservation round trip: a field entry whose dynamic value is
/// well-formed for its declared type reaches the rendered write request
/// as exactly the coercion of that value, and the coercion denotes the
/// same number, text or truth value the row carried.
pub proof fn lemma_type_preservation(
    tags: Seq<TagEntry>,
    fields: Seq<FieldEntry>,
    row: Seq<(String, DynValue)>,
    i: int,
)
    requires
        row_keys_unique(row),
        0 <= i < row.len(),
        !spec_is_tag_key(tags, row[i].0@),
        spec_field_type_of(fields, row[i].0@) is Some,
        spec_coerce(row[i].1@, spec_field_type_of(fields, row[i].0@)->0) is Some,
    ensures
        rendered_fields_of(row_fields(tags, fields, row)).dom().contains(row[i].0@),
        rendered_fields_of(row_fields(tags, fields, row))[row[i].0@] == spec_coerce(
            row[i].1@,
            spec_field_type_of(fields, row[i].0@)->0,
        )->0,
        represents(
            rendered_fields_of(row_fields(tags, fields, row))[row[i].0@],
            row[i].1@,
        ),
{
    lemma_row_fields_at(tags, fields, row, i);
}

/// Tag overwrite idempotence on re-run: overwriting a tag that held the
/// old value with a new one, and then overwriting it back, restores the
/// point exactly; name, timestamp and fields pass through untouched.
/// `retagged` is what `set_tag` promises to leave behind.
pub proof fn lemma_retag_round_trip(
    v: LineVal,
    t: Seq<char>,
    old_v: Seq<char>,
    new_v: Seq<char>,
)
    requires
        v.tags.dom().contains(t),
        v.tags[t] == DynVal::Text(old_v),
    ensures
        retagged(retagged(v, t, new_v), t, old_v) == v,
{
    assert(retagged(retagged(v, t, new_v), t, old_v).tags =~= v.tags);
    assert(retagged(retagged(v, t, new_v), t, old_v) =~= v);
}

/// A row none of whose entries warrants a warning produces none.
proof fn lemma_no_warnings(
    tags: Seq<TagEntry>,
    fields: Seq<FieldEntry>,
    row: Seq<(String, DynValue)>,
)
    requires
        forall|j: int| 0 <= j < row.len() ==> warn_of(
            tags,
            fields,
            #[trigger] row[j].0@,
            row[j].1@,
        ) == Seq::<RowWarnVal>::empty(),
    ensures
        row_warnings(tags, fields, row) == Seq::<RowWarnVal>::empty(),
    decreases row.len(),
{
    if row.len() > 0 {
        assert forall|j: int| 0 <= j < row.drop_last().len() implies warn_of(
            tags,
            fields,
            #[trigger] row.drop_last()[j].0@,
            row.drop_last()[j].1@,
        ) == Seq::<RowWarnVal>::empty() by {
            assert(row.drop_last()[j] == row[j]);
        };
        lemma_no_warnings(tags, fields, row.drop_last());
        assert(row[row.len() - 1].0@ == row.last().0@);
        assert(row_warnings(tags, fields, row) =~= Seq::<RowWarnVal>::empty());
    }
}

/// Unknown key handling: a row with exactly one entry outside both
/// schemas, and no other warning-worthy entry, produces exactly one
/// warning, naming that key, and a point that holds no data under it.
pub proof fn lemma_unknown_key(
    tags: Seq<TagEntry>,
    fields: Seq<FieldEntry>,
    row: Seq<(String, DynValue)>,
    i: int,
)
    requires
        row_keys_unique(row),
        0 <= i < row.len(),
        !spec_is_tag_key(tags, row[i].0@),
        spec_field_type_of(fields, row[i].0@) is None,
        row[i].0@ != "time"@,
        forall|j: int| 0 <= j < row.len() && j != i ==> warn_of(
            tags,
            fields,
            #[trigger] row[j].0@,
            row[j].1@,
        ) == Seq::<RowWarnVal>::empty(),
    ensures
        row_warnings(tags, fields, row) == seq![RowWarnVal::Coercion(row[i].0@)],
        !row_tags(tags, fields, row).dom().contains(row[i].0@),
        !row_fields(tags, fields, row).dom().contains(row[i].0@),
    decreases row.len(),
{
    lemma_row_tags_dom(tags, fields, row);
    lemma_row_fields_dom(tags, fields, row);
    if i == row.len() - 1 {
        assert forall|j: int| 0 <= j < row.drop_last().len() implies warn_of(
            tags,
            fields,
            #[trigger] row.drop_last()[j].0@,
            row.drop_last()[j].1@,
        ) == Seq::<RowWarnVal>::empty() by {
            assert(row.drop_last()[j] == row[j]);
        };
        lemma_no_warnings(tags, fields, row.drop_last());
        assert(warn_of(tags, fields, row.last().0@, row.last().1@) =~= seq![
            RowWarnVal::Coercion(row[i].0@),
        ]);
        assert(row_warnings(tags, fields, row) =~= seq![RowWarnVal::Coercion(row[i].0@)]);
    } else {
        assert forall|j: int| 0 <= j < row.drop_last().len() && j != i implies warn_of(
            tags,
            fields,
            #[trigger] row.drop_last()[j].0@,
            row.drop_last()[j].1@,
        ) == Seq::<RowWarnVal>::empty() by {
            assert(row.drop_last()[j] == row[j]);
        };
        assert(row.drop_last()[i] == row[i]);
        lemma_unknown_key(tags, fields, row.drop_last(), i);
        assert(row[row.len() - 1].0@ == row.last().0@);
        assert(warn_of(tags, fields, row.last().0@, row.last().1@)
            == Seq::<RowWarnVal>::empty());
        assert(row_warnings(tags, fields, row) =~= seq![RowWarnVal::Coercion(row[i].0@)]);
    }
}

} // verus!
