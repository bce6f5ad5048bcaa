//! Migration driver decisions: the query texts the run issues, the
//! per-row pipeline (reconstruct, overwrite the tag, render), and the
//! fatal error taxonomy. The surrounding process performs the store
//! calls and feeds their results back in as plain values.

use vstd::prelude::*;
use vstd::string::StringExecFns;
use crate::schema::{TagEntry, FieldEntry};
use crate::value::{DynValue, DynVal, RowWarning};
use crate::point::{LineEntry, row_keys_unique, row_tags, row_fields, row_time, row_warnings};
use crate::request::{WriteRequest, rendered_tags_of, rendered_fields_of};

verus! {

/// A fatal condition of a migration run; any of these aborts the run,
/// and rows already written stay written.
#[derive(Clone, Copy, PartialEq, Eq, Structural, Debug)]
pub enum MigrationError {
    /// A schema metadata query failed or its response could not be read.
    SchemaFetch,
    /// The filtered read for matching rows failed.
    RowFetch,
    /// A single point failed to persist.
    Write,
}

impl MigrationError {
    /// A short text naming the error.
    pub fn describe(&self) -> (r: String)
        ensures
            *self is SchemaFetch ==> r@ == "schema metadata query failed"@,
            *self is RowFetch ==> r@ == "row query failed"@,
            *self is Write ==> r@ == "write failed"@,
    {
        match self {
            MigrationError::SchemaFetch => String::from_str("schema metadata query failed"),
            MigrationError::RowFetch => String::from_str("row query failed"),
            MigrationError::Write => String::from_str("write failed"),
        }
    }
}

/// One migration run's coordinates: where the store lives and which
/// measurement is being rewritten.
#[derive(Debug)]
pub struct DatabaseRename {
    pub host: String,
    pub token: String,
    pub bucket: String,
    pub measurement: String,
}

impl DatabaseRename {
    /// The metadata query that lists the measurement's tag keys.
    pub fn tag_keys_query(&self) -> (r: String)
        ensures
            r@ == "SHOW TAG KEYS FROM "@ + self.measurement@,
    {
        let mut q = String::from_str("SHOW TAG KEYS FROM ");
        q.append(self.measurement.as_str());
        q
    }

    /// The metadata query that lists the measurement's field keys and
    /// their types.
    pub fn field_keys_query(&self) -> (r: String)
        ensures
            r@ == "SHOW FIELD KEYS FROM "@ + self.measurement@,
    {
        let mut q = String::from_str("SHOW FIELD KEYS FROM ");
        q.append(self.measurement.as_str());
        q
    }

    /// The filtered read for every row whose `tag_name` tag equals
    /// `old_val`.
    pub fn read_query(&self, tag_name: &str, old_val: &str) -> (r: String)
        ensures
            r@ == "SELECT * FROM "@ + self.measurement@ + " WHERE (\""@ + tag_name@
                + "\"::tag = '"@ + old_val@ + "')"@,
    {
        let mut q = String::from_str("SELECT * FROM ");
        q.append(self.measurement.as_str());
        q.append(" WHERE (\"");
        q.append(tag_name);
        q.append("\"::tag = '");
        q.append(old_val);
        q.append("')");
        proof {
            assert(q@ =~= "SELECT * FROM "@ + self.measurement@ + " WHERE (\""@ + tag_name@
                + "\"::tag = '"@ + old_val@ + "')"@);
        }
        q
    }

    /// The whole per-row step of the migration: reconstruct the point
    /// from the flattened row, overwrite (or insert) the renamed tag
    /// with its new value, and render the write request, handing back
    /// the reconstruction warnings untouched.
    pub fn process_row(
        &self,
        tag_entries: &Vec<TagEntry>,
        field_entries: &Vec<FieldEntry>,
        data: Vec<(String, DynValue)>,
        tag_name: &str,
        new_val: &str,
    ) -> (r: (WriteRequest, Vec<RowWarning>))
        requires
            row_keys_unique(data@),
        ensures
            r.0.wf(),
            r.0@.measurement == self.measurement@,
            r.0@.timestamp == row_time(tag_entries@, field_entries@, data@),
            r.0@.tags == rendered_tags_of(
                row_tags(tag_entries@, field_entries@, data@).insert(
                    tag_name@,
                    DynVal::Text(new_val@),
                ),
            ),
            r.0@.fields == rendered_fields_of(row_fields(tag_entries@, field_entries@, data@)),
            r.1@.map_values(|w: RowWarning| w@) == row_warnings(
                tag_entries@,
                field_entries@,
                data@,
            ),
    {
        let (mut entry, warnings) = LineEntry::new(
            self.measurement.as_str(),
            tag_entries,
            field_entries,
            data,
        );
        entry.set_tag(tag_name, new_val);
        let request = entry.get_query();
        (request, warnings)
    }
}

} // verus!
