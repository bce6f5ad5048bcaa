//! Write requests: a point rendered for the store's write path, with
//! every tag written as a string and every field coerced to its
//! declared type.

use vstd::prelude::*;
use vstd::map::*;
use crate::schema::FieldType;
use crate::value::{DynValue, DynVal, FieldValue, FieldVal, spec_as_text, spec_coerce, coerce};
use crate::point::{LineEntry, pairs_map, triples_map, pair_keys_unique, triple_keys_unique,
    lemma_pairs_map_dom, pair_has_key};

verus! {

/// No two entries of the sequence carry the same key.
pub open spec fn str_keys_unique(s: Seq<(String, String)>) -> bool {
    forall|i: int, j: int| 0 <= i < j < s.len() ==> s[i].0@ != s[j].0@
}

/// No two entries of the sequence carry the same key.
pub open spec fn fv_keys_unique(s: Seq<(String, FieldValue)>) -> bool {
    forall|i: int, j: int| 0 <= i < j < s.len() ==> s[i].0@ != s[j].0@
}

/// The mapping a rendered tag sequence denotes.
pub open spec fn str_pairs_map(s: Seq<(String, String)>) -> Map<Seq<char>, Seq<char>>
    decreases s.len(),
{
    if s.len() == 0 {
        Map::empty()
    } else {
        str_pairs_map(s.drop_last()).insert(s.last().0@, s.last().1@)
    }
}

/// The mapping a rendered field sequence denotes.
pub open spec fn fv_pairs_map(s: Seq<(String, FieldValue)>) -> Map<Seq<char>, FieldVal>
    decreases s.len(),
{
    if s.len() == 0 {
        Map::empty()
    } else {
        fv_pairs_map(s.drop_last()).insert(s.last().0@, s.last().1@)
    }
}

/// What a point's tags contribute to a write request: exactly the tags
/// whose dynamic value is textual, written as that text.
pub open spec fn rendered_tags_of(m: Map<Seq<char>, DynVal>) -> Map<Seq<char>, Seq<char>> {
    Map::new(
        |k: Seq<char>| m.dom().contains(k) && spec_as_text(m[k]) is Some,
        |k: Seq<char>| spec_as_text(m[k])->0,
    )
}

/// What a point's fields contribute to a write request: exactly the
/// fields whose dynamic value is well-formed for the declared type,
/// coerced to it.
pub open spec fn rendered_fields_of(m: Map<Seq<char>, (DynVal, FieldType)>) -> Map<
    Seq<char>,
    FieldVal,
> {
    Map::new(
        |k: Seq<char>| m.dom().contains(k) && spec_coerce(m[k].0, m[k].1) is Some,
        |k: Seq<char>| spec_coerce(m[k].0, m[k].1)->0,
    )
}

/// One write request for the store: a measurement, a nanosecond
/// timestamp, string tags and typed field values, keys unique.
#[derive(Debug)]
pub struct WriteRequest {
    pub measurement: String,
    pub timestamp_nanos: u128,
    pub tags: Vec<(String, String)>,
    pub fields: Vec<(String, FieldValue)>,
}

/// Mathematical model of a write request.
pub struct WriteReqVal {
    pub measurement: Seq<char>,
    pub timestamp: u128,
    pub tags: Map<Seq<char>, Seq<char>>,
    pub fields: Map<Seq<char>, FieldVal>,
}

impl View for WriteRequest {
    type V = WriteReqVal;

    open spec fn view(&self) -> WriteReqVal {
        WriteReqVal {
            measurement: self.measurement@,
            timestamp: self.timestamp_nanos,
            tags: str_pairs_map(self.tags@),
            fields: fv_pairs_map(self.fields@),
        }
    }
}

impl WriteRequest {
    /// Each tag name and each field name is held at most once.
    pub open spec fn wf(&self) -> bool {
        str_keys_unique(self.tags@) && fv_keys_unique(self.fields@)
    }
}

impl LineEntry {
    /// Renders the point as a write request for its measurement at its
    /// timestamp: every textual tag verbatim, every field coerced to its
    /// declared type; a tag without a textual value and a field whose
    /// value is not well-formed for its type contribute nothing. The
    /// point itself is left untouched.
    pub fn get_query(&self) -> (r: WriteRequest)
        requires
            self.wf(),
        ensures
            r.wf(),
            r@.measurement == self@.name,
            r@.timestamp == self@.time,
            r@.tags == rendered_tags_of(self@.tags),
            r@.fields == rendered_fields_of(self@.fields),
    {
        let mut out_tags: Vec<(String, String)> = Vec::new();
        let mut i: usize = 0;
        proof {
            assert(self.tags@.take(0) =~= Seq::<(String, DynValue)>::empty());
            assert(str_pairs_map(out_tags@) =~= rendered_tags_of(
                pairs_map(self.tags@.take(0)),
            ));
        }
        while i < self.tags.len()
            invariant
                0 <= i <= self.tags@.len(),
                self.wf(),
                str_keys_unique(out_tags@),
                forall|j: int| 0 <= j < out_tags@.len()
                    ==> pair_has_key(self.tags@.take(i as int), #[trigger] out_tags@[j].0@),
                str_pairs_map(out_tags@) == rendered_tags_of(pairs_map(self.tags@.take(i as int))),
            decreases self.tags@.len() - i,
        {
            proof {
                assert(self.tags@.take(i as int + 1).drop_last() =~= self.tags@.take(i as int));
                assert(self.tags@.take(i as int + 1).last() == self.tags@[i as int]);
                lemma_pairs_map_dom(self.tags@.take(i as int));
                assert forall|j: int| 0 <= j < i
                    implies self.tags@[j].0@ != self.tags@[i as int].0@ by {};
                assert(!pair_has_key(self.tags@.take(i as int), self.tags@[i as int].0@));
                assert forall|k2: Seq<char>| pair_has_key(self.tags@.take(i as int), k2)
                    implies pair_has_key(self.tags@.take(i as int + 1), k2) by {
                    let j = choose|j: int|
                        0 <= j < self.tags@.take(i as int).len() && self.tags@.take(
                            i as int,
                        )[j].0@ == k2;
                    assert(self.tags@.take(i as int + 1)[j].0@ == k2);
                };
            }
            let ghost prev = pairs_map(self.tags@.take(i as int));
            let ghost entry = self.tags@[i as int];
            match &self.tags[i].1 {
                DynValue::Text(s) => {
                    proof {
                        assert forall|j: int| 0 <= j < out_tags@.len()
                            implies out_tags@[j].0@ != entry.0@ by {
                            assert(pair_has_key(self.tags@.take(i as int), out_tags@[j].0@));
                        };
                        assert(rendered_tags_of(prev.insert(entry.0@, entry.1@))
                            =~= rendered_tags_of(prev).insert(entry.0@, s@));
                        assert(pair_has_key(self.tags@.take(i as int + 1), entry.0@)) by {
                            assert(self.tags@.take(i as int + 1)[i as int].0@ == entry.0@);
                        };
                    }
                    let ghost before = out_tags@;
                    out_tags.push((self.tags[i].0.clone(), s.clone()));
                    proof {
                        assert(out_tags@.drop_last() =~= before);
                        assert(str_pairs_map(out_tags@) == str_pairs_map(before).insert(
                            entry.0@,
                            s@,
                        ));
                    }
                },
                _ => {
                    proof {
                        assert(rendered_tags_of(prev.insert(entry.0@, entry.1@))
                            =~= rendered_tags_of(prev));
                    }
                },
            }
            i += 1;
        }
        proof {
            assert(self.tags@.take(self.tags@.len() as int) =~= self.tags@);
        }
        let mut out_fields: Vec<(String, FieldValue)> = Vec::new();
        let mut i: usize = 0;
        proof {
            assert(self.fields@.take(0) =~= Seq::<(String, DynValue, FieldType)>::empty());
            assert(fv_pairs_map(out_fields@) =~= rendered_fields_of(
                triples_map(self.fields@.take(0)),
            ));
        }
        while i < self.fields.len()
            invariant
                0 <= i <= self.fields@.len(),
                self.wf(),
                fv_keys_unique(out_fields@),
                forall|j: int| 0 <= j < out_fields@.len()
                    ==> triple_has_key(self.fields@.take(i as int), #[trigger] out_fields@[j].0@),
                fv_pairs_map(out_fields@) == rendered_fields_of(
                    triples_map(self.fields@.take(i as int)),
                ),
            decreases self.fields@.len() - i,
        {
            proof {
                assert(self.fields@.take(i as int + 1).drop_last() =~= self.fields@.take(i as int));
                assert(self.fields@.take(i as int + 1).last() == self.fields@[i as int]);
                assert forall|j: int| 0 <= j < i
                    implies self.fields@[j].0@ != self.fields@[i as int].0@ by {};
                assert(!triple_has_key(self.fields@.take(i as int), self.fields@[i as int].0@));
                assert forall|k2: Seq<char>| triple_has_key(self.fields@.take(i as int), k2)
                    implies triple_has_key(self.fields@.take(i as int + 1), k2) by {
                    let j = choose|j: int|
                        0 <= j < self.fields@.take(i as int).len() && self.fields@.take(
                            i as int,
                        )[j].0@ == k2;
                    assert(self.fields@.take(i as int + 1)[j].0@ == k2);
                };
                lemma_triples_map_keys(self.fields@.take(i as int));
            }
            let ghost prev = triples_map(self.fields@.take(i as int));
            let ghost entry = self.fields@[i as int];
            match coerce(&self.fields[i].1, self.fields[i].2) {
                Some(fv) => {
                    proof {
                        assert forall|j: int| 0 <= j < out_fields@.len()
                            implies out_fields@[j].0@ != entry.0@ by {
                            assert(triple_has_key(self.fields@.take(i as int), out_fields@[j].0@));
                        };
                        assert(rendered_fields_of(prev.insert(entry.0@, (entry.1@, entry.2)))
                            =~= rendered_fields_of(prev).insert(entry.0@, fv@));
                        assert(triple_has_key(self.fields@.take(i as int + 1), entry.0@)) by {
                            assert(self.fields@.take(i as int + 1)[i as int].0@ == entry.0@);
                        };
                    }
                    let ghost before = out_fields@;
                    let ghost fvv = fv@;
                    out_fields.push((self.fields[i].0.clone(), fv));
                    proof {
                        assert(out_fields@.drop_last() =~= before);
                        assert(fv_pairs_map(out_fields@) == fv_pairs_map(before).insert(
                            entry.0@,
                            fvv,
                        ));
                    }
                },
                None => {
                    proof {
                        assert(rendered_fields_of(prev.insert(entry.0@, (entry.1@, entry.2)))
                            =~= rendered_fields_of(prev));
                    }
                },
            }
            i += 1;
        }
        proof {
            assert(self.fields@.take(self.fields@.len() as int) =~= self.fields@);
        }
        WriteRequest {
            measurement: self.name.clone(),
            timestamp_nanos: self.time,
            tags: out_tags,
            fields: out_fields,
        }
    }
}

/// Some entry of the sequence carries key `k`.
pub open spec fn triple_has_key(s: Seq<(String, DynValue, FieldType)>, k: Seq<char>) -> bool {
    exists|i: int| 0 <= i < s.len() && s[i].0@ == k
}

/// The domain of `triples_map` holds only keys of the sequence.
proof fn lemma_triples_map_keys(s: Seq<(String, DynValue, FieldType)>)
    ensures
        forall|k: Seq<char>| #[trigger] triples_map(s).dom().contains(k) ==> triple_has_key(s, k),
    decreases s.len(),
{
    if s.len() > 0 {
        lemma_triples_map_keys(s.drop_last());
        assert forall|k: Seq<char>| #[trigger] triples_map(s).dom().contains(k)
            implies triple_has_key(s, k) by {
            if k == s.last().0@ {
                assert(s[s.len() - 1].0@ == k);
            } else {
                assert(triples_map(s.drop_last()).dom().contains(k));
                assert(triple_has_key(s.drop_last(), k));
                let i = choose|i: int| 0 <= i < s.drop_last().len() && s.drop_last()[i].0@ == k;
                assert(s.drop_last()[i] == s[i]);
                assert(s[i].0@ == k);
            }
        }
    }
}

} // verus!
