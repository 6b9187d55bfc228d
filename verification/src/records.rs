//! Raw ingest records: field-name → raw-value mappings as the loader hands
//! them over, and the priming step that splits the reserved name field from
//! the facet fields.

use crate::errors::ClassifierError;
use vstd::prelude::*;

verus! {

/// One raw record: named fields in loader order, the reserved `name` field
/// among them. Models a row of a tabular file; keys are unique when the
/// loader produced them from a mapping, though nothing here requires it.
pub struct RawRecord {
    /// The fields, each a name paired with its raw value.
    pub fields: Vec<(String, String)>,
}

/// Whether some field of `fields` is named `key`.
pub open spec fn spec_has_field(fields: Seq<(String, String)>, key: Seq<char>) -> bool {
    exists|j: int| 0 <= j < fields.len() && (#[trigger] fields[j]).0@ == key
}

/// The raw value of the first field named `key`; the empty string when no
/// field is.
pub open spec fn spec_field_value(fields: Seq<(String, String)>, key: Seq<char>) -> Seq<char>
    decreases fields.len(),
{
    if fields.len() == 0 {
        Seq::empty()
    } else if fields.first().0@ == key {
        fields.first().1@
    } else {
        spec_field_value(fields.drop_first(), key)
    }
}

/// Skipping fields that are not named `key` leaves the looked-up value
/// unchanged.
proof fn lemma_field_value_skip(fields: Seq<(String, String)>, key: Seq<char>, i: int)
    requires
        0 <= i <= fields.len(),
        forall|j: int| 0 <= j < i ==> (#[trigger] fields[j]).0@ != key,
    ensures
        spec_field_value(fields, key) == spec_field_value(fields.skip(i), key),
    decreases i,
{
    if i == 0 {
        assert(fields.skip(0) =~= fields);
    } else {
        lemma_field_value_skip(fields, key, i - 1);
        assert(fields.skip(i - 1).first() == fields[i - 1]);
        assert(fields.skip(i - 1).drop_first() =~= fields.skip(i));
    }
}

impl RawRecord {
    /// Whether some field is named `key`.
    pub open spec fn has_field(self, key: Seq<char>) -> bool {
        spec_has_field(self.fields@, key)
    }

    /// The raw value of the first field named `key`.
    pub open spec fn field_value(self, key: Seq<char>) -> Seq<char> {
        spec_field_value(self.fields@, key)
    }

    /// The value of the reserved name field, which the caller must know to
    /// be present.
    pub fn name_value(&self) -> (r: String)
        requires
            self.has_field("name"@),
        ensures
            r@ == self.field_value("name"@),
    {
        let key = "name".to_owned();
        let n = self.fields.len();
        let mut i: usize = 0;
        while i < n
            invariant
                key@ == "name"@,
                n == self.fields@.len(),
                0 <= i <= n,
                forall|j: int| 0 <= j < i ==> (#[trigger] self.fields@[j]).0@ != "name"@,
            decreases n - i,
        {
            if self.fields[i].0 == key {
                proof {
                    lemma_field_value_skip(self.fields@, "name"@, i as int);
                    assert(self.fields@.skip(i as int).first() == self.fields@[i as int]);
                }
                return self.fields[i].1.clone();
            }
            i += 1;
        }
        proof {
            assert(!self.has_field("name"@));
            assert(false);
        }
        String::new()
    }
}

/// Prime one raw record: take the reserved name field out and keep every
/// other field, in order, as a facet field. A record without a name field
/// is malformed and aborts with [`ClassifierError::MalformedRecord`].
pub fn split_name(record: RawRecord) -> (r: Result<(String, RawRecord), ClassifierError>)
    ensures
        match r {
            Ok(primed) => {
                &&& record.has_field("name"@)
                &&& primed.0@ == record.field_value("name"@)
                &&& primed.1.fields@ == record.fields@.filter(
                    |f: (String, String)| f.0@ != "name"@,
                )
            },
            Err(e) => {
                &&& !record.has_field("name"@)
                &&& e == ClassifierError::MalformedRecord
            },
        },
{
    let ghost pred = |f: (String, String)| f.0@ != "name"@;
    let key = "name".to_owned();
    let n = record.fields.len();
    let mut rest: Vec<(String, String)> = Vec::new();
    let mut name: Option<String> = None;
    let mut i: usize = 0;
    while i < n
        invariant
            key@ == "name"@,
            n == record.fields@.len(),
            0 <= i <= n,
            rest@ == record.fields@.take(i as int).filter(pred),
            pred == (|f: (String, String)| f.0@ != "name"@),
            match name {
                None => forall|j: int| 0 <= j < i ==> (#[trigger] record.fields@[j]).0@ != "name"@,
                Some(v) => record.has_field("name"@) && v@ == record.field_value("name"@),
            },
        decreases n - i,
    {
        let ghost prefix = record.fields@.take(i as int);
        proof {
            reveal(Seq::filter);
            assert(record.fields@.take(i as int + 1).drop_last() =~= prefix);
            assert(record.fields@.take(i as int + 1).last() == record.fields@[i as int]);
        }
        if record.fields[i].0 == key {
            proof {
                assert(!pred(record.fields@[i as int]));
                assert(record.fields@.take(i as int + 1).filter(pred) =~= prefix.filter(pred));
            }
            if name.is_none() {
                proof {
                    lemma_field_value_skip(record.fields@, "name"@, i as int);
                    assert(record.fields@.skip(i as int).first() == record.fields@[i as int]);
                }
                name = Some(record.fields[i].1.clone());
            }
        } else {
            let field = (record.fields[i].0.clone(), record.fields[i].1.clone());
            proof {
                assert(field == record.fields@[i as int]);
                assert(pred(record.fields@[i as int]));
                assert(record.fields@.take(i as int + 1).filter(pred) =~= prefix.filter(pred).push(
                    record.fields@[i as int],
                ));
            }
            rest.push(field);
        }
        i += 1;
    }
    proof {
        assert(record.fields@.take(n as int) =~= record.fields@);
    }
    match name {
        Some(v) => Ok((v, RawRecord { fields: rest })),
        None => Err(ClassifierError::MalformedRecord),
    }
}

} // verus!
