//! Rendering raw records as a structured-text document: each record becomes
//! an object holding its name and the facet fields whose raw values are
//! 16-bit signed decimal numerals, in field order; everything else is
//! dropped. The exact output text is pinned down, character for character.

use crate::numerals::{parse_i16, spec_i16_numeral, spec_i16_value, i16_to_string};
use crate::records::{spec_field_value, spec_has_field, RawRecord};
use vstd::prelude::*;
use vstd::string::StringExecFns;

verus! {

/// The parts joined by `sep`: nothing for no parts, the lone part for one,
/// and otherwise each further part behind one separator.
pub open spec fn spec_join(parts: Seq<Seq<char>>, sep: Seq<char>) -> Seq<char>
    decreases parts.len(),
{
    if parts.len() == 0 {
        Seq::empty()
    } else if parts.len() == 1 {
        parts[0]
    } else {
        spec_join(parts.drop_last(), sep) + sep + parts.last()
    }
}

/// Concatenate `parts` with `sep` between each neighbouring pair.
pub fn join_strings(parts: &Vec<String>, sep: &str) -> (r: String)
    ensures
        r@ == spec_join(parts@.map_values(|p: String| p@), sep@),
{
    let ghost views = parts@.map_values(|p: String| p@);
    let n = parts.len();
    let mut out = String::new();
    let mut i: usize = 0;
    while i < n
        invariant
            n == parts@.len(),
            0 <= i <= n,
            views == parts@.map_values(|p: String| p@),
            out@ == spec_join(views.take(i as int), sep@),
        decreases n - i,
    {
        proof {
            assert(views.take(i as int + 1).drop_last() =~= views.take(i as int));
            assert(views.take(i as int + 1).last() == views[i as int]);
        }
        if i > 0 {
            out.append(sep);
        }
        out.append(parts[i].as_str());
        i += 1;
    }
    proof {
        assert(views.take(n as int) =~= views);
    }
    out
}

/// The facet entry rendered for a field: the quoted key, a colon, and the
/// canonical numeral of the field's value.
pub open spec fn spec_facet_entry(key: Seq<char>, v: int) -> Seq<char> {
    "\""@ + key + "\":"@ + spec_i16_numeral(v)
}

/// The facet entries of a record's fields, in order: one for each field
/// that is not the reserved name field and whose raw value is a 16-bit
/// signed decimal numeral.
pub open spec fn spec_facet_entries(fields: Seq<(String, String)>) -> Seq<Seq<char>>
    decreases fields.len(),
{
    if fields.len() == 0 {
        Seq::empty()
    } else {
        let init = spec_facet_entries(fields.drop_last());
        let last = fields.last();
        if last.0@ == "name"@ {
            init
        } else {
            match spec_i16_value(last.1@) {
                Some(v) => init.push(spec_facet_entry(last.0@, v)),
                None => init,
            }
        }
    }
}

/// The object rendered for one record: its name and its facet entries.
pub open spec fn spec_record_object(rec: RawRecord) -> Seq<char> {
    "{ \"name\": \""@ + spec_field_value(rec.fields@, "name"@) + "\", \"facets\":{"@ + spec_join(
        spec_facet_entries(rec.fields@),
        ","@,
    ) + "}}"@
}

/// The whole document: every record's object, in order, inside one array.
pub open spec fn spec_records_json(records: Seq<RawRecord>) -> Seq<char> {
    "["@ + spec_join(records.map_values(|rec: RawRecord| spec_record_object(rec)), ","@) + "]"@
}

/// Render one record as its object.
fn record_object(rec: &RawRecord) -> (r: String)
    requires
        spec_has_field(rec.fields@, "name"@),
    ensures
        r@ == spec_record_object(*rec),
{
    let name = rec.name_value();
    let name_key = "name".to_owned();
    let n = rec.fields.len();
    let mut entries: Vec<String> = Vec::new();
    let mut i: usize = 0;
    while i < n
        invariant
            name_key@ == "name"@,
            n == rec.fields@.len(),
            0 <= i <= n,
            entries@.map_values(|p: String| p@) == spec_facet_entries(rec.fields@.take(i as int)),
            entries@.len() == spec_facet_entries(rec.fields@.take(i as int)).len(),
        decreases n - i,
    {
        proof {
            assert(rec.fields@.take(i as int + 1).drop_last() =~= rec.fields@.take(i as int));
            assert(rec.fields@.take(i as int + 1).last() == rec.fields@[i as int]);
        }
        if !(rec.fields[i].0 == name_key) {
            match parse_i16(rec.fields[i].1.as_str()) {
                Some(v) => {
                    let mut entry = "\"".to_owned();
                    entry.append(rec.fields[i].0.as_str());
                    entry.append("\":");
                    let numeral = i16_to_string(v);
                    entry.append(numeral.as_str());
                    proof {
                        assert(entry@ == spec_facet_entry(rec.fields@[i as int].0@, v as int));
                    }
                    entries.push(entry);
                    proof {
                        assert(entries@.map_values(|p: String| p@) =~= spec_facet_entries(
                            rec.fields@.take(i as int + 1),
                        ));
                    }
                },
                None => {
                    proof {
                        assert(entries@.map_values(|p: String| p@) =~= spec_facet_entries(
                            rec.fields@.take(i as int + 1),
                        ));
                    }
                },
            }
        } else {
            proof {
                assert(entries@.map_values(|p: String| p@) =~= spec_facet_entries(
                    rec.fields@.take(i as int + 1),
                ));
            }
        }
        i += 1;
    }
    proof {
        assert(rec.fields@.take(n as int) =~= rec.fields@);
    }
    let inner = join_strings(&entries, ",");
    let mut out = "{ \"name\": \"".to_owned();
    out.append(name.as_str());
    out.append("\", \"facets\":{");
    out.append(inner.as_str());
    out.append("}}");
    out
}

/// Render `records` as one array of objects, each holding the record's
/// name and those facet fields whose raw values are 16-bit signed decimal
/// numerals. Every record must carry the reserved name field.
pub fn hashmap_to_json(records: &Vec<RawRecord>) -> (r: String)
    requires
        forall|i: int|
            0 <= i < records@.len() ==> spec_has_field((#[trigger] records@[i]).fields@, "name"@),
    ensures
        r@ == spec_records_json(records@),
{
    let ghost objects_spec = records@.map_values(|rec: RawRecord| spec_record_object(rec));
    let n = records.len();
    let mut objects: Vec<String> = Vec::new();
    let mut i: usize = 0;
    while i < n
        invariant
            n == records@.len(),
            0 <= i <= n,
            forall|j: int|
                0 <= j < n ==> spec_has_field((#[trigger] records@[j]).fields@, "name"@),
            objects_spec == records@.map_values(|rec: RawRecord| spec_record_object(rec)),
            objects@.len() == i,
            objects@.map_values(|p: String| p@) == objects_spec.take(i as int),
        decreases n - i,
    {
        let obj = record_object(&records[i]);
        let ghost objv = obj@;
        let ghost before = objects@;
        proof {
            assert(objv == spec_record_object(records@[i as int]));
            assert(before.len() == i);
        }
        objects.push(obj);
        proof {
            assert(objects@.len() == i + 1);
            assert(objects@[i as int]@ == objv);
            assert forall|k: int|
                0 <= k < objects@.len() implies objects@.map_values(|p: String| p@)[k]
                    == #[trigger] (objects_spec.take(i as int + 1)[k]) by {
                if k < i {
                    assert(objects@[k] == before[k]);
                    assert(before.map_values(|p: String| p@)[k] == objects_spec.take(i as int)[k]);
                } else {
                    assert(objects@[k]@ == spec_record_object(records@[i as int]));
                }
            }
            assert(objects@.map_values(|p: String| p@) =~= objects_spec.take(i as int + 1));
        }
        i += 1;
    }
    proof {
        assert(objects_spec.take(n as int) =~= objects_spec);
    }
    let inner = join_strings(&objects, ",");
    let mut out = "[".to_owned();
    out.append(inner.as_str());
    out.append("]");
    out
}

} // verus!
