use crate::strutil::str_eq;
use crate::values::{display_text_of, display_value, JsonVal, RecordValue};
use vstd::prelude::*;
use vstd::string::*;

verus! {

/// One fetched record: an opaque id and an ordered mapping of field names to
/// values. Records are never mutated in place; an update is a whole
/// replacement request built elsewhere.
#[derive(Debug, Clone, PartialEq, Eq)]
pub struct Record {
    pub id: String,
    pub fields: Vec<(String, RecordValue)>,
}

/// The value of the first field with the given name, if any.
pub open spec fn spec_find_field(fs: Seq<(String, RecordValue)>, name: Seq<char>) -> Option<
    RecordValue,
>
    decreases fs.len(),
{
    if fs.len() == 0 {
        None
    } else if fs[0].0@ == name {
        Some(fs[0].1)
    } else {
        spec_find_field(fs.drop_first(), name)
    }
}

proof fn lemma_find_field_at(fs: Seq<(String, RecordValue)>, name: Seq<char>, i: int)
    requires
        0 <= i < fs.len(),
        fs[i].0@ == name,
        forall|j: int| 0 <= j < i ==> (#[trigger] fs[j]).0@ != name,
    ensures
        spec_find_field(fs, name) == Some(fs[i].1),
    decreases i,
{
    if i == 0 {
    } else {
        assert(fs[0].0@ != name);
        assert(fs.drop_first()[i - 1] == fs[i]);
        assert forall|j: int| 0 <= j < i - 1 implies (#[trigger] fs.drop_first()[j]).0@ != name by {
            assert(fs.drop_first()[j] == fs[j + 1]);
        }
        lemma_find_field_at(fs.drop_first(), name, i - 1);
    }
}

proof fn lemma_find_field_none(fs: Seq<(String, RecordValue)>, name: Seq<char>)
    requires
        forall|j: int| 0 <= j < fs.len() ==> (#[trigger] fs[j]).0@ != name,
    ensures
        spec_find_field(fs, name) is None,
    decreases fs.len(),
{
    if fs.len() > 0 {
        assert forall|j: int| 0 <= j < fs.drop_first().len() implies (#[trigger] fs.drop_first()[j]).0@
            != name by {
            assert(fs.drop_first()[j] == fs[j + 1]);
        }
        lemma_find_field_none(fs.drop_first(), name);
    }
}

/// Looks up the first field with the given name.
pub fn find_field<'a>(rec: &'a Record, name: &str) -> (r: Option<&'a RecordValue>)
    ensures
        match r {
            Some(v) => spec_find_field(rec.fields@, name@) == Some(*v),
            None => spec_find_field(rec.fields@, name@) is None,
        },
{
    let n = rec.fields.len();
    let mut i: usize = 0;
    while i < n
        invariant
            n == rec.fields@.len(),
            i <= n,
            forall|j: int| 0 <= j < i ==> (#[trigger] rec.fields@[j]).0@ != name@,
        decreases n - i,
    {
        if str_eq(rec.fields[i].0.as_str(), name) {
            proof {
                lemma_find_field_at(rec.fields@, name@, i as int);
            }
            return Some(&rec.fields[i].1);
        }
        i = i + 1;
    }
    proof {
        lemma_find_field_none(rec.fields@, name@);
    }
    None
}

/// Projects a whole record: every field in order, each value rendered for
/// display.
pub fn project_whole(rec: &Record) -> (r: Vec<(String, String)>)
    ensures
        r@.len() == rec.fields@.len(),
        forall|i: int|
            0 <= i < r@.len() ==> (#[trigger] r@[i]).0@ == rec.fields@[i].0@ && r@[i].1@
                == display_text_of(rec.fields@[i].1@),
{
    let mut out: Vec<(String, String)> = Vec::new();
    let n = rec.fields.len();
    let mut i: usize = 0;
    while i < n
        invariant
            n == rec.fields@.len(),
            i <= n,
            out@.len() == i,
            forall|j: int|
                0 <= j < i ==> (#[trigger] out@[j]).0@ == rec.fields@[j].0@ && out@[j].1@
                    == display_text_of(rec.fields@[j].1@),
        decreases n - i,
    {
        let pair = &rec.fields[i];
        out.push((pair.0.clone(), display_value(&pair.1)));
        i = i + 1;
    }
    out
}

/// What one selected field displays as: the display rendering of the first
/// field with that name, or the `<no value>` sentinel when the record holds
/// no such field.
pub open spec fn selected_text(fs: Seq<(String, RecordValue)>, name: Seq<char>) -> Seq<char> {
    match spec_find_field(fs, name) {
        Some(v) => display_text_of(v@),
        None => "<no value>"@,
    }
}

/// Projects the named fields of a record, in the order they were asked for,
/// with the `<no value>` sentinel for names the record does not hold.
pub fn project_selected(rec: &Record, names: &Vec<String>) -> (r: Vec<(String, String)>)
    ensures
        r@.len() == names@.len(),
        forall|i: int|
            0 <= i < r@.len() ==> (#[trigger] r@[i]).0@ == names@[i]@ && r@[i].1@ == selected_text(
                rec.fields@,
                names@[i]@,
            ),
{
    let mut out: Vec<(String, String)> = Vec::new();
    let n = names.len();
    let mut i: usize = 0;
    while i < n
        invariant
            n == names@.len(),
            i <= n,
            out@.len() == i,
            forall|j: int|
                0 <= j < i ==> (#[trigger] out@[j]).0@ == names@[j]@ && out@[j].1@ == selected_text(
                    rec.fields@,
                    names@[j]@,
                ),
        decreases n - i,
    {
        let name = &names[i];
        let text = match find_field(rec, name.as_str()) {
            Some(v) => display_value(v),
            None => String::from_str("<no value>"),
        };
        out.push((name.clone(), text));
        i = i + 1;
    }
    out
}

/// The display name of one listed record: its `Name` field when that field
/// is present and holds a string, the `<no name>` sentinel otherwise.
pub open spec fn recent_name_of(fs: Seq<(String, RecordValue)>) -> Seq<char> {
    match spec_find_field(fs, "Name"@) {
        Some(v) => match v@ {
            JsonVal::Str(s) => s,
            _ => "<no name>"@,
        },
        None => "<no name>"@,
    }
}

/// Projects a recent-records listing: each record's id beside its display
/// name.
pub fn project_recent(recs: &Vec<Record>) -> (r: Vec<(String, String)>)
    ensures
        r@.len() == recs@.len(),
        forall|i: int|
            0 <= i < r@.len() ==> (#[trigger] r@[i]).0@ == recs@[i].id@ && r@[i].1@
                == recent_name_of(recs@[i].fields@),
{
    let mut out: Vec<(String, String)> = Vec::new();
    let n = recs.len();
    let mut i: usize = 0;
    while i < n
        invariant
            n == recs@.len(),
            i <= n,
            out@.len() == i,
            forall|j: int|
                0 <= j < i ==> (#[trigger] out@[j]).0@ == recs@[j].id@ && out@[j].1@
                    == recent_name_of(recs@[j].fields@),
        decreases n - i,
    {
        let rec = &recs[i];
        let name = match find_field(rec, "Name") {
            Some(v) => match v {
                RecordValue::Str(s) => s.clone(),
                _ => String::from_str("<no name>"),
            },
            None => String::from_str("<no name>"),
        };
        out.push((rec.id.clone(), name));
        i = i + 1;
    }
    out
}

} // verus!
