use crate::strutil::str_eq;
use vstd::prelude::*;

verus! {

broadcast use vstd::seq_lib::group_filter_ensures;

/// One column definition of a table: a name and a type tag. Immutable once
/// fetched; a table's field names are unique, which this crate reads but
/// never has to enforce.
#[derive(Debug, Clone, PartialEq, Eq)]
pub struct FieldDef {
    pub name: String,
    pub field_type: String,
}

/// The closed set of computed field types. A field with exactly one of these
/// six type tags is derived by the service and cannot be written; every
/// other type tag is writable by default.
pub open spec fn is_computed_type(t: Seq<char>) -> bool {
    ||| t == "computed"@
    ||| t == "formula"@
    ||| t == "rollup"@
    ||| t == "lookup"@
    ||| t == "lastModifiedTime"@
    ||| t == "createdTime"@
}

/// The writable fields of a schema, in input order.
pub open spec fn spec_writable(fs: Seq<FieldDef>) -> Seq<FieldDef> {
    fs.filter(|f: FieldDef| !is_computed_type(f.field_type@))
}

/// The computed fields of a schema, in input order.
pub open spec fn spec_computed(fs: Seq<FieldDef>) -> Seq<FieldDef> {
    fs.filter(|f: FieldDef| is_computed_type(f.field_type@))
}

/// The names of a field list, in order.
pub open spec fn names_of(fs: Seq<FieldDef>) -> Seq<Seq<char>> {
    fs.map_values(|f: FieldDef| f.name@)
}

/// Tests one type tag against the closed computed set.
pub fn is_computed(t: &str) -> (r: bool)
    ensures
        r == is_computed_type(t@),
{
    str_eq(t, "computed") || str_eq(t, "formula") || str_eq(t, "rollup") || str_eq(t, "lookup")
        || str_eq(t, "lastModifiedTime") || str_eq(t, "createdTime")
}

/// Partitions a schema into the writable and the computed field names, both
/// in input order. The writable list is the allow-list for updates and for
/// blank-record creation.
pub fn classify(fields: &Vec<FieldDef>) -> (r: (Vec<String>, Vec<String>))
    ensures
        r.0@.map_values(|s: String| s@) == names_of(spec_writable(fields@)),
        r.1@.map_values(|s: String| s@) == names_of(spec_computed(fields@)),
{
    let ghost wpred = |f: FieldDef| !is_computed_type(f.field_type@);
    let ghost cpred = |f: FieldDef| is_computed_type(f.field_type@);
    let mut writable: Vec<String> = Vec::new();
    let mut computed: Vec<String> = Vec::new();
    let n = fields.len();
    let mut i: usize = 0;
    while i < n
        invariant
            n == fields@.len(),
            i <= n,
            writable@.map_values(|s: String| s@) == names_of(fields@.take(i as int).filter(wpred)),
            computed@.map_values(|s: String| s@) == names_of(fields@.take(i as int).filter(cpred)),
            wpred == (|f: FieldDef| !is_computed_type(f.field_type@)),
            cpred == (|f: FieldDef| is_computed_type(f.field_type@)),
        decreases n - i,
    {
        proof {
            reveal(Seq::filter);
            assert(fields@.take(i + 1).drop_last() =~= fields@.take(i as int));
            assert(fields@.take(i + 1).last() == fields@[i as int]);
        }
        let f = &fields[i];
        if is_computed(f.field_type.as_str()) {
            computed.push(f.name.clone());
            proof {
                lemma_names_push(fields@.take(i as int).filter(cpred), fields@[i as int]);
            }
        } else {
            writable.push(f.name.clone());
            proof {
                lemma_names_push(fields@.take(i as int).filter(wpred), fields@[i as int]);
            }
        }
        i = i + 1;
    }
    proof {
        assert(fields@.take(n as int) =~= fields@);
    }
    (writable, computed)
}

proof fn lemma_names_push(fs: Seq<FieldDef>, f: FieldDef)
    ensures
        names_of(fs.push(f)) == names_of(fs).push(f.name@),
{
    assert(names_of(fs.push(f)) =~= names_of(fs).push(f.name@));
}

/// Classification is a partition: every field of the input lands on exactly
/// one side, decided by the closed computed-type set alone; the two sides
/// together hold exactly the input fields, and no field value sits on both
/// sides.
pub proof fn lemma_classify_partition(fs: Seq<FieldDef>)
    ensures
        spec_writable(fs).len() + spec_computed(fs).len() == fs.len(),
        spec_writable(fs).to_multiset().add(spec_computed(fs).to_multiset()) == fs.to_multiset(),
        forall|f: FieldDef| #[trigger]
            spec_writable(fs).contains(f) ==> fs.contains(f) && !is_computed_type(f.field_type@),
        forall|f: FieldDef| #[trigger]
            spec_computed(fs).contains(f) ==> fs.contains(f) && is_computed_type(f.field_type@),
        forall|f: FieldDef| !(spec_writable(fs).contains(f) && spec_computed(fs).contains(f)),
        forall|f: FieldDef| #[trigger]
            fs.contains(f) ==> spec_writable(fs).contains(f) || spec_computed(fs).contains(f),
    decreases fs.len(),
{
    broadcast use vstd::seq_lib::group_to_multiset_ensures;

    reveal(Seq::filter);
    let wpred = |f: FieldDef| !is_computed_type(f.field_type@);
    let cpred = |f: FieldDef| is_computed_type(f.field_type@);
    if fs.len() == 0 {
        assert(spec_writable(fs).to_multiset().add(spec_computed(fs).to_multiset())
            =~= fs.to_multiset());
    } else {
        let dl = fs.drop_last();
        let last = fs.last();
        lemma_classify_partition(dl);
        assert(fs == dl.push(last));
        assert(fs.to_multiset() =~= dl.to_multiset().insert(last));
        if cpred(last) {
            assert(spec_computed(fs) == spec_computed(dl).push(last));
            assert(spec_writable(fs) == spec_writable(dl));
            assert(spec_computed(fs).to_multiset() =~= spec_computed(dl).to_multiset().insert(
                last,
            ));
            assert(spec_writable(fs).to_multiset().add(spec_computed(fs).to_multiset())
                =~= fs.to_multiset());
        } else {
            assert(spec_writable(fs) == spec_writable(dl).push(last));
            assert(spec_computed(fs) == spec_computed(dl));
            assert(spec_writable(fs).to_multiset() =~= spec_writable(dl).to_multiset().insert(
                last,
            ));
            assert(spec_writable(fs).to_multiset().add(spec_computed(fs).to_multiset())
                =~= fs.to_multiset());
        }
        assert forall|f: FieldDef| #[trigger] fs.contains(f) implies spec_writable(fs).contains(f)
            || spec_computed(fs).contains(f) by {
            let i = choose|i: int| 0 <= i < fs.len() && fs[i] == f;
            if wpred(f) {
                fs.lemma_filter_contains(wpred, i);
            } else {
                fs.lemma_filter_contains(cpred, i);
            }
        }
        assert forall|f: FieldDef| #[trigger] spec_writable(fs).contains(f) implies fs.contains(f)
            && !is_computed_type(f.field_type@) by {
            let i = choose|i: int| 0 <= i < spec_writable(fs).len() && spec_writable(fs)[i] == f;
            fs.lemma_filter_pred(wpred, i);
            lemma_filter_sub(fs, wpred, f);
        }
        assert forall|f: FieldDef| #[trigger] spec_computed(fs).contains(f) implies fs.contains(f)
            && is_computed_type(f.field_type@) by {
            let i = choose|i: int| 0 <= i < spec_computed(fs).len() && spec_computed(fs)[i] == f;
            fs.lemma_filter_pred(cpred, i);
            lemma_filter_sub(fs, cpred, f);
        }
    }
}

/// A filtered sequence only holds elements of the sequence it came from.
proof fn lemma_filter_sub(fs: Seq<FieldDef>, pred: spec_fn(FieldDef) -> bool, f: FieldDef)
    requires
        fs.filter(pred).contains(f),
    ensures
        fs.contains(f),
    decreases fs.len(),
{
    reveal(Seq::filter);
    if fs.len() == 0 {
    } else {
        if fs.filter(pred) == fs.drop_last().filter(pred).push(fs.last()) && f == fs.last() {
            assert(fs.contains(f)) by {
                assert(fs[fs.len() - 1] == f);
            }
        } else {
            if fs.drop_last().filter(pred).contains(f) {
                lemma_filter_sub(fs.drop_last(), pred, f);
                let i = choose|i: int| 0 <= i < fs.drop_last().len() && fs.drop_last()[i] == f;
                assert(fs[i] == f);
            } else {
                assert(f == fs.last());
                assert(fs[fs.len() - 1] == f);
            }
        }
    }
}

/// The field list of the first table with a matching name, if any.
pub open spec fn spec_find_table(ts: Seq<(String, Vec<FieldDef>)>, name: Seq<char>) -> Option<
    Vec<FieldDef>,
>
    decreases ts.len(),
{
    if ts.len() == 0 {
        None
    } else if ts[0].0@ == name {
        Some(ts[0].1)
    } else {
        spec_find_table(ts.drop_first(), name)
    }
}

proof fn lemma_find_table_at(ts: Seq<(String, Vec<FieldDef>)>, name: Seq<char>, i: int)
    requires
        0 <= i < ts.len(),
        ts[i].0@ == name,
        forall|j: int| 0 <= j < i ==> (#[trigger] ts[j]).0@ != name,
    ensures
        spec_find_table(ts, name) == Some(ts[i].1),
    decreases i,
{
    if i == 0 {
    } else {
        assert(ts[0].0@ != name);
        assert(ts.drop_first()[i - 1] == ts[i]);
        assert forall|j: int| 0 <= j < i - 1 implies (#[trigger] ts.drop_first()[j]).0@ != name by {
            assert(ts.drop_first()[j] == ts[j + 1]);
        }
        lemma_find_table_at(ts.drop_first(), name, i - 1);
    }
}

proof fn lemma_find_table_none(ts: Seq<(String, Vec<FieldDef>)>, name: Seq<char>)
    requires
        forall|j: int| 0 <= j < ts.len() ==> (#[trigger] ts[j]).0@ != name,
    ensures
        spec_find_table(ts, name) is None,
    decreases ts.len(),
{
    if ts.len() > 0 {
        assert forall|j: int| 0 <= j < ts.drop_first().len() implies (#[trigger] ts.drop_first()[j]).0@
            != name by {
            assert(ts.drop_first()[j] == ts[j + 1]);
        }
        lemma_find_table_none(ts.drop_first(), name);
    }
}

/// A field-by-field copy of a schema.
pub fn copy_fields(fs: &Vec<FieldDef>) -> (r: Vec<FieldDef>)
    ensures
        r@ == fs@,
{
    let mut out: Vec<FieldDef> = Vec::new();
    let n = fs.len();
    let mut i: usize = 0;
    while i < n
        invariant
            n == fs@.len(),
            i <= n,
            out@ == fs@.take(i as int),
        decreases n - i,
    {
        let f = &fs[i];
        out.push(FieldDef { name: f.name.clone(), field_type: f.field_type.clone() });
        proof {
            assert(out@ =~= fs@.take(i + 1));
        }
        i = i + 1;
    }
    proof {
        assert(fs@.take(n as int) =~= fs@);
    }
    out
}

/// Picks out the field list of the named table from a fetched table listing:
/// the fields of the first table whose name matches, the empty list when no
/// name matches.
pub fn select_table_fields(tables: &Vec<(String, Vec<FieldDef>)>, table_name: &str) -> (r: Vec<
    FieldDef,
>)
    ensures
        match spec_find_table(tables@, table_name@) {
            Some(fs) => r@ == fs@,
            None => r@.len() == 0,
        },
{
    let n = tables.len();
    let mut i: usize = 0;
    while i < n
        invariant
            n == tables@.len(),
            i <= n,
            forall|j: int| 0 <= j < i ==> (#[trigger] tables@[j]).0@ != table_name@,
        decreases n - i,
    {
        if str_eq(tables[i].0.as_str(), table_name) {
            proof {
                lemma_find_table_at(tables@, table_name@, i as int);
            }
            return copy_fields(&tables[i].1);
        }
        i = i + 1;
    }
    proof {
        lemma_find_table_none(tables@, table_name@);
    }
    Vec::new()
}

} // verus!
