use crate::strutil::{append_quoted, quoted};
use crate::values::{append_json_value, json_text_of, RecordValue};
use vstd::prelude::*;
use vstd::string::*;

verus! {

/// One `"name":value` member of a request body's field object.
pub open spec fn pair_text(p: (String, RecordValue)) -> Seq<char> {
    quoted(p.0@) + ":"@ + json_text_of(p.1@)
}

/// The comma-joined members of a field object.
pub open spec fn pairs_text(ps: Seq<(String, RecordValue)>) -> Seq<char>
    decreases ps.len(),
{
    if ps.len() == 0 {
        Seq::empty()
    } else if ps.len() == 1 {
        pair_text(ps[0])
    } else {
        pair_text(ps[0]) + ","@ + pairs_text(ps.drop_first())
    }
}

proof fn lemma_pairs_snoc(ps: Seq<(String, RecordValue)>)
    requires
        ps.len() >= 2,
    ensures
        pairs_text(ps) == pairs_text(ps.drop_last()) + ","@ + pair_text(ps.last()),
    decreases ps.len(),
{
    reveal_with_fuel(pairs_text, 3);
    let head = pair_text(ps[0]);
    if ps.len() == 2 {
        assert(ps.drop_first()[0] == ps[1]);
        assert(ps.drop_last()[0] == ps[0]);
        assert(ps.last() == ps[1]);
    } else {
        lemma_pairs_snoc(ps.drop_first());
        assert(ps.drop_first().drop_last() =~= ps.drop_last().drop_first());
        assert(ps.drop_first().last() == ps.last());
        assert(ps.drop_last()[0] == ps[0]);
        assert(ps.drop_last().len() >= 2);
        let mid = pairs_text(ps.drop_last().drop_first());
        let tail = pair_text(ps.last());
        assert(pairs_text(ps) == head + ","@ + (mid + ","@ + tail));
        assert(pairs_text(ps.drop_last()) == head + ","@ + mid);
        assert(head + ","@ + (mid + ","@ + tail) =~= (head + ","@ + mid) + ","@ + tail);
    }
}

/// Appends the comma-joined members of a field object to `out`.
#[verifier::loop_isolation(false)]
fn append_pairs(out: &mut String, ps: &Vec<(String, RecordValue)>)
    ensures
        final(out)@ == old(out)@ + pairs_text(ps@),
{
    let n = ps.len();
    let mut i: usize = 0;
    while i < n
        invariant
            i <= n,
            out@ == old(out)@ + pairs_text(ps@.take(i as int)),
        decreases n - i,
    {
        proof {
            assert(ps@.take(i + 1).drop_last() =~= ps@.take(i as int));
            assert(ps@.take(i + 1).last() == ps@[i as int]);
            if i > 0 {
                lemma_pairs_snoc(ps@.take(i + 1));
            }
        }
        if i > 0 {
            out.append(",");
        }
        append_quoted(out, ps[i].0.as_str());
        out.append(":");
        append_json_value(out, &ps[i].1);
        proof {
            if i == 0 {
                assert(ps@.take(1).len() == 1);
            }
            assert(out@ =~= old(out)@ + pairs_text(ps@.take(i + 1)));
        }
        i = i + 1;
    }
    proof {
        assert(ps@.take(n as int) =~= ps@);
    }
}

/// The whole-replacement update request for one record: its id and the
/// encoded field pairs, framed the way the service expects a records batch.
pub open spec fn update_body_text(id: Seq<char>, ps: Seq<(String, RecordValue)>) -> Seq<char> {
    "{\"records\":[{\"id\":"@ + quoted(id) + ",\"fields\":{"@ + pairs_text(ps) + "}}]}"@
}

/// Builds the update request body for one record.
pub fn update_body(id: &str, updates: &Vec<(String, RecordValue)>) -> (r: String)
    ensures
        r@ == update_body_text(id@, updates@),
{
    let mut out = String::new();
    out.append("{\"records\":[{\"id\":");
    append_quoted(&mut out, id);
    out.append(",\"fields\":{");
    append_pairs(&mut out, updates);
    out.append("}}]}");
    proof {
        assert(out@ =~= update_body_text(id@, updates@));
    }
    out
}

/// One `"name":null` member of a blank record's field object.
pub open spec fn null_pair_text(name: Seq<char>) -> Seq<char> {
    quoted(name) + ":null"@
}

/// The comma-joined null members for the writable field names.
pub open spec fn null_pairs_text(names: Seq<String>) -> Seq<char>
    decreases names.len(),
{
    if names.len() == 0 {
        Seq::empty()
    } else if names.len() == 1 {
        null_pair_text(names[0]@)
    } else {
        null_pair_text(names[0]@) + ","@ + null_pairs_text(names.drop_first())
    }
}

proof fn lemma_null_pairs_snoc(names: Seq<String>)
    requires
        names.len() >= 2,
    ensures
        null_pairs_text(names) == null_pairs_text(names.drop_last()) + ","@ + null_pair_text(
            names.last()@,
        ),
    decreases names.len(),
{
    reveal_with_fuel(null_pairs_text, 3);
    let head = null_pair_text(names[0]@);
    if names.len() == 2 {
        assert(names.drop_first()[0] == names[1]);
        assert(names.drop_last()[0] == names[0]);
        assert(names.last() == names[1]);
    } else {
        lemma_null_pairs_snoc(names.drop_first());
        assert(names.drop_first().drop_last() =~= names.drop_last().drop_first());
        assert(names.drop_first().last() == names.last());
        assert(names.drop_last()[0] == names[0]);
        assert(names.drop_last().len() >= 2);
        let mid = null_pairs_text(names.drop_last().drop_first());
        let tail = null_pair_text(names.last()@);
        assert(null_pairs_text(names) == head + ","@ + (mid + ","@ + tail));
        assert(null_pairs_text(names.drop_last()) == head + ","@ + mid);
        assert(head + ","@ + (mid + ","@ + tail) =~= (head + ","@ + mid) + ","@ + tail);
    }
}

/// The blank-record creation request: every given field name set to null,
/// framed the way the service expects a records batch.
pub open spec fn create_body_text(names: Seq<String>) -> Seq<char> {
    "{\"records\":[{\"fields\":{"@ + null_pairs_text(names) + "}}]}"@
}

/// Builds the blank-record creation body from the writable-field allow-list.
#[verifier::loop_isolation(false)]
pub fn create_body(names: &Vec<String>) -> (r: String)
    ensures
        r@ == create_body_text(names@),
{
    let mut out = String::new();
    out.append("{\"records\":[{\"fields\":{");
    let n = names.len();
    let mut i: usize = 0;
    while i < n
        invariant
            i <= n,
            out@ == "{\"records\":[{\"fields\":{"@ + null_pairs_text(names@.take(i as int)),
        decreases n - i,
    {
        proof {
            assert(names@.take(i + 1).drop_last() =~= names@.take(i as int));
            assert(names@.take(i + 1).last() == names@[i as int]);
            if i > 0 {
                lemma_null_pairs_snoc(names@.take(i + 1));
            }
        }
        if i > 0 {
            out.append(",");
        }
        append_quoted(&mut out, names[i].as_str());
        out.append(":null");
        proof {
            if i == 0 {
                assert(names@.take(1).len() == 1);
            }
            assert(out@ =~= "{\"records\":[{\"fields\":{"@ + null_pairs_text(names@.take(i + 1)));
        }
        i = i + 1;
    }
    proof {
        assert(names@.take(n as int) =~= names@);
    }
    out.append("}}]}");
    out
}

} // verus!
