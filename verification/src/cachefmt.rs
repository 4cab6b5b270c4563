use crate::errors::CliError;
use crate::schema::FieldDef;
use crate::strutil::{append_quoted, escaped, escaped_char, quoted, str_eq};
use vstd::prelude::*;
use vstd::string::*;

verus! {

/// The cache artifact text of one field definition: a two-member object with
/// the field's name and type as JSON string literals.
pub open spec fn entry_text(name: Seq<char>, ty: Seq<char>) -> Seq<char> {
    "{\"name\":"@ + quoted(name) + ",\"type\":"@ + quoted(ty) + "}"@
}

/// The comma-joined entry texts of a field list.
pub open spec fn entries_text(fs: Seq<FieldDef>) -> Seq<char>
    decreases fs.len(),
{
    if fs.len() == 0 {
        Seq::empty()
    } else if fs.len() == 1 {
        entry_text(fs[0].name@, fs[0].field_type@)
    } else {
        entry_text(fs[0].name@, fs[0].field_type@) + ","@ + entries_text(fs.drop_first())
    }
}

/// The full cache artifact text of a field list: a JSON array of its
/// entries, in order.
pub open spec fn cache_text(fs: Seq<FieldDef>) -> Seq<char> {
    "["@ + entries_text(fs) + "]"@
}

proof fn lemma_entries_snoc(fs: Seq<FieldDef>)
    requires
        fs.len() >= 2,
    ensures
        entries_text(fs) == entries_text(fs.drop_last()) + ","@ + entry_text(
            fs.last().name@,
            fs.last().field_type@,
        ),
    decreases fs.len(),
{
    reveal_with_fuel(entries_text, 3);
    let head = entry_text(fs[0].name@, fs[0].field_type@);
    if fs.len() == 2 {
        assert(fs.drop_first().len() == 1);
        assert(fs.drop_first()[0] == fs[1]);
        assert(fs.drop_last().len() == 1);
        assert(fs.drop_last()[0] == fs[0]);
        assert(fs.last() == fs[1]);
        assert(head + ","@ + entry_text(fs[1].name@, fs[1].field_type@) == entries_text(
            fs.drop_last(),
        ) + ","@ + entry_text(fs.last().name@, fs.last().field_type@));
    } else {
        lemma_entries_snoc(fs.drop_first());
        assert(fs.drop_first().drop_last() =~= fs.drop_last().drop_first());
        assert(fs.drop_first().last() == fs.last());
        assert(fs.drop_last()[0] == fs[0]);
        assert(fs.drop_last().len() >= 2);
        let mid = entries_text(fs.drop_last().drop_first());
        let tail = entry_text(fs.last().name@, fs.last().field_type@);
        assert(entries_text(fs) == head + ","@ + (mid + ","@ + tail));
        assert(entries_text(fs.drop_last()) == head + ","@ + mid);
        assert(head + ","@ + (mid + ","@ + tail) =~= (head + ","@ + mid) + ","@ + tail);
    }
}

/// Serializes a field list into the cache artifact text.
#[verifier::loop_isolation(false)]
pub fn serialize_cache(fields: &Vec<FieldDef>) -> (r: String)
    ensures
        r@ == cache_text(fields@),
{
    let mut out = String::new();
    out.append("[");
    let n = fields.len();
    let mut i: usize = 0;
    while i < n
        invariant
            i <= n,
            out@ == "["@ + entries_text(fields@.take(i as int)),
        decreases n - i,
    {
        proof {
            assert(fields@.take(i + 1).drop_last() =~= fields@.take(i as int));
            assert(fields@.take(i + 1).last() == fields@[i as int]);
            if i > 0 {
                lemma_entries_snoc(fields@.take(i + 1));
            }
        }
        if i > 0 {
            out.append(",");
        }
        out.append("{\"name\":");
        append_quoted(&mut out, fields[i].name.as_str());
        out.append(",\"type\":");
        append_quoted(&mut out, fields[i].field_type.as_str());
        out.append("}");
        proof {
            if i == 0 {
                assert(fields@.take(1).len() == 1);
                assert(out@ =~= "["@ + entries_text(fields@.take(1)));
            } else {
                assert(out@ =~= "["@ + entries_text(fields@.take(i + 1)));
            }
        }
        i = i + 1;
    }
    proof {
        assert(fields@.take(n as int) =~= fields@);
    }
    out.append("]");
    out
}

/// The literal `lit` stands in `s` at position `i`.
pub open spec fn lit_at(s: Seq<char>, i: int, lit: Seq<char>) -> bool {
    &&& 0 <= i
    &&& i + lit.len() <= s.len()
    &&& s.subrange(i, i + lit.len()) == lit
}

/// Parses the remainder of a JSON string literal (the opening quote already
/// consumed) starting at `i`: the unescaped content and the position just
/// after the closing quote. Only quote and backslash escapes are accepted.
pub open spec fn spec_parse_string(s: Seq<char>, i: int) -> Option<(Seq<char>, int)>
    decreases s.len() - i,
{
    if i < 0 || i >= s.len() {
        None
    } else if s[i] == '"' {
        Some((Seq::empty(), i + 1))
    } else if s[i] == '\\' {
        if i + 1 < s.len() && (s[i + 1] == '"' || s[i + 1] == '\\') {
            match spec_parse_string(s, i + 2) {
                Some((t, j)) => Some((seq![s[i + 1]] + t, j)),
                None => None,
            }
        } else {
            None
        }
    } else {
        match spec_parse_string(s, i + 1) {
            Some((t, j)) => Some((seq![s[i]] + t, j)),
            None => None,
        }
    }
}

pub proof fn lemma_parse_string_progress(s: Seq<char>, i: int)
    ensures
        spec_parse_string(s, i) matches Some(p) ==> i < p.1 <= s.len(),
    decreases s.len() - i,
{
    if i < 0 || i >= s.len() {
    } else if s[i] == '"' {
    } else if s[i] == '\\' {
        if i + 1 < s.len() && (s[i + 1] == '"' || s[i + 1] == '\\') {
            lemma_parse_string_progress(s, i + 2);
        }
    } else {
        lemma_parse_string_progress(s, i + 1);
    }
}

pub open spec fn name_tag() -> Seq<char> {
    "{\"name\":\""@
}

pub open spec fn type_tag() -> Seq<char> {
    ",\"type\":\""@
}

/// Parses one cache entry starting at `i`: the field's name and type, and
/// the position just after the closing brace.
pub open spec fn spec_parse_entry(s: Seq<char>, i: int) -> Option<((Seq<char>, Seq<char>), int)> {
    if lit_at(s, i, name_tag()) {
        match spec_parse_string(s, i + name_tag().len()) {
            Some((name, j)) => if lit_at(s, j, type_tag()) {
                match spec_parse_string(s, j + type_tag().len()) {
                    Some((ty, k)) => if lit_at(s, k, "}"@) {
                        Some(((name, ty), k + 1))
                    } else {
                        None
                    },
                    None => None,
                }
            } else {
                None
            },
            None => None,
        }
    } else {
        None
    }
}

pub proof fn lemma_parse_entry_progress(s: Seq<char>, i: int)
    ensures
        spec_parse_entry(s, i) matches Some(p) ==> i < p.1 <= s.len(),
{
    reveal_strlit("}");
    if lit_at(s, i, name_tag()) {
        lemma_parse_string_progress(s, i + name_tag().len());
        match spec_parse_string(s, i + name_tag().len()) {
            Some((name, j)) => {
                if lit_at(s, j, type_tag()) {
                    lemma_parse_string_progress(s, j + type_tag().len());
                }
            },
            None => {},
        }
    }
}

/// Parses a non-empty comma-joined run of cache entries starting at `i`.
pub open spec fn spec_parse_entries(s: Seq<char>, i: int) -> Option<
    (Seq<(Seq<char>, Seq<char>)>, int),
>
    decreases s.len() - i,
{
    match spec_parse_entry(s, i) {
        Some((e, j)) => {
            proof {
                lemma_parse_entry_progress(s, i);
                reveal_strlit(",");
            }
            if lit_at(s, j, ","@) {
                match spec_parse_entries(s, j + 1) {
                    Some((rest, k)) => Some((seq![e] + rest, k)),
                    None => None,
                }
            } else {
                Some((seq![e], j))
            }
        },
        None => None,
    }
}

proof fn lemma_parse_entries_progress(s: Seq<char>, i: int)
    ensures
        spec_parse_entries(s, i) matches Some(p) ==> i < p.1 <= s.len(),
    decreases s.len() - i,
{
    reveal_strlit(",");
    match spec_parse_entry(s, i) {
        Some((e, j)) => {
            lemma_parse_entry_progress(s, i);
            if lit_at(s, j, ","@) {
                lemma_parse_entries_progress(s, j + 1);
            }
        },
        None => {},
    }
}

/// Parses a whole cache artifact: the empty array, or a bracketed run of
/// entries filling the text exactly.
pub open spec fn spec_parse_cache(s: Seq<char>) -> Option<Seq<(Seq<char>, Seq<char>)>> {
    if s == "[]"@ {
        Some(Seq::empty())
    } else if lit_at(s, 0, "["@) {
        match spec_parse_entries(s, 1) {
            Some((es, j)) => if j + 1 == s.len() && lit_at(s, j, "]"@) {
                Some(es)
            } else {
                None
            },
            None => None,
        }
    } else {
        None
    }
}

/// Tests whether the literal `lit` stands in `s` at position `i`.
fn check_lit(s: &str, i: usize, lit: &str) -> (r: bool)
    ensures
        r == lit_at(s@, i as int, lit@),
{
    let n = s.unicode_len();
    let m = lit.unicode_len();
    if i > n || m > n - i {
        return false;
    }
    let mut j: usize = 0;
    while j < m
        invariant
            n == s@.len(),
            m == lit@.len(),
            i + m <= n,
            j <= m,
            forall|k: int| 0 <= k < j ==> s@[i + k] == lit@[k],
        decreases m - j,
    {
        if s.get_char(i + j) != lit.get_char(j) {
            proof {
                assert(s@.subrange(i as int, i + m) != lit@) by {
                    assert(s@.subrange(i as int, i + m)[j as int] == s@[i + j]);
                }
            }
            return false;
        }
        j = j + 1;
    }
    proof {
        assert(s@.subrange(i as int, i + m) =~= lit@);
    }
    true
}

/// Runs the string-literal parse at `i`, handing back the content and the
/// position after the closing quote.
fn parse_string_at(s: &str, i: usize) -> (r: Option<(String, usize)>)
    ensures
        match r {
            Some(p) => spec_parse_string(s@, i as int) == Some((p.0@, p.1 as int)),
            None => spec_parse_string(s@, i as int) is None,
        },
    decreases s@.len() - i,
{
    let n = s.unicode_len();
    if i >= n {
        return None;
    }
    let c = s.get_char(i);
    if c == '"' {
        Some((String::new(), i + 1))
    } else if c == '\\' {
        if i + 1 < n {
            let e = s.get_char(i + 1);
            if e == '"' || e == '\\' {
                match parse_string_at(s, i + 2) {
                    Some(p) => {
                        let piece = s.substring_char(i + 1, i + 2);
                        let whole = piece.to_owned().concat(p.0.as_str());
                        proof {
                            assert(whole@ =~= seq![s@[i + 1]] + p.0@);
                        }
                        Some((whole, p.1))
                    },
                    None => None,
                }
            } else {
                None
            }
        } else {
            None
        }
    } else {
        match parse_string_at(s, i + 1) {
            Some(p) => {
                let piece = s.substring_char(i, i + 1);
                let whole = piece.to_owned().concat(p.0.as_str());
                proof {
                    assert(whole@ =~= seq![s@[i as int]] + p.0@);
                }
                Some((whole, p.1))
            },
            None => None,
        }
    }
}

/// Runs the entry parse at `i`, handing back one field definition and the
/// position after its closing brace.
fn parse_entry_at(s: &str, i: usize) -> (r: Option<(FieldDef, usize)>)
    ensures
        match r {
            Some(p) => spec_parse_entry(s@, i as int) == Some(
                ((p.0.name@, p.0.field_type@), p.1 as int),
            ),
            None => spec_parse_entry(s@, i as int) is None,
        },
{
    let n = s.unicode_len();
    let ntag = "{\"name\":\"";
    let ttag = ",\"type\":\"";
    if !check_lit(s, i, ntag) {
        return None;
    }
    proof {
        lemma_parse_string_progress(s@, i + name_tag().len());
    }
    let j0 = i + ntag.unicode_len();
    match parse_string_at(s, j0) {
        None => None,
        Some(np) => {
            let j = np.1;
            if !check_lit(s, j, ttag) {
                return None;
            }
            proof {
                lemma_parse_string_progress(s@, j + type_tag().len());
            }
            let k0 = j + ttag.unicode_len();
            match parse_string_at(s, k0) {
                None => None,
                Some(tp) => {
                    let k = tp.1;
                    if !check_lit(s, k, "}") {
                        return None;
                    }
                    proof {
                        reveal_strlit("}");
                    }
                    Some((FieldDef { name: np.0, field_type: tp.0 }, k + 1))
                },
            }
        },
    }
}

/// Runs the entries parse at `i`, handing back the parsed field definitions
/// and the position after the last entry.
fn parse_entries_at(s: &str, i: usize) -> (r: Option<(Vec<FieldDef>, usize)>)
    ensures
        match r {
            Some(p) => spec_parse_entries(s@, i as int) matches Some(q) && q.1 == p.1 as int
                && q.0.len() == p.0@.len() && (forall|k: int|
                0 <= k < q.0.len() ==> q.0[k] == ((#[trigger] p.0@[k]).name@, p.0@[k].field_type@)),
            None => spec_parse_entries(s@, i as int) is None,
        },
    decreases s@.len() - i,
{
    let n = s.unicode_len();
    match parse_entry_at(s, i) {
        None => None,
        Some(ep) => {
            let j = ep.1;
            proof {
                lemma_parse_entry_progress(s@, i as int);
            }
            if check_lit(s, j, ",") {
                proof {
                    reveal_strlit(",");
                }
                match parse_entries_at(s, j + 1) {
                    None => None,
                    Some(rp) => {
                        let mut all = rp.0;
                        all.insert(0, ep.0);
                        proof {
                            let q = spec_parse_entries(s@, i as int).unwrap();
                            assert(q.0 == seq![(ep.0.name@, ep.0.field_type@)] + spec_parse_entries(
                                s@,
                                j + 1,
                            ).unwrap().0);
                            assert forall|k: int| 0 <= k < q.0.len() implies q.0[k] == ((
                            #[trigger] all@[k]).name@, all@[k].field_type@) by {
                                if k == 0 {
                                    assert(all@[0] == ep.0);
                                } else {
                                    assert(all@[k] == rp.0@[k - 1]);
                                }
                            }
                        }
                        Some((all, rp.1))
                    },
                }
            } else {
                let mut one: Vec<FieldDef> = Vec::new();
                one.push(ep.0);
                Some((one, j))
            }
        },
    }
}

/// Deserializes the cache artifact text into field definitions: the parsed
/// list exactly when the text is a well-formed artifact.
pub fn parse_cache(s: &str) -> (r: Option<Vec<FieldDef>>)
    ensures
        match r {
            Some(fs) => spec_parse_cache(s@) matches Some(es) && es.len() == fs@.len() && (forall|
                k: int,
            |
                0 <= k < es.len() ==> es[k] == ((#[trigger] fs@[k]).name@, fs@[k].field_type@)),
            None => spec_parse_cache(s@) is None,
        },
{
    if str_eq(s, "[]") {
        return Some(Vec::new());
    }
    if !check_lit(s, 0, "[") {
        return None;
    }
    let n = s.unicode_len();
    match parse_entries_at(s, 1) {
        None => None,
        Some(p) => {
            let j = p.1;
            proof {
                lemma_parse_entries_progress(s@, 1);
            }
            if n - j == 1 && check_lit(s, j, "]") {
                Some(p.0)
            } else {
                None
            }
        },
    }
}

proof fn lemma_parse_string_exact(s: Seq<char>, i: int, x: Seq<char>)
    requires
        0 <= i,
        i + escaped(x).len() + 1 <= s.len(),
        s.subrange(i, i + escaped(x).len() + 1) == escaped(x) + seq!['"'],
    ensures
        spec_parse_string(s, i) == Some((x, i + escaped(x).len() + 1)),
    decreases x.len(),
{
    reveal_with_fuel(escaped, 2);
    let piece = s.subrange(i, i + escaped(x).len() + 1);
    if x.len() == 0 {
        assert(escaped(x).len() == 0);
        assert(s[i] == piece[0]);
        assert(piece[0] == '"');
        assert(spec_parse_string(s, i) == Some((Seq::<char>::empty(), i + 1)));
        assert(x =~= Seq::<char>::empty());
    } else {
        let c = x[0];
        let rest = x.drop_first();
        assert(escaped(x) == escaped_char(c) + escaped(rest));
        if c == '"' || c == '\\' {
            assert(escaped_char(c) == seq!['\\', c]);
            assert(escaped(x).len() == 2 + escaped(rest).len());
            assert(s[i] == piece[0]);
            assert(piece[0] == '\\');
            assert(s[i + 1] == piece[1]);
            assert(piece[1] == c);
            assert(s.subrange(i + 2, i + 2 + escaped(rest).len() + 1) =~= escaped(rest)
                + seq!['"']) by {
                assert(forall|k: int|
                    0 <= k < escaped(rest).len() + 1 ==> #[trigger] s.subrange(
                        i + 2,
                        i + 2 + escaped(rest).len() + 1,
                    )[k] == piece[k + 2]);
            }
            lemma_parse_string_exact(s, i + 2, rest);
            assert(seq![s[i + 1]] + rest =~= x);
        } else {
            assert(escaped_char(c) == seq![c]);
            assert(escaped(x).len() == 1 + escaped(rest).len());
            assert(s[i] == piece[0]);
            assert(piece[0] == c);
            assert(s.subrange(i + 1, i + 1 + escaped(rest).len() + 1) =~= escaped(rest)
                + seq!['"']) by {
                assert(forall|k: int|
                    0 <= k < escaped(rest).len() + 1 ==> #[trigger] s.subrange(
                        i + 1,
                        i + 1 + escaped(rest).len() + 1,
                    )[k] == piece[k + 1]);
            }
            lemma_parse_string_exact(s, i + 1, rest);
            assert(seq![s[i as int]] + rest =~= x);
        }
    }
}

proof fn lemma_tag_shapes()
    ensures
        name_tag() == "{\"name\":"@ + seq!['"'],
        type_tag() == ",\"type\":"@ + seq!['"'],
        name_tag().len() == 9,
        type_tag().len() == 9,
        "{\"name\":"@.len() == 8,
        ",\"type\":"@.len() == 8,
        "}"@ == seq!['}'],
        ","@ == seq![','],
        "["@ == seq!['['],
        "]"@ == seq![']'],
        "[]"@ == seq!['[', ']'],
{
    reveal_strlit("{\"name\":\"");
    reveal_strlit("{\"name\":");
    reveal_strlit(",\"type\":\"");
    reveal_strlit(",\"type\":");
    reveal_strlit("}");
    reveal_strlit(",");
    reveal_strlit("[");
    reveal_strlit("]");
    reveal_strlit("[]");
    assert(name_tag() =~= "{\"name\":"@ + seq!['"']);
    assert(type_tag() =~= ",\"type\":"@ + seq!['"']);
    assert("}"@ =~= seq!['}']);
    assert(","@ =~= seq![',']);
    assert("["@ =~= seq!['[']);
    assert("]"@ =~= seq![']']);
    assert("[]"@ =~= seq!['[', ']']);
}

proof fn lemma_parse_entry_exact(s: Seq<char>, i: int, name: Seq<char>, ty: Seq<char>)
    requires
        0 <= i,
        i + entry_text(name, ty).len() <= s.len(),
        s.subrange(i, i + entry_text(name, ty).len()) == entry_text(name, ty),
    ensures
        spec_parse_entry(s, i) == Some(((name, ty), i + entry_text(name, ty).len())),
        entry_text(name, ty).len() == 21 + escaped(name).len() + escaped(ty).len(),
{
    lemma_tag_shapes();
    let e = entry_text(name, ty);
    let el = e.len();
    let nl = escaped(name).len() as int;
    let tl = escaped(ty).len() as int;
    assert(el == 21 + nl + tl);
    let piece = s.subrange(i, i + el);
    assert(forall|k: int| 0 <= k < el ==> s[i + k] == #[trigger] piece[k]);
    // The opening tag, including the name's opening quote.
    assert(e =~= name_tag() + (escaped(name) + seq!['"']) + (",\"type\":"@ + seq!['"']) + (
    escaped(ty) + seq!['"']) + seq!['}']);
    assert(s.subrange(i, i + 9) =~= name_tag()) by {
        assert(forall|k: int| 0 <= k < 9 ==> #[trigger] s.subrange(i, i + 9)[k] == piece[k]);
        assert(forall|k: int| 0 <= k < 9 ==> #[trigger] piece[k] == name_tag()[k]);
    }
    assert(lit_at(s, i, name_tag()));
    // The escaped name with its closing quote.
    assert(s.subrange(i + 9, i + 9 + nl + 1) =~= escaped(name) + seq!['"']) by {
        assert(forall|k: int|
            0 <= k < nl + 1 ==> #[trigger] s.subrange(i + 9, i + 9 + nl + 1)[k] == piece[k + 9]);
        assert(forall|k: int|
            0 <= k < nl + 1 ==> #[trigger] piece[k + 9] == (escaped(name) + seq!['"'])[k]);
    }
    lemma_parse_string_exact(s, i + 9, name);
    let j = i + 9 + nl + 1;
    assert(spec_parse_string(s, i + name_tag().len()) == Some((name, j)));
    // The type tag.
    assert(s.subrange(j, j + 9) =~= type_tag()) by {
        assert(forall|k: int| 0 <= k < 9 ==> #[trigger] s.subrange(j, j + 9)[k] == piece[k + 10
            + nl]);
        assert(forall|k: int| 0 <= k < 9 ==> #[trigger] piece[k + 10 + nl] == type_tag()[k]);
    }
    assert(lit_at(s, j, type_tag()));
    // The escaped type with its closing quote.
    assert(s.subrange(j + 9, j + 9 + tl + 1) =~= escaped(ty) + seq!['"']) by {
        assert(forall|k: int|
            0 <= k < tl + 1 ==> #[trigger] s.subrange(j + 9, j + 9 + tl + 1)[k] == piece[k + 19
                + nl]);
        assert(forall|k: int|
            0 <= k < tl + 1 ==> #[trigger] piece[k + 19 + nl] == (escaped(ty) + seq!['"'])[k]);
    }
    lemma_parse_string_exact(s, j + 9, ty);
    let k = j + 9 + tl + 1;
    assert(spec_parse_string(s, j + type_tag().len()) == Some((ty, k)));
    // The closing brace.
    assert(s.subrange(k, k + 1) =~= "}"@) by {
        assert(s.subrange(k, k + 1)[0] == piece[el - 1]);
        assert(piece[el - 1] == '}');
    }
    assert(lit_at(s, k, "}"@));
    assert(k + 1 == i + el);
}

/// The name/type views of a field list, entry by entry.
pub open spec fn views_of(fs: Seq<FieldDef>) -> Seq<(Seq<char>, Seq<char>)> {
    fs.map_values(|f: FieldDef| (f.name@, f.field_type@))
}

proof fn lemma_parse_entries_exact(s: Seq<char>, i: int, fs: Seq<FieldDef>)
    requires
        0 <= i,
        fs.len() >= 1,
        i + entries_text(fs).len() <= s.len(),
        s.subrange(i, i + entries_text(fs).len()) == entries_text(fs),
        i + entries_text(fs).len() == s.len() || s[i + entries_text(fs).len()] != ',',
    ensures
        spec_parse_entries(s, i) == Some((views_of(fs), i + entries_text(fs).len())),
    decreases fs.len(),
{
    lemma_tag_shapes();
    let el = entries_text(fs).len() as int;
    let piece = s.subrange(i, i + el);
    assert(forall|k: int| 0 <= k < el ==> s[i + k] == #[trigger] piece[k]);
    let head = entry_text(fs[0].name@, fs[0].field_type@);
    let hl = head.len() as int;
    if fs.len() == 1 {
        assert(entries_text(fs) == head);
        lemma_parse_entry_exact(s, i, fs[0].name@, fs[0].field_type@);
        let j = i + hl;
        // The run ends here: no comma follows, so a single entry is parsed.
        assert(!lit_at(s, j, ","@)) by {
            if lit_at(s, j, ","@) {
                assert(s.subrange(j, j + 1)[0] == s[j]);
                assert(s[j] == ',');
            }
        }
        assert(views_of(fs) =~= seq![(fs[0].name@, fs[0].field_type@)]);
    } else {
        assert(entries_text(fs) == head + ","@ + entries_text(fs.drop_first()));
        let rl = entries_text(fs.drop_first()).len() as int;
        assert(el == hl + 1 + rl);
        assert(s.subrange(i, i + hl) =~= head) by {
            assert(forall|k: int| 0 <= k < hl ==> #[trigger] s.subrange(i, i + hl)[k]
                == piece[k]);
            assert(forall|k: int| 0 <= k < hl ==> #[trigger] piece[k] == head[k]);
        }
        lemma_parse_entry_exact(s, i, fs[0].name@, fs[0].field_type@);
        let j = i + hl;
        assert(s.subrange(j, j + 1) =~= ","@) by {
            assert(s.subrange(j, j + 1)[0] == piece[hl]);
            assert(piece[hl] == ',');
        }
        assert(lit_at(s, j, ","@));
        assert(s.subrange(j + 1, j + 1 + rl) =~= entries_text(fs.drop_first())) by {
            assert(forall|k: int|
                0 <= k < rl ==> #[trigger] s.subrange(j + 1, j + 1 + rl)[k] == piece[k + hl + 1]);
            assert(forall|k: int|
                0 <= k < rl ==> #[trigger] piece[k + hl + 1] == entries_text(fs.drop_first())[k]);
        }
        lemma_parse_entries_exact(s, j + 1, fs.drop_first());
        assert(spec_parse_entries(s, j + 1) == Some((views_of(fs.drop_first()), i + el)));
        assert(views_of(fs) =~= seq![(fs[0].name@, fs[0].field_type@)] + views_of(
            fs.drop_first(),
        ));
    }
}

/// Parsing inverts serialization: the artifact text of any field list parses
/// back to exactly that list's names and types. With `serialize_cache` and
/// `parse_cache` holding their contracts, a written cache is always read
/// back unchanged.
pub proof fn lemma_cache_round_trip(fs: Seq<FieldDef>)
    ensures
        spec_parse_cache(cache_text(fs)) == Some(views_of(fs)),
{
    lemma_tag_shapes();
    let s = cache_text(fs);
    let el = entries_text(fs).len() as int;
    assert(s.len() == el + 2);
    if fs.len() == 0 {
        assert(s =~= "[]"@);
        assert(views_of(fs) =~= Seq::<(Seq<char>, Seq<char>)>::empty());
    } else {
        assert(entry_text(fs[0].name@, fs[0].field_type@).len() >= 21);
        assert(el >= 21) by {
            if fs.len() > 1 {
                assert(entries_text(fs) == entry_text(fs[0].name@, fs[0].field_type@) + ","@
                    + entries_text(fs.drop_first()));
            }
        }
        assert(s != "[]"@) by {
            assert(s.len() != "[]"@.len());
        }
        assert(s.subrange(0, 1) =~= "["@) by {
            assert(s[0] == ("["@ + entries_text(fs) + "]"@)[0]);
        }
        assert(lit_at(s, 0, "["@));
        assert(s.subrange(1, 1 + el) =~= entries_text(fs)) by {
            assert(forall|k: int|
                0 <= k < el ==> #[trigger] s.subrange(1, 1 + el)[k] == ("["@ + entries_text(fs)
                    + "]"@)[k + 1]);
        }
        assert(s[1 + el] == ']');
        lemma_parse_entries_exact(s, 1, fs);
        assert(spec_parse_entries(s, 1) == Some((views_of(fs), 1 + el)));
        assert(s.subrange(1 + el, 2 + el) =~= "]"@) by {
            assert(s.subrange(1 + el, 2 + el)[0] == s[1 + el]);
        }
        assert(lit_at(s, 1 + el, "]"@));
    }
}

/// Loads the cache artifact from its raw text: `CacheMissing` when the
/// artifact was never written, `CacheCorrupt` when the text does not parse,
/// the field list otherwise.
pub fn decode_cache(text: Option<&str>) -> (r: Result<Vec<FieldDef>, CliError>)
    ensures
        text is None ==> r == Err::<Vec<FieldDef>, CliError>(CliError::CacheMissing),
        text matches Some(t) ==> match r {
            Ok(fs) => spec_parse_cache(t@) matches Some(es) && es.len() == fs@.len() && (forall|
                k: int,
            |
                0 <= k < es.len() ==> es[k] == ((#[trigger] fs@[k]).name@, fs@[k].field_type@)),
            Err(e) => e == CliError::CacheCorrupt && spec_parse_cache(t@) is None,
        },
{
    match text {
        None => Err(CliError::CacheMissing),
        Some(t) => match parse_cache(t) {
            Some(fs) => Ok(fs),
            None => Err(CliError::CacheCorrupt),
        },
    }
}

} // verus!
