use vstd::prelude::*;
use vstd::string::*;

verus! {

/// Character-by-character string equality.
pub fn str_eq(a: &str, b: &str) -> (r: bool)
    ensures
        r == (a@ == b@),
{
    let na = a.unicode_len();
    let nb = b.unicode_len();
    if na != nb {
        return false;
    }
    let mut i: usize = 0;
    while i < na
        invariant
            na == a@.len(),
            na == b@.len(),
            i <= na,
            forall|j: int| 0 <= j < i ==> a@[j] == b@[j],
        decreases na - i,
    {
        if a.get_char(i) != b.get_char(i) {
            return false;
        }
        i = i + 1;
    }
    proof {
        assert(a@ =~= b@);
    }
    true
}

/// Whether a token holds an `=` character.
pub open spec fn has_eq(s: Seq<char>) -> bool {
    exists|i: int| 0 <= i < s.len() && s[i] == '='
}

/// Position of the first `=` in a token (meaningful only when `has_eq` holds).
pub open spec fn first_eq(s: Seq<char>) -> int
    decreases s.len(),
{
    if s.len() == 0 {
        0
    } else if s[0] == '=' {
        0
    } else {
        1 + first_eq(s.drop_first())
    }
}

/// The key part of a `key=value` token: everything before the first `=`.
pub open spec fn key_of(s: Seq<char>) -> Seq<char> {
    s.take(first_eq(s))
}

/// The value part of a `key=value` token: everything after the first `=`.
pub open spec fn val_of(s: Seq<char>) -> Seq<char> {
    s.skip(first_eq(s) + 1)
}

/// Number of `=` characters in a line.
pub open spec fn eq_count(s: Seq<char>) -> int
    decreases s.len(),
{
    if s.len() == 0 {
        0
    } else {
        (if s[0] == '=' {
            1int
        } else {
            0int
        }) + eq_count(s.drop_first())
    }
}

proof fn lemma_first_eq(s: Seq<char>)
    requires
        has_eq(s),
    ensures
        0 <= first_eq(s) < s.len(),
        s[first_eq(s)] == '=',
        forall|j: int| 0 <= j < first_eq(s) ==> s[j] != '=',
    decreases s.len(),
{
    if s.len() == 0 {
    } else if s[0] == '=' {
    } else {
        assert(has_eq(s.drop_first())) by {
            let i = choose|i: int| 0 <= i < s.len() && s[i] == '=';
            assert(s.drop_first()[i - 1] == '=');
        }
        lemma_first_eq(s.drop_first());
        assert(s[first_eq(s)] == s.drop_first()[first_eq(s.drop_first())]);
        assert forall|j: int| 0 <= j < first_eq(s) implies s[j] != '=' by {
            if j > 0 {
                assert(s[j] == s.drop_first()[j - 1]);
            }
        }
    }
}

proof fn lemma_first_eq_at(s: Seq<char>, i: int)
    requires
        0 <= i < s.len(),
        s[i] == '=',
        forall|j: int| 0 <= j < i ==> s[j] != '=',
    ensures
        has_eq(s),
        first_eq(s) == i,
    decreases i,
{
    if i == 0 {
    } else {
        assert(s.drop_first()[i - 1] == '=');
        assert forall|j: int| 0 <= j < i - 1 implies s.drop_first()[j] != '=' by {
            assert(s.drop_first()[j] == s[j + 1]);
        }
        lemma_first_eq_at(s.drop_first(), i - 1);
    }
}

proof fn lemma_eq_count_bounds(s: Seq<char>)
    ensures
        0 <= eq_count(s) <= s.len(),
    decreases s.len(),
{
    if s.len() > 0 {
        lemma_eq_count_bounds(s.drop_first());
    }
}

proof fn lemma_eq_count_push(s: Seq<char>, c: char)
    ensures
        eq_count(s.push(c)) == eq_count(s) + (if c == '=' {
            1int
        } else {
            0int
        }),
    decreases s.len(),
{
    reveal_with_fuel(eq_count, 2);
    if s.len() == 0 {
        assert(s.push(c).drop_first() =~= Seq::<char>::empty());
        assert(s.push(c)[0] == c);
        assert(eq_count(s.push(c)) == (if c == '=' {
            1int
        } else {
            0int
        }) + eq_count(Seq::<char>::empty()));
    } else {
        assert(s.push(c).drop_first() =~= s.drop_first().push(c));
        assert(s.push(c)[0] == s[0]);
        lemma_eq_count_push(s.drop_first(), c);
        assert(eq_count(s.push(c)) == (if s[0] == '=' {
            1int
        } else {
            0int
        }) + eq_count(s.drop_first().push(c)));
        assert(eq_count(s) == (if s[0] == '=' {
            1int
        } else {
            0int
        }) + eq_count(s.drop_first()));
    }
}

/// A line holds an `=` exactly when its `=` count is positive.
pub proof fn lemma_eq_count_pos(s: Seq<char>)
    ensures
        has_eq(s) <==> eq_count(s) > 0,
    decreases s.len(),
{
    if s.len() == 0 {
    } else {
        lemma_eq_count_pos(s.drop_first());
        lemma_eq_count_bounds(s.drop_first());
        if s[0] == '=' {
        } else {
            if has_eq(s) {
                let i = choose|i: int| 0 <= i < s.len() && s[i] == '=';
                assert(s.drop_first()[i - 1] == '=');
            }
            if has_eq(s.drop_first()) {
                let i = choose|i: int| 0 <= i < s.drop_first().len() && s.drop_first()[i] == '=';
                assert(s[i + 1] == '=');
            }
        }
    }
}

/// Finds the position of the first `=` in a token, if any.
pub fn find_eq(s: &str) -> (r: Option<usize>)
    ensures
        match r {
            Some(i) => has_eq(s@) && i == first_eq(s@),
            None => !has_eq(s@),
        },
{
    let n = s.unicode_len();
    let mut i: usize = 0;
    while i < n
        invariant
            n == s@.len(),
            i <= n,
            forall|j: int| 0 <= j < i ==> s@[j] != '=',
        decreases n - i,
    {
        if s.get_char(i) == '=' {
            proof {
                lemma_first_eq_at(s@, i as int);
            }
            return Some(i);
        }
        i = i + 1;
    }
    None
}

/// Counts the `=` characters in a line.
pub fn count_eq_chars(s: &str) -> (r: usize)
    ensures
        r == eq_count(s@),
{
    let n = s.unicode_len();
    let mut i: usize = 0;
    let mut cnt: usize = 0;
    while i < n
        invariant
            n == s@.len(),
            i <= n,
            cnt == eq_count(s@.take(i as int)),
            cnt <= i,
        decreases n - i,
    {
        let c = s.get_char(i);
        proof {
            assert(s@.take(i + 1) =~= s@.take(i as int).push(s@[i as int]));
            lemma_eq_count_push(s@.take(i as int), s@[i as int]);
        }
        if c == '=' {
            cnt = cnt + 1;
        }
        i = i + 1;
    }
    proof {
        assert(s@.take(n as int) =~= s@);
    }
    cnt
}

/// Splits a token at its first `=` into its key and value parts.
pub fn split_token(s: &str) -> (r: Option<(String, String)>)
    ensures
        match r {
            Some(kv) => has_eq(s@) && kv.0@ == key_of(s@) && kv.1@ == val_of(s@),
            None => !has_eq(s@),
        },
{
    match find_eq(s) {
        None => None,
        Some(i) => {
            proof {
                lemma_first_eq(s@);
            }
            let n = s.unicode_len();
            let k = s.substring_char(0, i);
            let v = s.substring_char(i + 1, n);
            proof {
                assert(k@ =~= key_of(s@));
                assert(v@ =~= val_of(s@));
            }
            Some((k.to_owned(), v.to_owned()))
        },
    }
}

/// How one character is written inside a JSON string literal: quotes and
/// backslashes take a backslash escape, every other character stands as
/// itself.
pub open spec fn escaped_char(c: char) -> Seq<char> {
    if c == '"' {
        seq!['\\', '"']
    } else if c == '\\' {
        seq!['\\', '\\']
    } else {
        seq![c]
    }
}

/// JSON string-literal escaping of a whole text.
pub open spec fn escaped(s: Seq<char>) -> Seq<char>
    decreases s.len(),
{
    if s.len() == 0 {
        Seq::empty()
    } else {
        escaped_char(s[0]) + escaped(s.drop_first())
    }
}

/// A JSON string literal: the escaped text between double quotes.
pub open spec fn quoted(s: Seq<char>) -> Seq<char> {
    seq!['"'] + escaped(s) + seq!['"']
}

proof fn lemma_escaped_push(s: Seq<char>, c: char)
    ensures
        escaped(s.push(c)) == escaped(s) + escaped_char(c),
    decreases s.len(),
{
    reveal_with_fuel(escaped, 2);
    if s.len() == 0 {
        assert(s.push(c).drop_first() =~= Seq::<char>::empty());
        assert(s.push(c)[0] == c);
        assert(escaped(s.push(c)) == escaped_char(c) + escaped(Seq::<char>::empty()));
        assert(escaped(s.push(c)) =~= escaped(s) + escaped_char(c));
    } else {
        assert(s.push(c).drop_first() =~= s.drop_first().push(c));
        assert(s.push(c)[0] == s[0]);
        lemma_escaped_push(s.drop_first(), c);
        assert(escaped(s.push(c)) == escaped_char(s[0]) + escaped(s.drop_first().push(c)));
        assert(escaped(s.push(c)) == escaped_char(s[0]) + (escaped(s.drop_first())
            + escaped_char(c)));
        assert(escaped(s) == escaped_char(s[0]) + escaped(s.drop_first()));
        assert(escaped_char(s[0]) + (escaped(s.drop_first()) + escaped_char(c)) =~= (escaped_char(
            s[0],
        ) + escaped(s.drop_first())) + escaped_char(c));
    }
}

/// Appends the JSON string-literal escaping of `s` to `out`.
pub fn append_escaped(out: &mut String, s: &str)
    ensures
        final(out)@ == old(out)@ + escaped(s@),
{
    let n = s.unicode_len();
    let mut i: usize = 0;
    while i < n
        invariant
            n == s@.len(),
            i <= n,
            out@ == old(out)@ + escaped(s@.take(i as int)),
        decreases n - i,
    {
        let c = s.get_char(i);
        proof {
            assert(s@.take(i + 1) =~= s@.take(i as int).push(s@[i as int]));
            lemma_escaped_push(s@.take(i as int), s@[i as int]);
        }
        if c == '"' {
            out.append("\\\"");
            proof {
                reveal_strlit("\\\"");
                assert("\\\""@ =~= escaped_char('"'));
            }
        } else if c == '\\' {
            out.append("\\\\");
            proof {
                reveal_strlit("\\\\");
                assert("\\\\"@ =~= escaped_char('\\'));
            }
        } else {
            let piece = s.substring_char(i, i + 1);
            out.append(piece);
            proof {
                assert(piece@ =~= escaped_char(s@[i as int]));
            }
        }
        proof {
            assert(out@ =~= old(out)@ + escaped(s@.take(i + 1)));
        }
        i = i + 1;
    }
    proof {
        assert(s@.take(n as int) =~= s@);
    }
}

/// Appends `s` as a JSON string literal (escaped, between quotes) to `out`.
pub fn append_quoted(out: &mut String, s: &str)
    ensures
        final(out)@ == old(out)@ + quoted(s@),
{
    out.append("\"");
    append_escaped(out, s);
    out.append("\"");
    proof {
        reveal_strlit("\"");
        assert("\""@ =~= seq!['"']);
        assert(out@ =~= old(out)@ + quoted(s@));
    }
}

} // verus!
