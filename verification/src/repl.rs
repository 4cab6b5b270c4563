use crate::strutil::{count_eq_chars, eq_count, key_of, lemma_eq_count_pos, split_token, str_eq,
    val_of};
use vstd::prelude::*;

verus! {

/// The judgement on one interactive `key=value` line.
#[derive(Debug, Clone, PartialEq, Eq)]
pub enum LineOutcome {
    /// The line is well formed and names a known field: echo the pair.
    Accepted { key: String, value: String },
    /// The line is well formed but its key is not a known field name.
    UnknownField { key: String },
    /// The line does not hold exactly one `key=value` pair.
    Invalid,
}

/// Whether a key occurs among the known field names.
pub open spec fn known_name(names: Seq<String>, key: Seq<char>) -> bool {
    exists|i: int| 0 <= i < names.len() && (#[trigger] names[i])@ == key
}

/// Judges one line of the interactive loop: it must hold exactly one `=`,
/// and the text before it must be a known field name. Ending the loop is the
/// caller's business; no line judgement ends it.
#[verifier::loop_isolation(false)]
pub fn validate_line(line: &str, known: &Vec<String>) -> (r: LineOutcome)
    ensures
        eq_count(line@) != 1 ==> r is Invalid,
        eq_count(line@) == 1 && known_name(known@, key_of(line@)) ==> (r matches
            LineOutcome::Accepted { key, value } && key@ == key_of(line@) && value@ == val_of(
            line@,
        )),
        eq_count(line@) == 1 && !known_name(known@, key_of(line@)) ==> (r matches
            LineOutcome::UnknownField { key } && key@ == key_of(line@)),
{
    let c = count_eq_chars(line);
    if c != 1 {
        return LineOutcome::Invalid;
    }
    proof {
        lemma_eq_count_pos(line@);
    }
    match split_token(line) {
        None => LineOutcome::Invalid,
        Some(kv) => {
            let n = known.len();
            let mut i: usize = 0;
            while i < n
                invariant
                    n == known@.len(),
                    i <= n,
                    forall|j: int| 0 <= j < i ==> (#[trigger] known@[j])@ != kv.0@,
                decreases n - i,
            {
                if str_eq(known[i].as_str(), kv.0.as_str()) {
                    return LineOutcome::Accepted { key: kv.0, value: kv.1 };
                }
                i = i + 1;
            }
            LineOutcome::UnknownField { key: kv.0 }
        },
    }
}

} // verus!
