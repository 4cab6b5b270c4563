use crate::errors::CliError;
use crate::strutil::{has_eq, key_of, split_token, val_of};
use crate::values::{encode, encoded, RecordValue};
use vstd::prelude::*;
use vstd::string::*;

verus! {

/// Page size of the recent-records listing.
pub const RECENT_PAGE_SIZE: u64 = 100;

/// The three boolean mode flags of an invocation. `schema` and `fields`
/// exclude each other; that is rejected before resolution.
#[derive(Debug, Clone, Copy, PartialEq, Eq)]
pub struct Flags {
    pub schema: bool,
    pub fields: bool,
    pub recent: bool,
}

/// Whether the flag combination is rejected before intent resolution.
pub open spec fn spec_flags_conflict(flags: Flags) -> bool {
    flags.schema && flags.fields
}

/// Tests the one conflicting flag combination, `schema` together with
/// `fields`.
pub fn flags_conflict(flags: &Flags) -> (r: bool)
    ensures
        r == spec_flags_conflict(*flags),
{
    flags.schema && flags.fields
}

/// No mode flag is set: the record id and field tokens decide.
pub open spec fn no_flag(flags: Flags) -> bool {
    !flags.schema && !flags.fields && !flags.recent
}

/// What one invocation asks for, together with the data that carrying it out
/// needs. Resolution is pure selection; the remote exchange each intent
/// stands for happens outside this crate.
#[derive(Debug, Clone, PartialEq, Eq)]
pub enum Intent {
    /// Print the full cached schema.
    ShowSchema,
    /// Print the writable-field allow-list.
    ShowWritableFields,
    /// List the most recent records of the fixed view.
    ShowRecentRecords { page_size: u64, view_name: String },
    /// Fetch one record and print every field.
    ReadWholeRecord { id: String },
    /// Fetch one record and print the named fields.
    ReadSelectedFields { id: String, names: Vec<String> },
    /// Replace the named fields of one record with the encoded values.
    UpdateFields { id: String, updates: Vec<(String, RecordValue)> },
    /// Create a record with every writable field set to null.
    CreateBlankRecord { names: Vec<String> },
}

/// Some token of the batch holds an `=`.
pub open spec fn any_has_eq(ts: Seq<String>) -> bool {
    exists|i: int| 0 <= i < ts.len() && has_eq(ts[i]@)
}

/// Every token of the batch holds an `=`.
pub open spec fn all_have_eq(ts: Seq<String>) -> bool {
    forall|i: int| 0 <= i < ts.len() ==> has_eq((#[trigger] ts[i])@)
}

/// The encoded pairs mirror the token batch: pair by pair, the key is the
/// text before the token's first `=` and the value is the encoding of the
/// text after it.
pub open spec fn updates_match(us: Seq<(String, RecordValue)>, ts: Seq<String>) -> bool {
    &&& us.len() == ts.len()
    &&& forall|i: int|
        0 <= i < ts.len() ==> (#[trigger] us[i]).0@ == key_of(ts[i]@) && us[i].1@ == encoded(
            val_of(ts[i]@),
        )
}

/// Resolves one invocation to its intent, in strict priority order: the
/// `schema` flag, then the `fields` flag, then the `recent` flag, then the
/// record id with its field tokens, and a blank-record creation when no
/// record id is given. A batch that mixes `key=value` tokens with plain
/// tokens is a hard error: no partial update is ever produced. Resolution
/// has no side effects.
#[verifier::loop_isolation(false)]
pub fn resolve(flags: Flags, record_id: Option<String>, tokens: Vec<String>, writable: Vec<String>) -> (r:
    Result<Intent, CliError>)
    requires
        !spec_flags_conflict(flags),
    ensures
        flags.schema ==> r == Ok::<Intent, CliError>(Intent::ShowSchema),
        !flags.schema && flags.fields ==> r == Ok::<Intent, CliError>(Intent::ShowWritableFields),
        !flags.schema && !flags.fields && flags.recent ==> (r matches Ok(i) && i matches
            Intent::ShowRecentRecords { page_size, view_name } && page_size == RECENT_PAGE_SIZE
            && view_name@ == "Grid view"@),
        no_flag(flags) && record_id is None ==> (r matches Ok(i) && i matches
            Intent::CreateBlankRecord { names } && names == writable),
        no_flag(flags) && record_id is Some && tokens@.len() == 0 ==> (r matches Ok(i)
            && i matches Intent::ReadWholeRecord { id } && id == record_id->0),
        no_flag(flags) && record_id is Some && tokens@.len() > 0 && !any_has_eq(tokens@) ==> (r
            matches Ok(i) && i matches Intent::ReadSelectedFields { id, names } && id == record_id->0
            && names == tokens),
        no_flag(flags) && record_id is Some && any_has_eq(tokens@) && all_have_eq(tokens@) ==> (
        r matches Ok(i) && i matches Intent::UpdateFields { id, updates } && id == record_id->0
            && updates_match(updates@, tokens@)),
        no_flag(flags) && record_id is Some && any_has_eq(tokens@) && !all_have_eq(tokens@) ==> r
            == Err::<Intent, CliError>(CliError::InvalidFieldFormat),
        !any_has_eq(tokens@) ==> !(r matches Ok(i) && i matches Intent::UpdateFields { .. }),
{
    if flags.schema {
        return Ok(Intent::ShowSchema);
    }
    if flags.fields {
        return Ok(Intent::ShowWritableFields);
    }
    if flags.recent {
        return Ok(
            Intent::ShowRecentRecords {
                page_size: RECENT_PAGE_SIZE,
                view_name: String::from_str("Grid view"),
            },
        );
    }
    match record_id {
        None => Ok(Intent::CreateBlankRecord { names: writable }),
        Some(id) => {
            if tokens.len() == 0 {
                return Ok(Intent::ReadWholeRecord { id });
            }
            let n = tokens.len();
            let mut any: bool = false;
            let mut i: usize = 0;
            while i < n
        invariant
                    n == tokens@.len(),
                    i <= n,
                    any == any_has_eq(tokens@.take(i as int)),
                decreases n - i,
            {
                proof {
                    assert(tokens@.take(i + 1) =~= tokens@.take(i as int).push(tokens@[i as int]));
                    assert(forall|j: int|
                        0 <= j < i ==> tokens@.take(i + 1)[j] == tokens@.take(i as int)[j]);
                }
                match crate::strutil::find_eq(tokens[i].as_str()) {
                    Some(_) => {
                        any = true;
                        proof {
                            assert(tokens@.take(i + 1)[i as int] == tokens@[i as int]);
                            assert(any_has_eq(tokens@.take(i + 1)));
                        }
                    },
                    None => {
                        proof {
                            if any_has_eq(tokens@.take(i + 1)) {
                                let j = choose|j: int|
                                    0 <= j < tokens@.take(i + 1).len() && has_eq(
                                        #[trigger] tokens@.take(i + 1)[j]@,
                                    );
                                assert(j < i + 1);
                                if j == i {
                                    assert(!has_eq(tokens@[i as int]@));
                                } else {
                                    assert(any_has_eq(tokens@.take(i as int)));
                                }
                            }
                        }
                    },
                }
                i = i + 1;
            }
            proof {
                assert(tokens@.take(n as int) =~= tokens@);
            }
            if !any {
                return Ok(Intent::ReadSelectedFields { id, names: tokens });
            }
            let mut updates: Vec<(String, RecordValue)> = Vec::new();
            let mut k: usize = 0;
            while k < n
                invariant
                    n == tokens@.len(),
                    k <= n,
                    updates@.len() == k,
                    forall|j: int|
                        0 <= j < k ==> (#[trigger] updates@[j]).0@ == key_of(tokens@[j]@)
                            && updates@[j].1@ == encoded(val_of(tokens@[j]@)),
                    forall|j: int| 0 <= j < k ==> has_eq((#[trigger] tokens@[j])@),
                decreases n - k,
            {
                match split_token(tokens[k].as_str()) {
                    None => {
                        return Err(CliError::InvalidFieldFormat);
                    },
                    Some(kv) => {
                        let val = encode(kv.1.as_str());
                        updates.push((kv.0, val));
                    },
                }
                k = k + 1;
            }
            Ok(Intent::UpdateFields { id, updates })
        },
    }
}

} // verus!
