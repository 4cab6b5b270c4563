use crate::errors::CliError;
use crate::strutil::str_eq;
use vstd::prelude::*;

verus! {

/// The remote address of one table: the containing base and the table name.
/// Resolved once per invocation and read-only afterwards.
#[derive(Debug, Clone, PartialEq, Eq)]
pub struct TableRef {
    pub base_id: String,
    pub table_name: String,
}

/// The loaded configuration: the service credential and the named table
/// entries, read once per invocation.
pub struct AppConfig {
    pub api_key: String,
    pub tables: Vec<(String, TableRef)>,
}

/// The table reference of the first entry with a matching name, if any.
pub open spec fn spec_find_config(ts: Seq<(String, TableRef)>, name: Seq<char>) -> Option<TableRef>
    decreases ts.len(),
{
    if ts.len() == 0 {
        None
    } else if ts[0].0@ == name {
        Some(ts[0].1)
    } else {
        spec_find_config(ts.drop_first(), name)
    }
}

proof fn lemma_find_config_at(ts: Seq<(String, TableRef)>, name: Seq<char>, i: int)
    requires
        0 <= i < ts.len(),
        ts[i].0@ == name,
        forall|j: int| 0 <= j < i ==> (#[trigger] ts[j]).0@ != name,
    ensures
        spec_find_config(ts, name) == Some(ts[i].1),
    decreases i,
{
    if i == 0 {
    } else {
        assert(ts[0].0@ != name);
        assert(ts.drop_first()[i - 1] == ts[i]);
        assert forall|j: int| 0 <= j < i - 1 implies (#[trigger] ts.drop_first()[j]).0@ != name by {
            assert(ts.drop_first()[j] == ts[j + 1]);
        }
        lemma_find_config_at(ts.drop_first(), name, i - 1);
    }
}

proof fn lemma_find_config_none(ts: Seq<(String, TableRef)>, name: Seq<char>)
    requires
        forall|j: int| 0 <= j < ts.len() ==> (#[trigger] ts[j]).0@ != name,
    ensures
        spec_find_config(ts, name) is None,
    decreases ts.len(),
{
    if ts.len() > 0 {
        assert forall|j: int| 0 <= j < ts.drop_first().len() implies (#[trigger] ts.drop_first()[j]).0@
            != name by {
            assert(ts.drop_first()[j] == ts[j + 1]);
        }
        lemma_find_config_none(ts.drop_first(), name);
    }
}

impl AppConfig {
    /// Resolves a configuration name to its table reference: the first entry
    /// whose name matches, none when the name is unknown.
    pub fn lookup(&self, name: &str) -> (r: Option<TableRef>)
        ensures
            r == spec_find_config(self.tables@, name@),
    {
        let n = self.tables.len();
        let mut i: usize = 0;
        while i < n
            invariant
                n == self.tables@.len(),
                i <= n,
                forall|j: int| 0 <= j < i ==> (#[trigger] self.tables@[j]).0@ != name@,
            decreases n - i,
        {
            if str_eq(self.tables[i].0.as_str(), name) {
                proof {
                    lemma_find_config_at(self.tables@, name@, i as int);
                }
                let t = &self.tables[i].1;
                return Some(
                    TableRef {
                        base_id: t.base_id.clone(),
                        table_name: t.table_name.clone(),
                    },
                );
            }
            i = i + 1;
        }
        proof {
            lemma_find_config_none(self.tables@, name@);
        }
        None
    }

    /// Resolves a configuration name, turning an unknown name into the fatal
    /// `ConfigNotFound`.
    pub fn require_table(&self, name: &str) -> (r: Result<TableRef, CliError>)
        ensures
            match r {
                Ok(t) => spec_find_config(self.tables@, name@) == Some(t),
                Err(e) => e == CliError::ConfigNotFound && spec_find_config(self.tables@, name@)
                    is None,
            },
    {
        match self.lookup(name) {
            Some(t) => Ok(t),
            None => Err(CliError::ConfigNotFound),
        }
    }
}

} // verus!
