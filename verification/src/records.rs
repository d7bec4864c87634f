//! Crate records produced by directory scans, and the "exactly one version"
//! gate that migration requires.

use vstd::prelude::*;

use crate::Error;
use crate::names::str_eq;
use crate::version::Version;

verus! {

/// A read-only descriptor of one discovered package version.
pub struct CrateRecord {
    pub name: String,
    pub version: Version,
    /// The declared license expression.
    pub license: String,
    pub repository: Option<String>,
    pub description: String,
    /// External policy input: whether migration of this crate is denied.
    pub migration_denied: bool,
}

/// The records found by scanning one directory tree.
pub struct CrateCollection {
    pub records: Vec<CrateRecord>,
}

/// How many records in `s` bear the name `n`.
pub open spec fn count_matching(s: Seq<CrateRecord>, n: Seq<char>) -> nat
    decreases s.len(),
{
    if s.len() == 0 {
        0
    } else {
        count_matching(s.drop_last(), n) + if s.last().name@ == n {
            1nat
        } else {
            0nat
        }
    }
}

/// The names of the records of `s`, in order.
pub open spec fn record_names(s: Seq<CrateRecord>) -> Seq<Seq<char>> {
    Seq::new(s.len(), |i: int| s[i].name@)
}

/// The first record of `s` bearing the name `n`; an arbitrary record when
/// none does.
pub open spec fn spec_record_for(s: Seq<CrateRecord>, n: Seq<char>) -> CrateRecord
    decreases s.len(),
{
    if s.len() == 0 {
        s[0]
    } else if s[0].name@ == n {
        s[0]
    } else {
        spec_record_for(s.drop_first(), n)
    }
}

/// The first matching index holds the record `spec_record_for` names.
pub proof fn lemma_record_for_at(s: Seq<CrateRecord>, n: Seq<char>, i: int)
    requires
        0 <= i < s.len(),
        s[i].name@ == n,
        forall|k: int| 0 <= k < i ==> s[k].name@ != n,
    ensures
        spec_record_for(s, n) == s[i],
    decreases i,
{
    if i > 0 {
        lemma_record_for_at(s.drop_first(), n, i - 1);
    }
}

impl CrateCollection {
    /// Counts the records that bear the name `name`.
    pub fn count_of(&self, name: &String) -> (c: usize)
        ensures
            c == count_matching(self.records@, name@),
    {
        let mut c: usize = 0;
        let mut i: usize = 0;
        while i < self.records.len()
            invariant
                0 <= i <= self.records.len(),
                c == count_matching(self.records@.take(i as int), name@),
                c <= i,
            decreases self.records.len() - i,
        {
            proof {
                assert(self.records@.take(i + 1).drop_last() =~= self.records@.take(i as int));
                assert(self.records@.take(i + 1).last() == self.records@[i as int]);
            }
            if str_eq(&self.records[i].name, name) {
                c += 1;
            }
            i += 1;
        }
        proof {
            assert(self.records@.take(self.records@.len() as int) =~= self.records@);
        }
        c
    }

    /// The index of the first record bearing `name`, if any.
    fn find_first(&self, name: &String) -> (r: Option<usize>)
        ensures
            match r {
                Some(i) => i < self.records@.len() && self.records@[i as int].name@ == name@
                    && forall|k: int| 0 <= k < i ==> self.records@[k].name@ != name@,
                None => forall|k: int|
                    0 <= k < self.records@.len() ==> self.records@[k].name@ != name@,
            },
    {
        let mut i: usize = 0;
        while i < self.records.len()
            invariant
                0 <= i <= self.records.len(),
                forall|k: int| 0 <= k < i ==> self.records@[k].name@ != name@,
            decreases self.records.len() - i,
        {
            if str_eq(&self.records[i].name, name) {
                return Some(i);
            }
            i += 1;
        }
        None
    }

    /// Whether the scan found any record of this name.
    pub fn contains_name(&self, name: &String) -> (r: bool)
        ensures
            r == crate::names::contains_name(record_names(self.records@), name@),
    {
        let mut i: usize = 0;
        while i < self.records.len()
            invariant
                0 <= i <= self.records.len(),
                forall|k: int| 0 <= k < i ==> self.records@[k].name@ != name@,
            decreases self.records.len() - i,
        {
            if str_eq(&self.records[i].name, name) {
                assert(record_names(self.records@)[i as int] == name@);
                return true;
            }
            i += 1;
        }
        proof {
            assert forall|k: int| 0 <= k < record_names(self.records@).len() implies record_names(
                self.records@,
            )[k] != name@ by {
                assert(self.records@[k].name@ != name@);
            }
        }
        false
    }

    /// The "exactly one version" gate: scanning a legacy location must find
    /// one version of the crate, no fewer and no more.
    ///
    /// Returns the index of the unique matching record; any other count is
    /// ambiguous and is rejected with that count.
    pub fn single_version(&self, name: &String) -> (r: Result<usize, Error>)
        ensures
            r is Ok <==> count_matching(self.records@, name@) == 1,
            r matches Ok(i) ==> i < self.records@.len() && self.records@[i as int].name@ == name@
                && self.records@[i as int] == spec_record_for(self.records@, name@),
            r matches Err(e) ==> e matches Error::AmbiguousVersion { count } && count
                == count_matching(self.records@, name@),
    {
        let c = self.count_of(name);
        if c == 1 {
            match self.find_first(name) {
                Some(i) => {
                    proof {
                        lemma_record_for_at(self.records@, name@, i as int);
                    }
                    Ok(i)
                },
                None => {
                    proof {
                        lemma_count_zero_of_no_match(self.records@, name@);
                    }
                    Err(Error::AmbiguousVersion { count: c })
                },
            }
        } else {
            Err(Error::AmbiguousVersion { count: c })
        }
    }
}

/// If no record of `s` bears the name `n`, the matching count is zero.
proof fn lemma_count_zero_of_no_match(s: Seq<CrateRecord>, n: Seq<char>)
    requires
        forall|k: int| 0 <= k < s.len() ==> s[k].name@ != n,
    ensures
        count_matching(s, n) == 0,
    decreases s.len(),
{
    if s.len() > 0 {
        lemma_count_zero_of_no_match(s.drop_last(), n);
    }
}

} // verus!
