//! The syscall name/argument table.
//!
//! A loaded dataset maps each syscall number to a display name and,
//! optionally, to an ordered list of argument type descriptors.  The loader
//! of the external data file hands rows over as plain values; building the
//! table rejects malformed rows (missing number or name) as a fatal error
//! rather than skipping them.  Name lookup is total: an unknown syscall
//! number yields a placeholder instead of a crash mid-trace.

use std::collections::HashMap;
use vstd::prelude::*;

verus! {

broadcast use vstd::std_specs::hash::group_hash_axioms;

/// One row of the loaded dataset: the syscall number and display name may be
/// missing (a malformed row); the argument type descriptors are those
/// present, in order.
pub struct RawRow {
    pub number: Option<u64>,
    pub name: Option<String>,
    pub arg_types: Vec<String>,
}

/// A well-formed row carries both a syscall number and a display name.
pub open spec fn row_wf(r: RawRow) -> bool {
    r.number is Some && r.name is Some
}

/// Why a table could not be built.
#[derive(Debug, Clone, Copy, PartialEq, Eq, Structural)]
pub enum SyscallTableError {
    /// The row at `index` lacks its syscall number or its display name.
    MalformedRow { index: usize },
}

/// The number-to-name map a sequence of well-formed rows builds; a number
/// repeated in a later row overrides an earlier one.
pub open spec fn spec_call_map(rows: Seq<RawRow>) -> Map<u64, String>
    decreases rows.len(),
{
    if rows.len() == 0 {
        Map::<u64, String>::empty()
    } else {
        spec_call_map(rows.drop_last()).insert(
            rows.last().number.unwrap(),
            rows.last().name.unwrap(),
        )
    }
}

/// The number-to-argument-types map the same rows build.
pub open spec fn spec_args_map(rows: Seq<RawRow>) -> Map<u64, Seq<String>>
    decreases rows.len(),
{
    if rows.len() == 0 {
        Map::<u64, Seq<String>>::empty()
    } else {
        spec_args_map(rows.drop_last()).insert(
            rows.last().number.unwrap(),
            rows.last().arg_types@,
        )
    }
}

/// Lookup from syscall number to display name and argument type list.
#[derive(Debug)]
pub struct SyscallTable {
    call_map: HashMap<u64, String>,
    args_map: HashMap<u64, Vec<String>>,
}

impl SyscallTable {
    /// The display names known, keyed by syscall number.
    pub closed spec fn names(&self) -> Map<u64, String> {
        self.call_map@
    }

    /// The argument type descriptors known, keyed by syscall number.
    pub closed spec fn arg_lists(&self) -> Map<u64, Vec<String>> {
        self.args_map@
    }

    /// What `name_of` returns: the stored name, or the placeholder for a
    /// syscall number the dataset never named.
    pub open spec fn spec_name_of(&self, num: u64) -> Seq<char> {
        if self.names().contains_key(num) {
            self.names()[num]@
        } else {
            "unknown"@
        }
    }

    /// Builds the table from loaded rows.  Fails on the first malformed row,
    /// naming its position; succeeds exactly when every row is well-formed.
    pub fn new(rows: &Vec<RawRow>) -> (r: Result<SyscallTable, SyscallTableError>)
        ensures
            match r {
                Ok(t) => {
                    &&& forall|j: int| 0 <= j < rows@.len() ==> row_wf(#[trigger] rows@[j])
                    &&& t.names() == spec_call_map(rows@)
                    &&& forall|n: u64| t.arg_lists().contains_key(n) <==> spec_args_map(
                        rows@,
                    ).contains_key(n)
                    &&& forall|n: u64| spec_args_map(rows@).contains_key(n)
                        ==> (#[trigger] t.arg_lists()[n])@ == spec_args_map(rows@)[n]
                },
                Err(e) => {
                    &&& e matches SyscallTableError::MalformedRow { index }
                    &&& 0 <= (e->index) < rows@.len()
                    &&& !row_wf(rows@[e->index as int])
                    &&& forall|j: int| 0 <= j < (e->index) ==> row_wf(#[trigger] rows@[j])
                },
            },
    {
        let mut call_map: HashMap<u64, String> = HashMap::new();
        let mut args_map: HashMap<u64, Vec<String>> = HashMap::new();
        let n = rows.len();
        let mut i: usize = 0;
        while i < n
            invariant
                n == rows@.len(),
                0 <= i <= n,
                forall|j: int| 0 <= j < i ==> row_wf(#[trigger] rows@[j]),
                call_map@ == spec_call_map(rows@.subrange(0, i as int)),
                forall|num: u64| args_map@.contains_key(num) <==> spec_args_map(
                    rows@.subrange(0, i as int),
                ).contains_key(num),
                forall|num: u64| spec_args_map(rows@.subrange(0, i as int)).contains_key(num)
                    ==> (#[trigger] args_map@[num])@ == spec_args_map(
                    rows@.subrange(0, i as int),
                )[num],
            decreases n - i,
        {
            let row = &rows[i];
            let num: u64 = match &row.number {
                Some(v) => *v,
                None => {
                    return Err(SyscallTableError::MalformedRow { index: i });
                },
            };
            let name: String = match &row.name {
                Some(s) => s.clone(),
                None => {
                    return Err(SyscallTableError::MalformedRow { index: i });
                },
            };
            let types = clone_names(&row.arg_types);
            call_map.insert(num, name);
            args_map.insert(num, types);
            proof {
                let pre = rows@.subrange(0, i as int);
                let cur = rows@.subrange(0, i + 1 as int);
                assert(cur.drop_last() =~= pre);
                assert(cur.last() == rows@[i as int]);
            }
            i = i + 1;
        }
        proof {
            assert(rows@.subrange(0, n as int) =~= rows@);
        }
        Ok(SyscallTable { call_map, args_map })
    }

    /// Total name lookup: the display name loaded for `num`, or the literal
    /// placeholder `unknown` for a number the dataset does not cover.
    pub fn name_of(&self, num: u64) -> (r: String)
        ensures
            r@ == self.spec_name_of(num),
    {
        match self.call_map.get(&num) {
            Some(s) => s.clone(),
            None => "unknown".to_owned(),
        }
    }

    /// Direct name lookup for a syscall number known to be in the table.
    pub fn index(&self, idx: u64) -> (r: &String)
        requires
            self.names().contains_key(idx),
        ensures
            r == self.names()[idx],
    {
        self.call_map.get(&idx).unwrap()
    }

    /// The ordered argument type descriptors of `num`'s row, if the dataset
    /// carried any row for it.
    pub fn args_of(&self, num: u64) -> (r: Option<&Vec<String>>)
        ensures
            match r {
                Some(v) => self.arg_lists().contains_key(num) && v == self.arg_lists()[num],
                None => !self.arg_lists().contains_key(num),
            },
    {
        self.args_map.get(&num)
    }
}

/// Copies a list of descriptor strings, element for element.
fn clone_names(v: &Vec<String>) -> (r: Vec<String>)
    ensures
        r@ == v@,
{
    let mut r: Vec<String> = Vec::new();
    let mut i: usize = 0;
    while i < v.len()
        invariant
            0 <= i <= v@.len(),
            r@ == v@.subrange(0, i as int),
        decreases v@.len() - i,
    {
        r.push(v[i].clone());
        proof {
            assert(r@ =~= v@.subrange(0, i + 1 as int));
        }
        i = i + 1;
    }
    proof {
        assert(r@ =~= v@);
    }
    r
}

} // verus!
