//! Register normalization tables.
//!
//! Raw register values (pointers, addresses) differ on every run of a traced
//! program, which defeats diffable traces.  The tables here intern each raw
//! value into a small dense identifier.  Identifiers are assigned per syscall
//! number: every syscall number owns an independent inner table whose counter
//! starts at 0 and grows by one per first-seen raw value.

use std::collections::HashMap;
use vstd::prelude::*;

verus! {

broadcast use vstd::std_specs::hash::group_hash_axioms;

/// A lookup key: (syscall number, raw 64-bit register value).
pub type SyscallKey = (u64, u64);

/// Interns raw `u64` values into densely assigned `i64` identifiers,
/// in first-seen order, starting at 0.
pub struct SequentialMemoryTable {
    table: HashMap<u64, i64>,
    next: i64,
}

impl SequentialMemoryTable {
    /// The identifiers assigned so far, keyed by raw value.
    pub closed spec fn ids(&self) -> Map<u64, i64> {
        self.table@
    }

    /// The running counter: the identifier the next first-seen value gets.
    pub closed spec fn next_id(&self) -> i64 {
        self.next
    }

    /// Some raw value carries the identifier `id`.
    pub open spec fn covers(&self, id: i64) -> bool {
        exists|k: u64| self.ids().contains_key(k) && #[trigger] self.ids()[k] == id
    }

    /// Well-formedness: identifiers are dense in `0 .. next_id()`, with no
    /// gaps and no reuse.
    pub open spec fn inv(&self) -> bool {
        &&& 0 <= self.next_id()
        &&& forall|k: u64| self.ids().contains_key(k) ==> 0 <= #[trigger] self.ids()[k]
            < self.next_id()
        &&& forall|k1: u64, k2: u64|
            self.ids().contains_key(k1) && self.ids().contains_key(k2) && #[trigger] self.ids()[k1]
                == #[trigger] self.ids()[k2] ==> k1 == k2
        &&& forall|id: i64| 0 <= id < self.next_id() ==> #[trigger] self.covers(id)
    }

    /// The running counter, as a value.
    pub fn counter(&self) -> (n: i64)
        ensures
            n == self.next_id(),
    {
        self.next
    }

    /// An empty table: nothing assigned, counter at 0.
    pub fn new() -> (t: SequentialMemoryTable)
        ensures
            t.inv(),
            t.ids() == Map::<u64, i64>::empty(),
            t.next_id() == 0,
    {
        SequentialMemoryTable { next: 0, table: HashMap::new() }
    }

    /// Assigns the next identifier to a value not seen before.
    fn append(&mut self, k: u64) -> (id: i64)
        requires
            old(self).inv(),
            !old(self).ids().contains_key(k),
            old(self).next_id() < i64::MAX,
        ensures
            final(self).inv(),
            id == old(self).next_id(),
            final(self).ids() == old(self).ids().insert(k, id),
            final(self).next_id() == old(self).next_id() + 1,
    {
        let idx = self.next;
        self.table.insert(k, idx);
        self.next = self.next + 1;
        proof {
            assert forall|id: i64| 0 <= id < self.next_id() implies self.covers(id) by {
                if id == idx {
                    assert(self.ids().contains_key(k) && self.ids()[k] == id);
                } else {
                    assert(old(self).covers(id));
                    let k0 = choose|k0: u64|
                        old(self).ids().contains_key(k0) && #[trigger] old(self).ids()[k0] == id;
                    assert(self.ids().contains_key(k0) && self.ids()[k0] == id);
                }
            }
        }
        idx
    }

    /// Lookup-or-append: returns the identifier already assigned to `k`, or
    /// assigns the next one.  The same value always yields the same
    /// identifier; a first-seen value gets the current counter and bumps it.
    pub fn obtain(&mut self, k: u64) -> (id: i64)
        requires
            old(self).inv(),
            old(self).ids().contains_key(k) || old(self).next_id() < i64::MAX,
        ensures
            final(self).inv(),
            obtain_rel(*old(self), *final(self), k, id),
            final(self).ids().contains_key(k) && id == final(self).ids()[k],
    {
        if self.table.contains_key(&k) {
            *self.table.get(&k).unwrap()
        } else {
            self.append(k)
        }
    }
}

impl Default for SequentialMemoryTable {
    fn default() -> (t: Self)
        ensures
            t.inv(),
            t.ids() == Map::<u64, i64>::empty(),
            t.next_id() == 0,
    {
        Self::new()
    }
}

/// How one `obtain` call relates the table before (`pre`) to the table after
/// (`post`): a value seen before keeps its identifier and changes nothing; a
/// first-seen value gets the counter and bumps it.
pub open spec fn obtain_rel(
    pre: SequentialMemoryTable,
    post: SequentialMemoryTable,
    k: u64,
    id: i64,
) -> bool {
    if pre.ids().contains_key(k) {
        &&& id == pre.ids()[k]
        &&& post.ids() == pre.ids()
        &&& post.next_id() == pre.next_id()
    } else {
        &&& id == pre.next_id()
        &&& post.ids() == pre.ids().insert(k, id)
        &&& post.next_id() == pre.next_id() + 1
    }
}

/// The outer normalization table: one independent `SequentialMemoryTable`
/// per syscall number.  Created once per trace session; grows monotonically;
/// never shrinks.
pub struct MetaMemoryTable {
    table: HashMap<u64, SequentialMemoryTable>,
}

impl MetaMemoryTable {
    /// The inner tables, keyed by syscall number.
    pub closed spec fn tables(&self) -> Map<u64, SequentialMemoryTable> {
        self.table@
    }

    /// Every inner table present is well-formed.
    pub open spec fn inv(&self) -> bool {
        forall|c: u64| self.tables().contains_key(c) ==> (#[trigger] self.tables()[c]).inv()
    }

    /// The identifiers assigned so far under syscall number `call`;
    /// empty when that number was never seen.
    pub open spec fn inner_ids(&self, call: u64) -> Map<u64, i64> {
        if self.tables().contains_key(call) {
            self.tables()[call].ids()
        } else {
            Map::<u64, i64>::empty()
        }
    }

    /// The running counter of syscall number `call`'s own table.
    pub open spec fn inner_next(&self, call: u64) -> i64 {
        if self.tables().contains_key(call) {
            self.tables()[call].next_id()
        } else {
            0
        }
    }

    /// Whether `call`'s table can still take a first-seen value.
    pub open spec fn has_room(&self, call: u64) -> bool {
        self.inner_next(call) < i64::MAX
    }

    /// The running counter of syscall number `call`'s own table, as a value.
    pub fn counter_of(&self, call: u64) -> (n: i64)
        ensures
            n == self.inner_next(call),
    {
        match self.table.get(&call) {
            Some(t) => t.counter(),
            None => 0,
        }
    }

    /// An empty session table: no syscall number seen yet.
    pub fn new() -> (t: MetaMemoryTable)
        ensures
            t.inv(),
            t.tables() == Map::<u64, SequentialMemoryTable>::empty(),
    {
        MetaMemoryTable { table: HashMap::new() }
    }
}

impl Default for MetaMemoryTable {
    fn default() -> (t: Self)
        ensures
            t.inv(),
            t.tables() == Map::<u64, SequentialMemoryTable>::empty(),
    {
        Self::new()
    }
}

/// The session table's mathematical state: for every syscall number, the
/// assignments and the counter of its identifier space.  A number never
/// seen owns the empty assignment and counter 0.
pub struct MetaModel {
    pub ids: Map<u64, Map<u64, i64>>,
    pub next: Map<u64, i64>,
}

impl MetaMemoryTable {
    /// This session table's mathematical state, total over syscall numbers.
    pub open spec fn model(&self) -> MetaModel {
        MetaModel {
            ids: Map::new(|c: u64| true, |c: u64| self.inner_ids(c)),
            next: Map::new(|c: u64| true, |c: u64| self.inner_next(c)),
        }
    }
}

/// Feeding values moves the counter forward by at most one per value.
pub proof fn lemma_replay_next_bound(ids: Map<u64, i64>, next: i64, vals: Seq<u64>)
    requires
        next + vals.len() <= i64::MAX,
    ensures
        next <= replay_next(ids, next, vals) <= next + vals.len(),
    decreases vals.len(),
{
    if vals.len() > 0 {
        lemma_replay_next_bound(
            spec_obtain_ids(ids, next, vals[0]),
            spec_obtain_next(ids, next, vals[0]),
            vals.subrange(1, vals.len() as int),
        );
    }
}

/// How one `MetaMemoryTable` lookup relates the session table before and
/// after: the inner table of `k.0` steps as `obtain_rel` says, and every
/// other syscall number's table is untouched.
pub open spec fn meta_obtain_rel(
    pre: MetaMemoryTable,
    post: MetaMemoryTable,
    k: SyscallKey,
    id: i64,
) -> bool {
    &&& if pre.inner_ids(k.0).contains_key(k.1) {
        &&& id == pre.inner_ids(k.0)[k.1]
        &&& post.inner_ids(k.0) == pre.inner_ids(k.0)
        &&& post.inner_next(k.0) == pre.inner_next(k.0)
    } else {
        &&& id == pre.inner_next(k.0)
        &&& post.inner_ids(k.0) == pre.inner_ids(k.0).insert(k.1, id)
        &&& post.inner_next(k.0) == pre.inner_next(k.0) + 1
    }
    &&& forall|c: u64| c != k.0 ==> #[trigger] post.inner_ids(c) == pre.inner_ids(c)
    &&& forall|c: u64| c != k.0 ==> #[trigger] post.inner_next(c) == pre.inner_next(c)
}

impl MetaMemoryTable {
    /// Interns `k.1` under syscall number `k.0`: same key, same identifier;
    /// a first-seen raw value gets that number's next dense identifier.
    pub fn obtain(&mut self, k: SyscallKey) -> (id: i64)
        requires
            old(self).inv(),
            old(self).inner_ids(k.0).contains_key(k.1) || old(self).has_room(k.0),
        ensures
            final(self).inv(),
            meta_obtain_rel(*old(self), *final(self), k, id),
            final(self).inner_ids(k.0).contains_key(k.1) && id == final(self).inner_ids(k.0)[k.1],
    {
        let (call, value) = k;
        let mut inner = match self.table.remove(&call) {
            Some(t) => t,
            None => SequentialMemoryTable::new(),
        };
        let id = inner.obtain(value);
        self.table.insert(call, inner);
        id
    }
}

/// The identifier one lookup-or-assign step yields on a table whose
/// assignments are `ids` and whose counter is `next`.
pub open spec fn spec_obtain_id(ids: Map<u64, i64>, next: i64, v: u64) -> i64 {
    if ids.contains_key(v) {
        ids[v]
    } else {
        next
    }
}

/// The assignments after that step.
pub open spec fn spec_obtain_ids(ids: Map<u64, i64>, next: i64, v: u64) -> Map<u64, i64> {
    if ids.contains_key(v) {
        ids
    } else {
        ids.insert(v, next)
    }
}

/// The counter after that step.
pub open spec fn spec_obtain_next(ids: Map<u64, i64>, next: i64, v: u64) -> i64 {
    if ids.contains_key(v) {
        next
    } else {
        (next + 1) as i64
    }
}

/// The identifiers produced by feeding `vals`, in order, to a table whose
/// assignments are `ids` and whose counter is `next`.
pub open spec fn replay_ids(ids: Map<u64, i64>, next: i64, vals: Seq<u64>) -> Seq<i64>
    decreases vals.len(),
{
    if vals.len() == 0 {
        Seq::<i64>::empty()
    } else {
        seq![spec_obtain_id(ids, next, vals[0])] + replay_ids(
            spec_obtain_ids(ids, next, vals[0]),
            spec_obtain_next(ids, next, vals[0]),
            vals.subrange(1, vals.len() as int),
        )
    }
}

/// The assignments after feeding `vals`, in order, to such a table.
pub open spec fn replay_map(ids: Map<u64, i64>, next: i64, vals: Seq<u64>) -> Map<u64, i64>
    decreases vals.len(),
{
    if vals.len() == 0 {
        ids
    } else {
        replay_map(
            spec_obtain_ids(ids, next, vals[0]),
            spec_obtain_next(ids, next, vals[0]),
            vals.subrange(1, vals.len() as int),
        )
    }
}

/// The counter after feeding `vals`, in order, to such a table.
pub open spec fn replay_next(ids: Map<u64, i64>, next: i64, vals: Seq<u64>) -> i64
    decreases vals.len(),
{
    if vals.len() == 0 {
        next
    } else {
        replay_next(
            spec_obtain_ids(ids, next, vals[0]),
            spec_obtain_next(ids, next, vals[0]),
            vals.subrange(1, vals.len() as int),
        )
    }
}

/// Normalization is deterministic: one lookup-or-assign step is a pure
/// function of the table's assignments, its counter and the key, so replaying
/// a fixed sequence of keys from equal tables reproduces the identifiers.
pub proof fn lemma_normalization_deterministic(
    pre1: SequentialMemoryTable,
    post1: SequentialMemoryTable,
    pre2: SequentialMemoryTable,
    post2: SequentialMemoryTable,
    k: u64,
    id_a: i64,
    id_b: i64,
)
    requires
        pre1.ids() == pre2.ids(),
        pre1.next_id() == pre2.next_id(),
        obtain_rel(pre1, post1, k, id_a),
        obtain_rel(pre2, post2, k, id_b),
    ensures
        id_a == id_b,
        post1.ids() == post2.ids(),
        post1.next_id() == post2.next_id(),
{
}

/// That a table starting as `pre` answered the lookups `vals`, in order,
/// with the identifiers `ids`, ending as `post`: each step is one
/// `obtain_rel` transition.
pub open spec fn obtain_run(
    pre: SequentialMemoryTable,
    vals: Seq<u64>,
    post: SequentialMemoryTable,
    ids: Seq<i64>,
) -> bool
    decreases vals.len(),
{
    if vals.len() == 0 {
        &&& ids.len() == 0
        &&& post.ids() == pre.ids()
        &&& post.next_id() == pre.next_id()
    } else {
        &&& ids.len() == vals.len()
        &&& exists|mid: SequentialMemoryTable|
            #[trigger] obtain_rel(pre, mid, vals[0], ids[0]) && obtain_run(
                mid,
                vals.subrange(1, vals.len() as int),
                post,
                ids.subrange(1, ids.len() as int),
            )
    }
}

/// Replaying a sequence of raw values reproduces the identifiers: whatever
/// run of lookups a table answered, the identifiers it handed out are
/// exactly the pure replay of those values from its starting state — the
/// table holds no hidden state and draws on nothing but its assignments
/// and its counter.
pub proof fn lemma_replay_reproduces_identifiers(
    pre: SequentialMemoryTable,
    vals: Seq<u64>,
    post: SequentialMemoryTable,
    ids: Seq<i64>,
)
    requires
        obtain_run(pre, vals, post, ids),
    ensures
        ids == replay_ids(pre.ids(), pre.next_id(), vals),
        post.ids() == replay_map(pre.ids(), pre.next_id(), vals),
        post.next_id() == replay_next(pre.ids(), pre.next_id(), vals),
    decreases vals.len(),
{
    if vals.len() == 0 {
        assert(ids =~= replay_ids(pre.ids(), pre.next_id(), vals));
    } else {
        let mid = choose|mid: SequentialMemoryTable|
            #[trigger] obtain_rel(pre, mid, vals[0], ids[0]) && obtain_run(
                mid,
                vals.subrange(1, vals.len() as int),
                post,
                ids.subrange(1, ids.len() as int),
            );
        assert(mid.ids() == spec_obtain_ids(pre.ids(), pre.next_id(), vals[0]));
        assert(mid.next_id() == spec_obtain_next(pre.ids(), pre.next_id(), vals[0]));
        assert(ids[0] == spec_obtain_id(pre.ids(), pre.next_id(), vals[0]));
        lemma_replay_reproduces_identifiers(
            mid,
            vals.subrange(1, vals.len() as int),
            post,
            ids.subrange(1, ids.len() as int),
        );
        assert(ids =~= seq![ids[0]] + ids.subrange(1, ids.len() as int));
        assert(ids =~= replay_ids(pre.ids(), pre.next_id(), vals));
    }
}

/// Obtaining the same key twice in a row returns the same identifier both
/// times and moves the counter exactly once: on the first call, and only if
/// the key was not yet assigned.
pub proof fn lemma_idempotent_repeat(
    t0: SequentialMemoryTable,
    t1: SequentialMemoryTable,
    t2: SequentialMemoryTable,
    k: u64,
    id1: i64,
    id2: i64,
)
    requires
        obtain_rel(t0, t1, k, id1),
        obtain_rel(t1, t2, k, id2),
    ensures
        id2 == id1,
        t2.ids() == t1.ids(),
        t2.next_id() == t1.next_id(),
        !t0.ids().contains_key(k) ==> t1.next_id() == t0.next_id() + 1,
        t0.ids().contains_key(k) ==> t1.next_id() == t0.next_id(),
{
}

/// Identifier density: feeding `vals.len()` distinct, not-yet-assigned raw
/// values to a table whose counter is `next` assigns exactly the identifiers
/// `next .. next + vals.len()`, in first-seen order, with no gap and no
/// reuse.  From a fresh table (`next == 0`) that is `0 .. N` for `N` values.
pub proof fn lemma_identifier_density(ids: Map<u64, i64>, next: i64, vals: Seq<u64>)
    requires
        0 <= next,
        next + vals.len() <= i64::MAX,
        forall|i: int, j: int| 0 <= i < j < vals.len() ==> vals[i] != vals[j],
        forall|i: int| 0 <= i < vals.len() ==> !ids.contains_key(#[trigger] vals[i]),
    ensures
        replay_ids(ids, next, vals) == Seq::new(vals.len(), |i: int| (next + i) as i64),
    decreases vals.len(),
{
    if vals.len() == 0 {
        assert(replay_ids(ids, next, vals) =~= Seq::new(vals.len(), |i: int| (next + i) as i64));
    } else {
        let rest = vals.subrange(1, vals.len() as int);
        let ids1 = spec_obtain_ids(ids, next, vals[0]);
        let next1 = spec_obtain_next(ids, next, vals[0]);
        assert(!ids.contains_key(vals[0]));
        assert forall|i: int| 0 <= i < rest.len() implies !ids1.contains_key(
            #[trigger] rest[i],
        ) by {
            assert(rest[i] == vals[i + 1]);
            assert(vals[0] != vals[i + 1]);
        }
        lemma_identifier_density(ids1, next1, rest);
        assert(replay_ids(ids, next, vals) =~= Seq::new(vals.len(), |i: int| (next + i) as i64));
    }
}

/// Namespace isolation: a lookup under one syscall number neither changes
/// nor pre-seeds another number's identifier space, so a later lookup under
/// the other number yields exactly what it would have yielded beforehand.
pub proof fn lemma_namespace_isolation(
    pre: MetaMemoryTable,
    mid: MetaMemoryTable,
    post: MetaMemoryTable,
    k1: SyscallKey,
    k2: SyscallKey,
    id1: i64,
    id2: i64,
)
    requires
        meta_obtain_rel(pre, mid, k1, id1),
        meta_obtain_rel(mid, post, k2, id2),
        k1.0 != k2.0,
    ensures
        mid.inner_ids(k2.0) == pre.inner_ids(k2.0),
        mid.inner_next(k2.0) == pre.inner_next(k2.0),
        id2 == spec_obtain_id(pre.inner_ids(k2.0), pre.inner_next(k2.0), k2.1),
        post.inner_ids(k1.0) == mid.inner_ids(k1.0),
        post.inner_next(k1.0) == mid.inner_next(k1.0),
{
}

/// The interning capability the tracer engine asks of a normalization table:
/// a total, stateful lookup-or-assign over `SyscallKey`s whose assignments,
/// once made, never change.
pub trait MemLookup {
    type Entry;

    /// The implementation's own well-formedness.
    spec fn valid(&self) -> bool;

    /// Every assignment made so far.
    spec fn assigned(&self) -> Map<SyscallKey, Self::Entry>;

    /// Whether the table can still take the key `k`.
    spec fn can_obtain(&self, k: SyscallKey) -> bool;

    /// Lookup-or-assign: a key seen before yields its entry unchanged; a
    /// first-seen key is bound to the returned entry.
    fn obtain(&mut self, k: SyscallKey) -> (e: Self::Entry)
        requires
            old(self).valid(),
            old(self).can_obtain(k),
        ensures
            final(self).valid(),
            old(self).assigned().contains_key(k) ==> e == old(self).assigned()[k]
                && final(self).assigned() == old(self).assigned(),
            !old(self).assigned().contains_key(k) ==> final(self).assigned()
                == old(self).assigned().insert(k, e),
            final(self).assigned().contains_key(k) && e == final(self).assigned()[k],
    ;
}

impl MemLookup for MetaMemoryTable {
    type Entry = i64;

    open spec fn valid(&self) -> bool {
        self.inv()
    }

    open spec fn assigned(&self) -> Map<SyscallKey, i64> {
        Map::<SyscallKey, i64>::new(
            |k: SyscallKey| self.inner_ids(k.0).contains_key(k.1),
            |k: SyscallKey| self.inner_ids(k.0)[k.1],
        )
    }

    open spec fn can_obtain(&self, k: SyscallKey) -> bool {
        self.inner_ids(k.0).contains_key(k.1) || self.has_room(k.0)
    }

    fn obtain(&mut self, k: SyscallKey) -> (e: i64) {
        let ghost pre = *self;
        let id = MetaMemoryTable::obtain(self, k);
        proof {
            if pre.assigned().contains_key(k) {
                assert(MemLookup::assigned(self) =~= pre.assigned());
            } else {
                assert(MemLookup::assigned(self) =~= pre.assigned().insert(k, id));
            }
        }
        id
    }
}

} // verus!
