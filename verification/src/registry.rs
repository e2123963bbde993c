//! The session registry and its control surface.
//!
//! `PtyState` is the table of live sessions keyed by identifier, together
//! with the monotone identifier allocator. The host holds exactly one
//! `PtyState` behind its registry lock; every control operation (spawn,
//! write, resize, kill, list) consults this table for its decision, and the
//! host performs the corresponding OS work (opening the PTY, writing to the
//! child, resizing, terminating) against its own handle store, keyed by the
//! same identifiers.

use vstd::prelude::*;

use std::collections::HashMap;

use crate::errors::PtyError;
use crate::options::SpawnOptions;
use vstd::string::StringSliceAdditionalSpecFns;

verus! {

broadcast use vstd::std_specs::hash::group_hash_axioms;

/// The model of one live session: its current terminal geometry.
///
/// The OS resources a session owns (the PTY pair, the child-process handle
/// and the single persistent writer taken at spawn time) live in the host's
/// handle store under the same identifier; removal from this registry is the
/// authority that releases them.
#[derive(Clone, Copy, Debug, PartialEq, Eq, Structural)]
pub struct PtySession {
    pub cols: u16,
    pub rows: u16,
}

/// State for managing active PTY sessions: the registry of live sessions and
/// the identifier allocator. Identifiers are unsigned 32-bit integers,
/// allocated monotonically starting at 1 and never reused.
pub struct PtyState {
    sessions: HashMap<u32, PtySession>,
    ids: Vec<u32>,
    next_id: u32,
}

impl PtyState {
    /// The registry as a mathematical map from identifier to session model.
    pub closed spec fn table(&self) -> Map<u32, PtySession> {
        self.sessions@
    }

    /// The registered identifiers, in insertion order.
    pub closed spec fn id_list(&self) -> Seq<u32> {
        self.ids@
    }

    /// The next identifier the allocator will hand out.
    pub closed spec fn next(&self) -> u32 {
        self.next_id
    }

    /// Well-formedness: allocation starts at 1, every registered identifier
    /// was allocated (is below `next`), and the identifier list is an exact,
    /// duplicate-free mirror of the table's domain.
    pub closed spec fn wf(&self) -> bool {
        &&& self.next_id >= 1
        &&& forall|id: u32| #[trigger] self.table().contains_key(id) ==> id < self.next_id
        &&& self.id_list().no_duplicates()
        &&& forall|id: u32| #[trigger] self.id_list().contains(id) <==> self.table().contains_key(id)
    }

    /// Returns a fresh identifier, strictly greater than every identifier
    /// returned before and never yet present in the registry.
    pub fn allocate_id(&mut self) -> (id: u32)
        requires
            old(self).wf(),
            old(self).next() < u32::MAX,
        ensures
            final(self).wf(),
            id == old(self).next(),
            final(self).next() == id + 1,
            final(self).table() == old(self).table(),
            final(self).id_list() == old(self).id_list(),
            !old(self).table().contains_key(id),
            forall|other: u32| #[trigger] old(self).table().contains_key(other) ==> other < id,
    {
        let id = self.next_id;
        self.next_id = self.next_id + 1;
        proof {
            assert forall|other: u32| #[trigger] self.table().contains_key(other) implies other
                < self.next_id by {
                assert(old(self).table().contains_key(other));
                assert(other < old(self).next_id);
            }
        }
        id
    }

    /// Stores a session under an identifier not currently present; never
    /// overwrites. The identifier must have come from the allocator.
    pub fn insert(&mut self, id: u32, session: PtySession)
        requires
            old(self).wf(),
            !old(self).table().contains_key(id),
            id < old(self).next(),
        ensures
            final(self).wf(),
            final(self).table() == old(self).table().insert(id, session),
            final(self).id_list() == old(self).id_list().push(id),
            final(self).next() == old(self).next(),
    {
        proof {
            assert(!old(self).id_list().contains(id));
        }
        self.sessions.insert(id, session);
        self.ids.push(id);
        proof {
            let pre = old(self).id_list();
            let post = self.id_list();
            assert forall|x: u32| #[trigger] post.contains(x) implies self.table().contains_key(x) by {
                let i = choose|i: int| 0 <= i < post.len() && post[i] == x;
                if i < pre.len() {
                    assert(pre.contains(x));
                } else {
                    assert(x == id);
                }
            }
            assert forall|x: u32| #[trigger] self.table().contains_key(x) implies post.contains(x) by {
                if x == id {
                    assert(post[post.len() - 1] == id);
                } else {
                    assert(pre.contains(x));
                    let i = choose|i: int| 0 <= i < pre.len() && pre[i] == x;
                    assert(post[i] == x);
                }
            }
            assert forall|i: int, j: int|
                0 <= i < post.len() && 0 <= j < post.len() && i != j implies post[i] != post[j] by {
                if i < pre.len() && j < pre.len() {
                    assert(pre[i] != pre[j]);
                } else if i < pre.len() {
                    assert(pre.contains(pre[i]) && post[j] == id);
                } else if j < pre.len() {
                    assert(pre.contains(pre[j]) && post[i] == id);
                }
            }
        }
    }

    /// Lookup for write/resize: the session registered under `id`, if any.
    pub fn get(&self, id: u32) -> (r: Option<PtySession>)
        ensures
            r == if self.table().contains_key(id) {
                Some(self.table()[id])
            } else {
                None::<PtySession>
            },
    {
        match self.sessions.get(&id) {
            Some(session) => Some(*session),
            None => None,
        }
    }

    /// True exactly when `id` denotes a registered session.
    pub fn contains_session(&self, id: u32) -> (r: bool)
        ensures
            r == self.table().contains_key(id),
    {
        self.sessions.contains_key(&id)
    }

    /// Atomically detaches and returns the session registered under `id`,
    /// if any; the caller owns its teardown.
    pub fn remove(&mut self, id: u32) -> (r: Option<PtySession>)
        requires
            old(self).wf(),
        ensures
            final(self).wf(),
            final(self).table() == old(self).table().remove(id),
            final(self).next() == old(self).next(),
            r == if old(self).table().contains_key(id) {
                Some(old(self).table()[id])
            } else {
                None::<PtySession>
            },
            final(self).id_list() == old(self).id_list().remove_value(id),
            forall|x: u32|
                #[trigger] final(self).id_list().contains(x) <==> (old(self).id_list().contains(x)
                    && x != id),
    {
        let r = self.sessions.remove(&id);
        let ghost pre = old(self).id_list();
        let mut i: usize = 0;
        while i < self.ids.len()
            invariant
                old(self).wf(),
                pre == old(self).id_list(),
                0 <= i <= self.ids.len(),
                self.ids@ == pre,
                self.table() == old(self).table().remove(id),
                self.next() == old(self).next(),
                r == if old(self).table().contains_key(id) {
                    Some(old(self).table()[id])
                } else {
                    None::<PtySession>
                },
                forall|j: int| 0 <= j < i ==> pre[j] != id,
            decreases self.ids.len() - i,
        {
            if self.ids[i] == id {
                self.ids.remove(i);
                proof {
                    let post = self.id_list();
                    let k = i as int;
                    assert(pre[k] == id);
                    assert(pre.no_duplicates());
                    pre.index_of_first_ensures(id);
                    assert(pre.contains(id));
                    let i0 = pre.index_of_first(id)->Some_0;
                    assert(pre[i0] == id);
                    assert(i0 <= k);
                    assert(i0 >= k);
                    assert(post == pre.remove_value(id));
                    assert(forall|m: int| 0 <= m < k ==> post[m] == pre[m]);
                    assert(forall|m: int| k <= m < post.len() ==> post[m] == pre[m + 1]);
                    assert forall|x: u32| #[trigger] post.contains(x) implies (pre.contains(x)
                        && x != id) by {
                        let m = choose|m: int| 0 <= m < post.len() && post[m] == x;
                        let m0: int = if m < k {
                            m
                        } else {
                            m + 1
                        };
                        assert(pre[m0] == x);
                        assert(pre.contains(x));
                        assert(m0 != k);
                        if x == id {
                            assert(pre[m0] == pre[k]);
                            assert(false);
                        }
                    }
                    assert forall|x: u32| pre.contains(x) && x != id implies
                        #[trigger] post.contains(x) by {
                        let n = choose|n: int| 0 <= n < pre.len() && pre[n] == x;
                        assert(n != k);
                        if n < k {
                            assert(post[n] == x);
                        } else {
                            assert(post[n - 1] == x);
                        }
                    }
                    assert forall|m: int, n: int|
                        0 <= m < post.len() && 0 <= n < post.len() && m != n implies post[m]
                        != post[n] by {
                        let m0: int = if m < k {
                            m
                        } else {
                            m + 1
                        };
                        let n0: int = if n < k {
                            n
                        } else {
                            n + 1
                        };
                        assert(post[m] == pre[m0]);
                        assert(post[n] == pre[n0]);
                        assert(m0 != n0);
                        assert(pre[m0] != pre[n0]);
                    }
                    assert forall|x: u32| #[trigger] post.contains(x) implies
                        self.table().contains_key(x) by {
                        assert(pre.contains(x) && x != id);
                        assert(old(self).id_list().contains(x));
                        assert(old(self).table().contains_key(x));
                        assert(old(self).table().remove(id).contains_key(x));
                    }
                    assert forall|x: u32| self.table().contains_key(x) implies
                        #[trigger] post.contains(x) by {
                        assert(old(self).table().remove(id).contains_key(x));
                        assert(old(self).table().contains_key(x) && x != id);
                        assert(old(self).id_list().contains(x));
                        assert(pre.contains(x));
                    }
                    assert forall|x: u32| #[trigger] self.table().contains_key(x) implies x
                        < self.next_id by {
                        assert(old(self).table().contains_key(x));
                    }
                }
                return r;
            }
            i = i + 1;
        }
        proof {
            assert forall|n: int| 0 <= n < pre.len() implies pre[n] != id by {}
            assert(!pre.contains(id));
            pre.index_of_first_ensures(id);
            assert(pre.remove_value(id) == pre);
            assert(!old(self).id_list().contains(id));
            assert(!old(self).table().contains_key(id));
            assert(self.table() =~= old(self).table());
            assert forall|x: u32| #[trigger] self.table().contains_key(x) implies x
                < self.next_id by {
                assert(old(self).table().contains_key(x));
            }
            assert forall|x: u32| #[trigger] self.id_list().contains(x) implies
                self.table().contains_key(x) by {
                assert(old(self).id_list().contains(x));
                assert(old(self).table().contains_key(x));
            }
            assert forall|x: u32| self.table().contains_key(x) implies
                #[trigger] self.id_list().contains(x) by {
                assert(old(self).table().contains_key(x));
                assert(old(self).id_list().contains(x));
            }
            assert forall|x: u32| #[trigger] self.id_list().contains(x) implies x != id by {
                assert(pre.contains(x));
            }
        }
        r
    }
}

/// How a successful spawn changes the registry: the returned identifier is
/// the allocator's current value, strictly greater than every registered
/// identifier and never yet present; the new session is registered under it
/// with the requested geometry; and the allocator moves past it.
pub open spec fn spawn_transition(
    pre: PtyState,
    post: PtyState,
    id: u32,
    cols: u16,
    rows: u16,
) -> bool {
    &&& id == pre.next()
    &&& !pre.table().contains_key(id)
    &&& (forall|other: u32| #[trigger] pre.table().contains_key(other) ==> other < id)
    &&& post.table() == pre.table().insert(id, PtySession { cols, rows })
    &&& post.id_list() == pre.id_list().push(id)
    &&& post.next() == id + 1
}

/// How kill changes the registry: the identifier's entry is gone (a no-op
/// when it was absent), every other entry is kept, and the allocator is
/// untouched, so the identifier is never handed out again.
pub open spec fn kill_transition(pre: PtyState, post: PtyState, id: u32) -> bool {
    &&& post.table() == pre.table().remove(id)
    &&& post.id_list() == pre.id_list().remove_value(id)
    &&& post.next() == pre.next()
    &&& (forall|x: u32|
        #[trigger] post.id_list().contains(x) <==> (pre.id_list().contains(x) && x != id))
}

impl PtyState {
    /// Spawn's registry step, taken once the host has opened the PTY pair and
    /// started the child process: allocate a fresh identifier and register
    /// the new session's model under it. Fails only when the 32-bit
    /// identifier space is exhausted; on failure no entry is created.
    pub fn spawn_pty(&mut self, options: &SpawnOptions) -> (r: Result<u32, PtyError>)
        requires
            old(self).wf(),
            options.valid_geometry(),
        ensures
            final(self).wf(),
            r is Ok <==> old(self).next() < u32::MAX,
            match r {
                Ok(id) => spawn_transition(
                    *old(self),
                    *final(self),
                    id,
                    options.cols,
                    options.rows,
                ),
                Err(e) => {
                    &&& e is SpawnFailure
                    &&& final(self).table() == old(self).table()
                    &&& final(self).id_list() == old(self).id_list()
                    &&& final(self).next() == old(self).next()
                },
            },
    {
        if self.next_id == u32::MAX {
            return Err(PtyError::SpawnFailure("session identifier space exhausted".to_owned()));
        }
        let id = self.allocate_id();
        self.insert(id, PtySession { cols: options.cols, rows: options.rows });
        Ok(id)
    }

    /// Write's decision: when `id` denotes a registered session, the full
    /// payload, as bytes, is to be written to that session's persistent
    /// writer; otherwise the call fails with `NotFound`. Takes the registry
    /// immutably: a failed (or successful) write never changes it.
    pub fn write_pty<'a>(&self, id: u32, data: &'a str) -> (r: Result<&'a [u8], PtyError>)
        ensures
            r is Ok <==> self.table().contains_key(id),
            match r {
                Ok(bytes) => bytes@ == data.spec_bytes(),
                Err(e) => e is NotFound,
            },
    {
        if self.sessions.contains_key(&id) {
            Ok(data.as_bytes())
        } else {
            Err(PtyError::NotFound)
        }
    }

    /// Resize: when `id` denotes a registered session, record its new
    /// geometry (the host then issues the matching OS request with zero pixel
    /// dimensions); otherwise fail with `NotFound`, leaving the registry
    /// untouched.
    pub fn resize_pty(&mut self, id: u32, cols: u16, rows: u16) -> (r: Result<(), PtyError>)
        requires
            old(self).wf(),
            cols > 0,
            rows > 0,
        ensures
            final(self).wf(),
            r is Ok <==> old(self).table().contains_key(id),
            final(self).next() == old(self).next(),
            final(self).id_list() == old(self).id_list(),
            match r {
                Ok(u) => final(self).table() == old(self).table().insert(
                    id,
                    PtySession { cols, rows },
                ),
                Err(e) => e is NotFound && final(self).table() == old(self).table(),
            },
    {
        if self.sessions.contains_key(&id) {
            self.sessions.insert(id, PtySession { cols, rows });
            proof {
                assert(old(self).table().contains_key(id));
                assert forall|x: u32| #[trigger] self.table().contains_key(x) implies x
                    < self.next_id by {
                    assert(old(self).table().contains_key(x));
                }
                assert forall|x: u32| #[trigger] self.id_list().contains(x) implies
                    self.table().contains_key(x) by {
                    assert(old(self).id_list().contains(x));
                    assert(old(self).table().contains_key(x));
                }
                assert forall|x: u32| self.table().contains_key(x) implies
                    #[trigger] self.id_list().contains(x) by {
                    assert(old(self).table().contains_key(x));
                    assert(old(self).id_list().contains(x));
                }
            }
            Ok(())
        } else {
            Err(PtyError::NotFound)
        }
    }

    /// Kill: remove the session from the registry if present (detaching it is
    /// what authorizes the host to terminate the child, best-effort) and
    /// succeed either way — killing an unknown identifier is a no-op.
    pub fn kill_pty(&mut self, id: u32) -> (r: Result<(), PtyError>)
        requires
            old(self).wf(),
        ensures
            final(self).wf(),
            r is Ok,
            kill_transition(*old(self), *final(self), id),
    {
        let _removed = self.remove(id);
        Ok(())
    }

    /// List: a snapshot of the registered identifiers, in insertion order.
    /// It may become stale as soon as it is returned, under concurrent
    /// spawns and kills.
    pub fn list_pty_sessions(&self) -> (r: Vec<u32>)
        requires
            self.wf(),
        ensures
            r@ == self.id_list(),
            r@.no_duplicates(),
            forall|x: u32| #[trigger] r@.contains(x) <==> self.table().contains_key(x),
    {
        let mut out: Vec<u32> = Vec::new();
        let mut i: usize = 0;
        while i < self.ids.len()
            invariant
                0 <= i <= self.ids.len(),
                out@ == self.ids@.take(i as int),
            decreases self.ids.len() - i,
        {
            let ghost prefix = out@;
            out.push(self.ids[i]);
            proof {
                assert(out@ =~= self.ids@.take(i as int + 1));
            }
            i = i + 1;
        }
        proof {
            assert(out@ =~= self.ids@);
        }
        out
    }
}

/// Law (unique, increasing identifiers): any two successful spawns return
/// strictly increasing identifiers, whatever happens to the registry in
/// between — every control operation either keeps the allocator where it is
/// or moves it forward, which is the `s1.next() <= s2.next()` hypothesis.
/// In particular no identifier is ever returned twice in a process lifetime.
pub proof fn lemma_spawn_ids_strictly_increase(
    s0: PtyState,
    s1: PtyState,
    s2: PtyState,
    s3: PtyState,
    id1: u32,
    id2: u32,
    cols1: u16,
    rows1: u16,
    cols2: u16,
    rows2: u16,
)
    requires
        spawn_transition(s0, s1, id1, cols1, rows1),
        s1.next() <= s2.next(),
        spawn_transition(s2, s3, id2, cols2, rows2),
    ensures
        id2 > id1,
{
}

/// Law (kill is idempotent): killing an identifier a second time changes
/// nothing — the registry after the second kill is the registry after the
/// first, whether or not the identifier was ever registered.
pub proof fn lemma_kill_idempotent(s0: PtyState, s1: PtyState, s2: PtyState, id: u32)
    requires
        kill_transition(s0, s1, id),
        kill_transition(s1, s2, id),
    ensures
        s2.table() == s1.table(),
        s2.next() == s1.next(),
        forall|x: u32| #[trigger] s2.id_list().contains(x) <==> s1.id_list().contains(x),
{
    assert(s2.table() =~= s1.table());
    assert forall|x: u32| #[trigger] s2.id_list().contains(x) <==> s1.id_list().contains(x) by {
        if s1.id_list().contains(x) {
            assert(x != id);
        }
    }
}

/// Law (killed identifiers are gone): after a kill, the identifier no longer
/// denotes a session, so a subsequent write or resize against it fails with
/// `NotFound` (their contracts return an error exactly when the identifier
/// is not in the table).
pub proof fn lemma_killed_id_not_found(s0: PtyState, s1: PtyState, id: u32)
    requires
        kill_transition(s0, s1, id),
    ensures
        !s1.table().contains_key(id),
{
}

impl Default for PtyState {
    /// An empty registry whose allocator starts at 1.
    fn default() -> (r: Self)
        ensures
            r.wf(),
            r.table() == Map::<u32, PtySession>::empty(),
            r.id_list() == Seq::<u32>::empty(),
            r.next() == 1,
    {
        let r = PtyState { sessions: HashMap::new(), ids: Vec::new(), next_id: 1 };
        proof {
            assert forall|id: u32| !(#[trigger] r.id_list().contains(id)) by {
                assert(r.id_list().len() == 0);
            }
        }
        r
    }
}

} // verus!
