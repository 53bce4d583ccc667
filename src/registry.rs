//! The table of open connections, keyed by port name.

use vstd::prelude::*;
use vstd::map::*;

verus! {

/// Whether `insert` accepts `port` into a registry whose connections are `m`.
pub open spec fn insert_accepted<H>(m: Map<Seq<char>, H>, port: Seq<char>) -> bool {
    !m.contains_key(port)
}

/// Registering a port a second time, with no removal in between, is refused;
/// once the port is removed it is accepted again.
pub proof fn reregistration_needs_removal<H>(before: Map<Seq<char>, H>, port: Seq<char>, handle: H)
    ensures
        !insert_accepted(before.insert(port, handle), port),
        insert_accepted(before.insert(port, handle).remove(port), port),
{
}

/// Open connections, at most one per port name. `H` is the connection
/// handle; the registry owns every handle it holds.
pub struct Registry<H> {
    ports: Vec<String>,
    handles: Vec<H>,
}

impl<H> Registry<H> {
    /// The two columns line up and no port name occurs twice.
    pub closed spec fn wf(&self) -> bool {
        &&& self.ports@.len() == self.handles@.len()
        &&& forall|i: int, j: int|
            0 <= i < self.ports@.len() && 0 <= j < self.ports@.len() && i != j
                ==> #[trigger] self.ports@[i]@ != #[trigger] self.ports@[j]@
    }

    /// Row `i` holds port `k`.
    closed spec fn holds_at(&self, k: Seq<char>, i: int) -> bool {
        0 <= i < self.ports@.len() && self.ports@[i]@ == k
    }

    /// The open connections, by port name.
    pub closed spec fn view(&self) -> Map<Seq<char>, H> {
        Map::new(
            |k: Seq<char>| exists|i: int| self.holds_at(k, i),
            |k: Seq<char>| self.handles@[choose|i: int| self.holds_at(k, i)],
        )
    }

    proof fn lemma_row(&self, i: int)
        requires
            self.wf(),
            0 <= i < self.ports@.len(),
        ensures
            self@.contains_key(self.ports@[i]@),
            self@[self.ports@[i]@] == self.handles@[i],
    {
        let k = self.ports@[i]@;
        assert(self.holds_at(k, i));
        let j = choose|j: int| self.holds_at(k, j);
        assert(self.ports@[j]@ == self.ports@[i]@);
    }

    proof fn lemma_absent(&self, k: Seq<char>)
        requires
            forall|i: int| 0 <= i < self.ports@.len() ==> self.ports@[i]@ != k,
        ensures
            !self@.contains_key(k),
    {
    }

    /// An empty registry.
    pub fn new() -> (r: Self)
        ensures
            r.wf(),
            r@ == Map::<Seq<char>, H>::empty(),
    {
        let r = Registry { ports: Vec::new(), handles: Vec::new() };
        assert(r@ =~= Map::<Seq<char>, H>::empty());
        r
    }

    fn position(&self, port: &String) -> (r: Option<usize>)
        requires
            self.wf(),
        ensures
            r matches Some(i) ==> self.holds_at(port@, i as int),
            r is None ==> forall|i: int| 0 <= i < self.ports@.len() ==> self.ports@[i]@ != port@,
    {
        let mut i: usize = 0;
        while i < self.ports.len()
            invariant
                self.wf(),
                0 <= i <= self.ports@.len(),
                forall|j: int| 0 <= j < i ==> self.ports@[j]@ != port@,
            decreases self.ports@.len() - i,
        {
            if self.ports[i] == *port {
                return Some(i);
            }
            i += 1;
        }
        None
    }

    /// Whether a connection is open on `port`.
    pub fn contains(&self, port: &String) -> (r: bool)
        requires
            self.wf(),
        ensures
            r == self@.contains_key(port@),
    {
        match self.position(port) {
            Some(i) => {
                proof {
                    self.lemma_row(i as int);
                }
                true
            },
            None => {
                proof {
                    self.lemma_absent(port@);
                }
                false
            },
        }
    }

    /// Whether no connection is open.
    pub fn is_empty(&self) -> (r: bool)
        requires
            self.wf(),
        ensures
            r == (self@ == Map::<Seq<char>, H>::empty()),
    {
        if self.ports.len() == 0 {
            assert(self@ =~= Map::<Seq<char>, H>::empty());
            true
        } else {
            proof {
                self.lemma_row(0);
                assert(!(self@ =~= Map::<Seq<char>, H>::empty()));
            }
            false
        }
    }

    /// Registers `handle` under `port`. Refuses, and hands the handle back,
    /// when `port` already has a connection: an entry is never overwritten.
    pub fn insert(&mut self, port: String, handle: H) -> (r: Result<(), H>)
        requires
            old(self).wf(),
        ensures
            final(self).wf(),
            r is Ok <==> insert_accepted(old(self)@, port@),
            old(self)@.contains_key(port@) ==> r == Err::<(), H>(handle) && final(self)@ == old(
                self,
            )@,
            !old(self)@.contains_key(port@) ==> r is Ok && final(self)@ == old(self)@.insert(
                port@,
                handle,
            ),
    {
        match self.position(&port) {
            Some(i) => {
                proof {
                    self.lemma_row(i as int);
                }
                Err(handle)
            },
            None => {
                proof {
                    self.lemma_absent(port@);
                }
                let ghost pre = *self;
                let ghost k = port@;
                self.ports.push(port);
                self.handles.push(handle);
                let ghost n: int = pre.ports@.len() as int;
                assert(self.wf());
                assert forall|q: Seq<char>| #[trigger] self@.contains_key(q) == pre@.insert(
                    k,
                    handle,
                ).contains_key(q) && (self@.contains_key(q) ==> self@[q] == pre@.insert(
                    k,
                    handle,
                )[q]) by {
                    if q == k {
                        self.lemma_row(n);
                    } else if pre@.contains_key(q) {
                        let j = choose|j: int| pre.holds_at(q, j);
                        pre.lemma_row(j);
                        self.lemma_row(j);
                    } else {
                        assert forall|i: int| 0 <= i < self.ports@.len() implies self.ports@[i]@
                            != q by {
                            if i < n {
                                assert(!pre.holds_at(q, i));
                            }
                        }
                        self.lemma_absent(q);
                    }
                }
                assert(self@ =~= pre@.insert(k, handle));
                Ok(())
            },
        }
    }

    /// Unregisters `port` and hands back its connection, if it has one.
    pub fn remove(&mut self, port: &String) -> (r: Option<H>)
        requires
            old(self).wf(),
        ensures
            final(self).wf(),
            old(self)@.contains_key(port@) ==> r == Some(old(self)@[port@]) && final(self)@ == old(
                self,
            )@.remove(port@),
            !old(self)@.contains_key(port@) ==> r is None && final(self)@ == old(self)@,
    {
        match self.position(port) {
            None => {
                proof {
                    self.lemma_absent(port@);
                }
                None
            },
            Some(i) => {
                proof {
                    self.lemma_row(i as int);
                }
                let ghost pre = *self;
                let ghost k = port@;
                let _name = self.ports.remove(i);
                let h = self.handles.remove(i);
                assert(self.wf()) by {
                    assert forall|a: int, b: int|
                        0 <= a < self.ports@.len() && 0 <= b < self.ports@.len() && a != b
                            implies #[trigger] self.ports@[a]@ != #[trigger] self.ports@[b]@ by {
                        let a0 = if a < i { a } else { a + 1 };
                        let b0 = if b < i { b } else { b + 1 };
                        assert(self.ports@[a] == pre.ports@[a0]);
                        assert(self.ports@[b] == pre.ports@[b0]);
                    }
                }
                assert forall|q: Seq<char>| #[trigger] self@.contains_key(q) == pre@.remove(
                    k,
                ).contains_key(q) && (self@.contains_key(q) ==> self@[q] == pre@.remove(k)[q]) by {
                    if q == k {
                        assert forall|a: int| 0 <= a < self.ports@.len() implies self.ports@[a]@
                            != q by {
                            let a0 = if a < i { a } else { a + 1 };
                            assert(self.ports@[a] == pre.ports@[a0]);
                        }
                        self.lemma_absent(q);
                    } else if pre@.contains_key(q) {
                        let j = choose|j: int| pre.holds_at(q, j);
                        pre.lemma_row(j);
                        let j1 = if j < i { j } else { j - 1 };
                        assert(self.ports@[j1] == pre.ports@[j]);
                        self.lemma_row(j1);
                    } else {
                        assert forall|a: int| 0 <= a < self.ports@.len() implies self.ports@[a]@
                            != q by {
                            let a0 = if a < i { a } else { a + 1 };
                            assert(self.ports@[a] == pre.ports@[a0]);
                            assert(!pre.holds_at(q, a0));
                        }
                        self.lemma_absent(q);
                    }
                }
                assert(self@ =~= pre@.remove(k));
                Some(h)
            },
        }
    }

    /// The handle open on `port`, to use in place, if it has one.
    pub fn entry_mut(&mut self, port: &String) -> (r: Option<&mut H>)
        requires
            old(self).wf(),
        ensures
            final(self).wf(),
            r is None ==> !old(self)@.contains_key(port@) && final(self)@ == old(self)@,
            r matches Some(h) ==> old(self)@.contains_key(port@) && *h == old(self)@[port@]
                && final(self)@ == old(self)@.insert(port@, *final(h)),
    {
        broadcast use Registry::lemma_update_row;

        match self.position(port) {
            None => {
                proof {
                    self.lemma_absent(port@);
                }
                None
            },
            Some(i) => {
                proof {
                    self.lemma_row(i as int);
                }
                Some(&mut self.handles[i])
            },
        }
    }

    /// Replacing one row's handle replaces that port's connection.
    broadcast proof fn lemma_update_row(a: &Registry<H>, b: &Registry<H>, i: int, v: H)
        requires
            a.wf(),
            0 <= i < a.ports@.len(),
            b.ports@ == a.ports@,
            #[trigger] a.handles@.update(i, v) == b.handles@,
        ensures
            b.wf(),
            #[trigger] b@ == a@.insert(a.ports@[i]@, v),
    {
        let k = a.ports@[i]@;
        a.lemma_row(i);
        assert forall|q: Seq<char>| #[trigger] b@.contains_key(q) == a@.insert(k, v).contains_key(q)
            && (b@.contains_key(q) ==> b@[q] == a@.insert(k, v)[q]) by {
            if q == k {
                b.lemma_row(i);
            } else if a@.contains_key(q) {
                let j = choose|j: int| a.holds_at(q, j);
                a.lemma_row(j);
                b.lemma_row(j);
            } else {
                assert forall|x: int| 0 <= x < b.ports@.len() implies b.ports@[x]@ != q by {
                    assert(!a.holds_at(q, x));
                }
                b.lemma_absent(q);
            }
        }
        assert(b@ =~= a@.insert(k, v));
    }

    /// Empties the registry and hands back every port with its handle, for
    /// the caller to close.
    pub fn drain_all(&mut self) -> (r: Vec<(String, H)>)
        requires
            old(self).wf(),
        ensures
            final(self).wf(),
            final(self)@ == Map::<Seq<char>, H>::empty(),
            forall|j: int| 0 <= j < r@.len() ==> old(self)@.contains_key((#[trigger] r@[j]).0@)
                && old(self)@[r@[j].0@] == r@[j].1,
            forall|k: Seq<char>| #[trigger] old(self)@.contains_key(k) ==> exists|j: int|
                0 <= j < r@.len() && (#[trigger] r@[j]).0@ == k,
    {
        let ghost pre = *self;
        let mut ports: Vec<String> = Vec::new();
        let mut handles: Vec<H> = Vec::new();
        std::mem::swap(&mut ports, &mut self.ports);
        std::mem::swap(&mut handles, &mut self.handles);
        assert(self@ =~= Map::<Seq<char>, H>::empty());
        let mut out: Vec<(String, H)> = Vec::new();
        let ghost n: int = pre.ports@.len() as int;
        while ports.len() > 0
            invariant
                pre.wf(),
                n == pre.ports@.len(),
                ports@.len() == handles@.len(),
                ports@.len() + out@.len() == n,
                ports@ == pre.ports@.subrange(0, ports@.len() as int),
                handles@ == pre.handles@.subrange(0, handles@.len() as int),
                forall|j: int|
                    0 <= j < out@.len() ==> (#[trigger] out@[j]).0 == pre.ports@[n - 1 - j]
                        && out@[j].1 == pre.handles@[n - 1 - j],
            decreases ports@.len(),
        {
            let p = ports.pop().unwrap();
            let h = handles.pop().unwrap();
            out.push((p, h));
        }
        proof {
            assert forall|j: int| 0 <= j < out@.len() implies pre@.contains_key(
                (#[trigger] out@[j]).0@,
            ) && pre@[out@[j].0@] == out@[j].1 by {
                pre.lemma_row(n - 1 - j);
            }
            assert forall|k: Seq<char>| #[trigger] pre@.contains_key(k) implies exists|j: int|
                0 <= j < out@.len() && (#[trigger] out@[j]).0@ == k by {
                let i = choose|i: int| pre.holds_at(k, i);
                assert(out@[n - 1 - i].0@ == k);
            }
        }
        out
    }
}

} // verus!
