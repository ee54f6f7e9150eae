//! The active set: the address-keyed collection of established connections.

use vstd::prelude::*;

use crate::addr::SocketAddr;
use crate::connection::{Connection, ConnectionView};

verus! {

/// The set of fully established connections, keyed by remote address.
pub struct Connections {
    inner: Vec<Connection>,
}

impl View for Connections {
    type V = Map<SocketAddr, ConnectionView>;

    closed spec fn view(&self) -> Map<SocketAddr, ConnectionView> {
        Map::new(
            |a: SocketAddr| exists|i: int| 0 <= i < self.inner@.len() && self.inner@[i]@.addr == a,
            |a: SocketAddr|
                self.inner@[choose|i: int|
                    0 <= i < self.inner@.len() && self.inner@[i]@.addr == a]@,
        )
    }
}

impl Connections {
    /// The addresses are unique and every held connection is well-formed.
    pub closed spec fn wf(self) -> bool {
        &&& forall|i: int, j: int|
            0 <= i < j < self.inner@.len() ==> self.inner@[i]@.addr != self.inner@[j]@.addr
        &&& forall|i: int| 0 <= i < self.inner@.len() ==> (#[trigger] self.inner@[i]).wf()
    }

    /// The number of active connections. The domain of the view is exactly
    /// this large, but counts are stated over `spec_len` directly.
    pub closed spec fn spec_len(self) -> nat {
        self.inner@.len()
    }

    proof fn lemma_index_view(self, i: int)
        requires
            self.wf(),
            0 <= i < self.inner@.len(),
        ensures
            self@.dom().contains(self.inner@[i]@.addr),
            self@[self.inner@[i]@.addr] == self.inner@[i]@,
    {
        let a = self.inner@[i]@.addr;
        assert(exists|k: int| 0 <= k < self.inner@.len() && self.inner@[k]@.addr == a);
        let k = choose|k: int| 0 <= k < self.inner@.len() && self.inner@[k]@.addr == a;
        assert(k == i);
    }

    /// The domain of the view is finite and exactly as large as the
    /// backing store, so counts can be stated over either.
    pub proof fn lemma_dom_len(self)
        requires
            self.wf(),
        ensures
            self@.dom().finite(),
            self@.dom().len() == self.spec_len(),
    {
        let addrs = Seq::new(self.inner@.len(), |i: int| self.inner@[i]@.addr);
        assert forall|a: SocketAddr| self@.dom().contains(a) <==> addrs.contains(a) by {
            if self@.dom().contains(a) {
                let i = choose|i: int|
                    0 <= i < self.inner@.len() && self.inner@[i]@.addr == a;
                assert(addrs[i] == a);
            }
            if addrs.contains(a) {
                let i = choose|i: int| 0 <= i < addrs.len() && addrs[i] == a;
                assert(self.inner@[i]@.addr == a);
            }
        }
        assert(self@.dom() =~= addrs.to_set());
        assert(addrs.no_duplicates());
        addrs.unique_seq_to_set();
    }

    /// Creates an empty collection.
    pub fn new() -> (r: Connections)
        ensures
            r.wf(),
            r@ == Map::<SocketAddr, ConnectionView>::empty(),
            r.spec_len() == 0,
    {
        let r = Connections { inner: Vec::new() };
        assert(r@ =~= Map::<SocketAddr, ConnectionView>::empty());
        r
    }

    /// The index of the connection with the given address, if any.
    fn position(&self, addr: SocketAddr) -> (r: Option<usize>)
        requires
            self.wf(),
        ensures
            match r {
                Some(i) => i < self.inner@.len() && self.inner@[i as int]@.addr == addr
                    && self@.dom().contains(addr) && self@[addr] == self.inner@[i as int]@,
                None => !self@.dom().contains(addr),
            },
    {
        let n = self.inner.len();
        let mut i: usize = 0;
        while i < n
            invariant
                self.wf(),
                n == self.inner@.len(),
                i <= n,
                forall|k: int| 0 <= k < i ==> self.inner@[k]@.addr != addr,
            decreases n - i,
        {
            if self.inner[i].addr() == addr {
                proof {
                    self.lemma_index_view(i as int);
                }
                return Some(i);
            }
            i = i + 1;
        }
        assert(!self@.dom().contains(addr)) by {
            if self@.dom().contains(addr) {
                let k = choose|k: int|
                    0 <= k < self.inner@.len() && self.inner@[k]@.addr == addr;
            }
        }
        None
    }

    /// Whether the given address is connected.
    pub fn is_connected(&self, addr: SocketAddr) -> (r: bool)
        requires
            self.wf(),
        ensures
            r == self@.dom().contains(addr),
    {
        self.position(addr).is_some()
    }

    /// The number of active connections.
    pub fn num_connected(&self) -> (r: usize)
        ensures
            r == self.spec_len(),
    {
        self.inner.len()
    }

    /// The addresses of all active connections.
    pub fn addrs(&self) -> (r: Vec<SocketAddr>)
        requires
            self.wf(),
        ensures
            r@.len() == self.spec_len(),
            r@.no_duplicates(),
            forall|a: SocketAddr| r@.contains(a) <==> self@.dom().contains(a),
    {
        let n = self.inner.len();
        let mut r: Vec<SocketAddr> = Vec::new();
        let mut i: usize = 0;
        while i < n
            invariant
                self.wf(),
                n == self.inner@.len(),
                i <= n,
                r@.len() == i,
                forall|k: int| 0 <= k < i ==> r@[k] == self.inner@[k]@.addr,
            decreases n - i,
        {
            r.push(self.inner[i].addr());
            i = i + 1;
        }
        assert(r@.no_duplicates());
        assert forall|a: SocketAddr| r@.contains(a) <==> self@.dom().contains(a) by {
            if r@.contains(a) {
                let k = choose|k: int| 0 <= k < r@.len() && r@[k] == a;
                self.lemma_index_view(k);
            }
            if self@.dom().contains(a) {
                let k = choose|k: int|
                    0 <= k < self.inner@.len() && self.inner@[k]@.addr == a;
                assert(r@[k] == a);
            }
        }
        r
    }

    /// Installs a connection under its address.
    pub fn add(&mut self, conn: Connection)
        requires
            old(self).wf(),
            conn.wf(),
            !old(self)@.dom().contains(conn@.addr),
            old(self).spec_len() < usize::MAX,
        ensures
            final(self).wf(),
            final(self)@ == old(self)@.insert(conn@.addr, conn@),
            final(self).spec_len() == old(self).spec_len() + 1,
    {
        proof {
            if exists|i: int|
                0 <= i < self.inner@.len() && self.inner@[i]@.addr == conn@.addr {
                let i = choose|i: int|
                    0 <= i < self.inner@.len() && self.inner@[i]@.addr == conn@.addr;
                self.lemma_index_view(i);
            }
        }
        let ghost pre = *self;
        self.inner.push(conn);
        proof {
            assert forall|i: int, j: int|
                0 <= i < j < self.inner@.len() implies self.inner@[i]@.addr
                != self.inner@[j]@.addr by {
                if j < pre.inner@.len() {
                } else {
                    if pre.inner@[i]@.addr == conn@.addr {
                        pre.lemma_index_view(i);
                    }
                }
            }
            assert forall|a: SocketAddr|
                final(self)@.dom().contains(a) <==> old(self)@.insert(
                    conn@.addr,
                    conn@,
                ).dom().contains(a) by {
                if exists|i: int|
                    0 <= i < pre.inner@.len() && pre.inner@[i]@.addr == a {
                    let i = choose|i: int|
                        0 <= i < pre.inner@.len() && pre.inner@[i]@.addr == a;
                    assert(self.inner@[i]@.addr == a);
                }
            }
            assert forall|a: SocketAddr| #[trigger]
                final(self)@.dom().contains(a) implies final(self)@[a] == old(self)@.insert(
                    conn@.addr,
                    conn@,
                )[a] by {
                let k = choose|k: int|
                    0 <= k < self.inner@.len() && self.inner@[k]@.addr == a;
                self.lemma_index_view(k);
                if a == conn@.addr {
                    assert(self.inner@[self.inner@.len() - 1]@.addr == a);
                    assert(k == self.inner@.len() - 1);
                } else {
                    assert(k < pre.inner@.len());
                    pre.lemma_index_view(k);
                }
            }
            assert(final(self)@ =~= old(self)@.insert(conn@.addr, conn@));
        }
    }

    /// Removes and returns the connection with the given address, if any.
    pub fn remove(&mut self, addr: SocketAddr) -> (r: Option<Connection>)
        requires
            old(self).wf(),
        ensures
            final(self).wf(),
            match r {
                Some(conn) => {
                    &&& old(self)@.dom().contains(addr)
                    &&& conn@ == old(self)@[addr]
                    &&& conn.wf()
                    &&& final(self)@ == old(self)@.remove(addr)
                    &&& final(self).spec_len() == old(self).spec_len() - 1
                },
                None => {
                    &&& !old(self)@.dom().contains(addr)
                    &&& *final(self) == *old(self)
                },
            },
    {
        match self.position(addr) {
            None => None,
            Some(i) => {
                let ghost pre = *self;
                let conn = self.inner.remove(i);
                proof {
                    assert forall|k: int|
                        0 <= k < self.inner@.len() implies (#[trigger] self.inner@[k]).wf()
                        && exists|m: int|
                        0 <= m < pre.inner@.len() && pre.inner@[m] == self.inner@[k]
                        && pre.inner@[m]@.addr != addr by {
                        let m = if k < i { k } else { k + 1 };
                        assert(pre.inner@[m] == self.inner@[k]);
                    }
                    assert forall|a: SocketAddr|
                        final(self)@.dom().contains(a) <==> old(self)@.remove(
                            addr,
                        ).dom().contains(a) by {
                        if exists|k: int|
                            0 <= k < self.inner@.len() && self.inner@[k]@.addr == a {
                            let k = choose|k: int|
                                0 <= k < self.inner@.len() && self.inner@[k]@.addr == a;
                            let m = if k < i { k } else { k + 1 };
                            assert(pre.inner@[m]@.addr == a);
                        }
                        if old(self)@.remove(addr).dom().contains(a) {
                            let m = choose|m: int|
                                0 <= m < pre.inner@.len() && pre.inner@[m]@.addr == a;
                            let k = if m < i { m } else { m - 1 };
                            assert(m != i);
                            assert(self.inner@[k]@.addr == a);
                        }
                    }
                    assert forall|a: SocketAddr| #[trigger]
                        final(self)@.dom().contains(a) implies final(self)@[a] == old(
                            self,
                        )@.remove(addr)[a] by {
                        let k = choose|k: int|
                            0 <= k < self.inner@.len() && self.inner@[k]@.addr == a;
                        self.lemma_index_view(k);
                        let m = if k < i { k } else { k + 1 };
                        assert(pre.inner@[m] == self.inner@[k]);
                        pre.lemma_index_view(m);
                    }
                    assert(final(self)@ =~= old(self)@.remove(addr));
                }
                Some(conn)
            },
        }
    }

    /// Removes and returns every connection, leaving the collection empty.
    pub fn drain(&mut self) -> (r: Vec<Connection>)
        requires
            old(self).wf(),
        ensures
            final(self).wf(),
            final(self)@ == Map::<SocketAddr, ConnectionView>::empty(),
            final(self).spec_len() == 0,
            r@.len() == old(self).spec_len(),
            forall|k: int, m: int|
                0 <= k < m < r@.len() ==> r@[k]@.addr != r@[m]@.addr,
            forall|k: int| 0 <= k < r@.len() ==> (#[trigger] r@[k]).wf(),
            forall|k: int| #![auto]
                0 <= k < r@.len() ==> old(self)@.dom().contains(r@[k]@.addr)
                    && old(self)@[r@[k]@.addr] == r@[k]@,
            forall|a: SocketAddr| #[trigger]
                old(self)@.dom().contains(a) ==> exists|k: int|
                    0 <= k < r@.len() && r@[k]@.addr == a,
    {
        let mut taken: Vec<Connection> = Vec::new();
        core::mem::swap(&mut taken, &mut self.inner);
        proof {
            assert(final(self)@ =~= Map::<SocketAddr, ConnectionView>::empty());
            assert forall|k: int| 0 <= k < taken@.len() implies old(self)@.dom().contains(
                taken@[k]@.addr,
            ) && old(self)@[taken@[k]@.addr] == taken@[k]@ by {
                old(self).lemma_index_view(k);
            }
        }
        taken
    }
}

} // verus!
