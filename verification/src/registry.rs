//! The peer registry: the set of connected peer identities, one live
//! entry per identity.  Fan-out takes a snapshot of the recipients;
//! the sends themselves happen outside the registry's lock.

use vstd::prelude::*;
use crate::sequtil::{
    distinct_keys, lemma_filter_distinct_keys, lemma_filter_elems, lemma_filter_out_one,
};
use crate::strutil::str_eq;

verus! {

/// The views of the registered peer addresses.
pub open spec fn peers_view(s: Seq<String>) -> Seq<Seq<char>> {
    s.map(|i: int, p: String| p@)
}

/// Keep every peer other than `addr`.
pub open spec fn ne_pred(addr: Seq<char>) -> spec_fn(Seq<char>) -> bool {
    |p: Seq<char>| p != addr
}

/// Registering drops any stale entry under the same address and adds
/// the fresh one.
pub open spec fn spec_register(ps: Seq<Seq<char>>, addr: Seq<char>) -> Seq<Seq<char>> {
    ps.filter(ne_pred(addr)).push(addr)
}

/// Unregistering drops the entry if present; absent entries make it
/// a no-op.
pub open spec fn spec_unregister(ps: Seq<Seq<char>>, addr: Seq<char>) -> Seq<Seq<char>> {
    ps.filter(ne_pred(addr))
}

/// The fan-out snapshot: every registered peer but the excluded one.
pub open spec fn spec_targets(ps: Seq<Seq<char>>, excluding: Seq<char>) -> Seq<Seq<char>> {
    ps.filter(ne_pred(excluding))
}

/// Map of connection identity to delivery: at most one live entry per
/// identity at any time.
pub struct PeerRegistry {
    peers: Vec<String>,
}

impl View for PeerRegistry {
    type V = Seq<Seq<char>>;

    closed spec fn view(&self) -> Seq<Seq<char>> {
        peers_view(self.peers@)
    }
}

/// Well-formedness: no identity is registered twice.
pub open spec fn registry_wf(ps: Seq<Seq<char>>) -> bool {
    distinct_keys(ps, |p: Seq<char>| p)
}

impl PeerRegistry {
    /// An empty registry.
    pub fn new() -> (r: Self)
        ensures
            r@ == Seq::<Seq<char>>::empty(),
            registry_wf(r@),
    {
        let r = PeerRegistry { peers: Vec::new() };
        proof {
            assert(peers_view(r.peers@) =~= Seq::<Seq<char>>::empty());
        }
        r
    }

    /// How many peers are registered.
    pub fn len(&self) -> (r: usize)
        ensures
            r == self@.len(),
    {
        self.peers.len()
    }

    /// Register a connection, overwriting any stale entry for the
    /// same address.
    pub fn register(&mut self, addr: String)
        ensures
            final(self)@ == spec_register(old(self)@, addr@),
            registry_wf(old(self)@) ==> registry_wf(final(self)@),
    {
        let ghost p0 = peers_view(self.peers@);
        let ghost pred = ne_pred(addr@);
        let mut out: Vec<String> = Vec::new();
        proof {
            reveal(Seq::filter);
            assert(peers_view(out@) =~= p0.subrange(0, 0).filter(pred));
        }
        let n = self.peers.len();
        let mut i: usize = 0;
        while i < n
            invariant
                0 <= i <= n,
                n == self.peers@.len(),
                p0 == peers_view(self.peers@),
                pred == ne_pred(addr@),
                peers_view(out@) == p0.subrange(0, i as int).filter(pred),
            decreases n - i,
        {
            let ghost prefix = p0.subrange(0, i as int);
            let ghost prefix1 = p0.subrange(0, i as int + 1);
            proof {
                reveal(Seq::filter);
                assert(prefix1.drop_last() =~= prefix);
                assert(prefix1.last() == p0[i as int]);
            }
            if !str_eq(self.peers[i].as_str(), addr.as_str()) {
                let p = self.peers[i].clone();
                out.push(p);
                proof {
                    assert(peers_view(out@) =~= prefix.filter(pred).push(p0[i as int]));
                }
            }
            i += 1;
        }
        proof {
            assert(p0.subrange(0, n as int) =~= p0);
        }
        out.push(addr);
        self.peers = out;
        proof {
            assert(peers_view(self.peers@) =~= p0.filter(pred).push(addr@));
            if registry_wf(p0) {
                lemma_filter_distinct_keys(p0, pred, |p: Seq<char>| p);
                lemma_filter_elems(p0, pred);
                let f = p0.filter(pred);
                let key = |p: Seq<char>| p;
                assert forall|a: int, b: int|
                    0 <= a < b < f.push(addr@).len() implies key(f.push(addr@)[a]) != key(
                    f.push(addr@)[b],
                ) by {
                    if b < f.len() {
                        assert(distinct_keys(f, key));
                        assert(key(f[a]) != key(f[b]));
                    } else {
                        assert(f.push(addr@)[b] == addr@);
                        assert(pred(f[a])) by {
                            p0.lemma_filter_pred(pred, a);
                        }
                    }
                }
            }
        }
    }

    /// Remove a connection; a no-op if it is not registered.
    pub fn unregister(&mut self, addr: &str)
        ensures
            final(self)@ == spec_unregister(old(self)@, addr@),
            registry_wf(old(self)@) ==> registry_wf(final(self)@),
    {
        let ghost p0 = peers_view(self.peers@);
        let ghost pred = ne_pred(addr@);
        let mut out: Vec<String> = Vec::new();
        proof {
            reveal(Seq::filter);
            assert(peers_view(out@) =~= p0.subrange(0, 0).filter(pred));
        }
        let n = self.peers.len();
        let mut i: usize = 0;
        while i < n
            invariant
                0 <= i <= n,
                n == self.peers@.len(),
                p0 == peers_view(self.peers@),
                pred == ne_pred(addr@),
                peers_view(out@) == p0.subrange(0, i as int).filter(pred),
            decreases n - i,
        {
            let ghost prefix = p0.subrange(0, i as int);
            let ghost prefix1 = p0.subrange(0, i as int + 1);
            proof {
                reveal(Seq::filter);
                assert(prefix1.drop_last() =~= prefix);
                assert(prefix1.last() == p0[i as int]);
            }
            if !str_eq(self.peers[i].as_str(), addr) {
                let p = self.peers[i].clone();
                out.push(p);
                proof {
                    assert(peers_view(out@) =~= prefix.filter(pred).push(p0[i as int]));
                }
            }
            i += 1;
        }
        proof {
            assert(p0.subrange(0, n as int) =~= p0);
        }
        self.peers = out;
        proof {
            if registry_wf(p0) {
                lemma_filter_distinct_keys(p0, pred, |p: Seq<char>| p);
            }
        }
    }

    /// Snapshot the recipients of a broadcast: every registered peer
    /// but the sender.
    pub fn broadcast_targets(&self, excluding: &str) -> (r: Vec<String>)
        ensures
            peers_view(r@) == spec_targets(self@, excluding@),
    {
        let ghost p0 = peers_view(self.peers@);
        let ghost pred = ne_pred(excluding@);
        let mut out: Vec<String> = Vec::new();
        proof {
            reveal(Seq::filter);
            assert(peers_view(out@) =~= p0.subrange(0, 0).filter(pred));
        }
        let n = self.peers.len();
        let mut i: usize = 0;
        while i < n
            invariant
                0 <= i <= n,
                n == self.peers@.len(),
                p0 == peers_view(self.peers@),
                pred == ne_pred(excluding@),
                peers_view(out@) == p0.subrange(0, i as int).filter(pred),
            decreases n - i,
        {
            let ghost prefix = p0.subrange(0, i as int);
            let ghost prefix1 = p0.subrange(0, i as int + 1);
            proof {
                reveal(Seq::filter);
                assert(prefix1.drop_last() =~= prefix);
                assert(prefix1.last() == p0[i as int]);
            }
            if !str_eq(self.peers[i].as_str(), excluding) {
                let p = self.peers[i].clone();
                out.push(p);
                proof {
                    assert(peers_view(out@) =~= prefix.filter(pred).push(p0[i as int]));
                }
            }
            i += 1;
        }
        proof {
            assert(p0.subrange(0, n as int) =~= p0);
        }
        out
    }

    /// Snapshot every registered peer.
    pub fn all_peers(&self) -> (r: Vec<String>)
        ensures
            peers_view(r@) == self@,
    {
        let n = self.peers.len();
        let mut out: Vec<String> = Vec::new();
        let mut i: usize = 0;
        while i < n
            invariant
                0 <= i <= n,
                n == self.peers@.len(),
                out@.len() == i,
                forall|k: int| 0 <= k < i ==> #[trigger] out@[k]@ == self.peers@[k]@,
            decreases n - i,
        {
            let p = self.peers[i].clone();
            out.push(p);
            i += 1;
        }
        proof {
            assert(peers_view(out@) =~= peers_view(self.peers@));
        }
        out
    }
}

/// The fan-out guarantee: with the sender registered among `N`
/// distinct peers, the snapshot holds exactly the `N - 1` other
/// peers, each exactly once, and never the sender.
pub proof fn lemma_broadcast_exact(ps: Seq<Seq<char>>, excluding: Seq<char>)
    requires
        registry_wf(ps),
        ps.contains(excluding),
    ensures
        spec_targets(ps, excluding).len() == ps.len() - 1,
        !spec_targets(ps, excluding).contains(excluding),
        forall|p: Seq<char>|
            #[trigger] spec_targets(ps, excluding).contains(p) <==> (ps.contains(p) && p
                != excluding),
        registry_wf(spec_targets(ps, excluding)),
{
    let pred = ne_pred(excluding);
    let key = |p: Seq<char>| p;
    let ts = spec_targets(ps, excluding);
    let m = choose|m: int| 0 <= m < ps.len() && ps[m] == excluding;
    lemma_filter_out_one(ps, pred, m);
    lemma_filter_distinct_keys(ps, pred, key);
    lemma_filter_elems(ps, pred);
    assert forall|p: Seq<char>| #[trigger] ts.contains(p) implies (ps.contains(p) && p
        != excluding) by {
        let k = choose|k: int| 0 <= k < ts.len() && ts[k] == p;
        assert(ps.contains(ts[k]));
        assert(pred(ts[k])) by {
            ps.lemma_filter_pred(pred, k);
        }
    }
    assert forall|p: Seq<char>| (ps.contains(p) && p != excluding) implies #[trigger] ts.contains(
        p,
    ) by {
        let m = choose|m: int| 0 <= m < ps.len() && ps[m] == p;
        ps.lemma_filter_contains(pred, m);
    }
    if ts.contains(excluding) {
        assert(excluding != excluding);
    }
}

} // verus!
