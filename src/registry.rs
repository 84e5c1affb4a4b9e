//! The server's table of live connections, keyed by peer address, with the
//! removal rules that keep disconnect notifications exactly-once.
use vstd::prelude::*;

verus! {

/// A peer's socket address: an IPv6 address (IPv4 peers in their
/// IPv4-mapped form) and a port.
#[derive(Clone, Copy, Debug, PartialEq, Eq, Structural, Hash)]
pub struct PeerAddr {
    pub ip: u128,
    pub port: u16,
}

/// Some entry of `s` has key `k`.
pub open spec fn has_key<H>(s: Seq<(PeerAddr, H)>, k: PeerAddr) -> bool {
    exists|i: int| 0 <= i < s.len() && #[trigger] s[i].0 == k
}

/// No two entries of `s` share a key.
pub open spec fn keys_unique<H>(s: Seq<(PeerAddr, H)>) -> bool {
    forall|i: int, j: int| 0 <= i < j < s.len() ==> #[trigger] s[i].0 != #[trigger] s[j].0
}

/// The entries of `s` whose key is not in `gone`, in order.
pub open spec fn without<H>(s: Seq<(PeerAddr, H)>, gone: Seq<PeerAddr>) -> Seq<(PeerAddr, H)>
    decreases s.len(),
{
    if s.len() == 0 {
        seq![]
    } else {
        let w = without(s.drop_last(), gone);
        if gone.contains(s.last().0) {
            w
        } else {
            w.push(s.last())
        }
    }
}

/// The entries of `s` whose key is in `gone`, in order.
pub open spec fn only<H>(s: Seq<(PeerAddr, H)>, gone: Seq<PeerAddr>) -> Seq<(PeerAddr, H)>
    decreases s.len(),
{
    if s.len() == 0 {
        seq![]
    } else {
        let o = only(s.drop_last(), gone);
        if gone.contains(s.last().0) {
            o.push(s.last())
        } else {
            o
        }
    }
}

proof fn lemma_push_contains<T>(w: Seq<T>, x: T)
    ensures
        forall|e: T| #[trigger] w.push(x).contains(e) <==> w.contains(e) || e == x,
{
    assert forall|e: T| #[trigger] w.push(x).contains(e) <==> w.contains(e) || e == x by {
        if w.push(x).contains(e) {
            let i = choose|i: int| 0 <= i < w.push(x).len() && w.push(x)[i] == e;
            if i < w.len() {
                assert(w[i] == e);
            }
        }
        if w.contains(e) {
            let i = choose|i: int| 0 <= i < w.len() && w[i] == e;
            assert(w.push(x)[i] == e);
        }
        if e == x {
            assert(w.push(x)[w.len() as int] == e);
        }
    }
}

/// What `without` and `only` keep: entries of `s`, split by their key, each
/// side with unique keys when `s` has them.
pub proof fn lemma_split_by_keys<H>(s: Seq<(PeerAddr, H)>, gone: Seq<PeerAddr>)
    ensures
        forall|e: (PeerAddr, H)| #[trigger]
            without(s, gone).contains(e) <==> s.contains(e) && !gone.contains(e.0),
        forall|e: (PeerAddr, H)| #[trigger]
            only(s, gone).contains(e) <==> s.contains(e) && gone.contains(e.0),
        keys_unique(s) ==> keys_unique(without(s, gone)),
        keys_unique(s) ==> keys_unique(only(s, gone)),
    decreases s.len(),
{
    if s.len() > 0 {
        let p = s.drop_last();
        lemma_split_by_keys(p, gone);
        lemma_push_contains(without(p, gone), s.last());
        lemma_push_contains(only(p, gone), s.last());
        assert forall|e: (PeerAddr, H)| s.contains(e) <==> p.contains(e) || e == s.last() by {
            if s.contains(e) {
                let i = choose|i: int| 0 <= i < s.len() && s[i] == e;
                if i < s.len() - 1 {
                    assert(p[i] == s[i]);
                }
            }
            if p.contains(e) {
                let i = choose|i: int| 0 <= i < p.len() && p[i] == e;
                assert(s[i] == p[i]);
            }
            if e == s.last() {
                assert(s[s.len() - 1] == e);
            }
        }
        if keys_unique(s) {
            assert forall|e: (PeerAddr, H)| p.contains(e) implies e.0 != s.last().0 by {
                let i = choose|i: int| 0 <= i < p.len() && p[i] == e;
                assert(s[i] == e);
            }
            let w = without(p, gone);
            let o = only(p, gone);
            assert forall|i: int| 0 <= i < w.len() implies #[trigger] w[i].0 != s.last().0 by {
                assert(w.contains(w[i]));
            }
            assert forall|i: int| 0 <= i < o.len() implies #[trigger] o[i].0 != s.last().0 by {
                assert(o.contains(o[i]));
            }
            assert(keys_unique(p));
        }
    }
}

/// A table of live connections: unique peer addresses, each with the handle
/// that the caller stored for it, in order of insertion.
pub struct Registry<H> {
    entries: Vec<(PeerAddr, H)>,
}

impl<H> View for Registry<H> {
    type V = Seq<(PeerAddr, H)>;

    closed spec fn view(&self) -> Seq<(PeerAddr, H)> {
        self.entries@
    }
}

/// Whether `a` occurs in `v`.
fn contains_addr(v: &Vec<PeerAddr>, a: PeerAddr) -> (r: bool)
    ensures
        r == v@.contains(a),
{
    let mut i: usize = 0;
    while i < v.len()
        invariant
            0 <= i <= v@.len(),
            forall|j: int| 0 <= j < i ==> v@[j] != a,
        decreases v@.len() - i,
    {
        if v[i] == a {
            assert(v@[i as int] == a);
            return true;
        }
        i = i + 1;
    }
    false
}

impl<H> Registry<H> {
    /// Every address occurs at most once.
    pub open spec fn wf(&self) -> bool {
        keys_unique(self@)
    }

    pub fn new() -> (r: Self)
        ensures
            r.wf(),
            r@ == Seq::<(PeerAddr, H)>::empty(),
    {
        Registry { entries: Vec::new() }
    }

    pub fn len(&self) -> (r: usize)
        ensures
            r == self@.len(),
    {
        self.entries.len()
    }

    /// Whether `addr` is registered.
    pub fn contains(&self, addr: PeerAddr) -> (r: bool)
        ensures
            r == has_key(self@, addr),
    {
        let mut i: usize = 0;
        while i < self.entries.len()
            invariant
                0 <= i <= self@.len(),
                self@ == self.entries@,
                forall|j: int| 0 <= j < i ==> self@[j].0 != addr,
            decreases self@.len() - i,
        {
            if self.entries[i].0 == addr {
                return true;
            }
            i = i + 1;
        }
        false
    }

    /// The entry at position `i`, in order of insertion.
    pub fn get_at(&self, i: usize) -> (r: &(PeerAddr, H))
        requires
            i < self@.len(),
        ensures
            *r == self@[i as int],
    {
        &self.entries[i]
    }

    /// The position of the entry of `addr`, if it is registered.
    pub fn find(&self, addr: PeerAddr) -> (r: Option<usize>)
        ensures
            r is None <==> !has_key(self@, addr),
            r is Some ==> r->Some_0 < self@.len() && self@[r->Some_0 as int].0 == addr,
    {
        let mut i: usize = 0;
        while i < self.entries.len()
            invariant
                0 <= i <= self@.len(),
                self@ == self.entries@,
                forall|j: int| 0 <= j < i ==> self@[j].0 != addr,
            decreases self@.len() - i,
        {
            if self.entries[i].0 == addr {
                return Some(i);
            }
            i = i + 1;
        }
        None
    }

    /// Removes every entry whose address is in `gone`, in one pass, and
    /// returns the removed entries. An address that is absent, or occurs more
    /// than once in `gone`, removes nothing more: each entry leaves once.
    pub fn remove_all(&mut self, gone: &Vec<PeerAddr>) -> (r: Vec<(PeerAddr, H)>)
        requires
            old(self).wf(),
        ensures
            final(self).wf(),
            final(self)@ == without(old(self)@, gone@),
            r@ == only(old(self)@, gone@),
    {
        let ghost s0 = self.entries@;
        let mut removed: Vec<(PeerAddr, H)> = Vec::new();
        let mut i: usize = 0;
        let ghost mut j: int = 0;
        while i < self.entries.len()
            invariant
                0 <= j <= s0.len(),
                i == without(s0.take(j), gone@).len(),
                self.entries@ == without(s0.take(j), gone@) + s0.skip(j),
                removed@ == only(s0.take(j), gone@),
            decreases self.entries@.len() - i,
        {
            assert(self.entries@[i as int] == s0[j]);
            assert(s0.take(j + 1).drop_last() =~= s0.take(j));
            assert(s0.take(j + 1).last() == s0[j]);
            if contains_addr(gone, self.entries[i].0) {
                let e = self.entries.remove(i);
                removed.push(e);
                assert(self.entries@ =~= without(s0.take(j + 1), gone@) + s0.skip(j + 1));
            } else {
                assert(self.entries@ =~= without(s0.take(j + 1), gone@) + s0.skip(j + 1));
                i = i + 1;
            }
            proof {
                j = j + 1;
            }
        }
        assert(j == s0.len());
        assert(s0.take(j) =~= s0);
        assert(self.entries@ =~= without(s0, gone@));
        proof {
            lemma_split_by_keys(s0, gone@);
        }
        removed
    }

    /// Removes `addr` if it is still registered and returns its handle; `None`
    /// when another path removed it first.
    pub fn remove(&mut self, addr: PeerAddr) -> (r: Option<H>)
        requires
            old(self).wf(),
        ensures
            final(self).wf(),
            final(self)@ == without(old(self)@, seq![addr]),
            r is Some <==> has_key(old(self)@, addr),
            r is Some ==> old(self)@.contains((addr, r->Some_0)),
    {
        let mut gone: Vec<PeerAddr> = Vec::new();
        gone.push(addr);
        assert(gone@ =~= seq![addr]);
        let ghost s0 = self@;
        let mut removed = self.remove_all(&gone);
        proof {
            lemma_split_by_keys(s0, seq![addr]);
            assert(seq![addr][0] == addr);
            assert(seq![addr].contains(addr));
            let o = only(s0, seq![addr]);
            assert forall|i: int| 0 <= i < o.len() implies #[trigger] o[i].0 == addr by {
                assert(o.contains(o[i]));
            }
            if o.len() > 1 {
                assert(o[0].0 == o[1].0);
            }
            if has_key(s0, addr) {
                let i = choose|i: int| 0 <= i < s0.len() && #[trigger] s0[i].0 == addr;
                assert(s0.contains(s0[i]));
                assert(o.contains(s0[i]));
            }
            if o.len() == 1 {
                assert(o.contains(o[0]));
                assert(s0.contains(o[0]));
                let i = choose|i: int| 0 <= i < s0.len() && s0[i] == o[0];
                assert(s0[i].0 == addr);
            }
        }
        match removed.pop() {
            Some(e) => Some(e.1),
            None => None,
        }
    }

    /// Registers `addr` with handle `h`, replacing an earlier entry for the
    /// same address.
    pub fn insert(&mut self, addr: PeerAddr, h: H)
        requires
            old(self).wf(),
        ensures
            final(self).wf(),
            final(self)@ == without(old(self)@, seq![addr]).push((addr, h)),
    {
        let ghost s0 = self@;
        let _ = self.remove(addr);
        proof {
            lemma_split_by_keys(s0, seq![addr]);
            assert(seq![addr][0] == addr);
            assert(seq![addr].contains(addr));
            let w = without(s0, seq![addr]);
            assert forall|i: int| 0 <= i < w.len() implies #[trigger] w[i].0 != addr by {
                assert(w.contains(w[i]));
            }
        }
        self.entries.push((addr, h));
    }
}

/// `a` lists the keys of `b` in the same order, each with a clone of its handle.
pub open spec fn cloned_entries<H: Clone>(a: Seq<(PeerAddr, H)>, b: Seq<(PeerAddr, H)>) -> bool {
    &&& a.len() == b.len()
    &&& forall|i: int| 0 <= i < a.len() ==> #[trigger] a[i].0 == b[i].0
    &&& forall|i: int| 0 <= i < a.len() ==> cloned(b[i].1, #[trigger] a[i].1)
}

proof fn lemma_without_nothing<H>(s: Seq<(PeerAddr, H)>)
    ensures
        without(s, Seq::<PeerAddr>::empty()) == s,
    decreases s.len(),
{
    if s.len() > 0 {
        lemma_without_nothing(s.drop_last());
        assert(s.drop_last().push(s.last()) =~= s);
    }
}

impl<H: Clone> Registry<H> {
    /// The registered entries whose address is not in `excluded`, in order,
    /// each with a clone of its handle: taken under a brief shared lock so
    /// that writing to them needs no lock on the table.
    pub fn snapshot_except(&self, excluded: &Vec<PeerAddr>) -> (r: Vec<(PeerAddr, H)>)
        ensures
            cloned_entries(r@, without(self@, excluded@)),
    {
        let mut out: Vec<(PeerAddr, H)> = Vec::new();
        let mut i: usize = 0;
        while i < self.entries.len()
            invariant
                0 <= i <= self@.len(),
                self@ == self.entries@,
                cloned_entries(out@, without(self@.take(i as int), excluded@)),
            decreases self@.len() - i,
        {
            assert(self@.take(i + 1).drop_last() =~= self@.take(i as int));
            assert(self@.take(i + 1).last() == self@[i as int]);
            let a = self.entries[i].0;
            if !contains_addr(excluded, a) {
                let h = self.entries[i].1.clone();
                out.push((a, h));
            }
            i = i + 1;
        }
        assert(self@.take(i as int) =~= self@);
        out
    }

    /// Every registered entry, in order, each with a clone of its handle.
    pub fn snapshot(&self) -> (r: Vec<(PeerAddr, H)>)
        ensures
            cloned_entries(r@, self@),
    {
        let none: Vec<PeerAddr> = Vec::new();
        proof {
            lemma_without_nothing(self@);
        }
        assert(none@ =~= Seq::<PeerAddr>::empty());
        self.snapshot_except(&none)
    }

    /// Every registered entry but the one of `addr`.
    pub fn snapshot_except_one(&self, addr: PeerAddr) -> (r: Vec<(PeerAddr, H)>)
        ensures
            cloned_entries(r@, without(self@, seq![addr])),
    {
        let mut excluded: Vec<PeerAddr> = Vec::new();
        excluded.push(addr);
        assert(excluded@ =~= seq![addr]);
        self.snapshot_except(&excluded)
    }
}

/// The removal that ends a broadcast: after the writes to the addresses in
/// `failed` went wrong, one batched removal leaves none of them registered,
/// keeps every other entry exactly as it was, and hands back each failed
/// connection that was still registered exactly once, for one disconnect
/// notice each. A later removal of the same addresses, by the read loop that
/// saw the same fault, finds them gone and hands back nothing.
pub proof fn lemma_broadcast_consistency<H>(s: Seq<(PeerAddr, H)>, failed: Seq<PeerAddr>)
    requires
        keys_unique(s),
    ensures
        forall|k: PeerAddr| #[trigger] failed.contains(k) ==> !has_key(without(s, failed), k),
        forall|e: (PeerAddr, H)|
            s.contains(e) && !failed.contains(e.0) ==> #[trigger] without(s, failed).contains(e),
        keys_unique(without(s, failed)),
        keys_unique(only(s, failed)),
        forall|k: PeerAddr| #[trigger]
            has_key(only(s, failed), k) <==> has_key(s, k) && failed.contains(k),
        only(without(s, failed), failed) == Seq::<(PeerAddr, H)>::empty(),
{
    lemma_split_by_keys(s, failed);
    let w = without(s, failed);
    let o = only(s, failed);
    lemma_split_by_keys(w, failed);
    assert forall|k: PeerAddr| #[trigger] failed.contains(k) implies !has_key(w, k) by {
        if has_key(w, k) {
            let i = choose|i: int| 0 <= i < w.len() && #[trigger] w[i].0 == k;
            assert(w.contains(w[i]));
        }
    }
    assert forall|k: PeerAddr| #[trigger]
        has_key(o, k) <==> has_key(s, k) && failed.contains(k) by {
        if has_key(o, k) {
            let i = choose|i: int| 0 <= i < o.len() && #[trigger] o[i].0 == k;
            assert(o.contains(o[i]));
            let j = choose|j: int| 0 <= j < s.len() && s[j] == o[i];
            assert(s[j].0 == k);
        }
        if has_key(s, k) && failed.contains(k) {
            let j = choose|j: int| 0 <= j < s.len() && #[trigger] s[j].0 == k;
            assert(s.contains(s[j]));
            assert(o.contains(s[j]));
            let i = choose|i: int| 0 <= i < o.len() && o[i] == s[j];
            assert(o[i].0 == k);
        }
    }
    let oo = only(w, failed);
    if oo.len() > 0 {
        assert(oo.contains(oo[0]));
    }
    assert(oo =~= Seq::<(PeerAddr, H)>::empty());
}

} // verus!
