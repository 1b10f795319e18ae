use tokio::sync::mpsc::UnboundedSender;
use vstd::prelude::*;

verus! {

#[verifier::external_type_specification]
#[verifier::external_body]
#[verifier::reject_recursive_types(T)]
pub struct ExUnboundedSender<T>(UnboundedSender<T>);

/// Relies on tokio's `UnboundedSender::send`: it queues the message for the
/// receiving half, or hands it back when that half is gone. Neither outcome
/// is promised, so no caller depends on it.
#[verifier::external_body]
fn post(tx: &UnboundedSender<String>, msg: String) -> (r: bool) {
    tx.send(msg).is_ok()
}

/// The remote address of a connection: an IPv4 address (in the low 32 bits
/// of `ip`) or an IPv6 address, and a port.
#[derive(Clone, Copy, Debug, PartialEq, Eq, Hash, Structural)]
pub struct PeerAddr {
    pub v6: bool,
    pub ip: u128,
    pub port: u16,
}

/// `ids` without `me`, in the same order.
pub open spec fn others(ids: Seq<PeerAddr>, me: PeerAddr) -> Seq<PeerAddr>
    decreases ids.len(),
{
    if ids.len() == 0 {
        Seq::empty()
    } else {
        let rest = others(ids.drop_last(), me);
        if ids.last() == me {
            rest
        } else {
            rest.push(ids.last())
        }
    }
}

/// `ids` after `k` registers: a known identity keeps its place, a new one
/// comes last.
pub open spec fn with_member(ids: Seq<PeerAddr>, k: PeerAddr) -> Seq<PeerAddr> {
    if ids.contains(k) {
        ids
    } else {
        ids.push(k)
    }
}

/// The peers in the active chat, each with the sending half of its outbound
/// queue, in the order they joined.
pub struct Registry {
    entries: Vec<(PeerAddr, UnboundedSender<String>)>,
}

impl Registry {
    /// The registered identities, in the order they joined.
    pub closed spec fn ids(&self) -> Seq<PeerAddr> {
        self.entries@.map_values(|e: (PeerAddr, UnboundedSender<String>)| e.0)
    }

    /// Each identity is registered at most once.
    pub open spec fn wf(&self) -> bool {
        self.ids().no_duplicates()
    }

    pub fn new() -> (r: Registry)
        ensures
            r.wf(),
            r.ids() == Seq::<PeerAddr>::empty(),
    {
        let r = Registry { entries: Vec::new() };
        assert(r.ids() =~= Seq::<PeerAddr>::empty());
        r
    }

    fn find(&self, addr: &PeerAddr) -> (r: Option<usize>)
        ensures
            match r {
                Some(i) => i < self.ids().len() && self.ids()[i as int] == *addr,
                None => !self.ids().contains(*addr),
            },
    {
        let mut i: usize = 0;
        while i < self.entries.len()
            invariant
                i <= self.entries@.len(),
                forall|j: int| 0 <= j < i ==> self.ids()[j] != *addr,
            decreases self.entries@.len() - i,
        {
            if self.entries[i].0 == *addr {
                return Some(i);
            }
            i = i + 1;
        }
        None
    }

    /// Whether `addr` is registered.
    pub fn contains(&self, addr: &PeerAddr) -> (r: bool)
        ensures
            r == self.ids().contains(*addr),
    {
        self.find(addr).is_some()
    }

    /// How many peers are registered.
    pub fn len(&self) -> (r: usize)
        ensures
            r == self.ids().len(),
    {
        self.entries.len()
    }

    /// Registers `addr` with its outbound queue, replacing the queue that was
    /// registered for it before.
    pub fn insert(&mut self, addr: PeerAddr, tx: UnboundedSender<String>)
        requires
            old(self).wf(),
        ensures
            final(self).wf(),
            final(self).ids() == with_member(old(self).ids(), addr),
    {
        let ghost before = self.ids();
        match self.find(&addr) {
            Some(i) => {
                self.entries.remove(i);
                self.entries.insert(i, (addr, tx));
                assert(self.ids() =~= before);
            },
            None => {
                self.entries.push((addr, tx));
                assert(self.ids() =~= before.push(addr));
                assert forall|a: int, b: int|
                    0 <= a < self.ids().len() && 0 <= b < self.ids().len() && a != b
                    implies self.ids()[a] != self.ids()[b] by {
                    if b == before.len() as int {
                        assert(before.contains(before[a]));
                    } else if a == before.len() as int {
                        assert(before.contains(before[b]));
                    }
                }
            },
        }
    }

    /// Unregisters `addr`; nothing happens where it is not registered.
    pub fn remove(&mut self, addr: &PeerAddr)
        requires
            old(self).wf(),
        ensures
            final(self).wf(),
            final(self).ids() == others(old(self).ids(), *addr),
    {
        let ghost before = self.ids();
        match self.find(addr) {
            Some(i) => {
                self.entries.remove(i);
                assert(self.ids() =~= before.remove(i as int));
                proof {
                    lemma_others_removes_one(before, i as int);
                }
                assert forall|a: int, b: int|
                    0 <= a < self.ids().len() && 0 <= b < self.ids().len() && a != b
                    implies self.ids()[a] != self.ids()[b] by {
                    let a0 = if a < i { a } else { a + 1 };
                    let b0 = if b < i { b } else { b + 1 };
                    assert(self.ids()[a] == before[a0]);
                    assert(self.ids()[b] == before[b0]);
                }
            },
            None => {
                proof {
                    lemma_others_absent(before, *addr);
                }
            },
        }
    }

    /// Offers `text` to the queue of every registered peer but `sender`, and
    /// returns those peers, in the order they joined. A peer whose queue is
    /// closed does not get it, stays registered, and does not stop the rest.
    pub fn broadcast(&self, sender: &PeerAddr, text: &String) -> (r: Vec<PeerAddr>)
        ensures
            r@ == others(self.ids(), *sender),
    {
        let mut out: Vec<PeerAddr> = Vec::new();
        let mut i: usize = 0;
        while i < self.entries.len()
            invariant
                i <= self.entries@.len(),
                out@ == others(self.ids().subrange(0, i as int), *sender),
            decreases self.entries@.len() - i,
        {
            let ghost pre = self.ids().subrange(0, i as int);
            assert(self.ids().subrange(0, i + 1).drop_last() =~= pre);
            let peer = self.entries[i].0;
            if peer != *sender {
                let _ = post(&self.entries[i].1, text.clone());
                out.push(peer);
            }
            i = i + 1;
        }
        assert(self.ids().subrange(0, self.entries@.len() as int) =~= self.ids());
        out
    }
}

/// Where `me` does not occur, removing it changes nothing.
pub proof fn lemma_others_absent(ids: Seq<PeerAddr>, me: PeerAddr)
    requires
        !ids.contains(me),
    ensures
        others(ids, me) == ids,
    decreases ids.len(),
{
    if ids.len() > 0 {
        assert(!ids.drop_last().contains(me)) by {
            if ids.drop_last().contains(me) {
                let j = choose|j: int| 0 <= j < ids.drop_last().len() && ids.drop_last()[j] == me;
                assert(ids[j] == me);
            }
        }
        lemma_others_absent(ids.drop_last(), me);
        assert(ids.last() != me) by {
            assert(ids[ids.len() - 1] == ids.last());
        }
        assert(ids.drop_last().push(ids.last()) =~= ids);
    }
}

/// In a list without repeats, removing an identity takes out exactly its one
/// occurrence.
pub proof fn lemma_others_removes_one(ids: Seq<PeerAddr>, i: int)
    requires
        ids.no_duplicates(),
        0 <= i < ids.len(),
    ensures
        others(ids, ids[i]) == ids.remove(i),
    decreases ids.len(),
{
    let me = ids[i];
    let init = ids.drop_last();
    if i == ids.len() - 1 {
        assert(!init.contains(me)) by {
            if init.contains(me) {
                let j = choose|j: int| 0 <= j < init.len() && init[j] == me;
                assert(ids[j] == ids[i]);
            }
        }
        lemma_others_absent(init, me);
        assert(ids.remove(i) =~= init);
    } else {
        assert(init.no_duplicates()) by {
            assert forall|a: int, b: int| 0 <= a < init.len() && 0 <= b < init.len() && a != b
                implies init[a] != init[b] by {
                assert(init[a] == ids[a] && init[b] == ids[b]);
            }
        }
        assert(init[i] == me);
        lemma_others_removes_one(init, i);
        assert(ids.last() != me) by {
            assert(ids[ids.len() - 1] == ids.last());
        }
        assert(init.remove(i).push(ids.last()) =~= ids.remove(i));
    }
}

/// The identities after a run of changes, each a register (`true`) or an
/// unregister (`false`) of one identity, applied in order to `ids`.
pub open spec fn replay(ids: Seq<PeerAddr>, changes: Seq<(bool, PeerAddr)>) -> Seq<PeerAddr>
    decreases changes.len(),
{
    if changes.len() == 0 {
        ids
    } else {
        let prev = replay(ids, changes.drop_last());
        let change = changes.last();
        if change.0 {
            with_member(prev, change.1)
        } else {
            others(prev, change.1)
        }
    }
}

/// A broadcast from `me` reaches every registered identity but `me`, and
/// never `me` itself.
pub proof fn lemma_broadcast_reaches_all_but_sender(ids: Seq<PeerAddr>, me: PeerAddr)
    ensures
        !others(ids, me).contains(me),
        forall|x: PeerAddr| #[trigger]
            others(ids, me).contains(x) <==> (ids.contains(x) && x != me),
    decreases ids.len(),
{
    if ids.len() > 0 {
        let init = ids.drop_last();
        lemma_broadcast_reaches_all_but_sender(init, me);
        assert forall|x: PeerAddr| #[trigger]
            others(ids, me).contains(x) <==> (ids.contains(x) && x != me) by {
            if ids.contains(x) && x != me && x != ids.last() {
                let j = choose|j: int| 0 <= j < ids.len() && ids[j] == x;
                assert(j != ids.len() - 1);
                assert(init[j] == x);
            }
            if init.contains(x) {
                let j = choose|j: int| 0 <= j < init.len() && init[j] == x;
                assert(ids[j] == x);
            }
            if ids.last() != me {
                assert(others(ids, me)[others(init, me).len() as int] == ids.last());
                if others(ids, me).contains(x) {
                    let j = choose|j: int| 0 <= j < others(ids, me).len() && others(ids, me)[j] == x;
                    if j < others(init, me).len() {
                        assert(others(init, me)[j] == x);
                    }
                }
                if others(init, me).contains(x) {
                    let j = choose|j: int| 0 <= j < others(init, me).len() && others(init, me)[j] == x;
                    assert(others(ids, me)[j] == x);
                }
            }
            assert(ids[ids.len() - 1] == ids.last());
        }
    }
}

proof fn lemma_others_no_duplicates(ids: Seq<PeerAddr>, me: PeerAddr)
    requires
        ids.no_duplicates(),
    ensures
        others(ids, me).no_duplicates(),
    decreases ids.len(),
{
    if ids.len() > 0 {
        let init = ids.drop_last();
        assert(init.no_duplicates()) by {
            assert forall|a: int, b: int| 0 <= a < init.len() && 0 <= b < init.len() && a != b
                implies init[a] != init[b] by {
                assert(init[a] == ids[a] && init[b] == ids[b]);
            }
        }
        lemma_others_no_duplicates(init, me);
        if ids.last() != me {
            lemma_broadcast_reaches_all_but_sender(init, me);
            assert(!init.contains(ids.last())) by {
                if init.contains(ids.last()) {
                    let j = choose|j: int| 0 <= j < init.len() && init[j] == ids.last();
                    assert(ids[j] == ids[ids.len() - 1]);
                }
            }
            let o = others(init, me);
            assert forall|a: int, b: int|
                0 <= a < o.push(ids.last()).len() && 0 <= b < o.push(ids.last()).len() && a != b
                implies o.push(ids.last())[a] != o.push(ids.last())[b] by {
                if a == o.len() {
                    assert(o.contains(o[b]));
                } else if b == o.len() {
                    assert(o.contains(o[a]));
                }
            }
        }
    }
}

proof fn lemma_with_member_no_duplicates(ids: Seq<PeerAddr>, k: PeerAddr)
    requires
        ids.no_duplicates(),
    ensures
        with_member(ids, k).no_duplicates(),
{
    if !ids.contains(k) {
        let n = ids.push(k);
        assert forall|a: int, b: int| 0 <= a < n.len() && 0 <= b < n.len() && a != b
            implies n[a] != n[b] by {
            if b == ids.len() {
                assert(ids.contains(ids[a]));
            } else if a == ids.len() {
                assert(ids.contains(ids[b]));
            }
        }
    }
}

/// Whatever runs of registers and unregisters a registry sees from empty, no
/// identity is ever registered twice.
pub proof fn lemma_registry_never_repeats(changes: Seq<(bool, PeerAddr)>)
    ensures
        replay(Seq::empty(), changes).no_duplicates(),
    decreases changes.len(),
{
    if changes.len() > 0 {
        lemma_registry_never_repeats(changes.drop_last());
        let prev = replay(Seq::empty(), changes.drop_last());
        let change = changes.last();
        if change.0 {
            lemma_with_member_no_duplicates(prev, change.1);
        } else {
            lemma_others_no_duplicates(prev, change.1);
        }
    }
}

} // verus!
