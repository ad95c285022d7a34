use vstd::prelude::*;
use crate::addr::Addr;
use crate::table::SessionTable;

verus! {

/// The Expiry Queue: client addresses whose sessions have self-terminated
/// and must be purged from the Session Table. Any session worker may append
/// to it (in the running process it sits behind a lock); only the dispatch
/// loop drains it. An address may be named more than once — removal from
/// the table is idempotent, so duplicates are harmless.
pub struct ExpiryQueue {
    addrs: Vec<Addr>,
}

impl View for ExpiryQueue {
    type V = Seq<Addr>;

    closed spec fn view(&self) -> Seq<Addr> {
        self.addrs@
    }
}

impl ExpiryQueue {
    pub fn new() -> (r: ExpiryQueue)
        ensures
            r@ == Seq::<Addr>::empty(),
    {
        ExpiryQueue { addrs: Vec::new() }
    }

    /// A session worker names its client address for removal.
    pub fn push(&mut self, a: Addr)
        ensures
            final(self)@ == old(self)@.push(a),
    {
        self.addrs.push(a);
    }

    /// The dispatch loop takes one pending address (latest first, as the
    /// drain pops from the back).
    pub fn pop(&mut self) -> (r: Option<Addr>)
        ensures
            old(self)@.len() == 0 ==> r is None && final(self)@ == old(self)@,
            old(self)@.len() > 0 ==> r == Some(old(self)@.last()) && final(self)@ == old(
                self,
            )@.drop_last(),
    {
        self.addrs.pop()
    }

    pub fn len(&self) -> (n: usize)
        ensures
            n == self@.len(),
    {
        self.addrs.len()
    }
}

/// The dispatch loop's drain, run in full before each receive: every
/// address the Expiry Queue names is removed from the Session Table, so a
/// stale entry never outlives one receive cycle. Afterwards the queue is
/// empty and the table maps exactly the addresses it mapped before, minus
/// the drained ones, to their unchanged sessions.
pub fn purge_expired<V>(table: &mut SessionTable<V>, queue: &mut ExpiryQueue)
    requires
        old(table).wf(),
    ensures
        final(table).wf(),
        final(queue)@ == Seq::<Addr>::empty(),
        final(table).as_map() == old(table).as_map().remove_keys(old(queue)@.to_set()),
{
    let ghost mut k: int = old(queue)@.len() as int;
    proof {
        assert(old(queue)@.subrange(0, k) =~= old(queue)@);
        assert(old(queue)@.skip(k).to_set() =~= Set::<Addr>::empty());
        assert(old(table).as_map().remove_keys(Set::<Addr>::empty()) =~= old(table).as_map());
    }
    loop
        invariant
            table.wf(),
            0 <= k <= old(queue)@.len(),
            queue@ == old(queue)@.subrange(0, k),
            table.as_map() == old(table).as_map().remove_keys(old(queue)@.skip(k).to_set()),
        ensures
            queue@ == Seq::<Addr>::empty(),
            table.as_map() == old(table).as_map().remove_keys(old(queue)@.to_set()),
        decreases queue@.len(),
    {
        match queue.pop() {
            None => {
                proof {
                    assert(k == 0);
                    assert(old(queue)@.skip(0) =~= old(queue)@);
                    assert(queue@ =~= Seq::<Addr>::empty());
                }
                break ;
            },
            Some(a) => {
                table.remove(&a);
                proof {
                    assert(queue@ =~= old(queue)@.subrange(0, k - 1));
                    assert(a == old(queue)@[k - 1]);
                    assert forall|x: Addr| old(queue)@.skip(k - 1).to_set().contains(x)
                        <==> old(queue)@.skip(k).to_set().insert(a).contains(x) by {
                        if old(queue)@.skip(k - 1).contains(x) {
                            let i = choose|i: int|
                                0 <= i < old(queue)@.skip(k - 1).len() && #[trigger] old(
                                    queue,
                                )@.skip(k - 1)[i] == x;
                            if i > 0 {
                                assert(old(queue)@.skip(k)[i - 1] == x);
                            }
                        }
                        if old(queue)@.skip(k).contains(x) {
                            let i = choose|i: int|
                                0 <= i < old(queue)@.skip(k).len() && #[trigger] old(queue)@.skip(
                                    k,
                                )[i] == x;
                            assert(old(queue)@.skip(k - 1)[i + 1] == x);
                        }
                        if x == a {
                            assert(old(queue)@.skip(k - 1)[0] == x);
                        }
                    }
                    assert(old(queue)@.skip(k - 1).to_set() =~= old(queue)@.skip(
                        k,
                    ).to_set().insert(a));
                    assert(old(table).as_map().remove_keys(old(queue)@.skip(k).to_set()).remove(a)
                        =~= old(table).as_map().remove_keys(old(queue)@.skip(k - 1).to_set()));
                    k = k - 1;
                }
            },
        }
    }
}

} // verus!
