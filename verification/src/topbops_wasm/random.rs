use crate::topbops::{Item, ItemMetadata, ItemQuery};
use rand::seq::SliceRandom;
use vstd::prelude::*;

verus! {

/// `SliceRandom::shuffle` of the `rand` crate with `rand::thread_rng()`. Trusted to
/// reorder the items and nothing more; which order comes out is chance and is not
/// stated.
#[verifier::external_body]
pub(crate) fn shuffle<T>(v: &mut Vec<T>)
    ensures
        final(v)@.to_multiset() == old(v)@.to_multiset(),
{
    v.shuffle(&mut rand::thread_rng());
}

/// The list whose random matches a page shows.
#[derive(Clone, Debug, PartialEq, Eq)]
pub struct MatchProps {
    pub id: String,
}

/// One random pairing at a time, or rounds in which every item plays once.
#[derive(Clone, Copy, Debug, PartialEq, Eq, Structural)]
pub enum Mode {
    Match,
    Round,
}

/// The mode that the address asks for: rounds for `rounds`, single matches otherwise.
pub fn mode_from_query(mode: Option<&str>) -> (r: Mode)
    ensures
        r == if mode matches Some(m) && m@ == "rounds"@ { Mode::Round } else { Mode::Match },
{
    match mode {
        Some(m) => if crate::text::str_eq(m, "rounds") {
            Mode::Round
        } else {
            Mode::Match
        },
        None => Mode::Match,
    }
}

/// The random-match page: its mode, the items still queued for the current round
/// (by position in the last query, the next one last), and the pair on show, by
/// position.
pub struct Match {
    pub mode: Mode,
    pub random_queue: Vec<usize>,
    pub data: Option<(usize, usize)>,
}

/// Whether the positions are each below `n`.
pub open spec fn all_below(v: Seq<usize>, n: nat) -> bool {
    forall|i: int| 0 <= i < v.len() ==> #[trigger] v[i] < n
}

/// The positions `0..n`.
pub open spec fn positions(n: nat) -> Seq<usize> {
    Seq::new(n, |i: int| i as usize)
}

/// The positions `0..n`, in order.
fn all_positions(n: usize) -> (r: Vec<usize>)
    ensures
        r@ == positions(n as nat),
{
    let mut v: Vec<usize> = Vec::new();
    let mut i: usize = 0;
    while i < n
        invariant
            i <= n,
            v@ == positions(i as nat),
        decreases n - i,
    {
        v.push(i);
        i = i + 1;
        assert(v@ =~= positions(i as nat));
    }
    v
}

/// A shuffled copy of the positions `0..n`: each appears once, in an order that is
/// chance.
pub(crate) fn shuffled_positions(n: usize) -> (r: Vec<usize>)
    ensures
        r@.to_multiset() == positions(n as nat).to_multiset(),
        all_below(r@, n as nat),
        r@.len() == n,
        r@.no_duplicates(),
{
    let mut v = all_positions(n);
    shuffle(&mut v);
    proof {
        broadcast use vstd::seq_lib::group_to_multiset_ensures;

        assert forall|i: int| 0 <= i < v@.len() implies #[trigger] v@[i] < n by {
            assert(v@.contains(v@[i]));
            assert(v@.to_multiset().count(v@[i]) > 0);
            assert(positions(n as nat).contains(v@[i]));
        }
        assert(v@.len() == v@.to_multiset().len());
        assert(positions(n as nat).len() == positions(n as nat).to_multiset().len());
        assert(positions(n as nat).no_duplicates());
        positions(n as nat).lemma_multiset_has_no_duplicates();
        v@.lemma_multiset_has_no_duplicates_conv();
    }
    v
}

impl Match {
    /// A new page in the given mode, with nothing queued or shown.
    pub fn new(mode: Mode) -> (r: Match)
        ensures
            r.mode == mode,
            r.random_queue@.len() == 0,
            r.data is None,
    {
        Match { mode, random_queue: Vec::new(), data: None }
    }

    /// Picks the next pair from the `n` items of a fresh query. Single matches take
    /// two items at random. Rounds take the next two from the queue; an empty queue
    /// is refilled with all items in random order, and a queue of one keeps its item
    /// to be played next, after a refill below it.
    pub fn load_random(&mut self, n: usize)
        requires
            n >= 2,
            all_below(old(self).random_queue@, n as nat),
        ensures
            final(self).mode == old(self).mode,
            all_below(final(self).random_queue@, n as nat),
            final(self).data matches Some((l, r)) && l < n && r < n,
            old(self).mode == Mode::Match ==> final(self).random_queue@ == old(self).random_queue@
                && (final(self).data matches Some((l, r)) && l != r),
            old(self).mode == Mode::Round ==> {
                let q = old(self).random_queue@;
                &&& q.len() >= 2 ==> final(self).random_queue@ == q.subrange(0, q.len() - 2)
                    && final(self).data == Some((q[q.len() - 1], q[q.len() - 2]))
                &&& q.len() == 1 ==> (final(self).data matches Some((l, _)) && l == q[0])
                &&& q.len() == 0 ==> (final(self).data matches Some((l, r)) && l != r)
                &&& q.len() < 2 ==> final(self).random_queue@.len() == n + q.len() - 2
            },
    {
        match self.mode {
            Mode::Round => {
                let len = self.random_queue.len();
                if len == 0 {
                    let items = shuffled_positions(n);
                    self.random_queue = items;
                } else if len == 1 {
                    let last = self.random_queue.pop().unwrap();
                    let mut items = shuffled_positions(n);
                    items.push(last);
                    self.random_queue = items;
                }
                let left = self.random_queue.pop().unwrap();
                let right = self.random_queue.pop().unwrap();
                self.data = Some((left, right));
            },
            Mode::Match => {
                let mut queued = shuffled_positions(n);
                let left = queued.pop().unwrap();
                let right = queued.pop().unwrap();
                self.data = Some((left, right));
            },
        }
    }
}

} // verus!
