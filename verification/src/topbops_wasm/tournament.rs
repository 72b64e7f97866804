use vstd::prelude::*;
use vstd::multiset::Multiset;
use vstd::arithmetic::div_mod::{lemma_div_denominator, lemma_fundamental_div_mod_converse};
use crate::topbops::ItemMetadata;

verus! {

/// 2 to the power `e`.
pub open spec fn exp2(e: nat) -> nat
    decreases e,
{
    if e == 0 { 1 } else { 2 * exp2((e - 1) as nat) }
}

/// Number of consecutive one bits at the low end of `x`.
pub open spec fn trailing_ones(x: nat) -> nat
    decreases x,
{
    if x % 2 == 1 { 1 + trailing_ones(x / 2) } else { 0 }
}

/// Flat index of the node at tree level `t` (leaves are level 0) and position `j`
/// within that level. Leaves sit at even indexes and every parent sits between
/// its two children.
pub open spec fn node_index(t: nat, j: nat) -> nat {
    (exp2(t + 1) * j + exp2(t) - 1) as nat
}

/// Flat index of the node that plays against node `(t, j)`.
pub open spec fn pair_index(t: nat, j: nat) -> nat {
    if j % 2 == 0 { node_index(t, j + 1) } else { node_index(t, (j - 1) as nat) }
}

/// Flat index of the ancestor `k` levels above node `(t, j)`.
pub open spec fn ancestor_index(t: nat, j: nat, k: nat) -> nat {
    node_index(t + k, j / exp2(k))
}

pub proof fn lemma_exp2_pos(e: nat)
    ensures exp2(e) >= 1,
    decreases e,
{
    if e > 0 { lemma_exp2_pos((e - 1) as nat); }
}

pub proof fn lemma_exp2_add(a: nat, b: nat)
    ensures exp2(a + b) == exp2(a) * exp2(b),
    decreases a,
{
    if a > 0 {
        let am = (a - 1) as nat;
        lemma_exp2_add(am, b);
        let x = exp2(am);
        let y = exp2(b);
        let z = exp2(am + b);
        assert((a + b - 1) as nat == am + b);
        assert(exp2(a + b) == 2 * z);
        assert(exp2(a) == 2 * x);
        assert(z == x * y);
        assert(2 * (x * y) == (2 * x) * y) by (nonlinear_arith);
    } else {
        assert(exp2(0) == 1);
        assert(a + b == b);
        assert(1 * exp2(b) == exp2(b));
    }
}

pub proof fn lemma_small_nodes(q: nat)
    ensures
        node_index(0, 2 * q) == 4 * q,
        node_index(1, q) == 4 * q + 1,
        node_index(0, 2 * q + 1) == 4 * q + 2,
        q >= 1 ==> node_index(1, (q - 1) as nat) == 4 * q - 3,
        node_index(1, q + 1) == 4 * q + 5,
        exp2(1) == 2,
        exp2(2) == 4,
{
    reveal_with_fuel(exp2, 3);
    assert(exp2(0) == 1);
    assert(exp2(1) == 2);
    assert(exp2(2) == 4);
    assert(0 + 1 == 1nat);
    assert(1 + 1 == 2nat);
}

pub proof fn lemma_exp2_monotone(a: nat, b: nat)
    requires a <= b,
    ensures exp2(a) <= exp2(b),
    decreases b,
{
    if a < b {
        lemma_exp2_monotone(a, (b - 1) as nat);
        lemma_exp2_pos((b - 1) as nat);
    }
}

/// The level of a node is the number of trailing one bits of its index, and its
/// position is what remains after dropping those bits and one more.
pub proof fn lemma_node_index(t: nat, j: nat)
    ensures
        trailing_ones(node_index(t, j)) == t,
        node_index(t, j) / exp2(t + 1) == j,
    decreases t,
{
    lemma_exp2_pos(t);
    let x = node_index(t, j);
    if t == 0 {
        assert(x == 2 * j);
        assert(x % 2 == 0);
        lemma_fundamental_div_mod_converse(x as int, 2, j as int, 0);
    } else {
        let tm = (t - 1) as nat;
        lemma_node_index(tm, j);
        lemma_exp2_pos(tm);
        let y = node_index(tm, j);
        let a = exp2(tm);
        assert(exp2(t) == 2 * a);
        assert(exp2(t + 1) == 4 * a);
        assert(y == 2 * a * j + a - 1);
        assert(x == 4 * a * j + 2 * a - 1);
        assert(x == 2 * y + 1) by (nonlinear_arith)
            requires x == 4 * a * j + 2 * a - 1, y == 2 * a * j + a - 1;
        lemma_fundamental_div_mod_converse(x as int, 2, y as int, 1);
        assert(trailing_ones(x) == 1 + trailing_ones(y));
        // x / (4a) == j
        assert(x == j * (4 * a) + (2 * a - 1)) by (nonlinear_arith)
            requires x == 4 * a * j + 2 * a - 1;
        lemma_fundamental_div_mod_converse(x as int, (4 * a) as int, j as int, 2 * a - 1);
    }
}

/// Every index is the index of exactly one node.
pub proof fn lemma_index_decompose(x: nat)
    ensures
        node_index(trailing_ones(x), x / exp2(trailing_ones(x) + 1)) == x,
    decreases x,
{
    let t = trailing_ones(x);
    if x % 2 == 1 {
        let y = x / 2;
        lemma_index_decompose(y);
        let ty = trailing_ones(y);
        assert(t == ty + 1);
        let jy = y / exp2(ty + 1);
        lemma_exp2_pos(ty);
        let a = exp2(ty);
        assert(exp2(ty + 1) == 2 * a);
        assert(exp2(t + 1) == 4 * a);
        assert(y == 2 * a * jy + a - 1);
        assert(x == 2 * y + 1);
        lemma_div_denominator(y as int, (2 * a) as int, 2);
        lemma_div_denominator(x as int, 2, (2 * a) as int);
        assert(x / 2 == y);
        assert(2 * (2 * a) == 4 * a) by (nonlinear_arith);
        assert(2 * a * 2 == 4 * a) by (nonlinear_arith);
        assert(x / (4 * a) == (x / 2) / (2 * a)) by {
            lemma_div_denominator(x as int, 2, (2 * a) as int);
        }
        assert(node_index(t, jy) == 4 * a * jy + 2 * a - 1);
        assert(4 * a * jy + 2 * a - 1 == 2 * (2 * a * jy + a - 1) + 1) by (nonlinear_arith);
    } else {
        assert(t == 0);
        reveal_with_fuel(exp2, 2);
        assert(exp2(1) == 2);
        assert(node_index(0, x / 2) == 2 * (x / 2));
    }
}

pub proof fn lemma_node_index_injective(t1: nat, j1: nat, t2: nat, j2: nat)
    requires node_index(t1, j1) == node_index(t2, j2),
    ensures t1 == t2, j1 == j2,
{
    lemma_node_index(t1, j1);
    lemma_node_index(t2, j2);
}


/// Seed (1 for the favourite) that occupies each leaf slot of a full bracket with
/// `2^d` entrants. Each level splits every slot into a pair so that the seeds of a
/// pair add up to one more than the number of entrants.
pub open spec fn seed_order(d: nat) -> Seq<int>
    decreases d,
{
    if d == 0 {
        seq![1int]
    } else {
        let s = seed_order((d - 1) as nat);
        let c = 2 * s.len() + 1;
        Seq::new(2 * s.len(), |q: int| if (q / 2) % 2 == q % 2 { s[q / 2] } else { c - s[q / 2] })
    }
}

pub proof fn lemma_seed_order_len(d: nat)
    ensures seed_order(d).len() == exp2(d),
    decreases d,
{
    if d > 0 { lemma_seed_order_len((d - 1) as nat); }
}

/// The seeds of a full bracket are exactly `1..=2^d`, each in one slot.
pub proof fn lemma_seed_order_permutation(d: nat)
    ensures
        seed_order(d).len() == exp2(d),
        forall|p: int| 0 <= p < exp2(d) ==> 1 <= #[trigger] seed_order(d)[p] <= exp2(d),
        forall|p: int, q: int| 0 <= p < exp2(d) && 0 <= q < exp2(d) && p != q
            ==> #[trigger] seed_order(d)[p] != #[trigger] seed_order(d)[q],
    decreases d,
{
    lemma_seed_order_len(d);
    if d > 0 {
        let dm = (d - 1) as nat;
        lemma_seed_order_permutation(dm);
        let s = seed_order(dm);
        let m = exp2(dm);
        assert(exp2(d) == 2 * m);
        let c = 2 * m + 1;
        assert forall|p: int| 0 <= p < exp2(d) implies 1 <= #[trigger] seed_order(d)[p] <= exp2(d) by {
            assert(0 <= p / 2 < m);
            assert(1 <= s[p / 2] <= m);
        }
        assert forall|p: int, q: int| 0 <= p < exp2(d) && 0 <= q < exp2(d) && p != q
            implies #[trigger] seed_order(d)[p] != #[trigger] seed_order(d)[q] by {
            assert(0 <= p / 2 < m);
            assert(0 <= q / 2 < m);
            assert(1 <= s[p / 2] <= m);
            assert(1 <= s[q / 2] <= m);
            if p / 2 != q / 2 {
                assert(s[p / 2] != s[q / 2]);
            } else {
                assert(p % 2 != q % 2);
            }
        }
    }
}

/// Every seed of a full bracket has a slot.
pub proof fn lemma_seed_order_onto(d: nat, v: int)
    requires 1 <= v <= exp2(d),
    ensures exists|p: int| 0 <= p < exp2(d) && #[trigger] seed_order(d)[p] == v,
    decreases d,
{
    lemma_seed_order_len(d);
    if d == 0 {
        assert(seed_order(d)[0] == v);
    } else {
        let dm = (d - 1) as nat;
        let s = seed_order(dm);
        let m = exp2(dm);
        lemma_seed_order_len(dm);
        let c = 2 * m + 1;
        let w = if v <= m { v } else { c - v };
        lemma_seed_order_onto(dm, w);
        let p = choose|p: int| 0 <= p < m && #[trigger] s[p] == w;
        let q = if (v <= m) == (p % 2 == 0) { 2 * p } else { 2 * p + 1 };
        assert(q / 2 == p);
        assert(seed_order(d)[q] == v);
    }
}

/// The two seeds that meet in a first-round pair add up to `2^d + 1`.
pub proof fn lemma_seed_order_pairs(d: nat, k: int)
    requires d >= 1, 0 <= k < exp2((d - 1) as nat),
    ensures seed_order(d)[2 * k] + seed_order(d)[2 * k + 1] == exp2(d) + 1,
{
    lemma_seed_order_len((d - 1) as nat);
    assert((2 * k) / 2 == k);
    assert((2 * k + 1) / 2 == k);
}

/// The favourite starts in the first slot and the second seed in the last, so
/// the two can only meet in the final.
pub proof fn lemma_top_seeds_apart(d: nat)
    requires d >= 1,
    ensures
        seed_order(d)[0] == 1,
        seed_order(d)[exp2(d) - 1] == 2,
    decreases d,
{
    let dm = (d - 1) as nat;
    lemma_seed_order_len(dm);
    let sp = seed_order(dm);
    let m = exp2(dm);
    let c = 2 * m + 1;
    lemma_exp2_pos(dm);
    let sd = seed_order(d);
    assert(sd == Seq::new(2 * sp.len(), |q: int| if (q / 2) % 2 == q % 2 { sp[q / 2] } else { c - sp[q / 2] }));
    assert(exp2(d) == 2 * m) by { reveal_with_fuel(exp2, 2); }
    assert(sd[0] == sp[0]);
    let last = 2 * m - 1;
    assert(last / 2 == m - 1);
    assert(sd[last] == if (m - 1) % 2 == 1 { sp[m - 1] } else { c - sp[m - 1] });
    if dm == 0 {
        assert(m == 1) by { reveal_with_fuel(exp2, 1); }
        assert(sp[0] == 1);
    } else {
        lemma_top_seeds_apart(dm);
        assert(m == 2 * exp2((dm - 1) as nat)) by { reveal_with_fuel(exp2, 2); }
        assert((m - 1) % 2 == 1);
    }
}

/// Sequence that alternates between `a` and `b`, starting with `a` and stopping
/// as soon as the side whose turn it is has nothing left.
pub open spec fn interleaved(a: Seq<i32>, b: Seq<i32>) -> Seq<i32> {
    let len = if a.len() <= b.len() { 2 * a.len() } else { 2 * b.len() + 1 };
    Seq::new(len, |k: int| if k % 2 == 0 { a[k / 2] } else { b[k / 2] })
}

pub open spec fn negated(a: Seq<i32>) -> Seq<i32> {
    a.map_values(|v: i32| (-v) as i32)
}

/// Alternating merge of two sequences of values.
pub struct Interleave {
    iter1: Vec<i32>,
    iter2: Vec<i32>,
    pos1: usize,
    pos2: usize,
    flag: bool,
}

impl Interleave {
    /// What the merge still has to give out of the first sequence.
    pub closed spec fn remaining1(&self) -> Seq<i32> {
        self.iter1@.subrange(self.pos1 as int, self.iter1@.len() as int)
    }

    /// What the merge still has to give out of the second sequence.
    pub closed spec fn remaining2(&self) -> Seq<i32> {
        self.iter2@.subrange(self.pos2 as int, self.iter2@.len() as int)
    }

    /// True when the next element comes from the second sequence.
    pub closed spec fn second_next(&self) -> bool {
        self.flag
    }

    pub closed spec fn well_formed(&self) -> bool {
        self.pos1 <= self.iter1@.len() && self.pos2 <= self.iter2@.len()
    }

    pub fn new(iter1: Vec<i32>, iter2: Vec<i32>) -> (r: Interleave)
        ensures
            r.well_formed(),
            r.remaining1() == iter1@,
            r.remaining2() == iter2@,
            !r.second_next(),
    {
        let r = Interleave { iter1, iter2, pos1: 0, pos2: 0, flag: false };
        proof {
            assert(r.remaining1() =~= r.iter1@);
            assert(r.remaining2() =~= r.iter2@);
        }
        r
    }

    /// Next element: alternately from the first and second sequence.
    pub fn next(&mut self) -> (r: Option<i32>)
        requires old(self).well_formed(),
        ensures
            final(self).well_formed(),
            final(self).second_next() == !old(self).second_next(),
            !old(self).second_next() ==> {
                &&& final(self).remaining2() == old(self).remaining2()
                &&& if old(self).remaining1().len() == 0 {
                    r is None && final(self).remaining1() == old(self).remaining1()
                } else {
                    r == Some(old(self).remaining1()[0])
                        && final(self).remaining1() == old(self).remaining1().drop_first()
                }
            },
            old(self).second_next() ==> {
                &&& final(self).remaining1() == old(self).remaining1()
                &&& if old(self).remaining2().len() == 0 {
                    r is None && final(self).remaining2() == old(self).remaining2()
                } else {
                    r == Some(old(self).remaining2()[0])
                        && final(self).remaining2() == old(self).remaining2().drop_first()
                }
            },
    {
        self.flag = !self.flag;
        if self.flag {
            if self.pos1 < self.iter1.len() {
                let v = self.iter1[self.pos1];
                self.pos1 = self.pos1 + 1;
                proof { assert(old(self).remaining1().drop_first() =~= self.remaining1()); }
                Some(v)
            } else {
                None
            }
        } else {
            if self.pos2 < self.iter2.len() {
                let v = self.iter2[self.pos2];
                self.pos2 = self.pos2 + 1;
                proof { assert(old(self).remaining2().drop_first() =~= self.remaining2()); }
                Some(v)
            } else {
                None
            }
        }
    }

    /// Lower bound and upper bound on the number of elements still to come: the
    /// lower bound adds both sides, the upper bound doubles the first side.
    pub fn size_hint(&self) -> (r: (usize, Option<usize>))
        requires
            self.well_formed(),
            self.remaining1().len() + self.remaining2().len() <= usize::MAX,
            2 * self.remaining1().len() <= usize::MAX,
        ensures
            r.0 == self.remaining1().len() + self.remaining2().len(),
            r.1 == Some((2 * self.remaining1().len()) as usize),
    {
        let h1 = self.iter1.len() - self.pos1;
        let h2 = self.iter2.len() - self.pos2;
        (h1 + h2, Some(h1 + h1))
    }
}

/// Replaces `dst` with the alternating merge of the negated `src` and the old
/// `dst`, and empties `src`.
pub fn interleave(src: &mut Vec<i32>, dst: &mut Vec<i32>)
    requires forall|k: int| 0 <= k < old(src).len() ==> old(src)[k] > i32::MIN,
    ensures
        final(src)@ == Seq::<i32>::empty(),
        final(dst)@ == interleaved(negated(old(src)@), old(dst)@),
{
    let mut neg: Vec<i32> = Vec::new();
    let mut i: usize = 0;
    while i < src.len()
        invariant
            i <= src.len(),
            src@ == old(src)@,
            forall|k: int| 0 <= k < old(src).len() ==> old(src)[k] > i32::MIN,
            neg@ == negated(old(src)@).subrange(0, i as int),
        decreases src.len() - i,
    {
        let v = src[i];
        neg.push(-v);
        i = i + 1;
        proof { assert(neg@ =~= negated(old(src)@).subrange(0, i as int)); }
    }
    src.clear();
    let mut second: Vec<i32> = Vec::new();
    std::mem::swap(&mut second, dst);
    let ghost a = negated(old(src)@);
    let ghost b = old(dst)@;
    proof { assert(neg@ =~= a); }
    let mut it = Interleave::new(neg, second);
    let mut out: Vec<i32> = Vec::new();
    loop
        invariant_except_break
            it.well_formed(),
            it.second_next() == (out.len() % 2 == 1),
            it.remaining1() == a.subrange(((out.len() + 1) / 2) as int, a.len() as int),
            it.remaining2() == b.subrange((out.len() / 2) as int, b.len() as int),
            (out.len() + 1) / 2 <= a.len(),
            out.len() / 2 <= b.len(),
            out@ == interleaved(a, b).subrange(0, out.len() as int),
            out.len() <= interleaved(a, b).len(),
        ensures out@ == interleaved(a, b),
        decreases a.len() + b.len() - out.len(),
    {
        match it.next() {
            Some(v) => {
                out.push(v);
                proof {
                    assert(out@ =~= interleaved(a, b).subrange(0, out.len() as int));
                    assert(it.remaining1() =~= a.subrange(((out.len() + 1) / 2) as int, a.len() as int));
                    assert(it.remaining2() =~= b.subrange((out.len() / 2) as int, b.len() as int));
                }
            },
            None => {
                proof { assert(out@ =~= interleaved(a, b)); }
                break;
            },
        }
    }
    *dst = out;
}


/// Level of the node at flat index `x`.
pub open spec fn level_of(x: nat) -> nat {
    trailing_ones(x)
}

/// Position within its level of the node at flat index `x`.
pub open spec fn pos_of(x: nat) -> nat {
    x / exp2(trailing_ones(x) + 1)
}

/// Number of entries of `s` that hold.
pub open spec fn count_true(s: Seq<bool>) -> nat
    decreases s.len(),
{
    if s.len() == 0 { 0 } else { count_true(s.drop_last()) + if s.last() { 1nat } else { 0nat } }
}

pub proof fn lemma_count_true_push(s: Seq<bool>, b: bool)
    ensures count_true(s.push(b)) == count_true(s) + if b { 1nat } else { 0nat },
{
    assert(s.push(b).drop_last() =~= s);
}

pub proof fn lemma_count_true_update(s: Seq<bool>, i: int, b: bool)
    requires 0 <= i < s.len(),
    ensures
        count_true(s.update(i, b)) + (if s[i] { 1nat } else { 0nat })
            == count_true(s) + (if b { 1nat } else { 0nat }),
    decreases s.len(),
{
    if i == s.len() - 1 {
        assert(s.update(i, b).drop_last() =~= s.drop_last());
    } else {
        lemma_count_true_update(s.drop_last(), i, b);
        assert(s.update(i, b).drop_last() =~= s.drop_last().update(i, b));
    }
}

pub proof fn lemma_count_true_two(s: Seq<bool>, i: int, k: int)
    requires 0 <= i < s.len(), 0 <= k < s.len(), i != k, s[i], s[k],
    ensures count_true(s) >= 2,
    decreases s.len(),
{
    if i == s.len() - 1 || k == s.len() - 1 {
        let o = if i == s.len() - 1 { k } else { i };
        lemma_count_true_one(s.drop_last(), o);
    } else {
        lemma_count_true_two(s.drop_last(), i, k);
    }
}

pub proof fn lemma_count_all_true(n: nat)
    ensures count_true(Seq::new(n, |i: int| true)) == n,
    decreases n,
{
    if n > 0 {
        lemma_count_all_true((n - 1) as nat);
        assert(Seq::new(n, |i: int| true).drop_last() =~= Seq::new((n - 1) as nat, |i: int| true));
    }
}

pub proof fn lemma_count_true_one(s: Seq<bool>, i: int)
    requires 0 <= i < s.len(), s[i],
    ensures count_true(s) >= 1,
    decreases s.len(),
{
    if i < s.len() - 1 {
        lemma_count_true_one(s.drop_last(), i);
    }
}

/// A node of a tournament bracket.
#[derive(Clone, Debug, PartialEq, Eq)]
pub struct Node<T: Clone> {
    pub item: T,
    pub disabled: bool,
    pub depth: usize,
    pub pair: usize,
}

impl<T: Clone> Node<T> {
    /// Level of the node in the bracket (first-round slots are level 0).
    pub open spec fn level(self) -> int {
        self.depth as int
    }

    /// Flat index of the node's opponent; `usize::MAX` for the final winner's slot.
    pub open spec fn partner(self) -> int {
        self.pair as int
    }
}

pub open spec fn is_enabled<T: Clone>(o: Option<Node<T>>) -> bool {
    o matches Some(n) && !n.disabled
}

pub open spec fn is_disabled_node<T: Clone>(o: Option<Node<T>>) -> bool {
    o matches Some(n) && n.disabled
}

/// Number of nodes that still take part in the tournament.
pub open spec fn enabled_count<T: Clone>(s: Seq<Option<Node<T>>>) -> nat {
    count_true(s.map_values(|o: Option<Node<T>>| is_enabled(o)))
}

pub open spec fn some_count<T>(s: Seq<Option<T>>) -> nat {
    count_true(s.map_values(|o: Option<T>| o is Some))
}

/// Flat index of the opponent of node `(t, j)` in a bracket of depth `d`.
pub open spec fn pair_of(d: nat, t: nat, j: nat) -> int {
    if t >= d { usize::MAX as int } else { pair_index(t, j) as int }
}

/// Number of entrants that skip the first round.
pub open spec fn byes(n: nat, d: nat) -> int {
    exp2(d) - n
}

/// The entrant that starts at node `(t, j)` of a bracket of depth `d` for `n`
/// entrants: first-round slots hold the seeds that play there; seeds with a bye
/// start one level higher; no other node starts with an entrant.
pub open spec fn starting_item<T>(items: Seq<T>, d: nat, t: nat, j: nat) -> Option<T> {
    let n = items.len();
    let s = seed_order(d);
    if t == 0 {
        let v = s[j as int];
        if byes(n, d) < v <= n { Some(items[v - 1]) } else { None }
    } else if t == 1 {
        let a = s[(2 * j) as int];
        let b = s[(2 * j + 1) as int];
        if a <= byes(n, d) { Some(items[a - 1]) } else if b <= byes(n, d) { Some(items[b - 1]) } else { None }
    } else {
        None
    }
}

/// The node at flat index `x` is where the seeding puts it.
pub open spec fn laid_out<T: Clone>(o: Option<Node<T>>, items: Seq<T>, default: T, d: nat, x: nat) -> bool {
    let t = level_of(x);
    let j = pos_of(x);
    match starting_item(items, d, t, j) {
        Some(it) => o matches Some(nd) && nd.item == it && !nd.disabled && nd.level() == t
            && nd.partner() == pair_of(d, t, j),
        None => if t == 0 {
            o is None
        } else {
            o matches Some(nd) && nd.disabled && nd.level() == t && nd.partner() == pair_of(d, t, j)
                && cloned(default, nd.item)
        },
    }
}

/// Entrants numbered by their seed minus one.
pub open spec fn entrant_ids(n: nat) -> Seq<int> {
    Seq::new(n, |i: int| i)
}

/// Every entrant starts the tournament at exactly one node.
#[verifier::spinoff_prover]
#[verifier::rlimit(40)]
pub proof fn lemma_each_entrant_starts_once(n: nat, d: nat, k: int)
    requires
        1 <= n,
        exp2(d) >= n,
        d == 0 || exp2((d - 1) as nat) < n,
        d <= 29,
        0 <= k < n,
    ensures
        exists|x: nat| x < exp2(d + 1) - 1
            && #[trigger] starting_item(entrant_ids(n), d, level_of(x), pos_of(x)) == Some(k),
        forall|x1: nat, x2: nat| x1 < exp2(d + 1) - 1 && x2 < exp2(d + 1) - 1
            && #[trigger] starting_item(entrant_ids(n), d, level_of(x1), pos_of(x1)) == Some(k)
            && #[trigger] starting_item(entrant_ids(n), d, level_of(x2), pos_of(x2)) == Some(k)
            ==> x1 == x2,
{
    let ids = entrant_ids(n);
    let sd = seed_order(d);
    lemma_seed_order_permutation(d);
    lemma_seed_order_onto(d, k + 1);
    let p = seed_slot(d, k + 1);
    assert(sd[p] == k + 1);
    lemma_exp2_pos(d);
    assert(exp2(d + 1) == 2 * exp2(d)) by { reveal_with_fuel(exp2, 2); }
    if d == 0 {
        assert(p == 0);
        lemma_node_index(0, 0);
        assert(node_index(0, 0) == 0);
        assert(starting_item(ids, d, level_of(0), pos_of(0)) == Some(k));
    } else {
        assert(exp2(d) == 2 * exp2((d - 1) as nat)) by { reveal_with_fuel(exp2, 2); }
        if k + 1 > byes(n, d) {
            let x = node_index(0, p as nat);
            lemma_node_index(0, p as nat);
            lemma_node_in_range(d, 0, p as nat);
            assert(starting_item(ids, d, level_of(x), pos_of(x)) == Some(k));
        } else {
            let q = p / 2;
            let x = node_index(1, q as nat);
            lemma_node_index(1, q as nat);
            lemma_div_exp2_bound(p as nat, 1, (d - 1) as nat);
            assert(exp2(1) == 2) by { reveal_with_fuel(exp2, 2); }
            lemma_exp2_add(1, (d - 1) as nat);
            assert((1 + (d - 1)) as nat == d);
            lemma_node_in_range(d, 1, q as nat);
            lemma_pair_seeds(d, q as nat, n);
            assert(p == 2 * q || p == 2 * q + 1);
            assert(starting_item(ids, d, level_of(x), pos_of(x)) == Some(k));
        }
    }
    assert forall|x1: nat, x2: nat| x1 < exp2(d + 1) - 1 && x2 < exp2(d + 1) - 1
        && #[trigger] starting_item(ids, d, level_of(x1), pos_of(x1)) == Some(k)
        && #[trigger] starting_item(ids, d, level_of(x2), pos_of(x2)) == Some(k)
        implies x1 == x2 by {
        lemma_valid_coords(d, x1);
        lemma_valid_coords(d, x2);
        lemma_index_decompose(x1);
        lemma_index_decompose(x2);
        let t1 = level_of(x1);
        let j1 = pos_of(x1);
        let t2 = level_of(x2);
        let j2 = pos_of(x2);
        if t1 == 1 {
            lemma_div_exp2_bound(j1, 0, (d - 1) as nat);
            assert(2 * j1 + 1 < exp2(d)) by {
                assert(exp2(d) == 2 * exp2((d - 1) as nat)) by { reveal_with_fuel(exp2, 2); }
            }
            lemma_pair_seeds(d, j1, n);
        }
        if t2 == 1 {
            assert(2 * j2 + 1 < exp2(d)) by {
                assert(exp2(d) == 2 * exp2((d - 1) as nat)) by { reveal_with_fuel(exp2, 2); }
            }
            lemma_pair_seeds(d, j2, n);
        }
        if t1 == 0 { assert(j1 < exp2(d)) by { assert((d - 0) as nat == d); } }
        if t2 == 0 { assert(j2 < exp2(d)) by { assert((d - 0) as nat == d); } }
        assert(t1 == t2);
        assert(j1 == j2);
    }
}

/// Structure that every bracket keeps while it is played: the node fields agree
/// with the node's position, every parent slot exists, and a node that still takes
/// part has no ancestor that takes part.
pub open spec fn shape_ok<T: Clone>(s: Seq<Option<Node<T>>>, d: nat) -> bool {
    &&& s.len() == exp2(d + 1) - 1
    &&& forall|x: int| 0 <= x < s.len() ==> node_fields_ok(#[trigger] s[x], d, x as nat)
    &&& forall|x: int| 0 <= x < s.len() && is_enabled(#[trigger] s[x]) ==> ancestors_disabled(s, d, x as nat)
}

/// Every node above `x`, up to the final, exists and no longer takes part.
pub open spec fn ancestors_disabled<T: Clone>(s: Seq<Option<Node<T>>>, d: nat, x: nat) -> bool {
    forall|k: nat| 1 <= k <= d - level_of(x)
        ==> is_disabled_node(s[#[trigger] ancestor_index(level_of(x), pos_of(x), k) as int])
}

pub open spec fn node_fields_ok<T: Clone>(o: Option<Node<T>>, d: nat, x: nat) -> bool {
    &&& level_of(x) >= 1 ==> o is Some
    &&& o matches Some(nd) ==> nd.level() == level_of(x) && nd.partner() == pair_of(d, level_of(x), pos_of(x))
}

/// A single-elimination bracket stored as a flat tree: leaves at even indexes,
/// each parent between its two children, the final at the middle.
pub struct TournamentBracket<T: Clone> {
    pub depth: usize,
    pub complete_depth: usize,
    pub initial_data: Vec<Option<Node<T>>>,
    pub data: Vec<Option<Node<T>>>,
    pub finished: Vec<Option<T>>,
    pub finished_index: usize,
}

impl<T: Clone> TournamentBracket<T> {
    /// Number of levels above the first round.
    pub open spec fn tree_depth(&self) -> nat {
        self.depth as nat
    }

    /// Entrants in order of elimination, the winner first; `None` where unknown.
    pub open spec fn results(&self) -> Seq<Option<T>> {
        self.finished@
    }

    /// Next free place in the results, counted from the last.
    pub open spec fn next_place(&self) -> int {
        self.finished_index as int
    }

    pub open spec fn start_data(&self) -> Seq<Option<Node<T>>> {
        self.initial_data@
    }

    /// Invariant kept by every operation on the bracket.
    pub closed spec fn well_formed(&self) -> bool {
        let d = self.depth as nat;
        let n = self.finished@.len();
        &&& d <= 29
        &&& self.complete_depth <= d <= self.complete_depth + 1
        &&& n >= 1
        &&& shape_ok(self.data@, d)
        &&& shape_ok(self.initial_data@, d)
        &&& self.finished_index < n
        &&& enabled_count(self.data@) <= self.finished_index + 1
        &&& enabled_count(self.initial_data@) <= n
    }
}


pub proof fn lemma_exp2_64()
    ensures exp2(64) == 0x1_0000_0000_0000_0000,
{
    reveal_with_fuel(exp2, 65);
}

pub proof fn lemma_exp2_30()
    ensures exp2(29) == 0x2000_0000, exp2(30) == 0x4000_0000, exp2(31) == 0x8000_0000,
{
    reveal_with_fuel(exp2, 32);
}

/// `2^e` for small `e`.
fn pow2(e: usize) -> (r: usize)
    requires e <= 31,
    ensures r == exp2(e as nat),
{
    let mut r: usize = 1;
    let mut i: usize = 0;
    while i < e
        invariant i <= e, e <= 31, r == exp2(i as nat),
        decreases e - i,
    {
        proof {
            lemma_exp2_monotone((i + 1) as nat, 31);
            lemma_exp2_30();
        }
        r = r * 2;
        i = i + 1;
    }
    r
}

/// Level and position of the node at flat index `x`.
fn node_coords(x: usize) -> (r: (usize, usize))
    ensures
        r.0 == level_of(x as nat),
        r.1 == pos_of(x as nat),
        node_index(r.0 as nat, r.1 as nat) == x,
{
    let mut y = x;
    let mut t: usize = 0;
    proof {
        reveal_with_fuel(exp2, 1);
        assert(exp2(0) == 1);
        assert(x + 1 == exp2(0) * (y + 1));
    }
    while y % 2 == 1
        invariant
            x + 1 == exp2(t as nat) * (y + 1),
            exp2(t as nat) <= x + 1,
            t <= 64,
            y <= x,
        decreases y,
    {
        proof {
            lemma_exp2_pos(t as nat);
            let a = exp2(t as nat);
            assert(exp2((t + 1) as nat) == 2 * a);
            let yy = y / 2;
            assert(y + 1 == 2 * (yy + 1));
            assert(x + 1 == (2 * a) * (yy + 1)) by (nonlinear_arith)
                requires x + 1 == a * (y + 1), y + 1 == 2 * (yy + 1);
            assert(2 * a <= x + 1) by (nonlinear_arith)
                requires x + 1 == (2 * a) * (yy + 1), a >= 1;
            if t >= 64 {
                lemma_exp2_monotone(64, t as nat);
                lemma_exp2_64();
            }
        }
        y = y / 2;
        t = t + 1;
    }
    let j = y / 2;
    proof {
        lemma_exp2_pos(t as nat);
        let a = exp2(t as nat);
        assert(exp2((t + 1) as nat) == 2 * a);
        assert(y == 2 * j);
        assert(x == (2 * a) * j + a - 1) by (nonlinear_arith)
            requires x + 1 == a * (y + 1), y == 2 * j;
        assert(node_index(t as nat, j as nat) == x);
        lemma_node_index(t as nat, j as nat);
    }
    (t, j)
}

/// Seeds of a full bracket with `2^depth` entrants, slot by slot.
#[verifier::rlimit(40)]
fn seed_slots(depth: usize) -> (r: Vec<i32>)
    requires depth <= 29,
    ensures
        r.len() == exp2(depth as nat),
        forall|p: int| 0 <= p < r.len() ==> r[p] as int == seed_order(depth as nat)[p],
{
    let mut cur: Vec<i32> = Vec::new();
    cur.push(1);
    let mut d: usize = 0;
    proof {
        reveal_with_fuel(exp2, 1);
        assert(cur@[0] == seed_order(0)[0]);
    }
    while d < depth
        invariant
            d <= depth,
            depth <= 29,
            cur.len() == exp2(d as nat),
            forall|p: int| 0 <= p < cur.len() ==> cur[p] as int == seed_order(d as nat)[p],
        decreases depth - d,
    {
        proof {
            lemma_seed_order_permutation(d as nat);
            lemma_exp2_monotone(d as nat, 28);
            lemma_exp2_30();
            reveal_with_fuel(exp2, 30);
        }
        let m = cur.len();
        let c: i32 = (2 * m + 1) as i32;
        let mut neg_left: Vec<i32> = Vec::new();
        let mut right: Vec<i32> = Vec::new();
        let ghost s = seed_order(d as nat);
        let mut p: usize = 0;
        while p < m
            invariant
                p <= m,
                m == cur.len(),
                m <= 0x1000_0000,
                c == 2 * m + 1,
                s == seed_order(d as nat),
                s.len() == m,
                forall|q: int| 0 <= q < m ==> cur[q] as int == s[q],
                forall|q: int| 0 <= q < m ==> 1 <= #[trigger] s[q] <= m,
                neg_left.len() == p,
                right.len() == p,
                forall|q: int| 0 <= q < p ==> #[trigger] neg_left[q] as int
                    == -(if q % 2 == 0 { s[q] } else { c - s[q] }),
                forall|q: int| 0 <= q < p ==> #[trigger] right[q] as int
                    == (if q % 2 == 0 { c - s[q] } else { s[q] }),
            decreases m - p,
        {
            let x = cur[p];
            assert(1 <= s[p as int] <= m);
            if p % 2 == 0 {
                neg_left.push(-x);
                right.push(c - x);
            } else {
                neg_left.push(-(c - x));
                right.push(x);
            }
            p = p + 1;
        }
        let ghost old_left = neg_left@;
        let ghost old_right = right@;
        interleave(&mut neg_left, &mut right);
        proof {
            let nxt = seed_order((d + 1) as nat);
            assert(exp2((d + 1) as nat) == 2 * m);
            assert(right.len() == 2 * m);
            assert forall|q: int| 0 <= q < right.len() implies right[q] as int == nxt[q] by {
                let k = q / 2;
                assert(0 <= k < m);
                if q % 2 == 0 {
                    assert(right[q] == negated(old_left)[k]);
                } else {
                    assert(right[q] == old_right[k]);
                }
            }
        }
        cur = right;
        d = d + 1;
    }
    cur
}


/// A flat index inside a bracket of depth `d` names a node of that bracket.
pub proof fn lemma_valid_coords(d: nat, x: nat)
    requires x < exp2(d + 1) - 1,
    ensures
        level_of(x) <= d,
        pos_of(x) < exp2((d - level_of(x)) as nat),
{
    lemma_index_decompose(x);
    let t = level_of(x);
    let j = pos_of(x);
    lemma_exp2_pos(t);
    lemma_exp2_pos(d);
    let a = exp2(t);
    assert(exp2(t + 1) == 2 * a);
    assert(x == 2 * a * j + a - 1);
    if t > d {
        lemma_exp2_monotone(d + 1, t);
        assert(a >= exp2(d + 1));
        assert(2 * a * j + a - 1 >= a - 1) by (nonlinear_arith) requires a >= 1;
        assert(false);
    }
    let r = (d - t) as nat;
    lemma_exp2_add(t + 1, r);
    assert((t + 1 + r) as nat == d + 1);
    let e = exp2(r);
    assert(exp2(d + 1) == 2 * a * e);
    if j >= e {
        assert(2 * a * j + a - 1 >= 2 * a * e + a - 1) by (nonlinear_arith) requires j >= e, a >= 1;
        assert(false);
    }
}

/// Every node `(t, j)` of a bracket of depth `d` has a flat index inside it.
pub proof fn lemma_node_in_range(d: nat, t: nat, j: nat)
    requires t <= d, j < exp2((d - t) as nat),
    ensures node_index(t, j) < exp2(d + 1) - 1,
{
    let r = (d - t) as nat;
    lemma_exp2_pos(t);
    let a = exp2(t);
    assert(exp2(t + 1) == 2 * a);
    lemma_exp2_add(t + 1, r);
    assert((t + 1 + r) as nat == d + 1);
    let e = exp2(r);
    assert(exp2(d + 1) == 2 * a * e);
    assert(2 * a * j + a - 1 < 2 * a * e - 1) by (nonlinear_arith) requires j + 1 <= e, a >= 1;
}

/// Level and position of an ancestor.
pub proof fn lemma_ancestor_coords(t: nat, j: nat, k: nat)
    ensures
        level_of(ancestor_index(t, j, k)) == t + k,
        pos_of(ancestor_index(t, j, k)) == j / exp2(k),
{
    lemma_exp2_pos(k);
    lemma_node_index(t + k, j / exp2(k));
}

/// Slot of seed `v` in a full bracket with `2^d` entrants.
pub open spec fn seed_slot(d: nat, v: int) -> int {
    choose|p: int| 0 <= p < exp2(d) && seed_order(d)[p] == v
}

pub proof fn lemma_seed_slot(d: nat, v: int, p: int)
    requires 1 <= v <= exp2(d), 0 <= p < exp2(d), seed_order(d)[p] == v,
    ensures seed_slot(d, v) == p,
{
    lemma_seed_order_onto(d, v);
    lemma_seed_order_permutation(d);
    let q = seed_slot(d, v);
    assert(seed_order(d)[q] == v);
}


pub proof fn lemma_div_exp2_bound(j: nat, k: nat, r: nat)
    requires j < exp2(k + r),
    ensures j / exp2(k) < exp2(r),
{
    lemma_exp2_add(k, r);
    lemma_exp2_pos(k);
    lemma_exp2_pos(r);
    let a = exp2(k);
    let b = exp2(r);
    let q = j / a;
    assert(j >= a * q) by (nonlinear_arith) requires a > 0, q == j / a, j >= 0;
    if q >= b {
        assert(a * q >= a * b) by (nonlinear_arith) requires q >= b, a > 0;
        assert(false);
    }
}

/// A bracket laid out by the seeding has the shape that play keeps.
pub proof fn lemma_layout_shape<T: Clone>(data: Seq<Option<Node<T>>>, items: Seq<T>, default: T, d: nat)
    requires
        items.len() >= 1,
        exp2(d) >= items.len(),
        d == 0 || exp2((d - 1) as nat) < items.len(),
        data.len() == exp2(d + 1) - 1,
        forall|x: int| 0 <= x < data.len() ==> laid_out(#[trigger] data[x], items, default, d, x as nat),
    ensures shape_ok(data, d),
{
    let n = items.len();
    lemma_seed_order_permutation(d);
    assert forall|x: int| 0 <= x < data.len() implies node_fields_ok(#[trigger] data[x], d, x as nat) by {
        assert(laid_out(data[x], items, default, d, x as nat));
    }
    assert forall|x: int| 0 <= x < data.len() && is_enabled(#[trigger] data[x])
        implies ancestors_disabled(data, d, x as nat) by {
        assert(laid_out(data[x], items, default, d, x as nat));
        let t = level_of(x as nat);
        let j = pos_of(x as nat);
        lemma_valid_coords(d, x as nat);
        assert forall|k: nat| 1 <= k <= d - level_of(x as nat) implies
            is_disabled_node(data[#[trigger] ancestor_index(level_of(x as nat), pos_of(x as nat), k) as int]) by {
            let y = ancestor_index(t, j, k);
            lemma_ancestor_coords(t, j, k);
            let r = (d - t - k) as nat;
            assert((k + r) as nat == (d - t) as nat);
            lemma_div_exp2_bound(j, k, r);
            lemma_node_in_range(d, t + k, j / exp2(k));
            assert(laid_out(data[y as int], items, default, d, y));
            if t + k == 1 {
                reveal_with_fuel(exp2, 2);
                assert(t == 0 && k == 1);
                assert(exp2(1) == 2);
                let jj = j / 2;
                assert(d >= 1);
                lemma_exp2_add(1, (d - 1) as nat);
                assert(jj < exp2((d - 1) as nat)) by {
                    lemma_div_exp2_bound(j, 1, (d - 1) as nat);
                }
                lemma_seed_order_pairs(d, jj as int);
                let v = seed_order(d)[j as int];
                assert(byes(n, d) < v <= n);
                assert(j == 2 * jj || j == 2 * jj + 1);
            }
        }
    }
}


/// The nodes of `b` sit where those of `a` sit and play the same way; their
/// entrants are clones.
pub open spec fn same_shape<T: Clone>(a: Seq<Option<Node<T>>>, b: Seq<Option<Node<T>>>) -> bool {
    &&& a.len() == b.len()
    &&& forall|x: int| 0 <= x < a.len() ==> #[trigger] same_node(a[x], b[x])
}

pub open spec fn same_node<T: Clone>(a: Option<Node<T>>, b: Option<Node<T>>) -> bool {
    match (a, b) {
        (None, None) => true,
        (Some(m), Some(n)) => m.disabled == n.disabled && m.depth == n.depth && m.pair == n.pair
            && cloned(m.item, n.item),
        _ => false,
    }
}

pub proof fn lemma_same_shape<T: Clone>(a: Seq<Option<Node<T>>>, b: Seq<Option<Node<T>>>, d: nat)
    requires same_shape(a, b), shape_ok(a, d),
    ensures
        shape_ok(b, d),
        enabled_count(b) == enabled_count(a),
{
    assert forall|x: int| 0 <= x < b.len() implies node_fields_ok(#[trigger] b[x], d, x as nat) by {
        assert(same_node(a[x], b[x]));
        assert(node_fields_ok(a[x], d, x as nat));
    }
    assert forall|x: int| 0 <= x < b.len() && is_enabled(#[trigger] b[x])
        implies ancestors_disabled(b, d, x as nat) by {
        assert(same_node(a[x], b[x]));
        assert(ancestors_disabled(a, d, x as nat));
        assert forall|k: nat| 1 <= k <= d - level_of(x as nat) implies
            is_disabled_node(b[#[trigger] ancestor_index(level_of(x as nat), pos_of(x as nat), k) as int]) by {
            let y = ancestor_index(level_of(x as nat), pos_of(x as nat), k);
            lemma_valid_coords(d, x as nat);
            lemma_ancestor_coords(level_of(x as nat), pos_of(x as nat), k);
            let r = (d - level_of(x as nat) - k) as nat;
            assert((k + r) as nat == (d - level_of(x as nat)) as nat);
            lemma_div_exp2_bound(pos_of(x as nat), k, r);
            lemma_node_in_range(d, level_of(x as nat) + k, pos_of(x as nat) / exp2(k));
            assert(is_disabled_node(a[y as int]));
            assert(same_node(a[y as int], b[y as int]));
        }
    }
    let f = |o: Option<Node<T>>| is_enabled(o);
    assert(a.map_values(f) =~= b.map_values(f)) by {
        assert forall|x: int| 0 <= x < a.len() implies a.map_values(f)[x] == b.map_values(f)[x] by {
            assert(same_node(a[x], b[x]));
        }
    }
}

fn copy_node<T: Clone>(o: &Option<Node<T>>) -> (r: Option<Node<T>>)
    ensures same_node(*o, r),
{
    match o {
        None => None,
        Some(n) => Some(Node { item: n.item.clone(), disabled: n.disabled, depth: n.depth, pair: n.pair }),
    }
}

fn copy_nodes<T: Clone>(v: &Vec<Option<Node<T>>>) -> (r: Vec<Option<Node<T>>>)
    ensures same_shape(v@, r@),
{
    let mut r: Vec<Option<Node<T>>> = Vec::new();
    let mut i: usize = 0;
    while i < v.len()
        invariant
            i <= v.len(),
            r.len() == i,
            forall|x: int| 0 <= x < i ==> #[trigger] same_node(v@[x], r@[x]),
        decreases v.len() - i,
    {
        let c = copy_node(&v[i]);
        r.push(c);
        i = i + 1;
    }
    r
}

fn take_item<T>(v: &mut Vec<Option<T>>, i: usize) -> (r: T)
    requires i < old(v).len(), old(v)[i as int] is Some,
    ensures
        Some(r) == old(v)[i as int],
        final(v)@ == old(v)@.update(i as int, None),
{
    v[i].take().unwrap()
}

pub proof fn lemma_some_count_take<T>(s: Seq<Option<T>>, i: int)
    requires 0 <= i < s.len(), s[i] is Some,
    ensures some_count(s.update(i, None)) + 1 == some_count(s),
{
    let f = |o: Option<T>| o is Some;
    assert(s.update(i, None).map_values(f) =~= s.map_values(f).update(i, false));
    lemma_count_true_update(s.map_values(f), i, false);
}

pub proof fn lemma_enabled_count_push<T: Clone>(s: Seq<Option<Node<T>>>, o: Option<Node<T>>)
    ensures enabled_count(s.push(o)) == enabled_count(s) + if is_enabled(o) { 1nat } else { 0nat },
{
    let f = |o: Option<Node<T>>| is_enabled(o);
    assert(s.push(o).map_values(f) =~= s.map_values(f).push(is_enabled(o)));
    lemma_count_true_push(s.map_values(f), is_enabled(o));
}


/// An entrant held, as a multiset of one; none for an empty slot.
pub open spec fn slot_items<T>(o: Option<T>) -> Multiset<T> {
    match o {
        Some(x) => Multiset::singleton(x),
        None => Multiset::empty(),
    }
}

pub proof fn lemma_placed_items_update<T>(f: Seq<Option<T>>, k: int, v: Option<T>)
    requires
        0 <= k < f.len(),
    ensures
        placed_items(f.update(k, v)).add(slot_items(f[k])) == placed_items(f).add(slot_items(v)),
    decreases f.len(),
{
    let u = f.update(k, v);
    let d = f.drop_last();
    assert(placed_items(u) == placed_items(u.drop_last()).add(slot_items(u.last())));
    assert(placed_items(f) == placed_items(d).add(slot_items(f.last())));
    if k == f.len() - 1 {
        assert(u.drop_last() =~= d);
        assert(placed_items(u).add(slot_items(f[k])) =~= placed_items(f).add(slot_items(v)));
    } else {
        lemma_placed_items_update(d, k, v);
        assert(u.drop_last() =~= d.update(k, v));
        assert(d[k] == f[k]);
        let ih_l = placed_items(d.update(k, v)).add(slot_items(f[k]));
        let ih_r = placed_items(d).add(slot_items(v));
        assert forall|y: T| #[trigger] placed_items(u).add(slot_items(f[k])).count(y) == placed_items(f).add(
            slot_items(v),
        ).count(y) by {
            assert(ih_l.count(y) == ih_r.count(y));
        }
        assert(placed_items(u).add(slot_items(f[k])) =~= placed_items(f).add(slot_items(v)));
    }
}

/// A pool holding every entrant holds them all as a multiset.
pub proof fn lemma_placed_all<T>(f: Seq<Option<T>>, all: Seq<T>)
    requires
        f.len() == all.len(),
        forall|i: int| 0 <= i < f.len() ==> #[trigger] f[i] == Some(all[i]),
    ensures
        placed_items(f) == all.to_multiset(),
    decreases f.len(),
{
    broadcast use vstd::seq_lib::group_to_multiset_ensures;
    if f.len() == 0 {
        assert(all.to_multiset() =~= Multiset::<T>::empty());
    } else {
        let l = all.len() - 1;
        lemma_placed_all(f.drop_last(), all.drop_last());
        assert(all.drop_last().push(all[l]) =~= all);
        assert(placed_items(f) =~= all.to_multiset());
    }
}

/// A pool holding no entrant holds none.
pub proof fn lemma_placed_none<T>(f: Seq<Option<T>>)
    requires
        forall|i: int| 0 <= i < f.len() ==> #[trigger] f[i] is None,
    ensures
        placed_items(f) == Multiset::<T>::empty(),
    decreases f.len(),
{
    if f.len() > 0 {
        lemma_placed_none(f.drop_last());
        assert(placed_items(f) =~= Multiset::<T>::empty());
    }
}

pub proof fn lemma_enabled_items_push<T: Clone>(s: Seq<Option<Node<T>>>, o: Option<Node<T>>)
    ensures
        enabled_items(s.push(o)) == enabled_items(s).add(node_items(o)),
{
    assert(s.push(o).drop_last() =~= s);
}

/// Entrants not placed yet: those whose seed has a slot at or after `next_slot`.
pub open spec fn pool_ok<T>(pool: Seq<Option<T>>, all: Seq<T>, d: nat, next_slot: int) -> bool {
    &&& pool.len() == all.len()
    &&& forall|i: int| 0 <= i < all.len() ==> #[trigger] pool[i]
        == if seed_slot(d, i + 1) < next_slot { None } else { Some(all[i]) }
}

/// The pool after the valid seeds among `a` and `b` were taken out.
pub open spec fn pool_after<T>(pool: Seq<Option<T>>, a: int, b: int) -> Seq<Option<T>> {
    let n = pool.len();
    let p1 = if a <= n { pool.update(a - 1, None) } else { pool };
    if b <= n { p1.update(b - 1, None) } else { p1 }
}

pub proof fn lemma_pair_seeds(d: nat, q: nat, n: nat)
    requires
        1 <= d <= 29,
        exp2((d - 1) as nat) < n <= exp2(d),
        2 * q + 1 < exp2(d),
    ensures ({
        let a = seed_order(d)[2 * q as int];
        let b = seed_order(d)[(2 * q + 1) as int];
        let byes = byes(n, d);
        &&& a + b == exp2(d) + 1
        &&& 1 <= a <= exp2(d) && 1 <= b <= exp2(d)
        &&& a != b
        &&& 0 <= byes < n
        &&& a <= byes ==> b > n
        &&& b <= byes ==> a > n
        &&& a > n ==> b <= byes
        &&& b > n ==> a <= byes
        &&& (byes < a <= n) ==> (byes < b <= n)
        &&& (byes < b <= n) ==> (byes < a <= n)
    }),
{
    reveal_with_fuel(exp2, 2);
    assert(exp2(d) == 2 * exp2((d - 1) as nat));
    lemma_seed_order_permutation(d);
    lemma_seed_order_pairs(d, q as int);
}

pub proof fn lemma_pool_step<T>(pool: Seq<Option<T>>, all: Seq<T>, d: nat, q: nat)
    requires
        pool_ok(pool, all, d, (2 * q) as int),
        1 <= d <= 29,
        exp2((d - 1) as nat) < all.len() <= exp2(d),
        2 * q + 1 < exp2(d),
    ensures ({
        let a = seed_order(d)[2 * q as int];
        let b = seed_order(d)[(2 * q + 1) as int];
        &&& pool_ok(pool_after(pool, a, b), all, d, (2 * q + 2) as int)
        &&& a <= all.len() ==> pool[a - 1] == Some(all[a - 1])
        &&& b <= all.len() ==> pool[b - 1] == Some(all[b - 1])
        &&& some_count(pool_after(pool, a, b)) + (if a <= all.len() { 1nat } else { 0nat })
            + (if b <= all.len() { 1nat } else { 0nat }) == some_count(pool)
    }),
{
    let n = all.len();
    let sd = seed_order(d);
    let a = sd[2 * q as int];
    let b = sd[(2 * q + 1) as int];
    lemma_pair_seeds(d, q, n);
    if a <= n { lemma_seed_slot(d, a, 2 * q as int); }
    if b <= n { lemma_seed_slot(d, b, (2 * q + 1) as int); }
    let p1 = if a <= n { pool.update(a - 1, None) } else { pool };
    if a <= n { lemma_some_count_take(pool, a - 1); }
    if b <= n {
        assert(p1[b - 1] == pool[b - 1]);
        lemma_some_count_take(p1, b - 1);
    }
    let pa = pool_after(pool, a, b);
    assert forall|i: int| 0 <= i < n implies #[trigger] pa[i]
        == if seed_slot(d, i + 1) < (2 * q + 2) as int { None } else { Some(all[i]) } by {
        lemma_seed_order_onto(d, i + 1);
        assert(sd[seed_slot(d, i + 1)] == i + 1);
        assert(pool[i] == if seed_slot(d, i + 1) < (2 * q) as int { None } else { Some(all[i]) });
    }
}

/// Places the entrants of the first-round pair `q` and the nodes between this pair
/// and the next one.
#[verifier::rlimit(40)]
fn place_pair<T: Clone>(
    data: &mut Vec<Option<Node<T>>>,
    pool: &mut Vec<Option<T>>,
    default: &T,
    q: usize,
    a: usize,
    b: usize,
    depth: usize,
    byes: usize,
    last: bool,
    Ghost(all): Ghost<Seq<T>>,
)
    requires
        1 <= depth <= 29,
        exp2((depth - 1) as nat) < all.len() <= exp2(depth as nat),
        byes == exp2(depth as nat) - all.len(),
        2 * q + 1 < exp2(depth as nat),
        last == (2 * q + 2 == exp2(depth as nat)),
        a == seed_order(depth as nat)[2 * q],
        b == seed_order(depth as nat)[2 * q + 1],
        old(data).len() == 4 * q,
        forall|x: int| 0 <= x < old(data).len()
            ==> laid_out(#[trigger] old(data)@[x], all, *default, depth as nat, x as nat),
        pool_ok(old(pool)@, all, depth as nat, 2 * q),
    ensures
        final(data).len() == 4 * q + if last { 3int } else { 4int },
        forall|x: int| 0 <= x < final(data).len()
            ==> laid_out(#[trigger] final(data)@[x], all, *default, depth as nat, x as nat),
        pool_ok(final(pool)@, all, depth as nat, 2 * q + 2),
        enabled_count(final(data)@) + some_count(final(pool)@)
            == enabled_count(old(data)@) + some_count(old(pool)@),
        enabled_items(final(data)@).add(placed_items(final(pool)@))
            == enabled_items(old(data)@).add(placed_items(old(pool)@)),
{
    let ghost d = depth as nat;
    let ghost n = all.len();
    let ghost data0 = data@;
    let ghost pool0 = pool@;
    proof {
        lemma_exp2_30();
        lemma_exp2_monotone(d, 29);
        lemma_pair_seeds(d, q as nat, n);
        lemma_pool_step(pool0, all, d, q as nat);
        lemma_small_nodes(q as nat);
    }
    let n_items = pool.len();
    let ghost mut acc: Multiset<T> = Multiset::empty();
    proof {
        assert(placed_items(pool@).add(acc) =~= placed_items(pool0));
    }
    // first-round slot of seed a
    let x0: Option<Node<T>> = if byes < a && a <= n_items {
        let ghost pb = pool@;
        let it = take_item(pool, a - 1);
        proof {
            lemma_placed_items_update(pb, a - 1, None);
            acc = acc.add(Multiset::singleton(it));
            assert(placed_items(pool@).add(acc) =~= placed_items(pool0));
        }
        Some(Node { item: it, disabled: false, depth: 0, pair: 4 * q + 2 })
    } else {
        None
    };
    let ghost acc0 = acc;
    proof {
        assert(placed_items(pool@).add(acc) == placed_items(pool0));
    }
    // second-round slot, where a seed with a bye starts
    let pair1 = if depth == 1 { usize::MAX } else if q % 2 == 0 { 4 * q + 5 } else { 4 * q - 3 };
    let x1: Option<Node<T>> = if a <= byes {
        let ghost pb = pool@;
        let it = take_item(pool, a - 1);
        proof {
            lemma_placed_items_update(pb, a - 1, None);
            acc = acc.add(Multiset::singleton(it));
            assert(placed_items(pool@).add(acc) =~= placed_items(pool0));
        }
        Some(Node { item: it, disabled: false, depth: 1, pair: pair1 })
    } else if b <= byes {
        let ghost pb = pool@;
        let it = take_item(pool, b - 1);
        proof {
            lemma_placed_items_update(pb, b - 1, None);
            acc = acc.add(Multiset::singleton(it));
            assert(placed_items(pool@).add(acc) =~= placed_items(pool0));
        }
        Some(Node { item: it, disabled: false, depth: 1, pair: pair1 })
    } else {
        Some(Node { item: default.clone(), disabled: true, depth: 1, pair: pair1 })
    };
    let ghost acc1 = acc;
    proof {
        assert(placed_items(pool@).add(acc) == placed_items(pool0));
    }
    // first-round slot of seed b
    let x2: Option<Node<T>> = if byes < b && b <= n_items {
        let ghost pb = pool@;
        let ghost acc_before = acc;
        let it = take_item(pool, b - 1);
        proof {
            lemma_placed_items_update(pb, b - 1, None);
            assert(placed_items(pb).add(acc_before) == placed_items(pool0));
            assert(slot_items(pb[b - 1]) == Multiset::singleton(it));
            assert(pool@ == pb.update(b - 1, None));
            acc = acc.add(Multiset::singleton(it));
            assert forall|y: T| #[trigger] placed_items(pool@).add(acc).count(y) == placed_items(pool0).count(y) by {
                assert(placed_items(pool@).add(Multiset::singleton(it)).count(y) == placed_items(pb).add(
                    slot_items(None::<T>),
                ).count(y));
                assert(placed_items(pb).add(acc_before).count(y) == placed_items(pool0).count(y));
            }
            assert(placed_items(pool@).add(acc) =~= placed_items(pool0));
        }
        Some(Node { item: it, disabled: false, depth: 0, pair: 4 * q })
    } else {
        None
    };
    proof {
        assert(acc0 =~= node_items(x0));
        assert(acc1 =~= node_items(x0).add(node_items(x1)));
        assert(acc =~= node_items(x0).add(node_items(x1)).add(node_items(x2)));
        lemma_enabled_items_push(data0, x0);
        lemma_enabled_items_push(data0.push(x0), x1);
        lemma_enabled_items_push(data0.push(x0).push(x1), x2);
    }
    proof {
        assert(pool@ == pool_after(pool0, a as int, b as int));
        let e0: nat = if is_enabled(x0) { 1 } else { 0 };
        let e1: nat = if is_enabled(x1) { 1 } else { 0 };
        let e2: nat = if is_enabled(x2) { 1 } else { 0 };
        assert(e0 + e1 + e2 == (if a <= n { 1nat } else { 0nat }) + (if b <= n { 1nat } else { 0nat }));
        lemma_enabled_count_push(data0, x0);
        lemma_enabled_count_push(data0.push(x0), x1);
        lemma_enabled_count_push(data0.push(x0).push(x1), x2);
        lemma_node_index(0, (2 * q) as nat);
        lemma_node_index(1, q as nat);
        lemma_node_index(0, (2 * q + 1) as nat);
        assert(laid_out(x0, all, *default, d, (4 * q) as nat));
        assert(laid_out(x1, all, *default, d, (4 * q + 1) as nat));
        assert(laid_out(x2, all, *default, d, (4 * q + 2) as nat));
    }
    data.push(x0);
    data.push(x1);
    data.push(x2);
    if !last {
        let x3 = 4 * q + 3;
        let x3n = between_node(x3, depth, default);
        let ghost data3 = data@;
        data.push(x3n);
        proof {
            lemma_enabled_count_push(data3, x3n);
            lemma_enabled_items_push(data3, x3n);
            assert(node_items(x3n) == Multiset::<T>::empty());
        }
    }
    proof {
        assert forall|x: int| 0 <= x < data.len()
            implies laid_out(#[trigger] data@[x], all, *default, d, x as nat) by {
            if x < 4 * q {
                assert(data@[x] == data0[x]);
            }
        }
        assert(enabled_items(data@).add(placed_items(pool@)) =~= enabled_items(data0).add(placed_items(pool0)));
    }
}

/// Placeholder node at flat index `x`, which lies above the first two rounds.
fn between_node<T: Clone>(x: usize, depth: usize, default: &T) -> (r: Option<Node<T>>)
    requires
        1 <= depth <= 29,
        x < exp2((depth + 1) as nat) - 1,
        x % 4 == 3,
    ensures
        !is_enabled(r),
        forall|items: Seq<T>| laid_out(r, items, *default, depth as nat, x as nat),
{
    let ghost d = depth as nat;
    let (t, j) = node_coords(x);
    proof {
        lemma_valid_coords(d, x as nat);
        reveal_with_fuel(trailing_ones, 3);
        assert((x as nat) % 2 == 1);
        assert(((x as nat) / 2) % 2 == 1);
        assert(t >= 2);
        lemma_exp2_monotone((t + 1) as nat, 30);
        lemma_exp2_30();
        lemma_exp2_pos(t as nat);
    }
    let step = pow2(t + 1);
    let pair = if t >= depth {
        usize::MAX
    } else if j % 2 == 0 {
        proof {
            assert(node_index(t as nat, (j + 1) as nat) == x + step) by (nonlinear_arith)
                requires
                    node_index(t as nat, j as nat) == x,
                    step == exp2((t + 1) as nat),
                    node_index(t as nat, j as nat) == exp2((t + 1) as nat) * j + exp2(t as nat) - 1,
                    node_index(t as nat, (j + 1) as nat)
                        == exp2((t + 1) as nat) * (j + 1) + exp2(t as nat) - 1;
            assert(j % 2 == 0);
            let e = exp2((d - t - 1) as nat);
            assert(exp2((d - t) as nat) == 2 * e) by {
                reveal_with_fuel(exp2, 2);
                assert((d - t - 1) as nat + 1 == (d - t) as nat);
            }
            assert(j < 2 * e);
            assert(j + 1 < 2 * e);
            lemma_node_in_range(d, t as nat, (j + 1) as nat);
            lemma_exp2_monotone((d + 1) as nat, 30);
        }
        x + step
    } else {
        proof {
            assert(node_index(t as nat, (j - 1) as nat) == x - step) by (nonlinear_arith)
                requires
                    j >= 1,
                    step == exp2((t + 1) as nat),
                    node_index(t as nat, j as nat) == x,
                    node_index(t as nat, j as nat) == exp2((t + 1) as nat) * j + exp2(t as nat) - 1,
                    node_index(t as nat, (j - 1) as nat)
                        == exp2((t + 1) as nat) * (j - 1) + exp2(t as nat) - 1;
        }
        x - step
    };
    Some(Node { item: default.clone(), disabled: true, depth: t, pair })
}

impl<T: Clone> TournamentBracket<T> {
    /// Builds the bracket for `items`, best seed first. Every entrant starts in the
    /// slot that the seeding gives it; the top seeds that the field size leaves
    /// without a first-round opponent start in the second round; all other nodes
    /// are placeholders holding clones of `default`.
    #[verifier::spinoff_prover]
    #[verifier::rlimit(60)]
    pub fn new(items: Vec<T>, default: T) -> (r: TournamentBracket<T>)
        requires 1 <= items.len() <= 0x2000_0000,
        ensures
            r.well_formed(),
            items.len() >= 2 ==> r.in_play(),
            exp2(r.tree_depth()) >= items.len(),
            r.tree_depth() == 0 || exp2((r.tree_depth() - 1) as nat) < items.len(),
            r.data.len() == exp2(r.tree_depth() + 1) - 1,
            forall|x: int| 0 <= x < r.data.len()
                ==> laid_out(#[trigger] r.data[x], items@, default, r.tree_depth(), x as nat),
            same_shape(r.data@, r.start_data()),
            r.results() == Seq::new(items.len() as nat, |i: int| None::<T>),
            r.next_place() == items.len() - 1,
            enabled_items(r.data@) == items@.to_multiset(),
    {
        let n = items.len();
        let ghost all = items@;
        proof { lemma_exp2_30(); reveal_with_fuel(exp2, 3); }
        // Smallest depth whose full bracket has room for everyone.
        let mut depth: usize = 0;
        let mut cap: usize = 1;
        while cap < n
            invariant
                cap == exp2(depth as nat),
                depth == 0 || exp2((depth - 1) as nat) < n,
                1 <= n <= 0x2000_0000,
                depth <= 29,
            decreases 30 - depth,
        {
            proof {
                lemma_exp2_30();
                reveal_with_fuel(exp2, 2);
                if depth >= 29 {
                    lemma_exp2_monotone(29, depth as nat);
                    assert(false);
                }
                lemma_exp2_monotone(depth as nat, 28);
            }
            cap = cap * 2;
            depth = depth + 1;
        }
        // Largest depth whose full bracket is not bigger than the field.
        let mut complete_depth: usize = 0;
        let mut low: usize = 1;
        while low * 2 <= n
            invariant
                low == exp2(complete_depth as nat),
                1 <= low <= n,
                1 <= n <= 0x2000_0000,
                complete_depth <= 29,
            decreases n - low,
        {
            proof {
                lemma_exp2_30();
                reveal_with_fuel(exp2, 2);
                if complete_depth >= 29 {
                    lemma_exp2_monotone(29, complete_depth as nat);
                    assert(false);
                }
            }
            low = low * 2;
            complete_depth = complete_depth + 1;
        }
        proof {
            if complete_depth > depth {
                lemma_exp2_monotone((depth + 1) as nat, complete_depth as nat);
                assert(false);
            }
            if depth > complete_depth + 1 {
                lemma_exp2_monotone((complete_depth + 1) as nat, (depth - 1) as nat);
                assert(false);
            }
        }
        let seeds = seed_slots(depth);
        let ghost sd = seed_order(depth as nat);
        proof { lemma_seed_order_permutation(depth as nat); }
        let byes = cap - n;

        // Entrants by seed, taken out as they are placed.
        let mut pool: Vec<Option<T>> = Vec::new();
        let mut k: usize = 0;
        while k < n
            invariant k <= n, pool.len() == k, forall|i: int| 0 <= i < k ==> pool[i] is None,
            decreases n - k,
        {
            pool.push(None);
            k = k + 1;
        }
        let mut rest = items;
        while rest.len() > 0
            invariant
                pool.len() == n,
                n == all.len(),
                rest.len() <= n,
                rest@ == all.subrange(0, rest.len() as int),
                forall|i: int| 0 <= i < rest.len() ==> pool[i] is None,
                forall|i: int| rest.len() <= i < n ==> pool[i] == Some(all[i]),
            decreases rest.len(),
        {
            let i = rest.len() - 1;
            let it = rest.pop().unwrap();
            pool.set(i, Some(it));
        }
        proof {
            let f = |o: Option<T>| o is Some;
            assert(pool@.map_values(f) =~= Seq::new(n as nat, |i: int| true));
            lemma_count_all_true(n as nat);
            lemma_placed_all(pool@, all);
            assert(enabled_items(Seq::<Option<Node<T>>>::empty()) == Multiset::<T>::empty());
        }

        let mut data: Vec<Option<Node<T>>> = Vec::new();
        proof {
            assert(enabled_items(data@).add(placed_items(pool@)) =~= all.to_multiset());
        }
        proof {
            assert forall|i: int| 0 <= i < n implies #[trigger] pool@[i]
                == if seed_slot(depth as nat, i + 1) < 0 { None } else { Some(all[i]) } by {
                lemma_seed_order_onto(depth as nat, i + 1);
            }
        }
        if depth == 0 {
            let ghost pool0 = pool@;
            proof {
                assert(sd[0] == 1);
                lemma_seed_slot(0, 1, 0);
            }
            let it = take_item(&mut pool, 0);
            let nd = Some(Node { item: it, disabled: false, depth: 0, pair: usize::MAX });
            data.push(nd);
            proof {
                assert(node_index(0, 0) == 0);
                lemma_node_index(0, 0);
                lemma_enabled_count_push(Seq::empty(), nd);
                assert(Seq::<Option<Node<T>>>::empty().push(nd) =~= data@);
                assert(laid_out(data@[0], all, default, 0, 0));
                lemma_some_count_take(pool0, 0);
                assert(enabled_count(Seq::<Option<Node<T>>>::empty()) == 0);
                lemma_enabled_items_push(Seq::empty(), nd);
                lemma_placed_items_update(pool0, 0, None);
                assert(pool@.len() == 1);
                lemma_placed_none(pool@);
                assert(enabled_items(data@).add(placed_items(pool@)) =~= all.to_multiset());
            }
        } else {
            let half = cap / 2;
            let mut q: usize = 0;
            while q < half
                invariant
                    1 <= depth <= 29,
                    cap == exp2(depth as nat),
                    half * 2 == cap,
                    q <= half,
                    exp2((depth - 1) as nat) < n <= cap,
                    n == all.len(),
                    byes == cap - n,
                    sd == seed_order(depth as nat),
                    seeds.len() == cap,
                    forall|p: int| 0 <= p < seeds.len() ==> seeds[p] as int == sd[p],
                    forall|p: int| 0 <= p < cap ==> 1 <= #[trigger] sd[p] <= cap,
                    data.len() == 4 * q - if q == half { 1int } else { 0int },
                    forall|x: int| 0 <= x < data.len()
                        ==> laid_out(#[trigger] data@[x], all, default, depth as nat, x as nat),
                    pool_ok(pool@, all, depth as nat, 2 * q),
                    enabled_count(data@) + some_count(pool@) == n,
                    enabled_items(data@).add(placed_items(pool@)) == all.to_multiset(),
                decreases half - q,
            {
                proof {
                    assert(cap == 2 * exp2((depth - 1) as nat)) by { reveal_with_fuel(exp2, 2); }
                    lemma_exp2_30();
                    lemma_exp2_monotone(depth as nat, 29);
                }
                let a = seeds[2 * q] as usize;
                let b = seeds[2 * q + 1] as usize;
                place_pair(&mut data, &mut pool, &default, q, a, b, depth, byes, q + 1 == half, Ghost(all));
                q = q + 1;
            }
            proof {
                lemma_pool_empty(pool@, all, depth as nat);
                assert(enabled_items(data@) =~= all.to_multiset());
            }
        }
        proof {
            lemma_exp2_pos(depth as nat);
            assert(exp2((depth + 1) as nat) == 2 * exp2(depth as nat));
            lemma_layout_shape(data@, all, default, depth as nat);
        }
        let initial_data = copy_nodes(&data);
        proof { lemma_same_shape(data@, initial_data@, depth as nat); }
        let mut finished: Vec<Option<T>> = Vec::new();
        let mut k: usize = 0;
        while k < n
            invariant k <= n, finished@ == Seq::new(k as nat, |i: int| None::<T>),
            decreases n - k,
        {
            finished.push(None);
            k = k + 1;
            proof { assert(finished@ =~= Seq::new(k as nat, |i: int| None::<T>)); }
        }
        let r = TournamentBracket { depth, complete_depth, initial_data, data, finished, finished_index: n - 1 };
        proof {
            assert(same_shape(r.data@, r.initial_data@));
            if n >= 2 {
                lemma_new_in_play(r, all, default);
            }
        }
        r
    }
}


pub proof fn lemma_pair_parent(t: nat, j: nat)
    ensures
        node_index(t, j) + pair_index(t, j) == 2 * node_index(t + 1, j / 2),
        level_of(pair_index(t, j)) == t,
        pos_of(pair_index(t, j)) == if j % 2 == 0 { j + 1 } else { (j - 1) as nat },
        level_of(node_index(t + 1, j / 2)) == t + 1,
        pos_of(node_index(t + 1, j / 2)) == j / 2,
        node_index(t + 1, j / 2) == ancestor_index(t, j, 1),
{
    lemma_exp2_pos(t);
    let a = exp2(t);
    assert(exp2(t + 1) == 2 * a);
    assert(exp2(t + 2) == 4 * a) by { reveal_with_fuel(exp2, 3); assert(exp2((t + 2) as nat) == 2 * exp2(t + 1)); }
    let k = j / 2;
    let pj = if j % 2 == 0 { j + 1 } else { (j - 1) as nat };
    assert(node_index(t, j) + node_index(t, pj) == 2 * node_index(t + 1, k)) by (nonlinear_arith)
        requires
            node_index(t, j) == 2 * a * j + a - 1,
            node_index(t, pj) == 2 * a * pj + a - 1,
            node_index(t + 1, k) == 4 * a * k + 2 * a - 1,
            j == 2 * k || j == 2 * k + 1,
            pj == (if j == 2 * k { 2 * k + 1 } else { 2 * k }),
            a >= 1;
    lemma_node_index(t, pj);
    lemma_node_index(t + 1, k);
    assert(exp2(1) == 2) by { reveal_with_fuel(exp2, 2); }
}

pub proof fn lemma_pair_in_range(d: nat, t: nat, j: nat)
    requires t < d, j < exp2((d - t) as nat),
    ensures
        pair_index(t, j) < exp2(d + 1) - 1,
        node_index(t + 1, j / 2) < exp2(d + 1) - 1,
        j / 2 < exp2((d - t - 1) as nat),
{
    let e = exp2((d - t - 1) as nat);
    assert(exp2((d - t) as nat) == 2 * e) by {
        reveal_with_fuel(exp2, 2);
        assert((d - t - 1) as nat + 1 == (d - t) as nat);
    }
    let pj = if j % 2 == 0 { j + 1 } else { (j - 1) as nat };
    assert(pj < 2 * e);
    lemma_node_in_range(d, t, pj);
    lemma_node_in_range(d, t + 1, j / 2);
}

pub proof fn lemma_ancestor_shift(t: nat, j: nat, k: nat)
    ensures ancestor_index(t + 1, j / 2, k) == ancestor_index(t, j, k + 1),
{
    lemma_exp2_pos(k);
    lemma_div_denominator(j as int, 2, exp2(k) as int);
    assert(exp2(k + 1) == 2 * exp2(k)) by { reveal_with_fuel(exp2, 2); }
    assert(t + 1 + k == t + (k + 1));
}

/// The only nodes just below the parent of `(t, j)` are `(t, j)` and its opponent.
pub proof fn lemma_children(tx: nat, jx: nat, k: nat, t: nat, j: nat)
    requires k >= 1, ancestor_index(tx, jx, k) == node_index(t + 1, j / 2),
    ensures
        tx + k - 1 == t,
        ancestor_index(tx, jx, (k - 1) as nat) == node_index(t, j)
            || ancestor_index(tx, jx, (k - 1) as nat) == pair_index(t, j),
{
    lemma_exp2_pos(k);
    lemma_node_index_injective(tx + k, jx / exp2(k), t + 1, j / 2);
    let km = (k - 1) as nat;
    lemma_exp2_pos(km);
    let u = jx / exp2(km);
    lemma_div_denominator(jx as int, exp2(km) as int, 2);
    assert(exp2(k) == exp2(km) * 2) by { reveal_with_fuel(exp2, 2); assert(km + 1 == k); }
    assert(u / 2 == j / 2);
    assert(tx + km == t);
}

/// Every entrant still in play names a row of `lut`.
pub open spec fn items_below(s: Seq<Option<Node<usize>>>, len: nat) -> bool {
    forall|x: int| 0 <= x < s.len() && is_enabled(#[trigger] s[x]) ==> s[x]->0.item < len
}

/// Node `i` and its opponent both still play: a match can be decided there.
pub open spec fn playable<T: Clone>(s: Seq<Option<Node<T>>>, i: int) -> bool {
    &&& is_enabled(s[i])
    &&& 0 <= s[i]->0.pair < s.len()
    &&& is_enabled(s[s[i]->0.pair as int])
}

pub open spec fn with_rank(m: ItemMetadata, rank: int) -> ItemMetadata {
    ItemMetadata { rank: Some(rank as i32), ..m }
}

pub open spec fn with_disabled<T: Clone>(n: Node<T>, disabled: bool) -> Node<T> {
    Node { disabled, ..n }
}

pub proof fn lemma_enabled_count_update<T: Clone>(s: Seq<Option<Node<T>>>, i: int, v: Option<Node<T>>)
    requires 0 <= i < s.len(),
    ensures
        enabled_count(s.update(i, v)) + (if is_enabled(s[i]) { 1nat } else { 0nat })
            == enabled_count(s) + (if is_enabled(v) { 1nat } else { 0nat }),
{
    let f = |o: Option<Node<T>>| is_enabled(o);
    assert(s.update(i, v).map_values(f) =~= s.map_values(f).update(i, is_enabled(v)));
    lemma_count_true_update(s.map_values(f), i, is_enabled(v));
}

/// Bracket after the entrant at node `i` won its match.
pub open spec fn after_match<T: Clone>(s: Seq<Option<Node<T>>>, i: int) -> Seq<Option<Node<T>>> {
    let nd = s[i]->0;
    let p = nd.pair as int;
    let par = (i + p) / 2;
    s.update(i, Some(with_disabled(nd, true)))
        .update(p, Some(with_disabled(s[p]->0, true)))
        .update(par, Some(Node { item: nd.item, disabled: false, ..s[par]->0 }))
}

/// Deciding a match keeps the shape of the bracket and takes one entrant out of play.
#[verifier::rlimit(40)]
pub proof fn lemma_match_keeps_shape<T: Clone>(s: Seq<Option<Node<T>>>, d: nat, i: int)
    requires
        shape_ok(s, d),
        d <= 29,
        0 <= i < s.len(),
        playable(s, i),
        s[i]->0.pair != usize::MAX,
    ensures ({
        let p = s[i]->0.pair as int;
        let par = (i + p) / 2;
        &&& 0 <= par < s.len()
        &&& i != p && par != i && par != p
        &&& is_disabled_node(s[par])
        &&& s[par]->0.pair == usize::MAX <==> level_of(par as nat) == d
        &&& s[p]->0.depth == level_of(i as nat)
        &&& level_of(i as nat) < d
        &&& shape_ok(after_match(s, i), d)
        &&& enabled_count(after_match(s, i)) + 1 == enabled_count(s)
        &&& enabled_count(s) >= 2
    }),
{
    let t = level_of(i as nat);
    let j = pos_of(i as nat);
    let nd = s[i]->0;
    let p = nd.pair as int;
    lemma_valid_coords(d, i as nat);
    lemma_index_decompose(i as nat);
    assert(node_fields_ok(s[i], d, i as nat));
    assert(t < d);
    lemma_pair_in_range(d, t, j);
    lemma_pair_parent(t, j);
    let par = (i + p) / 2;
    assert(par == node_index(t + 1, j / 2));
    assert(ancestors_disabled(s, d, i as nat));
    assert(ancestor_index(t, j, 1) == par);
    assert(is_disabled_node(s[par]));
    assert(node_fields_ok(s[p], d, p as nat));
    assert(node_fields_ok(s[par], d, par as nat));
    lemma_node_index(t, j);
    let s2 = after_match(s, i);
    let sa = s.update(i, Some(with_disabled(nd, true)));
    let sb = sa.update(p, Some(with_disabled(s[p]->0, true)));
    assert(sb[par] == s[par]);
    assert forall|x: int| 0 <= x < s2.len() implies node_fields_ok(#[trigger] s2[x], d, x as nat) by {
        assert(node_fields_ok(s[x], d, x as nat));
    }
    assert forall|x: int| 0 <= x < s2.len() && is_enabled(#[trigger] s2[x])
        implies ancestors_disabled(s2, d, x as nat) by {
        let tx = level_of(x as nat);
        let jx = pos_of(x as nat);
        if x == par {
            assert(tx == t + 1);
            assert(jx == j / 2);
            assert forall|k: nat| 1 <= k <= d - tx implies
                is_disabled_node(s2[#[trigger] ancestor_index(tx, jx, k) as int]) by {
                lemma_ancestor_shift(t, j, k);
                let y = ancestor_index(t, j, k + 1);
                assert(ancestor_index(tx, jx, k) == y);
                assert(1 <= k + 1 <= d - t);
                assert(is_disabled_node(s[y as int]));
                lemma_ancestor_coords(t, j, k + 1);
                assert(level_of(y) == t + k + 1);
                let r = (d - t - k - 1) as nat;
                assert((k + 1 + r) as nat == (d - t) as nat);
                lemma_div_exp2_bound(j, k + 1, r);
                lemma_node_in_range(d, t + k + 1, j / exp2(k + 1));
                assert(y != i && y != p && y != par);
                assert(s2[y as int] == s[y as int]);
            }
        } else {
            assert(is_enabled(s[x]));
            assert(ancestors_disabled(s, d, x as nat));
            assert forall|k: nat| 1 <= k <= d - tx implies
                is_disabled_node(s2[#[trigger] ancestor_index(tx, jx, k) as int]) by {
                let y = ancestor_index(tx, jx, k);
                assert(is_disabled_node(s[y as int]));
                lemma_valid_coords(d, x as nat);
                lemma_ancestor_coords(tx, jx, k);
                let r = (d - tx - k) as nat;
                assert((k + r) as nat == (d - tx) as nat);
                lemma_div_exp2_bound(jx, k, r);
                lemma_node_in_range(d, tx + k, jx / exp2(k));
                if y == par {
                    lemma_children(tx, jx, k, t, j);
                    let z = ancestor_index(tx, jx, (k - 1) as nat);
                    if k == 1 {
                        lemma_index_decompose(x as nat);
                        assert(exp2(0) == 1);
                        assert(z == x);
                    } else {
                        assert(is_disabled_node(s[z as int]));
                    }
                    assert(false);
                }
            }
        }
    }
    lemma_enabled_count_update(s, i, Some(with_disabled(nd, true)));
    lemma_enabled_count_update(sa, p, Some(with_disabled(s[p]->0, true)));
    lemma_enabled_count_update(sb, par, Some(Node { item: nd.item, disabled: false, ..s[par]->0 }));
    let f = |o: Option<Node<T>>| is_enabled(o);
    lemma_count_true_two(s.map_values(f), i, p);
    assert(shape_ok(s2, d));
    assert(enabled_count(s2) + 1 == enabled_count(s));
    if t + 1 < d {
        assert(j / 2 < exp2((d - t - 1) as nat));
        lemma_pair_in_range(d, t + 1, j / 2);
        lemma_exp2_monotone(d + 1, 30);
        lemma_exp2_30();
    }
    assert(s[par]->0.pair == usize::MAX <==> level_of(par as nat) == d);
    assert(s[p]->0.depth == level_of(i as nat));
}

/// The entries that hold are at most as many as the positions `i` and `k` that lie in
/// range, where no other entry holds.
pub proof fn lemma_count_true_at_most(s: Seq<bool>, i: int, k: int)
    requires
        forall|x: int| 0 <= x < s.len() && x != i && x != k ==> !s[x],
    ensures
        count_true(s) <= (if 0 <= i < s.len() { 1nat } else { 0nat }) + (if 0 <= k < s.len() && k != i {
            1nat
        } else {
            0nat
        }),
    decreases s.len(),
{
    if s.len() > 0 {
        let l = s.len() - 1;
        assert forall|x: int| 0 <= x < s.drop_last().len() && x != i && x != k implies !s.drop_last()[x] by {
            assert(s.drop_last()[x] == s[x]);
        }
        lemma_count_true_at_most(s.drop_last(), i, k);
    }
}

/// The flat index of the final's slot.
pub open spec fn root_index(d: nat) -> nat {
    node_index(d, 0)
}

/// Every first-round pair whose match is still to come (its slot and every slot above
/// it waiting) has both its entrants in play.
pub open spec fn pairs_filled<T: Clone>(s: Seq<Option<Node<T>>>, d: nat) -> bool {
    forall|j: nat|
        j < exp2((d - 1) as nat) && is_disabled_node(#[trigger] s[node_index(1, j) as int])
            && ancestors_disabled(s, d, node_index(1, j)) ==> is_enabled(s[node_index(0, 2 * j) as int])
            && is_enabled(s[node_index(0, 2 * j + 1) as int])
}

/// The final's slot is above every node.
pub proof fn lemma_root_above(d: nat, x: nat)
    requires
        x < exp2(d + 1) - 1,
        level_of(x) < d,
    ensures
        ancestor_index(level_of(x), pos_of(x), (d - level_of(x)) as nat) == root_index(d),
{
    lemma_valid_coords(d, x);
    let t = level_of(x);
    let k = (d - t) as nat;
    lemma_div_exp2_bound(pos_of(x), k, 0);
    assert(exp2(0) == 1);
    assert((t + k) as nat == d);
}

/// While the final's slot takes part, no other node does.
pub proof fn lemma_root_alone<T: Clone>(s: Seq<Option<Node<T>>>, d: nat)
    requires
        shape_ok(s, d),
        is_enabled(s[root_index(d) as int]),
    ensures
        enabled_count(s) == 1,
        forall|x: int| 0 <= x < s.len() && x != root_index(d) ==> !is_enabled(#[trigger] s[x]),
{
    let root = root_index(d) as int;
    lemma_exp2_pos(0);
    assert(exp2(0) == 1);
    lemma_node_in_range(d, d, 0);
    let f = |o: Option<Node<T>>| is_enabled(o);
    let m = s.map_values(f);
    assert forall|x: int| 0 <= x < m.len() && x != root && x != root implies !m[x] by {
        if is_enabled(s[x]) {
            lemma_valid_coords(d, x as nat);
            lemma_index_decompose(x as nat);
            let t = level_of(x as nat);
            if t == d {
                assert(pos_of(x as nat) == 0);
            } else {
                lemma_root_above(d, x as nat);
                assert(ancestors_disabled(s, d, x as nat));
                assert(is_disabled_node(s[ancestor_index(t, pos_of(x as nat), (d - t) as nat) as int]));
            }
        }
    }
    lemma_count_true_at_most(m, root, root);
    lemma_count_true_one(m, root);
    assert forall|x: int| 0 <= x < s.len() && x != root implies !is_enabled(#[trigger] s[x]) by {
        assert(!m[x]);
    }
}

/// When the two nodes of the final both take part, no other node does.
pub proof fn lemma_final_pair<T: Clone>(s: Seq<Option<Node<T>>>, d: nat, i: int)
    requires
        shape_ok(s, d),
        d <= 29,
        0 <= i < s.len(),
        playable(s, i),
        s[i]->0.pair != usize::MAX,
        level_of(i as nat) + 1 == d,
    ensures
        enabled_count(s) == 2,
{
    lemma_match_keeps_shape(s, d, i);
    let t = level_of(i as nat);
    let j = pos_of(i as nat);
    let p = s[i]->0.pair as int;
    lemma_valid_coords(d, i as nat);
    lemma_index_decompose(i as nat);
    assert(node_fields_ok(s[i], d, i as nat));
    lemma_pair_parent(t, j);
    let par = node_index(t + 1, j / 2);
    assert((d - t) as nat == 1);
    assert(exp2(1) == 2) by { reveal_with_fuel(exp2, 2); }
    assert(j / 2 == 0);
    let f = |o: Option<Node<T>>| is_enabled(o);
    let m = s.map_values(f);
    assert forall|x: int| 0 <= x < m.len() && x != i && x != p implies !m[x] by {
        if is_enabled(s[x]) {
            lemma_valid_coords(d, x as nat);
            lemma_index_decompose(x as nat);
            let tx = level_of(x as nat);
            let jx = pos_of(x as nat);
            if tx == d {
                assert(jx == 0);
                assert(x == par);
            } else if tx == t {
                assert(jx < 2);
                assert(j < 2);
                if jx == j {
                    assert(x == i);
                } else {
                    assert(x == pair_index(t, j));
                }
            } else {
                let k = (d - tx) as nat;
                lemma_root_above(d, x as nat);
                lemma_children(tx, jx, k, t, j);
                assert(ancestors_disabled(s, d, x as nat));
                let z = ancestor_index(tx, jx, (k - 1) as nat);
                assert(is_disabled_node(s[z as int]));
            }
        }
    }
    lemma_count_true_at_most(m, i, p);
    lemma_count_true_two(m, i, p);
}

/// Below a waiting slot whose slots above all wait too, a match can be decided.
pub proof fn lemma_playable_below<T: Clone>(s: Seq<Option<Node<T>>>, d: nat, t: nat, j: nat)
    requires
        shape_ok(s, d),
        pairs_filled(s, d),
        d <= 29,
        1 <= t <= d,
        j < exp2((d - t) as nat),
        is_disabled_node(s[node_index(t, j) as int]),
        ancestors_disabled(s, d, node_index(t, j)),
    ensures
        exists|i: int| 0 <= i < s.len() && playable(s, i),
    decreases t,
{
    let tc = (t - 1) as nat;
    let x = node_index(t, j);
    let c0 = node_index(tc, 2 * j);
    let c1 = node_index(tc, 2 * j + 1);
    assert(exp2((d - tc) as nat) == 2 * exp2((d - t) as nat)) by {
        reveal_with_fuel(exp2, 2);
        assert((d - tc) as nat == (d - t) as nat + 1);
    }
    lemma_node_index(tc, 2 * j);
    lemma_node_index(tc, 2 * j + 1);
    lemma_node_in_range(d, tc, 2 * j);
    lemma_node_in_range(d, tc, 2 * j + 1);
    lemma_pair_parent(tc, 2 * j);
    lemma_pair_parent(tc, 2 * j + 1);
    assert((2 * j) / 2 == j);
    assert((2 * j + 1) / 2 == j);
    assert(pair_index(tc, 2 * j) == c1);
    assert(node_fields_ok(s[c0 as int], d, c0));
    assert(node_fields_ok(s[c1 as int], d, c1));
    if is_enabled(s[c0 as int]) && is_enabled(s[c1 as int]) {
        assert(playable(s, c0 as int));
    } else if t == 1 {
        assert(is_disabled_node(s[node_index(1, j) as int]));
        assert(false);
    } else {
        let jc = if is_enabled(s[c0 as int]) { 2 * j + 1 } else { 2 * j };
        let c = node_index(tc, jc);
        assert(jc / 2 == j);
        assert forall|k: nat| 1 <= k <= d - level_of(c) implies is_disabled_node(
            s[#[trigger] ancestor_index(level_of(c), pos_of(c), k) as int],
        ) by {
            if k == 1 {
                assert(ancestor_index(tc, jc, 1) == x);
            } else {
                lemma_ancestor_shift(tc, jc, (k - 1) as nat);
                assert(ancestor_index(tc, jc, k) == ancestor_index(t, j, (k - 1) as nat));
            }
        }
        lemma_playable_below(s, d, tc, jc);
    }
}

/// The slot above an ancestor of a node is that node's ancestor one level higher.
pub proof fn lemma_ancestor_step(tx: nat, jx: nat, k: nat, t: nat, j: nat)
    requires
        ancestor_index(tx, jx, k) == node_index(t, j),
    ensures
        tx + k == t,
        ancestor_index(tx, jx, k + 1) == node_index(t + 1, j / 2),
{
    lemma_exp2_pos(k);
    lemma_node_index_injective(tx + k, jx / exp2(k), t, j);
    lemma_div_denominator(jx as int, exp2(k) as int, 2);
    assert(exp2(k + 1) == exp2(k) * 2) by { reveal_with_fuel(exp2, 2); }
}

/// Deciding a match keeps every first-round pair that is still to come filled.
#[verifier::rlimit(40)]
pub proof fn lemma_match_keeps_pairs<T: Clone>(s: Seq<Option<Node<T>>>, d: nat, i: int)
    requires
        shape_ok(s, d),
        pairs_filled(s, d),
        d <= 29,
        0 <= i < s.len(),
        playable(s, i),
        s[i]->0.pair != usize::MAX,
    ensures
        pairs_filled(after_match(s, i), d),
{
    lemma_match_keeps_shape(s, d, i);
    let t = level_of(i as nat);
    let j = pos_of(i as nat);
    let p = s[i]->0.pair as int;
    lemma_valid_coords(d, i as nat);
    lemma_index_decompose(i as nat);
    assert(node_fields_ok(s[i], d, i as nat));
    lemma_pair_parent(t, j);
    let par = node_index(t + 1, j / 2) as int;
    let pj: nat = if j % 2 == 0 { j + 1 } else { (j - 1) as nat };
    assert(p == node_index(t, pj));
    assert(pj / 2 == j / 2);
    let s2 = after_match(s, i);
    assert(is_enabled(s2[par]));
    assert forall|jj: nat|
        jj < exp2((d - 1) as nat) && is_disabled_node(#[trigger] s2[node_index(1, jj) as int])
            && ancestors_disabled(s2, d, node_index(1, jj)) implies is_enabled(s2[node_index(0, 2 * jj) as int])
        && is_enabled(s2[node_index(0, 2 * jj + 1) as int]) by {
        let x = node_index(1, jj);
        lemma_node_index(1, jj);
        assert(exp2((d - 0) as nat) == 2 * exp2((d - 1) as nat)) by {
            reveal_with_fuel(exp2, 2);
            assert((d - 0) as nat == (d - 1) as nat + 1);
        }
        lemma_node_in_range(d, 1, jj);
        lemma_node_in_range(d, 0, 2 * jj);
        lemma_node_in_range(d, 0, 2 * jj + 1);
        lemma_node_index(0, 2 * jj);
        lemma_node_index(0, 2 * jj + 1);
        assert(d >= 2) by {
            if d < 2 {
                assert(exp2((d - 1) as nat) == 1);
            }
        }
        if x == par {
            assert(false);
        } else if x == i || x == p {
            let jp: nat = if x == i { j } else { pj };
            assert(x == node_index(t, jp));
            lemma_node_index_injective(1, jj, t, jp);
            assert(ancestor_index(1, jj, 0) == x) by { assert(exp2(0) == 1); assert(jj / 1 == jj); }
            lemma_ancestor_step(1, jj, 0, t, jp);
            assert(ancestor_index(1, jj, 1) == par);
            assert(is_disabled_node(s2[ancestor_index(1, jj, 1) as int]));
            assert(false);
        } else {
            assert(s2[x as int] == s[x as int]);
            assert forall|k: nat| 1 <= k <= d - level_of(x) implies is_disabled_node(
                s[#[trigger] ancestor_index(level_of(x), pos_of(x), k) as int],
            ) by {
                let y = ancestor_index(1, jj, k);
                lemma_ancestor_coords(1, jj, k);
                let r = (d - 1 - k) as nat;
                assert((k + r) as nat == (d - 1) as nat);
                lemma_div_exp2_bound(jj, k, r);
                lemma_node_in_range(d, 1 + k, jj / exp2(k));
                assert(is_disabled_node(s2[y as int]));
                if y == i || y == p {
                    let jp: nat = if y == i { j } else { pj };
                    assert(y == node_index(t, jp));
                    lemma_ancestor_step(1, jj, k, t, jp);
                    assert(ancestor_index(1, jj, k + 1) == par);
                    assert(is_disabled_node(s2[ancestor_index(1, jj, k + 1) as int]));
                    assert(false);
                } else if y != par {
                    assert(s2[y as int] == s[y as int]);
                }
            }
            assert(ancestors_disabled(s, d, x));
            let l0 = node_index(0, 2 * jj);
            let l1 = node_index(0, 2 * jj + 1);
            assert(is_enabled(s[l0 as int]) && is_enabled(s[l1 as int]));
            assert(ancestor_index(0, 2 * jj, 0) == l0) by { assert(exp2(0) == 1); assert((2 * jj) / 1 == 2 * jj); }
            assert(ancestor_index(0, 2 * jj + 1, 0) == l1) by { assert(exp2(0) == 1); assert((2 * jj + 1) / 1 == 2 * jj + 1); }
            if l0 == i || l0 == p {
                let jp: nat = if l0 == i { j } else { pj };
                lemma_ancestor_step(0, 2 * jj, 0, t, jp);
                assert((2 * jj) / 2 == jj);
                assert(ancestor_index(0, 2 * jj, 1) == x);
                assert(false);
            }
            if l1 == i || l1 == p {
                let jp: nat = if l1 == i { j } else { pj };
                lemma_ancestor_step(0, 2 * jj + 1, 0, t, jp);
                assert((2 * jj + 1) / 2 == jj);
                assert(ancestor_index(0, 2 * jj + 1, 1) == x);
                assert(false);
            }
            lemma_node_index(t + 1, j / 2);
            assert(l0 != par && l1 != par);
            assert(s2[l0 as int] == s[l0 as int]);
            assert(s2[l1 as int] == s[l1 as int]);
        }
    }
}

/// A copy of the same shape has the same nodes in play.
pub proof fn lemma_same_shape_play<T: Clone>(a: Seq<Option<Node<T>>>, b: Seq<Option<Node<T>>>, d: nat)
    requires
        same_shape(a, b),
        shape_ok(a, d),
        d <= 29,
    ensures
        d >= 1 && pairs_filled(a, d) ==> pairs_filled(b, d),
        is_enabled(a[root_index(d) as int]) == is_enabled(b[root_index(d) as int]),
        enabled_count(a) == enabled_count(b),
{
    lemma_same_shape(a, b, d);
    lemma_exp2_pos(0);
    assert(exp2(0) == 1);
    lemma_node_in_range(d, d, 0);
    assert(same_node(a[root_index(d) as int], b[root_index(d) as int]));
    if pairs_filled(a, d) && d >= 1 {
        assert forall|jj: nat|
            jj < exp2((d - 1) as nat) && is_disabled_node(#[trigger] b[node_index(1, jj) as int])
                && ancestors_disabled(b, d, node_index(1, jj)) implies is_enabled(b[node_index(0, 2 * jj) as int])
            && is_enabled(b[node_index(0, 2 * jj + 1) as int]) by {
            let x = node_index(1, jj);
            lemma_node_index(1, jj);
            assert(exp2((d - 0) as nat) == 2 * exp2((d - 1) as nat)) by {
                reveal_with_fuel(exp2, 2);
                assert((d - 0) as nat == (d - 1) as nat + 1);
            }
            lemma_node_in_range(d, 1, jj);
            lemma_node_in_range(d, 0, 2 * jj);
            lemma_node_in_range(d, 0, 2 * jj + 1);
            assert(same_node(a[x as int], b[x as int]));
            assert forall|k: nat| 1 <= k <= d - level_of(x) implies is_disabled_node(
                a[#[trigger] ancestor_index(level_of(x), pos_of(x), k) as int],
            ) by {
                let y = ancestor_index(1, jj, k);
                lemma_ancestor_coords(1, jj, k);
                let r = (d - 1 - k) as nat;
                assert((k + r) as nat == (d - 1) as nat);
                lemma_div_exp2_bound(jj, k, r);
                lemma_node_in_range(d, 1 + k, jj / exp2(k));
                assert(is_disabled_node(b[y as int]));
                assert(same_node(a[y as int], b[y as int]));
            }
            assert(same_node(a[node_index(0, 2 * jj) as int], b[node_index(0, 2 * jj) as int]));
            assert(same_node(a[node_index(0, 2 * jj + 1) as int], b[node_index(0, 2 * jj + 1) as int]));
        }
    }
}

impl<T: Clone> TournamentBracket<T> {
    /// A bracket being played from its layout, between at least two entrants: one
    /// entrant more is in play than places are open, every first-round pair still to
    /// come has both its entrants, and the winner is known exactly when the final's
    /// slot takes part. Its layout keeps the same facts, for a fresh start.
    pub open spec fn in_play(&self) -> bool {
        let d = self.depth as nat;
        &&& self.well_formed()
        &&& d >= 1
        &&& enabled_count(self.data@) == self.finished_index + 1
        &&& pairs_filled(self.data@, d)
        &&& (self.finished@[0] is Some <==> is_enabled(self.data@[root_index(d) as int]))
        &&& enabled_count(self.initial_data@) == self.finished@.len()
        &&& pairs_filled(self.initial_data@, d)
        &&& !is_enabled(self.initial_data@[root_index(d) as int])
    }

    /// While no winner is known, a match is left to decide: `next_match` finds one.
    pub proof fn lemma_match_left(&self)
        requires
            self.in_play(),
            self.results()[0] is None,
        ensures
            exists|i: int| 0 <= i < self.data@.len() && playable(self.data@, i),
    {
        let d = self.depth as nat;
        let s = self.data@;
        let root = root_index(d);
        lemma_exp2_pos(0);
        assert(exp2(0) == 1);
        lemma_node_in_range(d, d, 0);
        lemma_node_index(d, 0);
        assert(node_fields_ok(s[root as int], d, root));
        assert(is_disabled_node(s[root as int]));
        assert(ancestors_disabled(s, d, root));
        lemma_playable_below(s, d, d, 0);
    }

    /// The winner is known exactly when every place but the first is taken: once the
    /// last match is decided, and not before.
    pub proof fn lemma_winner_known(&self)
        requires
            self.in_play(),
        ensures
            self.results()[0] is Some <==> self.next_place() == 0,
    {
        let d = self.depth as nat;
        let s = self.data@;
        if self.results()[0] is Some {
            lemma_root_alone(s, d);
        } else {
            self.lemma_match_left();
            let i = choose|i: int| 0 <= i < s.len() && playable(s, i);
            lemma_valid_coords(d, i as nat);
            assert(node_fields_ok(s[i], d, i as nat));
            lemma_exp2_monotone(d + 1, 30);
            lemma_exp2_30();
            lemma_match_keeps_shape(s, d, i);
            let f = |o: Option<Node<T>>| is_enabled(o);
            lemma_count_true_two(s.map_values(f), i, s[i]->0.pair as int);
        }
    }
}

/// Once every slot is passed, no entrant is left to place.
pub proof fn lemma_pool_empty<T>(pool: Seq<Option<T>>, all: Seq<T>, d: nat)
    requires
        pool_ok(pool, all, d, exp2(d) as int),
        all.len() <= exp2(d),
    ensures
        some_count(pool) == 0,
        placed_items(pool) == Multiset::<T>::empty(),
{
    let f = |o: Option<T>| o is Some;
    let m = pool.map_values(f);
    assert forall|x: int| 0 <= x < pool.len() implies #[trigger] pool[x] is None by {
        lemma_seed_order_onto(d, x + 1);
        assert(pool[x] == if seed_slot(d, x + 1) < exp2(d) as int { None } else { Some(all[x]) });
    }
    assert forall|x: int| 0 <= x < m.len() && x != -1 && x != -1 implies !m[x] by {
        assert(pool[x] is None);
    }
    lemma_count_true_at_most(m, -1, -1);
    lemma_placed_none(pool);
}

/// A bracket laid out for two entrants or more waits at the final, and each of its
/// first-round pairs that is no bye holds both its entrants.
pub proof fn lemma_layout_in_play<T: Clone>(data: Seq<Option<Node<T>>>, items: Seq<T>, default: T, d: nat)
    requires
        items.len() >= 2,
        exp2(d) >= items.len(),
        d == 0 || exp2((d - 1) as nat) < items.len(),
        d <= 29,
        data.len() == exp2(d + 1) - 1,
        forall|x: int| 0 <= x < data.len() ==> laid_out(#[trigger] data[x], items, default, d, x as nat),
    ensures
        d >= 1,
        pairs_filled(data, d),
        !is_enabled(data[root_index(d) as int]),
{
    let n = items.len();
    assert(d >= 1) by {
        if d == 0 {
            assert(exp2(0) == 1);
        }
    }
    assert(exp2(d) == 2 * exp2((d - 1) as nat)) by {
        reveal_with_fuel(exp2, 2);
    }
    let sd = seed_order(d);
    lemma_exp2_pos(0);
    assert(exp2(0) == 1);
    lemma_node_in_range(d, d, 0);
    lemma_node_index(d, 0);
    let root = root_index(d);
    assert(laid_out(data[root as int], items, default, d, root));
    if d == 1 {
        assert(exp2(1) == 2);
        lemma_pair_seeds(d, 0, n);
    }
    assert forall|jj: nat|
        jj < exp2((d - 1) as nat) && is_disabled_node(#[trigger] data[node_index(1, jj) as int])
            && ancestors_disabled(data, d, node_index(1, jj)) implies is_enabled(data[node_index(0, 2 * jj) as int])
        && is_enabled(data[node_index(0, 2 * jj + 1) as int]) by {
        let x = node_index(1, jj);
        lemma_node_index(1, jj);
        assert(exp2((d - 0) as nat) == 2 * exp2((d - 1) as nat));
        lemma_node_in_range(d, 1, jj);
        lemma_node_in_range(d, 0, 2 * jj);
        lemma_node_in_range(d, 0, 2 * jj + 1);
        lemma_node_index(0, 2 * jj);
        lemma_node_index(0, 2 * jj + 1);
        lemma_pair_seeds(d, jj, n);
        assert(laid_out(data[x as int], items, default, d, x));
        assert(laid_out(data[node_index(0, 2 * jj) as int], items, default, d, node_index(0, 2 * jj)));
        assert(laid_out(data[node_index(0, 2 * jj + 1) as int], items, default, d, node_index(0, 2 * jj + 1)));
    }
}

/// A bracket freshly laid out for two entrants or more is in play.
proof fn lemma_new_in_play<T: Clone>(r: TournamentBracket<T>, all: Seq<T>, default: T)
    requires
        r.well_formed(),
        all.len() >= 2,
        exp2(r.depth as nat) >= all.len(),
        r.depth == 0 || exp2((r.depth - 1) as nat) < all.len(),
        r.data@.len() == exp2(r.depth as nat + 1) - 1,
        forall|x: int| 0 <= x < r.data@.len() ==> laid_out(#[trigger] r.data@[x], all, default, r.depth as nat, x as nat),
        same_shape(r.data@, r.initial_data@),
        r.finished@ == Seq::new(all.len(), |i: int| None::<T>),
        r.finished_index == all.len() - 1,
        enabled_count(r.data@) == all.len(),
    ensures
        r.in_play(),
{
    lemma_layout_in_play(r.data@, all, default, r.depth as nat);
    lemma_same_shape_play(r.data@, r.initial_data@, r.depth as nat);
    assert(r.finished@[0] is None);
}

/// The entrant of a node that takes part, as a multiset of one; none otherwise.
pub open spec fn node_items<T: Clone>(o: Option<Node<T>>) -> Multiset<T> {
    if is_enabled(o) {
        Multiset::singleton(o->0.item)
    } else {
        Multiset::empty()
    }
}

/// The entrants that still take part.
pub open spec fn enabled_items<T: Clone>(s: Seq<Option<Node<T>>>) -> Multiset<T>
    decreases s.len(),
{
    if s.len() == 0 {
        Multiset::empty()
    } else {
        enabled_items(s.drop_last()).add(node_items(s.last()))
    }
}

/// The entrants that places are known for.
pub open spec fn placed_items<T>(f: Seq<Option<T>>) -> Multiset<T>
    decreases f.len(),
{
    if f.len() == 0 {
        Multiset::empty()
    } else {
        placed_items(f.drop_last()).add(
            match f.last() {
                Some(x) => Multiset::singleton(x),
                None => Multiset::empty(),
            },
        )
    }
}

pub proof fn lemma_enabled_items_update<T: Clone>(s: Seq<Option<Node<T>>>, x: int, v: Option<Node<T>>)
    requires
        0 <= x < s.len(),
    ensures
        enabled_items(s.update(x, v)).add(node_items(s[x])) == enabled_items(s).add(node_items(v)),
    decreases s.len(),
{
    let u = s.update(x, v);
    let d = s.drop_last();
    assert(enabled_items(u) == enabled_items(u.drop_last()).add(node_items(u.last())));
    assert(enabled_items(s) == enabled_items(d).add(node_items(s.last())));
    if x == s.len() - 1 {
        assert(u.drop_last() =~= d);
        assert(u.last() == v);
        assert(enabled_items(u).add(node_items(s[x])) =~= enabled_items(s).add(node_items(v)));
    } else {
        lemma_enabled_items_update(d, x, v);
        assert(u.drop_last() =~= d.update(x, v));
        assert(u.last() == s.last());
        assert(d[x] == s[x]);
        let l = node_items(s.last());
        let ih_l = enabled_items(d.update(x, v)).add(node_items(s[x]));
        let ih_r = enabled_items(d).add(node_items(v));
        assert forall|y: T| #[trigger] enabled_items(u).add(node_items(s[x])).count(y) == enabled_items(s).add(
            node_items(v),
        ).count(y) by {
            assert(ih_l.count(y) == ih_r.count(y));
            assert(enabled_items(u) == enabled_items(d.update(x, v)).add(l));
        }
        assert(enabled_items(u).add(node_items(s[x])) =~= enabled_items(s).add(node_items(v)));
    }
}

/// Where no node but `r` takes part, the entrants in play are that of `r`.
pub proof fn lemma_enabled_items_one<T: Clone>(s: Seq<Option<Node<T>>>, r: int)
    requires
        0 <= r < s.len(),
        forall|x: int| 0 <= x < s.len() && x != r ==> !is_enabled(#[trigger] s[x]),
    ensures
        enabled_items(s) == node_items(s[r]),
    decreases s.len(),
{
    if r == s.len() - 1 {
        lemma_enabled_items_none(s.drop_last());
    } else {
        lemma_enabled_items_one(s.drop_last(), r);
    }
    assert(enabled_items(s) =~= node_items(s[r]));
}

/// Where no node takes part, no entrant is in play.
pub proof fn lemma_enabled_items_none<T: Clone>(s: Seq<Option<Node<T>>>)
    requires
        forall|x: int| 0 <= x < s.len() ==> !is_enabled(#[trigger] s[x]),
    ensures
        enabled_items(s) == Multiset::<T>::empty(),
    decreases s.len(),
{
    if s.len() > 0 {
        lemma_enabled_items_none(s.drop_last());
        assert(enabled_items(s) =~= Multiset::<T>::empty());
    }
}

pub proof fn lemma_placed_items_concat<T>(a: Seq<Option<T>>, b: Seq<Option<T>>)
    ensures
        placed_items(a + b) == placed_items(a).add(placed_items(b)),
    decreases b.len(),
{
    if b.len() == 0 {
        assert(a + b =~= a);
        assert(placed_items(a).add(placed_items(b)) =~= placed_items(a));
    } else {
        lemma_placed_items_concat(a, b.drop_last());
        assert((a + b).drop_last() =~= a + b.drop_last());
        assert(placed_items(a + b) =~= placed_items(a).add(placed_items(b)));
    }
}

/// Deciding a match takes the loser's entrant out of play; the winner's stays in play.
pub proof fn lemma_match_items<T: Clone>(s: Seq<Option<Node<T>>>, d: nat, i: int)
    requires
        shape_ok(s, d),
        d <= 29,
        0 <= i < s.len(),
        playable(s, i),
        s[i]->0.pair != usize::MAX,
    ensures
        enabled_items(after_match(s, i)).add(Multiset::singleton(s[s[i]->0.pair as int]->0.item)) == enabled_items(s),
{
    lemma_match_keeps_shape(s, d, i);
    let nd = s[i]->0;
    let p = nd.pair as int;
    let par = (i + p) / 2;
    let u1 = s.update(i, Some(with_disabled(nd, true)));
    let u2 = u1.update(p, Some(with_disabled(s[p]->0, true)));
    let u3 = u2.update(par, Some(Node { item: nd.item, disabled: false, ..s[par]->0 }));
    lemma_enabled_items_update(s, i, Some(with_disabled(nd, true)));
    lemma_enabled_items_update(u1, p, Some(with_disabled(s[p]->0, true)));
    lemma_enabled_items_update(u2, par, Some(Node { item: nd.item, disabled: false, ..s[par]->0 }));
    assert(u1[p] == s[p]);
    assert(u2[par] == s[par]);
    assert(u3 == after_match(s, i));
    let wi = Multiset::singleton(nd.item);
    let lp = Multiset::singleton(s[p]->0.item);
    assert(node_items(s[i]) == wi);
    assert(node_items(s[p]) == lp);
    assert(node_items(Some(with_disabled(nd, true))) == Multiset::<T>::empty());
    assert(node_items(Some(with_disabled(s[p]->0, true))) == Multiset::<T>::empty());
    assert(node_items(s[par]) == Multiset::<T>::empty());
    assert(node_items(Some(Node { item: nd.item, disabled: false, ..s[par]->0 })) == wi);
    assert forall|y: T| #[trigger] enabled_items(u3).add(lp).count(y) == enabled_items(s).count(y) by {
        assert(enabled_items(u1).add(wi).count(y) == enabled_items(s).add(Multiset::<T>::empty()).count(y));
        assert(enabled_items(u2).add(lp).count(y) == enabled_items(u1).add(Multiset::<T>::empty()).count(y));
        assert(enabled_items(u3).add(Multiset::<T>::empty()).count(y) == enabled_items(u2).add(wi).count(y));
    }
    assert(enabled_items(u3).add(lp) =~= enabled_items(s));
}

/// Placing the loser at the next free place adds it to the placed entrants.
pub proof fn lemma_place_loser(f: Seq<Option<usize>>, fi: int, l: usize)
    requires
        0 <= fi < f.len(),
    ensures
        placed_items(f.update(fi, Some(l)).subrange(fi, f.len() as int)) == placed_items(
            f.subrange(fi + 1, f.len() as int),
        ).add(Multiset::singleton(l)),
{
    let n = f.len() as int;
    let one = seq![Some(l)];
    assert(f.update(fi, Some(l)).subrange(fi, n) =~= one + f.subrange(fi + 1, n));
    lemma_placed_items_concat(one, f.subrange(fi + 1, n));
    assert(one.drop_last() =~= Seq::<Option<usize>>::empty());
    assert(one.last() == Some(l));
    assert(placed_items(one.drop_last()) == Multiset::<usize>::empty());
    assert(placed_items(one) == placed_items(one.drop_last()).add(Multiset::singleton(l)));
    assert(placed_items(f.update(fi, Some(l)).subrange(fi, n)) =~= placed_items(f.subrange(fi + 1, n)).add(
        Multiset::singleton(l),
    ));
}

/// A copy of the same shape holds the same entrants in play, where entrants are copied
/// exactly.
pub proof fn lemma_same_shape_items(a: Seq<Option<Node<usize>>>, b: Seq<Option<Node<usize>>>)
    requires
        same_shape(a, b),
    ensures
        enabled_items(a) == enabled_items(b),
    decreases a.len(),
{
    if a.len() > 0 {
        assert(same_shape(a.drop_last(), b.drop_last())) by {
            assert forall|x: int| 0 <= x < a.drop_last().len() implies #[trigger] same_node(
                a.drop_last()[x],
                b.drop_last()[x],
            ) by {
                assert(same_node(a[x], b[x]));
            }
        }
        lemma_same_shape_items(a.drop_last(), b.drop_last());
        assert(same_node(a[a.len() - 1], b[b.len() - 1]));
    }
}

/// Node `(t, j)` comes before node `(t2, j2)` when matches are offered: lower
/// levels first, then left to right.
pub open spec fn offered_before(t: nat, j: nat, t2: nat, j2: nat) -> bool {
    t < t2 || (t == t2 && j < j2)
}

impl<T: Clone> TournamentBracket<T> {
    /// Starts the tournament over: the nodes go back to how they were laid out and
    /// no results are known.
    pub fn reset(&mut self)
        requires old(self).well_formed(),
        ensures
            final(self).well_formed(),
            same_shape(old(self).initial_data@, final(self).data@),
            final(self).results() == Seq::new(old(self).finished@.len(), |i: int| None::<T>),
            final(self).next_place() == old(self).finished@.len() - 1,
            final(self).depth == old(self).depth,
            final(self).complete_depth == old(self).complete_depth,
            final(self).initial_data@ == old(self).initial_data@,
            old(self).in_play() ==> final(self).in_play(),
    {
        let ghost was_in_play = self.in_play();
        self.data = copy_nodes(&self.initial_data);
        proof {
            lemma_same_shape(self.initial_data@, self.data@, self.depth as nat);
            lemma_same_shape_play(self.initial_data@, self.data@, self.depth as nat);
        }
        let n = self.finished.len();
        let mut finished: Vec<Option<T>> = Vec::new();
        let mut k: usize = 0;
        while k < n
            invariant
                k <= n,
                finished@ == Seq::new(k as nat, |i: int| None::<T>),
            decreases n - k,
        {
            finished.push(None);
            k = k + 1;
            proof { assert(finished@ =~= Seq::new(k as nat, |i: int| None::<T>)); }
        }
        self.finished = finished;
        self.finished_index = n - 1;
        proof {
            if was_in_play {
                assert(self.finished@[0] is None);
                assert(self.in_play());
            }
        }
    }

    /// The first match still to be decided, lower rounds first and left to right
    /// within a round: the node that plays and its opponent. `None` when no match
    /// is left.
    pub fn next_match(&self) -> (r: Option<(usize, usize)>)
        requires self.well_formed(),
        ensures
            match r {
                Some((i, p)) => {
                    &&& i < self.data.len()
                    &&& playable(self.data@, i as int)
                    &&& p == self.data@[i as int]->0.pair
                    &&& forall|x: int| 0 <= x < self.data.len() && playable(self.data@, x)
                        ==> !offered_before(level_of(x as nat), pos_of(x as nat),
                                level_of(i as nat), pos_of(i as nat))
                },
                None => forall|x: int| 0 <= x < self.data.len() ==> !playable(self.data@, x),
            },
    {
        let ghost d = self.depth as nat;
        let len = self.data.len();
        proof {
            lemma_exp2_monotone(d + 1, 30);
            lemma_exp2_30();
            lemma_exp2_pos(d);
            assert(exp2(d + 1) == 2 * exp2(d)) by { reveal_with_fuel(exp2, 2); }
        }
        let mut start_i: usize = 0;
        let mut step: usize = 2;
        let ghost mut t: nat = 0;
        while start_i != len / 2
            invariant
                self.well_formed(),
                d == self.depth,
                len == self.data.len(),
                len == exp2(d + 1) - 1,
                len / 2 == exp2(d) - 1,
                exp2(d + 1) <= 0x4000_0000,
                t <= d,
                start_i == exp2(t) - 1,
                step == exp2(t + 1),
                forall|x: int| 0 <= x < len && playable(self.data@, x) ==> level_of(x as nat) >= t,
            decreases d - t,
        {
            let ghost mut jx: nat = 0;
            proof {
                lemma_exp2_pos(t);
                assert(node_index(t, 0) == exp2(t) - 1);
            }
            let mut i = start_i;
            proof { lemma_exp2_pos(t + 1); }
            while i < len
                invariant
                    self.well_formed(),
                    d == self.depth,
                    len == self.data.len(),
                    len == exp2(d + 1) - 1,
                    exp2(d + 1) <= 0x4000_0000,
                    t < d,
                    step == exp2(t + 1),
                    step >= 1,
                    i == node_index(t, jx),
                    jx <= exp2((d - t) as nat),
                    forall|x: int| 0 <= x < len && playable(self.data@, x) ==> level_of(x as nat) >= t,
                    forall|x: int| 0 <= x < len && playable(self.data@, x) && level_of(x as nat) == t
                        ==> pos_of(x as nat) >= jx,
                decreases exp2((d - t) as nat) - jx,
            {
                proof {
                    lemma_node_index(t, jx);
                    lemma_valid_coords(d, i as nat);
                }
                let mut found = false;
                let mut pair: usize = 0;
                if let Some(item) = &self.data[i] {
                    if !item.disabled {
                        pair = item.pair;
                        proof {
                            assert(node_fields_ok(self.data@[i as int], d, i as nat));
                            lemma_pair_in_range(d, t, jx);
                        }
                        if let Some(pn) = &self.data[pair] {
                            if !pn.disabled {
                                found = true;
                            }
                        }
                    }
                }
                if found {
                    return Some((i, pair));
                }
                proof {
                    lemma_exp2_pos(t);
                    assert(node_index(t, jx + 1) == node_index(t, jx) + exp2(t + 1)) by (nonlinear_arith)
                        requires
                            node_index(t, jx) == exp2(t + 1) * jx + exp2(t) - 1,
                            node_index(t, jx + 1) == exp2(t + 1) * (jx + 1) + exp2(t) - 1,
                            exp2(t) >= 1;
                    assert forall|x: int| 0 <= x < len && playable(self.data@, x) && level_of(x as nat) == t
                        implies pos_of(x as nat) >= jx + 1 by {
                        if pos_of(x as nat) == jx {
                            lemma_index_decompose(x as nat);
                        }
                    }
                    jx = jx + 1;
                }
                i = i + step;
            }
            proof {
                assert forall|x: int| 0 <= x < len && playable(self.data@, x) implies level_of(x as nat) >= t + 1 by {
                    if level_of(x as nat) == t {
                        lemma_valid_coords(d, x as nat);
                        lemma_index_decompose(x as nat);
                        lemma_node_in_range(d, t, pos_of(x as nat));
                        assert(pos_of(x as nat) >= jx);
                        lemma_exp2_pos(t);
                        assert(node_index(t, pos_of(x as nat)) >= node_index(t, jx)) by (nonlinear_arith)
                            requires
                                pos_of(x as nat) >= jx,
                                node_index(t, pos_of(x as nat)) == exp2(t + 1) * pos_of(x as nat) + exp2(t) - 1,
                                node_index(t, jx) == exp2(t + 1) * jx + exp2(t) - 1,
                                exp2(t) >= 1;
                    }
                }
                assert(exp2(t + 2) == 2 * exp2(t + 1)) by { reveal_with_fuel(exp2, 2); }
                assert(exp2(t + 1) == 2 * exp2(t)) by { reveal_with_fuel(exp2, 2); }
                lemma_exp2_monotone(t + 2, d + 1);
                t = t + 1;
            }
            start_i = start_i + step / 2;
            step = step * 2;
        }
        proof {
            assert(t == d) by {
                if t < d {
                    lemma_exp2_monotone(t + 1, d);
                    lemma_exp2_pos(t);
                    assert(exp2(t + 1) == 2 * exp2(t)) by { reveal_with_fuel(exp2, 2); }
                }
            }
            assert forall|x: int| 0 <= x < self.data.len() implies !playable(self.data@, x) by {
                if playable(self.data@, x) {
                    lemma_valid_coords(d, x as nat);
                    assert(node_fields_ok(self.data@[x], d, x as nat));
                }
            }
        }
        None
    }
}

impl<T: Clone> TournamentBracket<T> {
    /// The winner once the final is decided.
    pub fn winner(&self) -> (r: &Option<T>)
        requires self.well_formed(),
        ensures *r == self.results()[0],
    {
        &self.finished[0]
    }
}

impl TournamentBracket<usize> {
    /// The results known so far account for the entrants: every place after the next
    /// free one is taken; the entrants placed there and those still in play are,
    /// together, the entrants of the layout; and the first place, once taken, holds the
    /// entrant at the final's slot.
    pub open spec fn results_ok(&self) -> bool {
        let n = self.finished@.len();
        let fi = self.finished_index as int;
        &&& fi < n
        &&& forall|k: int| fi < k < n ==> #[trigger] self.finished@[k] is Some
        &&& placed_items(self.finished@.subrange(fi + 1, n as int)).add(enabled_items(self.data@))
            == enabled_items(self.initial_data@)
        &&& (self.finished@[0] matches Some(w) ==> self.data@[root_index(self.depth as nat) as int] matches Some(
            nd,
        ) && nd.item == w)
    }

    /// A bracket without results whose nodes are those of its layout accounts for its
    /// entrants: so does one that `new` or `reset` gives.
    pub proof fn lemma_fresh_results_ok(&self)
        requires
            self.finished@.len() >= 1,
            self.next_place() == self.finished@.len() - 1,
            forall|k: int| 0 <= k < self.finished@.len() ==> #[trigger] self.finished@[k] is None,
            same_shape(self.data@, self.initial_data@) || same_shape(self.initial_data@, self.data@),
        ensures
            self.results_ok(),
    {
        let n = self.finished@.len() as int;
        if same_shape(self.data@, self.initial_data@) {
            lemma_same_shape_items(self.data@, self.initial_data@);
        } else {
            lemma_same_shape_items(self.initial_data@, self.data@);
        }
        assert(self.finished@.subrange(n, n) =~= Seq::<Option<usize>>::empty());
        assert(placed_items(Seq::<Option<usize>>::empty()) == Multiset::<usize>::empty());
        assert(placed_items(self.finished@.subrange(n, n)).add(enabled_items(self.data@)) =~= enabled_items(
            self.initial_data@,
        ));
    }

    /// Once the winner is known, every place is taken, and the results hold the
    /// entrants of the layout, each as often as it entered.
    pub proof fn lemma_results_complete(&self)
        requires
            self.in_play(),
            self.results_ok(),
            self.next_place() == 0,
        ensures
            forall|k: int| 0 <= k < self.results().len() ==> #[trigger] self.results()[k] is Some,
            placed_items(self.results()) == enabled_items(self.start_data()),
    {
        let d = self.depth as nat;
        let f = self.finished@;
        let n = f.len() as int;
        self.lemma_winner_known();
        let w = f[0]->0;
        lemma_root_alone(self.data@, d);
        lemma_exp2_pos(0);
        assert(exp2(0) == 1);
        lemma_node_in_range(d, d, 0);
        lemma_enabled_items_one(self.data@, root_index(d) as int);
        assert(enabled_items(self.data@) =~= Multiset::singleton(w));
        assert(f =~= seq![f[0]] + f.subrange(1, n));
        lemma_placed_items_concat(seq![f[0]], f.subrange(1, n));
        let one = seq![f[0]];
        assert(one.drop_last() =~= Seq::<Option<usize>>::empty());
        assert(one.last() == Some(w));
        assert(placed_items(one.drop_last()) == Multiset::<usize>::empty());
        assert(placed_items(one) == placed_items(one.drop_last()).add(Multiset::singleton(w)));
        assert(placed_items(one) =~= Multiset::singleton(w));
        assert(placed_items(f) =~= enabled_items(self.initial_data@));
    }
}

/// `b2` and `lut2` are what deciding the match at node `i` of `b` makes of the bracket
/// and of the items' metadata `lut` (see `update`): node `i` and its opponent both
/// play; both stop playing and the winner moves up to their parent; the loser takes the
/// next free place of the results and its rank; where the parent is the final's slot,
/// the winner also takes the first place and rank 1. Nothing else changes.
pub open spec fn decides(
    b: TournamentBracket<usize>,
    lut: Seq<ItemMetadata>,
    i: int,
    b2: TournamentBracket<usize>,
    lut2: Seq<ItemMetadata>,
) -> bool {
    let s = b.data@;
    let nd = s[i]->0;
    let p = nd.pair as int;
    let pn = s[p]->0;
    let parn = s[(i + p) / 2]->0;
    let fi = b.finished_index as int;
    let final_match = parn.pair == usize::MAX;
    let lut1 = lut.update(
        pn.item as int,
        with_rank(lut[pn.item as int], (exp2((b.complete_depth - pn.depth) as nat) + 1) as int),
    );
    let fin1 = b.finished@.update(fi, Some(pn.item));
    &&& 0 <= i < s.len()
    &&& playable(s, i)
    &&& b2.depth == b.depth
    &&& b2.complete_depth == b.complete_depth
    &&& b2.initial_data@ == b.initial_data@
    &&& b2.data@ == after_match(s, i)
    &&& b2.finished_index == fi - 1
    &&& lut2 == if final_match {
        lut1.update(nd.item as int, with_rank(lut1[nd.item as int], 1))
    } else {
        lut1
    }
    &&& b2.finished@ == if final_match {
        fin1.update(fi - 1, Some(nd.item))
    } else {
        fin1
    }
}

impl TournamentBracket<usize> {
    /// Lets the entrant at node `i` win its match: both nodes of the match stop
    /// playing, the winner moves up to the parent node, the loser gets its rank
    /// (one more than the number of entrants that can still place ahead of it) and
    /// the next free place of the results from the end; when the parent is the
    /// final slot the winner also gets rank 1 and the first place. Returns the
    /// winner and the loser, or `None` when no match can be decided at `i`.
    #[verifier::spinoff_prover]
    #[verifier::rlimit(60)]
    pub fn update(&mut self, i: usize, lut: &mut Vec<ItemMetadata>) -> (r: Option<(usize, usize)>)
        requires
            old(self).well_formed(),
            i < old(self).data.len(),
            is_enabled(old(self).data@[i as int]) ==> old(self).data@[i as int]->0.pair != usize::MAX,
            playable(old(self).data@, i as int) ==> items_below(old(self).data@, old(lut).len() as nat),
        ensures
            final(self).well_formed(),
            items_below(old(self).data@, old(lut).len() as nat) ==> items_below(final(self).data@, final(lut).len() as nat),
            old(self).in_play() ==> final(self).in_play(),
            final(lut).len() == old(lut).len(),
            final(self).depth == old(self).depth,
            final(self).complete_depth == old(self).complete_depth,
            final(self).initial_data@ == old(self).initial_data@,
            !playable(old(self).data@, i as int) ==> {
                &&& r is None
                &&& *final(self) == *old(self)
                &&& final(lut)@ == old(lut)@
            },
            playable(old(self).data@, i as int) ==> {
                &&& r == Some((
                    old(self).data@[i as int]->0.item,
                    old(self).data@[old(self).data@[i as int]->0.pair as int]->0.item,
                ))
                &&& decides(*old(self), old(lut)@, i as int, *final(self), final(lut)@)
            },
            old(self).in_play() && old(self).results_ok() ==> final(self).results_ok(),
    {
        let ghost s = self.data@;
        let ghost d = self.depth as nat;
        let n_nodes = self.data.len();
        let (is_node, enabled, p) = match &self.data[i] {
            Some(nd) => (true, !nd.disabled, nd.pair),
            None => (false, false, 0),
        };
        if !is_node || !enabled {
            return None;
        }
        proof {
            lemma_valid_coords(d, i as nat);
            assert(node_fields_ok(s[i as int], d, i as nat));
            let t = level_of(i as nat);
            let j = pos_of(i as nat);
            lemma_index_decompose(i as nat);
            assert(t < d);
            lemma_pair_in_range(d, t, j);
            lemma_pair_parent(t, j);
        }
        let pair_enabled = match &self.data[p] {
            Some(pn) => !pn.disabled,
            None => false,
        };
        if !pair_enabled {
            return None;
        }
        proof {
            lemma_match_keeps_shape(s, d, i as int);
            lemma_exp2_monotone(d + 1, 30);
            lemma_exp2_30();
        }
        let par = (i + p) / 2;
        let loser = self.data[p].as_ref().unwrap().item;
        let loser_depth = self.data[p].as_ref().unwrap().depth;
        let win = self.data[i].as_ref().unwrap().item;
        let fi = self.finished_index;
        let ghost lut0 = lut@;
        let ghost fin0 = self.finished@;
        self.data[i].as_mut().unwrap().disabled = true;
        self.data[p].as_mut().unwrap().disabled = true;
        proof {
            lemma_exp2_30();
            lemma_exp2_monotone((self.complete_depth - loser_depth) as nat, 29);
        }
        let rank = (pow2(self.complete_depth - loser_depth) as i32) + 1;
        lut[loser].rank = Some(rank);
        self.finished.set(fi, Some(loser));
        self.finished_index = fi - 1;
        let parent_pair = self.data[par].as_ref().unwrap().pair;
        if parent_pair == usize::MAX {
            lut[win].rank = Some(1);
            self.finished.set(fi - 1, Some(win));
        }
        let parent = self.data[par].as_mut().unwrap();
        parent.item = win;
        parent.disabled = false;
        proof {
            assert(self.data@ =~= after_match(s, i as int));
            if old(self).in_play() {
                lemma_match_keeps_pairs(s, d, i as int);
                let root = root_index(d) as int;
                lemma_exp2_pos(0);
                assert(exp2(0) == 1);
                lemma_node_in_range(d, d, 0);
                lemma_node_index(d, 0);
                lemma_node_index((level_of(i as nat) + 1) as nat, pos_of(i as nat) / 2);
                if parent_pair == usize::MAX {
                    lemma_final_pair(s, d, i as int);
                    assert(par as int == root);
                } else {
                    assert(par as int != root);
                    assert(self.finished@[0] == old(self).finished@[0]);
                }
                assert(self.in_play());
                if old(self).results_ok() {
                    let n = fin0.len() as int;
                    lemma_match_items(s, d, i as int);
                    lemma_place_loser(fin0, fi as int, loser);
                    let f1 = fin0.update(fi as int, Some(loser));
                    assert(self.finished@.subrange(fi as int, n) =~= f1.subrange(fi as int, n));
                    let before = placed_items(fin0.subrange(fi as int + 1, n));
                    assert(placed_items(self.finished@.subrange(fi as int, n)).add(enabled_items(self.data@))
                        =~= before.add(enabled_items(s)));
                    assert(node_fields_ok(s[p as int], d, p as nat));
                    if parent_pair != usize::MAX {
                        assert(root != i as int);
                        assert(root != p as int);
                        assert(self.data@[root] == s[root]);
                    }
                    assert(self.results_ok());
                }
            }
        }
        Some((win, loser))
    }
}

/// Deciding a match keeps a bracket in play with its results accounting for the
/// entrants, takes one place, and keeps every entrant in play naming a row of the
/// metadata.
#[verifier::spinoff_prover]
#[verifier::rlimit(60)]
pub proof fn lemma_decided_step(
    b: TournamentBracket<usize>,
    lut: Seq<ItemMetadata>,
    i: int,
    b2: TournamentBracket<usize>,
    lut2: Seq<ItemMetadata>,
)
    requires
        b.in_play(),
        b.results_ok(),
        items_below(b.data@, lut.len()),
        decides(b, lut, i, b2, lut2),
    ensures
        b2.in_play(),
        b2.results_ok(),
        items_below(b2.data@, lut2.len()),
        lut2.len() == lut.len(),
        b2.next_place() == b.next_place() - 1,
        b2.results().len() == b.results().len(),
        b2.start_data() == b.start_data(),
{
    let s = b.data@;
    let d = b.depth as nat;
    let nd = s[i]->0;
    let p = nd.pair as int;
    let pn = s[p]->0;
    let par = (i + p) / 2;
    let fi = b.finished_index as int;
    let fin0 = b.finished@;
    let n = fin0.len() as int;
    lemma_exp2_monotone(d + 1, 30);
    lemma_exp2_30();
    assert(nd.pair != usize::MAX);
    lemma_valid_coords(d, i as nat);
    assert(node_fields_ok(s[i], d, i as nat));
    lemma_match_keeps_shape(s, d, i);
    lemma_match_keeps_pairs(s, d, i);
    assert(b2.well_formed());
    let root = root_index(d) as int;
    lemma_exp2_pos(0);
    assert(exp2(0) == 1);
    lemma_node_in_range(d, d, 0);
    lemma_node_index(d, 0);
    lemma_index_decompose(i as nat);
    lemma_pair_in_range(d, level_of(i as nat), pos_of(i as nat));
    lemma_pair_parent(level_of(i as nat), pos_of(i as nat));
    lemma_node_index((level_of(i as nat) + 1) as nat, pos_of(i as nat) / 2);
    let parent_pair = s[par]->0.pair;
    if parent_pair == usize::MAX {
        lemma_final_pair(s, d, i);
        assert(par == root);
    } else {
        assert(par != root);
        assert(b2.finished@[0] == b.finished@[0]);
    }
    assert(b2.in_play());
    lemma_match_items(s, d, i);
    lemma_place_loser(fin0, fi, pn.item);
    let f1 = fin0.update(fi, Some(pn.item));
    assert(b2.finished@.subrange(fi, n) =~= f1.subrange(fi, n));
    let before = placed_items(fin0.subrange(fi + 1, n));
    assert(placed_items(b2.finished@.subrange(fi, n)).add(enabled_items(b2.data@)) =~= before.add(
        enabled_items(s),
    ));
    assert(node_fields_ok(s[p], d, p as nat));
    if parent_pair != usize::MAX {
        assert(root != i);
        assert(root != p);
        assert(b2.data@[root] == s[root]);
    }
    assert(b2.results_ok());
    assert forall|x: int| 0 <= x < b2.data@.len() && is_enabled(#[trigger] b2.data@[x]) implies b2.data@[x]->0.item
        < lut2.len() by {
        if x != par {
            assert(b2.data@[x] == s[x] || x == i || x == p);
        }
    }
}

/// A bracket as `new` gives it for two or more entrants: in play, no place known,
/// its nodes those of its layout.
pub open spec fn fresh_bracket(b: TournamentBracket<usize>) -> bool {
    &&& b.in_play()
    &&& b.next_place() == b.results().len() - 1
    &&& forall|k: int| 0 <= k < b.results().len() ==> #[trigger] b.results()[k] is None
    &&& same_shape(b.data@, b.start_data())
}

/// `b2` and `lut2` are what deciding some match of `b` makes of it and of `lut`.
pub open spec fn decided_step(
    b: TournamentBracket<usize>,
    lut: Seq<ItemMetadata>,
    b2: TournamentBracket<usize>,
    lut2: Seq<ItemMetadata>,
) -> bool {
    exists|i: int| #[trigger] decides(b, lut, i, b2, lut2)
}

/// The `k`-th entry of a run is followed by the one that deciding some match gives.
pub open spec fn run_step(hist: Seq<TournamentBracket<usize>>, luts: Seq<Seq<ItemMetadata>>, k: int) -> bool {
    decided_step(hist[k], luts[k], hist[k + 1], luts[k + 1])
}

/// A run of successful `update` calls on a fresh bracket: `hist[0]` and `luts[0]` are
/// the bracket and the items' metadata at the start, every entrant naming a row of
/// it, and each later entry is what the next decided match makes of the one before.
pub open spec fn decided_run(hist: Seq<TournamentBracket<usize>>, luts: Seq<Seq<ItemMetadata>>) -> bool {
    &&& hist.len() >= 1
    &&& luts.len() == hist.len()
    &&& fresh_bracket(hist[0])
    &&& items_below(hist[0].data@, luts[0].len())
    &&& forall|k: int| 0 <= k < hist.len() - 1 ==> #[trigger] run_step(hist, luts, k)
}

/// After `k` decided matches of a run the bracket is still in play, its results account
/// for the entrants, and `k` places are taken.
pub proof fn lemma_run_prefix(hist: Seq<TournamentBracket<usize>>, luts: Seq<Seq<ItemMetadata>>, k: int)
    requires
        decided_run(hist, luts),
        0 <= k < hist.len(),
    ensures
        hist[k].in_play(),
        hist[k].results_ok(),
        items_below(hist[k].data@, luts[k].len()),
        luts[k].len() == luts[0].len(),
        hist[k].results().len() == hist[0].results().len(),
        hist[k].start_data() == hist[0].start_data(),
        hist[k].next_place() == hist[0].next_place() - k,
    decreases k,
{
    if k == 0 {
        hist[0].lemma_fresh_results_ok();
    } else {
        lemma_run_prefix(hist, luts, k - 1);
        assert(run_step(hist, luts, k - 1));
        let (b0, l0, b1, l1) = (hist[k - 1], luts[k - 1], hist[k], luts[k]);
        let i = choose|i: int| #[trigger] decides(b0, l0, i, b1, l1);
        lemma_decided_step(b0, l0, i, b1, l1);
    }
}

/// Over a run of decided matches on a fresh bracket of `n` entrants, no winner is
/// known before the (n - 1)-th match and one is known after it; while none is known, a
/// match is left to play, so `next_match` finds one; and no run decides more than
/// `n - 1` matches.
pub proof fn lemma_match_while_no_winner(hist: Seq<TournamentBracket<usize>>, luts: Seq<Seq<ItemMetadata>>, k: int)
    requires
        decided_run(hist, luts),
        0 <= k < hist.len(),
    ensures
        hist.len() <= hist[0].results().len(),
        hist[k].results()[0] is None <==> k < hist[0].results().len() - 1,
        hist[k].results()[0] is None ==> exists|i: int| 0 <= i < hist[k].data@.len() && playable(hist[k].data@, i),
{
    let last = hist.len() - 1;
    lemma_run_prefix(hist, luts, last);
    lemma_run_prefix(hist, luts, k);
    hist[k].lemma_winner_known();
    if hist[k].results()[0] is None {
        hist[k].lemma_match_left();
    }
}

/// After `n - 1` decided matches on a fresh bracket of `n` entrants, the winner is
/// known and holds rank 1, every place is taken, and the places hold the bracket's
/// entrants, each as often as it entered.
pub proof fn lemma_finished_run(hist: Seq<TournamentBracket<usize>>, luts: Seq<Seq<ItemMetadata>>)
    requires
        decided_run(hist, luts),
        hist.len() == hist[0].results().len(),
    ensures
        ({
            let b = hist.last();
            &&& forall|k: int| 0 <= k < b.results().len() ==> #[trigger] b.results()[k] is Some
            &&& placed_items(b.results()) == enabled_items(hist[0].data@)
            &&& b.results()[0] matches Some(w) && w < luts.last().len() && luts.last()[w as int].rank
                == Some(1i32)
        }),
{
    let n = hist.len() as int;
    let last = n - 1;
    lemma_run_prefix(hist, luts, last);
    let b = hist[last];
    b.lemma_winner_known();
    b.lemma_results_complete();
    lemma_same_shape_items(hist[0].data@, hist[0].start_data());
    if last == 0 {
        assert(hist[0].results()[0] is None);
    } else {
        let k = last - 1;
        lemma_run_prefix(hist, luts, k);
        hist[k].lemma_winner_known();
        assert(run_step(hist, luts, k));
        let (b0, l0, b1, l1) = (hist[k], luts[k], hist[k + 1], luts[k + 1]);
        let i = choose|i: int| #[trigger] decides(b0, l0, i, b1, l1);
        let s = hist[k].data@;
        let nd = s[i]->0;
        let p = nd.pair as int;
        let parn = s[(i + p) / 2]->0;
        assert(hist[k].finished_index == 1);
        if parn.pair != usize::MAX {
            assert(b.finished@[0] == hist[k].finished@[0]);
        }
        assert(is_enabled(s[i]));
        assert(nd.item < luts[k].len());
    }
}

/// Two brackets of the same shape hold the same entrants where they play.
pub proof fn lemma_items_below_same_shape(a: Seq<Option<Node<usize>>>, b: Seq<Option<Node<usize>>>, len: nat)
    requires
        same_shape(a, b),
        items_below(a, len),
    ensures
        items_below(b, len),
{
    assert forall|x: int| 0 <= x < b.len() && is_enabled(#[trigger] b[x]) implies b[x]->0.item < len by {
        assert(same_node(a[x], b[x]));
        assert(is_enabled(a[x]));
    }
}

/// A bracket laid out for entrants below `len` holds only entrants below `len`.
pub proof fn lemma_laid_out_items_below(data: Seq<Option<Node<usize>>>, items: Seq<usize>, d: nat, len: nat)
    requires
        1 <= items.len(),
        exp2(d) >= items.len(),
        d == 0 || exp2((d - 1) as nat) < items.len(),
        data.len() == exp2(d + 1) - 1,
        forall|x: int| 0 <= x < data.len() ==> laid_out(#[trigger] data[x], items, usize::MAX, d, x as nat),
        forall|i: int| 0 <= i < items.len() ==> #[trigger] items[i] < len,
    ensures
        items_below(data, len),
{
    lemma_seed_order_permutation(d);
    let n = items.len();
    assert(byes(n, d) < n || (d == 0 && n == 1)) by {
        if d > 0 {
            lemma_exp2_pos((d - 1) as nat);
            assert(exp2(d) == 2 * exp2((d - 1) as nat));
        } else {
            assert(exp2(0) == 1);
        }
    }
    assert forall|x: int| 0 <= x < data.len() && is_enabled(#[trigger] data[x]) implies data[x]->0.item < len by {
        assert(laid_out(data[x], items, usize::MAX, d, x as nat));
        lemma_valid_coords(d, x as nat);
        let t = level_of(x as nat);
        let j = pos_of(x as nat);
        let s = seed_order(d);
        if t == 0 {
            assert(j < exp2(d));
        } else if t == 1 {
            lemma_exp2_pos((d - 1) as nat);
            assert(exp2(d) == 2 * exp2((d - 1) as nat));
            assert(2 * j + 1 < exp2(d));
            assert(1 <= s[(2 * j) as int]);
            assert(1 <= s[(2 * j + 1) as int]);
        }
    }
}

} // verus!
