//! What holds of the process trees that are rolled up.
use crate::model::ProcView;
use crate::procs::{below, below_all, depth, descendants, ends, kids};
use vstd::prelude::*;

verus! {

/// The children of a process are the listed processes that name it as their parent.
pub proof fn lemma_kids_are(procs: Seq<ProcView>, pid: i32, p: ProcView)
    ensures
        kids(procs, pid).contains(p) <==> procs.contains(p) && p.ppid == pid,
    decreases procs.len(),
{
    if procs.len() > 0 {
        let t = procs.drop_last();
        lemma_kids_are(t, pid, p);
        let ks = kids(procs, pid);
        if procs.contains(p) && p != procs.last() {
            let i = choose|i: int| 0 <= i < procs.len() && procs[i] == p;
            assert(t[i] == p);
        }
        if t.contains(p) {
            let i = choose|i: int| 0 <= i < t.len() && t[i] == p;
            assert(procs[i] == p);
        }
        if kids(t, pid).contains(p) {
            let i = choose|i: int| 0 <= i < kids(t, pid).len() && kids(t, pid)[i] == p;
            assert(ks[i] == p);
        }
        if ks.contains(p) && !(procs.last().ppid == pid && p == procs.last()) {
            let i = choose|i: int| 0 <= i < ks.len() && ks[i] == p;
            assert(kids(t, pid)[i] == p);
        }
        if procs.last().ppid == pid && p == procs.last() {
            assert(ks[ks.len() - 1] == p);
            assert(procs[procs.len() - 1] == p);
        }
    }
}

proof fn lemma_in_sum(a: Seq<ProcView>, b: Seq<ProcView>, p: ProcView)
    ensures
        (a + b).contains(p) <==> a.contains(p) || b.contains(p),
{
    if a.contains(p) {
        let i = choose|i: int| 0 <= i < a.len() && a[i] == p;
        assert((a + b)[i] == p);
    }
    if b.contains(p) {
        let i = choose|i: int| 0 <= i < b.len() && b[i] == p;
        assert((a + b)[a.len() + i] == p);
    }
    if (a + b).contains(p) {
        let i = choose|i: int| 0 <= i < (a + b).len() && (a + b)[i] == p;
        if i < a.len() {
            assert(a[i] == p);
        } else {
            assert(b[i - a.len()] == p);
        }
    }
}

/// What is below one of `tops` is below them all, and the other way round.
proof fn lemma_below_all(procs: Seq<ProcView>, tops: Seq<ProcView>, h: nat, p: ProcView)
    ensures
        below_all(procs, tops, h).contains(p) <==> exists|i: int|
            0 <= i < tops.len() && below(procs, (#[trigger] tops[i]).pid, h).contains(p),
    decreases tops.len(),
{
    if tops.len() > 0 {
        let t = tops.drop_last();
        lemma_below_all(procs, t, h, p);
        lemma_in_sum(below(procs, tops.last().pid, h), below_all(procs, t, h), p);
        if below_all(procs, t, h).contains(p) {
            let i = choose|i: int|
                0 <= i < t.len() && below(procs, (#[trigger] t[i]).pid, h).contains(p);
            assert(tops[i] == t[i]);
        }
        if below(procs, tops.last().pid, h).contains(p) {
            assert(tops[tops.len() - 1] == tops.last());
        }
        if exists|i: int|
            0 <= i < tops.len() && below(procs, (#[trigger] tops[i]).pid, h).contains(p) {
            let i = choose|i: int|
                0 <= i < tops.len() && below(procs, (#[trigger] tops[i]).pid, h).contains(p);
            if i < t.len() {
                assert(t[i] == tops[i]);
            }
        }
    }
}

proof fn lemma_closed(procs: Seq<ProcView>, pid: i32, h: nat, q: ProcView, p: ProcView)
    requires
        ends(procs, pid, h),
        below(procs, pid, h).contains(q),
        kids(procs, q.pid).contains(p),
    ensures
        below(procs, pid, h).contains(p),
    decreases h,
{
    let ks = kids(procs, pid);
    let h1 = (h - 1) as nat;
    lemma_in_sum(ks, below_all(procs, ks, h1), q);
    lemma_in_sum(ks, below_all(procs, ks, h1), p);
    lemma_below_all(procs, ks, h1, p);
    if ks.contains(q) {
        let i = choose|i: int| 0 <= i < ks.len() && ks[i] == q;
        assert(ends(procs, ks[i].pid, h1));
        lemma_in_sum(
            kids(procs, q.pid),
            below_all(procs, kids(procs, q.pid), (h1 - 1) as nat),
            p,
        );
        assert(below(procs, ks[i].pid, h1).contains(p));
    } else {
        lemma_below_all(procs, ks, h1, q);
        let i = choose|i: int|
            0 <= i < ks.len() && below(procs, (#[trigger] ks[i]).pid, h1).contains(q);
        assert(ends(procs, ks[i].pid, h1));
        lemma_closed(procs, ks[i].pid, h1, q, p);
    }
}

proof fn lemma_founded(procs: Seq<ProcView>, pid: i32, h: nat, q: ProcView)
    requires
        below(procs, pid, h).contains(q),
    ensures
        procs.contains(q),
        q.ppid == pid || exists|p: ProcView|
            #[trigger] below(procs, pid, h).contains(p) && q.ppid == p.pid,
    decreases h,
{
    let ks = kids(procs, pid);
    let h1 = (h - 1) as nat;
    lemma_in_sum(ks, below_all(procs, ks, h1), q);
    lemma_kids_are(procs, pid, q);
    if !ks.contains(q) {
        lemma_below_all(procs, ks, h1, q);
        let i = choose|i: int|
            0 <= i < ks.len() && below(procs, (#[trigger] ks[i]).pid, h1).contains(q);
        let k = ks[i];
        lemma_founded(procs, k.pid, h1, q);
        if q.ppid == k.pid {
            assert(ks.contains(k));
            lemma_in_sum(ks, below_all(procs, ks, h1), k);
        } else {
            let p = choose|p: ProcView|
                #[trigger] below(procs, k.pid, h1).contains(p) && q.ppid == p.pid;
            assert(below(procs, ks[i].pid, h1).contains(p));
            lemma_below_all(procs, ks, h1, p);
            lemma_in_sum(ks, below_all(procs, ks, h1), p);
        }
    }
}

/// A session holds everything below it: its children, and the children of whatever it
/// holds.
pub proof fn descendants_are_complete(procs: Seq<ProcView>, pid: i32, p: ProcView)
    requires
        ends(procs, pid, depth(procs)),
        procs.contains(p),
        p.ppid == pid || exists|q: ProcView|
            #[trigger] descendants(procs, pid).contains(q) && p.ppid == q.pid,
    ensures
        descendants(procs, pid).contains(p),
{
    let h = depth(procs);
    if p.ppid == pid {
        lemma_kids_are(procs, pid, p);
        lemma_in_sum(kids(procs, pid), below_all(procs, kids(procs, pid), (h - 1) as nat), p);
    } else {
        let q = choose|q: ProcView|
            #[trigger] descendants(procs, pid).contains(q) && p.ppid == q.pid;
        lemma_kids_are(procs, q.pid, p);
        lemma_closed(procs, pid, h, q, p);
    }
}

/// A session holds nothing else: each process in it is listed, and is a child of the
/// session or of something in it.
pub proof fn descendants_are_below(procs: Seq<ProcView>, pid: i32, p: ProcView)
    requires
        descendants(procs, pid).contains(p),
    ensures
        procs.contains(p),
        p.ppid == pid || exists|q: ProcView|
            #[trigger] descendants(procs, pid).contains(q) && p.ppid == q.pid,
{
    lemma_founded(procs, pid, depth(procs), p);
}

proof fn lemma_ends_later(procs: Seq<ProcView>, pid: i32, h: nat, g: nat)
    requires
        ends(procs, pid, h),
        h <= g,
    ensures
        ends(procs, pid, g),
    decreases h,
{
    let ks = kids(procs, pid);
    assert forall|i: int| 0 <= i < ks.len() implies ends(
        procs,
        (#[trigger] ks[i]).pid,
        (g - 1) as nat,
    ) by {
        lemma_ends_later(procs, ks[i].pid, (h - 1) as nat, (g - 1) as nat);
    }
}

/// A tree of exactly `h` generations has as many processes below its top, all of
/// different height.
proof fn lemma_chain(procs: Seq<ProcView>, pid: i32, h: nat) -> (s: Set<int>)
    requires
        ends(procs, pid, h),
        !ends(procs, pid, (h - 1) as nat),
    ensures
        s.finite(),
        s.len() == h - 1,
        forall|i: int| #[trigger] s.contains(i) ==> 0 <= i < procs.len() && ends(
            procs,
            procs[i].pid,
            (h - 1) as nat,
        ),
    decreases h,
{
    if h == 1 {
        Set::empty()
    } else {
        let ks = kids(procs, pid);
        let j = choose|j: int|
            0 <= j < ks.len() && !ends(procs, (#[trigger] ks[j]).pid, (h - 2) as nat);
        let k = ks[j];
        assert(ks.contains(k));
        lemma_kids_are(procs, pid, k);
        let at = choose|i: int| 0 <= i < procs.len() && procs[i] == k;
        let t = lemma_chain(procs, k.pid, (h - 1) as nat);
        assert(!t.contains(at));
        assert forall|i: int| #[trigger] t.insert(at).contains(i) implies 0 <= i < procs.len()
            && ends(procs, procs[i].pid, (h - 1) as nat) by {
            if i != at {
                assert(t.contains(i));
                lemma_ends_later(procs, procs[i].pid, (h - 2) as nat, (h - 1) as nat);
            }
        }
        t.insert(at)
    }
}

/// A tree that ends at all has no more generations than there are processes.
pub proof fn trees_are_shallow(procs: Seq<ProcView>, pid: i32, h: nat)
    requires
        ends(procs, pid, h),
    ensures
        ends(procs, pid, depth(procs)),
    decreases h,
{
    if h <= depth(procs) {
        lemma_ends_later(procs, pid, h, depth(procs));
    } else if ends(procs, pid, (h - 1) as nat) {
        trees_are_shallow(procs, pid, (h - 1) as nat);
    } else {
        let s = lemma_chain(procs, pid, h);
        let all = vstd::set_lib::set_int_range(0, procs.len() as int);
        vstd::set_lib::lemma_int_range(0, procs.len() as int);
        assert(s.subset_of(all));
        vstd::set_lib::lemma_len_subset(s, all);
    }
}

} // verus!
