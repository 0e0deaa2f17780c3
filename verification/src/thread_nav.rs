//! Navigation in the thread view: which entries of a thread are visible
//! once subtrees are collapsed, where the cursor is, and how the view's
//! keys move the cursor, the focus and the layout.
use vstd::prelude::*;
use crate::mail_view::{ThreadViewFocus, FocusDirection, FocusStep, step_spec};

verus! {

broadcast use vstd::seq::Seq::group_seq_flatten;

/// What the visibility computation reads of a thread entry: whether its
/// subtree is collapsed, its depth, and whether it changed.
#[derive(Clone, Copy, Debug, PartialEq, Eq, Structural)]
pub struct EntryShape {
    pub hidden: bool,
    pub indentation: usize,
    pub dirty: bool,
}

/// The state of the scan over the entries: the groups of visible entries
/// so far, the depths of the collapsed subtrees being skipped, and whether
/// the previous entry was collapsed.
pub struct ScanState {
    pub groups: Seq<Seq<usize>>,
    pub stack: Seq<usize>,
    pub prev_hidden: bool,
}

/// The scan before any entry.
pub open spec fn scan_start() -> ScanState {
    ScanState { groups: seq![Seq::empty()], stack: Seq::empty(), prev_hidden: false }
}

/// The groups with `idx` appended to the last one.
pub open spec fn push_last(groups: Seq<Seq<usize>>, idx: usize) -> Seq<Seq<usize>> {
    groups.update(groups.len() - 1, groups.last().push(idx))
}

/// One step of the scan, over entry `idx`.
pub open spec fn scan_step(st: ScanState, idx: usize, e: EntryShape) -> ScanState {
    if e.hidden {
        if !st.prev_hidden {
            ScanState {
                groups: push_last(st.groups, idx),
                stack: st.stack.push(e.indentation),
                prev_hidden: true,
            }
        } else if st.stack.len() > 0 && st.stack.last() == e.indentation {
            ScanState { groups: st.groups.push(seq![idx]), stack: st.stack, prev_hidden: true }
        } else {
            ScanState { groups: st.groups, stack: st.stack, prev_hidden: true }
        }
    } else if st.prev_hidden {
        if st.stack.last() >= e.indentation {
            ScanState {
                groups: st.groups.push(seq![idx]),
                stack: st.stack.drop_last(),
                prev_hidden: false,
            }
        } else {
            st
        }
    } else {
        ScanState { groups: push_last(st.groups, idx), stack: st.stack, prev_hidden: false }
    }
}

/// The scan over the first `k` entries.
pub open spec fn scan_upto(entries: Seq<EntryShape>, k: nat) -> ScanState
    decreases k,
{
    if k == 0 {
        scan_start()
    } else {
        scan_step(scan_upto(entries, (k - 1) as nat), (k - 1) as usize, entries[k - 1])
    }
}

/// Whether some entry changed.
pub open spec fn any_dirty(entries: Seq<EntryShape>) -> bool {
    exists|i: int| 0 <= i < entries.len() && #[trigger] entries[i].dirty
}

/// The visible entries after a recomputation: the scan's groups when some
/// entry changed (the previous groups otherwise), reversed for a reversed
/// thread; with no entries, the previous groups as they are.
pub open spec fn recalc_spec(entries: Seq<EntryShape>, visible: Seq<Seq<usize>>, reversed: bool) -> Seq<Seq<usize>> {
    if entries.len() == 0 {
        visible
    } else {
        let v = if any_dirty(entries) {
            scan_upto(entries, entries.len()).groups
        } else {
            visible
        };
        if reversed {
            v.reverse()
        } else {
            v
        }
    }
}

/// The index sequences held by a vector of index vectors.
pub open spec fn index_rows(v: Seq<Vec<usize>>) -> Seq<Seq<usize>> {
    Seq::new(v.len(), |i: int| v[i]@)
}

/// What the scan keeps true: there is a group, a collapsed previous entry
/// has its depth on the stack, and the visible entries, in order, are
/// increasing and below `k`.
pub open spec fn scan_inv(st: ScanState, k: nat) -> bool {
    &&& st.groups.len() >= 1
    &&& st.prev_hidden ==> st.stack.len() >= 1
    &&& forall|i: int, j: int|
        0 <= i < j < st.groups.flatten().len() ==> #[trigger] st.groups.flatten()[i]
            < #[trigger] st.groups.flatten()[j]
    &&& forall|i: int| 0 <= i < st.groups.flatten().len() ==> #[trigger] st.groups.flatten()[i] < k
}

/// Appending `x` to the last group appends it to the flattening.
proof fn lemma_push_last_flatten(groups: Seq<Seq<usize>>, x: usize)
    requires
        groups.len() >= 1,
    ensures
        push_last(groups, x).flatten() == groups.flatten().push(x),
{
    let init = groups.drop_last();
    assert(groups =~= init.push(groups.last()));
    assert(push_last(groups, x) =~= init.push(groups.last().push(x)));
    init.lemma_flatten_push(groups.last());
    init.lemma_flatten_push(groups.last().push(x));
    assert(init.flatten() + groups.last().push(x) =~= (init.flatten() + groups.last()).push(x));
}

/// The scan keeps its invariant.
pub proof fn lemma_scan_inv(entries: Seq<EntryShape>, k: nat)
    requires
        k <= entries.len(),
        k <= usize::MAX,
    ensures
        scan_inv(scan_upto(entries, k), k),
    decreases k,
{
    if k == 0 {
        assert(seq![Seq::<usize>::empty()].flatten() =~= Seq::<usize>::empty()) by {
            seq![Seq::<usize>::empty()].lemma_flatten_singleton();
        }
    } else {
        lemma_scan_inv(entries, (k - 1) as nat);
        let st = scan_upto(entries, (k - 1) as nat);
        let idx = (k - 1) as usize;
        let e = entries[k - 1];
        let f = st.groups.flatten();
        let next = scan_step(st, idx, e);
        if e.hidden {
            if !st.prev_hidden {
                lemma_push_last_flatten(st.groups, idx);
            } else if st.stack.len() > 0 && st.stack.last() == e.indentation {
                st.groups.lemma_flatten_push(seq![idx]);
                assert(f + seq![idx] =~= f.push(idx));
            }
        } else if st.prev_hidden {
            if st.stack.last() >= e.indentation {
                st.groups.lemma_flatten_push(seq![idx]);
                assert(f + seq![idx] =~= f.push(idx));
            }
        } else {
            lemma_push_last_flatten(st.groups, idx);
        }
        let g = next.groups.flatten();
        assert(g == f || g == f.push(idx));
        assert forall|i: int, j: int| 0 <= i < j < g.len() implies #[trigger] g[i] < #[trigger] g[j] by {
            if g == f.push(idx) && j == f.len() {
                assert(g[i] == f[i]);
            } else {
                assert(g[i] == f[i] && g[j] == f[j]);
            }
        }
        assert forall|i: int| 0 <= i < g.len() implies #[trigger] g[i] < k by {
            if g == f.push(idx) && i == f.len() {
            } else {
                assert(g[i] == f[i]);
            }
        }
    }
}

/// Recomputing visibility from scratch lists each entry at most once, in
/// thread order: the visible entries, read group after group, are
/// increasing and are entries of the thread.
pub proof fn law_visible_entries_are_ordered(entries: Seq<EntryShape>)
    requires
        entries.len() <= usize::MAX,
    ensures
        ({
            let f = scan_upto(entries, entries.len()).groups.flatten();
            &&& forall|i: int, j: int| 0 <= i < j < f.len() ==> #[trigger] f[i] < #[trigger] f[j]
            &&& forall|i: int| 0 <= i < f.len() ==> #[trigger] f[i] < entries.len()
        }),
{
    lemma_scan_inv(entries, entries.len());
}

/// The visible entries, read group after group, after a recomputation
/// from scratch (some entry changed, the thread in its own order).
pub open spec fn listed(entries: Seq<EntryShape>, k: int) -> bool {
    recalc_spec(entries, Seq::empty(), false).flatten().contains(k as usize)
}

/// Whether the scan's step lists the entry it reads.
spec fn step_adds(st: ScanState, e: EntryShape) -> bool {
    if e.hidden {
        !st.prev_hidden || (st.stack.len() > 0 && st.stack.last() == e.indentation)
    } else {
        !st.prev_hidden || st.stack.last() >= e.indentation
    }
}

proof fn lemma_step_flatten(st: ScanState, idx: usize, e: EntryShape)
    requires
        st.groups.len() >= 1,
    ensures
        scan_step(st, idx, e).groups.flatten() == (if step_adds(st, e) {
            st.groups.flatten().push(idx)
        } else {
            st.groups.flatten()
        }),
        scan_step(st, idx, e).groups.len() >= 1,
{
    let f = st.groups.flatten();
    if e.hidden {
        if !st.prev_hidden {
            lemma_push_last_flatten(st.groups, idx);
        } else if st.stack.len() > 0 && st.stack.last() == e.indentation {
            st.groups.lemma_flatten_push(seq![idx]);
            assert(f + seq![idx] =~= f.push(idx));
        }
    } else if st.prev_hidden {
        if st.stack.last() >= e.indentation {
            st.groups.lemma_flatten_push(seq![idx]);
            assert(f + seq![idx] =~= f.push(idx));
        }
    } else {
        lemma_push_last_flatten(st.groups, idx);
    }
}

/// Later steps only append entries after `k`.
proof fn lemma_scan_grows(entries: Seq<EntryShape>, k: nat, m: nat)
    requires
        k <= m <= entries.len(),
        entries.len() <= usize::MAX,
    ensures
        scan_upto(entries, k).groups.flatten().is_prefix_of(scan_upto(entries, m).groups.flatten()),
        forall|i: int|
            scan_upto(entries, k).groups.flatten().len() <= i < scan_upto(entries, m).groups.flatten().len()
                ==> #[trigger] scan_upto(entries, m).groups.flatten()[i] >= k,
    decreases m - k,
{
    if k < m {
        lemma_scan_grows(entries, k, (m - 1) as nat);
        lemma_scan_inv(entries, (m - 1) as nat);
        lemma_step_flatten(scan_upto(entries, (m - 1) as nat), (m - 1) as usize, entries[m - 1]);
    }
}

/// An entry is listed exactly when the scan lists it as it reads it.
proof fn lemma_listed_iff_added(entries: Seq<EntryShape>, k: nat)
    requires
        k < entries.len() <= usize::MAX,
        any_dirty(entries),
    ensures
        listed(entries, k as int) <==> step_adds(scan_upto(entries, k), entries[k as int]),
{
    let st = scan_upto(entries, k);
    lemma_scan_inv(entries, k);
    lemma_step_flatten(st, k as usize, entries[k as int]);
    lemma_scan_grows(entries, k + 1, entries.len());
    let f0 = st.groups.flatten();
    let f1 = scan_upto(entries, k + 1).groups.flatten();
    let fin = scan_upto(entries, entries.len()).groups.flatten();
    assert(recalc_spec(entries, Seq::empty(), false) == scan_upto(entries, entries.len()).groups);
    if step_adds(st, entries[k as int]) {
        assert(fin[f0.len() as int] == f1[f0.len() as int]);
        assert(fin.contains(k as usize));
    } else {
        if fin.contains(k as usize) {
            let i = choose|i: int| 0 <= i < fin.len() && fin[i] == k as usize;
            if i < f1.len() {
                assert(f1[i] == f0[i]);
                assert(f0[i] < k);
            }
        }
    }
}

/// Below a listed collapsed entry at `i`, the scan reads its deeper
/// entries with nothing changed.
proof fn lemma_inside_collapsed(entries: Seq<EntryShape>, i: nat, m: nat)
    requires
        i < m <= entries.len() <= usize::MAX,
        any_dirty(entries),
        entries[i as int].hidden,
        listed(entries, i as int),
        forall|q: int| i < q < m ==> #[trigger] entries[q].indentation > entries[i as int].indentation,
    ensures
        scan_upto(entries, m).prev_hidden,
        scan_upto(entries, m).stack.len() > 0,
        scan_upto(entries, m).stack.last() == entries[i as int].indentation,
        forall|q: int| i < q < m ==> !listed(entries, q),
    decreases m - i,
{
    lemma_listed_iff_added(entries, i);
    if m > i + 1 {
        lemma_inside_collapsed(entries, i, (m - 1) as nat);
        let q = (m - 1) as nat;
        lemma_listed_iff_added(entries, q);
        assert(entries[q as int].indentation > entries[i as int].indentation);
        assert forall|p: int| i < p < m implies !listed(entries, p) by {
            if p < m - 1 {
            }
        }
    }
}

/// What a recomputation from scratch shows of a thread, by depth: an
/// entry with no collapsed entry before it is listed; below a listed
/// collapsed entry its deeper entries are not listed; and the first entry
/// after them that is as shallow as it is listed exactly when it is shown
/// or at the very same depth (a collapsed sibling).
pub proof fn law_collapsed_subtrees_hide_their_replies(entries: Seq<EntryShape>, i: int, j: int)
    requires
        entries.len() <= usize::MAX,
        any_dirty(entries),
        0 <= i < j < entries.len(),
    ensures
        (forall|q: int| 0 <= q < j ==> !(#[trigger] entries[q]).hidden) ==> listed(entries, j),
        entries[i].hidden && listed(entries, i) && (forall|q: int|
            i < q < j ==> #[trigger] entries[q].indentation > entries[i].indentation) ==> {
            &&& forall|q: int| i < q < j ==> !listed(entries, q)
            &&& entries[j].indentation <= entries[i].indentation ==> (listed(entries, j) <==> (
            !entries[j].hidden || entries[j].indentation == entries[i].indentation))
        },
{
    if forall|q: int| 0 <= q < j ==> !(#[trigger] entries[q]).hidden {
        lemma_all_shown_prefix(entries, j as nat);
        lemma_listed_iff_added(entries, j as nat);
    }
    if entries[i].hidden && listed(entries, i) && (forall|q: int|
        i < q < j ==> #[trigger] entries[q].indentation > entries[i].indentation) {
        lemma_inside_collapsed(entries, i as nat, j as nat);
        lemma_listed_iff_added(entries, j as nat);
    }
}

/// With only shown entries before `k`, the scan reaches `k` outside any
/// collapsed subtree.
proof fn lemma_all_shown_prefix(entries: Seq<EntryShape>, k: nat)
    requires
        k <= entries.len(),
        forall|q: int| 0 <= q < k ==> !(#[trigger] entries[q]).hidden,
    ensures
        !scan_upto(entries, k).prev_hidden,
    decreases k,
{
    if k > 0 {
        lemma_all_shown_prefix(entries, (k - 1) as nat);
    }
}

/// Recomputes which entries are visible, as [`recalc_spec`] states it.
pub fn recalc_visible_entries(entries: &Vec<EntryShape>, visible: Vec<Vec<usize>>, reversed: bool) -> (r: Vec<Vec<usize>>)
    ensures
        index_rows(r@) == recalc_spec(entries@, index_rows(visible@), reversed),
{
    if entries.len() == 0 {
        return visible;
    }
    let mut dirty = false;
    let mut i: usize = 0;
    while i < entries.len()
        invariant
            i <= entries@.len(),
            dirty <==> exists|j: int| 0 <= j < i && #[trigger] entries@[j].dirty,
        decreases entries@.len() - i,
    {
        if entries[i].dirty {
            dirty = true;
        }
        i = i + 1;
    }
    let mut v = visible;
    if dirty {
        v = scan(entries);
    }
    if reversed {
        v = reverse_rows(v);
    }
    v
}

/// The groups of the scan over all the entries.
fn scan(entries: &Vec<EntryShape>) -> (r: Vec<Vec<usize>>)
    ensures
        index_rows(r@) == scan_upto(entries@, entries@.len()).groups,
{
    let mut groups: Vec<Vec<usize>> = Vec::new();
    groups.push(Vec::new());
    let mut stack: Vec<usize> = Vec::new();
    let mut prev_hidden = false;
    let mut k: usize = 0;
    proof {
        assert(index_rows(groups@) =~= scan_start().groups);
    }
    while k < entries.len()
        invariant
            k <= entries@.len(),
            index_rows(groups@) == scan_upto(entries@, k as nat).groups,
            stack@ == scan_upto(entries@, k as nat).stack,
            prev_hidden == scan_upto(entries@, k as nat).prev_hidden,
            groups@.len() >= 1,
            prev_hidden ==> stack@.len() >= 1,
        decreases entries@.len() - k,
    {
        proof {
            lemma_scan_inv(entries@, k as nat);
        }
        let e = entries[k];
        let ghost before = index_rows(groups@);
        if e.hidden {
            if !prev_hidden {
                push_to_last(&mut groups, k);
                stack.push(e.indentation);
                prev_hidden = true;
            } else if stack.len() > 0 && stack[stack.len() - 1] == e.indentation {
                let one = vec![k];
                assert(one@ =~= seq![k]);
                groups.push(one);
                assert(index_rows(groups@) =~= before.push(seq![k]));
            }
        } else if prev_hidden {
            if stack[stack.len() - 1] >= e.indentation {
                let one = vec![k];
                assert(one@ =~= seq![k]);
                groups.push(one);
                assert(index_rows(groups@) =~= before.push(seq![k]));
                stack.pop();
                prev_hidden = false;
            }
        } else {
            push_to_last(&mut groups, k);
        }
        k = k + 1;
    }
    groups
}

/// Appends `x` to the last group.
fn push_to_last(groups: &mut Vec<Vec<usize>>, x: usize)
    requires
        old(groups)@.len() >= 1,
    ensures
        index_rows(final(groups)@) == push_last(index_rows(old(groups)@), x),
        final(groups)@.len() == old(groups)@.len(),
{
    let mut last = groups.pop().unwrap();
    last.push(x);
    groups.push(last);
    assert(index_rows(groups@) =~= push_last(index_rows(old(groups)@), x));
}

/// The groups in the opposite order.
fn reverse_rows(v: Vec<Vec<usize>>) -> (r: Vec<Vec<usize>>)
    ensures
        index_rows(r@) == index_rows(v@).reverse(),
{
    let mut r: Vec<Vec<usize>> = Vec::new();
    let mut src = v;
    let ghost all = index_rows(src@);
    while src.len() > 0
        invariant
            index_rows(src@) + index_rows(r@).reverse() == all,
        decreases src@.len(),
    {
        let ghost s_before = index_rows(src@);
        let ghost r_before = index_rows(r@);
        let x = src.pop().unwrap();
        r.push(x);
        assert(index_rows(src@) =~= s_before.drop_last());
        assert(index_rows(r@) =~= r_before.push(s_before.last()));
        assert(index_rows(r@).reverse() =~= seq![s_before.last()] + r_before.reverse());
        assert(index_rows(src@) + index_rows(r@).reverse() =~= s_before + r_before.reverse());
    }
    assert(index_rows(src@) =~= Seq::<Seq<usize>>::empty());
    assert(index_rows(r@).reverse().reverse() =~= index_rows(r@));
    assert(all.reverse() =~= index_rows(r@)) by {
        assert(all =~= index_rows(r@).reverse());
    }
    r
}


/// The visible entries, read group after group.
pub open spec fn flat(visible: Seq<Vec<usize>>) -> Seq<usize> {
    index_rows(visible).flatten()
}

/// The entry at position `n` of the visible entries, read group after
/// group, if there are more than `n` of them.
pub fn nth_visible(visible: &Vec<Vec<usize>>, n: usize) -> (r: Option<usize>)
    ensures
        r == (if n < flat(visible@).len() {
            Some(flat(visible@)[n as int])
        } else {
            None::<usize>
        }),
{
    let ghost rows = index_rows(visible@);
    let mut rem: usize = n;
    let mut g: usize = 0;
    while g < visible.len()
        invariant
            rows == index_rows(visible@),
            g <= visible@.len(),
            rem + rows.take(g as int).flatten().len() == n,
        decreases visible@.len() - g,
    {
        let ghost t = rows.take(g as int);
        proof {
            assert(rows.take(g + 1) =~= t.push(rows[g as int]));
            t.lemma_flatten_push(rows[g as int]);
        }
        let len = visible[g].len();
        if rem < len {
            proof {
                let head = rows.take(g + 1);
                let tail = rows.skip(g + 1);
                assert(rows =~= head + tail);
                vstd::seq_lib::lemma_flatten_concat(head, tail);
                assert(rows.flatten() == head.flatten() + tail.flatten());
                assert(head.flatten()[n as int] == rows[g as int][rem as int]);
            }
            return Some(visible[g][rem]);
        }
        rem = rem - len;
        g = g + 1;
    }
    proof {
        assert(rows.take(g as int) =~= rows);
    }
    None
}

/// Whether every index in the groups is below `n`.
pub open spec fn all_below(groups: Seq<Seq<usize>>, n: nat) -> bool {
    forall|i: int, j: int|
        0 <= i < groups.len() && 0 <= j < groups[i].len() ==> #[trigger] groups[i][j] < n
}

/// The flattening of groups all below `n` is below `n`.
proof fn lemma_all_below_flatten(groups: Seq<Seq<usize>>, n: nat)
    requires
        all_below(groups, n),
    ensures
        forall|k: int| 0 <= k < groups.flatten().len() ==> #[trigger] groups.flatten()[k] < n,
    decreases groups.len(),
{
    if groups.len() > 0 {
        let rest = groups.drop_first();
        assert(all_below(rest, n)) by {
            assert forall|i: int, j: int| 0 <= i < rest.len() && 0 <= j < rest[i].len() implies #[trigger] rest[i][j] < n by {
                assert(rest[i] == groups[i + 1]);
            }
        }
        lemma_all_below_flatten(rest, n);
        let f = groups.flatten();
        assert(f == groups[0] + rest.flatten());
        assert forall|k: int| 0 <= k < f.len() implies #[trigger] f[k] < n by {
            if k < groups[0].len() {
                assert(f[k] == groups[0][k]);
            } else {
                assert(f[k] == rest.flatten()[k - groups[0].len()]);
            }
        }
    }
}

/// Groups whose flattening is below `n` are all below `n`.
proof fn lemma_flatten_all_below(groups: Seq<Seq<usize>>, n: nat)
    requires
        forall|k: int| 0 <= k < groups.flatten().len() ==> #[trigger] groups.flatten()[k] < n,
    ensures
        all_below(groups, n),
    decreases groups.len(),
{
    if groups.len() > 0 {
        let rest = groups.drop_first();
        let f = groups.flatten();
        assert(f == groups[0] + rest.flatten());
        assert forall|k: int| 0 <= k < rest.flatten().len() implies #[trigger] rest.flatten()[k] < n by {
            assert(f[k + groups[0].len()] == rest.flatten()[k]);
        }
        lemma_flatten_all_below(rest, n);
        assert forall|i: int, j: int| 0 <= i < groups.len() && 0 <= j < groups[i].len() implies #[trigger] groups[i][j] < n by {
            if i == 0 {
                assert(f[j] == groups[0][j]);
            } else {
                assert(groups[i] == rest[i - 1]);
            }
        }
    }
}

/// The binary search that finds where the cursor lands after a subtree
/// is collapsed or expanded: `None` where the search's arithmetic would
/// go below zero.
pub open spec fn bsearch(s: Seq<usize>, x: usize, low: int, high: int) -> Option<int>
    decreases high - low + 1,
{
    if low > high {
        Some(high + 1)
    } else {
        let mid = low + (high - low) / 2;
        if s[mid] == x {
            Some(mid)
        } else if x > s[mid] {
            bsearch(s, x, mid + 1, high)
        } else if mid == 0 {
            None
        } else {
            bsearch(s, x, low, mid - 1)
        }
    }
}

/// The search over the whole of `s`; `None` where it would fail, as on
/// an empty `s`.
pub open spec fn search_spec(s: Seq<usize>, x: usize) -> Option<int> {
    if s.len() == 0 {
        None
    } else {
        bsearch(s, x, 0, s.len() - 1)
    }
}

/// Looks `x` up in `entries` by binary search: the position of `x` where
/// the search meets it, else the position where the search ends. The
/// search must be able to run to its end (it cannot on an empty list, nor
/// where it would step left of the first entry).
pub fn search_old_cursor_pos(entries: &Vec<usize>, x: usize) -> (r: usize)
    requires
        search_spec(entries@, x) is Some,
    ensures
        search_spec(entries@, x) == Some(r as int),
{
    let mut low: usize = 0;
    let mut high: usize = entries.len() - 1;
    while low <= high
        invariant
            high < entries@.len(),
            low <= high + 1,
            bsearch(entries@, x, low as int, high as int) == search_spec(entries@, x),
            search_spec(entries@, x) is Some,
        decreases high + 1 - low,
    {
        let mid = low + (high - low) / 2;
        assert(mid < entries.len());
        if entries[mid] == x {
            return mid;
        }
        if x > entries[mid] {
            low = mid + 1;
        } else {
            high = mid - 1;
        }
    }
    high + 1
}

/// Whether `s` is strictly increasing.
pub open spec fn strictly_increasing(s: Seq<usize>) -> bool {
    forall|i: int, j: int| 0 <= i < j < s.len() ==> #[trigger] s[i] < #[trigger] s[j]
}

/// Whether `r` is where `x` belongs in `s`: everything before is smaller,
/// nothing from there on is.
pub open spec fn insertion_point(s: Seq<usize>, x: usize, r: int) -> bool {
    &&& 0 <= r <= s.len()
    &&& forall|i: int| 0 <= i < r ==> #[trigger] s[i] < x
    &&& forall|i: int| r <= i < s.len() ==> x <= #[trigger] s[i]
}

proof fn lemma_bsearch(s: Seq<usize>, x: usize, low: int, high: int)
    requires
        strictly_increasing(s),
        s.len() > 0,
        s[0] <= x,
        0 <= low <= high + 1,
        high < s.len(),
        forall|i: int| 0 <= i < low ==> #[trigger] s[i] < x,
        forall|i: int| high < i < s.len() ==> x < #[trigger] s[i],
    ensures
        bsearch(s, x, low, high) matches Some(r) && insertion_point(s, x, r),
    decreases high - low + 1,
{
    if low <= high {
        let mid = low + (high - low) / 2;
        if s[mid] == x {
            assert forall|i: int| 0 <= i < mid implies #[trigger] s[i] < x by {
                assert(s[i] < s[mid]);
            }
            assert forall|i: int| mid <= i < s.len() implies x <= #[trigger] s[i] by {
                if i > mid {
                    assert(s[mid] < s[i]);
                }
            }
        } else if x > s[mid] {
            assert forall|i: int| 0 <= i < mid + 1 implies #[trigger] s[i] < x by {
                if i < mid {
                    assert(s[i] < s[mid]);
                }
            }
            lemma_bsearch(s, x, mid + 1, high);
        } else {
            if mid == 0 {
                assert(false);
            }
            assert forall|i: int| mid - 1 < i < s.len() implies x < #[trigger] s[i] by {
                if i > mid {
                    assert(s[mid] < s[i]);
                }
            }
            lemma_bsearch(s, x, low, mid - 1);
        }
    }
}

/// On strictly increasing entries that start at or below `x`, the search
/// never fails, and it finds where `x` belongs: its own position when it
/// is there, else the number of entries below it.
pub proof fn law_search_finds_insertion_point(s: Seq<usize>, x: usize)
    requires
        s.len() > 0,
        strictly_increasing(s),
        s[0] <= x,
    ensures
        search_spec(s, x) matches Some(r) && insertion_point(s, x, r),
{
    lemma_bsearch(s, x, 0, s.len() - 1);
}


/// How the thread view splits the thread list and the mail.
#[derive(Clone, Copy, Debug, PartialEq, Eq, Structural)]
pub enum ThreadLayout {
    Auto,
    Vertical,
    Horizontal,
}

/// A movement of the thread-list cursor asked for by a key, applied when
/// the list is next drawn.
#[derive(Clone, Copy, Debug, PartialEq, Eq, Structural)]
pub enum PageMovement {
    Up(usize),
    PageUp(usize),
    Down(usize),
    PageDown(usize),
    Right(usize),
    Left(usize),
    Home,
    End,
}

/// The navigation state of a thread view: its entries, the visible ones,
/// the drawn and the wanted cursor, the open (expanded) entry, the focus,
/// the layout and whether it must be drawn again.
pub struct ThreadNav {
    pub entries: Vec<EntryShape>,
    pub visible_entries: Vec<Vec<usize>>,
    pub new_cursor_pos: usize,
    pub cursor_pos: usize,
    pub expanded_pos: usize,
    pub new_expanded_pos: usize,
    pub reversed: bool,
    pub focus: ThreadViewFocus,
    pub thread_layout: ThreadLayout,
    pub last_width: usize,
    pub content_width: usize,
    pub movement: Option<PageMovement>,
    pub dirty: bool,
}

/// The focus after the key that shows or hides the mail.
pub open spec fn mailview_toggled(f: ThreadViewFocus) -> ThreadViewFocus {
    if f == ThreadViewFocus::Thread {
        ThreadViewFocus::Unfocused
    } else {
        ThreadViewFocus::Thread
    }
}

/// The focus after the key that shows or hides the thread list.
pub open spec fn threadview_toggled(f: ThreadViewFocus) -> ThreadViewFocus {
    if f == ThreadViewFocus::MailView {
        ThreadViewFocus::Unfocused
    } else {
        ThreadViewFocus::MailView
    }
}

/// The mail key gives the focus to the thread list and a second press
/// takes it back: from any focus but the mail's, two presses change
/// nothing; and the mail never has the focus after a press.
pub proof fn law_toggle_mailview_twice(f: ThreadViewFocus)
    ensures
        f != ThreadViewFocus::MailView ==> mailview_toggled(mailview_toggled(f)) == f,
        mailview_toggled(f) != ThreadViewFocus::MailView,
{
}

/// The thread-list key gives the focus to the mail and a second press
/// takes it back: from any focus but the thread list's, two presses
/// change nothing; and the thread list never has the focus after a press.
pub proof fn law_toggle_threadview_twice(f: ThreadViewFocus)
    ensures
        f != ThreadViewFocus::Thread ==> threadview_toggled(threadview_toggled(f)) == f,
        threadview_toggled(f) != ThreadViewFocus::Thread,
{
}

/// The layout key never leaves the layout as it was, goes from a fixed
/// layout to `Auto` in at most two presses, and from `Auto` to a fixed
/// layout in one.
pub proof fn law_layout_key_cycles(nav: ThreadNav)
    ensures
        nav.toggled_layout() != nav.thread_layout,
        nav.thread_layout == ThreadLayout::Auto ==> nav.toggled_layout() != ThreadLayout::Auto,
        nav.thread_layout == ThreadLayout::Vertical ==> (ThreadNav {
            thread_layout: nav.toggled_layout(),
            ..nav
        }).toggled_layout() == ThreadLayout::Auto,
{
}

/// After the open entry follows the cursor, the open entry is the entry
/// under the cursor, where there is one; without one nothing changes.
pub proof fn law_sync_opens_cursor_entry(nav: ThreadNav)
    ensures
        nav.current_pos_spec() matches Some(p) ==> nav.synced().new_expanded_pos == p
            && nav.synced().expanded_pos == p && nav.synced().current_pos_spec() == Some(p),
        nav.current_pos_spec() is None ==> nav.synced() == nav,
{
}

impl ThreadNav {
    /// Every visible entry is an entry of the thread.
    pub open spec fn wf(&self) -> bool {
        all_below(index_rows(self.visible_entries@), self.entries@.len())
    }

    /// The visible entries, read group after group.
    pub open spec fn flat_visible(&self) -> Seq<usize> {
        flat(self.visible_entries@)
    }

    /// The entry under the wanted cursor, if there is one.
    pub open spec fn current_pos_spec(&self) -> Option<usize> {
        if self.new_cursor_pos < self.flat_visible().len() {
            Some(self.flat_visible()[self.new_cursor_pos as int])
        } else {
            None
        }
    }

    /// The state with the open entry moved to the entry under the cursor,
    /// where there is one.
    pub open spec fn synced(self) -> ThreadNav {
        match self.current_pos_spec() {
            Some(p) => ThreadNav { new_expanded_pos: p, expanded_pos: p, ..self },
            None => self,
        }
    }

    /// Whether the `Auto` layout would put the list beside the mail: when
    /// the view has not been drawn yet, or when it is wide enough.
    pub open spec fn auto_is_vertical_spec(&self) -> bool {
        self.last_width == 0 || {
            let half = self.last_width / 2;
            let w = if self.content_width <= half { self.content_width } else { half };
            w > 62
        }
    }

    /// The layout after a press of the layout key.
    pub open spec fn toggled_layout(&self) -> ThreadLayout {
        match self.thread_layout {
            ThreadLayout::Auto => if self.auto_is_vertical_spec() {
                ThreadLayout::Horizontal
            } else {
                ThreadLayout::Vertical
            },
            ThreadLayout::Horizontal => ThreadLayout::Auto,
            ThreadLayout::Vertical => ThreadLayout::Horizontal,
        }
    }

    /// The entry under the wanted cursor, if there is one.
    pub fn current_pos(&self) -> (r: Option<usize>)
        ensures
            r == self.current_pos_spec(),
    {
        nth_visible(&self.visible_entries, self.new_cursor_pos)
    }

    /// Opens the entry under the cursor, where there is one.
    pub fn sync_expanded_to_cursor(&mut self)
        ensures
            *final(self) == old(self).synced(),
    {
        if let Some(pos) = self.current_pos() {
            self.new_expanded_pos = pos;
            self.expanded_pos = pos;
        }
    }

    /// Whether the `Auto` layout would put the list beside the mail.
    pub fn calculate_auto_thread_layout_is_vertical(&self) -> (r: bool)
        ensures
            r == self.auto_is_vertical_spec(),
    {
        if self.last_width == 0 {
            return true;
        }
        let half = self.last_width / 2;
        let w = if self.content_width <= half { self.content_width } else { half };
        w > 62
    }

    /// The layout key: with more than one entry, the layout moves on
    /// (`Auto` to whichever fixed layout it is not showing, `Horizontal`
    /// to `Auto`, `Vertical` to `Horizontal`) and the new layout is
    /// returned for the status line; with one entry or none nothing
    /// changes.
    pub fn toggle_layout(&mut self) -> (r: Option<ThreadLayout>)
        ensures
            old(self).entries@.len() > 1 ==> r == Some(old(self).toggled_layout())
                && *final(self) == (ThreadNav {
                    thread_layout: old(self).toggled_layout(),
                    dirty: true,
                    ..*old(self)
                }),
            old(self).entries@.len() <= 1 ==> r is None && *final(self) == *old(self),
    {
        if self.entries.len() > 1 {
            let next = match self.thread_layout {
                ThreadLayout::Auto => if self.calculate_auto_thread_layout_is_vertical() {
                    ThreadLayout::Horizontal
                } else {
                    ThreadLayout::Vertical
                },
                ThreadLayout::Horizontal => ThreadLayout::Auto,
                ThreadLayout::Vertical => ThreadLayout::Horizontal,
            };
            self.thread_layout = next;
            self.dirty = true;
            Some(next)
        } else {
            None
        }
    }

    /// The scroll-up key: when the drawn cursor is not on the first row,
    /// the wanted cursor moves up one row (not below the first) and the
    /// entry under it opens.
    pub fn scroll_up(&mut self)
        ensures
            old(self).cursor_pos > 0 ==> *final(self) == (ThreadNav {
                new_cursor_pos: if old(self).new_cursor_pos > 0 {
                    (old(self).new_cursor_pos - 1) as usize
                } else {
                    0
                },
                dirty: true,
                ..*old(self)
            }).synced(),
            old(self).cursor_pos == 0 ==> *final(self) == *old(self),
    {
        if self.cursor_pos > 0 {
            self.new_cursor_pos = self.new_cursor_pos.saturating_sub(1);
            self.dirty = true;
            self.sync_expanded_to_cursor();
        }
    }

    /// The scroll-down key: when a visible entry follows the wanted
    /// cursor, the cursor moves down to it and the entry opens.
    pub fn scroll_down(&mut self)
        requires
            old(self).new_cursor_pos < usize::MAX,
        ensures
            old(self).new_cursor_pos + 1 < old(self).flat_visible().len() ==> *final(self) == (
            ThreadNav { new_cursor_pos: (old(self).new_cursor_pos + 1) as usize, dirty: true, ..*old(self) }).synced(),
            !(old(self).new_cursor_pos + 1 < old(self).flat_visible().len()) ==> *final(self)
                == *old(self),
    {
        if nth_visible(&self.visible_entries, self.new_cursor_pos + 1).is_some() {
            self.new_cursor_pos = self.new_cursor_pos + 1;
            self.dirty = true;
            self.sync_expanded_to_cursor();
        }
    }

    /// A page key (previous or next page, first or last entry): the
    /// movement waits for the next drawing of the list.
    pub fn set_movement(&mut self, m: PageMovement)
        ensures
            *final(self) == (ThreadNav { movement: Some(m), dirty: true, ..*old(self) }),
    {
        self.movement = Some(m);
        self.dirty = true;
    }

    /// The open-entry key: with more than one entry and an entry under
    /// the cursor, that entry opens and a focused thread list gives up
    /// the focus.
    pub fn open_entry(&mut self)
        ensures
            (old(self).entries@.len() > 1 && old(self).current_pos_spec() is Some) ==> *final(self)
                == (ThreadNav {
                    focus: if old(self).focus == ThreadViewFocus::Thread {
                        ThreadViewFocus::Unfocused
                    } else {
                        old(self).focus
                    },
                    dirty: true,
                    ..old(self).synced()
                }),
            !(old(self).entries@.len() > 1 && old(self).current_pos_spec() is Some) ==> *final(self)
                == *old(self),
    {
        if self.entries.len() > 1 && self.current_pos().is_some() {
            self.sync_expanded_to_cursor();
            if self.focus == ThreadViewFocus::Thread {
                self.focus = ThreadViewFocus::Unfocused;
            }
            self.dirty = true;
        }
    }

    /// The key that shows or hides the mail: the thread list takes the
    /// focus, or gives it up when it has it.
    pub fn toggle_mailview(&mut self)
        ensures
            *final(self) == (ThreadNav {
                focus: mailview_toggled(old(self).focus),
                dirty: true,
                ..*old(self)
            }),
    {
        self.focus = match self.focus {
            ThreadViewFocus::Unfocused | ThreadViewFocus::MailView => ThreadViewFocus::Thread,
            ThreadViewFocus::Thread => ThreadViewFocus::Unfocused,
        };
        self.dirty = true;
    }

    /// The key that shows or hides the thread list: the mail takes the
    /// focus, or gives it up when it has it.
    pub fn toggle_threadview(&mut self)
        ensures
            *final(self) == (ThreadNav {
                focus: threadview_toggled(old(self).focus),
                dirty: true,
                ..*old(self)
            }),
    {
        self.focus = match self.focus {
            ThreadViewFocus::Unfocused | ThreadViewFocus::Thread => ThreadViewFocus::MailView,
            ThreadViewFocus::MailView => ThreadViewFocus::Unfocused,
        };
        self.dirty = true;
    }
}


/// The visible entries in one vector, group after group.
pub fn flatten_visible(visible: &Vec<Vec<usize>>) -> (r: Vec<usize>)
    ensures
        r@ == flat(visible@),
{
    let ghost rows = index_rows(visible@);
    let mut out: Vec<usize> = Vec::new();
    let mut g: usize = 0;
    while g < visible.len()
        invariant
            rows == index_rows(visible@),
            g <= visible@.len(),
            out@ == rows.take(g as int).flatten(),
        decreases visible@.len() - g,
    {
        proof {
            assert(rows.take(g + 1) =~= rows.take(g as int).push(rows[g as int]));
            rows.take(g as int).lemma_flatten_push(rows[g as int]);
        }
        let row = &visible[g];
        let mut j: usize = 0;
        let ghost before = out@;
        while j < row.len()
            invariant
                out@ == before + row@.take(j as int),
                j <= row@.len(),
            decreases row@.len() - j,
        {
            out.push(row[j]);
            j = j + 1;
            assert(out@ =~= before + row@.take(j as int));
        }
        assert(row@.take(j as int) =~= row@);
        g = g + 1;
    }
    assert(rows.take(g as int) =~= rows);
    out
}

/// The number of visible entries.
pub fn visible_count(visible: &Vec<Vec<usize>>) -> (r: usize)
    requires
        flat(visible@).len() <= usize::MAX,
    ensures
        r == flat(visible@).len(),
{
    let ghost rows = index_rows(visible@);
    let mut total: usize = 0;
    let mut g: usize = 0;
    while g < visible.len()
        invariant
            rows == index_rows(visible@),
            g <= visible@.len(),
            total == rows.take(g as int).flatten().len(),
            rows.flatten().len() <= usize::MAX,
        decreases visible@.len() - g,
    {
        proof {
            assert(rows.take(g + 1) =~= rows.take(g as int).push(rows[g as int]));
            rows.take(g as int).lemma_flatten_push(rows[g as int]);
            let head = rows.take(g + 1);
            let tail = rows.skip(g + 1);
            assert(rows =~= head + tail);
            vstd::seq_lib::lemma_flatten_concat(head, tail);
        }
        total = total + visible[g].len();
        g = g + 1;
    }
    assert(rows.take(g as int) =~= rows);
    total
}

/// Groups all below `n` stay so when their order is reversed.
proof fn lemma_all_below_reverse(groups: Seq<Seq<usize>>, n: nat)
    requires
        all_below(groups, n),
    ensures
        all_below(groups.reverse(), n),
{
    let r = groups.reverse();
    assert forall|i: int, j: int| 0 <= i < r.len() && 0 <= j < r[i].len() implies #[trigger] r[i][j] < n by {
        assert(r[i] == groups[groups.len() - 1 - i]);
    }
}

/// The cursor's row after movement `m`, for a list of `height` rows shown
/// `rows` at a time.
pub open spec fn movement_target(pos: usize, m: PageMovement, height: usize, rows: usize) -> int {
    match m {
        PageMovement::Up(a) => if pos >= a { pos - a } else { 0 },
        PageMovement::PageUp(k) => if pos >= rows * k { pos - rows * k } else { 0 },
        PageMovement::Down(a) => if pos + a + 1 < height {
            pos + a
        } else if pos + a > height {
            height - 1
        } else {
            (height / rows) * rows
        },
        PageMovement::PageDown(k) => if pos + rows * k + 1 < height {
            pos + rows * k
        } else {
            (height / rows) * rows
        },
        PageMovement::Right(_) | PageMovement::Left(_) => pos as int,
        PageMovement::Home => 0,
        PageMovement::End => (height / rows) * rows,
    }
}

/// Whether movement `m` from `pos` stays within the machine's integers.
pub open spec fn movement_fits(pos: usize, m: PageMovement, rows: usize) -> bool {
    match m {
        PageMovement::Down(a) => pos + a + 1 <= usize::MAX,
        PageMovement::PageUp(k) => rows * k <= usize::MAX,
        PageMovement::PageDown(k) => pos + rows * k + 1 <= usize::MAX,
        _ => true,
    }
}

/// What the list drawing does with the cursors: whether the whole list
/// is drawn again, and the first row of the page shown.
#[derive(Clone, Copy, Debug, PartialEq, Eq, Structural)]
pub struct ListPlan {
    pub redraw_all: bool,
    pub top_idx: usize,
}

impl ThreadNav {
    /// Whether collapsing at the cursor can find where the cursor lands.
    pub open spec fn collapse_ok(&self) -> bool {
        self.current_pos_spec() is Some ==> search_spec(self.flat_visible(), self.cursor_pos) is Some
    }

    /// The entries with the subtree at `p` collapsed or expanded.
    pub open spec fn toggled_at(entries: Seq<EntryShape>, p: int) -> Seq<EntryShape> {
        entries.update(p, EntryShape { hidden: !entries[p].hidden, dirty: true, ..entries[p] })
    }

    /// A left or right arrow along the pane chain. A single-mail thread
    /// has no thread-list stop: Left at the mail is not consumed and the
    /// view routes it on. Otherwise the focus steps as
    /// [`ThreadViewFocus::step`] says: a step to a new pane is consumed,
    /// and Right opens the entry under the cursor; a stay is consumed; a
    /// pass-through is not.
    pub fn focus_key(&mut self, direction: FocusDirection) -> (consumed: bool)
        ensures
            (direction == FocusDirection::Left && old(self).focus == ThreadViewFocus::MailView
                && old(self).entries@.len() <= 1) ==> !consumed && *final(self) == *old(self),
            !(direction == FocusDirection::Left && old(self).focus == ThreadViewFocus::MailView
                && old(self).entries@.len() <= 1) ==> match step_spec(old(self).focus, direction) {
                FocusStep::Focus(f) => consumed && *final(self) == (ThreadNav {
                    focus: f,
                    dirty: true,
                    ..(if direction == FocusDirection::Right {
                        old(self).synced()
                    } else {
                        *old(self)
                    })
                }),
                FocusStep::StayAndConsume => consumed && *final(self) == *old(self),
                FocusStep::PassThrough => !consumed && *final(self) == *old(self),
            },
    {
        if direction == FocusDirection::Left && self.focus == ThreadViewFocus::MailView
            && self.entries.len() <= 1 {
            return false;
        }
        match self.focus.step(direction) {
            FocusStep::Focus(f) => {
                if direction == FocusDirection::Right {
                    self.sync_expanded_to_cursor();
                }
                self.focus = f;
                self.dirty = true;
                true
            },
            FocusStep::StayAndConsume => true,
            FocusStep::PassThrough => false,
        }
    }

    /// The collapse key: the subtree under the cursor is collapsed, or
    /// expanded when it was collapsed; both cursors move to where the
    /// binary search of the drawn cursor over the visible entries ends;
    /// visibility is computed again. With no entries, or no entry under
    /// the cursor, nothing changes.
    pub fn collapse_subtree(&mut self)
        requires
            old(self).wf(),
            old(self).collapse_ok(),
        ensures
            final(self).wf(),
            (old(self).entries@.len() == 0 || old(self).current_pos_spec() is None) ==> *final(self)
                == *old(self),
            (old(self).entries@.len() > 0 && old(self).current_pos_spec() is Some) ==> ({
                let p = old(self).current_pos_spec()->0 as int;
                let e = Self::toggled_at(old(self).entries@, p);
                let np = search_spec(old(self).flat_visible(), old(self).cursor_pos)->0;
                &&& final(self).entries@ == e
                &&& index_rows(final(self).visible_entries@) == recalc_spec(
                    e,
                    index_rows(old(self).visible_entries@),
                    old(self).reversed,
                )
                &&& final(self).new_cursor_pos == np
                &&& final(self).cursor_pos == np
                &&& final(self).dirty
                &&& final(self).expanded_pos == old(self).expanded_pos
                &&& final(self).new_expanded_pos == old(self).new_expanded_pos
                &&& final(self).reversed == old(self).reversed
                &&& final(self).focus == old(self).focus
                &&& final(self).thread_layout == old(self).thread_layout
                &&& final(self).last_width == old(self).last_width
                &&& final(self).content_width == old(self).content_width
                &&& final(self).movement == old(self).movement
            }),
    {
        if self.entries.len() == 0 {
            return;
        }
        let cur = self.current_pos();
        match cur {
            None => {},
            Some(p) => {
                proof {
                    lemma_all_below_flatten(index_rows(self.visible_entries@), self.entries@.len());
                }
                let old_e = self.entries[p];
                let ghost e0 = self.entries@;
                self.entries.set(p, EntryShape { hidden: !old_e.hidden, dirty: true, ..old_e });
                assert(self.entries@ == Self::toggled_at(e0, p as int));
                let flat_v = flatten_visible(&self.visible_entries);
                let np = search_old_cursor_pos(&flat_v, self.cursor_pos);
                self.new_cursor_pos = np;
                self.cursor_pos = np;
                let ghost old_rows = index_rows(self.visible_entries@);
                let mut vis: Vec<Vec<usize>> = Vec::new();
                std::mem::swap(&mut vis, &mut self.visible_entries);
                let reversed = self.reversed;
                let next = recalc_visible_entries(&self.entries, vis, reversed);
                self.visible_entries = next;
                self.dirty = true;
                proof {
                    let es = self.entries@;
                    assert(es[p as int].dirty);
                    assert(any_dirty(es));
                    law_visible_entries_are_ordered(es);
                    let g = scan_upto(es, es.len()).groups;
                    lemma_flatten_all_below(g, es.len());
                    if reversed {
                        lemma_all_below_reverse(g, es.len());
                    }
                }
            },
        }
    }

    /// The movement waiting for the list to be drawn, applied to the
    /// wanted cursor for a list of `height` rows shown `rows` at a time
    /// (the entry under it opens), then the cursor kept on an entry.
    pub fn apply_movement(&mut self, height: usize, rows: usize)
        requires
            rows > 0,
            height > 0,
            old(self).movement matches Some(m) ==> movement_fits(old(self).new_cursor_pos, m, rows),
        ensures
            ({
                let moved = match old(self).movement {
                    Some(m) => (ThreadNav {
                        new_cursor_pos: movement_target(old(self).new_cursor_pos, m, height, rows) as usize,
                        movement: None,
                        ..*old(self)
                    }).synced(),
                    None => *old(self),
                };
                *final(self) == (ThreadNav {
                    new_cursor_pos: if moved.new_cursor_pos >= old(self).entries@.len() {
                        if old(self).entries@.len() > 0 { (old(self).entries@.len() - 1) as usize } else { 0 }
                    } else {
                        moved.new_cursor_pos
                    },
                    ..moved
                })
            }),
    {
        if let Some(m) = self.movement.take() {
            let pos = self.new_cursor_pos;
            assert((height / rows) * rows <= height) by (nonlinear_arith)
                requires
                    rows > 0,
            ;
            let target: usize = match m {
                PageMovement::Up(a) => pos.saturating_sub(a),
                PageMovement::PageUp(k) => pos.saturating_sub(rows * k),
                PageMovement::Down(a) => if pos + a + 1 < height {
                    pos + a
                } else if pos + a > height {
                    height - 1
                } else {
                    (height / rows) * rows
                },
                PageMovement::PageDown(k) => if pos + rows * k + 1 < height {
                    pos + rows * k
                } else {
                    (height / rows) * rows
                },
                PageMovement::Right(_) | PageMovement::Left(_) => pos,
                PageMovement::Home => 0,
                PageMovement::End => (height / rows) * rows,
            };
            self.new_cursor_pos = target;
            self.sync_expanded_to_cursor();
        }
        if self.new_cursor_pos >= self.entries.len() {
            self.new_cursor_pos = self.entries.len().saturating_sub(1);
        }
    }

    /// The drawn cursor catches up with the wanted one before the list is
    /// drawn `rows` at a time. When the view must be drawn again or the
    /// page changed, the whole list is drawn and the cursor is kept on a
    /// visible entry; otherwise only the two highlighted rows change.
    pub fn settle_cursor(&mut self, rows: usize) -> (plan: ListPlan)
        requires
            rows > 0,
            old(self).flat_visible().len() <= usize::MAX,
        ensures
            ({
                let page = old(self).new_cursor_pos / rows;
                let redraw = old(self).dirty || page != old(self).cursor_pos / rows;
                let n = old(self).flat_visible().len();
                &&& plan == ListPlan { redraw_all: redraw, top_idx: (page * rows) as usize }
                &&& *final(self) == (ThreadNav {
                    cursor_pos: if redraw && old(self).new_cursor_pos + 1 > n {
                        if n > 0 { (n - 1) as usize } else { 0 }
                    } else {
                        old(self).new_cursor_pos
                    },
                    ..*old(self)
                })
            }),
    {
        let prev_page_no = self.cursor_pos / rows;
        let page_no = self.new_cursor_pos / rows;
        assert(page_no * rows <= self.new_cursor_pos) by (nonlinear_arith)
            requires
                page_no == self.new_cursor_pos / rows,
                rows > 0,
        ;
        let top_idx = page_no * rows;
        let redraw = self.dirty || page_no != prev_page_no;
        self.cursor_pos = self.new_cursor_pos;
        if redraw {
            let n = visible_count(&self.visible_entries);
            if self.cursor_pos >= n {
                self.cursor_pos = n.saturating_sub(1);
            }
        }
        ListPlan { redraw_all: redraw, top_idx }
    }
}


/// What opening a thread reads of an entry's message: its hash, its date
/// and whether it was read.
#[derive(Clone, Copy, Debug, PartialEq, Eq, Structural)]
pub struct EntryMeta {
    pub msg_hash: u64,
    pub timestamp: u64,
    pub seen: bool,
}

/// The earliest unread message among the first `k` entries, as the scan
/// over them keeps it: its date (0 for none yet) and its entry. An
/// unread message replaces the one kept when none is kept yet or when it
/// is strictly older.
pub open spec fn unread_scan(metas: Seq<EntryMeta>, k: nat) -> (u64, int)
    decreases k,
{
    if k == 0 {
        (0, 0)
    } else {
        let (ts, at) = unread_scan(metas, (k - 1) as nat);
        let m = metas[k - 1];
        if !m.seen && (ts == 0 || m.timestamp < ts) {
            (m.timestamp, k - 1)
        } else {
            (ts, at)
        }
    }
}

/// The last of the first `k` entries whose message has hash `h`.
pub open spec fn last_match(metas: Seq<EntryMeta>, h: u64, k: nat) -> Option<int>
    decreases k,
{
    if k == 0 {
        None
    } else if metas[k - 1].msg_hash == h {
        Some(k - 1)
    } else {
        last_match(metas, h, (k - 1) as nat)
    }
}

/// The newest of the first `k` entries, the last one among equally new
/// ones (0 when `k` is 0).
pub open spec fn newest_upto(metas: Seq<EntryMeta>, k: nat) -> int
    decreases k,
{
    if k <= 1 {
        0
    } else {
        let a = newest_upto(metas, (k - 1) as nat);
        if metas[a].timestamp > metas[k - 1].timestamp {
            a
        } else {
            k - 1
        }
    }
}

/// The open entry of a thread when it is opened, with the entry after it
/// (the positions the view keeps): the entry of `expanded_hash` when one
/// is asked for (the previous positions when no entry has it), else the
/// newest entry; then the earliest unread entry instead, when asked for
/// and there is one with a date.
pub open spec fn expanded_spec(
    metas: Seq<EntryMeta>,
    expanded_hash: Option<u64>,
    go_to_first_unread: bool,
    prev: (usize, usize),
) -> (int, int) {
    let first = match expanded_hash {
        Some(h) => match last_match(metas, h, metas.len()) {
            Some(i) => (i, i + 1),
            None => (prev.0 as int, prev.1 as int),
        },
        None => (newest_upto(metas, metas.len()), newest_upto(metas, metas.len()) + 1),
    };
    let (ts, at) = unread_scan(metas, metas.len());
    if go_to_first_unread && ts > 0 {
        (at, at + 1)
    } else {
        first
    }
}

proof fn lemma_unread_scan_bounds(metas: Seq<EntryMeta>, k: nat)
    requires
        k <= metas.len(),
    ensures
        0 <= unread_scan(metas, k).1 <= k,
        unread_scan(metas, k).0 > 0 ==> unread_scan(metas, k).1 < k,
    decreases k,
{
    if k > 0 {
        lemma_unread_scan_bounds(metas, (k - 1) as nat);
    }
}

proof fn lemma_newest_bounds(metas: Seq<EntryMeta>, k: nat)
    requires
        k <= metas.len(),
    ensures
        k > 0 ==> 0 <= newest_upto(metas, k) < k,
        newest_upto(metas, k) >= 0,
    decreases k,
{
    if k > 1 {
        lemma_newest_bounds(metas, (k - 1) as nat);
    }
}

proof fn lemma_last_match_bounds(metas: Seq<EntryMeta>, h: u64, k: nat)
    requires
        k <= metas.len(),
    ensures
        last_match(metas, h, k) matches Some(i) ==> 0 <= i < k && metas[i].msg_hash == h,
    decreases k,
{
    if k > 0 {
        lemma_last_match_bounds(metas, h, (k - 1) as nat);
    }
}

/// With no entry asked for, the thread opens at its newest entry: no
/// entry is newer, and none after it is as new.
pub proof fn law_newest_entry_opens(metas: Seq<EntryMeta>, k: nat)
    requires
        0 < k <= metas.len(),
    ensures
        ({
            let r = newest_upto(metas, k);
            &&& 0 <= r < k
            &&& forall|j: int| 0 <= j < k ==> #[trigger] metas[j].timestamp <= metas[r].timestamp
            &&& forall|j: int| r < j < k ==> #[trigger] metas[j].timestamp < metas[r].timestamp
        }),
    decreases k,
{
    lemma_newest_bounds(metas, k);
    if k > 1 {
        law_newest_entry_opens(metas, (k - 1) as nat);
    }
}

proof fn lemma_last_match_found(metas: Seq<EntryMeta>, h: u64, k: nat, i: int)
    requires
        k <= metas.len(),
        0 <= i < k,
        metas[i].msg_hash == h,
    ensures
        last_match(metas, h, k) is Some,
    decreases k,
{
    if metas[k - 1].msg_hash != h {
        lemma_last_match_found(metas, h, (k - 1) as nat, i);
    }
}

/// A thread opened again at the message it showed (as the order key
/// does) keeps that message open: when some entry holds the message, the
/// open entry is an entry holding it, and the entry after it is the next.
pub proof fn law_reopening_keeps_the_message(metas: Seq<EntryMeta>, h: u64, prev: (usize, usize), i: int)
    requires
        0 <= i < metas.len(),
        metas[i].msg_hash == h,
    ensures
        ({
            let r = expanded_spec(metas, Some(h), false, prev);
            &&& 0 <= r.0 < metas.len()
            &&& metas[r.0].msg_hash == h
            &&& r.1 == r.0 + 1
        }),
{
    lemma_last_match_found(metas, h, metas.len(), i);
    lemma_last_match_bounds(metas, h, metas.len());
}

/// Where a thread opens, as [`expanded_spec`] states it.
pub fn expanded_positions(
    metas: &Vec<EntryMeta>,
    expanded_hash: Option<u64>,
    go_to_first_unread: bool,
    prev: (usize, usize),
) -> (r: (usize, usize))
    ensures
        (r.0 as int, r.1 as int) == expanded_spec(metas@, expanded_hash, go_to_first_unread, prev),
{
    let mut earliest_unread: u64 = 0;
    let mut earliest_unread_entry: usize = 0;
    let mut new_pos = prev.0;
    let mut pos = prev.1;
    let mut k: usize = 0;
    while k < metas.len()
        invariant
            k <= metas@.len(),
            (earliest_unread, earliest_unread_entry as int) == unread_scan(metas@, k as nat),
            match expanded_hash {
                Some(h) => match last_match(metas@, h, k as nat) {
                    Some(i) => new_pos == i && pos == i + 1,
                    None => new_pos == prev.0 && pos == prev.1,
                },
                None => new_pos == prev.0 && pos == prev.1,
            },
        decreases metas@.len() - k,
    {
        proof {
            lemma_unread_scan_bounds(metas@, k as nat);
        }
        let m = metas[k];
        if !m.seen && (earliest_unread == 0 || m.timestamp < earliest_unread) {
            earliest_unread = m.timestamp;
            earliest_unread_entry = k;
        }
        match expanded_hash {
            Some(h) => {
                if h == m.msg_hash {
                    new_pos = k;
                    pos = k + 1;
                }
            },
            None => {},
        }
        k = k + 1;
    }
    if expanded_hash.is_none() {
        let mut best: usize = 0;
        let mut i: usize = 1;
        while i < metas.len()
            invariant
                1 <= i,
                i <= metas@.len() || metas@.len() == 0,
                metas@.len() == 0 ==> i == 1,
                best as int == newest_upto(metas@, i as nat),
            decreases metas@.len() - i,
        {
            proof {
                lemma_newest_bounds(metas@, i as nat);
            }
            if !(metas[best].timestamp > metas[i].timestamp) {
                best = i;
            }
            i = i + 1;
        }
        proof {
            lemma_newest_bounds(metas@, metas@.len());
            if metas@.len() >= 1 {
                assert(i == metas@.len());
            } else {
                assert(newest_upto(metas@, i as nat) == 0);
                assert(newest_upto(metas@, 0) == 0);
            }
            assert(best as int == newest_upto(metas@, metas@.len()));
            assert(best < metas@.len() || best == 0);
        }
        new_pos = best;
        pos = best + 1;
    }
    proof {
        lemma_unread_scan_bounds(metas@, metas@.len());
        assert(k == metas@.len());
    }
    if go_to_first_unread && earliest_unread > 0 {
        new_pos = earliest_unread_entry;
        pos = earliest_unread_entry + 1;
    }
    (new_pos, pos)
}

/// What a refresh compares of an entry to find it again: its message, its
/// place in the thread, and its heading.
#[derive(Debug)]
pub struct EntryKey {
    pub msg_hash: u64,
    pub index: (usize, u64, usize),
    pub heading: String,
}

/// Whether two entries are taken for the same one: same message, same
/// place or same heading.
pub open spec fn same_entry(a: EntryKey, b: EntryKey) -> bool {
    a.msg_hash == b.msg_hash || a.index == b.index || a.heading@ == b.heading@
}

/// The walk that carries the collapsed flags over a refresh: old entry
/// `oc` against new entry `nc`; a match copies the old flag and moves
/// both on, a miss moves on in the new entries; visibility is computed
/// again after each step.
pub open spec fn carry_spec(
    old_keys: Seq<EntryKey>,
    old_entries: Seq<EntryShape>,
    new_keys: Seq<EntryKey>,
    entries: Seq<EntryShape>,
    visible: Seq<Seq<usize>>,
    reversed: bool,
    oc: int,
    nc: int,
) -> (Seq<EntryShape>, Seq<Seq<usize>>)
    decreases new_keys.len() - nc,
{
    if oc < 0 || nc < 0 || oc >= old_keys.len() || nc >= new_keys.len() {
        (entries, visible)
    } else {
        let hit = same_entry(old_keys[oc], new_keys[nc]);
        let e2 = if hit {
            entries.update(nc, EntryShape { hidden: old_entries[oc].hidden, ..entries[nc] })
        } else {
            entries
        };
        let v2 = recalc_spec(e2, visible, reversed);
        carry_spec(old_keys, old_entries, new_keys, e2, v2, reversed, if hit { oc + 1 } else { oc }, nc + 1)
    }
}

proof fn lemma_recalc_wf(entries: Seq<EntryShape>, visible: Seq<Seq<usize>>, reversed: bool)
    requires
        entries.len() <= usize::MAX,
        all_below(visible, entries.len()),
    ensures
        all_below(recalc_spec(entries, visible, reversed), entries.len()),
{
    if entries.len() > 0 {
        let v = if any_dirty(entries) {
            law_visible_entries_are_ordered(entries);
            lemma_flatten_all_below(scan_upto(entries, entries.len()).groups, entries.len());
            scan_upto(entries, entries.len()).groups
        } else {
            visible
        };
        if reversed {
            lemma_all_below_reverse(v, entries.len());
        }
    }
}

impl ThreadNav {
    /// The navigation state of a thread just opened with `entries`, open
    /// at the given positions: every entry visible, the cursor on the
    /// open entry, and the mail focused in a thread of one message.
    pub fn new(
        entries: Vec<EntryShape>,
        expanded: (usize, usize),
        focus: Option<ThreadViewFocus>,
        thread_layout: ThreadLayout,
        content_width: usize,
    ) -> (r: ThreadNav)
        ensures
            r.wf(),
            r.entries@ == entries@,
            index_rows(r.visible_entries@) == seq![Seq::new(entries@.len(), |i: int| i as usize)],
            r.new_cursor_pos == expanded.0,
            r.cursor_pos == 1,
            r.new_expanded_pos == expanded.0,
            r.expanded_pos == expanded.1,
            !r.reversed,
            r.focus == (if entries@.len() == 1 {
                ThreadViewFocus::MailView
            } else {
                match focus {
                    Some(f) => f,
                    None => ThreadViewFocus::Unfocused,
                }
            }),
            r.thread_layout == thread_layout,
            r.last_width == 0,
            r.content_width == content_width,
            r.movement is None,
            r.dirty,
    {
        let n = entries.len();
        let mut all: Vec<usize> = Vec::new();
        let mut i: usize = 0;
        while i < n
            invariant
                i <= n,
                all@ == Seq::new(i as nat, |j: int| j as usize),
            decreases n - i,
        {
            all.push(i);
            i = i + 1;
            assert(all@ =~= Seq::new(i as nat, |j: int| j as usize));
        }
        let mut visible: Vec<Vec<usize>> = Vec::new();
        visible.push(all);
        let f = match focus {
            Some(f) => f,
            None => ThreadViewFocus::Unfocused,
        };
        let f = if n == 1 { ThreadViewFocus::MailView } else { f };
        let r = ThreadNav {
            entries,
            visible_entries: visible,
            new_cursor_pos: expanded.0,
            cursor_pos: 1,
            expanded_pos: expanded.1,
            new_expanded_pos: expanded.0,
            reversed: false,
            focus: f,
            thread_layout,
            last_width: 0,
            content_width,
            movement: None,
            dirty: true,
        };
        assert(index_rows(r.visible_entries@) =~= seq![Seq::new(n as nat, |j: int| j as usize)]);
        r
    }

    /// A refresh of the thread: the entries are those of the thread as it
    /// now is, and each keeps the collapsed flag of the old entry it is
    /// taken for, found by one walk over both lists in order.
    pub fn carry_hidden(
        &mut self,
        old_keys: &Vec<EntryKey>,
        old_entries: &Vec<EntryShape>,
        new_keys: &Vec<EntryKey>,
    )
        requires
            old(self).wf(),
            old_keys@.len() == old_entries@.len(),
            new_keys@.len() == old(self).entries@.len(),
        ensures
            final(self).wf(),
            (final(self).entries@, index_rows(final(self).visible_entries@)) == carry_spec(
                old_keys@,
                old_entries@,
                new_keys@,
                old(self).entries@,
                index_rows(old(self).visible_entries@),
                old(self).reversed,
                0,
                0,
            ),
            final(self).dirty,
            final(self).new_cursor_pos == old(self).new_cursor_pos,
            final(self).cursor_pos == old(self).cursor_pos,
            final(self).expanded_pos == old(self).expanded_pos,
            final(self).new_expanded_pos == old(self).new_expanded_pos,
            final(self).reversed == old(self).reversed,
            final(self).focus == old(self).focus,
            final(self).thread_layout == old(self).thread_layout,
            final(self).last_width == old(self).last_width,
            final(self).content_width == old(self).content_width,
            final(self).movement == old(self).movement,
    {
        let mut oc: usize = 0;
        let mut nc: usize = 0;
        let ghost goal = carry_spec(
            old_keys@,
            old_entries@,
            new_keys@,
            self.entries@,
            index_rows(self.visible_entries@),
            self.reversed,
            0,
            0,
        );
        while oc < old_keys.len() && nc < new_keys.len()
            invariant
                oc <= old_keys@.len(),
                nc <= new_keys@.len(),
                old_keys@.len() == old_entries@.len(),
                new_keys@.len() == self.entries@.len(),
                self.wf(),
                carry_spec(
                    old_keys@,
                    old_entries@,
                    new_keys@,
                    self.entries@,
                    index_rows(self.visible_entries@),
                    self.reversed,
                    oc as int,
                    nc as int,
                ) == goal,
                self.new_cursor_pos == old(self).new_cursor_pos,
                self.cursor_pos == old(self).cursor_pos,
                self.expanded_pos == old(self).expanded_pos,
                self.new_expanded_pos == old(self).new_expanded_pos,
                self.reversed == old(self).reversed,
                self.focus == old(self).focus,
                self.thread_layout == old(self).thread_layout,
                self.last_width == old(self).last_width,
                self.content_width == old(self).content_width,
                self.movement == old(self).movement,
            decreases new_keys@.len() - nc,
        {
            let ok = &old_keys[oc];
            let nk = &new_keys[nc];
            let hit = ok.msg_hash == nk.msg_hash || (ok.index.0 == nk.index.0 && ok.index.1 == nk.index.1
                && ok.index.2 == nk.index.2) || ok.heading == nk.heading;
            if hit {
                let cur = self.entries[nc];
                self.entries.set(nc, EntryShape { hidden: old_entries[oc].hidden, ..cur });
                oc = oc + 1;
            }
            nc = nc + 1;
            let mut vis: Vec<Vec<usize>> = Vec::new();
            std::mem::swap(&mut vis, &mut self.visible_entries);
            proof {
                lemma_recalc_wf(self.entries@, index_rows(vis@), self.reversed);
            }
            let reversed = self.reversed;
            let next = recalc_visible_entries(&self.entries, vis, reversed);
            self.visible_entries = next;
        }
        self.dirty = true;
    }
}


/// Where a key goes in the thread view before the thread list's own
/// handling runs.
#[derive(Clone, Copy, Debug, PartialEq, Eq, Structural)]
pub enum KeyRoute {
    /// The focus chain took the key.
    Consumed,
    /// The thread list takes the key ahead of the open mail.
    ThreadList,
    /// The open mail is offered the key first.
    Mail,
    /// The thread list's handling gets the key; the mail is not offered it.
    Rest,
}

impl ThreadNav {
    /// What a focus key does: whether it is consumed, and the state after.
    pub open spec fn focus_key_spec(self, direction: FocusDirection) -> (bool, ThreadNav) {
        if direction == FocusDirection::Left && self.focus == ThreadViewFocus::MailView
            && self.entries@.len() <= 1 {
            (false, self)
        } else {
            match step_spec(self.focus, direction) {
                FocusStep::Focus(f) => (
                    true,
                    ThreadNav {
                        focus: f,
                        dirty: true,
                        ..(if direction == FocusDirection::Right {
                            self.synced()
                        } else {
                            self
                        })
                    },
                ),
                FocusStep::StayAndConsume => (true, self),
                FocusStep::PassThrough => (false, self),
            }
        }
    }

    /// Where a key that the focus chain left goes: to the thread list
    /// first when neither pane has the focus, the thread has more than
    /// one entry, the mail has no dialog open and the thread list binds
    /// the key; else to the mail when the thread list lacks the focus and
    /// there is an entry; else to the thread list's handling.
    pub open spec fn route_after_focus(self, mail_has_active_modal: bool, is_thread_view_input: bool) -> KeyRoute {
        if self.focus == ThreadViewFocus::Unfocused && self.entries@.len() > 1
            && !mail_has_active_modal && is_thread_view_input {
            KeyRoute::ThreadList
        } else if self.focus != ThreadViewFocus::Thread && self.entries@.len() > 0 {
            KeyRoute::Mail
        } else {
            KeyRoute::Rest
        }
    }

    /// A key, with the focus move it is bound to (if any), whether the
    /// mail has a dialog open and whether the thread list binds the key:
    /// a focus key the chain consumes moves the focus as
    /// [`Self::focus_key`] does; any other key is routed as
    /// [`Self::route_after_focus`] says.
    pub fn route_key(
        &mut self,
        direction: Option<FocusDirection>,
        mail_has_active_modal: bool,
        is_thread_view_input: bool,
    ) -> (r: KeyRoute)
        ensures
            match direction {
                None => *final(self) == *old(self) && r == old(self).route_after_focus(
                    mail_has_active_modal,
                    is_thread_view_input,
                ),
                Some(d) => {
                    let (c, s) = old(self).focus_key_spec(d);
                    &&& *final(self) == s
                    &&& r == if c {
                        KeyRoute::Consumed
                    } else {
                        s.route_after_focus(mail_has_active_modal, is_thread_view_input)
                    }
                },
            },
    {
        if let Some(d) = direction {
            if self.focus_key(d) {
                return KeyRoute::Consumed;
            }
        }
        let n = self.entries.len();
        if thread_list_first(self.focus, n, mail_has_active_modal, is_thread_view_input) {
            KeyRoute::ThreadList
        } else if mail_sees_event(self.focus, n) {
            KeyRoute::Mail
        } else {
            KeyRoute::Rest
        }
    }
}

/// While the open mail has a dialog, every key that the focus chain
/// leaves is offered to the mail first whenever the mail shows: the
/// thread list never takes a key ahead of a dialog. With the thread list
/// focused, the mail is never offered a key.
pub proof fn law_dialog_is_offered_keys_first(nav: ThreadNav, is_thread_view_input: bool, modal: bool)
    ensures
        nav.focus != ThreadViewFocus::Thread && nav.entries@.len() > 0 ==> nav.route_after_focus(
            true,
            is_thread_view_input,
        ) == KeyRoute::Mail,
        nav.focus == ThreadViewFocus::Thread ==> nav.route_after_focus(modal, is_thread_view_input)
            == KeyRoute::Rest,
{
}

/// Whether a key goes to the thread list before the open mail sees it:
/// with the focus on neither pane, more than one entry, no dialog open in
/// the mail, and a key that the thread list binds.
pub fn thread_list_first(
    focus: ThreadViewFocus,
    entries: usize,
    mail_has_active_modal: bool,
    is_thread_view_input: bool,
) -> (r: bool)
    ensures
        r == (focus == ThreadViewFocus::Unfocused && entries > 1 && !mail_has_active_modal
            && is_thread_view_input),
{
    focus == ThreadViewFocus::Unfocused && entries > 1 && !mail_has_active_modal
        && is_thread_view_input
}

/// Whether the open mail is offered the event: when the thread list does
/// not have the focus and there is an entry.
pub fn mail_sees_event(focus: ThreadViewFocus, entries: usize) -> (r: bool)
    ensures
        r == (focus != ThreadViewFocus::Thread && entries > 0),
{
    (focus == ThreadViewFocus::Unfocused || focus == ThreadViewFocus::MailView) && entries > 0
}

/// Whether a scroll key the focused mail declined is swallowed rather
/// than moving the thread list: when the mail has the focus, there is an
/// entry, its body is loaded, and the key is one of the list's scroll
/// keys.
pub fn mail_swallows_scroll(focus: ThreadViewFocus, entries: usize, is_loaded: bool, is_scroll_key: bool) -> (r: bool)
    ensures
        r == (focus == ThreadViewFocus::MailView && entries > 0 && is_loaded && is_scroll_key),
{
    focus == ThreadViewFocus::MailView && entries > 0 && is_loaded && is_scroll_key
}

/// Whether the thread view must be drawn again: it is marked so, or the
/// open mail is (when it shows, the thread list not having the focus).
pub fn view_is_dirty(dirty: bool, focus: ThreadViewFocus, entries: usize, mail_dirty: bool) -> (r: bool)
    ensures
        r == (dirty || (focus != ThreadViewFocus::Thread && entries > 0 && mail_dirty)),
{
    dirty || (focus != ThreadViewFocus::Thread && entries > 0 && mail_dirty)
}

/// What a thread export reports, from one outcome per mail (`true` for a
/// mail written): `counted` is the number of `true` outcomes, which the
/// report calls failures.
#[derive(Clone, Copy, Debug, PartialEq, Eq, Structural)]
pub enum ExportReport {
    /// Every outcome was counted (no mail, or all of them).
    CouldNotExport,
    /// Some outcomes were counted: `counted` of `total`.
    Partial { counted: usize, total: usize },
    /// No outcome was counted: `total` mails.
    Saved { total: usize },
}

/// The number of `true` outcomes.
pub open spec fn count_true(s: Seq<bool>) -> nat
    decreases s.len(),
{
    if s.len() == 0 {
        0
    } else {
        count_true(s.drop_last()) + if s.last() { 1nat } else { 0nat }
    }
}

proof fn lemma_count_true_bound(s: Seq<bool>)
    ensures
        count_true(s) <= s.len(),
    decreases s.len(),
{
    if s.len() > 0 {
        lemma_count_true_bound(s.drop_last());
    }
}

/// The report of a thread export, as the view words it: when the number
/// of `true` outcomes is all of them it could not export, when some it
/// names that many of the total, when none it saved them all.
pub fn export_report(results: &Vec<bool>) -> (r: ExportReport)
    ensures
        r == (if count_true(results@) == results@.len() {
            ExportReport::CouldNotExport
        } else if count_true(results@) > 0 {
            ExportReport::Partial { counted: count_true(results@) as usize, total: results@.len() as usize }
        } else {
            ExportReport::Saved { total: results@.len() as usize }
        }),
{
    let mut counted: usize = 0;
    let mut i: usize = 0;
    while i < results.len()
        invariant
            i <= results@.len(),
            counted == count_true(results@.take(i as int)),
        decreases results@.len() - i,
    {
        proof {
            assert(results@.take(i + 1).drop_last() =~= results@.take(i as int));
            lemma_count_true_bound(results@.take(i as int));
        }
        if results[i] {
            counted = counted + 1;
        }
        i = i + 1;
    }
    proof {
        assert(results@.take(i as int) =~= results@);
    }
    if counted == results.len() {
        ExportReport::CouldNotExport
    } else if counted > 0 {
        ExportReport::Partial { counted, total: results.len() }
    } else {
        ExportReport::Saved { total: results.len() }
    }
}

/// What an envelope update does to an entry: the entry of the updated
/// message learns whether it was read, and is marked changed when that
/// differs from what it showed; `None` when no entry has the message.
pub fn envelope_seen_update(msg_hashes: &Vec<u64>, seen: &Vec<bool>, hash: u64, now_seen: bool) -> (r: Option<(usize, bool)>)
    requires
        msg_hashes@.len() == seen@.len(),
    ensures
        match r {
            Some((i, changed)) => i < msg_hashes@.len() && msg_hashes@[i as int] == hash
                && (forall|j: int| 0 <= j < i ==> msg_hashes@[j] != hash) && changed == (seen@[i as int] != now_seen),
            None => forall|j: int| 0 <= j < msg_hashes@.len() ==> msg_hashes@[j] != hash,
        },
{
    let mut i: usize = 0;
    while i < msg_hashes.len()
        invariant
            i <= msg_hashes@.len(),
            msg_hashes@.len() == seen@.len(),
            forall|j: int| 0 <= j < i ==> msg_hashes@[j] != hash,
        decreases msg_hashes@.len() - i,
    {
        if msg_hashes[i] == hash {
            return Some((i, seen[i] != now_seen));
        }
        i = i + 1;
    }
    None
}

} // verus!
