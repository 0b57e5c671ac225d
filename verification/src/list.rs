use vstd::prelude::*;

verus! {

/// Written into `next` of a deleted entry.
pub const LIST_POISON1: usize = 0x100;

/// Written into `prev` of a deleted entry.
pub const LIST_POISON2: usize = 0x122;

/// A link of a circular doubly linked list.  Entries are named by their
/// address, which indexes the link table that holds them.
#[allow(non_camel_case_types)]
#[derive(Clone, Copy, PartialEq, Eq, Debug)]
pub struct list_head {
    pub next: usize,
    pub prev: usize,
}

/// `l` with the `next` field of entry `a` set to `v`.
pub open spec fn set_next(l: Seq<list_head>, a: usize, v: usize) -> Seq<list_head> {
    l.update(a as int, list_head { next: v, prev: l[a as int].prev })
}

/// `l` with the `prev` field of entry `a` set to `v`.
pub open spec fn set_prev(l: Seq<list_head>, a: usize, v: usize) -> Seq<list_head> {
    l.update(a as int, list_head { next: l[a as int].next, prev: v })
}

/// The entry that follows position `i` of the list `s` headed by `h`.
pub open spec fn succ(h: usize, s: Seq<usize>, i: int) -> usize {
    if i + 1 < s.len() {
        s[i + 1]
    } else {
        h
    }
}

/// The entry that precedes position `i` of the list `s` headed by `h`.
pub open spec fn pred(h: usize, s: Seq<usize>, i: int) -> usize {
    if i == 0 {
        h
    } else {
        s[i - 1]
    }
}

/// The links hold a well-formed circular list with head `h` whose entries,
/// in `next` order from the head, are `s`.
pub open spec fn list_wf(l: Seq<list_head>, h: usize, s: Seq<usize>) -> bool {
    &&& h < l.len()
    &&& s.no_duplicates()
    &&& forall|i: int| 0 <= i < s.len() ==> #[trigger] s[i] < l.len() && s[i] != h
    &&& l[h as int].next == (if s.len() == 0 { h } else { s[0] })
    &&& l[h as int].prev == (if s.len() == 0 { h } else { s.last() })
    &&& forall|i: int|
        0 <= i < s.len() ==> l[#[trigger] s[i] as int].next == succ(h, s, i) && l[s[i] as int].prev
            == pred(h, s, i)
}

/// What `__list_add` leaves: `new` linked in between `prev` and `next`.
pub open spec fn list_add_between(l: Seq<list_head>, new: usize, prev: usize, next: usize) -> Seq<
    list_head,
> {
    set_next(set_prev(set_next(set_prev(l, next, new), new, next), new, prev), prev, new)
}

/// What `__list_del` leaves: `prev` and `next` linked to each other.
pub open spec fn list_del_between(l: Seq<list_head>, prev: usize, next: usize) -> Seq<list_head> {
    set_next(set_prev(l, next, prev), prev, next)
}

/// What `list_del` leaves: `entry` unlinked and its links poisoned.
pub open spec fn list_del_entry(l: Seq<list_head>, entry: usize) -> Seq<list_head> {
    let m = list_del_between(l, l[entry as int].prev, l[entry as int].next);
    m.update(entry as int, list_head { next: LIST_POISON1, prev: LIST_POISON2 })
}

/// What `__list_splice` leaves: the entries of `list` linked in between
/// `prev` and `next`.
pub open spec fn list_splice_between(l: Seq<list_head>, list: usize, prev: usize, next: usize) -> Seq<
    list_head,
> {
    let first = l[list as int].next;
    let last = l[list as int].prev;
    set_prev(set_next(set_next(set_prev(l, first, prev), prev, first), last, next), next, last)
}

/// What `INIT_LIST_HEAD` leaves: `list` linked to itself, an empty list.
pub open spec fn list_init_head(l: Seq<list_head>, list: usize) -> Seq<list_head> {
    l.update(list as int, list_head { next: list, prev: list })
}

/// Every address that the links of `a` name lies inside the table.
pub open spec fn links_in_range(l: Seq<list_head>, a: usize) -> bool {
    a < l.len() && l[a as int].next < l.len() && l[a as int].prev < l.len()
}

/// Returns 1 when the list headed by `head` has no entry, else 0.
pub fn list_empty(links: &Vec<list_head>, head: usize) -> (r: i32)
    requires
        head < links@.len(),
    ensures
        r == (if links@[head as int].next == head { 1i32 } else { 0i32 }),
{
    if links[head].next == head {
        return 1;
    }
    return 0;
}

/// Makes `list` an empty list: both its links name itself.
#[allow(non_snake_case)]
pub fn INIT_LIST_HEAD(links: &mut Vec<list_head>, list: usize)
    requires
        list < old(links)@.len(),
    ensures
        final(links)@ == list_init_head(old(links)@, list),
{
    links.set(list, list_head { next: list, prev: list });
}

/// Links the entries of `list` in between `prev` and `next`.
pub fn __list_splice(links: &mut Vec<list_head>, list: usize, prev: usize, next: usize)
    requires
        links_in_range(old(links)@, list),
        prev < old(links)@.len(),
        next < old(links)@.len(),
    ensures
        final(links)@ == list_splice_between(old(links)@, list, prev, next),
{
    let first = links[list].next;
    let last = links[list].prev;
    links[first].prev = prev;
    links[prev].next = first;
    links[last].next = next;
    links[next].prev = last;
}

/// Moves the entries of `list` to the front of the list headed by `head`
/// when `list` has any, then applies `INIT_LIST_HEAD` to `list`.
pub fn list_splice_init(links: &mut Vec<list_head>, list: usize, head: usize)
    requires
        links_in_range(old(links)@, list),
        links_in_range(old(links)@, head),
    ensures
        final(links)@ == (if old(links)@[list as int].next == list {
            old(links)@
        } else {
            list_init_head(
                list_splice_between(old(links)@, list, head, old(links)@[head as int].next),
                list,
            )
        }),
{
    if list_empty(links, list) == 0 {
        let hn = links[head].next;
        __list_splice(links, list, head, hn);
        INIT_LIST_HEAD(links, list);
    }
}

/// Links `prev` and `next` to each other.
pub fn __list_del(links: &mut Vec<list_head>, prev: usize, next: usize)
    requires
        prev < old(links)@.len(),
        next < old(links)@.len(),
    ensures
        final(links)@ == list_del_between(old(links)@, prev, next),
{
    links[next].prev = prev;
    links[prev].next = next;
}

/// Unlinks `entry` from its neighbours, leaving its own links as they were.
pub fn __list_del_entry(links: &mut Vec<list_head>, entry: usize)
    requires
        links_in_range(old(links)@, entry),
    ensures
        final(links)@ == list_del_between(
            old(links)@,
            old(links)@[entry as int].prev,
            old(links)@[entry as int].next,
        ),
{
    let prev = links[entry].prev;
    let next = links[entry].next;
    __list_del(links, prev, next);
}

/// Deletes `entry` from its list and poisons its links.
pub fn list_del(links: &mut Vec<list_head>, entry: usize)
    requires
        links_in_range(old(links)@, entry),
    ensures
        final(links)@ == list_del_entry(old(links)@, entry),
{
    __list_del_entry(links, entry);
    links[entry].next = LIST_POISON1;
    links[entry].prev = LIST_POISON2;
    proof {
        assert(final(links)@ =~= list_del_entry(old(links)@, entry));
    }
}

/// Links `new` in between the consecutive entries `prev` and `next`.
pub fn __list_add(links: &mut Vec<list_head>, new: usize, prev: usize, next: usize)
    requires
        new < old(links)@.len(),
        prev < old(links)@.len(),
        next < old(links)@.len(),
    ensures
        final(links)@ == list_add_between(old(links)@, new, prev, next),
{
    links[next].prev = new;
    links[new].next = next;
    links[new].prev = prev;
    links[prev].next = new;
}

/// Inserts `new` right after `head` (stack order).
pub fn list_add(links: &mut Vec<list_head>, new: usize, head: usize)
    requires
        new < old(links)@.len(),
        links_in_range(old(links)@, head),
    ensures
        final(links)@ == list_add_between(old(links)@, new, head, old(links)@[head as int].next),
{
    let next = links[head].next;
    __list_add(links, new, head, next);
}

/// Inserts `new` right before `head` (queue order).
pub fn list_add_tail(links: &mut Vec<list_head>, new: usize, head: usize)
    requires
        new < old(links)@.len(),
        links_in_range(old(links)@, head),
    ensures
        final(links)@ == list_add_between(old(links)@, new, old(links)@[head as int].prev, head),
{
    let prev = links[head].prev;
    __list_add(links, new, prev, head);
}

/// A list stays well-formed when the links of its head and entries are
/// left as they were, whatever happens to the other links.
pub proof fn lemma_list_wf_frame(l1: Seq<list_head>, l2: Seq<list_head>, h: usize, s: Seq<usize>)
    requires
        list_wf(l1, h, s),
        l1.len() <= l2.len(),
        l2[h as int] == l1[h as int],
        forall|i: int| 0 <= i < s.len() ==> l2[#[trigger] s[i] as int] == l1[s[i] as int],
    ensures
        list_wf(l2, h, s),
{
}

/// `list_empty` answers 1 exactly when the list has no entry.
pub proof fn lemma_list_empty(l: Seq<list_head>, h: usize, s: Seq<usize>)
    requires
        list_wf(l, h, s),
    ensures
        (l[h as int].next == h) <==> s.len() == 0,
{
    if s.len() > 0 {
        assert(s[0] != h);
    }
}

/// `list_add` puts the new entry first in the list.
pub proof fn lemma_list_add(l: Seq<list_head>, h: usize, s: Seq<usize>, new: usize)
    requires
        list_wf(l, h, s),
        new < l.len(),
        new != h,
        !s.contains(new),
    ensures
        list_wf(list_add_between(l, new, h, l[h as int].next), h, seq![new] + s),
{
    let r = list_add_between(l, new, h, l[h as int].next);
    let t = seq![new] + s;
    assert(t.no_duplicates()) by {
        assert forall|i: int, j: int| 0 <= i < t.len() && 0 <= j < t.len() && i != j implies t[i]
            != t[j] by {
            if i == 0 && j > 0 {
                assert(s[j - 1] == t[j]);
            } else if j == 0 && i > 0 {
                assert(s[i - 1] == t[i]);
            } else if i > 0 && j > 0 {
                assert(s[i - 1] != s[j - 1]);
            }
        }
    }
    assert forall|i: int| 0 <= i < t.len() implies #[trigger] t[i] < r.len() && t[i] != h && r[t[i]
        as int].next == succ(h, t, i) && r[t[i] as int].prev == pred(h, t, i) by {
        if i > 0 {
            assert(t[i] == s[i - 1]);
            assert(s[i - 1] != new);
        }
    }
}

/// `list_add_tail` puts the new entry last in the list.
pub proof fn lemma_list_add_tail(l: Seq<list_head>, h: usize, s: Seq<usize>, new: usize)
    requires
        list_wf(l, h, s),
        new < l.len(),
        new != h,
        !s.contains(new),
    ensures
        list_wf(list_add_between(l, new, l[h as int].prev, h), h, s.push(new)),
{
    let r = list_add_between(l, new, l[h as int].prev, h);
    let t = s.push(new);
    assert(t.no_duplicates()) by {
        assert forall|i: int, j: int| 0 <= i < t.len() && 0 <= j < t.len() && i != j implies t[i]
            != t[j] by {
            if i == s.len() && j < s.len() {
                assert(s[j] == t[j]);
            } else if j == s.len() && i < s.len() {
                assert(s[i] == t[i]);
            }
        }
    }
    assert forall|i: int| 0 <= i < t.len() implies #[trigger] t[i] < r.len() && t[i] != h && r[t[i]
        as int].next == succ(h, t, i) && r[t[i] as int].prev == pred(h, t, i) by {
        if i < s.len() {
            assert(t[i] == s[i]);
            assert(s[i] != new);
        }
    }
}

proof fn lemma_list_del_at(l: Seq<list_head>, h: usize, s: Seq<usize>, i: int, k: int)
    requires
        list_wf(l, h, s),
        0 <= i < s.len(),
        0 <= k < s.len() - 1,
    ensures
        ({
            let r = list_del_entry(l, s[i]);
            let t = s.remove(i);
            &&& t[k] < r.len()
            &&& t[k] != h
            &&& r[t[k] as int].next == succ(h, t, k)
            &&& r[t[k] as int].prev == pred(h, t, k)
        }),
{
    let e = s[i];
    let p = pred(h, s, i);
    let n = succ(h, s, i);
    let m = list_del_between(l, p, n);
    let r = list_del_entry(l, e);
    let t = s.remove(i);
    let k2 = if k < i { k } else { k + 1 };
    let x = s[k2];
    assert(t[k] == x);
    assert(x != e);
    assert(r[x as int] == m[x as int]);
    if k2 == i - 1 {
        assert(x == p);
        if i + 1 < s.len() {
            assert(t[k + 1] == s[i + 1]);
        }
    } else if k2 == i + 1 {
        assert(x == n);
        if i > 0 {
            assert(t[k - 1] == s[i - 1]);
            assert(s[i - 1] != x);
        }
    } else {
        assert(x != p) by {
            if i > 0 {
                assert(s[i - 1] != x);
            }
        }
        assert(x != n) by {
            if i + 1 < s.len() {
                assert(s[i + 1] != x);
            }
        }
        if k < i {
            if k + 1 < t.len() {
                assert(t[k + 1] == s[k + 1]);
            }
            if k > 0 {
                assert(t[k - 1] == s[k - 1]);
            }
        } else {
            if k + 1 < t.len() {
                assert(t[k + 1] == s[k2 + 1]);
            }
            assert(t[k - 1] == s[k2 - 1]);
        }
    }
}

/// `list_del` removes the entry from the list and leaves the rest in order.
pub proof fn lemma_list_del(l: Seq<list_head>, h: usize, s: Seq<usize>, i: int)
    requires
        list_wf(l, h, s),
        0 <= i < s.len(),
    ensures
        list_wf(list_del_entry(l, s[i]), h, s.remove(i)),
{
    let e = s[i];
    let r = list_del_entry(l, e);
    let t = s.remove(i);
    assert forall|a: int, b: int| 0 <= a < t.len() && 0 <= b < t.len() && a != b implies t[a]
        != t[b] by {
        let a2 = if a < i { a } else { a + 1 };
        let b2 = if b < i { b } else { b + 1 };
        assert(t[a] == s[a2]);
        assert(t[b] == s[b2]);
    }
    assert forall|k: int| 0 <= k < t.len() implies #[trigger] t[k] < r.len() && t[k] != h && r[t[k]
        as int].next == succ(h, t, k) && r[t[k] as int].prev == pred(h, t, k) by {
        lemma_list_del_at(l, h, s, i, k);
    }
    let p = pred(h, s, i);
    let n = succ(h, s, i);
    assert(h != e);
    if t.len() > 0 {
        if i == 0 {
            assert(t[0] == s[1]);
        } else {
            assert(t[0] == s[0]);
            assert(s[0] != e);
        }
        if i == s.len() - 1 {
            assert(t.last() == s[s.len() - 2]);
        } else {
            assert(t.last() == s.last());
            assert(s.last() != e);
        }
    }
}

/// `__list_splice` of a nonempty list right after `h` puts its entries,
/// in order, in front of the entries of `h`.
pub proof fn lemma_list_splice(
    l: Seq<list_head>,
    list: usize,
    t: Seq<usize>,
    h: usize,
    s: Seq<usize>,
)
    requires
        list_wf(l, list, t),
        t.len() > 0,
        list_wf(l, h, s),
        list != h,
        !t.contains(h),
        !s.contains(list),
        forall|i: int| 0 <= i < t.len() ==> !s.contains(#[trigger] t[i]),
    ensures
        list_wf(list_splice_between(l, list, h, l[h as int].next), h, t + s),
{
    let r = list_splice_between(l, list, h, l[h as int].next);
    let u = t + s;
    assert forall|a: int, b: int| 0 <= a < u.len() && 0 <= b < u.len() && a != b implies u[a]
        != u[b] by {
        if a < t.len() && b < t.len() {
        } else if a >= t.len() && b >= t.len() {
            assert(u[a] == s[a - t.len()]);
            assert(u[b] == s[b - t.len()]);
        } else if a < t.len() {
            assert(u[b] == s[b - t.len()]);
            assert(!s.contains(t[a]));
        } else {
            assert(u[a] == s[a - t.len()]);
            assert(!s.contains(t[b]));
        }
    }
    assert forall|k: int| 0 <= k < u.len() implies #[trigger] u[k] < r.len() && u[k] != h && r[u[k]
        as int].next == succ(h, u, k) && r[u[k] as int].prev == pred(h, u, k) by {
        if k < t.len() {
            assert(u[k] == t[k]);
            assert(t[k] != h);
            if s.len() > 0 {
                assert(!s.contains(t[k]));
                assert(s[0] != t[k]);
            }
        } else {
            assert(u[k] == s[k - t.len()]);
            assert(s[k - t.len()] != list);
            assert(!t.contains(s[k - t.len()])) by {
                if t.contains(s[k - t.len()]) {
                    let j = choose|j: int| 0 <= j < t.len() && t[j] == s[k - t.len()];
                    assert(!s.contains(t[j]));
                }
            }
            assert(s[k - t.len()] != t[0]);
            assert(s[k - t.len()] != t.last());
        }
    }
    if s.len() > 0 {
        assert(u.last() == s.last());
        assert(!s.contains(t.last()));
        assert(!s.contains(t[0]));
    } else {
        assert(u.last() == t.last());
    }
}

/// `list_splice_init` moves the entries of `list`, in order, in front of the
/// entries of `h` and leaves `list` empty; the links of every entry on
/// neither list, other than the two heads, are left as they were.
pub proof fn lemma_list_splice_init(
    l: Seq<list_head>,
    list: usize,
    t: Seq<usize>,
    h: usize,
    s: Seq<usize>,
)
    requires
        list_wf(l, list, t),
        list_wf(l, h, s),
        list != h,
        !t.contains(h),
        !s.contains(list),
        forall|i: int| 0 <= i < t.len() ==> !s.contains(#[trigger] t[i]),
    ensures
        ({
            let r = if l[list as int].next == list {
                l
            } else {
                list_init_head(list_splice_between(l, list, h, l[h as int].next), list)
            };
            &&& r.len() == l.len()
            &&& list_wf(r, list, Seq::empty())
            &&& list_wf(r, h, t + s)
            &&& forall|x: usize|
                x < l.len() && x != list && x != h && !t.contains(x) && !s.contains(x) ==> r[x as int]
                    == l[x as int]
        }),
{
    lemma_list_empty(l, list, t);
    if t.len() == 0 {
        assert(t + s =~= s);
    } else {
        lemma_list_splice(l, list, t, h, s);
        let r1 = list_splice_between(l, list, h, l[h as int].next);
        let r = list_init_head(r1, list);
        let u = t + s;
        assert forall|i: int| 0 <= i < u.len() implies r[#[trigger] u[i] as int] == r1[u[i] as int] by {
            if i < t.len() {
                assert(u[i] == t[i]);
            } else {
                assert(u[i] == s[i - t.len()]);
            }
        }
        lemma_list_wf_frame(r1, r, h, u);
        assert forall|x: usize|
            x < l.len() && x != list && x != h && !t.contains(x) && !s.contains(x) implies r[x as int]
                == l[x as int] by {
            assert(x != t[0]);
            assert(x != t.last());
            if s.len() > 0 {
                assert(x != s[0]);
            }
        }
    }
}

/// After `list_del`, the entry does not read as an empty list: its `next`
/// holds the poison value, not the entry itself.
pub proof fn lemma_list_del_entry_not_empty(l: Seq<list_head>, entry: usize)
    requires
        links_in_range(l, entry),
        entry != LIST_POISON1,
    ensures
        list_del_entry(l, entry)[entry as int].next != entry,
{
}

} // verus!
