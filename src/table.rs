use crate::bindings::try_send;
use std::sync::Arc;
use tokio::sync::mpsc::UnboundedSender;
use vstd::prelude::*;

verus! {

/// One registered subscriber: its handle and the sending end of its queue.
#[verifier::reject_recursive_types(T)]
pub struct Entry<T> {
    pub handle: i64,
    pub sender: UnboundedSender<Arc<T>>,
}

/// The handles and senders of a sequence of entries, as a map; a later entry
/// of the same handle wins.
pub open spec fn entries_map<T>(s: Seq<Entry<T>>) -> Map<i64, UnboundedSender<Arc<T>>>
    decreases s.len(),
{
    if s.len() == 0 {
        Map::empty()
    } else {
        entries_map(s.drop_last()).insert(s.last().handle, s.last().sender)
    }
}

/// The handles of a sequence of entries, in order.
pub open spec fn handles_of<T>(s: Seq<Entry<T>>) -> Seq<i64> {
    s.map_values(|e: Entry<T>| e.handle)
}

/// The handles of a sequence of entries are exactly the keys of its map.
proof fn lemma_entries_map_dom<T>(s: Seq<Entry<T>>)
    ensures
        forall|h: i64| #[trigger] entries_map(s).contains_key(h) <==> handles_of(s).contains(h),
    decreases s.len(),
{
    if s.len() > 0 {
        lemma_entries_map_dom(s.drop_last());
        let t = s.drop_last();
        assert(handles_of(s) =~= handles_of(t).push(s.last().handle));
        assert(entries_map(s) == entries_map(t).insert(s.last().handle, s.last().sender));
        assert forall|h: i64| #[trigger] entries_map(s).contains_key(h) <==> handles_of(s).contains(h) by {
            assert(entries_map(t).contains_key(h) <==> handles_of(t).contains(h));
            if handles_of(s).contains(h) {
                let i = choose|i: int| 0 <= i < handles_of(s).len() && handles_of(s)[i] == h;
                if i < s.len() - 1 {
                    assert(handles_of(t)[i] == h);
                }
            }
            if handles_of(t).contains(h) {
                let i = choose|i: int| 0 <= i < handles_of(t).len() && handles_of(t)[i] == h;
                assert(handles_of(s)[i] == h);
            }
            assert(handles_of(s)[s.len() - 1] == s.last().handle);
        }
    }
}

/// With unique handles, each entry's sender is what its handle maps to.
proof fn lemma_entries_map_at<T>(s: Seq<Entry<T>>, i: int)
    requires
        handles_of(s).no_duplicates(),
        0 <= i < s.len(),
    ensures
        entries_map(s).contains_key(s[i].handle),
        entries_map(s)[s[i].handle] == s[i].sender,
    decreases s.len(),
{
    lemma_entries_map_dom(s);
    assert(handles_of(s)[i] == s[i].handle);
    if i < s.len() - 1 {
        let t = s.drop_last();
        assert(handles_of(t) =~= handles_of(s).drop_last());
        lemma_entries_map_at(t, i);
        assert(handles_of(s)[s.len() - 1] == s.last().handle);
        assert(t[i] == s[i]);
    }
}

/// Replacing an entry by one of the same handle replaces that handle's sender.
proof fn lemma_entries_map_update<T>(s: Seq<Entry<T>>, i: int, e: Entry<T>)
    requires
        handles_of(s).no_duplicates(),
        0 <= i < s.len(),
        e.handle == s[i].handle,
    ensures
        entries_map(s.update(i, e)) == entries_map(s).insert(e.handle, e.sender),
        handles_of(s.update(i, e)) == handles_of(s),
    decreases s.len(),
{
    let u = s.update(i, e);
    assert(handles_of(u) =~= handles_of(s));
    let t = s.drop_last();
    if i == s.len() - 1 {
        assert(u.drop_last() =~= t);
        assert(entries_map(u) =~= entries_map(s).insert(e.handle, e.sender));
    } else {
        assert(u.drop_last() =~= t.update(i, e));
        assert(handles_of(t) =~= handles_of(s).drop_last());
        lemma_entries_map_update(t, i, e);
        assert(handles_of(s)[i] == s[i].handle);
        assert(handles_of(s)[s.len() - 1] == s.last().handle);
        assert(s.last().handle != e.handle);
        assert(entries_map(u) =~= entries_map(s).insert(e.handle, e.sender));
    }
}

/// Whether some position from `k` on holds handle `h` with outcome `b`.
pub open spec fn outcome_after(hs: Seq<i64>, outcomes: Seq<bool>, k: int, h: i64, b: bool) -> bool {
    exists|i: int| k <= i < hs.len() && #[trigger] hs[i] == h && outcomes[i] == b
}

/// The handles of the entries from index `k` on.
pub open spec fn handles_after<T>(s: Seq<Entry<T>>, k: int) -> Seq<i64> {
    handles_of(s).subrange(k, s.len() as int)
}

/// The registry of subscribers: at most one sender per handle.
#[verifier::reject_recursive_types(T)]
pub struct SubscriberTable<T> {
    entries: Vec<Entry<T>>,
}

/// What one broadcast did: the handles that received the value, and those
/// whose receiving end was gone and that were removed.
pub struct Delivery {
    pub delivered: Vec<i64>,
    pub dropped: Vec<i64>,
}

impl<T> View for SubscriberTable<T> {
    type V = Map<i64, UnboundedSender<Arc<T>>>;

    closed spec fn view(&self) -> Map<i64, UnboundedSender<Arc<T>>> {
        entries_map(self.entries@)
    }
}

impl<T> SubscriberTable<T> {
    /// The handles are unique.
    pub closed spec fn wf(&self) -> bool {
        handles_of(self.entries@).no_duplicates()
    }

    pub fn new() -> (r: Self)
        ensures
            r.wf(),
            r@ == Map::<i64, UnboundedSender<Arc<T>>>::empty(),
    {
        SubscriberTable { entries: Vec::new() }
    }

    /// Registers `sender` under `handle`, in place of any sender that the
    /// handle had.
    pub fn insert(&mut self, handle: i64, sender: UnboundedSender<Arc<T>>)
        requires
            old(self).wf(),
        ensures
            final(self).wf(),
            final(self)@ == old(self)@.insert(handle, sender),
    {
        let ghost s = self.entries@;
        let n = self.entries.len();
        let mut i: usize = 0;
        while i < n
            invariant
                self.entries@ == s,
                old(self).entries@ == s,
                handles_of(s).no_duplicates(),
                n == s.len(),
                0 <= i <= n,
                forall|j: int| 0 <= j < i ==> s[j].handle != handle,
            decreases n - i,
        {
            if self.entries[i].handle == handle {
                let e = Entry { handle, sender };
                proof {
                    lemma_entries_map_update(s, i as int, e);
                }
                self.entries.set(i, e);
                return;
            }
            i = i + 1;
        }
        let e = Entry { handle, sender };
        self.entries.push(e);
        proof {
            assert(self.entries@.drop_last() =~= s);
            assert(handles_of(self.entries@) =~= handles_of(s).push(handle));
            assert forall|j: int| 0 <= j < handles_of(s).len() implies handles_of(s)[j] != handle by {
                assert(handles_of(s)[j] == s[j].handle);
            }
        }
    }

    /// The handles in the order in which a broadcast tries them.
    pub closed spec fn handles(&self) -> Seq<i64> {
        handles_of(self.entries@)
    }

    /// Sends a share of `value` to every registered subscriber, and removes
    /// each one whose receiving end is gone. Every subscriber registered on
    /// entry is tried once: it is either delivered to, and stays, or dropped.
    pub fn broadcast(&mut self, value: &Arc<T>) -> (r: Delivery)
        requires
            old(self).wf(),
        ensures
            final(self).wf(),
            final(self)@ == old(self)@.remove_keys(r.dropped@.to_set()),
            r.dropped@.to_set().subset_of(old(self)@.dom()),
            r.dropped@.no_duplicates(),
            r.delivered@.to_set() == final(self)@.dom(),
            r.delivered@.no_duplicates(),
            forall|h: i64| old(self)@.contains_key(h) <==> (#[trigger] r.delivered@.contains(h) || r.dropped@.contains(h)),
            forall|h: i64| !(#[trigger] r.delivered@.contains(h) && r.dropped@.contains(h)),
            forall|h: i64| #[trigger] r.dropped@.contains(h) ==> !final(self)@.contains_key(h),
            forall|h: i64| #[trigger] final(self)@.contains_key(h) ==> final(self)@[h] == old(self)@[h],
    {
        let outcomes = self.send_all(value);
        self.settle(&outcomes)
    }

    /// Tries to send a share of `value` to each subscriber, in the order of
    /// `handles()`, and reports for each whether its queue took it.
    fn send_all(&self, value: &Arc<T>) -> (outcomes: Vec<bool>)
        ensures
            outcomes@.len() == self.handles().len(),
    {
        let mut outcomes: Vec<bool> = Vec::new();
        let n = self.entries.len();
        let mut i: usize = 0;
        while i < n
            invariant
                n == self.entries@.len(),
                0 <= i <= n,
                outcomes@.len() == i,
            decreases n - i,
        {
            outcomes.push(try_send(&self.entries[i].sender, value.clone()));
            i = i + 1;
        }
        outcomes
    }

    /// Given for each subscriber, in the order of `handles()`, whether its
    /// queue took the value, keeps those that did and removes the others.
    pub fn settle(&mut self, outcomes: &Vec<bool>) -> (r: Delivery)
        requires
            old(self).wf(),
            outcomes@.len() == old(self).handles().len(),
        ensures
            final(self).wf(),
            final(self)@ == old(self)@.remove_keys(r.dropped@.to_set()),
            r.delivered@.to_set() == final(self)@.dom(),
            r.dropped@.no_duplicates(),
            r.delivered@.no_duplicates(),
            forall|h: i64| #[trigger] r.delivered@.contains(h) <==> outcome_after(old(self).handles(), outcomes@, 0, h, true),
            forall|h: i64| #[trigger] r.dropped@.contains(h) <==> outcome_after(old(self).handles(), outcomes@, 0, h, false),
            r.dropped@.to_set().subset_of(old(self)@.dom()),
            forall|h: i64| old(self)@.contains_key(h) <==> (#[trigger] r.delivered@.contains(h) || r.dropped@.contains(h)),
            forall|h: i64| !(#[trigger] r.delivered@.contains(h) && r.dropped@.contains(h)),
            forall|h: i64| #[trigger] r.dropped@.contains(h) ==> !final(self)@.contains_key(h),
            forall|h: i64| #[trigger] final(self)@.contains_key(h) ==> final(self)@[h] == old(self)@[h],
    {
        let ghost s = self.entries@;
        let mut pending: Vec<Entry<T>> = Vec::new();
        std::mem::swap(&mut pending, &mut self.entries);
        let mut kept: Vec<Entry<T>> = Vec::new();
        let mut delivered: Vec<i64> = Vec::new();
        let mut dropped: Vec<i64> = Vec::new();
        while pending.len() > 0
            invariant
                s == old(self).entries@,
                handles_of(s).no_duplicates(),
                pending.len() <= s.len(),
                pending@ == s.take(pending.len() as int),
                delivered@ == handles_of(kept@),
                delivered@.no_duplicates(),
                dropped@.no_duplicates(),
                forall|h: i64| #[trigger] delivered@.contains(h) ==> handles_after(s, pending.len() as int).contains(h),
                forall|h: i64| #[trigger] dropped@.contains(h) ==> handles_after(s, pending.len() as int).contains(h),
                forall|h: i64| #[trigger] handles_after(s, pending.len() as int).contains(h) ==> delivered@.contains(h) || dropped@.contains(h),
                forall|h: i64| !(#[trigger] delivered@.contains(h) && dropped@.contains(h)),
                outcomes@.len() == s.len(),
                forall|h: i64| #[trigger] delivered@.contains(h) ==> outcome_after(handles_of(s), outcomes@, pending.len() as int, h, true),
                forall|h: i64| #[trigger] dropped@.contains(h) ==> outcome_after(handles_of(s), outcomes@, pending.len() as int, h, false),
                forall|j: int| 0 <= j < kept.len() ==> #[trigger] entries_map(s).contains_key(kept@[j].handle)
                    && entries_map(s)[kept@[j].handle] == kept@[j].sender,
            decreases pending.len(),
        {
            let ghost k = pending.len() as int;
            let idx = pending.len() - 1;
            let ghost d0 = delivered@;
            let ghost p0 = dropped@;
            let e = pending.pop().unwrap();
            proof {
                assert(e == s[k - 1]);
                assert(handles_of(s)[k - 1] == e.handle);
                lemma_entries_map_at(s, k - 1);
                assert(handles_after(s, k - 1) =~= handles_after(s, k).insert(0, e.handle));
                let next = handles_after(s, k);
                assert forall|h: i64| next.contains(h) implies h != e.handle by {
                    let i = choose|i: int| 0 <= i < next.len() && next[i] == h;
                    assert(handles_of(s)[k + i] == h);
                }
                assert(!d0.contains(e.handle));
                assert(!p0.contains(e.handle));
            }
            if outcomes[idx] {
                let ghost kept_before = kept@;
                let ghost moved = e;
                delivered.push(e.handle);
                kept.push(e);
                proof {
                    assert(handles_of(kept@) =~= handles_of(kept_before).push(e.handle));
                    assert forall|j: int| 0 <= j < kept.len() implies #[trigger] entries_map(s).contains_key(kept@[j].handle)
                        && entries_map(s)[kept@[j].handle] == kept@[j].sender by {
                        if j < kept.len() - 1 {
                            assert(kept@[j] == kept_before[j]);
                            assert(entries_map(s).contains_key(kept_before[j].handle));
                        } else {
                            assert(kept@[j] == moved);
                            assert(moved == s[k - 1]);
                        }
                    }
                }
            } else {
                dropped.push(e.handle);
            }
            proof {
                let prev = handles_after(s, k - 1);
                let next = handles_after(s, k);
                if delivered@ == d0.push(e.handle) {
                    assert(delivered@[d0.len() as int] == e.handle);
                    assert(dropped@ == p0);
                } else {
                    assert(dropped@ == p0.push(e.handle));
                    assert(dropped@[p0.len() as int] == e.handle);
                    assert(delivered@ == d0);
                }
                assert(prev[0] == e.handle);
                assert(dropped@ == p0 || dropped@ == p0.push(e.handle));
                assert(delivered@ == d0 || delivered@ == d0.push(e.handle));
                assert forall|h: i64| #[trigger] delivered@.contains(h) && h != e.handle implies d0.contains(h) by {
                    let j = choose|j: int| 0 <= j < delivered@.len() && delivered@[j] == h;
                    assert(d0[j] == h);
                }
                assert forall|h: i64| #[trigger] dropped@.contains(h) && h != e.handle implies p0.contains(h) by {
                    let j = choose|j: int| 0 <= j < dropped@.len() && dropped@[j] == h;
                    assert(p0[j] == h);
                }
                assert(!(delivered@.contains(e.handle) && dropped@.contains(e.handle)));
                assert forall|h: i64| next.contains(h) implies #[trigger] prev.contains(h) by {
                    let i = choose|i: int| 0 <= i < next.len() && next[i] == h;
                    assert(prev[i + 1] == h);
                }
                assert forall|h: i64| #[trigger] delivered@.contains(h) implies prev.contains(h) by {
                    if h != e.handle {
                        assert(d0.contains(h));
                        assert(next.contains(h));
                    }
                }
                assert forall|h: i64| #[trigger] dropped@.contains(h) implies prev.contains(h) by {
                    if h != e.handle {
                        assert(p0.contains(h));
                        assert(next.contains(h));
                    }
                }
                assert forall|h: i64| #[trigger] prev.contains(h) implies delivered@.contains(h) || dropped@.contains(h) by {
                    if h != e.handle {
                        let i = choose|i: int| 0 <= i < prev.len() && prev[i] == h;
                        assert(i > 0);
                        assert(next[i - 1] == h);
                        assert(next.contains(h));
                        assert(d0.contains(h) || p0.contains(h));
                        if d0.contains(h) {
                            let j = choose|j: int| 0 <= j < d0.len() && d0[j] == h;
                            assert(delivered@[j] == h);
                        } else {
                            let j = choose|j: int| 0 <= j < p0.len() && p0[j] == h;
                            assert(dropped@[j] == h);
                        }
                    }
                }
            }
        }
        proof {
            let hs = handles_of(s);
            assert(handles_after(s, 0) =~= hs);
            assert forall|h: i64| outcome_after(hs, outcomes@, 0, h, true) implies #[trigger] delivered@.contains(h) by {
                let i = choose|i: int| 0 <= i < hs.len() && #[trigger] hs[i] == h && outcomes@[i] == true;
                assert(handles_after(s, 0)[i] == h);
                assert(handles_after(s, 0).contains(h));
                assert(delivered@.contains(h) || dropped@.contains(h));
                if dropped@.contains(h) {
                    assert(outcome_after(hs, outcomes@, 0, h, false));
                    let j = choose|j: int| 0 <= j < hs.len() && #[trigger] hs[j] == h && outcomes@[j] == false;
                    assert(i == j);
                }
            }
            assert forall|h: i64| outcome_after(hs, outcomes@, 0, h, false) implies #[trigger] dropped@.contains(h) by {
                let i = choose|i: int| 0 <= i < hs.len() && #[trigger] hs[i] == h && outcomes@[i] == false;
                assert(handles_after(s, 0)[i] == h);
                assert(handles_after(s, 0).contains(h));
                assert(delivered@.contains(h) || dropped@.contains(h));
                if delivered@.contains(h) {
                    assert(outcome_after(hs, outcomes@, 0, h, true));
                    let j = choose|j: int| 0 <= j < hs.len() && #[trigger] hs[j] == h && outcomes@[j] == true;
                    assert(i == j);
                }
            }
            lemma_entries_map_dom(s);
            lemma_entries_map_dom(kept@);
            assert forall|h: i64| #[trigger] handles_of(s).contains(h) implies entries_map(s).contains_key(h) by {}
            assert(entries_map(kept@) =~= entries_map(s).remove_keys(dropped@.to_set())) by {
                assert forall|h: i64| #[trigger] entries_map(kept@).contains_key(h) implies
                    entries_map(kept@)[h] == entries_map(s)[h] by {
                    let j = choose|j: int| 0 <= j < handles_of(kept@).len() && handles_of(kept@)[j] == h;
                    lemma_entries_map_at(kept@, j);
                }
            }
        }
        self.entries = kept;
        Delivery { delivered, dropped }
    }

    /// The number of registered subscribers.
    pub fn len(&self) -> (r: usize)
        requires
            self.wf(),
        ensures
            r == self@.len(),
    {
        proof {
            lemma_entries_map_dom(self.entries@);
            handles_of(self.entries@).unique_seq_to_set();
            assert(self@.dom() =~= handles_of(self.entries@).to_set());
        }
        self.entries.len()
    }
}

} // verus!
