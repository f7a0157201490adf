//! Bounded min-heap of pending reset expirations.

use vstd::prelude::*;
use vstd::multiset::Multiset;

verus! {

/// Number of resets that can be pending at once.
pub const RESET_CAPACITY: usize = 8;

/// `heapless::binary_heap::Min`, the marker that makes a heap a min-heap.
#[verifier::external_type_specification]
#[verifier::external_body]
pub struct ExMin(heapless::binary_heap::Min);

/// `heapless::BinaryHeap`, a fixed-capacity binary heap. Nothing of its layout
/// is visible to proofs; its contents are named by [`heap_entries`].
#[verifier::external_type_specification]
#[verifier::external_body]
#[verifier::reject_recursive_types(T)]
#[verifier::reject_recursive_types(K)]
pub struct ExBinaryHeap<T, K, const N: usize>(heapless::BinaryHeap<T, K, N>);

/// The entries that a heap holds, each an `(expiry, line)` pair, with multiplicity.
pub uninterp spec fn heap_entries(
    heap: heapless::BinaryHeap<(u64, i32), heapless::binary_heap::Min, 8>,
) -> Multiset<(u64, i32)>;

/// Order of `(expiry, line)` pairs: by expiry, then by line.
pub open spec fn entry_le(a: (u64, i32), b: (u64, i32)) -> bool {
    a.0 < b.0 || (a.0 == b.0 && a.1 <= b.1)
}

/// `e` is in `entries` and no entry of `entries` comes before it.
pub open spec fn is_least(entries: Multiset<(u64, i32)>, e: (u64, i32)) -> bool {
    &&& entries.count(e) > 0
    &&& forall|o: (u64, i32)| entries.count(o) > 0 ==> entry_le(e, o)
}

/// `heapless::BinaryHeap::new`: the heap starts with no entries.
#[verifier::external_body]
fn heap_new() -> (heap: heapless::BinaryHeap<(u64, i32), heapless::binary_heap::Min, 8>)
    ensures
        heap_entries(heap) == Multiset::<(u64, i32)>::empty(),
{
    heapless::BinaryHeap::new()
}

/// `heapless::BinaryHeap::peek` on a min-heap: the least entry, or `None`
/// exactly when the heap is empty.
#[verifier::external_body]
fn heap_peek(
    heap: &heapless::BinaryHeap<(u64, i32), heapless::binary_heap::Min, 8>,
) -> (top: Option<(u64, i32)>)
    ensures
        top is None <==> heap_entries(*heap).len() == 0,
        top matches Some(e) ==> is_least(heap_entries(*heap), e),
{
    heap.peek().copied()
}

/// `heapless::BinaryHeap::pop` on a min-heap: removes one copy of the least
/// entry and returns it; an empty heap is left as it is.
#[verifier::external_body]
fn heap_pop(
    heap: &mut heapless::BinaryHeap<(u64, i32), heapless::binary_heap::Min, 8>,
) -> (top: Option<(u64, i32)>)
    ensures
        top is None <==> heap_entries(*old(heap)).len() == 0,
        top is None ==> heap_entries(*final(heap)) == heap_entries(*old(heap)),
        top matches Some(e) ==> is_least(heap_entries(*old(heap)), e)
            && heap_entries(*final(heap)) == heap_entries(*old(heap)).remove(e),
{
    heap.pop()
}

/// `heapless::BinaryHeap::push`: adds the entry unless the heap already holds
/// as many entries as its capacity, in which case the entry comes back and the
/// heap is left as it is.
#[verifier::external_body]
fn heap_push(
    heap: &mut heapless::BinaryHeap<(u64, i32), heapless::binary_heap::Min, 8>,
    entry: (u64, i32),
) -> (pushed: Result<(), (u64, i32)>)
    ensures
        match pushed {
            Ok(()) => RESET_CAPACITY > heap_entries(*old(heap)).len()
                && heap_entries(*final(heap)) == heap_entries(*old(heap)).insert(entry),
            Err(back) => heap_entries(*old(heap)).len() >= RESET_CAPACITY && back == entry
                && heap_entries(*final(heap)) == heap_entries(*old(heap)),
        },
{
    heap.push(entry)
}

/// `heapless::BinaryHeap::iter`, collected: every entry of the heap, in no
/// particular order.
#[verifier::external_body]
fn heap_items(
    heap: &heapless::BinaryHeap<(u64, i32), heapless::binary_heap::Min, 8>,
) -> (items: Vec<(u64, i32)>)
    ensures
        items@.to_multiset() == heap_entries(*heap),
{
    heap.iter().copied().collect()
}

/// Why a reset could not be added to the heap.
#[derive(Clone, Copy, Debug, PartialEq, Eq, Structural)]
pub enum PushError {
    /// The line already has a pending reset.
    AlreadyPending,
    /// The heap holds [`RESET_CAPACITY`] resets already.
    Full,
}

/// The lines of `pending` whose expiry is at or before `now`.
pub open spec fn due_lines(pending: Map<i32, u64>, now: u64) -> Set<i32> {
    Set::new(|line: i32| pending.contains_key(line) && pending[line] <= now)
}

/// What is left of `pending` once every reset that is due at `now` has gone.
pub open spec fn after_expiry(pending: Map<i32, u64>, now: u64) -> Map<i32, u64> {
    pending.remove_keys(due_lines(pending, now))
}

/// `lines` names each line once, and in the order in which their resets
/// expire under `pending`: by expiry, then by line.
pub open spec fn in_expiry_order(pending: Map<i32, u64>, lines: Seq<i32>) -> bool {
    forall|i: int, j: int|
        #![trigger lines[i], lines[j]]
        0 <= i < j < lines.len() ==> lines[i] != lines[j] && entry_le(
            (pending[lines[i]], lines[i]),
            (pending[lines[j]], lines[j]),
        )
}

/// The pending resets of the control loop: at most [`RESET_CAPACITY`] of
/// them, at most one per line, the earliest expiry first.
///
/// Its view is the map from each line with a pending reset to the instant at
/// which that reset expires.
pub struct ResetHeap {
    heap: heapless::BinaryHeap<(u64, i32), heapless::binary_heap::Min, 8>,
    pending: Ghost<Map<i32, u64>>,
}

impl View for ResetHeap {
    type V = Map<i32, u64>;

    closed spec fn view(&self) -> Map<i32, u64> {
        self.pending@
    }
}

impl ResetHeap {
    /// The heap holds exactly one `(expiry, line)` entry for each pending
    /// reset and nothing else, and no more than its capacity.
    pub closed spec fn wf(&self) -> bool {
        &&& self.pending@.dom().finite()
        &&& self.pending@.dom().len() == heap_entries(self.heap).len()
        &&& self.pending@.dom().len() <= RESET_CAPACITY
        &&& forall|e: (u64, i32)| #[trigger]
            heap_entries(self.heap).count(e) == (if self.pending@.contains_key(e.1)
                && self.pending@[e.1] == e.0 {
                1nat
            } else {
                0nat
            })
    }

    /// A well-formed heap never holds more than its capacity.
    pub proof fn lemma_bounded(&self)
        requires
            self.wf(),
        ensures
            self@.dom().finite(),
            self@.len() <= RESET_CAPACITY,
    {
    }

    /// A heap with no pending reset.
    pub fn new() -> (heap: Self)
        ensures
            heap.wf(),
            heap@ == Map::<i32, u64>::empty(),
    {
        ResetHeap { heap: heap_new(), pending: Ghost(Map::empty()) }
    }

    /// Number of pending resets.
    pub fn len(&self) -> (n: usize)
        requires
            self.wf(),
        ensures
            n == self@.len(),
            n <= RESET_CAPACITY,
    {
        let items = heap_items(&self.heap);
        proof {
            items@.to_multiset_ensures();
        }
        items.len()
    }

    /// The instant at which the reset of `line` expires, if one is pending.
    pub fn expiry_of(&self, line: i32) -> (expiry: Option<u64>)
        requires
            self.wf(),
        ensures
            expiry == (if self@.contains_key(line) {
                Some(self@[line])
            } else {
                None
            }),
    {
        let items = heap_items(&self.heap);
        proof {
            items@.to_multiset_ensures();
        }
        let mut i: usize = 0;
        while i < items.len()
            invariant
                i <= items.len(),
                self.wf(),
                items@.to_multiset() == heap_entries(self.heap),
                forall|k: int| 0 <= k < i ==> items[k].1 != line,
            decreases items.len() - i,
        {
            let entry = items[i];
            if entry.1 == line {
                proof {
                    items@.to_multiset_ensures();
                    assert(heap_entries(self.heap).count(entry) > 0);
                }
                return Some(entry.0);
            }
            i += 1;
        }
        proof {
            if self@.contains_key(line) {
                let e = (self@[line], line);
                items@.to_multiset_ensures();
                assert(heap_entries(self.heap).count(e) == 1);
            }
        }
        None
    }

    /// Whether `line` has a pending reset.
    pub fn is_pending(&self, line: i32) -> (pending: bool)
        requires
            self.wf(),
        ensures
            pending == self@.contains_key(line),
    {
        self.expiry_of(line).is_some()
    }

    /// The reset that expires first, as `(expiry, line)`; `None` exactly when
    /// nothing is pending.
    pub fn earliest(&self) -> (top: Option<(u64, i32)>)
        requires
            self.wf(),
        ensures
            top is None <==> self@.len() == 0,
            top matches Some(e) ==> self@.contains_key(e.1) && self@[e.1] == e.0
                && forall|line: i32| self@.contains_key(line) ==> entry_le(e, (self@[line], line)),
    {
        heap_peek(&self.heap)
    }

    /// Adds a reset of `line` that expires at `expiry`. A line that already has
    /// a pending reset keeps it; a full heap rejects the new reset. Either way
    /// the heap is then left as it was.
    pub fn insert(&mut self, line: i32, expiry: u64) -> (added: Result<(), PushError>)
        requires
            old(self).wf(),
        ensures
            final(self).wf(),
            match added {
                Ok(()) => !old(self)@.contains_key(line) && old(self)@.len() < RESET_CAPACITY
                    && final(self)@ == old(self)@.insert(line, expiry),
                Err(PushError::AlreadyPending) => old(self)@.contains_key(line) && final(self)@
                    == old(self)@,
                Err(PushError::Full) => !old(self)@.contains_key(line) && old(self)@.len()
                    >= RESET_CAPACITY && final(self)@ == old(self)@,
            },
    {
        if self.is_pending(line) {
            return Err(PushError::AlreadyPending);
        }
        let ghost before = heap_entries(self.heap);
        match heap_push(&mut self.heap, (expiry, line)) {
            Ok(()) => {
                proof {
                    let after = self.pending@.insert(line, expiry);
                    assert forall|e: (u64, i32)| #[trigger]
                        heap_entries(self.heap).count(e) == (if after.contains_key(e.1) && after[e.1]
                            == e.0 {
                            1nat
                        } else {
                            0nat
                        }) by {
                        assert(before.count(e) == (if self.pending@.contains_key(e.1)
                            && self.pending@[e.1] == e.0 {
                            1nat
                        } else {
                            0nat
                        }));
                    }
                }
                self.pending = Ghost(self.pending@.insert(line, expiry));
                Ok(())
            },
            Err(_) => Err(PushError::Full),
        }
    }

    /// Removes the reset that expires first, if it is due at `now`, and returns
    /// its line. `None` means that nothing pending is due yet.
    pub fn pop_due(&mut self, now: u64) -> (line: Option<i32>)
        requires
            old(self).wf(),
        ensures
            final(self).wf(),
            match line {
                Some(l) => due_lines(old(self)@, now).contains(l) && final(self)@ == old(self)@.remove(l)
                    && forall|o: i32| old(self)@.contains_key(o) ==> entry_le(
                        (old(self)@[l], l),
                        (old(self)@[o], o),
                    ),
                None => due_lines(old(self)@, now) == Set::<i32>::empty() && final(self)@ == old(
                    self,
                )@,
            },
    {
        let top = self.earliest();
        match top {
            Some(e) => {
                if e.0 > now {
                    return None;
                }
                let ghost before = heap_entries(self.heap);
                let popped = heap_pop(&mut self.heap);
                proof {
                    let p = popped->0;
                    assert(entry_le(p, e) && entry_le(e, p));
                    let after = self.pending@.remove(e.1);
                    assert forall|x: (u64, i32)| #[trigger]
                        heap_entries(self.heap).count(x) == (if after.contains_key(x.1) && after[x.1]
                            == x.0 {
                            1nat
                        } else {
                            0nat
                        }) by {
                        assert(before.count(x) == (if self.pending@.contains_key(x.1)
                            && self.pending@[x.1] == x.0 {
                            1nat
                        } else {
                            0nat
                        }));
                    }
                }
                self.pending = Ghost(self.pending@.remove(e.1));
                Some(e.1)
            },
            None => None,
        }
    }

    /// Removes every reset that is due at `now` and returns their lines, the
    /// earliest expiry first. Resets that expire after `now` stay as they are.
    pub fn drain_due(&mut self, now: u64) -> (released: Vec<i32>)
        requires
            old(self).wf(),
        ensures
            final(self).wf(),
            final(self)@ == after_expiry(old(self)@, now),
            released@.to_set() == due_lines(old(self)@, now),
            in_expiry_order(old(self)@, released@),
    {
        let ghost start = self@;
        let mut released: Vec<i32> = Vec::new();
        loop
            invariant
                self.wf(),
                forall|l: i32|
                    self@.contains_key(l) <==> start.contains_key(l) && !released@.contains(l),
                forall|l: i32| self@.contains_key(l) ==> self@[l] == start[l],
                forall|k: int|
                    0 <= k < released.len() ==> due_lines(start, now).contains(#[trigger] released[k]),
                forall|k: int, l: i32|
                    0 <= k < released.len() && self@.contains_key(l) ==> entry_le(
                        (start[#[trigger] released[k]], released[k]),
                        (#[trigger] start[l], l),
                    ),
                in_expiry_order(start, released@),
            ensures
                self.wf(),
                forall|l: i32|
                    self@.contains_key(l) <==> start.contains_key(l) && !released@.contains(l),
                forall|l: i32| self@.contains_key(l) ==> self@[l] == start[l],
                forall|k: int|
                    0 <= k < released.len() ==> due_lines(start, now).contains(#[trigger] released[k]),
                in_expiry_order(start, released@),
                due_lines(self@, now) == Set::<i32>::empty(),
            decreases self@.len(),
        {
            let ghost done = released@;
            match self.pop_due(now) {
                None => {
                    break ;
                },
                Some(line) => {
                    released.push(line);
                    proof {
                        assert forall|l: i32|
                            self@.contains_key(l) <==> start.contains_key(l) && !released@.contains(
                                l,
                            ) by {
                            if done.contains(l) {
                                let k = choose|k: int| 0 <= k < done.len() && done[k] == l;
                                assert(released@[k] == l);
                            }
                            assert(released@[done.len() as int] == line);
                        }
                    }
                },
            }
        }
        proof {
            let due = due_lines(start, now);
            assert forall|l: i32| due.contains(l) <==> released@.contains(l) by {
                if due.contains(l) && !released@.contains(l) {
                    assert(due_lines(self@, now).contains(l));
                }
            }
        }
        released
    }
}

} // verus!
