//! Bounded FIFO history of serialized snapshots.
//!
//! One buffer exists per tracked collector kind.  Its capacity is fixed when
//! it is created (the monitoring engine derives it once from
//! `period / interval`) and a push beyond capacity evicts the oldest entry,
//! so the buffer always holds the most recent window of snapshots.

use vstd::prelude::*;

verus! {

use vstd::seq_lib::*;

/// The contents of a buffer with capacity `cap` after `blob` is appended:
/// the blob goes to the back, and the oldest entry leaves if the buffer
/// would otherwise exceed its capacity.
pub open spec fn spec_push(s: Seq<Seq<u8>>, cap: nat, blob: Seq<u8>) -> Seq<Seq<u8>> {
    let grown = s.push(blob);
    if grown.len() <= cap {
        grown
    } else {
        grown.drop_first()
    }
}

/// The contents after a whole sequence of pushes, oldest first.
pub open spec fn spec_push_all(s: Seq<Seq<u8>>, cap: nat, blobs: Seq<Seq<u8>>) -> Seq<Seq<u8>>
    decreases blobs.len(),
{
    if blobs.len() == 0 {
        s
    } else {
        spec_push_all(spec_push(s, cap, blobs.first()), cap, blobs.drop_first())
    }
}

/// A bounded FIFO of serialized snapshots, oldest first.
#[derive(Debug)]
pub struct HistoryBuffer {
    entries: std::collections::VecDeque<Vec<u8>>,
    capacity: usize,
}

impl View for HistoryBuffer {
    type V = Seq<Seq<u8>>;

    closed spec fn view(&self) -> Seq<Seq<u8>> {
        Seq::new(self.entries@.len(), |i: int| self.entries@[i]@)
    }
}

impl HistoryBuffer {
    /// The fixed capacity the buffer was created with.
    pub closed spec fn cap(&self) -> nat {
        self.capacity as nat
    }

    /// The buffer never holds more entries than its capacity.
    pub open spec fn wf(&self) -> bool {
        self@.len() <= self.cap()
    }

    pub fn new(capacity: usize) -> (r: HistoryBuffer)
        ensures
            r@ =~= Seq::<Seq<u8>>::empty(),
            r.cap() == capacity,
            r.wf(),
    {
        HistoryBuffer { entries: std::collections::VecDeque::new(), capacity }
    }

    pub fn len(&self) -> (n: usize)
        ensures
            n == self@.len(),
    {
        self.entries.len()
    }

    pub fn capacity(&self) -> (n: usize)
        ensures
            n == self.cap(),
    {
        self.capacity
    }

    /// Append one snapshot, evicting the oldest entry once at capacity.
    pub fn push(&mut self, blob: Vec<u8>)
        requires
            old(self).wf(),
        ensures
            final(self)@ =~= spec_push(old(self)@, old(self).cap(), blob@),
            final(self).cap() == old(self).cap(),
            final(self).wf(),
    {
        self.entries.push_back(blob);
        if self.entries.len() > self.capacity {
            self.entries.pop_front();
        }
    }

    /// A copy of every buffered snapshot, in chronological order; the buffer
    /// itself is untouched, so a failed dump loses nothing.
    pub fn drain_copy(&self) -> (r: Vec<Vec<u8>>)
        ensures
            r@.len() == self@.len(),
            forall|i: int| 0 <= i < r@.len() ==> r@[i]@ == self@[i],
    {
        let mut out: Vec<Vec<u8>> = Vec::new();
        let n = self.entries.len();
        for i in 0..n
            invariant
                n == self.entries@.len(),
                out@.len() == i,
                forall|k: int| 0 <= k < i ==> out@[k]@ == self@[k],
        {
            let blob = copy_bytes(&self.entries[i]);
            out.push(blob);
        }
        out
    }

    /// Drop every entry; the capacity is kept.
    pub fn clear(&mut self)
        ensures
            final(self)@ =~= Seq::<Seq<u8>>::empty(),
            final(self).cap() == old(self).cap(),
            final(self).wf(),
    {
        self.entries.clear();
    }

    /// All buffered snapshots concatenated in chronological order: the exact
    /// byte content of a dump file.  A pure function of the buffer contents,
    /// so dumping an unchanged buffer twice gives identical bytes.
    pub fn dump_bytes(&self) -> (r: Vec<u8>)
        ensures
            r@ =~= self@.flatten(),
    {
        let mut out: Vec<u8> = Vec::new();
        let n = self.entries.len();
        for i in 0..n
            invariant
                n == self.entries@.len(),
                out@ =~= self@.subrange(0, i as int).flatten(),
        {
            append_bytes(&mut out, &self.entries[i]);
            proof {
                self@.subrange(0, i as int).lemma_flatten_push(self@[i as int]);
                assert(self@.subrange(0, i as int).push(self@[i as int]) =~= self@.subrange(
                    0,
                    i + 1,
                ));
            }
        }
        proof {
            assert(self@.subrange(0, n as int) =~= self@);
        }
        out
    }
}

/// A byte-for-byte copy of a blob.
fn copy_bytes(v: &Vec<u8>) -> (r: Vec<u8>)
    ensures
        r@ =~= v@,
{
    let mut out: Vec<u8> = Vec::new();
    let n = v.len();
    for i in 0..n
        invariant
            n == v@.len(),
            out@ =~= v@.subrange(0, i as int),
    {
        out.push(v[i]);
    }
    proof {
        assert(v@.subrange(0, n as int) =~= v@);
    }
    out
}

/// Append the bytes of `src` to `dst`.
fn append_bytes(dst: &mut Vec<u8>, src: &Vec<u8>)
    ensures
        final(dst)@ =~= old(dst)@ + src@,
{
    let n = src.len();
    for i in 0..n
        invariant
            n == src@.len(),
            dst@ =~= old(dst)@ + src@.subrange(0, i as int),
    {
        dst.push(src[i]);
    }
    proof {
        assert(src@.subrange(0, n as int) =~= src@);
    }
}

/// A history buffer never holds more than its capacity, after any sequence
/// of pushes into any state that already respects the bound.
pub proof fn lemma_pushes_bounded(s: Seq<Seq<u8>>, cap: nat, blobs: Seq<Seq<u8>>)
    requires
        s.len() <= cap,
    ensures
        spec_push_all(s, cap, blobs).len() <= cap,
    decreases blobs.len(),
{
    if blobs.len() > 0 {
        lemma_pushes_bounded(spec_push(s, cap, blobs.first()), cap, blobs.drop_first());
    }
}

/// Dump output depends on the buffer contents alone: two buffers with equal
/// contents dump the same bytes, so an unchanged buffer dumps identical
/// bytes twice.
pub proof fn lemma_dump_deterministic(a: &HistoryBuffer, b: &HistoryBuffer)
    requires
        a@ == b@,
    ensures
        a@.flatten() == b@.flatten(),
{
}

} // verus!
