//! Grouping a stream of lines into batches of a fixed size.
use vstd::prelude::*;

verus! {

/// All the items of `batches`, batch after batch.
pub open spec fn concat_all<T>(batches: Seq<Seq<T>>) -> Seq<T>
    decreases batches.len(),
{
    if batches.len() == 0 {
        Seq::empty()
    } else {
        concat_all(batches.drop_last()) + batches.last()
    }
}

/// One item arrives: the batch that becomes ready, if one does, and what
/// stays buffered.
pub open spec fn push_step<T>(size: nat, pending: Seq<T>, item: T) -> (Option<Seq<T>>, Seq<T>) {
    if pending.len() + 1 >= size {
        (Some(pending.push(item)), Seq::empty())
    } else {
        (None, pending.push(item))
    }
}

/// The end of the stream: what is buffered becomes the last batch, unless
/// nothing is.
pub open spec fn finish_step<T>(pending: Seq<T>) -> Option<Seq<T>> {
    if pending.len() > 0 {
        Some(pending)
    } else {
        None
    }
}

/// The batches that became ready while `stream` arrived item by item, and
/// what is still buffered.
pub open spec fn fed<T>(size: nat, stream: Seq<T>) -> (Seq<Seq<T>>, Seq<T>)
    decreases stream.len(),
{
    if stream.len() == 0 {
        (Seq::empty(), Seq::empty())
    } else {
        let (ready, pending) = fed(size, stream.drop_last());
        match push_step(size, pending, stream.last()) {
            (Some(batch), rest) => (ready.push(batch), rest),
            (None, rest) => (ready, rest),
        }
    }
}

/// Every batch of a stream that has ended.
pub open spec fn batches_of<T>(size: nat, stream: Seq<T>) -> Seq<Seq<T>> {
    let (ready, pending) = fed(size, stream);
    match finish_step(pending) {
        Some(last) => ready.push(last),
        None => ready,
    }
}

/// Buffers items and hands them out in batches of `size`.
pub struct Chunker<T> {
    size: usize,
    buffer: Vec<T>,
}

impl<T> Chunker<T> {
    /// The configured batch size.
    pub closed spec fn size(&self) -> nat {
        self.size as nat
    }

    /// The items that wait for their batch to fill, oldest first.
    pub closed spec fn pending(&self) -> Seq<T> {
        self.buffer@
    }

    /// What holds of every chunker: the batch size is at least one, and a
    /// full batch never waits.
    pub open spec fn wf(&self) -> bool {
        1 <= self.size() && self.pending().len() < self.size()
    }

    #[verifier::type_invariant]
    spec fn inv(&self) -> bool {
        1 <= self.size && self.buffer@.len() < self.size
    }

    /// An empty chunker for batches of `size`; none for size zero.
    pub fn new(size: usize) -> (r: Option<Chunker<T>>)
        ensures
            size == 0 <==> r is None,
            r matches Some(c) ==> c.wf() && c.size() == size && c.pending() == Seq::<T>::empty(),
    {
        if size == 0 {
            None
        } else {
            Some(Chunker { size, buffer: Vec::new() })
        }
    }

    /// The configured batch size.
    pub fn chunk_size(&self) -> (r: usize)
        ensures
            r == self.size(),
    {
        self.size
    }

    /// The number of items that wait.
    pub fn pending_len(&self) -> (r: usize)
        ensures
            r == self.pending().len(),
    {
        self.buffer.len()
    }

    /// Takes one item. Hands out a batch as soon as `size` items wait.
    pub fn push(&mut self, item: T) -> (r: Option<Vec<T>>)
        ensures
            old(self).wf(),
            final(self).wf(),
            final(self).size() == old(self).size(),
            final(self).pending() == push_step(old(self).size(), old(self).pending(), item).1,
            match r {
                Some(batch) => push_step(old(self).size(), old(self).pending(), item).0 == Some(
                    batch@,
                ),
                None => push_step(old(self).size(), old(self).pending(), item).0 is None,
            },
    {
        proof {
            use_type_invariant(&*self);
        }
        let mut taken = Chunker { size: self.size, buffer: Vec::new() };
        std::mem::swap(self, &mut taken);
        let Chunker { size, buffer } = taken;
        let mut buffer = buffer;
        buffer.push(item);
        if buffer.len() >= size {
            Some(buffer)
        } else {
            *self = Chunker { size, buffer };
            None
        }
    }

    /// Ends the stream: hands out what waits, if anything does.
    pub fn finish(self) -> (r: Option<Vec<T>>)
        ensures
            self.wf(),
            match r {
                Some(batch) => finish_step(self.pending()) == Some(batch@),
                None => finish_step(self.pending()) is None,
            },
    {
        proof {
            use_type_invariant(&self);
        }
        if self.buffer.len() > 0 {
            Some(self.buffer)
        } else {
            None
        }
    }
}

/// While a stream arrives, the batches handed out are all full, fewer than
/// `size` items wait, and both together are the stream so far, in order.
pub proof fn lemma_fed_partitions<T>(size: nat, stream: Seq<T>)
    requires
        size >= 1,
    ensures
        concat_all(fed(size, stream).0) + fed(size, stream).1 == stream,
        fed(size, stream).1.len() < size,
        forall|i: int|
            0 <= i < fed(size, stream).0.len() ==> (#[trigger] fed(size, stream).0[i]).len()
                == size,
    decreases stream.len(),
{
    if stream.len() == 0 {
        assert(concat_all(Seq::<Seq<T>>::empty()) + Seq::<T>::empty() =~= stream);
    } else {
        let shorter = stream.drop_last();
        lemma_fed_partitions(size, shorter);
        let (ready, pending) = fed(size, shorter);
        let grown = pending.push(stream.last());
        assert(shorter.push(stream.last()) =~= stream);
        if pending.len() + 1 >= size {
            let all = ready.push(grown);
            assert(all.drop_last() =~= ready);
            assert(concat_all(all) + Seq::<T>::empty() =~= (concat_all(ready) + pending).push(
                stream.last(),
            ));
        } else {
            assert(concat_all(ready) + grown =~= (concat_all(ready) + pending).push(
                stream.last(),
            ));
        }
    }
}

/// Batching partitions a stream: the batches, one after the other, are the
/// stream; every batch but the last holds exactly `size` items; the last
/// holds between one and `size`.
pub proof fn lemma_batches_partition<T>(size: nat, stream: Seq<T>)
    requires
        size >= 1,
    ensures
        concat_all(batches_of(size, stream)) == stream,
        forall|i: int|
            0 <= i < batches_of(size, stream).len() - 1 ==> (#[trigger] batches_of(
                size,
                stream,
            )[i]).len() == size,
        forall|i: int|
            0 <= i < batches_of(size, stream).len() ==> 1 <= (#[trigger] batches_of(
                size,
                stream,
            )[i]).len() <= size,
{
    lemma_fed_partitions(size, stream);
    let (ready, pending) = fed(size, stream);
    if pending.len() > 0 {
        let all = ready.push(pending);
        assert(all.drop_last() =~= ready);
    } else {
        assert(concat_all(ready) + pending =~= concat_all(ready));
    }
}

} // verus!
