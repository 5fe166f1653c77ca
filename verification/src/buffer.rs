//! The bip buffer over borrowed storage, and its reader and writer handles.
//!
//! The buffer keeps all shared state; the reader and writer handles are
//! capabilities that are handed out once, and their methods take the buffer
//! they act on.
use crate::error::{CommitError, PrepareError};
use crate::state::BipState;
use vstd::arithmetic::div_mod::{lemma_fundamental_div_mod_converse, lemma_small_mod};
use vstd::prelude::*;

verus! {

/// A bip buffer with external storage.
///
/// The buffer only hands out a reader and a writer handle, which provide the
/// actual access. Committed data is read in the order in which it was committed.
pub struct BipBuffer<'a, T> {
    buffer: &'a mut [T],
    watermark: usize,
    read: usize,
    write: usize,
    prepared: usize,
    rw_taken: bool,
}

impl<'a, T> View for BipBuffer<'a, T> {
    type V = BipState<T>;

    closed spec fn view(&self) -> BipState<T> {
        BipState {
            storage: self.buffer@,
            read: self.read as int,
            write: self.write as int,
            watermark: self.watermark as int,
            prepared: self.prepared as int,
            rw_taken: self.rw_taken,
        }
    }
}

/// The reader handle of a `BipBuffer`.
///
/// Values are read and consumed, which makes their part of the buffer
/// available for writing again. Unconsumed values stay available to later
/// calls of `values()`.
pub struct BipBufferReader<'a, T> {
    marker: std::marker::PhantomData<&'a [T]>,
}

/// The writer handle of a `BipBuffer`.
///
/// A write is done in two steps: a region of the buffer is prepared and filled,
/// then (a prefix of) it is committed, which makes it available for reading.
pub struct BipBufferWriter<'a, T> {
    marker: std::marker::PhantomData<&'a [T]>,
}

impl<'a, T> BipBuffer<'a, T> {
    /// The number of elements of the storage.
    pub fn capacity(&self) -> (n: usize)
        ensures
            n == self@.capacity(),
    {
        self.buffer.len()
    }

    /// The elements of the storage in `[start, end)`.
    fn slice<'b>(&'b self, start: usize, end: usize) -> (r: &'b [T])
        requires
            start <= end <= self@.capacity(),
        ensures
            r@ == self@.storage.subrange(start as int, end as int),
    {
        let whole: &'b [T] = &*self.buffer;
        let (head, _) = whole.split_at(end);
        let (_, mid) = head.split_at(start);
        mid
    }

    /// The elements of the storage in `[start, start + len)`, to be written through.
    fn region_mut<'b>(&'b mut self, start: usize, len: usize) -> (r: &'b mut [T])
        requires
            start + len <= old(self)@.capacity(),
        ensures
            r@ == old(self)@.storage.subrange(start as int, start + len),
            final(self)@.storage == old(self)@.storage.subrange(0, start as int) + final(r)@
                + old(self)@.storage.subrange(start + len, old(self)@.capacity()),
            final(self)@ == (BipState { storage: final(self)@.storage, ..old(self)@ }),
    {
        let whole: &'b mut [T] = &mut *self.buffer;
        let (_, tail) = whole.split_at_mut(start);
        let (mid, _) = tail.split_at_mut(len);
        mid
    }
}

impl<'a, T: Clone> BipBuffer<'a, T> {
    /// Builds a bip buffer over `buffer`, with nothing prepared and nothing to read.
    pub fn new(buffer: &'a mut [T]) -> (b: Self)
        ensures
            b@ == BipState::fresh(old(buffer)@),
            b@.wf(),
    {
        BipBuffer { buffer, watermark: 0, read: 0, write: 0, prepared: 0, rw_taken: false }
    }

    /// Hands out the reader and the writer handle; only the first call does.
    pub fn take_reader_writer(&mut self) -> (r: Option<(BipBufferReader<'a, T>, BipBufferWriter<'a, T>)>)
        ensures
            r is Some <==> !old(self)@.rw_taken,
            final(self)@ == old(self)@.taken(),
            old(self)@.wf() ==> final(self)@.wf(),
    {
        if self.rw_taken {
            return None;
        }
        self.rw_taken = true;
        Some(
            (
                BipBufferReader { marker: std::marker::PhantomData },
                BipBufferWriter { marker: std::marker::PhantomData },
            ),
        )
    }
}

impl<'a, T> BipBufferWriter<'a, T> {
    /// The total capacity of the buffer; depending on where the read position
    /// is, only parts of it are available for writing.
    pub fn capacity(&self, buffer: &BipBuffer<'a, T>) -> (n: usize)
        ensures
            n == buffer@.capacity(),
    {
        buffer.capacity()
    }
}

impl<'a, T: Clone> BipBufferWriter<'a, T> {
    /// Prepares `amount` elements for writing and hands them out.
    ///
    /// The region lies behind the write position when it fits before the end of
    /// the storage, else at the start of the storage, before the read position.
    pub fn prepare<'b>(&mut self, buffer: &'b mut BipBuffer<'a, T>, amount: usize) -> (r: Result<
        &'b mut [T],
        PrepareError,
    >)
        requires
            old(buffer)@.wf(),
        ensures
            match r {
                Ok(slice) => {
                    // A slice keeps its length; vstd does not state that of `&mut [T]`,
                    // so well-formedness afterwards is stated under that condition.
                    &&& final(slice)@.len() == amount ==> final(buffer)@.wf()
                    &&& old(buffer)@.prepared == 0
                    &&& amount <= old(buffer)@.max_room()
                    &&& slice@.len() == amount
                    &&& slice@ == old(buffer)@.reserve(amount as int).prepared_data()
                    &&& final(buffer)@ == old(buffer)@.reserve(amount as int).with_prepared_data(
                        final(slice)@,
                    )
                },
                Err(PrepareError::UncommitedData { amount: pending }) => {
                    &&& old(buffer)@.prepared > 0
                    &&& pending == old(buffer)@.prepared
                    &&& final(buffer)@ == old(buffer)@
                    &&& final(buffer)@.wf()
                },
                Err(PrepareError::NoRoom { max_available }) => {
                    &&& old(buffer)@.prepared == 0
                    &&& amount > old(buffer)@.max_room()
                    &&& max_available == old(buffer)@.max_room()
                    &&& final(buffer)@ == old(buffer)@
                    &&& final(buffer)@.wf()
                },
            },
    {
        if buffer.prepared > 0 {
            return Err(PrepareError::UncommitedData { amount: buffer.prepared });
        }
        let len = buffer.buffer.len();
        let write = buffer.write;
        let read = buffer.read;
        if write >= read {
            let amount_available_to_end = len - write;
            if amount_available_to_end >= amount {
                buffer.prepared = amount;
                buffer.watermark = write + amount;
                return Ok(buffer.region_mut(write, amount));
            } else if read > amount {
                buffer.watermark = write;
                buffer.prepared = amount;
                return Ok(buffer.region_mut(0, amount));
            }
            return Err(
                PrepareError::NoRoom {
                    max_available: amount_available_to_end.max(read.saturating_sub(1)),
                },
            );
        } else {
            let available = (read - 1).saturating_sub(write);
            if available < amount {
                return Err(PrepareError::NoRoom { max_available: available });
            }
            buffer.prepared = amount;
            return Ok(buffer.region_mut(write, amount));
        }
    }

    /// Prepares the region that directly follows the write position and hands it out.
    ///
    /// With the write position behind the read position that is `[write, len)`;
    /// with it before the read position, `[write, read - 1)`. With the write
    /// position at the end of the storage and `read >= 2` it is `[0, read - 1)`.
    pub fn prepare_trailing<'b>(&mut self, buffer: &'b mut BipBuffer<'a, T>) -> (r: Result<
        &'b mut [T],
        PrepareError,
    >)
        requires
            old(buffer)@.wf(),
        ensures
            match r {
                Ok(slice) => {
                    &&& final(slice)@.len() == old(buffer)@.trailing_room() ==> final(buffer)@.wf()
                    &&& old(buffer)@.prepared == 0
                    &&& old(buffer)@.trailing_room() > 0
                    &&& slice@.len() == old(buffer)@.trailing_room()
                    &&& slice@ == old(buffer)@.reserve(old(buffer)@.trailing_room()).prepared_data()
                    &&& final(buffer)@ == old(buffer)@.reserve(
                        old(buffer)@.trailing_room(),
                    ).with_prepared_data(final(slice)@)
                },
                Err(PrepareError::UncommitedData { amount: pending }) => {
                    &&& old(buffer)@.prepared > 0
                    &&& pending == old(buffer)@.prepared
                    &&& final(buffer)@ == old(buffer)@
                    &&& final(buffer)@.wf()
                },
                Err(PrepareError::NoRoom { max_available }) => {
                    &&& old(buffer)@.prepared == 0
                    &&& old(buffer)@.trailing_room() == 0
                    &&& max_available == 0
                    &&& final(buffer)@ == old(buffer)@
                    &&& final(buffer)@.wf()
                },
            },
    {
        if buffer.prepared > 0 {
            return Err(PrepareError::UncommitedData { amount: buffer.prepared });
        }
        let len = buffer.buffer.len();
        let write = buffer.write;
        let read = buffer.read;
        if write >= read {
            let amount = len - write;
            if amount == 0 {
                if read >= 2 {
                    buffer.watermark = len;
                    buffer.prepared = read - 1;
                    return Ok(buffer.region_mut(0, read - 1));
                }
                return Err(PrepareError::NoRoom { max_available: 0 });
            }
            buffer.prepared = amount;
            buffer.watermark = len;
            return Ok(buffer.region_mut(write, amount));
        } else {
            let available = (read - 1).saturating_sub(write);
            if available == 0 {
                return Err(PrepareError::NoRoom { max_available: 0 });
            }
            buffer.prepared = available;
            return Ok(buffer.region_mut(write, available));
        }
    }

    /// Prepares the largest contiguous free region and hands it out.
    ///
    /// Depending on the state of the buffer it lies at `[write, len)`,
    /// `[0, read - 1)` or `[write, read - 1)`.
    pub fn prepare_max<'b>(&mut self, buffer: &'b mut BipBuffer<'a, T>) -> (r: Result<
        &'b mut [T],
        PrepareError,
    >)
        requires
            old(buffer)@.wf(),
        ensures
            match r {
                Ok(slice) => {
                    &&& final(slice)@.len() == old(buffer)@.max_room() ==> final(buffer)@.wf()
                    &&& old(buffer)@.prepared == 0
                    &&& old(buffer)@.max_room() > 0
                    &&& slice@.len() == old(buffer)@.max_room()
                    &&& slice@ == old(buffer)@.reserve(old(buffer)@.max_room()).prepared_data()
                    &&& final(buffer)@ == old(buffer)@.reserve(
                        old(buffer)@.max_room(),
                    ).with_prepared_data(final(slice)@)
                },
                Err(PrepareError::UncommitedData { amount: pending }) => {
                    &&& old(buffer)@.prepared > 0
                    &&& pending == old(buffer)@.prepared
                    &&& final(buffer)@ == old(buffer)@
                    &&& final(buffer)@.wf()
                },
                Err(PrepareError::NoRoom { max_available }) => {
                    &&& old(buffer)@.prepared == 0
                    &&& old(buffer)@.max_room() == 0
                    &&& max_available == 0
                    &&& final(buffer)@ == old(buffer)@
                    &&& final(buffer)@.wf()
                },
            },
    {
        if buffer.prepared > 0 {
            return Err(PrepareError::UncommitedData { amount: buffer.prepared });
        }
        let len = buffer.buffer.len();
        let write = buffer.write;
        let read = buffer.read;
        if write >= read {
            let available_before_read = read.saturating_sub(1);
            let available_before_len = len - write;
            if available_before_len >= available_before_read {
                if available_before_len > 0 {
                    buffer.watermark = len;
                    buffer.prepared = available_before_len;
                    return Ok(buffer.region_mut(write, available_before_len));
                }
                return Err(PrepareError::NoRoom { max_available: 0 });
            } else {
                buffer.watermark = write;
                buffer.prepared = available_before_read;
                return Ok(buffer.region_mut(0, available_before_read));
            }
        } else {
            let available = (read - 1).saturating_sub(write);
            if available >= 1 {
                buffer.prepared = available;
                return Ok(buffer.region_mut(write, available));
            }
        }
        return Err(PrepareError::NoRoom { max_available: 0 });
    }

    /// Commits the first `amount` prepared elements, which makes them available
    /// for reading, and returns the number of elements that stay prepared.
    pub fn commit(&mut self, buffer: &mut BipBuffer<'a, T>, amount: usize) -> (r: Result<
        usize,
        CommitError,
    >)
        requires
            old(buffer)@.wf(),
        ensures
            final(buffer)@.wf(),
            match r {
                Ok(remaining) => {
                    &&& amount <= old(buffer)@.prepared
                    &&& remaining == old(buffer)@.prepared - amount
                    &&& final(buffer)@ == old(buffer)@.after_commit(amount as int)
                },
                Err(CommitError::NotEnoughPrepared { prepared }) => {
                    &&& amount > old(buffer)@.prepared
                    &&& prepared == old(buffer)@.prepared
                    &&& final(buffer)@ == old(buffer)@
                },
            },
    {
        if buffer.prepared < amount {
            return Err(CommitError::NotEnoughPrepared { prepared: buffer.prepared });
        }
        if amount == 0 {
            return Ok(buffer.prepared);
        }
        let write = buffer.write;
        let read = buffer.read;
        buffer.prepared = buffer.prepared - amount;
        let new_write = if write >= read {
            if buffer.watermark == write {
                amount
            } else {
                write + amount
            }
        } else {
            write + amount
        };
        buffer.write = new_write;
        Ok(buffer.prepared)
    }
}

impl<'a, T: Clone> BipBufferReader<'a, T> {
    /// The first contiguous part of the committed, unconsumed data.
    ///
    /// When the data wraps around the end of the storage, only the part up to
    /// the watermark is returned; consuming it makes the rest visible.
    pub fn values<'b>(&self, buffer: &'b BipBuffer<'a, T>) -> (r: &'b [T])
        requires
            buffer@.wf(),
        ensures
            r@ == buffer@.first_chunk(),
    {
        let write = buffer.write;
        let read = buffer.read;
        if write >= read {
            buffer.slice(read, write)
        } else {
            let watermark = buffer.watermark;
            if watermark > read {
                buffer.slice(read, watermark)
            } else {
                buffer.slice(0, write)
            }
        }
    }

    /// Consumes the first `amount` readable elements, which frees their space
    /// for writing. Fails with the number of readable elements when fewer than
    /// `amount` are readable.
    pub fn consume(&mut self, buffer: &mut BipBuffer<'a, T>, amount: usize) -> (r: Result<
        (),
        usize,
    >)
        requires
            old(buffer)@.wf(),
        ensures
            final(buffer)@.wf(),
            match r {
                Ok(()) => {
                    &&& amount <= old(buffer)@.readable().len()
                    &&& final(buffer)@ == old(buffer)@.after_consume(amount as int)
                },
                Err(available) => {
                    &&& amount > old(buffer)@.readable().len()
                    &&& available == old(buffer)@.readable().len()
                    &&& final(buffer)@ == old(buffer)@
                },
            },
    {
        let write = buffer.write;
        let read = buffer.read;
        if write >= read {
            if amount > write - read {
                return Err(write - read);
            }
            buffer.read = read + amount;
            Ok(())
        } else {
            let watermark = buffer.watermark;
            let available_for_consumption = watermark - read + write;
            if amount > available_for_consumption {
                return Err(available_for_consumption);
            }
            // The new read position is (read + amount) % watermark, computed
            // without forming read + amount.
            let to_watermark = watermark - read;
            let new_read = if amount >= to_watermark {
                amount - to_watermark
            } else {
                read + amount
            };
            proof {
                let x = read + amount;
                if amount >= to_watermark {
                    lemma_fundamental_div_mod_converse(x, watermark as int, 1, x - watermark);
                } else {
                    lemma_small_mod(x as nat, watermark as nat);
                }
            }
            buffer.read = new_read;
            Ok(())
        }
    }
}

} // verus!
