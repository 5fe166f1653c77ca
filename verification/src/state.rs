//! The mathematical model of a bip buffer: the backing storage as a sequence,
//! the read, write and watermark positions, the size of the region that the
//! writer has prepared, and whether the reader and writer handles were handed
//! out. Every operation of the executable buffer is described as a function
//! from one such state to the next.
use vstd::prelude::*;

verus! {

/// The larger of two integers.
pub open spec fn max_of(a: int, b: int) -> int {
    if a >= b {
        a
    } else {
        b
    }
}

/// The abstract state of a `BipBuffer`.
///
/// Committed, unconsumed data lives in `[read, write)` when `write >= read`;
/// otherwise it lives in `[read, watermark)` followed by `[0, write)`.
pub struct BipState<T> {
    pub storage: Seq<T>,
    pub read: int,
    pub write: int,
    pub watermark: int,
    pub prepared: int,
    pub rw_taken: bool,
}

impl<T> BipState<T> {
    /// The state of a buffer freshly built over `storage`.
    pub open spec fn fresh(storage: Seq<T>) -> Self {
        BipState { storage, read: 0, write: 0, watermark: 0, prepared: 0, rw_taken: false }
    }

    pub open spec fn capacity(self) -> int {
        self.storage.len() as int
    }

    /// The prepared region sits at the start of the storage, and the write
    /// position jumps there on the next commit.
    pub open spec fn prepared_wraps(self) -> bool {
        &&& self.write >= self.read
        &&& self.watermark == self.write
        &&& self.prepared > 0
    }

    /// Where the prepared region starts in the storage.
    pub open spec fn prepared_start(self) -> int {
        if self.prepared_wraps() {
            0
        } else {
            self.write
        }
    }

    /// Well-formedness: positions lie inside the storage, and the prepared
    /// region never overlaps the committed, unconsumed data.
    pub open spec fn wf(self) -> bool {
        let cap = self.capacity();
        &&& 0 <= self.read <= cap
        &&& 0 <= self.write <= cap
        &&& 0 <= self.watermark <= cap
        &&& 0 <= self.prepared
        &&& if self.write >= self.read {
            if self.prepared_wraps() {
                self.prepared < self.read
            } else {
                &&& self.write + self.prepared <= cap
                &&& self.prepared > 0 ==> self.write + self.prepared <= self.watermark
            }
        } else {
            &&& self.read <= self.watermark
            &&& self.write + self.prepared < self.read
        }
    }

    /// The committed data that has not been consumed yet, in reading order.
    pub open spec fn readable(self) -> Seq<T> {
        if self.write >= self.read {
            self.storage.subrange(self.read, self.write)
        } else {
            self.storage.subrange(self.read, self.watermark) + self.storage.subrange(0, self.write)
        }
    }

    /// The contiguous part of the readable data that a reader is handed at once.
    pub open spec fn first_chunk(self) -> Seq<T> {
        if self.write >= self.read {
            self.storage.subrange(self.read, self.write)
        } else if self.watermark > self.read {
            self.storage.subrange(self.read, self.watermark)
        } else {
            self.storage.subrange(0, self.write)
        }
    }

    /// The contents of the prepared region.
    pub open spec fn prepared_data(self) -> Seq<T> {
        self.storage.subrange(self.prepared_start(), self.prepared_start() + self.prepared)
    }

    /// The largest number of elements that can be prepared as one contiguous region.
    pub open spec fn max_room(self) -> int {
        if self.write >= self.read {
            max_of(self.capacity() - self.write, if self.read >= 1 { self.read - 1 } else { 0 })
        } else {
            self.read - 1 - self.write
        }
    }

    /// The size of the region that directly follows the write position; when the
    /// write position is at the end of the storage, the region before the read position.
    pub open spec fn trailing_room(self) -> int {
        if self.write >= self.read {
            if self.capacity() - self.write > 0 {
                self.capacity() - self.write
            } else if self.read >= 2 {
                self.read - 1
            } else {
                0
            }
        } else {
            self.read - 1 - self.write
        }
    }

    /// The state after `amount` elements were prepared: behind the write position
    /// when they fit before the end of the storage, else at the start of the storage.
    pub open spec fn reserve(self, amount: int) -> Self {
        let watermark = if self.write >= self.read {
            if self.capacity() - self.write >= amount {
                self.write + amount
            } else {
                self.write
            }
        } else {
            self.watermark
        };
        BipState { prepared: amount, watermark, ..self }
    }

    /// The state whose prepared region holds `data` in place of its old contents.
    pub open spec fn with_prepared_data(self, data: Seq<T>) -> Self {
        let start = self.prepared_start();
        BipState {
            storage: self.storage.subrange(0, start) + data + self.storage.subrange(
                start + self.prepared,
                self.capacity(),
            ),
            ..self
        }
    }

    /// The state after the first `amount` prepared elements were committed.
    pub open spec fn after_commit(self, amount: int) -> Self {
        if amount == 0 {
            self
        } else {
            BipState {
                prepared: self.prepared - amount,
                write: if self.prepared_wraps() {
                    amount
                } else {
                    self.write + amount
                },
                ..self
            }
        }
    }

    /// The state after the first `amount` readable elements were consumed.
    pub open spec fn after_consume(self, amount: int) -> Self {
        BipState {
            read: if self.write >= self.read {
                self.read + amount
            } else {
                (self.read + amount) % self.watermark
            },
            ..self
        }
    }

    /// The state after the reader and writer handles were handed out.
    pub open spec fn taken(self) -> Self {
        BipState { rw_taken: true, ..self }
    }
}

} // verus!
