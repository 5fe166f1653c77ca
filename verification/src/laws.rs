//! Properties of the bip buffer model that hold across operations.
use crate::state::BipState;
use vstd::arithmetic::div_mod::{lemma_fundamental_div_mod_converse, lemma_small_mod};
use vstd::prelude::*;

verus! {

/// Committing `amount` prepared elements appends exactly the first `amount`
/// elements of the prepared region to the readable data; the rest of the
/// region stays prepared, and the buffer stays well formed.
pub proof fn lemma_commit_appends<T>(s: BipState<T>, amount: int)
    requires
        s.wf(),
        0 <= amount <= s.prepared,
    ensures
        s.after_commit(amount).wf(),
        s.after_commit(amount).storage == s.storage,
        s.after_commit(amount).readable() == s.readable() + s.prepared_data().subrange(0, amount),
        s.after_commit(amount).prepared_data() == s.prepared_data().subrange(amount, s.prepared),
{
    let t = s.after_commit(amount);
    if amount == 0 {
        assert(s.readable() + s.prepared_data().subrange(0, 0) =~= s.readable());
        assert(s.prepared_data().subrange(0, s.prepared) =~= s.prepared_data());
    } else if s.prepared_wraps() {
        assert(t.readable() =~= s.readable() + s.prepared_data().subrange(0, amount));
        assert(t.prepared_data() =~= s.prepared_data().subrange(amount, s.prepared));
    } else if s.write >= s.read {
        assert(t.readable() =~= s.readable() + s.prepared_data().subrange(0, amount));
        assert(t.prepared_data() =~= s.prepared_data().subrange(amount, s.prepared));
    } else {
        assert(t.readable() =~= s.readable() + s.prepared_data().subrange(0, amount));
        assert(t.prepared_data() =~= s.prepared_data().subrange(amount, s.prepared));
    }
}

/// Consuming `amount` readable elements removes exactly the first `amount`
/// of them; the prepared region is untouched, and the buffer stays well formed.
pub proof fn lemma_consume_removes<T>(s: BipState<T>, amount: int)
    requires
        s.wf(),
        0 <= amount <= s.readable().len(),
    ensures
        s.after_consume(amount).wf(),
        s.after_consume(amount).storage == s.storage,
        s.after_consume(amount).readable() == s.readable().subrange(amount, s.readable().len() as int),
        s.after_consume(amount).prepared == s.prepared,
        s.after_consume(amount).prepared_data() == s.prepared_data(),
{
    let t = s.after_consume(amount);
    if s.write >= s.read {
        assert(t.readable() =~= s.readable().subrange(amount, s.readable().len() as int));
    } else {
        let m = s.watermark;
        let x = s.read + amount;
        if x < m {
            lemma_small_mod(x as nat, m as nat);
        } else {
            lemma_fundamental_div_mod_converse(x, m, 1, x - m);
        }
        assert(t.readable() =~= s.readable().subrange(amount, s.readable().len() as int));
    }
}

/// What a reader is handed at once is a prefix of the readable data, and it is
/// empty only when nothing is readable.
pub proof fn lemma_first_chunk_is_prefix<T>(s: BipState<T>)
    requires
        s.wf(),
    ensures
        s.first_chunk().len() <= s.readable().len(),
        s.first_chunk() == s.readable().subrange(0, s.first_chunk().len() as int),
        s.readable().len() > 0 ==> s.first_chunk().len() > 0,
{
    if s.write < s.read && s.watermark <= s.read {
        assert(s.storage.subrange(s.read, s.watermark).len() == 0);
        assert(s.readable() =~= s.storage.subrange(0, s.write));
    }
    assert(s.first_chunk() =~= s.readable().subrange(0, s.first_chunk().len() as int));
}

/// Committed data and prepared data together never exceed the capacity; with
/// nothing prepared, the readable data and the largest free region do not either.
pub proof fn lemma_room_bound<T>(s: BipState<T>)
    requires
        s.wf(),
    ensures
        s.readable().len() + s.prepared <= s.capacity(),
        s.prepared == 0 ==> s.readable().len() + s.max_room() <= s.capacity(),
{
}

/// A prepared region of `data.len()` elements, filled with `data`, leaves the
/// readable data as it was and holds exactly `data`.
pub proof fn lemma_prepared_region_is_separate<T>(s: BipState<T>, data: Seq<T>)
    requires
        s.wf(),
        s.prepared == 0,
        data.len() <= s.max_room(),
    ensures
        s.reserve(data.len() as int).wf(),
        s.reserve(data.len() as int).prepared_data().len() == data.len(),
        s.reserve(data.len() as int).with_prepared_data(data).wf(),
        s.reserve(data.len() as int).with_prepared_data(data).readable() == s.readable(),
        s.reserve(data.len() as int).with_prepared_data(data).prepared_data() == data,
        s.reserve(data.len() as int).with_prepared_data(data).prepared == data.len(),
{
    let n = data.len() as int;
    let r = s.reserve(n);
    let t = r.with_prepared_data(data);
    let start = r.prepared_start();
    assert(t.storage.len() == s.storage.len());
    assert(t.storage.subrange(start, start + n) =~= data);
    if s.write >= s.read {
        assert(t.storage.subrange(s.read, s.write) =~= s.storage.subrange(s.read, s.write));
    } else {
        assert(t.storage.subrange(s.read, s.watermark) =~= s.storage.subrange(s.read, s.watermark));
        assert(t.storage.subrange(0, s.write) =~= s.storage.subrange(0, s.write));
    }
    assert(t.readable() =~= s.readable());
}

/// Data written into a freshly prepared region and then committed is read back
/// after what was already readable, in the order in which it was written.
pub proof fn lemma_write_then_read<T>(s: BipState<T>, data: Seq<T>)
    requires
        s.wf(),
        s.prepared == 0,
        data.len() <= s.max_room(),
    ensures
        s.reserve(data.len() as int).with_prepared_data(data).after_commit(data.len() as int).wf(),
        s.reserve(data.len() as int).with_prepared_data(data).after_commit(
            data.len() as int,
        ).readable() == s.readable() + data,
        s.reserve(data.len() as int).with_prepared_data(data).after_commit(
            data.len() as int,
        ).prepared == 0,
{
    let n = data.len() as int;
    let t = s.reserve(n).with_prepared_data(data);
    lemma_prepared_region_is_separate(s, data);
    lemma_commit_appends(t, n);
    assert(data.subrange(0, n) =~= data);
}

/// The region that follows the write position is never larger than the
/// largest free region, and it is empty exactly when no room is left.
pub proof fn lemma_trailing_within_room<T>(s: BipState<T>)
    requires
        s.wf(),
    ensures
        0 <= s.trailing_room() <= s.max_room(),
        s.trailing_room() == 0 <==> s.max_room() == 0,
{
}

/// A fresh buffer has nothing to read and its whole storage free.
pub proof fn lemma_fresh_is_empty<T>(storage: Seq<T>)
    ensures
        BipState::fresh(storage).wf(),
        BipState::fresh(storage).readable() == Seq::<T>::empty(),
        BipState::fresh(storage).prepared_data() == Seq::<T>::empty(),
        BipState::fresh(storage).max_room() == storage.len(),
{
    assert(BipState::fresh(storage).readable() =~= Seq::<T>::empty());
    assert(BipState::fresh(storage).prepared_data() =~= Seq::<T>::empty());
}

/// The reader and writer are handed out at most once: after the first hand-out
/// the buffer is marked, and a second hand-out changes nothing.
pub proof fn lemma_taken_once<T>(s: BipState<T>)
    requires
        s.wf(),
    ensures
        s.taken().rw_taken,
        s.taken().taken() == s.taken(),
        s.taken().wf(),
        s.taken().readable() == s.readable(),
        s.taken().prepared_data() == s.prepared_data(),
{
}

/// A region of `amount` elements can be prepared without touching unconsumed
/// data, without running past the storage and while keeping the slot before the
/// read position free, exactly when `amount <= max_room()`. So `max_room()` is
/// the largest such region: at least everything from the write position to the
/// end, and, with the write position behind the read position, at least the
/// region before the read position that keeps one slot free.
pub proof fn lemma_max_room_is_largest<T>(s: BipState<T>, amount: int)
    requires
        s.wf(),
        s.prepared == 0,
        amount >= 0,
    ensures
        s.reserve(amount).wf() <==> amount <= s.max_room(),
        s.write >= s.read ==> s.max_room() >= s.capacity() - s.write,
        s.write >= s.read && s.read >= 1 ==> s.max_room() >= s.read - 1,
        s.write < s.read ==> s.max_room() >= s.read - 1 - s.write,
{
}

/// A prepared region follows the write position whenever it fits there before
/// the end of the storage (or before the slot ahead of the read position, when
/// the write position trails it); otherwise it starts at the front of the storage.
pub proof fn lemma_prepare_placement<T>(s: BipState<T>, amount: int)
    requires
        s.wf(),
        s.prepared == 0,
        0 < amount <= s.max_room(),
    ensures
        s.write >= s.read && amount <= s.capacity() - s.write ==> s.reserve(amount).prepared_start()
            == s.write,
        s.write >= s.read && amount > s.capacity() - s.write ==> s.reserve(amount).prepared_start()
            == 0,
        s.write < s.read ==> s.reserve(amount).prepared_start() == s.write,
        s.reserve(amount).prepared_start() + amount <= s.capacity(),
{
}

/// The trailing region runs from the write position to the end of the storage;
/// with the write position at the end, it is the region before the read
/// position that keeps one slot free; with the write position trailing the read
/// position, it runs up to the slot before the read position. It is empty only
/// when none of these has room.
pub proof fn lemma_trailing_region<T>(s: BipState<T>)
    requires
        s.wf(),
        s.prepared == 0,
    ensures
        s.reserve(s.trailing_room()).wf(),
        s.write >= s.read && s.write < s.capacity() ==> {
            &&& s.reserve(s.trailing_room()).prepared_start() == s.write
            &&& s.write + s.trailing_room() == s.capacity()
        },
        s.write >= s.read && s.write == s.capacity() && s.read >= 2 ==> {
            &&& s.reserve(s.trailing_room()).prepared_start() == 0
            &&& s.trailing_room() == s.read - 1
        },
        s.write < s.read ==> {
            &&& s.reserve(s.trailing_room()).prepared_start() == s.write
            &&& s.write + s.trailing_room() == s.read - 1
        },
        s.trailing_room() == 0 <==> if s.write >= s.read {
            s.write == s.capacity() && s.read <= 1
        } else {
            s.write + 1 == s.read
        },
{
}

/// Consuming moves the read position forward by the amount consumed; when the
/// readable data wraps, the read position moves modulo the watermark: it stays
/// below the watermark, and a consume that reaches the watermark brings it back
/// to the start of the storage, which frees everything from the write position
/// to the end.
pub proof fn lemma_consume_position<T>(s: BipState<T>, amount: int)
    requires
        s.wf(),
        0 <= amount <= s.readable().len(),
    ensures
        s.write >= s.read ==> s.after_consume(amount).read == s.read + amount,
        s.write < s.read ==> 0 <= s.after_consume(amount).read < s.watermark,
        s.write < s.read && s.read + amount < s.watermark ==> s.after_consume(amount).read == s.read
            + amount,
        s.write < s.read && s.read + amount >= s.watermark ==> s.after_consume(amount).read == s.read
            + amount - s.watermark,
        s.write < s.read && s.read + amount == s.watermark ==> {
            &&& s.after_consume(amount).read == 0
            &&& s.after_consume(amount).max_room() == s.capacity() - s.write
        },
        s.after_consume(amount).write == s.write,
        s.after_consume(amount).watermark == s.watermark,
{
    if s.write < s.read {
        let m = s.watermark;
        let x = s.read + amount;
        if x < m {
            lemma_small_mod(x as nat, m as nat);
        } else {
            lemma_fundamental_div_mod_converse(x, m, 1, x - m);
        }
    }
}

/// The reader is handed all readable data at once unless it wraps around the
/// end of the storage; then it is handed everything from the read position up
/// to the watermark, and the rest follows from the start of the storage.
pub proof fn lemma_first_chunk_extent<T>(s: BipState<T>)
    requires
        s.wf(),
    ensures
        s.write >= s.read ==> s.first_chunk() == s.readable(),
        s.write < s.read && s.watermark > s.read ==> {
            &&& s.first_chunk().len() == s.watermark - s.read
            &&& s.readable() == s.first_chunk() + s.storage.subrange(0, s.write)
        },
        s.write < s.read && s.watermark <= s.read ==> s.first_chunk() == s.readable(),
{
    if s.write < s.read && s.watermark <= s.read {
        assert(s.readable() =~= s.storage.subrange(0, s.write));
    }
}

} // verus!
