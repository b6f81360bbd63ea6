//! A slot through which values are exchanged: a channel of capacity 1 where a
//! new value replaces the old one, because consumers only ever want the most
//! recent value.
//!
//! A slot couples one [`SlotWriter`] to any number of [`SlotReader`] cursors.
//! The writer holds the stored value together with a 64-bit write generation
//! that grows by one on every update. Each reader keeps its own read
//! generation, initially all-ones so that the very first update counts as new,
//! and copies the write generation whenever it takes a value. Equal
//! generations mean "this reader has already seen the current value".

use vstd::prelude::*;

verus! {

/// The writer of the slot is gone; no further value will ever arrive.
#[derive(Debug, PartialEq, Eq, Structural)]
pub struct Disconnected;

/// The writing end of a slot. It owns the stored value, the write generation
/// and the disconnected flag that the readers observe.
pub struct SlotWriter<T> {
    /// Most recent value written, or `None` if nothing was ever written.
    pub value: Option<T>,
    /// Generation of the most recent write. Starts at 0; each update adds 1.
    pub write_gen: u64,
    /// True once the writing side has shut down.
    pub disconnected: bool,
}

/// A reading cursor of a slot. Cloning it yields an independent cursor with
/// the same read generation, so every clone can wait for a new value without
/// affecting the others.
#[derive(Clone, Copy)]
pub struct SlotReader {
    /// Generation of the last value this cursor took. Initially all-ones.
    pub read_gen: u64,
}

/// State of the writer after `update(v)`.
pub open spec fn spec_update<T>(w: SlotWriter<T>, v: T) -> SlotWriter<T> {
    SlotWriter { value: Some(v), write_gen: (w.write_gen + 1) as u64, disconnected: w.disconnected }
}

/// State of the writer after it disconnects.
pub open spec fn spec_disconnect<T>(w: SlotWriter<T>) -> SlotWriter<T> {
    SlotWriter { value: w.value, write_gen: w.write_gen, disconnected: true }
}

/// True when the slot holds a value that this reader has not taken yet.
pub open spec fn has_fresh_value<T>(w: SlotWriter<T>, r: SlotReader) -> bool {
    w.value is Some && w.write_gen != r.read_gen
}

/// What `get` returns and the reader state it leaves behind.
pub open spec fn spec_get<T>(w: SlotWriter<T>, r: SlotReader) -> (Option<T>, SlotReader) {
    match w.value {
        Some(v) => (Some(v), SlotReader { read_gen: w.write_gen }),
        None => (None, r),
    }
}

/// What `next` returns and the reader state it leaves behind.
pub open spec fn spec_next<T>(w: SlotWriter<T>, r: SlotReader) -> (Option<T>, SlotReader) {
    if has_fresh_value(w, r) {
        (Some(w.value.unwrap()), SlotReader { read_gen: w.write_gen })
    } else {
        (None, r)
    }
}

/// What `block` returns and the reader state it leaves behind. A fresh value
/// wins over a disconnect, so a reader that is behind still collects the last
/// value before it sees `Disconnected`.
pub open spec fn spec_block<T>(w: SlotWriter<T>, r: SlotReader) -> (Result<T, Disconnected>, SlotReader) {
    if has_fresh_value(w, r) {
        (Ok(w.value.unwrap()), SlotReader { read_gen: w.write_gen })
    } else {
        (Err(Disconnected), r)
    }
}

/// A reader cursor that arose from this writer's slot: its read generation is
/// either the initial all-ones mark or one of the generations written so far.
pub open spec fn reader_valid<T>(w: SlotWriter<T>, r: SlotReader) -> bool {
    r.read_gen == u64::MAX || r.read_gen <= w.write_gen
}

/// Creates a connected pair of [`SlotWriter`] and [`SlotReader`]. The reader
/// can be cloned to give several consumers their own cursor into the slot.
pub fn slot<T>() -> (r: (SlotWriter<T>, SlotReader))
    ensures
        r.0.value is None,
        r.0.write_gen == 0,
        !r.0.disconnected,
        r.1.read_gen == u64::MAX,
        reader_valid(r.0, r.1),
{
    (
        SlotWriter { value: None, write_gen: 0, disconnected: false },
        SlotReader { read_gen: u64::MAX },
    )
}

impl<T> SlotWriter<T> {
    /// Replaces the slot's value and bumps the write generation, so every
    /// reader sees the new value as unread. An unread previous value is
    /// simply overwritten: the slot keeps the latest value only.
    ///
    /// The generation counter must not exhaust `u64`; at one update per
    /// microsecond that bound is half a million years away.
    pub fn update(&mut self, value: T)
        requires
            old(self).write_gen < u64::MAX - 1,
        ensures
            *final(self) == spec_update(*old(self), value),
    {
        self.value = Some(value);
        self.write_gen = self.write_gen + 1;
    }

    /// Marks the slot as disconnected, as the writing side does when it shuts
    /// down. Readers keep access to the last value, and `block` reports
    /// `Disconnected` once that value has been taken.
    pub fn disconnect(&mut self)
        ensures
            *final(self) == spec_disconnect(*old(self)),
    {
        self.disconnected = true;
    }
}

impl SlotReader {
    /// Retrieves the most recent value written to the slot, or `None` if no
    /// value was ever written. Marks the current value as read.
    pub fn get<T: Clone>(&mut self, slot: &SlotWriter<T>) -> (r: Option<T>)
        ensures
            *final(self) == spec_get(*slot, *old(self)).1,
            match (spec_get(*slot, *old(self)).0, r) {
                (Some(v), Some(c)) => cloned(v, c),
                (None, None) => true,
                _ => false,
            },
    {
        match &slot.value {
            Some(value) => {
                self.read_gen = slot.write_gen;
                Some(value.clone())
            }
            None => None,
        }
    }

    /// Retrieves the value written to the slot if this cursor has not taken
    /// it yet, and `None` otherwise. To read the current value regardless,
    /// call [`SlotReader::get`] instead.
    pub fn next<T: Clone>(&mut self, slot: &SlotWriter<T>) -> (r: Option<T>)
        ensures
            *final(self) == spec_next(*slot, *old(self)).1,
            match (spec_next(*slot, *old(self)).0, r) {
                (Some(v), Some(c)) => cloned(v, c),
                (None, None) => true,
                _ => false,
            },
    {
        if slot.write_gen != self.read_gen {
            match &slot.value {
                Some(value) => {
                    self.read_gen = slot.write_gen;
                    Some(value.clone())
                }
                None => None,
            }
        } else {
            None
        }
    }

    /// Takes the next unread value, or reports [`Disconnected`] when the
    /// writer is gone and nothing unread is left. In the concurrent setting
    /// this is the operation a consumer blocks on; it is called once the slot
    /// has changed or disconnected, so one of the two outcomes is available.
    pub fn block<T: Clone>(&mut self, slot: &SlotWriter<T>) -> (r: Result<T, Disconnected>)
        requires
            slot.disconnected || has_fresh_value(*slot, *old(self)),
        ensures
            *final(self) == spec_block(*slot, *old(self)).1,
            match (spec_block(*slot, *old(self)).0, r) {
                (Ok(v), Ok(c)) => cloned(v, c),
                (Err(_), Err(_)) => true,
                _ => false,
            },
    {
        if slot.write_gen != self.read_gen {
            match &slot.value {
                Some(value) => {
                    self.read_gen = slot.write_gen;
                    return Ok(value.clone());
                }
                None => {}
            }
        }
        Err(Disconnected)
    }

    /// Reports whether the writing side of the slot has shut down.
    pub fn is_disconnected<T>(&self, slot: &SlotWriter<T>) -> (r: bool)
        ensures
            r == slot.disconnected,
    {
        slot.disconnected
    }
}

/// After `update(v)` with no further update, a reader that arose from this
/// slot observes `v` exactly once through `next` — the first `next` yields
/// `v`, a second one yields nothing — while `get` yields `v` every time and
/// leaves the cursor where the first `next` put it.
pub proof fn lemma_update_read_once<T>(w: SlotWriter<T>, v: T, r: SlotReader)
    requires
        w.write_gen < u64::MAX - 1,
        reader_valid(w, r),
    ensures
        ({
            let w1 = spec_update(w, v);
            let (first, r1) = spec_next(w1, r);
            let (second, r2) = spec_next(w1, r1);
            let (seen, r3) = spec_get(w1, r1);
            &&& first == Some(v)
            &&& second == Option::<T>::None
            &&& r2 == r1
            &&& seen == Some(v)
            &&& r3 == r1
        }),
{
}

/// `block` succeeds exactly when the slot holds a value this reader has not
/// taken, and fails with `Disconnected` otherwise; after the failure the
/// cursor is unchanged, so every later `block` on a slot that no longer
/// changes fails the same way.
pub proof fn lemma_block_semantics<T>(w: SlotWriter<T>, r: SlotReader)
    ensures
        ({
            let (outcome, r1) = spec_block(w, r);
            &&& (outcome is Ok <==> has_fresh_value(w, r))
            &&& (outcome is Err <==> !has_fresh_value(w, r))
            &&& (outcome is Err ==> r1 == r && outcome == Result::<T, Disconnected>::Err(Disconnected))
            &&& (outcome is Ok ==> outcome == Result::<T, Disconnected>::Ok(w.value.unwrap()) && !has_fresh_value(w, r1))
        }),
{
}

/// The slot keeps the latest value only: a further update overwrites the
/// earlier value, and a reader that has seen nothing yet — its cursor still
/// at the all-ones mark — is given the latest value by `get` and by `block`,
/// never an earlier one.
pub proof fn lemma_latest_wins<T>(w: SlotWriter<T>, v1: T, v2: T, r: SlotReader)
    requires
        w.write_gen < u64::MAX - 2,
        r.read_gen == u64::MAX,
    ensures
        ({
            let w2 = spec_update(spec_update(w, v1), v2);
            &&& w2.value == Some(v2)
            &&& spec_block(w2, r).0 == Ok::<T, Disconnected>(v2)
            &&& spec_get(w2, r).0 == Some(v2)
        }),
{
}

/// Reader validity is an invariant of the slot: a fresh pair starts valid,
/// an update or a disconnect keeps every valid reader valid, and every read
/// leaves the reader valid.
pub proof fn lemma_reader_valid_invariant<T>(w: SlotWriter<T>, v: T, r: SlotReader)
    requires
        reader_valid(w, r),
        w.write_gen < u64::MAX - 1,
    ensures
        reader_valid(spec_update(w, v), r),
        reader_valid(spec_disconnect(w), r),
        reader_valid(w, spec_get(w, r).1),
        reader_valid(w, spec_next(w, r).1),
        reader_valid(w, spec_block(w, r).1),
{
}

/// Once the writer has disconnected, it stays disconnected: neither an update
/// nor a read brings the slot back, and reads do not change the slot at all.
pub proof fn lemma_disconnected_persists<T>(w: SlotWriter<T>, v: T)
    ensures
        spec_update(w, v).disconnected == w.disconnected,
        spec_disconnect(w).disconnected,
        spec_disconnect(spec_disconnect(w)) == spec_disconnect(w),
{
}

} // verus!
