//! Fixed-capacity vectors from the `heapless` crate, as the library uses them.
//!
//! Each element/capacity pair the library builds gets a name for what the
//! vector holds, and wrappers for the operations the library performs on it:
//! creating an empty vector, pushing an item (which is dropped when the
//! vector is full), and, where needed, building one from a slice, reading its
//! length and reading an item. The contracts of these wrappers are trusted;
//! each says what the `heapless` 0.8 source does.
use vstd::prelude::*;
use crate::action::MidiMessage;
use crate::routing::MidiOut;
use crate::controller::{ActionStep, DisplayEvent};

verus! {

/// `heapless::Vec<T, N>`, a vector of at most `N` items stored inline, as an
/// opaque type.
#[verifier::external_type_specification]
#[verifier::external_body]
#[verifier::reject_recursive_types(T)]
pub struct ExHeaplessVec<T, const N: usize>(heapless::Vec<T, N>);

/// What a `heapless::Vec<MidiMessage, 8>` holds, in order.
pub uninterp spec fn messages8(v: heapless::Vec<MidiMessage, 8>) -> Seq<MidiMessage>;

/// `heapless::Vec::new`: an empty vector.
#[verifier::external_body]
pub(crate) fn messages8_new() -> (v: heapless::Vec<MidiMessage, 8>)
    ensures
        messages8(v) == Seq::<MidiMessage>::empty(),
{
    heapless::Vec::new()
}

/// `heapless::Vec::push`: appends when fewer than 8 items are held,
/// otherwise leaves the vector as it was (the item is handed back and dropped).
#[verifier::external_body]
pub(crate) fn messages8_push(v: &mut heapless::Vec<MidiMessage, 8>, m: MidiMessage)
    ensures
        messages8(*old(v)).len() < 8 ==> messages8(*final(v)) == messages8(*old(v)).push(m),
        messages8(*old(v)).len() >= 8 ==> messages8(*final(v)) == messages8(*old(v)),
{
    let _ = v.push(m);
}

/// What a `heapless::Vec<MidiMessage, 16>` holds, in order.
pub uninterp spec fn messages16(v: heapless::Vec<MidiMessage, 16>) -> Seq<MidiMessage>;

/// `heapless::Vec::new`: an empty vector.
#[verifier::external_body]
pub(crate) fn messages16_new() -> (v: heapless::Vec<MidiMessage, 16>)
    ensures
        messages16(v) == Seq::<MidiMessage>::empty(),
{
    heapless::Vec::new()
}

/// `heapless::Vec::push`: appends when fewer than 16 items are held,
/// otherwise leaves the vector as it was (the item is handed back and dropped).
#[verifier::external_body]
pub(crate) fn messages16_push(v: &mut heapless::Vec<MidiMessage, 16>, m: MidiMessage)
    ensures
        messages16(*old(v)).len() < 16 ==> messages16(*final(v)) == messages16(*old(v)).push(m),
        messages16(*old(v)).len() >= 16 ==> messages16(*final(v)) == messages16(*old(v)),
{
    let _ = v.push(m);
}

/// Number of items held (`<[T]>::len` through the vector's `Deref`).
#[verifier::external_body]
pub(crate) fn messages16_len(v: &heapless::Vec<MidiMessage, 16>) -> (n: usize)
    ensures
        n == messages16(*v).len(),
{
    v.len()
}

/// The item at `i` (indexing through the vector's `Deref`).
#[verifier::external_body]
pub(crate) fn messages16_get(v: &heapless::Vec<MidiMessage, 16>, i: usize) -> (m: MidiMessage)
    requires
        i < messages16(*v).len(),
    ensures
        m == messages16(*v)[i as int],
{
    v[i]
}

/// What a `heapless::Vec<MidiOut, 4>` holds, in order.
pub uninterp spec fn outs4(v: heapless::Vec<MidiOut, 4>) -> Seq<MidiOut>;

/// `heapless::Vec::new`: an empty vector.
#[verifier::external_body]
pub(crate) fn outs4_new() -> (v: heapless::Vec<MidiOut, 4>)
    ensures
        outs4(v) == Seq::<MidiOut>::empty(),
{
    heapless::Vec::new()
}

/// `heapless::Vec::push`: appends when fewer than 4 items are held,
/// otherwise leaves the vector as it was.
#[verifier::external_body]
pub(crate) fn outs4_push(v: &mut heapless::Vec<MidiOut, 4>, m: MidiOut)
    ensures
        outs4(*old(v)).len() < 4 ==> outs4(*final(v)) == outs4(*old(v)).push(m),
        outs4(*old(v)).len() >= 4 ==> outs4(*final(v)) == outs4(*old(v)),
{
    let _ = v.push(m);
}

/// What a `heapless::Vec<u8, 32>` holds, in order.
pub uninterp spec fn bytes32(v: heapless::Vec<u8, 32>) -> Seq<u8>;

/// `heapless::Vec::new`: an empty vector.
#[verifier::external_body]
pub(crate) fn bytes32_new() -> (v: heapless::Vec<u8, 32>)
    ensures
        bytes32(v) == Seq::<u8>::empty(),
{
    heapless::Vec::new()
}

/// `heapless::Vec::push`: appends when fewer than 32 items are held,
/// otherwise leaves the vector as it was.
#[verifier::external_body]
pub(crate) fn bytes32_push(v: &mut heapless::Vec<u8, 32>, b: u8)
    ensures
        bytes32(*old(v)).len() < 32 ==> bytes32(*final(v)) == bytes32(*old(v)).push(b),
        bytes32(*old(v)).len() >= 32 ==> bytes32(*final(v)) == bytes32(*old(v)),
{
    let _ = v.push(b);
}

/// Appends `bytes`, which fit, one by one.
pub(crate) fn bytes32_extend(v: &mut heapless::Vec<u8, 32>, bytes: &[u8])
    requires
        bytes32(*old(v)).len() + bytes@.len() <= 32,
    ensures
        bytes32(*final(v)) == bytes32(*old(v)) + bytes@,
{
    let ghost start = bytes32(*v);
    let mut i: usize = 0;
    while i < bytes.len()
        invariant
            i <= bytes@.len(),
            start.len() + bytes@.len() <= 32,
            bytes32(*v) == start + bytes@.take(i as int),
        decreases bytes@.len() - i,
    {
        bytes32_push(v, bytes[i]);
        assert(start + bytes@.take(i + 1) =~= (start + bytes@.take(i as int)).push(bytes@[i as int]));
        i += 1;
    }
    assert(bytes@.take(i as int) =~= bytes@);
}

/// What a `heapless::Vec<u8, 350>` holds, in order.
pub uninterp spec fn bytes350(v: heapless::Vec<u8, 350>) -> Seq<u8>;

/// `heapless::Vec::new`: an empty vector.
#[verifier::external_body]
pub(crate) fn bytes350_new() -> (v: heapless::Vec<u8, 350>)
    ensures
        bytes350(v) == Seq::<u8>::empty(),
{
    heapless::Vec::new()
}

/// `heapless::Vec::push`: appends when fewer than 350 items are held,
/// otherwise leaves the vector as it was.
#[verifier::external_body]
pub(crate) fn bytes350_push(v: &mut heapless::Vec<u8, 350>, b: u8)
    ensures
        bytes350(*old(v)).len() < 350 ==> bytes350(*final(v)) == bytes350(*old(v)).push(b),
        bytes350(*old(v)).len() >= 350 ==> bytes350(*final(v)) == bytes350(*old(v)),
{
    let _ = v.push(b);
}

/// Appends `bytes`, which fit, one by one.
pub(crate) fn bytes350_extend(v: &mut heapless::Vec<u8, 350>, bytes: &[u8])
    requires
        bytes350(*old(v)).len() + bytes@.len() <= 350,
    ensures
        bytes350(*final(v)) == bytes350(*old(v)) + bytes@,
{
    let ghost start = bytes350(*v);
    let mut i: usize = 0;
    while i < bytes.len()
        invariant
            i <= bytes@.len(),
            start.len() + bytes@.len() <= 350,
            bytes350(*v) == start + bytes@.take(i as int),
        decreases bytes@.len() - i,
    {
        bytes350_push(v, bytes[i]);
        assert(start + bytes@.take(i + 1) =~= (start + bytes@.take(i as int)).push(bytes@[i as int]));
        i += 1;
    }
    assert(bytes@.take(i as int) =~= bytes@);
}

/// What a `heapless::Vec<u8, 128>` holds, in order.
pub uninterp spec fn bytes128(v: heapless::Vec<u8, 128>) -> Seq<u8>;

/// `heapless::Vec::from_slice`: a vector holding the slice, when it fits
/// (128 bytes at most); an error otherwise.
#[verifier::external_body]
pub(crate) fn bytes128_from_slice(s: &[u8]) -> (r: Result<heapless::Vec<u8, 128>, ()>)
    ensures
        r is Ok <==> s@.len() <= 128,
        r matches Ok(v) ==> bytes128(v) == s@,
{
    heapless::Vec::from_slice(s)
}

/// `heapless::Vec::default`: an empty vector.
#[verifier::external_body]
pub(crate) fn bytes128_default() -> (v: heapless::Vec<u8, 128>)
    ensures
        bytes128(v) == Seq::<u8>::empty(),
{
    heapless::Vec::default()
}

/// What a `heapless::Vec<ActionStep, 32>` holds, in order.
pub uninterp spec fn steps32(v: heapless::Vec<ActionStep, 32>) -> Seq<ActionStep>;

/// `heapless::Vec::new`: an empty vector.
#[verifier::external_body]
pub(crate) fn steps32_new() -> (v: heapless::Vec<ActionStep, 32>)
    ensures
        steps32(v) == Seq::<ActionStep>::empty(),
{
    heapless::Vec::new()
}

/// `heapless::Vec::push`: appends when fewer than 32 items are held,
/// otherwise leaves the vector as it was.
#[verifier::external_body]
pub(crate) fn steps32_push(v: &mut heapless::Vec<ActionStep, 32>, s: ActionStep)
    ensures
        steps32(*old(v)).len() < 32 ==> steps32(*final(v)) == steps32(*old(v)).push(s),
        steps32(*old(v)).len() >= 32 ==> steps32(*final(v)) == steps32(*old(v)),
{
    let _ = v.push(s);
}

/// What a `heapless::Vec<DisplayEvent, 2>` holds, in order.
pub uninterp spec fn displays2(v: heapless::Vec<DisplayEvent, 2>) -> Seq<DisplayEvent>;

/// `heapless::Vec::new`: an empty vector.
#[verifier::external_body]
pub(crate) fn displays2_new() -> (v: heapless::Vec<DisplayEvent, 2>)
    ensures
        displays2(v) == Seq::<DisplayEvent>::empty(),
{
    heapless::Vec::new()
}

/// `heapless::Vec::push`: appends when fewer than 2 items are held,
/// otherwise leaves the vector as it was.
#[verifier::external_body]
pub(crate) fn displays2_push(v: &mut heapless::Vec<DisplayEvent, 2>, d: DisplayEvent)
    ensures
        displays2(*old(v)).len() < 2 ==> displays2(*final(v)) == displays2(*old(v)).push(d),
        displays2(*old(v)).len() >= 2 ==> displays2(*final(v)) == displays2(*old(v)),
{
    let _ = v.push(d);
}

} // verus!
