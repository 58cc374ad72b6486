//! Message payloads: immutable byte strings held by the `bytes` crate.
use bytes::{BufMut, Bytes, BytesMut};
use vstd::prelude::*;

verus! {

/// The shared byte string of the `bytes` crate.
#[verifier::external_type_specification]
#[verifier::external_body]
pub struct ExBytes(Bytes);

/// The growable byte buffer of the `bytes` crate.
#[verifier::external_type_specification]
#[verifier::external_body]
pub struct ExBytesMut(BytesMut);

/// The bytes that a [`Bytes`] holds.
pub uninterp spec fn bytes_held(bytes: Bytes) -> Seq<u8>;

/// The bytes written so far into a [`BytesMut`].
pub uninterp spec fn bytes_written(buffer: BytesMut) -> Seq<u8>;

/// The capacity that a [`BytesMut`] was made with.
pub uninterp spec fn bytes_reserved(buffer: BytesMut) -> nat;

/// Whether one allocation can hold `count` bytes.
pub open spec fn fits_allocation(count: nat) -> bool {
    count <= isize::MAX
}

/// `BytesMut::with_capacity` makes a buffer with nothing written in it and room
/// for at least `capacity` bytes. It panics when the capacity exceeds what one
/// allocation can hold.
#[verifier::external_body]
fn buffer_with_capacity(capacity: usize) -> (buffer: BytesMut)
    requires
        fits_allocation(capacity as nat),
    ensures
        bytes_written(buffer) == Seq::<u8>::empty(),
        bytes_reserved(buffer) == capacity,
{
    BytesMut::with_capacity(capacity)
}

/// `BufMut::put_u8` on a `BytesMut` appends the byte. Within the capacity that
/// the buffer was made with it allocates nothing.
#[verifier::external_body]
fn buffer_put_u8(buffer: &mut BytesMut, value: u8)
    requires
        bytes_written(*old(buffer)).len() + 1 <= bytes_reserved(*old(buffer)),
    ensures
        bytes_written(*final(buffer)) == bytes_written(*old(buffer)).push(value),
        bytes_reserved(*final(buffer)) == bytes_reserved(*old(buffer)),
{
    buffer.put_u8(value)
}

/// `BufMut::put_u16` on a `BytesMut` appends the value's two bytes, the more
/// significant first. Within the capacity that the buffer was made with it
/// allocates nothing.
#[verifier::external_body]
fn buffer_put_u16(buffer: &mut BytesMut, value: u16)
    requires
        bytes_written(*old(buffer)).len() + 2 <= bytes_reserved(*old(buffer)),
    ensures
        bytes_written(*final(buffer)) == bytes_written(*old(buffer)).push((value / 256) as u8).push(
            (value % 256) as u8,
        ),
        bytes_reserved(*final(buffer)) == bytes_reserved(*old(buffer)),
{
    buffer.put_u16(value)
}

/// `BytesMut::extend_from_slice` appends the slice. Within the capacity that the
/// buffer was made with it allocates nothing.
#[verifier::external_body]
fn buffer_extend(buffer: &mut BytesMut, tail: &[u8])
    requires
        bytes_written(*old(buffer)).len() + tail@.len() <= bytes_reserved(*old(buffer)),
    ensures
        bytes_written(*final(buffer)) == bytes_written(*old(buffer)) + tail@,
        bytes_reserved(*final(buffer)) == bytes_reserved(*old(buffer)),
{
    buffer.extend_from_slice(tail)
}

/// `BytesMut::freeze` turns the buffer into a `Bytes` with the same contents.
#[verifier::external_body]
fn buffer_freeze(buffer: BytesMut) -> (bytes: Bytes)
    ensures
        bytes_held(bytes) == bytes_written(buffer),
{
    buffer.freeze()
}

/// `Bytes::new` is the empty byte string.
#[verifier::external_body]
fn bytes_new() -> (bytes: Bytes)
    ensures
        bytes_held(bytes) == Seq::<u8>::empty(),
{
    Bytes::new()
}

/// `Bytes::from` a vector keeps its bytes.
#[verifier::external_body]
fn bytes_from_vec(vec: Vec<u8>) -> (bytes: Bytes)
    ensures
        bytes_held(bytes) == vec@,
{
    Bytes::from(vec)
}

/// `AsRef::as_ref` on a `Bytes` gives its contents as a slice.
#[verifier::external_body]
fn bytes_as_slice(bytes: &Bytes) -> (slice: &[u8])
    ensures
        slice@ == bytes_held(*bytes),
{
    bytes.as_ref()
}

/// `Clone::clone` on a `Bytes` gives a handle on the same contents.
#[verifier::external_body]
fn bytes_clone(bytes: &Bytes) -> (copy: Bytes)
    ensures
        bytes_held(copy) == bytes_held(*bytes),
{
    bytes.clone()
}

/// `Bytes::slice` from `start` on gives the contents without their first
/// `start` bytes. It panics when `start` is past the end.
#[verifier::external_body]
fn bytes_slice_from(bytes: &Bytes, start: usize) -> (tail: Bytes)
    requires
        start <= bytes_held(*bytes).len(),
    ensures
        bytes_held(tail) == bytes_held(*bytes).skip(start as int),
{
    bytes.slice(start..)
}

/// An immutable message payload.
pub struct Payload {
    inner: Bytes,
}

impl View for Payload {
    type V = Seq<u8>;

    closed spec fn view(&self) -> Seq<u8> {
        bytes_held(self.inner)
    }
}

impl Payload {
    /// The empty payload.
    pub fn new() -> (payload: Self)
        ensures
            payload@ == Seq::<u8>::empty(),
    {
        Payload { inner: bytes_new() }
    }

    /// The payload that holds `vec`.
    pub fn from_vec(vec: Vec<u8>) -> (payload: Self)
        ensures
            payload@ == vec@,
    {
        Payload { inner: bytes_from_vec(vec) }
    }

    /// The payload that holds `bytes`.
    pub fn from_bytes(bytes: Bytes) -> (payload: Self)
        ensures
            payload@ == bytes_held(bytes),
    {
        Payload { inner: bytes }
    }

    /// The shared byte string behind the payload.
    pub fn into_inner(self) -> (bytes: Bytes)
        ensures
            bytes_held(bytes) == self@,
    {
        self.inner
    }

    /// The payload's bytes.
    pub fn as_slice(&self) -> (slice: &[u8])
        ensures
            slice@ == self@,
    {
        bytes_as_slice(&self.inner)
    }

    /// The number of bytes.
    pub fn len(&self) -> (count: usize)
        ensures
            count == self@.len(),
    {
        self.as_slice().len()
    }

    /// Whether the payload has no bytes.
    pub fn is_empty(&self) -> (empty: bool)
        ensures
            empty == (self@.len() == 0),
    {
        self.as_slice().len() == 0
    }

    /// A second handle on the same bytes.
    pub fn share(&self) -> (copy: Self)
        ensures
            copy@ == self@,
    {
        Payload { inner: bytes_clone(&self.inner) }
    }

    /// The bytes from `start` on, sharing this payload's storage.
    pub fn slice_from(&self, start: usize) -> (tail: Self)
        requires
            start <= self@.len(),
        ensures
            tail@ == self@.skip(start as int),
    {
        Payload { inner: bytes_slice_from(&self.inner, start) }
    }
}

/// A payload under construction.
pub struct PayloadBuilder {
    buffer: BytesMut,
}

impl View for PayloadBuilder {
    type V = Seq<u8>;

    closed spec fn view(&self) -> Seq<u8> {
        bytes_written(self.buffer)
    }
}

impl PayloadBuilder {
    /// The bytes that the builder has room for, written ones included.
    pub closed spec fn room(&self) -> nat {
        bytes_reserved(self.buffer)
    }

    /// An empty builder with room for `capacity` bytes.
    pub fn with_capacity(capacity: usize) -> (builder: Self)
        requires
            fits_allocation(capacity as nat),
        ensures
            builder@ == Seq::<u8>::empty(),
            builder.room() == capacity,
    {
        PayloadBuilder { buffer: buffer_with_capacity(capacity) }
    }

    /// Appends one byte.
    pub fn put_u8(&mut self, value: u8)
        requires
            old(self)@.len() + 1 <= old(self).room(),
        ensures
            final(self).room() == old(self).room(),
            final(self)@ == old(self)@.push(value),
    {
        buffer_put_u8(&mut self.buffer, value);
    }

    /// Appends two bytes, the more significant first.
    pub fn put_u16(&mut self, value: u16)
        requires
            old(self)@.len() + 2 <= old(self).room(),
        ensures
            final(self).room() == old(self).room(),
            final(self)@ == old(self)@.push((value / 256) as u8).push((value % 256) as u8),
    {
        buffer_put_u16(&mut self.buffer, value);
    }

    /// Appends a slice.
    pub fn extend_from_slice(&mut self, tail: &[u8])
        requires
            old(self)@.len() + tail@.len() <= old(self).room(),
        ensures
            final(self).room() == old(self).room(),
            final(self)@ == old(self)@ + tail@,
    {
        buffer_extend(&mut self.buffer, tail);
    }

    /// The finished payload.
    pub fn freeze(self) -> (payload: Payload)
        ensures
            payload@ == self@,
    {
        Payload { inner: buffer_freeze(self.buffer) }
    }
}

} // verus!
