//! Messages on the IPC channel: how each value of the message data model is written to an
//! `IPCBuffer` and read back from it.
//!
//! A value puts bytes on the byte queue and file descriptors on the file queue. Integers
//! are little-endian (`usize` and `isize` travel as 64-bit integers), `bool` and option
//! tags are one byte (0 or 1), enum variants (including `Ok` and `Err`) are one index
//! byte followed by their fields, structs and tuples are their fields in order, and a
//! `SysFd` goes to the file queue. Reading stops at the first problem: a missing byte or
//! file is `UnexpectedEnd`, a `bool` or option tag other than 0 or 1 is `InvalidValue`,
//! and an unknown variant index or an integer out of range is `Deserialize`.
use vstd::prelude::*;
use vstd::bytes::*;
use crate::buffer::{Error, IPCBuffer};
use crate::protocol::SysFd;

verus! {

/// What a value puts on the two queues: bytes, and the files that travel beside them.
pub type Wire = (Seq<u8>, Seq<SysFd>);

pub open spec fn cat(a: Wire, b: Wire) -> Wire {
    (a.0 + b.0, a.1 + b.1)
}

pub open spec fn no_wire() -> Wire {
    (Seq::<u8>::empty(), Seq::<SysFd>::empty())
}

pub open spec fn byte_wire(b: u8) -> Wire {
    (seq![b], Seq::<SysFd>::empty())
}

pub open spec fn bytes_wire(s: Seq<u8>) -> Wire {
    (s, Seq::<SysFd>::empty())
}

pub open spec fn file_wire(f: SysFd) -> Wire {
    (Seq::<u8>::empty(), seq![f])
}

/// What is waiting to be read in a buffer.
pub open spec fn pending(b: IPCBuffer) -> Wire {
    (b.pending_bytes(), b.pending_files())
}

/// The buffer has room to append the whole of `w` without a refill.
pub open spec fn fits(b: IPCBuffer, w: Wire) -> bool {
    w.0.len() <= b.byte_room() && w.1.len() <= b.file_room()
}

/// `new` is `old` with `w` appended.
pub open spec fn appended(old: IPCBuffer, new: IPCBuffer, w: Wire) -> bool {
    &&& pending(new) == cat(pending(old), w)
    &&& new.byte_room() == old.byte_room() - w.0.len()
    &&& new.file_room() == old.file_room() - w.1.len()
}

/// Writing `w` succeeds exactly when it fits; then it is appended, otherwise the error
/// is `BufferFull` (and a part of `w` may have been written).
pub open spec fn put_outcome(old: IPCBuffer, new: IPCBuffer, r: Result<(), Error>, w: Wire) -> bool {
    &&& new.wf()
    &&& (r is Ok <==> fits(old, w))
    &&& (r is Ok ==> appended(old, new, w))
    &&& (r is Err ==> r->Err_0 == Error::BufferFull)
}

/// A reader's result is what `p` says; on success the rest of the input stays pending.
/// Reading never changes the storage, so a saved position can undo it.
pub open spec fn take_outcome<T>(
    old: IPCBuffer,
    new: IPCBuffer,
    r: Result<T, Error>,
    p: Result<(T, Wire), Error>,
) -> bool {
    &&& new.wf()
    &&& new.storage() == old.storage()
    &&& match p {
        Ok((v, rest)) => r == Ok::<T, Error>(v) && pending(new) == rest,
        Err(e) => r == Err::<T, Error>(e),
    }
}

/// `p` is a successful read of `v` that leaves `rest`.
pub open spec fn parsed_as<T>(p: Result<(T, Wire), Error>, v: T, rest: Wire) -> bool {
    p == Ok::<(T, Wire), Error>((v, rest))
}

/// Apply `f` to the value of a successful read.
pub open spec fn map_parsed<T, U>(p: Result<(T, Wire), Error>, f: spec_fn(T) -> U) -> Result<
    (U, Wire),
    Error,
> {
    match p {
        Ok((v, rest)) => Ok((f(v), rest)),
        Err(e) => Err(e),
    }
}

/// The wire form of an unsigned integer of `n` bytes: little-endian.
pub open spec fn u16_wire(v: u16) -> Seq<u8> {
    spec_u16_to_le_bytes(v)
}

pub open spec fn u32_wire(v: u32) -> Seq<u8> {
    spec_u32_to_le_bytes(v)
}

pub open spec fn u64_wire(v: u64) -> Seq<u8> {
    spec_u64_to_le_bytes(v)
}

/// Reading back what was written gives the value written, and leaves what followed.
pub proof fn lemma_u16_wire_roundtrip(v: u16, rest: Seq<u8>)
    ensures
        u16_wire(v).len() == 2,
        (u16_wire(v) + rest).take(2) == u16_wire(v),
        (u16_wire(v) + rest).skip(2) == rest,
        spec_u16_from_le_bytes(u16_wire(v)) == v,
{
    lemma_auto_spec_u16_to_from_le_bytes();
    assert((u16_wire(v) + rest).take(2) =~= u16_wire(v));
    assert((u16_wire(v) + rest).skip(2) =~= rest);
}

/// Reading back what was written gives the value written, and leaves what followed.
pub proof fn lemma_u32_wire_roundtrip(v: u32, rest: Seq<u8>)
    ensures
        u32_wire(v).len() == 4,
        (u32_wire(v) + rest).take(4) == u32_wire(v),
        (u32_wire(v) + rest).skip(4) == rest,
        spec_u32_from_le_bytes(u32_wire(v)) == v,
{
    lemma_auto_spec_u32_to_from_le_bytes();
    assert((u32_wire(v) + rest).take(4) =~= u32_wire(v));
    assert((u32_wire(v) + rest).skip(4) =~= rest);
}

/// Reading back what was written gives the value written, and leaves what followed.
pub proof fn lemma_u64_wire_roundtrip(v: u64, rest: Seq<u8>)
    ensures
        u64_wire(v).len() == 8,
        (u64_wire(v) + rest).take(8) == u64_wire(v),
        (u64_wire(v) + rest).skip(8) == rest,
        spec_u64_from_le_bytes(u64_wire(v)) == v,
{
    lemma_auto_spec_u64_to_from_le_bytes();
    assert((u64_wire(v) + rest).take(8) =~= u64_wire(v));
    assert((u64_wire(v) + rest).skip(8) =~= rest);
}

/// One byte from the front of the byte queue.
pub open spec fn parse_byte(input: Wire) -> Result<(u8, Wire), Error> {
    if input.0.len() > 0 {
        Ok((input.0[0], (input.0.drop_first(), input.1)))
    } else {
        Err(Error::UnexpectedEnd)
    }
}

/// Two bytes from the front of the byte queue, as a little-endian `u16`.
pub open spec fn parse_u16(input: Wire) -> Result<(u16, Wire), Error> {
    if input.0.len() >= 2 {
        Ok((spec_u16_from_le_bytes(input.0.take(2)), (input.0.skip(2), input.1)))
    } else {
        Err(Error::UnexpectedEnd)
    }
}

/// Four bytes from the front of the byte queue, as a little-endian `u32`.
pub open spec fn parse_u32(input: Wire) -> Result<(u32, Wire), Error> {
    if input.0.len() >= 4 {
        Ok((spec_u32_from_le_bytes(input.0.take(4)), (input.0.skip(4), input.1)))
    } else {
        Err(Error::UnexpectedEnd)
    }
}

/// Eight bytes from the front of the byte queue, as a little-endian `u64`.
pub open spec fn parse_u64(input: Wire) -> Result<(u64, Wire), Error> {
    if input.0.len() >= 8 {
        Ok((spec_u64_from_le_bytes(input.0.take(8)), (input.0.skip(8), input.1)))
    } else {
        Err(Error::UnexpectedEnd)
    }
}

pub proof fn lemma_cat_assoc(a: Wire, b: Wire, c: Wire)
    ensures
        cat(cat(a, b), c) == cat(a, cat(b, c)),
{
    assert(cat(cat(a, b), c).0 =~= cat(a, cat(b, c)).0);
    assert(cat(cat(a, b), c).1 =~= cat(a, cat(b, c)).1);
}

proof fn lemma_cat_no_wire(a: Wire)
    ensures
        cat(a, no_wire()) == a,
        cat(no_wire(), a) == a,
{
    assert(cat(a, no_wire()).0 =~= a.0);
    assert(cat(a, no_wire()).1 =~= a.1);
    assert(cat(no_wire(), a).0 =~= a.0);
    assert(cat(no_wire(), a).1 =~= a.1);
}

pub proof fn lemma_parse_byte_wire(b: u8, rest: Wire)
    ensures
        parsed_as(parse_byte(cat(byte_wire(b), rest)), b, rest),
{
    let input = cat(byte_wire(b), rest);
    assert(input.0.drop_first() =~= rest.0);
    assert(input.1 =~= rest.1);
}

proof fn lemma_parse_u16_wire(v: u16, rest: Wire)
    ensures
        parsed_as(parse_u16(cat(bytes_wire(u16_wire(v)), rest)), v, rest),
{
    lemma_u16_wire_roundtrip(v, rest.0);
    assert(cat(bytes_wire(u16_wire(v)), rest).1 =~= rest.1);
}

proof fn lemma_parse_u32_wire(v: u32, rest: Wire)
    ensures
        parsed_as(parse_u32(cat(bytes_wire(u32_wire(v)), rest)), v, rest),
{
    lemma_u32_wire_roundtrip(v, rest.0);
    assert(cat(bytes_wire(u32_wire(v)), rest).1 =~= rest.1);
}

proof fn lemma_parse_u64_wire(v: u64, rest: Wire)
    ensures
        parsed_as(parse_u64(cat(bytes_wire(u64_wire(v)), rest)), v, rest),
{
    lemma_u64_wire_roundtrip(v, rest.0);
    assert(cat(bytes_wire(u64_wire(v)), rest).1 =~= rest.1);
}

pub proof fn lemma_parse_byte_prefix(input: Wire, more: Wire)
    requires
        parse_byte(input) is Ok,
    ensures
        parsed_as(
            parse_byte(cat(input, more)),
            parse_byte(input)->Ok_0.0,
            cat(parse_byte(input)->Ok_0.1, more),
        ),
{
    assert((input.0 + more.0).drop_first() =~= input.0.drop_first() + more.0);
}

proof fn lemma_parse_u16_prefix(input: Wire, more: Wire)
    requires
        parse_u16(input) is Ok,
    ensures
        parsed_as(
            parse_u16(cat(input, more)),
            parse_u16(input)->Ok_0.0,
            cat(parse_u16(input)->Ok_0.1, more),
        ),
{
    assert((input.0 + more.0).take(2) =~= input.0.take(2));
    assert((input.0 + more.0).skip(2) =~= input.0.skip(2) + more.0);
}

proof fn lemma_parse_u32_prefix(input: Wire, more: Wire)
    requires
        parse_u32(input) is Ok,
    ensures
        parsed_as(
            parse_u32(cat(input, more)),
            parse_u32(input)->Ok_0.0,
            cat(parse_u32(input)->Ok_0.1, more),
        ),
{
    assert((input.0 + more.0).take(4) =~= input.0.take(4));
    assert((input.0 + more.0).skip(4) =~= input.0.skip(4) + more.0);
}

proof fn lemma_parse_u64_prefix(input: Wire, more: Wire)
    requires
        parse_u64(input) is Ok,
    ensures
        parsed_as(
            parse_u64(cat(input, more)),
            parse_u64(input)->Ok_0.0,
            cat(parse_u64(input)->Ok_0.1, more),
        ),
{
    assert((input.0 + more.0).take(8) =~= input.0.take(8));
    assert((input.0 + more.0).skip(8) =~= input.0.skip(8) + more.0);
}

/// `rest` is what is left of `input` after something was taken from the front of each
/// queue.
pub open spec fn suffix_of(rest: Wire, input: Wire) -> bool {
    &&& rest.0.len() <= input.0.len()
    &&& rest.1.len() <= input.1.len()
    &&& rest.0 == input.0.skip(input.0.len() - rest.0.len())
    &&& rest.1 == input.1.skip(input.1.len() - rest.1.len())
}

pub proof fn lemma_suffix_refl(a: Wire)
    ensures
        suffix_of(a, a),
{
    assert(a.0 =~= a.0.skip(0));
    assert(a.1 =~= a.1.skip(0));
}

pub proof fn lemma_suffix_trans(a: Wire, b: Wire, c: Wire)
    requires
        suffix_of(b, a),
        suffix_of(c, b),
    ensures
        suffix_of(c, a),
{
    assert(c.0 =~= a.0.skip(a.0.len() - c.0.len()));
    assert(c.1 =~= a.1.skip(a.1.len() - c.1.len()));
}

pub proof fn lemma_parse_byte_suffix(input: Wire)
    requires
        parse_byte(input) is Ok,
    ensures
        suffix_of(parse_byte(input)->Ok_0.1, input),
{
    assert(input.0.drop_first() =~= input.0.skip(1));
    assert(input.1 =~= input.1.skip(0));
}

proof fn lemma_skip_suffix(input: Wire, n: int)
    requires
        0 <= n <= input.0.len(),
    ensures
        suffix_of((input.0.skip(n), input.1), input),
{
    assert(input.1 =~= input.1.skip(0));
}

/// Writing `w1` then `w2` is writing both, when the first succeeded.
pub proof fn lemma_put_then(
    s0: IPCBuffer,
    s1: IPCBuffer,
    s2: IPCBuffer,
    r1: Result<(), Error>,
    r2: Result<(), Error>,
    w1: Wire,
    w2: Wire,
)
    requires
        s0.wf(),
        put_outcome(s0, s1, r1, w1),
        r1 is Ok,
        put_outcome(s1, s2, r2, w2),
    ensures
        put_outcome(s0, s2, r2, cat(w1, w2)),
{
    if r2 is Ok {
        lemma_cat_assoc(pending(s0), w1, w2);
    }
}

/// When writing `w1` failed, writing `w1` then anything failed too.
pub proof fn lemma_put_failed(s0: IPCBuffer, s1: IPCBuffer, r1: Result<(), Error>, w1: Wire, w2: Wire)
    requires
        s0.wf(),
        put_outcome(s0, s1, r1, w1),
        r1 is Err,
    ensures
        put_outcome(s0, s1, r1, cat(w1, w2)),
{
}

/// A value of the message data model, with the way it travels on the IPC channel.
pub trait WireFormat: Sized {
    /// What the value puts on the queues.
    spec fn wire(&self) -> Wire;

    /// What a reader makes of the front of the queues: a value and what is left after it,
    /// or the error that stops it.
    spec fn parse(input: Wire) -> Result<(Self, Wire), Error>;

    /// Reading back what was written gives the value written, and leaves what followed.
    proof fn lemma_wire_roundtrip(&self, rest: Wire)
        ensures
            parsed_as(Self::parse(cat(self.wire(), rest)), *self, rest),
    ;

    /// A read that succeeds goes the same way when more data follows: the extra data is
    /// left behind what the read left.
    proof fn lemma_parse_prefix(input: Wire, more: Wire)
        requires
            Self::parse(input) is Ok,
        ensures
            parsed_as(
                Self::parse(cat(input, more)),
                Self::parse(input)->Ok_0.0,
                cat(Self::parse(input)->Ok_0.1, more),
            ),
    ;

    /// What a successful read leaves is what followed the value in both queues.
    proof fn lemma_parse_suffix(input: Wire)
        requires
            Self::parse(input) is Ok,
        ensures
            suffix_of(Self::parse(input)->Ok_0.1, input),
    ;

    fn put(&self, buf: &mut IPCBuffer) -> (r: Result<(), Error>)
        requires
            old(buf).wf(),
        ensures
            put_outcome(*old(buf), *final(buf), r, self.wire()),
    ;

    fn take(buf: &mut IPCBuffer) -> (r: Result<Self, Error>)
        requires
            old(buf).wf(),
        ensures
            take_outcome(*old(buf), *final(buf), r, Self::parse(pending(*old(buf)))),
    ;
}

pub(crate) fn put_byte(buf: &mut IPCBuffer, b: u8) -> (r: Result<(), Error>)
    requires
        old(buf).wf(),
    ensures
        put_outcome(*old(buf), *final(buf), r, byte_wire(b)),
{
    proof {
        old(buf).lemma_rooms();
    }
    let r = buf.push_back_byte(b);
    proof {
        if r is Ok {
            assert(pending(*buf).0 =~= cat(pending(*old(buf)), byte_wire(b)).0);
            assert(pending(*buf).1 =~= cat(pending(*old(buf)), byte_wire(b)).1);
        }
    }
    r
}

pub(crate) fn take_byte(buf: &mut IPCBuffer) -> (r: Result<u8, Error>)
    requires
        old(buf).wf(),
    ensures
        take_outcome(*old(buf), *final(buf), r, parse_byte(pending(*old(buf)))),
{
    buf.pop_front_byte()
}

/// An enum variant: its index byte, then its fields.
pub(crate) fn put_tagged<T: WireFormat>(buf: &mut IPCBuffer, tag: u8, payload: &T) -> (r: Result<(), Error>)
    requires
        old(buf).wf(),
    ensures
        put_outcome(*old(buf), *final(buf), r, cat(byte_wire(tag), payload.wire())),
{
    let ghost s0 = *buf;
    let r1 = put_byte(buf, tag);
    if r1.is_err() {
        proof {
            lemma_put_failed(s0, *buf, r1, byte_wire(tag), payload.wire());
        }
        return r1;
    }
    let ghost s1 = *buf;
    let r2 = payload.put(buf);
    proof {
        lemma_put_then(s0, s1, *buf, r1, r2, byte_wire(tag), payload.wire());
    }
    r2
}

impl WireFormat for u8 {
    open spec fn wire(&self) -> Wire {
        byte_wire(*self)
    }

    open spec fn parse(input: Wire) -> Result<(u8, Wire), Error> {
        parse_byte(input)
    }

    proof fn lemma_wire_roundtrip(&self, rest: Wire) {
        lemma_parse_byte_wire(*self, rest);
    }

    proof fn lemma_parse_prefix(input: Wire, more: Wire) {
        lemma_parse_byte_prefix(input, more);
    }

    proof fn lemma_parse_suffix(input: Wire) {
        lemma_parse_byte_suffix(input);
    }

    fn put(&self, buf: &mut IPCBuffer) -> (r: Result<(), Error>) {
        put_byte(buf, *self)
    }

    fn take(buf: &mut IPCBuffer) -> (r: Result<u8, Error>) {
        take_byte(buf)
    }
}

/// The byte of a `bool`: 0 or 1.
pub open spec fn bool_byte(v: bool) -> u8 {
    if v {
        1
    } else {
        0
    }
}

impl WireFormat for bool {
    open spec fn wire(&self) -> Wire {
        byte_wire(bool_byte(*self))
    }

    open spec fn parse(input: Wire) -> Result<(bool, Wire), Error> {
        match parse_byte(input) {
            Ok((b, rest)) => if b == 0 {
                Ok((false, rest))
            } else if b == 1 {
                Ok((true, rest))
            } else {
                Err(Error::InvalidValue)
            },
            Err(e) => Err(e),
        }
    }

    proof fn lemma_wire_roundtrip(&self, rest: Wire) {
        lemma_parse_byte_wire(bool_byte(*self), rest);
    }

    proof fn lemma_parse_prefix(input: Wire, more: Wire) {
        lemma_parse_byte_prefix(input, more);
    }

    proof fn lemma_parse_suffix(input: Wire) {
        lemma_parse_byte_suffix(input);
    }

    fn put(&self, buf: &mut IPCBuffer) -> (r: Result<(), Error>) {
        put_byte(buf, if *self { 1 } else { 0 })
    }

    fn take(buf: &mut IPCBuffer) -> (r: Result<bool, Error>) {
        let b = take_byte(buf)?;
        if b == 0 {
            Ok(false)
        } else if b == 1 {
            Ok(true)
        } else {
            Err(Error::InvalidValue)
        }
    }
}

fn put_bytes(buf: &mut IPCBuffer, data: &[u8]) -> (r: Result<(), Error>)
    requires
        old(buf).wf(),
    ensures
        put_outcome(*old(buf), *final(buf), r, bytes_wire(data@)),
{
    proof {
        old(buf).lemma_rooms();
    }
    let r = buf.extend_bytes(data);
    proof {
        if r is Ok {
            assert(pending(*buf).0 =~= cat(pending(*old(buf)), bytes_wire(data@)).0);
            assert(pending(*buf).1 =~= cat(pending(*old(buf)), bytes_wire(data@)).1);
        }
    }
    r
}

impl WireFormat for i8 {
    open spec fn wire(&self) -> Wire {
        byte_wire(*self as u8)
    }

    open spec fn parse(input: Wire) -> Result<(i8, Wire), Error> {
        map_parsed(parse_byte(input), |b: u8| b as i8)
    }

    proof fn lemma_wire_roundtrip(&self, rest: Wire) {
        let v = *self;
        lemma_parse_byte_wire(v as u8, rest);
        assert((v as u8) as i8 == v) by (bit_vector);
    }

    proof fn lemma_parse_prefix(input: Wire, more: Wire) {
        lemma_parse_byte_prefix(input, more);
    }

    proof fn lemma_parse_suffix(input: Wire) {
        lemma_parse_byte_suffix(input);
    }

    fn put(&self, buf: &mut IPCBuffer) -> (r: Result<(), Error>) {
        put_byte(buf, *self as u8)
    }

    fn take(buf: &mut IPCBuffer) -> (r: Result<i8, Error>) {
        let b = take_byte(buf)?;
        Ok(b as i8)
    }
}

impl WireFormat for u16 {
    open spec fn wire(&self) -> Wire {
        bytes_wire(u16_wire(*self))
    }

    open spec fn parse(input: Wire) -> Result<(u16, Wire), Error> {
        parse_u16(input)
    }

    proof fn lemma_wire_roundtrip(&self, rest: Wire) {
        lemma_parse_u16_wire(*self, rest);
    }

    proof fn lemma_parse_prefix(input: Wire, more: Wire) {
        lemma_parse_u16_prefix(input, more);
    }

    proof fn lemma_parse_suffix(input: Wire) {
        if input.0.len() >= 2 {
            lemma_skip_suffix(input, 2);
        }
    }

    fn put(&self, buf: &mut IPCBuffer) -> (r: Result<(), Error>) {
        let bytes = u16_to_le_bytes(*self);
        put_bytes(buf, bytes.as_slice())
    }

    fn take(buf: &mut IPCBuffer) -> (r: Result<u16, Error>) {
        let v = match buf.front_bytes(2) {
            Ok(s) => u16_from_le_bytes(s),
            Err(e) => {
                return Err(e);
            },
        };
        buf.pop_front_bytes(2);
        Ok(v)
    }
}

impl WireFormat for i16 {
    open spec fn wire(&self) -> Wire {
        bytes_wire(u16_wire(*self as u16))
    }

    open spec fn parse(input: Wire) -> Result<(i16, Wire), Error> {
        map_parsed(parse_u16(input), |v: u16| v as i16)
    }

    proof fn lemma_wire_roundtrip(&self, rest: Wire) {
        let v = *self;
        lemma_parse_u16_wire(v as u16, rest);
        assert((v as u16) as i16 == v) by (bit_vector);
    }

    proof fn lemma_parse_prefix(input: Wire, more: Wire) {
        lemma_parse_u16_prefix(input, more);
    }

    proof fn lemma_parse_suffix(input: Wire) {
        if input.0.len() >= 2 {
            lemma_skip_suffix(input, 2);
        }
    }

    fn put(&self, buf: &mut IPCBuffer) -> (r: Result<(), Error>) {
        let bytes = u16_to_le_bytes(*self as u16);
        put_bytes(buf, bytes.as_slice())
    }

    fn take(buf: &mut IPCBuffer) -> (r: Result<i16, Error>) {
        let v = u16::take(buf)?;
        Ok(v as i16)
    }
}

impl WireFormat for u32 {
    open spec fn wire(&self) -> Wire {
        bytes_wire(u32_wire(*self))
    }

    open spec fn parse(input: Wire) -> Result<(u32, Wire), Error> {
        parse_u32(input)
    }

    proof fn lemma_wire_roundtrip(&self, rest: Wire) {
        lemma_parse_u32_wire(*self, rest);
    }

    proof fn lemma_parse_prefix(input: Wire, more: Wire) {
        lemma_parse_u32_prefix(input, more);
    }

    proof fn lemma_parse_suffix(input: Wire) {
        if input.0.len() >= 4 {
            lemma_skip_suffix(input, 4);
        }
    }

    fn put(&self, buf: &mut IPCBuffer) -> (r: Result<(), Error>) {
        let bytes = u32_to_le_bytes(*self);
        put_bytes(buf, bytes.as_slice())
    }

    fn take(buf: &mut IPCBuffer) -> (r: Result<u32, Error>) {
        let v = match buf.front_bytes(4) {
            Ok(s) => u32_from_le_bytes(s),
            Err(e) => {
                return Err(e);
            },
        };
        buf.pop_front_bytes(4);
        Ok(v)
    }
}

impl WireFormat for i32 {
    open spec fn wire(&self) -> Wire {
        bytes_wire(u32_wire(*self as u32))
    }

    open spec fn parse(input: Wire) -> Result<(i32, Wire), Error> {
        map_parsed(parse_u32(input), |v: u32| v as i32)
    }

    proof fn lemma_wire_roundtrip(&self, rest: Wire) {
        let v = *self;
        lemma_parse_u32_wire(v as u32, rest);
        assert((v as u32) as i32 == v) by (bit_vector);
    }

    proof fn lemma_parse_prefix(input: Wire, more: Wire) {
        lemma_parse_u32_prefix(input, more);
    }

    proof fn lemma_parse_suffix(input: Wire) {
        if input.0.len() >= 4 {
            lemma_skip_suffix(input, 4);
        }
    }

    fn put(&self, buf: &mut IPCBuffer) -> (r: Result<(), Error>) {
        let bytes = u32_to_le_bytes(*self as u32);
        put_bytes(buf, bytes.as_slice())
    }

    fn take(buf: &mut IPCBuffer) -> (r: Result<i32, Error>) {
        let v = u32::take(buf)?;
        Ok(v as i32)
    }
}

impl WireFormat for u64 {
    open spec fn wire(&self) -> Wire {
        bytes_wire(u64_wire(*self))
    }

    open spec fn parse(input: Wire) -> Result<(u64, Wire), Error> {
        parse_u64(input)
    }

    proof fn lemma_wire_roundtrip(&self, rest: Wire) {
        lemma_parse_u64_wire(*self, rest);
    }

    proof fn lemma_parse_prefix(input: Wire, more: Wire) {
        lemma_parse_u64_prefix(input, more);
    }

    proof fn lemma_parse_suffix(input: Wire) {
        if input.0.len() >= 8 {
            lemma_skip_suffix(input, 8);
        }
    }

    fn put(&self, buf: &mut IPCBuffer) -> (r: Result<(), Error>) {
        let bytes = u64_to_le_bytes(*self);
        put_bytes(buf, bytes.as_slice())
    }

    fn take(buf: &mut IPCBuffer) -> (r: Result<u64, Error>) {
        let v = match buf.front_bytes(8) {
            Ok(s) => u64_from_le_bytes(s),
            Err(e) => {
                return Err(e);
            },
        };
        buf.pop_front_bytes(8);
        Ok(v)
    }
}

impl WireFormat for i64 {
    open spec fn wire(&self) -> Wire {
        bytes_wire(u64_wire(*self as u64))
    }

    open spec fn parse(input: Wire) -> Result<(i64, Wire), Error> {
        map_parsed(parse_u64(input), |v: u64| v as i64)
    }

    proof fn lemma_wire_roundtrip(&self, rest: Wire) {
        let v = *self;
        lemma_parse_u64_wire(v as u64, rest);
        assert((v as u64) as i64 == v) by (bit_vector);
    }

    proof fn lemma_parse_prefix(input: Wire, more: Wire) {
        lemma_parse_u64_prefix(input, more);
    }

    proof fn lemma_parse_suffix(input: Wire) {
        if input.0.len() >= 8 {
            lemma_skip_suffix(input, 8);
        }
    }

    fn put(&self, buf: &mut IPCBuffer) -> (r: Result<(), Error>) {
        let bytes = u64_to_le_bytes(*self as u64);
        put_bytes(buf, bytes.as_slice())
    }

    fn take(buf: &mut IPCBuffer) -> (r: Result<i64, Error>) {
        let v = u64::take(buf)?;
        Ok(v as i64)
    }
}

/// A `usize` travels as a `u64`; a value that does not fit the reader's `usize` is
/// refused.
impl WireFormat for usize {
    open spec fn wire(&self) -> Wire {
        bytes_wire(u64_wire(*self as u64))
    }

    open spec fn parse(input: Wire) -> Result<(usize, Wire), Error> {
        match parse_u64(input) {
            Ok((v, rest)) => if v <= usize::MAX {
                Ok((v as usize, rest))
            } else {
                Err(Error::Deserialize)
            },
            Err(e) => Err(e),
        }
    }

    proof fn lemma_wire_roundtrip(&self, rest: Wire) {
        lemma_parse_u64_wire(*self as u64, rest);
    }

    proof fn lemma_parse_prefix(input: Wire, more: Wire) {
        lemma_parse_u64_prefix(input, more);
    }

    proof fn lemma_parse_suffix(input: Wire) {
        if input.0.len() >= 8 {
            lemma_skip_suffix(input, 8);
        }
    }

    fn put(&self, buf: &mut IPCBuffer) -> (r: Result<(), Error>) {
        let bytes = u64_to_le_bytes(*self as u64);
        put_bytes(buf, bytes.as_slice())
    }

    fn take(buf: &mut IPCBuffer) -> (r: Result<usize, Error>) {
        let v = u64::take(buf)?;
        if v <= usize::MAX as u64 {
            Ok(v as usize)
        } else {
            Err(Error::Deserialize)
        }
    }
}

/// An `isize` travels as an `i64`; a value that does not fit the reader's `isize` is
/// refused.
impl WireFormat for isize {
    open spec fn wire(&self) -> Wire {
        bytes_wire(u64_wire((*self as i64) as u64))
    }

    open spec fn parse(input: Wire) -> Result<(isize, Wire), Error> {
        match parse_u64(input) {
            Ok((v, rest)) => if isize::MIN <= (v as i64) <= isize::MAX {
                Ok(((v as i64) as isize, rest))
            } else {
                Err(Error::Deserialize)
            },
            Err(e) => Err(e),
        }
    }

    proof fn lemma_wire_roundtrip(&self, rest: Wire) {
        let v = *self as i64;
        lemma_parse_u64_wire(v as u64, rest);
        assert((v as u64) as i64 == v) by (bit_vector);
    }

    proof fn lemma_parse_prefix(input: Wire, more: Wire) {
        lemma_parse_u64_prefix(input, more);
    }

    proof fn lemma_parse_suffix(input: Wire) {
        if input.0.len() >= 8 {
            lemma_skip_suffix(input, 8);
        }
    }

    fn put(&self, buf: &mut IPCBuffer) -> (r: Result<(), Error>) {
        let bytes = u64_to_le_bytes((*self as i64) as u64);
        put_bytes(buf, bytes.as_slice())
    }

    fn take(buf: &mut IPCBuffer) -> (r: Result<isize, Error>) {
        let v = u64::take(buf)?;
        let w = v as i64;
        if isize::MIN as i64 <= w && w <= isize::MAX as i64 {
            Ok(w as isize)
        } else {
            Err(Error::Deserialize)
        }
    }
}

/// A file descriptor travels in the file queue.
impl WireFormat for SysFd {
    open spec fn wire(&self) -> Wire {
        file_wire(*self)
    }

    open spec fn parse(input: Wire) -> Result<(SysFd, Wire), Error> {
        if input.1.len() > 0 {
            Ok((input.1[0], (input.0, input.1.drop_first())))
        } else {
            Err(Error::UnexpectedEnd)
        }
    }

    proof fn lemma_wire_roundtrip(&self, rest: Wire) {
        let input = cat(file_wire(*self), rest);
        assert(input.0 =~= rest.0);
        assert(input.1.drop_first() =~= rest.1);
    }

    proof fn lemma_parse_prefix(input: Wire, more: Wire) {
        assert((input.1 + more.1).drop_first() =~= input.1.drop_first() + more.1);
    }

    proof fn lemma_parse_suffix(input: Wire) {
        assert(input.0 =~= input.0.skip(0));
        assert(input.1.drop_first() =~= input.1.skip(1));
    }

    fn put(&self, buf: &mut IPCBuffer) -> (r: Result<(), Error>) {
        proof {
            old(buf).lemma_rooms();
        }
        let r = buf.push_back_file(*self);
        proof {
            if r is Ok {
                assert(pending(*buf).0 =~= cat(pending(*old(buf)), file_wire(*self)).0);
                assert(pending(*buf).1 =~= cat(pending(*old(buf)), file_wire(*self)).1);
            }
        }
        r
    }

    fn take(buf: &mut IPCBuffer) -> (r: Result<SysFd, Error>) {
        buf.pop_front_file()
    }
}

/// The unit value takes no space.
impl WireFormat for () {
    open spec fn wire(&self) -> Wire {
        no_wire()
    }

    open spec fn parse(input: Wire) -> Result<((), Wire), Error> {
        Ok(((), input))
    }

    proof fn lemma_wire_roundtrip(&self, rest: Wire) {
        lemma_cat_no_wire(rest);
    }

    proof fn lemma_parse_prefix(input: Wire, more: Wire) {
    }

    proof fn lemma_parse_suffix(input: Wire) {
        lemma_suffix_refl(input);
    }

    fn put(&self, buf: &mut IPCBuffer) -> (r: Result<(), Error>) {
        proof {
            buf.lemma_rooms();
            lemma_cat_no_wire(pending(*buf));
        }
        Ok(())
    }

    fn take(buf: &mut IPCBuffer) -> (r: Result<(), Error>) {
        Ok(())
    }
}

/// `None` is the tag byte 0; `Some` is the tag byte 1 followed by the value.
impl<T: WireFormat> WireFormat for Option<T> {
    open spec fn wire(&self) -> Wire {
        match self {
            None => byte_wire(0),
            Some(v) => cat(byte_wire(1), v.wire()),
        }
    }

    closed spec fn parse(input: Wire) -> Result<(Option<T>, Wire), Error> {
        match parse_byte(input) {
            Ok((b, rest)) => if b == 0 {
                Ok((None, rest))
            } else if b == 1 {
                map_parsed(T::parse(rest), |v: T| Some(v))
            } else {
                Err(Error::InvalidValue)
            },
            Err(e) => Err(e),
        }
    }

    proof fn lemma_wire_roundtrip(&self, rest: Wire) {
        match self {
            None => {
                lemma_parse_byte_wire(0, rest);
            },
            Some(v) => {
                lemma_cat_assoc(byte_wire(1), v.wire(), rest);
                lemma_parse_byte_wire(1, cat(v.wire(), rest));
                v.lemma_wire_roundtrip(rest);
            },
        }
    }

    proof fn lemma_parse_prefix(input: Wire, more: Wire) {
        lemma_parse_byte_prefix(input, more);
        let (b, rest) = parse_byte(input)->Ok_0;
        if b == 1 {
            T::lemma_parse_prefix(rest, more);
        }
    }

    proof fn lemma_parse_suffix(input: Wire) {
        lemma_parse_byte_suffix(input);
        let (b, rest) = parse_byte(input)->Ok_0;
        if b == 1 {
            T::lemma_parse_suffix(rest);
            lemma_suffix_trans(input, rest, T::parse(rest)->Ok_0.1);
        }
    }

    fn put(&self, buf: &mut IPCBuffer) -> (r: Result<(), Error>) {
        match self {
            None => put_byte(buf, 0),
            Some(v) => put_tagged(buf, 1, v),
        }
    }

    fn take(buf: &mut IPCBuffer) -> (r: Result<Option<T>, Error>) {
        let b = take_byte(buf)?;
        if b == 0 {
            Ok(None)
        } else if b == 1 {
            let v = T::take(buf)?;
            Ok(Some(v))
        } else {
            Err(Error::InvalidValue)
        }
    }
}

/// `Ok` is the variant byte 0 and `Err` the variant byte 1, each followed by its value.
impl<T: WireFormat, E: WireFormat> WireFormat for Result<T, E> {
    open spec fn wire(&self) -> Wire {
        match self {
            Ok(v) => cat(byte_wire(0), v.wire()),
            Err(e) => cat(byte_wire(1), e.wire()),
        }
    }

    closed spec fn parse(input: Wire) -> Result<(Result<T, E>, Wire), Error> {
        match parse_byte(input) {
            Ok((b, rest)) => if b == 0 {
                map_parsed(T::parse(rest), |v: T| Ok::<T, E>(v))
            } else if b == 1 {
                map_parsed(E::parse(rest), |e: E| Err::<T, E>(e))
            } else {
                Err(Error::Deserialize)
            },
            Err(e) => Err(e),
        }
    }

    proof fn lemma_wire_roundtrip(&self, rest: Wire) {
        match self {
            Ok(v) => {
                lemma_cat_assoc(byte_wire(0), v.wire(), rest);
                lemma_parse_byte_wire(0, cat(v.wire(), rest));
                v.lemma_wire_roundtrip(rest);
            },
            Err(e) => {
                lemma_cat_assoc(byte_wire(1), e.wire(), rest);
                lemma_parse_byte_wire(1, cat(e.wire(), rest));
                e.lemma_wire_roundtrip(rest);
            },
        }
    }

    proof fn lemma_parse_prefix(input: Wire, more: Wire) {
        lemma_parse_byte_prefix(input, more);
        let (b, rest) = parse_byte(input)->Ok_0;
        if b == 0 {
            T::lemma_parse_prefix(rest, more);
        } else if b == 1 {
            E::lemma_parse_prefix(rest, more);
        }
    }

    proof fn lemma_parse_suffix(input: Wire) {
        lemma_parse_byte_suffix(input);
        let (b, rest) = parse_byte(input)->Ok_0;
        if b == 0 {
            T::lemma_parse_suffix(rest);
            lemma_suffix_trans(input, rest, T::parse(rest)->Ok_0.1);
        } else if b == 1 {
            E::lemma_parse_suffix(rest);
            lemma_suffix_trans(input, rest, E::parse(rest)->Ok_0.1);
        }
    }

    fn put(&self, buf: &mut IPCBuffer) -> (r: Result<(), Error>) {
        match self {
            Ok(v) => put_tagged(buf, 0, v),
            Err(e) => put_tagged(buf, 1, e),
        }
    }

    fn take(buf: &mut IPCBuffer) -> (r: Result<Result<T, E>, Error>) {
        let b = take_byte(buf)?;
        if b == 0 {
            let v = T::take(buf)?;
            Ok(Ok(v))
        } else if b == 1 {
            let e = E::take(buf)?;
            Ok(Err(e))
        } else {
            Err(Error::Deserialize)
        }
    }
}

/// A pair is its first value followed by its second.
impl<A: WireFormat, B: WireFormat> WireFormat for (A, B) {
    open spec fn wire(&self) -> Wire {
        cat(self.0.wire(), self.1.wire())
    }

    closed spec fn parse(input: Wire) -> Result<((A, B), Wire), Error> {
        match A::parse(input) {
            Ok((a, rest)) => match B::parse(rest) {
                Ok((b, rest2)) => Ok(((a, b), rest2)),
                Err(e) => Err(e),
            },
            Err(e) => Err(e),
        }
    }

    proof fn lemma_wire_roundtrip(&self, rest: Wire) {
        lemma_cat_assoc(self.0.wire(), self.1.wire(), rest);
        self.0.lemma_wire_roundtrip(cat(self.1.wire(), rest));
        self.1.lemma_wire_roundtrip(rest);
    }

    proof fn lemma_parse_prefix(input: Wire, more: Wire) {
        A::lemma_parse_prefix(input, more);
        let rest = A::parse(input)->Ok_0.1;
        B::lemma_parse_prefix(rest, more);
    }

    proof fn lemma_parse_suffix(input: Wire) {
        A::lemma_parse_suffix(input);
        let rest = A::parse(input)->Ok_0.1;
        B::lemma_parse_suffix(rest);
        lemma_suffix_trans(input, rest, B::parse(rest)->Ok_0.1);
    }

    fn put(&self, buf: &mut IPCBuffer) -> (r: Result<(), Error>) {
        let ghost s0 = *buf;
        let r1 = self.0.put(buf);
        if r1.is_err() {
            proof {
                lemma_put_failed(s0, *buf, r1, self.0.wire(), self.1.wire());
            }
            return r1;
        }
        let ghost s1 = *buf;
        let r2 = self.1.put(buf);
        proof {
            lemma_put_then(s0, s1, *buf, r1, r2, self.0.wire(), self.1.wire());
        }
        r2
    }

    fn take(buf: &mut IPCBuffer) -> (r: Result<(A, B), Error>) {
        let a = A::take(buf)?;
        let b = B::take(buf)?;
        Ok((a, b))
    }
}

/// What `pop_front` does with the front of the queues: the reader's result, and on an
/// error nothing consumed.
pub open spec fn pop_outcome<T>(
    old: IPCBuffer,
    new: IPCBuffer,
    r: Result<T, Error>,
    p: Result<(T, Wire), Error>,
) -> bool {
    &&& new.wf()
    &&& match p {
        Ok((v, rest)) => r == Ok::<T, Error>(v) && pending(new) == rest,
        Err(e) => r == Err::<T, Error>(e) && pending(new) == pending(old),
    }
}

/// Pushing a value on an empty buffer and popping gives back the value, and leaves the
/// buffer empty.
pub proof fn lemma_push_then_pop<T: WireFormat>(b0: IPCBuffer, b1: IPCBuffer, v: T)
    requires
        pending(b0) == no_wire(),
        appended(b0, b1, v.wire()),
    ensures
        parsed_as(T::parse(pending(b1)), v, no_wire()),
{
    lemma_cat_no_wire(v.wire());
    v.lemma_wire_roundtrip(no_wire());
}

/// Pushing does not change what the front of a buffer reads as: what could be read before
/// reads the same way after, with the pushed value left behind it.
pub proof fn lemma_push_keeps_front<T: WireFormat, U: WireFormat>(
    b0: IPCBuffer,
    b1: IPCBuffer,
    v: T,
)
    requires
        appended(b0, b1, v.wire()),
        U::parse(pending(b0)) is Ok,
    ensures
        parsed_as(
            U::parse(pending(b1)),
            U::parse(pending(b0))->Ok_0.0,
            cat(U::parse(pending(b0))->Ok_0.1, v.wire()),
        ),
{
    U::lemma_parse_prefix(pending(b0), v.wire());
}

/// Values come out in the order they went in: after pushing `u` and then `v` on an empty
/// buffer, the first pop reads `u` and leaves exactly `v`, which the second pop reads.
pub proof fn lemma_fifo<T: WireFormat, U: WireFormat>(
    b0: IPCBuffer,
    b1: IPCBuffer,
    b2: IPCBuffer,
    u: U,
    v: T,
)
    requires
        pending(b0) == no_wire(),
        appended(b0, b1, u.wire()),
        appended(b1, b2, v.wire()),
    ensures
        parsed_as(U::parse(pending(b2)), u, v.wire()),
        parsed_as(T::parse(v.wire()), v, no_wire()),
{
    lemma_push_then_pop(b0, b1, u);
    lemma_push_keeps_front::<T, U>(b1, b2, v);
    lemma_cat_no_wire(v.wire());
    v.lemma_wire_roundtrip(no_wire());
}

/// A pop that succeeds leaves pending what followed the value it read: a suffix of what
/// was pending, in both queues. (A pop that fails leaves everything pending.)
pub proof fn lemma_pop_leaves_suffix<T: WireFormat>(
    old: IPCBuffer,
    new: IPCBuffer,
    r: Result<T, Error>,
)
    requires
        pop_outcome(old, new, r, T::parse(pending(old))),
        r is Ok,
    ensures
        suffix_of(pending(new), pending(old)),
{
    T::lemma_parse_suffix(pending(old));
}

impl IPCBuffer {
    /// Append a value: `Ok` exactly when all of it fits, else `BufferFull`.
    pub fn push_back<T: WireFormat>(&mut self, message: &T) -> (r: Result<(), Error>)
        requires
            old(self).wf(),
        ensures
            put_outcome(*old(self), *final(self), r, message.wire()),
    {
        message.put(self)
    }

    /// Read a value from the front. A read that fails consumes nothing, so it can be
    /// tried again once more data has arrived.
    pub fn pop_front<T: WireFormat>(&mut self) -> (r: Result<T, Error>)
        requires
            old(self).wf(),
        ensures
            pop_outcome(*old(self), *final(self), r, T::parse(pending(*old(self)))),
    {
        let saved = self.save_position();
        let r = T::take(self);
        if r.is_err() {
            self.restore_position(saved);
        }
        r
    }
}

} // verus!
