//! Small byte-stream parsers, used to read procfs text such as `/proc/<pid>/maps`.
//!
//! A [`Stream`] is modelled by the sequence of bytes it has not yet handed out.
//! Every combinator states exactly how many bytes it consumes and what it returns
//! as a function of that sequence.
use vstd::prelude::*;

verus! {

/// What `peek` returns for a stream whose unread bytes are `s`.
pub open spec fn peek_of(s: Seq<u8>) -> Option<Result<u8, ()>> {
    if s.len() == 0 {
        None
    } else {
        Some(Ok(s[0]))
    }
}

/// The unread bytes after one byte has been taken from `s` (nothing happens at the end).
pub open spec fn after_next(s: Seq<u8>) -> Seq<u8> {
    if s.len() == 0 {
        s
    } else {
        s.drop_first()
    }
}

/// A source of bytes that can be inspected one byte ahead.
pub trait Stream {
    /// The bytes this stream will still produce, in order.
    spec fn rest(&self) -> Seq<u8>;

    /// Look at the next byte without consuming it.
    fn peek(&mut self) -> (r: Option<Result<u8, ()>>)
        ensures
            final(self).rest() == old(self).rest(),
            r == peek_of(old(self).rest()),
    ;

    /// Consume and return the next byte.
    fn next(&mut self) -> (r: Option<Result<u8, ()>>)
        ensures
            final(self).rest() == after_next(old(self).rest()),
            r == peek_of(old(self).rest()),
    ;
}

/// A stream over an in-memory byte buffer.
pub struct ByteReader {
    buf: Vec<u8>,
    buf_position: usize,
}

impl ByteReader {
    #[verifier::type_invariant]
    spec fn position_in_buffer(self) -> bool {
        self.buf_position <= self.buf.len()
    }

    /// A reader that produces exactly `bytes`.
    pub fn from_bytes(bytes: &[u8]) -> (r: Self)
        ensures
            r.rest() == bytes@,
    {
        let buf = vstd::slice::slice_to_vec(bytes);
        let r = ByteReader { buf, buf_position: 0 };
        assert(r.buf@.skip(0) =~= bytes@);
        r
    }
}

impl Stream for ByteReader {
    closed spec fn rest(&self) -> Seq<u8> {
        self.buf@.skip(self.buf_position as int)
    }

    fn peek(&mut self) -> (r: Option<Result<u8, ()>>) {
        proof {
            use_type_invariant(&*self);
        }
        if self.buf_position == self.buf.len() {
            None
        } else {
            let byte = self.buf[self.buf_position];
            Some(Ok(byte))
        }
    }

    fn next(&mut self) -> (r: Option<Result<u8, ()>>) {
        proof {
            use_type_invariant(&*self);
        }
        if self.buf_position == self.buf.len() {
            None
        } else {
            let byte = self.buf[self.buf_position];
            self.buf_position = self.buf_position + 1;
            proof {
                assert(self.buf@.skip(self.buf_position as int) =~= old(self).buf@.skip(
                    old(self).buf_position as int,
                ).drop_first());
            }
            Some(Ok(byte))
        }
    }
}

/// Where a reader over a file stands: the offset of its next read, and whether the file
/// has ended. Reads go to increasing offsets only, which is what `seq_file` files in
/// procfs need: they regenerate their contents only on a read at offset 0.
#[derive(Debug, Clone, Copy, PartialEq, Eq, Structural)]
pub struct FileReadState {
    pub position: usize,
    pub open: bool,
}

/// What a reader does when asked for a byte.
#[derive(Debug, Clone, Copy, PartialEq, Eq, Structural)]
pub enum ReadStep {
    /// Bytes are still buffered: use them.
    Buffered,
    /// The buffer is drained: read the file at this offset into it.
    Read(usize),
    /// The buffer is drained and the file has ended.
    Ended,
}

impl FileReadState {
    /// A reader at the start of its file.
    pub fn new() -> (r: Self)
        ensures
            r.position == 0,
            r.open,
    {
        FileReadState { position: 0, open: true }
    }

    /// The step for a reader whose buffer is `drained` or not: only a drained buffer is
    /// refilled, and only while the file is open.
    pub fn step(&self, drained: bool) -> (r: ReadStep)
        ensures
            !drained ==> r == ReadStep::Buffered,
            drained && self.open ==> r == ReadStep::Read(self.position),
            drained && !self.open ==> r == ReadStep::Ended,
    {
        if !drained {
            ReadStep::Buffered
        } else if self.open {
            ReadStep::Read(self.position)
        } else {
            ReadStep::Ended
        }
    }

    /// Account for a read of up to `capacity` bytes that returned `result`: a negative
    /// result is an error; otherwise that many bytes were read, the next read starts after
    /// them, and a read of nothing ends the file for good.
    pub fn record_read(&mut self, result: isize, capacity: usize) -> (r: Result<usize, ()>)
        requires
            result <= capacity,
            old(self).position + capacity <= usize::MAX,
        ensures
            result < 0 ==> r is Err && *final(self) == *old(self),
            result >= 0 ==> r == Ok::<usize, ()>(result as usize) && final(self).position
                == old(self).position + result && final(self).open == (old(self).open && result
                != 0),
    {
        if result < 0 {
            return Err(());
        }
        let n = result as usize;
        self.position = self.position + n;
        if n == 0 {
            self.open = false;
        }
        Ok(n)
    }
}

/// Number of leading bytes of `s` that differ from `delimiter`.
pub open spec fn count_until(s: Seq<u8>, delimiter: u8) -> nat
    decreases s.len(),
{
    if s.len() == 0 || s[0] == delimiter {
        0
    } else {
        1 + count_until(s.drop_first(), delimiter)
    }
}

pub proof fn lemma_count_until_bound(s: Seq<u8>, d: u8)
    ensures
        count_until(s, d) <= s.len(),
        count_until(s, d) < s.len() ==> s[count_until(s, d) as int] == d,
        forall|i: int| 0 <= i < count_until(s, d) ==> s[i] != d,
    decreases s.len(),
{
    if s.len() > 0 && s[0] != d {
        lemma_count_until_bound(s.drop_first(), d);
        assert forall|i: int| 0 <= i < count_until(s, d) implies s[i] != d by {
            if i > 0 {
                assert(s[i] == s.drop_first()[i - 1]);
            }
        }
    }
}

/// Skip bytes up to, but not including, the next `delimeter`.
/// Fails at the end of the stream, with everything consumed.
pub fn until_byte<T: Stream>(s: &mut T, delimeter: u8) -> (r: Result<(), ()>)
    ensures
        final(s).rest() == old(s).rest().skip(count_until(old(s).rest(), delimeter) as int),
        r is Ok <==> count_until(old(s).rest(), delimeter) < old(s).rest().len(),
{
    let ghost s0 = s.rest();
    let ghost mut k: int = 0;
    proof {
        lemma_count_until_bound(s0, delimeter);
        assert(s0.skip(0) =~= s0);
    }
    loop
        invariant
            0 <= k <= s0.len(),
            s0 == old(s).rest(),
            s.rest() == s0.skip(k),
            count_until(s0, delimeter) == k + count_until(s0.skip(k), delimeter),
            count_until(s0, delimeter) <= s0.len(),
        decreases s0.len() - k,
    {
        match s.peek() {
            Some(Ok(byte)) => {
                if byte == delimeter {
                    return Ok(());
                }
                s.next();
                proof {
                    assert(s0.skip(k).drop_first() =~= s0.skip(k + 1));
                    k = k + 1;
                }
            },
            _ => {
                proof {
                    assert(s0.skip(k).len() == 0);
                }
                return Err(());
            },
        }
    }
}

/// Skip bytes up to and including the next `delimeter`.
pub fn until_byte_inclusive<T: Stream>(s: &mut T, delimeter: u8) -> (r: Result<(), ()>)
    ensures
        ({
            let n = count_until(old(s).rest(), delimeter);
            &&& r is Ok <==> n < old(s).rest().len()
            &&& r is Ok ==> final(s).rest() == old(s).rest().skip(n + 1int)
            &&& r is Err ==> final(s).rest() == old(s).rest().skip(n as int)
        }),
{
    let ghost s0 = s.rest();
    proof {
        lemma_count_until_bound(s0, delimeter);
    }
    match until_byte(s, delimeter) {
        Ok(()) => {
            let r = byte(s, delimeter);
            proof {
                let n = count_until(s0, delimeter);
                assert(s0.skip(n as int).drop_first() =~= s0.skip(n + 1int));
            }
            r
        },
        Err(()) => Err(()),
    }
}

/// Consume one byte equal to `template`.
pub fn byte<T: Stream>(s: &mut T, template: u8) -> (r: Result<(), ()>)
    ensures
        r is Ok <==> (old(s).rest().len() > 0 && old(s).rest()[0] == template),
        r is Ok ==> final(s).rest() == old(s).rest().drop_first(),
        r is Err ==> final(s).rest() == old(s).rest(),
{
    match s.peek() {
        Some(Ok(b)) => {
            if b == template {
                s.next();
                Ok(())
            } else {
                Err(())
            }
        },
        _ => Err(()),
    }
}

/// Number of leading positions where `t` and `s` agree.
pub open spec fn match_len(t: Seq<u8>, s: Seq<u8>) -> nat
    decreases t.len(),
{
    if t.len() == 0 || s.len() == 0 || t[0] != s[0] {
        0
    } else {
        1 + match_len(t.drop_first(), s.drop_first())
    }
}

pub proof fn lemma_match_len(t: Seq<u8>, s: Seq<u8>)
    ensures
        match_len(t, s) <= t.len(),
        match_len(t, s) <= s.len(),
        match_len(t, s) == t.len() <==> (t.len() <= s.len() && s.take(t.len() as int) =~= t),
    decreases t.len(),
{
    if t.len() == 0 || s.len() == 0 || t[0] != s[0] {
        if t.len() > 0 && t.len() <= s.len() {
            assert(s.take(t.len() as int)[0] == s[0]);
        }
    } else {
        lemma_match_len(t.drop_first(), s.drop_first());
        if t.len() <= s.len() {
            if s.drop_first().take(t.len() - 1) =~= t.drop_first() {
                assert forall|i: int| 0 <= i < t.len() implies s.take(t.len() as int)[i] == t[i] by {
                    if i > 0 {
                        assert(s.drop_first().take(t.len() - 1)[i - 1] == t.drop_first()[i - 1]);
                    }
                }
                assert(s.take(t.len() as int) =~= t);
            }
            if s.take(t.len() as int) =~= t {
                assert(s.drop_first().take(t.len() - 1) =~= t.drop_first());
            }
        }
    }
}

/// Consume the bytes of `template`, in order. On failure, the bytes that did match stay consumed.
pub fn bytes<T: Stream>(s: &mut T, template: &[u8]) -> (r: Result<(), ()>)
    ensures
        final(s).rest() == old(s).rest().skip(match_len(template@, old(s).rest()) as int),
        r is Ok <==> match_len(template@, old(s).rest()) == template@.len(),
{
    let ghost s0 = s.rest();
    let ghost t = template@;
    proof {
        lemma_match_len(t, s0);
        assert(s0.skip(0) =~= s0);
        assert(t.skip(0) =~= t);
    }
    let mut i: usize = 0;
    while i < template.len()
        invariant
            0 <= i <= template@.len(),
            t == template@,
            s0 == old(s).rest(),
            i <= s0.len(),
            s.rest() == s0.skip(i as int),
            match_len(t, s0) == i + match_len(t.skip(i as int), s0.skip(i as int)),
        decreases template@.len() - i,
    {
        let b = template[i];
        let r = byte(s, b);
        proof {
            assert(t.skip(i as int)[0] == b);
        }
        if r.is_err() {
            return Err(());
        }
        proof {
            assert(t.skip(i as int).drop_first() =~= t.skip(i + 1));
            assert(s0.skip(i as int).drop_first() =~= s0.skip(i + 1));
        }
        i = i + 1;
    }
    Ok(())
}

pub open spec fn is_blank(b: u8) -> bool {
    b == 32u8 || b == 9u8
}

/// Number of leading spaces and tabs in `s`.
pub open spec fn count_blanks(s: Seq<u8>) -> nat
    decreases s.len(),
{
    if s.len() == 0 || !is_blank(s[0]) {
        0
    } else {
        1 + count_blanks(s.drop_first())
    }
}

pub proof fn lemma_count_blanks_bound(s: Seq<u8>)
    ensures
        count_blanks(s) <= s.len(),
    decreases s.len(),
{
    if s.len() > 0 && is_blank(s[0]) {
        lemma_count_blanks_bound(s.drop_first());
    }
}

/// Consume one space or tab.
pub fn space<T: Stream>(s: &mut T) -> (r: Result<(), ()>)
    ensures
        r is Ok <==> (old(s).rest().len() > 0 && is_blank(old(s).rest()[0])),
        r is Ok ==> final(s).rest() == old(s).rest().drop_first(),
        r is Err ==> final(s).rest() == old(s).rest(),
{
    match byte(s, 32u8) {
        Ok(()) => Ok(()),
        Err(()) => byte(s, 9u8),
    }
}

/// Consume a run of at least one space or tab.
pub fn spaces<T: Stream>(s: &mut T) -> (r: Result<(), ()>)
    ensures
        r is Ok <==> count_blanks(old(s).rest()) > 0,
        final(s).rest() == old(s).rest().skip(count_blanks(old(s).rest()) as int),
{
    let ghost s0 = s.rest();
    proof {
        lemma_count_blanks_bound(s0);
        assert(s0.skip(0) =~= s0);
    }
    if space(s).is_err() {
        return Err(());
    }
    let ghost mut k: int = 1;
    proof {
        assert(s0.drop_first() =~= s0.skip(1));
    }
    loop
        invariant
            1 <= k <= s0.len(),
            s0 == old(s).rest(),
            s.rest() == s0.skip(k),
            count_blanks(s0) == k + count_blanks(s0.skip(k)),
        decreases s0.len() - k,
    {
        if space(s).is_err() {
            return Ok(());
        }
        proof {
            assert(s0.skip(k).drop_first() =~= s0.skip(k + 1));
            k = k + 1;
        }
    }
}

/// Succeed only at the end of the stream.
pub fn eof<T: Stream>(s: &mut T) -> (r: Result<(), ()>)
    ensures
        r is Ok <==> old(s).rest().len() == 0,
        final(s).rest() == old(s).rest(),
{
    match s.peek() {
        None => Ok(()),
        _ => Err(()),
    }
}

pub open spec fn is_dec_digit(b: u8) -> bool {
    48u8 <= b <= 57u8
}

/// Number of leading decimal digits in `s`.
pub open spec fn count_dec(s: Seq<u8>) -> nat
    decreases s.len(),
{
    if s.len() == 0 || !is_dec_digit(s[0]) {
        0
    } else {
        1 + count_dec(s.drop_first())
    }
}

pub proof fn lemma_count_dec_bound(s: Seq<u8>)
    ensures
        count_dec(s) <= s.len(),
    decreases s.len(),
{
    if s.len() > 0 && is_dec_digit(s[0]) {
        lemma_count_dec_bound(s.drop_first());
    }
}

/// The value of a string of decimal digits, kept modulo 2^64 as `u64` arithmetic does.
pub open spec fn dec_value(digits: Seq<u8>) -> u64
    decreases digits.len(),
{
    if digits.len() == 0 {
        0
    } else {
        ((dec_value(digits.drop_last()) as nat * 10 + (digits.last() - 48)) % 0x1_0000_0000_0000_0000) as u64
    }
}

/// Parse an unsigned decimal number; at least one digit is required.
pub fn u64_dec<T: Stream>(s: &mut T) -> (r: Result<u64, ()>)
    ensures
        r is Ok <==> count_dec(old(s).rest()) > 0,
        r matches Ok(v) ==> v == dec_value(old(s).rest().take(count_dec(old(s).rest()) as int)),
        final(s).rest() == old(s).rest().skip(count_dec(old(s).rest()) as int),
{
    let ghost s0 = s.rest();
    proof {
        lemma_count_dec_bound(s0);
        assert(s0.skip(0) =~= s0);
    }
    match s.peek() {
        Some(Ok(first)) => {
            if !(48u8 <= first && first <= 57u8) {
                return Err(());
            }
        },
        _ => {
            return Err(());
        },
    }
    let mut value: u64 = 0;
    let ghost mut k: int = 0;
    proof {
        assert(s0.take(0) =~= Seq::<u8>::empty());
    }
    loop
        invariant
            0 <= k <= s0.len(),
            s0 == old(s).rest(),
            s.rest() == s0.skip(k),
            count_dec(s0) == k + count_dec(s0.skip(k)),
            count_dec(s0) > 0,
            value == dec_value(s0.take(k)),
        decreases s0.len() - k,
    {
        match s.peek() {
            Some(Ok(b)) => {
                let digit = (b as u64).wrapping_sub(48u64);
                if digit < 10 {
                    s.next();
                    let ghost old_value = value;
                    value = value.wrapping_mul(10).wrapping_add(digit);
                    proof {
                        assert(is_dec_digit(b));
                        assert(digit == b - 48);
                        vstd::arithmetic::div_mod::lemma_add_mod_noop(
                            old_value as int * 10,
                            digit as int,
                            0x1_0000_0000_0000_0000,
                        );
                        vstd::arithmetic::div_mod::lemma_small_mod(
                            digit as nat,
                            0x1_0000_0000_0000_0000,
                        );
                        assert(s0.take(k + 1).drop_last() =~= s0.take(k));
                        assert(s0.skip(k).drop_first() =~= s0.skip(k + 1));
                        k = k + 1;
                    }
                } else {
                    proof {
                        assert(!is_dec_digit(b));
                    }
                    return Ok(value);
                }
            },
            _ => {
                return Ok(value);
            },
        }
    }
}

pub open spec fn is_hex_digit(b: u8) -> bool {
    (48u8 <= b <= 57u8) || (97u8 <= b <= 102u8) || (65u8 <= b <= 70u8)
}

pub open spec fn hex_digit_value(b: u8) -> int {
    if 48u8 <= b <= 57u8 {
        b - 48
    } else if 97u8 <= b <= 102u8 {
        b - 87
    } else {
        b - 55
    }
}

/// Number of leading hexadecimal digits in `s`.
pub open spec fn count_hex(s: Seq<u8>) -> nat
    decreases s.len(),
{
    if s.len() == 0 || !is_hex_digit(s[0]) {
        0
    } else {
        1 + count_hex(s.drop_first())
    }
}

pub proof fn lemma_count_hex_bound(s: Seq<u8>)
    ensures
        count_hex(s) <= s.len(),
    decreases s.len(),
{
    if s.len() > 0 && is_hex_digit(s[0]) {
        lemma_count_hex_bound(s.drop_first());
    }
}

/// The value of a string of hex digits, kept modulo 2^64 as `u64` arithmetic does.
pub open spec fn hex_value(digits: Seq<u8>) -> u64
    decreases digits.len(),
{
    if digits.len() == 0 {
        0
    } else {
        ((hex_value(digits.drop_last()) as nat * 16 + hex_digit_value(digits.last())) % 0x1_0000_0000_0000_0000) as u64
    }
}

proof fn lemma_shift_in_nibble(v: u64, d: u64)
    requires
        d < 16,
    ensures
        (v << 4u64) | d == ((v as nat * 16 + d) % 0x1_0000_0000_0000_0000) as u64,
{
    assert((v << 4u64) | d == (v << 4u64) + d) by (bit_vector)
        requires
            d < 16,
    ;
    assert(v << 4u64 == v.wrapping_mul(16)) by (bit_vector);
    vstd::arithmetic::div_mod::lemma_add_mod_noop(v as int * 16, d as int, 0x1_0000_0000_0000_0000);
    vstd::arithmetic::div_mod::lemma_small_mod(d as nat, 0x1_0000_0000_0000_0000);
}

/// Parse an unsigned hexadecimal number (either letter case); at least one digit is required.
pub fn u64_hex<T: Stream>(s: &mut T) -> (r: Result<u64, ()>)
    ensures
        r is Ok <==> count_hex(old(s).rest()) > 0,
        r matches Ok(v) ==> v == hex_value(old(s).rest().take(count_hex(old(s).rest()) as int)),
        final(s).rest() == old(s).rest().skip(count_hex(old(s).rest()) as int),
{
    let ghost s0 = s.rest();
    proof {
        lemma_count_hex_bound(s0);
        assert(s0.skip(0) =~= s0);
    }
    match s.peek() {
        Some(Ok(first)) => {
            if !((48u8 <= first && first <= 57u8) || (97u8 <= first && first <= 102u8) || (65u8
                <= first && first <= 70u8)) {
                return Err(());
            }
        },
        _ => {
            return Err(());
        },
    }
    let mut value: u64 = 0;
    let ghost mut k: int = 0;
    proof {
        assert(s0.take(0) =~= Seq::<u8>::empty());
    }
    loop
        invariant
            0 <= k <= s0.len(),
            s0 == old(s).rest(),
            s.rest() == s0.skip(k),
            count_hex(s0) == k + count_hex(s0.skip(k)),
            count_hex(s0) > 0,
            value == hex_value(s0.take(k)),
        decreases s0.len() - k,
    {
        match s.peek() {
            Some(Ok(b)) => {
                let digit: u8 = if 48u8 <= b && b <= 57u8 {
                    b - 48u8
                } else if 97u8 <= b && b <= 102u8 {
                    10 + b - 97u8
                } else if 65u8 <= b && b <= 70u8 {
                    10 + b - 65u8
                } else {
                    proof {
                        assert(!is_hex_digit(b));
                    }
                    return Ok(value);
                };
                s.next();
                let ghost old_value = value;
                value = (value << 4u64) | (digit as u64);
                proof {
                    lemma_shift_in_nibble(old_value, digit as u64);
                    assert(s0.take(k + 1).drop_last() =~= s0.take(k));
                    assert(s0.skip(k).drop_first() =~= s0.skip(k + 1));
                    k = k + 1;
                }
            },
            _ => {
                return Ok(value);
            },
        }
    }
}

/// Parse `0x` followed by a hexadecimal number.
pub fn u64_0x<T: Stream>(s: &mut T) -> (r: Result<u64, ()>)
    ensures
        ({
            let s0 = old(s).rest();
            let ok_prefix = s0.len() >= 2 && s0[0] == 48u8 && s0[1] == 120u8;
            let tail = s0.skip(2);
            &&& r is Ok <==> (ok_prefix && count_hex(tail) > 0)
            &&& r matches Ok(v) ==> v == hex_value(tail.take(count_hex(tail) as int))
            &&& ok_prefix ==> final(s).rest() == tail.skip(count_hex(tail) as int)
            &&& !ok_prefix ==> final(s).rest() == s0.skip(match_len(seq![48u8, 120u8], s0) as int)
        }),
{
    let ghost s0 = s.rest();
    let prefix: [u8; 2] = [48u8, 120u8];
    proof {
        lemma_match_len(prefix@, s0);
        assert(prefix@ =~= seq![48u8, 120u8]);
    }
    match bytes(s, &prefix) {
        Ok(()) => {
            proof {
                assert(s0.take(2)[0] == prefix@[0]);
                assert(s0.take(2)[1] == prefix@[1]);
            }
            u64_hex(s)
        },
        Err(()) => {
            proof {
                if s0.len() >= 2 && s0[0] == 48u8 && s0[1] == 120u8 {
                    assert(s0.take(2) =~= prefix@);
                }
            }
            Err(())
        },
    }
}

/// Consume `true_byte` (giving `true`) or `false_byte` (giving `false`).
pub fn flag<T: Stream>(s: &mut T, true_byte: u8, false_byte: u8) -> (r: Result<bool, ()>)
    ensures
        ({
            let s0 = old(s).rest();
            &&& r == (if s0.len() > 0 && s0[0] == true_byte {
                Ok(true)
            } else if s0.len() > 0 && s0[0] == false_byte {
                Ok(false)
            } else {
                Err(())
            })
            &&& r is Ok ==> final(s).rest() == s0.drop_first()
            &&& r is Err ==> final(s).rest() == s0
        }),
{
    match s.peek() {
        Some(Ok(b)) => {
            if b == true_byte {
                s.next();
                Ok(true)
            } else if b == false_byte {
                s.next();
                Ok(false)
            } else {
                Err(())
            }
        },
        _ => Err(()),
    }
}

/// A byte string to be recognised by [`switch`], with the value it stands for.
pub struct Token<'v, V> {
    bytes: &'static [u8],
    value: &'v V,
    state: usize,
}

impl<'v, V> Token<'v, V> {
    /// The bytes this token matches.
    pub closed spec fn pattern(&self) -> Seq<u8> {
        self.bytes@
    }

    /// The value this token yields when it matches.
    pub closed spec fn target(&self) -> &'v V {
        self.value
    }

    /// How many bytes of the pattern have matched so far (the pattern length once it failed).
    pub closed spec fn progress(&self) -> usize {
        self.state
    }

    pub fn new(bytes: &'static [u8], value: &'v V) -> (r: Self)
        ensures
            r.pattern() == bytes@,
            r.target() == value,
            r.progress() == 0,
    {
        Token { bytes, value, state: 0 }
    }

    /// Feed one input byte: `None` while the pattern still matches a proper prefix,
    /// `Some(Ok(value))` when it has just matched completely, `Some(Err(()))` once it fails.
    fn update(&mut self, byte: u8) -> (r: Option<Result<&'v V, ()>>)
        ensures
            final(self).pattern() == old(self).pattern(),
            final(self).target() == old(self).target(),
            ({
                let p = old(self).pattern();
                let st = old(self).progress();
                if st < p.len() && byte == p[st as int] {
                    &&& final(self).progress() == st + 1
                    &&& r == (if st + 1 == p.len() {
                        Some(Ok::<&'v V, ()>(old(self).target()))
                    } else {
                        None
                    })
                } else {
                    final(self).progress() == p.len() && r == Some(Err::<&'v V, ()>(()))
                }
            }),
    {
        if self.state < self.bytes.len() && byte == self.bytes[self.state] {
            self.state = self.state + 1;
            if self.state == self.bytes.len() {
                Some(Ok(self.value))
            } else {
                None
            }
        } else {
            self.state = self.bytes.len();
            Some(Err(()))
        }
    }
}

/// The patterns of a list of tokens.
pub open spec fn token_patterns<'v, V>(toks: Seq<Token<'v, V>>) -> Seq<Seq<u8>> {
    toks.map_values(|t: Token<'v, V>| t.pattern())
}

/// Pattern `p` agrees with `r` on bytes `0..=q` and is longer than that.
pub open spec fn pattern_continues(p: Seq<u8>, r: Seq<u8>, q: int) -> bool {
    0 <= q && q + 1 < p.len() && q < r.len() && p.take(q + 1) == r.take(q + 1)
}

/// Pattern `p` is exactly bytes `0..=q` of `r`.
pub open spec fn pattern_ends_at(p: Seq<u8>, r: Seq<u8>, q: int) -> bool {
    0 <= q && q + 1 == p.len() && q < r.len() && p == r.take(q + 1)
}

/// The first pattern, from index `j` on, that is exactly bytes `0..=q` of `r`.
pub open spec fn first_ending(pats: Seq<Seq<u8>>, r: Seq<u8>, q: int, j: int) -> Option<int>
    decreases pats.len() - j,
{
    if j < 0 || j >= pats.len() {
        None
    } else if pattern_ends_at(pats[j], r, q) {
        Some(j)
    } else {
        first_ending(pats, r, q, j + 1)
    }
}

pub open spec fn any_continues(pats: Seq<Seq<u8>>, r: Seq<u8>, q: int) -> bool {
    exists|j: int| 0 <= j < pats.len() && pattern_continues(#[trigger] pats[j], r, q)
}

/// What [`switch`] does on input `r`, having matched `q` bytes: the number of bytes it
/// consumes in all, and the index of the token it returns, if any.
pub open spec fn switch_outcome(pats: Seq<Seq<u8>>, r: Seq<u8>, q: nat) -> (nat, Option<int>)
    decreases r.len() - q,
{
    if q >= r.len() {
        (q, None)
    } else {
        match first_ending(pats, r, q as int, 0) {
            Some(j) => ((q + 1) as nat, Some(j)),
            None => if any_continues(pats, r, q as int) {
                switch_outcome(pats, r, q + 1)
            } else {
                (q, None)
            },
        }
    }
}

/// The progress a token with pattern `p` has after `q` bytes of `r`.
pub open spec fn progress_after(p: Seq<u8>, r: Seq<u8>, q: int) -> int {
    if q < p.len() && p.take(q) == r.take(q) {
        q
    } else {
        p.len() as int
    }
}

proof fn lemma_take_step(p: Seq<u8>, r: Seq<u8>, q: int)
    requires
        0 <= q < p.len(),
        q < r.len(),
    ensures
        (p.take(q + 1) == r.take(q + 1)) <==> (p.take(q) == r.take(q) && p[q] == r[q]),
{
    if p.take(q + 1) =~= r.take(q + 1) {
        assert(p.take(q + 1)[q] == r.take(q + 1)[q]);
        assert forall|i: int| 0 <= i < q implies #[trigger] p.take(q)[i] == r.take(q)[i] by {
            assert(p.take(q + 1)[i] == r.take(q + 1)[i]);
        }
        assert(p.take(q) =~= r.take(q));
    }
    if p.take(q) =~= r.take(q) && p[q] == r[q] {
        assert forall|i: int| 0 <= i < q + 1 implies #[trigger] p.take(q + 1)[i] == r.take(q + 1)[i] by {
            if i < q {
                assert(p.take(q)[i] == r.take(q)[i]);
            }
        }
        assert(p.take(q + 1) =~= r.take(q + 1));
    }
}

proof fn lemma_first_ending_skip(pats: Seq<Seq<u8>>, r: Seq<u8>, q: int, j: int)
    requires
        0 <= j < pats.len(),
        !pattern_ends_at(pats[j], r, q),
    ensures
        first_ending(pats, r, q, j) == first_ending(pats, r, q, j + 1),
{
}

/// Match the input against several tokens at once, consuming bytes while at least one
/// token still matches. Returns the value of the first token (in list order) that
/// completes at the earliest position; fails when no token can match any more, or at
/// the end of the stream.
pub fn switch<'a, 'v, T: Stream, V>(s: &mut T, tokens: &'a mut [Token<'v, V>]) -> (r: Result<
    &'v V,
    (),
>)
    ensures
        final(tokens)@.len() == old(tokens)@.len(),
        forall|i: int|
            0 <= i < old(tokens)@.len() ==> (#[trigger] final(tokens)@[i]).pattern() == old(
                tokens,
            )@[i].pattern() && final(tokens)@[i].target() == old(tokens)@[i].target(),
        ({
            let outcome = switch_outcome(token_patterns(old(tokens)@), old(s).rest(), 0);
            &&& final(s).rest() == old(s).rest().skip(outcome.0 as int)
            &&& match outcome.1 {
                Some(j) => r == Ok::<&'v V, ()>(old(tokens)@[j].target()),
                None => r is Err,
            }
        }),
{
    let ghost s0 = s.rest();
    let ghost toks0 = tokens@;
    let ghost pats = token_patterns(toks0);
    let n = tokens.len();
    let mut i: usize = 0;
    while i < n
        invariant
            n == tokens@.len(),
            toks0 == old(tokens)@,
            toks0.len() == n,
            pats == token_patterns(toks0),
            0 <= i <= n,
            forall|x: int|
                0 <= x < n ==> (#[trigger] tokens@[x]).pattern() == toks0[x].pattern()
                    && tokens@[x].target() == toks0[x].target(),
            forall|x: int| 0 <= x < i ==> (#[trigger] tokens@[x]).progress() == 0,
        decreases n - i,
    {
        let t = Token { bytes: tokens[i].bytes, value: tokens[i].value, state: 0 };
        tokens[i] = t;
        i = i + 1;
    }
    let ghost mut q: nat = 0;
    proof {
        assert(s0.skip(0) =~= s0);
        assert forall|x: int| 0 <= x < n implies (#[trigger] tokens@[x]).progress()
            == progress_after(pats[x], s0, 0) by {
            assert(pats[x].take(0) =~= s0.take(0));
        }
    }
    loop
        invariant
            n == tokens@.len(),
            toks0 == old(tokens)@,
            toks0.len() == n,
            pats == token_patterns(toks0),
            s0 == old(s).rest(),
            q <= s0.len(),
            s.rest() == s0.skip(q as int),
            switch_outcome(pats, s0, 0) == switch_outcome(pats, s0, q),
            forall|x: int|
                0 <= x < n ==> (#[trigger] tokens@[x]).pattern() == toks0[x].pattern()
                    && tokens@[x].target() == toks0[x].target(),
            forall|x: int|
                0 <= x < n ==> (#[trigger] tokens@[x]).progress() == progress_after(
                    pats[x],
                    s0,
                    q as int,
                ),
        decreases s0.len() - q,
    {
        match s.peek() {
            Some(Ok(b)) => {
                let mut any_matching = false;
                let mut j: usize = 0;
                while j < n
                    invariant
                        n == tokens@.len(),
                        toks0 == old(tokens)@,
                        s0 == old(s).rest(),
                        s.rest() == s0.skip(q as int),
                        switch_outcome(pats, s0, 0) == switch_outcome(pats, s0, q),
                        toks0.len() == n,
                        pats == token_patterns(toks0),
                        q < s0.len(),
                        b == s0[q as int],
                        0 <= j <= n,
                        first_ending(pats, s0, q as int, 0) == first_ending(pats, s0, q as int, j as int),
                        any_matching == exists|x: int|
                            0 <= x < j && pattern_continues(#[trigger] pats[x], s0, q as int),
                        forall|x: int|
                            0 <= x < n ==> (#[trigger] tokens@[x]).pattern() == toks0[x].pattern()
                                && tokens@[x].target() == toks0[x].target(),
                        forall|x: int|
                            0 <= x < j ==> (#[trigger] tokens@[x]).progress() == progress_after(
                                pats[x],
                                s0,
                                q + 1int,
                            ),
                        forall|x: int|
                            j <= x < n ==> (#[trigger] tokens@[x]).progress() == progress_after(
                                pats[x],
                                s0,
                                q as int,
                            ),
                    decreases n - j,
                {
                    let mut t = Token {
                        bytes: tokens[j].bytes,
                        value: tokens[j].value,
                        state: tokens[j].state,
                    };
                    let ghost p = pats[j as int];
                    proof {
                        assert(t.pattern() == p);
                        assert(t.progress() == progress_after(p, s0, q as int));
                        if q < p.len() {
                            lemma_take_step(p, s0, q as int);
                        }
                        assert(p.take(p.len() as int) =~= p);
                    }
                    let u = t.update(b);
                    tokens[j] = t;
                    match u {
                        Some(Ok(v)) => {
                            proof {
                                assert(pattern_ends_at(p, s0, q as int));
                                assert(first_ending(pats, s0, q as int, j as int) == Some(j as int));
                            }
                            s.next();
                            proof {
                                assert(s0.skip(q as int).drop_first() =~= s0.skip(q + 1int));
                            }
                            return Ok(v);
                        },
                        None => {
                            proof {
                                assert(pattern_continues(p, s0, q as int));
                                assert(!pattern_ends_at(p, s0, q as int));
                                lemma_first_ending_skip(pats, s0, q as int, j as int);
                            }
                            any_matching = true;
                        },
                        Some(Err(_)) => {
                            proof {
                                assert(!pattern_continues(p, s0, q as int));
                                assert(!pattern_ends_at(p, s0, q as int));
                                lemma_first_ending_skip(pats, s0, q as int, j as int);
                            }
                        },
                    }
                    j = j + 1;
                }
                proof {
                    assert(first_ending(pats, s0, q as int, n as int) == None::<int>);
                }
                if any_matching {
                    s.next();
                    proof {
                        assert(s0.skip(q as int).drop_first() =~= s0.skip(q + 1int));
                        q = q + 1;
                    }
                } else {
                    return Err(());
                }
            },
            _ => {
                return Err(());
            },
        }
    }
}

} // verus!
