//! The memory map of a process, as listed line by line in `/proc/<pid>/maps`:
//!
//! `start-end perms offset major:minor inode [name]`
//!
//! with hexadecimal addresses, offset and device numbers, a decimal inode, and an
//! optional path or special name.
use vstd::prelude::*;
use crate::parser::{
    ByteReader, Token, switch, Stream, token_patterns, switch_outcome, count_until, count_hex, count_dec,
    count_blanks, hex_value, dec_value, u64_hex, u64_dec, byte, spaces, flag, eof,
    until_byte_inclusive, lemma_count_until_bound, lemma_count_hex_bound, lemma_count_dec_bound,
    lemma_count_blanks_bound,
};
use crate::mem::VPtr;

verus! {

/// The kind of name at the end of a maps line.
#[derive(PartialEq, Eq, Structural, Copy, Clone, Debug)]
pub enum MemAreaName {
    /// No name at all (anonymous memory).
    Unnamed,
    VDSO,
    VVar,
    VSyscall,
    /// A file path.
    Path,
    /// Any other bracketed name, such as `[heap]` or `[stack]`.
    Other,
}

/// One line of a process memory map.
#[derive(PartialEq, Eq, Structural, Copy, Clone, Debug)]
pub struct MemArea {
    pub start: usize,
    pub end: usize,
    pub offset: usize,
    pub dev_major: usize,
    pub dev_minor: usize,
    pub inode: usize,
    pub read: bool,
    pub write: bool,
    pub execute: bool,
    pub mayshare: bool,
    pub name: MemAreaName,
}

impl MemArea {
    pub fn vptr(&self) -> (r: VPtr)
        ensures
            r.0 == self.start,
    {
        VPtr(self.start)
    }

    /// The number of bytes from `start` through `end`, both included.
    pub fn len(&self) -> (r: usize)
        requires
            self.end >= self.start,
            self.end - self.start + 1 <= usize::MAX,
        ensures
            r == self.end - self.start + 1,
    {
        self.end - self.start + 1
    }

    /// Whether two areas describe the same mapping (same name, permissions and file)
    /// over address ranges that touch or overlap.
    pub fn is_overlap(&self, other: &Self) -> (r: bool)
        ensures
            r == (self.name == other.name && self.read == other.read && self.write == other.write
                && self.execute == other.execute && self.mayshare == other.mayshare
                && self.dev_major == other.dev_major && self.dev_minor == other.dev_minor
                && self.inode == other.inode && self.end > self.start && other.end > other.start
                && (if self.end < other.end { self.end } else { other.end }) >= (if self.start
                < other.start {
                other.start
            } else {
                self.start
            })),
    {
        let min_end = if self.end < other.end {
            self.end
        } else {
            other.end
        };
        let max_start = if self.start < other.start {
            other.start
        } else {
            self.start
        };
        self.name == other.name && self.read == other.read && self.write == other.write
            && self.execute == other.execute && self.mayshare == other.mayshare && self.dev_major
            == other.dev_major && self.dev_minor == other.dev_minor && self.inode == other.inode
            && self.end > self.start && other.end > other.start && min_end >= max_start
    }
}

/// The tokens that introduce the name field: `/`, `[vdso]\n`, `[vvar]\n`, `[vsyscall]\n`, `\n`.
pub open spec fn name_patterns() -> Seq<Seq<u8>> {
    seq![
        seq![47u8],
        seq![91u8, 118u8, 100u8, 115u8, 111u8, 93u8, 10u8],
        seq![91u8, 118u8, 118u8, 97u8, 114u8, 93u8, 10u8],
        seq![91u8, 118u8, 115u8, 121u8, 115u8, 99u8, 97u8, 108u8, 108u8, 93u8, 10u8],
        seq![10u8],
    ]
}

pub open spec fn token_name(j: int) -> MemAreaName {
    if j == 0 {
        MemAreaName::Path
    } else if j == 1 {
        MemAreaName::VDSO
    } else if j == 2 {
        MemAreaName::VVar
    } else if j == 3 {
        MemAreaName::VSyscall
    } else {
        MemAreaName::Unnamed
    }
}

/// The remainder of a line after `n` bytes of `t`, through the newline.
pub open spec fn to_line_end(t: Seq<u8>, n: int, name: MemAreaName) -> Option<(MemAreaName, int)> {
    let u = count_until(t.skip(n), 10u8);
    if u < t.len() - n {
        Some((name, n + u + 1))
    } else {
        None
    }
}

/// The name field of a maps line and the number of bytes it takes, through the newline.
pub open spec fn name_field(t: Seq<u8>) -> Option<(MemAreaName, int)> {
    let o = switch_outcome(name_patterns(), t, 0);
    let n = o.0 as int;
    match o.1 {
        Some(j) => if j == 0 {
            to_line_end(t, n, MemAreaName::Path)
        } else {
            Some((token_name(j), n))
        },
        None => to_line_end(t, n, MemAreaName::Other),
    }
}

/// Read the name field and the end of the line.
pub fn read_name<T: Stream>(s: &mut T) -> (r: Result<MemAreaName, ()>)
    ensures
        match name_field(old(s).rest()) {
            Some((nm, n)) => r == Ok::<MemAreaName, ()>(nm) && final(s).rest() == old(s).rest().skip(n),
            None => r is Err,
        },
{
    let ghost t = s.rest();
    let v_path = MemAreaName::Path;
    let v_vdso = MemAreaName::VDSO;
    let v_vvar = MemAreaName::VVar;
    let v_vsyscall = MemAreaName::VSyscall;
    let v_none = MemAreaName::Unnamed;
    let mut tokens = [
        Token::new(&[47u8], &v_path),
        Token::new(&[91u8, 118u8, 100u8, 115u8, 111u8, 93u8, 10u8], &v_vdso),
        Token::new(&[91u8, 118u8, 118u8, 97u8, 114u8, 93u8, 10u8], &v_vvar),
        Token::new(
            &[91u8, 118u8, 115u8, 121u8, 115u8, 99u8, 97u8, 108u8, 108u8, 93u8, 10u8],
            &v_vsyscall,
        ),
        Token::new(&[10u8], &v_none),
    ];
    let ghost toks = tokens@;
    proof {
        assert(token_patterns(toks) =~= name_patterns()) by {
            assert(toks[0].pattern() =~= seq![47u8]);
            assert(toks[1].pattern() =~= seq![91u8, 118u8, 100u8, 115u8, 111u8, 93u8, 10u8]);
            assert(toks[2].pattern() =~= seq![91u8, 118u8, 118u8, 97u8, 114u8, 93u8, 10u8]);
            assert(toks[3].pattern() =~= seq![
                91u8,
                118u8,
                115u8,
                121u8,
                115u8,
                99u8,
                97u8,
                108u8,
                108u8,
                93u8,
                10u8,
            ]);
            assert(toks[4].pattern() =~= seq![10u8]);
        }
    }
    let found = switch(s, &mut tokens);
    let ghost o = switch_outcome(name_patterns(), t, 0);
    proof {
        lemma_switch_index_bound(name_patterns(), t, 0);
        let n = o.0 as int;
        let u = count_until(t.skip(n), 10u8);
        lemma_count_until_bound(t.skip(n), 10u8);
        if u < t.len() - n {
            assert(t.skip(n).skip(u + 1int) =~= t.skip(n + u + 1));
        }
        assert(t.skip(n).skip(u as int) =~= t.skip(n + u));
    }
    match found {
        Ok(name) => {
            let name = *name;
            proof {
                let j = o.1->Some_0;
                assert(0 <= j < 5) by {
                    if !(0 <= j < 5) {
                        assert(o.1 is None);
                    }
                }
                assert(name == token_name(j));
            }
            if name == MemAreaName::Path {
                until_byte_inclusive(s, 10u8)?;
                Ok(MemAreaName::Path)
            } else {
                Ok(name)
            }
        },
        Err(()) => {
            until_byte_inclusive(s, 10u8)?;
            Ok(MemAreaName::Other)
        },
    }
}

proof fn lemma_switch_index_bound(pats: Seq<Seq<u8>>, r: Seq<u8>, q: nat)
    requires
        q <= r.len(),
    ensures
        switch_outcome(pats, r, q).1 matches Some(j) ==> 0 <= j < pats.len(),
        q <= switch_outcome(pats, r, q).0 <= r.len(),
    decreases r.len() - q,
{
    if q < r.len() {
        lemma_first_ending_bound(pats, r, q as int, 0);
        lemma_switch_index_bound(pats, r, q + 1);
    }
}

proof fn lemma_first_ending_bound(pats: Seq<Seq<u8>>, r: Seq<u8>, q: int, j: int)
    ensures
        crate::parser::first_ending(pats, r, q, j) matches Some(k) ==> 0 <= k < pats.len(),
    decreases pats.len() - j,
{
    if 0 <= j < pats.len() {
        lemma_first_ending_bound(pats, r, q, j + 1);
    }
}

pub open spec fn hex_len(r: Seq<u8>, i: int) -> int {
    count_hex(r.skip(i)) as int
}

pub open spec fn hex_at(r: Seq<u8>, i: int) -> u64 {
    hex_value(r.skip(i).take(hex_len(r, i)))
}

pub open spec fn dec_len(r: Seq<u8>, i: int) -> int {
    count_dec(r.skip(i)) as int
}

pub open spec fn dec_at(r: Seq<u8>, i: int) -> u64 {
    dec_value(r.skip(i).take(dec_len(r, i)))
}

pub open spec fn blank_len(r: Seq<u8>, i: int) -> int {
    count_blanks(r.skip(i)) as int
}

pub open spec fn flag_value(b: u8, t: u8, f: u8) -> Option<bool> {
    if b == t {
        Some(true)
    } else if b == f {
        Some(false)
    } else {
        None
    }
}

/// `start-end` followed by blanks: the address range and the bytes it takes.
pub open spec fn range_field(r: Seq<u8>) -> Option<((u64, u64), int)> {
    let i1 = hex_len(r, 0);
    let i2 = i1 + 1;
    let i3 = i2 + hex_len(r, i2);
    if hex_len(r, 0) == 0 || !(i1 < r.len() && r[i1] == 45u8) || hex_len(r, i2) == 0 || blank_len(
        r,
        i3,
    ) == 0 {
        None
    } else {
        Some(((hex_at(r, 0), hex_at(r, i2)), i3 + blank_len(r, i3)))
    }
}

/// The four permission letters `rwxs` (each may be `-`, the last may be `p`) followed by blanks.
pub open spec fn flags_field(r: Seq<u8>) -> Option<((bool, bool, bool, bool), int)> {
    if r.len() < 4 {
        None
    } else {
        match (
            flag_value(r[0], 114u8, 45u8),
            flag_value(r[1], 119u8, 45u8),
            flag_value(r[2], 120u8, 45u8),
            flag_value(r[3], 115u8, 112u8),
        ) {
            (Some(read), Some(write), Some(execute), Some(mayshare)) => if blank_len(r, 4) == 0 {
                None
            } else {
                Some(((read, write, execute, mayshare), 4 + blank_len(r, 4)))
            },
            _ => None,
        }
    }
}

/// `offset major:minor inode` with the blanks after each: (offset, major, minor, inode).
pub open spec fn file_field(r: Seq<u8>) -> Option<((u64, u64, u64, u64), int)> {
    let i1 = hex_len(r, 0);
    let i2 = i1 + blank_len(r, i1);
    let i3 = i2 + hex_len(r, i2);
    let i4 = i3 + 1;
    let i5 = i4 + hex_len(r, i4);
    let i6 = i5 + blank_len(r, i5);
    let i7 = i6 + dec_len(r, i6);
    if hex_len(r, 0) == 0 || blank_len(r, i1) == 0 || hex_len(r, i2) == 0 || !(i3 < r.len()
        && r[i3] == 58u8) || hex_len(r, i4) == 0 || blank_len(r, i5) == 0 || dec_len(r, i6) == 0
        || blank_len(r, i7) == 0 {
        None
    } else {
        Some(
            (
                (hex_at(r, 0), hex_at(r, i2), hex_at(r, i4), dec_at(r, i6)),
                i7 + blank_len(r, i7),
            ),
        )
    }
}

/// The memory area described by the maps line at the start of `r`, and the length of
/// that line, or `None` when the line is malformed.
pub open spec fn maps_line(r: Seq<u8>) -> Option<(MemArea, int)> {
    match range_field(r) {
        None => None,
        Some((range, a)) => {
            let r1 = r.skip(a);
            match flags_field(r1) {
                None => None,
                Some((flags, b)) => {
                    let r2 = r1.skip(b);
                    match file_field(r2) {
                        None => None,
                        Some((file, c)) => {
                            let r3 = r2.skip(c);
                            match name_field(r3) {
                                None => None,
                                Some((name, d)) => Some(
                                    (
                                        MemArea {
                                            start: range.0 as usize,
                                            end: range.1 as usize,
                                            offset: file.0 as usize,
                                            dev_major: file.1 as usize,
                                            dev_minor: file.2 as usize,
                                            inode: file.3 as usize,
                                            read: flags.0,
                                            write: flags.1,
                                            execute: flags.2,
                                            mayshare: flags.3,
                                            name,
                                        },
                                        a + b + c + d,
                                    ),
                                ),
                            }
                        },
                    }
                },
            }
        },
    }
}

proof fn lemma_skip_skip(r: Seq<u8>, i: int, c: int)
    requires
        0 <= i <= r.len(),
        0 <= c <= r.len() - i,
    ensures
        r.skip(i).skip(c) == r.skip(i + c),
{
    assert(r.skip(i).skip(c) =~= r.skip(i + c));
}

proof fn lemma_field_bounds(r: Seq<u8>, i: int)
    requires
        0 <= i <= r.len(),
    ensures
        0 <= hex_len(r, i) <= r.len() - i,
        0 <= dec_len(r, i) <= r.len() - i,
        0 <= blank_len(r, i) <= r.len() - i,
        hex_len(r, i) <= r.len() - i ==> r.skip(i).skip(hex_len(r, i)) == r.skip(i + hex_len(r, i)),
        dec_len(r, i) <= r.len() - i ==> r.skip(i).skip(dec_len(r, i)) == r.skip(i + dec_len(r, i)),
        blank_len(r, i) <= r.len() - i ==> r.skip(i).skip(blank_len(r, i)) == r.skip(
            i + blank_len(r, i),
        ),
{
    lemma_count_hex_bound(r.skip(i));
    lemma_count_dec_bound(r.skip(i));
    lemma_count_blanks_bound(r.skip(i));
    lemma_skip_skip(r, i, hex_len(r, i));
    lemma_skip_skip(r, i, dec_len(r, i));
    lemma_skip_skip(r, i, blank_len(r, i));
}

proof fn lemma_one(r: Seq<u8>, i: int)
    requires
        0 <= i < r.len(),
    ensures
        r.skip(i).drop_first() == r.skip(i + 1),
        r.skip(i)[0] == r[i],
{
    assert(r.skip(i).drop_first() =~= r.skip(i + 1));
}

proof fn lemma_name_field_bound(t: Seq<u8>)
    ensures
        name_field(t) matches Some((nm, n)) ==> 0 <= n <= t.len(),
{
    lemma_switch_index_bound(name_patterns(), t, 0);
    let n = switch_outcome(name_patterns(), t, 0).0 as int;
    lemma_count_until_bound(t.skip(n), 10u8);
}

fn read_range<T: Stream>(s: &mut T) -> (r: Result<(u64, u64), ()>)
    ensures
        match range_field(old(s).rest()) {
            Some((v, n)) => r == Ok::<(u64, u64), ()>(v) && final(s).rest() == old(s).rest().skip(n)
                && 0 <= n <= old(s).rest().len(),
            None => r is Err,
        },
{
    let ghost r0 = s.rest();
    let ghost mut i: int = 0;
    proof {
        assert(r0.skip(0) =~= r0);
        lemma_field_bounds(r0, 0);
    }
    let start = u64_hex(s)?;
    proof {
        i = hex_len(r0, 0);
        lemma_field_bounds(r0, i);
    }
    if byte(s, 45u8).is_err() {
        return Err(());
    }
    proof {
        lemma_one(r0, i);
        i = i + 1;
        lemma_field_bounds(r0, i);
    }
    let end = u64_hex(s)?;
    proof {
        i = i + hex_len(r0, i);
        lemma_field_bounds(r0, i);
    }
    spaces(s)?;
    Ok((start, end))
}

fn read_flags<T: Stream>(s: &mut T) -> (r: Result<(bool, bool, bool, bool), ()>)
    ensures
        match flags_field(old(s).rest()) {
            Some((v, n)) => r == Ok::<(bool, bool, bool, bool), ()>(v) && final(s).rest() == old(
                s,
            ).rest().skip(n) && 0 <= n <= old(s).rest().len(),
            None => r is Err,
        },
{
    let ghost r0 = s.rest();
    proof {
        assert(r0.skip(0) =~= r0);
    }
    let read = flag(s, 114u8, 45u8)?;
    proof {
        lemma_one(r0, 0);
    }
    let write = flag(s, 119u8, 45u8)?;
    proof {
        lemma_one(r0, 1);
    }
    let execute = flag(s, 120u8, 45u8)?;
    proof {
        lemma_one(r0, 2);
    }
    let mayshare = flag(s, 115u8, 112u8)?;
    proof {
        lemma_one(r0, 3);
        lemma_field_bounds(r0, 4);
    }
    spaces(s)?;
    Ok((read, write, execute, mayshare))
}

fn read_file<T: Stream>(s: &mut T) -> (r: Result<(u64, u64, u64, u64), ()>)
    ensures
        match file_field(old(s).rest()) {
            Some((v, n)) => r == Ok::<(u64, u64, u64, u64), ()>(v) && final(s).rest() == old(
                s,
            ).rest().skip(n) && 0 <= n <= old(s).rest().len(),
            None => r is Err,
        },
{
    let ghost r0 = s.rest();
    let ghost mut i: int = 0;
    proof {
        assert(r0.skip(0) =~= r0);
        lemma_field_bounds(r0, 0);
    }
    let offset = u64_hex(s)?;
    proof {
        i = hex_len(r0, 0);
        lemma_field_bounds(r0, i);
    }
    spaces(s)?;
    proof {
        i = i + blank_len(r0, i);
        lemma_field_bounds(r0, i);
    }
    let dev_major = u64_hex(s)?;
    proof {
        i = i + hex_len(r0, i);
        lemma_field_bounds(r0, i);
    }
    if byte(s, 58u8).is_err() {
        return Err(());
    }
    proof {
        lemma_one(r0, i);
        i = i + 1;
        lemma_field_bounds(r0, i);
    }
    let dev_minor = u64_hex(s)?;
    proof {
        i = i + hex_len(r0, i);
        lemma_field_bounds(r0, i);
    }
    spaces(s)?;
    proof {
        i = i + blank_len(r0, i);
        lemma_field_bounds(r0, i);
    }
    let inode = u64_dec(s)?;
    proof {
        i = i + dec_len(r0, i);
        lemma_field_bounds(r0, i);
    }
    spaces(s)?;
    Ok((offset, dev_major, dev_minor, inode))
}

/// Read one line of a maps file.
pub fn read_mem_area<T: Stream>(s: &mut T) -> (r: Result<MemArea, ()>)
    ensures
        match maps_line(old(s).rest()) {
            Some((area, n)) => r == Ok::<MemArea, ()>(area) && final(s).rest() == old(s).rest().skip(n),
            None => r is Err,
        },
{
    let ghost r0 = s.rest();
    let range = read_range(s)?;
    let ghost r1 = s.rest();
    let flags = read_flags(s)?;
    let ghost r2 = s.rest();
    let file = read_file(s)?;
    let ghost r3 = s.rest();
    proof {
        lemma_name_field_bound(r3);
    }
    let name = read_name(s)?;
    proof {
        let (_, a) = range_field(r0)->Some_0;
        let (_, b) = flags_field(r1)->Some_0;
        let (_, c) = file_field(r2)->Some_0;
        let (_, d) = name_field(r3)->Some_0;
        lemma_skip_skip(r0, a, b);
        lemma_skip_skip(r0, a + b, c);
        lemma_skip_skip(r0, a + b + c, d);
    }
    Ok(
        MemArea {
            start: range.0 as usize,
            end: range.1 as usize,
            offset: file.0 as usize,
            dev_major: file.1 as usize,
            dev_minor: file.2 as usize,
            inode: file.3 as usize,
            read: flags.0,
            write: flags.1,
            execute: flags.2,
            mayshare: flags.3,
            name,
        },
    )
}

/// Reads the areas of a memory map one line at a time.
pub struct MapsIterator {
    pub stream: ByteReader,
}

impl MapsIterator {
    pub fn new(stream: ByteReader) -> (r: Self)
        ensures
            r.stream == stream,
    {
        MapsIterator { stream }
    }

    /// The next area: `None` at the end of the map, `Some(Err(()))` for a malformed line.
    pub fn next(&mut self) -> (r: Option<Result<MemArea, ()>>)
        ensures
            old(self).stream.rest().len() == 0 ==> r is None && final(self).stream.rest() == old(
                self,
            ).stream.rest(),
            old(self).stream.rest().len() > 0 ==> match maps_line(old(self).stream.rest()) {
                Some((area, n)) => r == Some(Ok::<MemArea, ()>(area)) && final(self).stream.rest()
                    == old(self).stream.rest().skip(n),
                None => r matches Some(Err(_)),
            },
    {
        let at_end = eof(&mut self.stream);
        if at_end.is_ok() {
            None
        } else {
            let area = read_mem_area(&mut self.stream);
            Some(area)
        }
    }
}

} // verus!
