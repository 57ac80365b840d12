//! How the messages from the sand process travel on the IPC channel, in the encoding of
//! `wire`.
//!
//! A struct is its fields in order, a newtype is its one field, and an enum is its variant
//! index byte followed by the fields of that variant. The registers of a `UserRegs` are
//! its 27 words in the order of its fields.
use vstd::prelude::*;
use crate::buffer::{Error, IPCBuffer};
use crate::protocol::{
    FollowLinks, FromTask, LogLevel, LogMessage, MessageFromSand, Signal, SysPid, Syscall,
    UserRegs, VFile, VPid, VPtr, VString, VStringBuffer,
};
use crate::wire::{
    WireFormat, Wire, cat, no_wire, byte_wire, map_parsed, parse_byte, pending, put_outcome,
    lemma_cat_assoc, lemma_parse_byte_wire, lemma_parse_byte_prefix, lemma_parse_byte_suffix, lemma_suffix_trans, lemma_put_then, lemma_put_failed, put_byte,
    take_byte, put_tagged,
};

verus! {

impl WireFormat for SysPid {
    open spec fn wire(&self) -> Wire {
        self.0.wire()
    }

    open spec fn parse(input: Wire) -> Result<(SysPid, Wire), Error> {
        map_parsed(<u32 as WireFormat>::parse(input), |p: u32| SysPid(p))
    }

    proof fn lemma_wire_roundtrip(&self, rest: Wire) {
        let p: u32 = self.0;
        p.lemma_wire_roundtrip(rest);
    }

    proof fn lemma_parse_prefix(input: Wire, more: Wire) {
        <u32 as WireFormat>::lemma_parse_prefix(input, more);
    }

    proof fn lemma_parse_suffix(input: Wire) {
        <u32 as WireFormat>::lemma_parse_suffix(input);
    }

    fn put(&self, buf: &mut IPCBuffer) -> (r: Result<(), Error>) {
        let p: u32 = self.0;
        p.put(buf)
    }

    fn take(buf: &mut IPCBuffer) -> (r: Result<SysPid, Error>) {
        let p = <u32 as WireFormat>::take(buf)?;
        Ok(SysPid(p))
    }
}

impl WireFormat for Signal {
    open spec fn wire(&self) -> Wire {
        self.0.wire()
    }

    open spec fn parse(input: Wire) -> Result<(Signal, Wire), Error> {
        map_parsed(<u32 as WireFormat>::parse(input), |p: u32| Signal(p))
    }

    proof fn lemma_wire_roundtrip(&self, rest: Wire) {
        let p: u32 = self.0;
        p.lemma_wire_roundtrip(rest);
    }

    proof fn lemma_parse_prefix(input: Wire, more: Wire) {
        <u32 as WireFormat>::lemma_parse_prefix(input, more);
    }

    proof fn lemma_parse_suffix(input: Wire) {
        <u32 as WireFormat>::lemma_parse_suffix(input);
    }

    fn put(&self, buf: &mut IPCBuffer) -> (r: Result<(), Error>) {
        let p: u32 = self.0;
        p.put(buf)
    }

    fn take(buf: &mut IPCBuffer) -> (r: Result<Signal, Error>) {
        let p = <u32 as WireFormat>::take(buf)?;
        Ok(Signal(p))
    }
}

impl WireFormat for VPtr {
    open spec fn wire(&self) -> Wire {
        self.0.wire()
    }

    open spec fn parse(input: Wire) -> Result<(VPtr, Wire), Error> {
        map_parsed(<usize as WireFormat>::parse(input), |p: usize| VPtr(p))
    }

    proof fn lemma_wire_roundtrip(&self, rest: Wire) {
        let p: usize = self.0;
        p.lemma_wire_roundtrip(rest);
    }

    proof fn lemma_parse_prefix(input: Wire, more: Wire) {
        <usize as WireFormat>::lemma_parse_prefix(input, more);
    }

    proof fn lemma_parse_suffix(input: Wire) {
        <usize as WireFormat>::lemma_parse_suffix(input);
    }

    fn put(&self, buf: &mut IPCBuffer) -> (r: Result<(), Error>) {
        let p: usize = self.0;
        p.put(buf)
    }

    fn take(buf: &mut IPCBuffer) -> (r: Result<VPtr, Error>) {
        let p = <usize as WireFormat>::take(buf)?;
        Ok(VPtr(p))
    }
}

impl WireFormat for VString {
    open spec fn wire(&self) -> Wire {
        self.0.wire()
    }

    open spec fn parse(input: Wire) -> Result<(VString, Wire), Error> {
        map_parsed(<VPtr as WireFormat>::parse(input), |p: VPtr| VString(p))
    }

    proof fn lemma_wire_roundtrip(&self, rest: Wire) {
        let p: VPtr = self.0;
        p.lemma_wire_roundtrip(rest);
    }

    proof fn lemma_parse_prefix(input: Wire, more: Wire) {
        <VPtr as WireFormat>::lemma_parse_prefix(input, more);
    }

    proof fn lemma_parse_suffix(input: Wire) {
        <VPtr as WireFormat>::lemma_parse_suffix(input);
    }

    fn put(&self, buf: &mut IPCBuffer) -> (r: Result<(), Error>) {
        let p: VPtr = self.0;
        p.put(buf)
    }

    fn take(buf: &mut IPCBuffer) -> (r: Result<VString, Error>) {
        let p = <VPtr as WireFormat>::take(buf)?;
        Ok(VString(p))
    }
}

impl WireFormat for VStringBuffer {
    open spec fn wire(&self) -> Wire {
        (self.0, self.1).wire()
    }

    open spec fn parse(input: Wire) -> Result<(VStringBuffer, Wire), Error> {
        map_parsed(<(VString, usize) as WireFormat>::parse(input), |p: (VString, usize)| VStringBuffer(p.0, p.1))
    }

    proof fn lemma_wire_roundtrip(&self, rest: Wire) {
        let p: (VString, usize) = (self.0, self.1);
        p.lemma_wire_roundtrip(rest);
    }

    proof fn lemma_parse_prefix(input: Wire, more: Wire) {
        <(VString, usize) as WireFormat>::lemma_parse_prefix(input, more);
    }

    proof fn lemma_parse_suffix(input: Wire) {
        <(VString, usize) as WireFormat>::lemma_parse_suffix(input);
    }

    fn put(&self, buf: &mut IPCBuffer) -> (r: Result<(), Error>) {
        let p: (VString, usize) = (self.0, self.1);
        p.put(buf)
    }

    fn take(buf: &mut IPCBuffer) -> (r: Result<VStringBuffer, Error>) {
        let p = <(VString, usize) as WireFormat>::take(buf)?;
        Ok(VStringBuffer(p.0, p.1))
    }
}


pub open spec fn follow_links_index(v: FollowLinks) -> u8 {
    match v {
            FollowLinks::NoFollow => 0,
            FollowLinks::Follow => 1,
    }
}
impl WireFormat for FollowLinks {
    open spec fn wire(&self) -> Wire {
        byte_wire(follow_links_index(*self))
    }

    open spec fn parse(input: Wire) -> Result<(FollowLinks, Wire), Error> {
        match parse_byte(input) {
            Ok((b, rest)) => if b == 0 {
                Ok((FollowLinks::NoFollow, rest))
            } else if b == 1 {
                Ok((FollowLinks::Follow, rest))
            } else {
                Err(Error::Deserialize)
            },
            Err(e) => Err(e),
        }
    }

    proof fn lemma_wire_roundtrip(&self, rest: Wire) {
        lemma_parse_byte_wire(follow_links_index(*self), rest);
    }

    proof fn lemma_parse_prefix(input: Wire, more: Wire) {
        lemma_parse_byte_prefix(input, more);
    }

    proof fn lemma_parse_suffix(input: Wire) {
        lemma_parse_byte_suffix(input);
    }

    fn put(&self, buf: &mut IPCBuffer) -> (r: Result<(), Error>) {
        match *self {
            FollowLinks::NoFollow => put_byte(buf, 0),
            FollowLinks::Follow => put_byte(buf, 1),
        }
    }

    fn take(buf: &mut IPCBuffer) -> (r: Result<FollowLinks, Error>) {
        let b = take_byte(buf)?;
        if b == 0 {
            Ok(FollowLinks::NoFollow)
        } else if b == 1 {
            Ok(FollowLinks::Follow)
        } else {
            Err(Error::Deserialize)
        }
    }
}

/// The six arguments travel in order between `nr` and `ret`.
impl WireFormat for Syscall {
    open spec fn wire(&self) -> Wire {
        (self.nr, (self.args[0], (self.args[1], (self.args[2], (self.args[3], (self.args[4], (self.args[5], (self.ret, (self.ip, self.sp))))))))).wire()
    }

    open spec fn parse(input: Wire) -> Result<(Syscall, Wire), Error> {
        map_parsed(<(isize, (isize, (isize, (isize, (isize, (isize, (isize, (isize, (usize, usize))))))))) as WireFormat>::parse(input), |p: (isize, (isize, (isize, (isize, (isize, (isize, (isize, (isize, (usize, usize)))))))))| Syscall { nr: p.0, args: [(p.1).0, ((p.1).1).0, (((p.1).1).1).0, ((((p.1).1).1).1).0, (((((p.1).1).1).1).1).0, ((((((p.1).1).1).1).1).1).0], ret: (((((((p.1).1).1).1).1).1).1).0, ip: ((((((((p.1).1).1).1).1).1).1).1).0, sp: ((((((((p.1).1).1).1).1).1).1).1).1 })
    }

    proof fn lemma_wire_roundtrip(&self, rest: Wire) {
        let p: (isize, (isize, (isize, (isize, (isize, (isize, (isize, (isize, (usize, usize))))))))) = (self.nr, (self.args[0], (self.args[1], (self.args[2], (self.args[3], (self.args[4], (self.args[5], (self.ret, (self.ip, self.sp)))))))));
        p.lemma_wire_roundtrip(rest);
        let q = Self::parse(cat(self.wire(), rest))->Ok_0.0;
        assert(q.args =~= self.args);
    }

    proof fn lemma_parse_prefix(input: Wire, more: Wire) {
        <(isize, (isize, (isize, (isize, (isize, (isize, (isize, (isize, (usize, usize))))))))) as WireFormat>::lemma_parse_prefix(input, more);
    }

    proof fn lemma_parse_suffix(input: Wire) {
        <(isize, (isize, (isize, (isize, (isize, (isize, (isize, (isize, (usize, usize))))))))) as WireFormat>::lemma_parse_suffix(input);
    }

    fn put(&self, buf: &mut IPCBuffer) -> (r: Result<(), Error>) {
        let p: (isize, (isize, (isize, (isize, (isize, (isize, (isize, (isize, (usize, usize))))))))) = (self.nr, (self.args[0], (self.args[1], (self.args[2], (self.args[3], (self.args[4], (self.args[5], (self.ret, (self.ip, self.sp)))))))));
        p.put(buf)
    }

    fn take(buf: &mut IPCBuffer) -> (r: Result<Syscall, Error>) {
        let p = <(isize, (isize, (isize, (isize, (isize, (isize, (isize, (isize, (usize, usize))))))))) as WireFormat>::take(buf)?;
        Ok(Syscall { nr: p.0, args: [(p.1).0, ((p.1).1).0, (((p.1).1).1).0, ((((p.1).1).1).1).0, (((((p.1).1).1).1).1).0, ((((((p.1).1).1).1).1).1).0], ret: (((((((p.1).1).1).1).1).1).1).0, ip: ((((((((p.1).1).1).1).1).1).1).1).0, sp: ((((((((p.1).1).1).1).1).1).1).1).1 })
    }
}

/// The number of words in a `UserRegs`.
pub const USER_REGS_WORDS: usize = 27;

/// Words one after the other.
pub open spec fn words_wire(s: Seq<usize>) -> Wire
    decreases s.len(),
{
    if s.len() == 0 {
        no_wire()
    } else {
        cat(words_wire(s.drop_last()), s.last().wire())
    }
}

/// `n` words from the front of the queues, or the error that stops the reading.
pub open spec fn parse_words(n: nat, input: Wire) -> Result<(Seq<usize>, Wire), Error>
    decreases n,
{
    if n == 0 {
        Ok((Seq::<usize>::empty(), input))
    } else {
        match usize::parse(input) {
            Ok((w, rest)) => match parse_words((n - 1) as nat, rest) {
                Ok((ws, rest2)) => Ok((seq![w] + ws, rest2)),
                Err(e) => Err(e),
            },
            Err(e) => Err(e),
        }
    }
}

pub proof fn lemma_words_wire_append(a: Seq<usize>, b: Seq<usize>)
    ensures
        words_wire(a + b) == cat(words_wire(a), words_wire(b)),
    decreases b.len(),
{
    if b.len() == 0 {
        assert(a + b =~= a);
        assert(cat(words_wire(a), no_wire()).0 =~= words_wire(a).0);
        assert(cat(words_wire(a), no_wire()).1 =~= words_wire(a).1);
    } else {
        lemma_words_wire_append(a, b.drop_last());
        assert((a + b).drop_last() =~= a + b.drop_last());
        lemma_cat_assoc(words_wire(a), words_wire(b.drop_last()), b.last().wire());
    }
}

/// Reading back `s.len()` words that were written gives them back, and leaves what
/// followed.
pub proof fn lemma_words_roundtrip(s: Seq<usize>, rest: Wire)
    ensures
        parse_words(s.len(), cat(words_wire(s), rest)) == Ok::<(Seq<usize>, Wire), Error>((s, rest)),
    decreases s.len(),
{
    if s.len() == 0 {
        assert(cat(no_wire(), rest).0 =~= rest.0);
        assert(cat(no_wire(), rest).1 =~= rest.1);
        assert(s =~= Seq::<usize>::empty());
    } else {
        let tail = s.drop_first();
        reveal_with_fuel(words_wire, 2);
        lemma_words_wire_append(seq![s[0]], tail);
        assert(seq![s[0]] + tail =~= s);
        assert(seq![s[0]].drop_last() =~= Seq::<usize>::empty());
        assert(words_wire(seq![s[0]]) == cat(no_wire(), s[0].wire()));
        assert(cat(no_wire(), s[0].wire()).0 =~= s[0].wire().0);
        assert(cat(no_wire(), s[0].wire()).1 =~= s[0].wire().1);
        lemma_cat_assoc(s[0].wire(), words_wire(tail), rest);
        s[0].lemma_wire_roundtrip(cat(words_wire(tail), rest));
        lemma_words_roundtrip(tail, rest);
        assert(seq![s[0]] + tail =~= s);
    }
}

fn put_words(buf: &mut IPCBuffer, words: &[usize]) -> (r: Result<(), Error>)
    requires
        old(buf).wf(),
    ensures
        put_outcome(*old(buf), *final(buf), r, words_wire(words@)),
{
    let ghost s0 = *buf;
    proof {
        buf.lemma_rooms();
        assert(words@.take(0) =~= Seq::<usize>::empty());
        assert(cat(pending(s0), no_wire()).0 =~= pending(s0).0);
        assert(cat(pending(s0), no_wire()).1 =~= pending(s0).1);
    }
    let mut i: usize = 0;
    while i < words.len()
        invariant
            s0 == *old(buf),
            s0.wf(),
            i <= words@.len(),
            put_outcome(s0, *buf, Ok::<(), Error>(()), words_wire(words@.take(i as int))),
        decreases words@.len() - i,
    {
        let ghost s1 = *buf;
        let r = words[i].put(buf);
        proof {
            assert(words@.take(i + 1).drop_last() =~= words@.take(i as int));
        }
        if r.is_err() {
            proof {
                lemma_put_then(s0, s1, *buf, Ok(()), r, words_wire(words@.take(i as int)), words@[i as int].wire());
                lemma_put_failed(s0, *buf, r, words_wire(words@.take(i + 1)), words_wire(words@.skip(i + 1)));
                lemma_words_wire_append(words@.take(i + 1), words@.skip(i + 1));
                assert(words@.take(i + 1) + words@.skip(i + 1) =~= words@);
            }
            return r;
        }
        proof {
            lemma_put_then(s0, s1, *buf, Ok(()), r, words_wire(words@.take(i as int)), words@[i as int].wire());
        }
        i = i + 1;
    }
    proof {
        assert(words@.take(words@.len() as int) =~= words@);
    }
    Ok(())
}

fn take_words(buf: &mut IPCBuffer, n: usize) -> (r: Result<Vec<usize>, Error>)
    requires
        old(buf).wf(),
    ensures
        final(buf).wf(),
        final(buf).storage() == old(buf).storage(),
        match parse_words(n as nat, pending(*old(buf))) {
            Ok((ws, rest)) => r is Ok && r->Ok_0@ == ws && pending(*final(buf)) == rest,
            Err(e) => r is Err && r->Err_0 == e,
        },
    decreases n,
{
    if n == 0 {
        return Ok(Vec::new());
    }
    let w = usize::take(buf)?;
    let mut ws = take_words(buf, n - 1)?;
    ws.insert(0, w);
    Ok(ws)
}

pub open spec fn regs_words(r: UserRegs) -> Seq<usize> {
    seq![
        r.r15,
        r.r14,
        r.r13,
        r.r12,
        r.bp,
        r.bx,
        r.r11,
        r.r10,
        r.r9,
        r.r8,
        r.ax,
        r.cx,
        r.dx,
        r.si,
        r.di,
        r.orig_ax,
        r.ip,
        r.cs,
        r.flags,
        r.sp,
        r.ss,
        r.fs_base,
        r.gs_base,
        r.ds,
        r.es,
        r.fs,
        r.gs,
    ]
}

pub open spec fn regs_from_words(s: Seq<usize>) -> UserRegs {
    UserRegs {
        r15: s[0],
        r14: s[1],
        r13: s[2],
        r12: s[3],
        bp: s[4],
        bx: s[5],
        r11: s[6],
        r10: s[7],
        r9: s[8],
        r8: s[9],
        ax: s[10],
        cx: s[11],
        dx: s[12],
        si: s[13],
        di: s[14],
        orig_ax: s[15],
        ip: s[16],
        cs: s[17],
        flags: s[18],
        sp: s[19],
        ss: s[20],
        fs_base: s[21],
        gs_base: s[22],
        ds: s[23],
        es: s[24],
        fs: s[25],
        gs: s[26],
    }
}

impl WireFormat for UserRegs {
    open spec fn wire(&self) -> Wire {
        words_wire(regs_words(*self))
    }

    open spec fn parse(input: Wire) -> Result<(UserRegs, Wire), Error> {
        map_parsed(parse_words(USER_REGS_WORDS as nat, input), |s: Seq<usize>| regs_from_words(s))
    }

    proof fn lemma_wire_roundtrip(&self, rest: Wire) {
        lemma_words_roundtrip(regs_words(*self), rest);
    }

    proof fn lemma_parse_prefix(input: Wire, more: Wire) {
        lemma_parse_words_prefix(USER_REGS_WORDS as nat, input, more);
    }

    proof fn lemma_parse_suffix(input: Wire) {
        lemma_parse_words_suffix(USER_REGS_WORDS as nat, input);
    }

    fn put(&self, buf: &mut IPCBuffer) -> (r: Result<(), Error>) {
        let words: [usize; 27] = [
            self.r15,
            self.r14,
            self.r13,
            self.r12,
            self.bp,
            self.bx,
            self.r11,
            self.r10,
            self.r9,
            self.r8,
            self.ax,
            self.cx,
            self.dx,
            self.si,
            self.di,
            self.orig_ax,
            self.ip,
            self.cs,
            self.flags,
            self.sp,
            self.ss,
            self.fs_base,
            self.gs_base,
            self.ds,
            self.es,
            self.fs,
            self.gs,
        ];
        proof {
            assert(words@ =~= regs_words(*self));
        }
        put_words(buf, words.as_slice())
    }

    fn take(buf: &mut IPCBuffer) -> (r: Result<UserRegs, Error>) {
        let v = take_words(buf, USER_REGS_WORDS)?;
        proof {
            lemma_parse_words_len(USER_REGS_WORDS as nat, pending(*old(buf)));
        }
        Ok(UserRegs {
            r15: v[0],
            r14: v[1],
            r13: v[2],
            r12: v[3],
            bp: v[4],
            bx: v[5],
            r11: v[6],
            r10: v[7],
            r9: v[8],
            r8: v[9],
            ax: v[10],
            cx: v[11],
            dx: v[12],
            si: v[13],
            di: v[14],
            orig_ax: v[15],
            ip: v[16],
            cs: v[17],
            flags: v[18],
            sp: v[19],
            ss: v[20],
            fs_base: v[21],
            gs_base: v[22],
            ds: v[23],
            es: v[24],
            fs: v[25],
            gs: v[26],
        })
    }
}

proof fn lemma_parse_words_prefix(n: nat, input: Wire, more: Wire)
    requires
        parse_words(n, input) is Ok,
    ensures
        parse_words(n, cat(input, more)) == Ok::<(Seq<usize>, Wire), Error>(
            (parse_words(n, input)->Ok_0.0, cat(parse_words(n, input)->Ok_0.1, more)),
        ),
    decreases n,
{
    if n > 0 {
        usize::lemma_parse_prefix(input, more);
        let rest = usize::parse(input)->Ok_0.1;
        lemma_parse_words_prefix((n - 1) as nat, rest, more);
    }
}

proof fn lemma_parse_words_suffix(n: nat, input: Wire)
    requires
        parse_words(n, input) is Ok,
    ensures
        crate::wire::suffix_of(parse_words(n, input)->Ok_0.1, input),
    decreases n,
{
    if n == 0 {
        crate::wire::lemma_suffix_refl(input);
    } else {
        usize::lemma_parse_suffix(input);
        let rest = usize::parse(input)->Ok_0.1;
        lemma_parse_words_suffix((n - 1) as nat, rest);
        lemma_suffix_trans(input, rest, parse_words((n - 1) as nat, rest)->Ok_0.1);
    }
}

proof fn lemma_parse_words_len(n: nat, input: Wire)
    ensures
        parse_words(n, input) is Ok ==> parse_words(n, input)->Ok_0.0.len() == n,
    decreases n,
{
    if n > 0 {
        if let Ok((w, rest)) = usize::parse(input) {
            lemma_parse_words_len((n - 1) as nat, rest);
        }
    }
}

impl WireFormat for LogMessage {
    open spec fn wire(&self) -> Wire {
        match *self {
            LogMessage::Emulated(call) => cat(byte_wire(0), call.wire()),
            LogMessage::Remote(call) => cat(byte_wire(1), call.wire()),
            LogMessage::Signal(signo, regs) => cat(byte_wire(2), (signo, regs).wire()),
        }
    }

    open spec fn parse(input: Wire) -> Result<(LogMessage, Wire), Error> {
        match parse_byte(input) {
            Ok((b, rest)) => if b == 0 {
                map_parsed(<Syscall as WireFormat>::parse(rest), |p: Syscall| LogMessage::Emulated(p))
            } else if b == 1 {
                map_parsed(<Syscall as WireFormat>::parse(rest), |p: Syscall| LogMessage::Remote(p))
            } else if b == 2 {
                map_parsed(<(u8, UserRegs) as WireFormat>::parse(rest), |p: (u8, UserRegs)| LogMessage::Signal(p.0, p.1))
            } else {
                Err(Error::Deserialize)
            },
            Err(e) => Err(e),
        }
    }

    proof fn lemma_wire_roundtrip(&self, rest: Wire) {
        match *self {
            LogMessage::Emulated(call) => {
                let p: Syscall = call;
                lemma_cat_assoc(byte_wire(0), p.wire(), rest);
                lemma_parse_byte_wire(0, cat(p.wire(), rest));
                p.lemma_wire_roundtrip(rest);
            },
            LogMessage::Remote(call) => {
                let p: Syscall = call;
                lemma_cat_assoc(byte_wire(1), p.wire(), rest);
                lemma_parse_byte_wire(1, cat(p.wire(), rest));
                p.lemma_wire_roundtrip(rest);
            },
            LogMessage::Signal(signo, regs) => {
                let p: (u8, UserRegs) = (signo, regs);
                lemma_cat_assoc(byte_wire(2), p.wire(), rest);
                lemma_parse_byte_wire(2, cat(p.wire(), rest));
                p.lemma_wire_roundtrip(rest);
            },
        }
    }

    proof fn lemma_parse_prefix(input: Wire, more: Wire) {
        lemma_parse_byte_prefix(input, more);
        let (b, rest) = parse_byte(input)->Ok_0;
        if b == 0 {
            <Syscall as WireFormat>::lemma_parse_prefix(rest, more);
        } else if b == 1 {
            <Syscall as WireFormat>::lemma_parse_prefix(rest, more);
        } else if b == 2 {
            <(u8, UserRegs) as WireFormat>::lemma_parse_prefix(rest, more);
        }
    }

    proof fn lemma_parse_suffix(input: Wire) {
        lemma_parse_byte_suffix(input);
        let (b, rest) = parse_byte(input)->Ok_0;
        if b == 0 {
            <Syscall as WireFormat>::lemma_parse_suffix(rest);
            lemma_suffix_trans(input, rest, <Syscall as WireFormat>::parse(rest)->Ok_0.1);
        } else if b == 1 {
            <Syscall as WireFormat>::lemma_parse_suffix(rest);
            lemma_suffix_trans(input, rest, <Syscall as WireFormat>::parse(rest)->Ok_0.1);
        } else if b == 2 {
            <(u8, UserRegs) as WireFormat>::lemma_parse_suffix(rest);
            lemma_suffix_trans(input, rest, <(u8, UserRegs) as WireFormat>::parse(rest)->Ok_0.1);
        }
    }

    fn put(&self, buf: &mut IPCBuffer) -> (r: Result<(), Error>) {
        match *self {
            LogMessage::Emulated(call) => {
                let p: Syscall = call;
                put_tagged(buf, 0, &p)
            },
            LogMessage::Remote(call) => {
                let p: Syscall = call;
                put_tagged(buf, 1, &p)
            },
            LogMessage::Signal(signo, regs) => {
                let p: (u8, UserRegs) = (signo, regs);
                put_tagged(buf, 2, &p)
            },
        }
    }

    fn take(buf: &mut IPCBuffer) -> (r: Result<LogMessage, Error>) {
        let b = take_byte(buf)?;
        if b == 0 {
            let p = <Syscall as WireFormat>::take(buf)?;
            Ok(LogMessage::Emulated(p))
        } else if b == 1 {
            let p = <Syscall as WireFormat>::take(buf)?;
            Ok(LogMessage::Remote(p))
        } else if b == 2 {
            let p = <(u8, UserRegs) as WireFormat>::take(buf)?;
            Ok(LogMessage::Signal(p.0, p.1))
        } else {
            Err(Error::Deserialize)
        }
    }
}

impl WireFormat for FromTask {
    open spec fn wire(&self) -> Wire {
        match *self {
            FromTask::OpenProcess(pid) => cat(byte_wire(0), pid.wire()),
            FromTask::FileAccess { dir, path, mode } => cat(byte_wire(1), (dir, (path, mode)).wire()),
            FromTask::FileOpen { dir, path, flags, mode } => cat(byte_wire(2), (dir, (path, (flags, mode))).wire()),
            FromTask::FileStat { file, path, follow_links } => cat(byte_wire(3), (file, (path, follow_links)).wire()),
            FromTask::ReadLink(path, buffer) => cat(byte_wire(4), (path, buffer).wire()),
            FromTask::ProcessKill(task, signal) => cat(byte_wire(5), (task, signal).wire()),
            FromTask::ChangeWorkingDir(path) => cat(byte_wire(6), path.wire()),
            FromTask::GetWorkingDir(buffer) => cat(byte_wire(7), buffer.wire()),
            FromTask::Exited(code) => cat(byte_wire(8), code.wire()),
            FromTask::Log(level, message) => cat(byte_wire(9), (level, message).wire()),
        }
    }

    open spec fn parse(input: Wire) -> Result<(FromTask, Wire), Error> {
        match parse_byte(input) {
            Ok((b, rest)) => if b == 0 {
                map_parsed(<SysPid as WireFormat>::parse(rest), |p: SysPid| FromTask::OpenProcess(p))
            } else if b == 1 {
                map_parsed(<(Option<VFile>, (VString, i32)) as WireFormat>::parse(rest), |p: (Option<VFile>, (VString, i32))| FromTask::FileAccess { dir: p.0, path: (p.1).0, mode: (p.1).1 })
            } else if b == 2 {
                map_parsed(<(Option<VFile>, (VString, (i32, i32))) as WireFormat>::parse(rest), |p: (Option<VFile>, (VString, (i32, i32)))| FromTask::FileOpen { dir: p.0, path: (p.1).0, flags: ((p.1).1).0, mode: ((p.1).1).1 })
            } else if b == 3 {
                map_parsed(<(Option<VFile>, (Option<VString>, FollowLinks)) as WireFormat>::parse(rest), |p: (Option<VFile>, (Option<VString>, FollowLinks))| FromTask::FileStat { file: p.0, path: (p.1).0, follow_links: (p.1).1 })
            } else if b == 4 {
                map_parsed(<(VString, VStringBuffer) as WireFormat>::parse(rest), |p: (VString, VStringBuffer)| FromTask::ReadLink(p.0, p.1))
            } else if b == 5 {
                map_parsed(<(VPid, Signal) as WireFormat>::parse(rest), |p: (VPid, Signal)| FromTask::ProcessKill(p.0, p.1))
            } else if b == 6 {
                map_parsed(<VString as WireFormat>::parse(rest), |p: VString| FromTask::ChangeWorkingDir(p))
            } else if b == 7 {
                map_parsed(<VStringBuffer as WireFormat>::parse(rest), |p: VStringBuffer| FromTask::GetWorkingDir(p))
            } else if b == 8 {
                map_parsed(<i32 as WireFormat>::parse(rest), |p: i32| FromTask::Exited(p))
            } else if b == 9 {
                map_parsed(<(LogLevel, LogMessage) as WireFormat>::parse(rest), |p: (LogLevel, LogMessage)| FromTask::Log(p.0, p.1))
            } else {
                Err(Error::Deserialize)
            },
            Err(e) => Err(e),
        }
    }

    proof fn lemma_wire_roundtrip(&self, rest: Wire) {
        match *self {
            FromTask::OpenProcess(pid) => {
                let p: SysPid = pid;
                lemma_cat_assoc(byte_wire(0), p.wire(), rest);
                lemma_parse_byte_wire(0, cat(p.wire(), rest));
                p.lemma_wire_roundtrip(rest);
            },
            FromTask::FileAccess { dir, path, mode } => {
                let p: (Option<VFile>, (VString, i32)) = (dir, (path, mode));
                lemma_cat_assoc(byte_wire(1), p.wire(), rest);
                lemma_parse_byte_wire(1, cat(p.wire(), rest));
                p.lemma_wire_roundtrip(rest);
            },
            FromTask::FileOpen { dir, path, flags, mode } => {
                let p: (Option<VFile>, (VString, (i32, i32))) = (dir, (path, (flags, mode)));
                lemma_cat_assoc(byte_wire(2), p.wire(), rest);
                lemma_parse_byte_wire(2, cat(p.wire(), rest));
                p.lemma_wire_roundtrip(rest);
            },
            FromTask::FileStat { file, path, follow_links } => {
                let p: (Option<VFile>, (Option<VString>, FollowLinks)) = (file, (path, follow_links));
                lemma_cat_assoc(byte_wire(3), p.wire(), rest);
                lemma_parse_byte_wire(3, cat(p.wire(), rest));
                p.lemma_wire_roundtrip(rest);
            },
            FromTask::ReadLink(path, buffer) => {
                let p: (VString, VStringBuffer) = (path, buffer);
                lemma_cat_assoc(byte_wire(4), p.wire(), rest);
                lemma_parse_byte_wire(4, cat(p.wire(), rest));
                p.lemma_wire_roundtrip(rest);
            },
            FromTask::ProcessKill(task, signal) => {
                let p: (VPid, Signal) = (task, signal);
                lemma_cat_assoc(byte_wire(5), p.wire(), rest);
                lemma_parse_byte_wire(5, cat(p.wire(), rest));
                p.lemma_wire_roundtrip(rest);
            },
            FromTask::ChangeWorkingDir(path) => {
                let p: VString = path;
                lemma_cat_assoc(byte_wire(6), p.wire(), rest);
                lemma_parse_byte_wire(6, cat(p.wire(), rest));
                p.lemma_wire_roundtrip(rest);
            },
            FromTask::GetWorkingDir(buffer) => {
                let p: VStringBuffer = buffer;
                lemma_cat_assoc(byte_wire(7), p.wire(), rest);
                lemma_parse_byte_wire(7, cat(p.wire(), rest));
                p.lemma_wire_roundtrip(rest);
            },
            FromTask::Exited(code) => {
                let p: i32 = code;
                lemma_cat_assoc(byte_wire(8), p.wire(), rest);
                lemma_parse_byte_wire(8, cat(p.wire(), rest));
                p.lemma_wire_roundtrip(rest);
            },
            FromTask::Log(level, message) => {
                let p: (LogLevel, LogMessage) = (level, message);
                lemma_cat_assoc(byte_wire(9), p.wire(), rest);
                lemma_parse_byte_wire(9, cat(p.wire(), rest));
                p.lemma_wire_roundtrip(rest);
            },
        }
    }

    proof fn lemma_parse_prefix(input: Wire, more: Wire) {
        lemma_parse_byte_prefix(input, more);
        let (b, rest) = parse_byte(input)->Ok_0;
        if b == 0 {
            <SysPid as WireFormat>::lemma_parse_prefix(rest, more);
        } else if b == 1 {
            <(Option<VFile>, (VString, i32)) as WireFormat>::lemma_parse_prefix(rest, more);
        } else if b == 2 {
            <(Option<VFile>, (VString, (i32, i32))) as WireFormat>::lemma_parse_prefix(rest, more);
        } else if b == 3 {
            <(Option<VFile>, (Option<VString>, FollowLinks)) as WireFormat>::lemma_parse_prefix(rest, more);
        } else if b == 4 {
            <(VString, VStringBuffer) as WireFormat>::lemma_parse_prefix(rest, more);
        } else if b == 5 {
            <(VPid, Signal) as WireFormat>::lemma_parse_prefix(rest, more);
        } else if b == 6 {
            <VString as WireFormat>::lemma_parse_prefix(rest, more);
        } else if b == 7 {
            <VStringBuffer as WireFormat>::lemma_parse_prefix(rest, more);
        } else if b == 8 {
            <i32 as WireFormat>::lemma_parse_prefix(rest, more);
        } else if b == 9 {
            <(LogLevel, LogMessage) as WireFormat>::lemma_parse_prefix(rest, more);
        }
    }

    proof fn lemma_parse_suffix(input: Wire) {
        lemma_parse_byte_suffix(input);
        let (b, rest) = parse_byte(input)->Ok_0;
        if b == 0 {
            <SysPid as WireFormat>::lemma_parse_suffix(rest);
            lemma_suffix_trans(input, rest, <SysPid as WireFormat>::parse(rest)->Ok_0.1);
        } else if b == 1 {
            <(Option<VFile>, (VString, i32)) as WireFormat>::lemma_parse_suffix(rest);
            lemma_suffix_trans(input, rest, <(Option<VFile>, (VString, i32)) as WireFormat>::parse(rest)->Ok_0.1);
        } else if b == 2 {
            <(Option<VFile>, (VString, (i32, i32))) as WireFormat>::lemma_parse_suffix(rest);
            lemma_suffix_trans(input, rest, <(Option<VFile>, (VString, (i32, i32))) as WireFormat>::parse(rest)->Ok_0.1);
        } else if b == 3 {
            <(Option<VFile>, (Option<VString>, FollowLinks)) as WireFormat>::lemma_parse_suffix(rest);
            lemma_suffix_trans(input, rest, <(Option<VFile>, (Option<VString>, FollowLinks)) as WireFormat>::parse(rest)->Ok_0.1);
        } else if b == 4 {
            <(VString, VStringBuffer) as WireFormat>::lemma_parse_suffix(rest);
            lemma_suffix_trans(input, rest, <(VString, VStringBuffer) as WireFormat>::parse(rest)->Ok_0.1);
        } else if b == 5 {
            <(VPid, Signal) as WireFormat>::lemma_parse_suffix(rest);
            lemma_suffix_trans(input, rest, <(VPid, Signal) as WireFormat>::parse(rest)->Ok_0.1);
        } else if b == 6 {
            <VString as WireFormat>::lemma_parse_suffix(rest);
            lemma_suffix_trans(input, rest, <VString as WireFormat>::parse(rest)->Ok_0.1);
        } else if b == 7 {
            <VStringBuffer as WireFormat>::lemma_parse_suffix(rest);
            lemma_suffix_trans(input, rest, <VStringBuffer as WireFormat>::parse(rest)->Ok_0.1);
        } else if b == 8 {
            <i32 as WireFormat>::lemma_parse_suffix(rest);
            lemma_suffix_trans(input, rest, <i32 as WireFormat>::parse(rest)->Ok_0.1);
        } else if b == 9 {
            <(LogLevel, LogMessage) as WireFormat>::lemma_parse_suffix(rest);
            lemma_suffix_trans(input, rest, <(LogLevel, LogMessage) as WireFormat>::parse(rest)->Ok_0.1);
        }
    }

    fn put(&self, buf: &mut IPCBuffer) -> (r: Result<(), Error>) {
        match *self {
            FromTask::OpenProcess(pid) => {
                let p: SysPid = pid;
                put_tagged(buf, 0, &p)
            },
            FromTask::FileAccess { dir, path, mode } => {
                let p: (Option<VFile>, (VString, i32)) = (dir, (path, mode));
                put_tagged(buf, 1, &p)
            },
            FromTask::FileOpen { dir, path, flags, mode } => {
                let p: (Option<VFile>, (VString, (i32, i32))) = (dir, (path, (flags, mode)));
                put_tagged(buf, 2, &p)
            },
            FromTask::FileStat { file, path, follow_links } => {
                let p: (Option<VFile>, (Option<VString>, FollowLinks)) = (file, (path, follow_links));
                put_tagged(buf, 3, &p)
            },
            FromTask::ReadLink(path, buffer) => {
                let p: (VString, VStringBuffer) = (path, buffer);
                put_tagged(buf, 4, &p)
            },
            FromTask::ProcessKill(task, signal) => {
                let p: (VPid, Signal) = (task, signal);
                put_tagged(buf, 5, &p)
            },
            FromTask::ChangeWorkingDir(path) => {
                let p: VString = path;
                put_tagged(buf, 6, &p)
            },
            FromTask::GetWorkingDir(buffer) => {
                let p: VStringBuffer = buffer;
                put_tagged(buf, 7, &p)
            },
            FromTask::Exited(code) => {
                let p: i32 = code;
                put_tagged(buf, 8, &p)
            },
            FromTask::Log(level, message) => {
                let p: (LogLevel, LogMessage) = (level, message);
                put_tagged(buf, 9, &p)
            },
        }
    }

    fn take(buf: &mut IPCBuffer) -> (r: Result<FromTask, Error>) {
        let b = take_byte(buf)?;
        if b == 0 {
            let p = <SysPid as WireFormat>::take(buf)?;
            Ok(FromTask::OpenProcess(p))
        } else if b == 1 {
            let p = <(Option<VFile>, (VString, i32)) as WireFormat>::take(buf)?;
            Ok(FromTask::FileAccess { dir: p.0, path: (p.1).0, mode: (p.1).1 })
        } else if b == 2 {
            let p = <(Option<VFile>, (VString, (i32, i32))) as WireFormat>::take(buf)?;
            Ok(FromTask::FileOpen { dir: p.0, path: (p.1).0, flags: ((p.1).1).0, mode: ((p.1).1).1 })
        } else if b == 3 {
            let p = <(Option<VFile>, (Option<VString>, FollowLinks)) as WireFormat>::take(buf)?;
            Ok(FromTask::FileStat { file: p.0, path: (p.1).0, follow_links: (p.1).1 })
        } else if b == 4 {
            let p = <(VString, VStringBuffer) as WireFormat>::take(buf)?;
            Ok(FromTask::ReadLink(p.0, p.1))
        } else if b == 5 {
            let p = <(VPid, Signal) as WireFormat>::take(buf)?;
            Ok(FromTask::ProcessKill(p.0, p.1))
        } else if b == 6 {
            let p = <VString as WireFormat>::take(buf)?;
            Ok(FromTask::ChangeWorkingDir(p))
        } else if b == 7 {
            let p = <VStringBuffer as WireFormat>::take(buf)?;
            Ok(FromTask::GetWorkingDir(p))
        } else if b == 8 {
            let p = <i32 as WireFormat>::take(buf)?;
            Ok(FromTask::Exited(p))
        } else if b == 9 {
            let p = <(LogLevel, LogMessage) as WireFormat>::take(buf)?;
            Ok(FromTask::Log(p.0, p.1))
        } else {
            Err(Error::Deserialize)
        }
    }
}

impl WireFormat for MessageFromSand {
    open spec fn wire(&self) -> Wire {
        match *self {
            MessageFromSand::Task { task, op } => cat(byte_wire(0), (task, op).wire()),
        }
    }

    open spec fn parse(input: Wire) -> Result<(MessageFromSand, Wire), Error> {
        match parse_byte(input) {
            Ok((b, rest)) => if b == 0 {
                map_parsed(<(VPid, FromTask) as WireFormat>::parse(rest), |p: (VPid, FromTask)| MessageFromSand::Task { task: p.0, op: p.1 })
            } else {
                Err(Error::Deserialize)
            },
            Err(e) => Err(e),
        }
    }

    proof fn lemma_wire_roundtrip(&self, rest: Wire) {
        match *self {
            MessageFromSand::Task { task, op } => {
                let p: (VPid, FromTask) = (task, op);
                lemma_cat_assoc(byte_wire(0), p.wire(), rest);
                lemma_parse_byte_wire(0, cat(p.wire(), rest));
                p.lemma_wire_roundtrip(rest);
            },
        }
    }

    proof fn lemma_parse_prefix(input: Wire, more: Wire) {
        lemma_parse_byte_prefix(input, more);
        let (b, rest) = parse_byte(input)->Ok_0;
        if b == 0 {
            <(VPid, FromTask) as WireFormat>::lemma_parse_prefix(rest, more);
        }
    }

    proof fn lemma_parse_suffix(input: Wire) {
        lemma_parse_byte_suffix(input);
        let (b, rest) = parse_byte(input)->Ok_0;
        if b == 0 {
            <(VPid, FromTask) as WireFormat>::lemma_parse_suffix(rest);
            lemma_suffix_trans(input, rest, <(VPid, FromTask) as WireFormat>::parse(rest)->Ok_0.1);
        }
    }

    fn put(&self, buf: &mut IPCBuffer) -> (r: Result<(), Error>) {
        match *self {
            MessageFromSand::Task { task, op } => {
                let p: (VPid, FromTask) = (task, op);
                put_tagged(buf, 0, &p)
            },
        }
    }

    fn take(buf: &mut IPCBuffer) -> (r: Result<MessageFromSand, Error>) {
        let b = take_byte(buf)?;
        if b == 0 {
            let p = <(VPid, FromTask) as WireFormat>::take(buf)?;
            Ok(MessageFromSand::Task { task: p.0, op: p.1 })
        } else {
            Err(Error::Deserialize)
        }
    }
}

} // verus!
