//! The sandbox's side of the IPC socket: what a `recvmsg` result means, how many file
//! descriptors came with it, and the control data that goes with a `sendmsg`.
use vstd::prelude::*;
use crate::abi;
use crate::abi::CMsgHdr;
use crate::buffer::FILES_MAX;

verus! {

/// The size of a control message header.
pub const CMSG_HEADER_SIZE: usize = 16;

/// The size of one file descriptor in `SCM_RIGHTS` data.
pub const CMSG_FD_SIZE: usize = 4;

/// What one non-blocking `recvmsg` on the socket came to.
#[derive(Debug, Clone, Copy, PartialEq, Eq, Structural)]
pub enum RecvOutcome {
    /// This many bytes, and this many file descriptors, were added to the buffer.
    Received { bytes: usize, files: usize },
    /// Nothing was waiting.
    WouldBlock,
    /// The other end is gone; the sandbox exits with `EXIT_DISCONNECTED`.
    Disconnected,
    /// Any other failure, which stops the sandbox.
    Failed(isize),
}

/// A control message is either absent (length zero) or carries `SCM_RIGHTS` data: a
/// whole number of descriptors, no more than the buffer takes.
pub open spec fn control_ok(cmsg: CMsgHdr) -> bool {
    cmsg.cmsg_len == 0 || {
        &&& cmsg.cmsg_len >= CMSG_HEADER_SIZE
        &&& cmsg.cmsg_level == abi::SOL_SOCKET
        &&& cmsg.cmsg_type == abi::SCM_RIGHTS
        &&& (cmsg.cmsg_len - CMSG_HEADER_SIZE) % (CMSG_FD_SIZE as int) == 0
    }
}

/// Whether a received control header is one that `recv_outcome` takes: what
/// `control_ok` asks, tested.
pub fn control_is_ok(cmsg: &CMsgHdr) -> (r: bool)
    ensures
        r == control_ok(*cmsg),
{
    cmsg.cmsg_len == 0 || (cmsg.cmsg_len >= CMSG_HEADER_SIZE && cmsg.cmsg_level == abi::SOL_SOCKET
        && cmsg.cmsg_type == abi::SCM_RIGHTS && (cmsg.cmsg_len - CMSG_HEADER_SIZE) % CMSG_FD_SIZE
        == 0)
}

/// The number of descriptors a control message carries.
pub open spec fn control_files(cmsg: CMsgHdr) -> int {
    if cmsg.cmsg_len == 0 {
        0
    } else {
        (cmsg.cmsg_len - CMSG_HEADER_SIZE) / (CMSG_FD_SIZE as int)
    }
}

/// The number of file descriptors received with a message.
pub fn received_file_count(cmsg: &CMsgHdr) -> (r: usize)
    requires
        control_ok(*cmsg),
    ensures
        r == control_files(*cmsg),
{
    if cmsg.cmsg_len == 0 {
        0
    } else {
        let data_len = cmsg.cmsg_len - CMSG_HEADER_SIZE;
        data_len / CMSG_FD_SIZE
    }
}

/// What the result of a non-blocking `recvmsg` means, with the control header it
/// filled in.
pub fn recv_outcome(result: isize, cmsg: &CMsgHdr) -> (r: RecvOutcome)
    requires
        result > 0 ==> control_ok(*cmsg),
    ensures
        result > 0 ==> r == (RecvOutcome::Received {
            bytes: result as usize,
            files: control_files(*cmsg) as usize,
        }),
        result == -(abi::EAGAIN as int) ==> r == RecvOutcome::WouldBlock,
        (result == 0 || result == -(abi::ECONNRESET as int)) ==> r == RecvOutcome::Disconnected,
        result < 0 && result != -(abi::EAGAIN as int) && result != -(abi::ECONNRESET as int) ==> r
            == RecvOutcome::Failed(result),
{
    if result > 0 {
        RecvOutcome::Received { bytes: result as usize, files: received_file_count(cmsg) }
    } else if result == -(abi::EAGAIN as isize) {
        RecvOutcome::WouldBlock
    } else if result == 0 || result == -(abi::ECONNRESET as isize) {
        RecvOutcome::Disconnected
    } else {
        RecvOutcome::Failed(result)
    }
}

/// Whether to read from the socket before taking the next message: only once the
/// buffer is empty and the socket has signalled that data arrived.
pub fn should_receive(buffer_is_empty: bool, sigio_arrived: bool) -> (r: bool)
    ensures
        r == (buffer_is_empty && sigio_arrived),
{
    buffer_is_empty && sigio_arrived
}

/// The control header that sends `files` descriptors with a message.
pub fn send_control_header(files: usize) -> (r: CMsgHdr)
    requires
        files <= FILES_MAX,
    ensures
        r.cmsg_len == CMSG_HEADER_SIZE + CMSG_FD_SIZE * files,
        r.cmsg_level == abi::SOL_SOCKET,
        r.cmsg_type == abi::SCM_RIGHTS,
        control_ok(r),
        control_files(r) == files,
{
    let r = CMsgHdr {
        cmsg_len: CMSG_HEADER_SIZE + CMSG_FD_SIZE * files,
        cmsg_level: abi::SOL_SOCKET,
        cmsg_type: abi::SCM_RIGHTS,
    };
    assert((CMSG_FD_SIZE * files) % (CMSG_FD_SIZE as int) == 0) by (nonlinear_arith);
    assert((CMSG_FD_SIZE * files) / (CMSG_FD_SIZE as int) == files) by (nonlinear_arith);
    r
}

/// A sent message counts only if every byte went in one call.
pub fn send_complete(result: isize, bytes: usize) -> (r: bool)
    ensures
        r == (result == bytes as isize),
{
    result == bytes as isize
}

} // verus!
