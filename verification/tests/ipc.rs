use bandsocks::abi::{CMsgHdr, SCM_RIGHTS, SOL_SOCKET};
use bandsocks::ipc::{control_is_ok, received_file_count, recv_outcome, send_control_header, should_receive, RecvOutcome};

#[test]
fn control_header_for_files() {
    let h = send_control_header(3);
    assert_eq!(h.cmsg_len, 16 + 12);
    assert_eq!((h.cmsg_level, h.cmsg_type), (SOL_SOCKET, SCM_RIGHTS));
    assert_eq!(received_file_count(&h), 3);
    let none = CMsgHdr { cmsg_len: 0, cmsg_level: 0, cmsg_type: 0 };
    assert_eq!(received_file_count(&none), 0);
}

#[test]
fn recvmsg_results() {
    let h = send_control_header(2);
    assert_eq!(recv_outcome(40, &h), RecvOutcome::Received { bytes: 40, files: 2 });
    assert_eq!(recv_outcome(-11, &h), RecvOutcome::WouldBlock);
    assert_eq!(recv_outcome(0, &h), RecvOutcome::Disconnected);
    assert_eq!(recv_outcome(-104, &h), RecvOutcome::Disconnected);
    assert_eq!(recv_outcome(-9, &h), RecvOutcome::Failed(-9));
    assert!(should_receive(true, true));
    assert!(!should_receive(false, true));
    assert!(!should_receive(true, false));
}

#[test]
fn control_headers_checked() {
    assert!(control_is_ok(&CMsgHdr { cmsg_len: 0, cmsg_level: 0, cmsg_type: 0 }));
    assert!(control_is_ok(&CMsgHdr { cmsg_len: 24, cmsg_level: SOL_SOCKET, cmsg_type: SCM_RIGHTS }));
    assert!(!control_is_ok(&CMsgHdr { cmsg_len: 22, cmsg_level: SOL_SOCKET, cmsg_type: SCM_RIGHTS }));
    assert!(!control_is_ok(&CMsgHdr { cmsg_len: 8, cmsg_level: SOL_SOCKET, cmsg_type: SCM_RIGHTS }));
    assert!(!control_is_ok(&CMsgHdr { cmsg_len: 20, cmsg_level: 0, cmsg_type: SCM_RIGHTS }));
}
