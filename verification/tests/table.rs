use bandsocks::protocol::{SysPid, VPid};
use bandsocks::table::{next_vpid_in_sequence, table_index_for_vpid, ProcessTable, PID_LIMIT};

#[test]
fn vpid_indexing() {
    assert_eq!(table_index_for_vpid(VPid(1)), Some(0));
    assert_eq!(table_index_for_vpid(VPid(PID_LIMIT)), Some(32767));
    assert_eq!(table_index_for_vpid(VPid(0)), None);
    assert_eq!(table_index_for_vpid(VPid(PID_LIMIT + 1)), None);
    assert_eq!(next_vpid_in_sequence(VPid(1)), VPid(2));
    assert_eq!(next_vpid_in_sequence(VPid(PID_LIMIT)), VPid(1));
}

#[test]
fn insert_get_remove() {
    let mut t = ProcessTable::new();
    assert_eq!(t.insert(SysPid(1000)), Some(VPid(1)));
    assert_eq!(t.insert(SysPid(1001)), Some(VPid(2)));
    assert_eq!(t.syspid_to_v(SysPid(1001)), Some(VPid(2)));
    assert_eq!(t.syspid_to_v(SysPid(5)), None);
    assert_eq!(t.get(VPid(1)), Some(SysPid(1000)));
    assert_eq!(t.get(VPid(0)), None);
    assert_eq!(t.remove(VPid(1)), Some(SysPid(1000)));
    assert_eq!(t.get(VPid(1)), None);
    assert_eq!(t.syspid_to_v(SysPid(1000)), None);
    assert_eq!(t.remove(VPid(1)), None);
    // the search goes on from where it stopped, then round to freed vpids
    assert_eq!(t.insert(SysPid(1002)), Some(VPid(3)));
    assert_eq!(t.syspid_to_v(SysPid(1002)), Some(VPid(3)));
}

#[test]
fn vpids_are_reused_after_wrapping() {
    let mut t = ProcessTable::new();
    for i in 0..PID_LIMIT {
        assert_eq!(t.insert(SysPid(10_000 + i)), Some(VPid(i + 1)));
    }
    assert_eq!(t.insert(SysPid(1)), None);
    assert_eq!(t.remove(VPid(7)), Some(SysPid(10_006)));
    assert_eq!(t.insert(SysPid(2)), Some(VPid(7)));
    assert_eq!(t.get(VPid(7)), Some(SysPid(2)));
}
