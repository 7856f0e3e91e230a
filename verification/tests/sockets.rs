use cardinal3::executor::WakerData;
use cardinal3::net::socket::{ReadPoll, SocketTable};

fn w(id: u64) -> WakerData {
    WakerData { cpu: 0, id }
}

#[test]
fn create_write_read_fifo() {
    // a reader that awaits an empty socket, then two writes: the next
    // two completed reads yield the packets in write order
    let mut t = SocketTable::new();
    let sid = t.create();
    match t.read(sid, 16, w(1)) {
        ReadPoll::Parked => {}
        _ => panic!("read of an empty socket must park"),
    }
    let (c1, woken) = t.write(sid, &[1, 2, 3]).unwrap();
    assert_eq!(c1, 3);
    assert_eq!(woken.len(), 1);
    assert_eq!(woken[0].id, 1);
    let (c2, woken2) = t.write(sid, &[4, 5]).unwrap();
    assert_eq!(c2, 2);
    assert_eq!(woken2.len(), 0);
    match t.read(sid, 16, w(1)) {
        ReadPoll::Ready(data) => assert_eq!(data, vec![1, 2, 3]),
        _ => panic!("first read must complete with the first packet"),
    }
    match t.read(sid, 16, w(1)) {
        ReadPoll::Ready(data) => assert_eq!(data, vec![4, 5]),
        _ => panic!("second read must complete with the second packet"),
    }
    match t.read(sid, 16, w(1)) {
        ReadPoll::Parked => {}
        _ => panic!("drained socket must park again"),
    }
}

#[test]
fn read_copies_at_most_the_buffer_length() {
    let mut t = SocketTable::new();
    let sid = t.create();
    t.write(sid, &[9, 8, 7, 6, 5]).unwrap();
    match t.read(sid, 3, w(1)) {
        ReadPoll::Ready(data) => assert_eq!(data, vec![9, 8, 7]),
        _ => panic!("read must complete"),
    }
}

#[test]
fn unknown_socket_is_reported() {
    let mut t = SocketTable::new();
    assert!(t.write(77, &[1]).is_none());
    match t.read(77, 8, w(1)) {
        ReadPoll::NoSocket => {}
        _ => panic!("missing socket must be reported"),
    }
    assert!(!t.close(77));
}

#[test]
fn close_removes_the_socket() {
    let mut t = SocketTable::new();
    let sid = t.create();
    assert!(t.close(sid));
    assert!(t.write(sid, &[1]).is_none());
    // ids are not reused
    let sid2 = t.create();
    assert_ne!(sid, sid2);
}

#[test]
fn write_wakes_all_parked_readers_in_order() {
    let mut t = SocketTable::new();
    let sid = t.create();
    t.read(sid, 8, w(10));
    t.read(sid, 8, w(20));
    let (_, woken) = t.write(sid, &[1]).unwrap();
    let ids: Vec<u64> = woken.iter().map(|x| x.id).collect();
    assert_eq!(ids, vec![10, 20]);
}
