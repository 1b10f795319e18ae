use chatting::{PeerAddr, Registry};
use tokio::sync::mpsc::unbounded_channel;

fn peer(port: u16) -> PeerAddr {
    PeerAddr { v6: false, ip: 0x7f00_0001, port }
}

#[test]
fn registry_broadcast_skips_sender() {
    let mut r = Registry::new();
    let (ta, mut ra) = unbounded_channel::<String>();
    let (tb, mut rb) = unbounded_channel::<String>();
    let (tc, mut rc) = unbounded_channel::<String>();
    r.insert(peer(1), ta);
    r.insert(peer(2), tb);
    r.insert(peer(3), tc);
    let sent = r.broadcast(&peer(2), &"x".to_string());
    assert_eq!(sent, vec![peer(1), peer(3)]);
    assert_eq!(ra.try_recv().unwrap(), "x");
    assert_eq!(rc.try_recv().unwrap(), "x");
    assert!(rb.try_recv().is_err());
}

#[test]
fn registry_keeps_one_entry_per_identity() {
    let mut r = Registry::new();
    let (t1, mut r1) = unbounded_channel::<String>();
    let (t2, mut r2) = unbounded_channel::<String>();
    r.insert(peer(1), t1);
    r.insert(peer(1), t2);
    assert_eq!(r.len(), 1);
    let sent = r.broadcast(&peer(9), &"y".to_string());
    assert_eq!(sent, vec![peer(1)]);
    assert_eq!(r2.try_recv().unwrap(), "y");
    assert!(r1.try_recv().is_err());
}

#[test]
fn registry_remove_absent_is_no_op() {
    let mut r = Registry::new();
    let (t1, _r1) = unbounded_channel::<String>();
    r.insert(peer(1), t1);
    r.remove(&peer(2));
    assert_eq!(r.len(), 1);
    r.remove(&peer(1));
    assert_eq!(r.len(), 0);
    assert!(!r.contains(&peer(1)));
}

#[test]
fn registry_closed_queue_does_not_stop_others() {
    let mut r = Registry::new();
    let (ta, ra) = unbounded_channel::<String>();
    let (tb, mut rb) = unbounded_channel::<String>();
    r.insert(peer(1), ta);
    r.insert(peer(2), tb);
    drop(ra);
    let sent = r.broadcast(&peer(3), &"z".to_string());
    assert_eq!(sent, vec![peer(1), peer(2)]);
    assert_eq!(rb.try_recv().unwrap(), "z");
    assert!(r.contains(&peer(1)));
}

#[test]
fn registry_v4_and_v6_are_distinct() {
    let mut r = Registry::new();
    let (t1, _r1) = unbounded_channel::<String>();
    let (t2, _r2) = unbounded_channel::<String>();
    r.insert(PeerAddr { v6: false, ip: 1, port: 80 }, t1);
    r.insert(PeerAddr { v6: true, ip: 1, port: 80 }, t2);
    assert_eq!(r.len(), 2);
}
