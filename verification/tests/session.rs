use gvls::session::{vtep_rch_path, Session, HELLO_INTERVAL, HELLO_TIMEOUT, RR_RCH_PORT, UI_RCH_PORT};

#[test]
fn constants() {
    assert_eq!(UI_RCH_PORT, 7101);
    assert_eq!(RR_RCH_PORT, 7102);
    assert_eq!(HELLO_INTERVAL, 15);
    assert_eq!(HELLO_TIMEOUT, 60);
    assert_eq!(vtep_rch_path(), "/run/gvls-vtep.sock");
}

#[test]
fn backoff_doubles_up_to_1024_seconds() {
    let mut s = Session::new(0);
    let mut waits = Vec::new();
    for _ in 0..12 {
        s.retry(1000);
        waits.push((s.conn_try_next - 1000) / 1000);
    }
    assert_eq!(waits, vec![2, 4, 8, 16, 32, 64, 128, 256, 512, 1024, 1024, 1024]);
    assert_eq!(s.conn_try_count, 12);
    assert!(!s.connected);
}

#[test]
fn opening_resets_the_backoff() {
    let mut s = Session::new(0);
    s.retry(0);
    s.retry(0);
    assert!(!s.may_try(3999));
    assert!(s.may_try(4000));
    s.opened(5000);
    assert!(s.connected);
    assert_eq!(s.conn_try_count, 0);
    s.reset(6000, true);
    assert!(!s.connected);
    assert_eq!(s.conn_try_next, 11000);
    s.opened(12000);
    s.reset(20000, false);
    assert!(!s.connected);
    assert_eq!(s.conn_try_count, 0);
    assert_eq!(s.conn_try_next, 80000);
}

#[test]
fn hellos() {
    let mut s = Session::new(0);
    s.opened(0);
    s.hello_received(1000);
    s.hello_sent(1000);
    assert!(!s.hello_due(15999));
    assert!(s.hello_due(16000));
    assert!(!s.hello_timeout(61000));
    assert!(s.hello_timeout(61001));
}
