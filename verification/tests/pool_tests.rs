use certus_gateway::pool::{BorrowOutcome, ConnectionPool, PooledConnection, Protocol};

fn pool(max: usize) -> ConnectionPool {
    ConnectionPool::new(String::from("127.0.0.1:7001"), max, Protocol::HTTP1)
}

#[test]
fn admission_refuses_second_borrow_at_capacity_one() {
    let mut p = pool(1);
    assert_eq!(p.try_borrow(), BorrowOutcome::MustOpen);
    p.register_opened();
    assert_eq!(p.total_connections, 1);
    assert_eq!(p.try_borrow(), BorrowOutcome::Overloaded);
    assert_eq!(p.total_connections, 1);
}

#[test]
fn reusable_release_hands_same_handle_back() {
    let mut p = pool(4);
    assert_eq!(p.try_borrow(), BorrowOutcome::MustOpen);
    p.register_opened();
    let total_before_release = p.total_connections;
    p.release(PooledConnection::Http1(42), true);
    assert_eq!(p.total_connections, total_before_release - 1);
    match p.try_borrow() {
        BorrowOutcome::Reused(id) => assert_eq!(id, 42),
        other => panic!("expected reuse, got {:?}", other),
    }
    assert_eq!(p.total_connections, total_before_release);
}

#[test]
fn non_reusable_release_forces_fresh_connection() {
    let mut p = pool(4);
    assert_eq!(p.try_borrow(), BorrowOutcome::MustOpen);
    p.register_opened();
    p.release(PooledConnection::Http1(42), false);
    assert_eq!(p.total_connections, 0);
    assert_eq!(p.try_borrow(), BorrowOutcome::MustOpen);
}

#[test]
fn idle_queue_is_first_in_first_out() {
    let mut p = pool(8);
    assert_eq!(p.try_borrow(), BorrowOutcome::MustOpen);
    p.register_opened();
    assert_eq!(p.try_borrow(), BorrowOutcome::MustOpen);
    p.register_opened();
    p.release(PooledConnection::Http1(1), true);
    p.release(PooledConnection::Http1(2), true);
    assert_eq!(p.try_borrow(), BorrowOutcome::Reused(1));
    assert_eq!(p.try_borrow(), BorrowOutcome::Reused(2));
}

#[test]
fn release_decrements_exactly_once() {
    let mut p = pool(2);
    assert_eq!(p.try_borrow(), BorrowOutcome::MustOpen);
    p.register_opened();
    assert_eq!(p.try_borrow(), BorrowOutcome::MustOpen);
    p.register_opened();
    assert_eq!(p.total_connections, 2);
    p.release(PooledConnection::Http1(7), false);
    assert_eq!(p.total_connections, 1);
    p.release(PooledConnection::Http1(8), true);
    assert_eq!(p.total_connections, 0);
    assert_eq!(p.try_borrow(), BorrowOutcome::Reused(8));
}

#[test]
fn pool_keeps_its_protocol_tag() {
    let p = pool(1);
    let c = p.make_connection(5);
    assert!(matches!(c, PooledConnection::Http1(5)));
    let p2 = ConnectionPool::new(String::from("127.0.0.1:7002"), 1, Protocol::HTTP2);
    assert!(matches!(p2.make_connection(9), PooledConnection::Http2(9)));
}
