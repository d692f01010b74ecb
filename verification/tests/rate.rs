use remcp::rate::{Gate, RateController};
use remcp::server::busy_reply;

#[test]
fn fair_chunk_truncates() {
    // R=256, N=5: integer division truncates, 51 and not 52
    let rc = RateController::new(256);
    assert_eq!(rc.chunk_size(5), 51);
    assert_eq!(rc.chunk_size(1), 256);
    assert_eq!(rc.chunk_size(2), 128);
    assert_eq!(rc.chunk_size(0), 256);
    // the floor: never below one byte per turn
    assert_eq!(rc.chunk_size(1000), 1);
    assert_eq!(RateController::new(0).chunk_size(3), 1);
    // the chunk never grows as clients join
    let mut n: u64 = 1;
    while n < 64 {
        assert!(rc.chunk_size(n + 1) <= rc.chunk_size(n));
        n += 1;
    }
}

#[test]
fn delay_approximates_per_client_rate() {
    let rc = RateController::new(256);
    // 5 clients: per-client rate 51; a full chunk costs 1000 ms
    assert_eq!(rc.delay_ms(51, 5), 1000);
    // half a chunk costs half the time (truncated)
    assert_eq!(rc.delay_ms(25, 5), 490);
    // nobody on record: nothing to pace
    assert_eq!(rc.delay_ms(51, 0), 0);
}

#[test]
fn admission_limit() {
    let mut gate = Gate::new(2);
    assert!(gate.try_admit());
    assert!(gate.try_admit());
    // at the ceiling: refused, count unchanged
    assert!(!gate.try_admit());
    assert_eq!(gate.active_count(), 2);
    // the refused connection is owed exactly the busy line
    assert_eq!(busy_reply(), "ERR Server is busy\n");
    // a disconnect frees a slot
    gate.disconnect();
    assert_eq!(gate.active_count(), 1);
    assert!(gate.try_admit());
}

#[test]
fn admission_limit_zero() {
    let mut gate = Gate::new(0);
    assert!(!gate.try_admit());
    assert_eq!(gate.active_count(), 0);
}
