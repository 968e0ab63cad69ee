use whereyoufrom::addr::Address;
use whereyoufrom::server::{
    assess_startup, select_bound, TransportLoopState, ERROR_THRESHOLD,
};

fn a(last: u8) -> Address {
    Address::V4 { o0: 10, o1: 0, o2: 0, o3: last, port: 6969 }
}

#[test]
fn connection_numbers_start_at_one_and_increase() {
    // Two sequential connections on the same listener get numbers 1 then 2.
    let mut st = TransportLoopState::new();
    assert_eq!(st.record_success(), 1);
    assert_eq!(st.record_success(), 2);
    assert!(!st.is_closed());
}

#[test]
fn failures_do_not_advance_the_counter() {
    let mut st = TransportLoopState::new();
    st.record_failure();
    st.record_failure();
    assert_eq!(st.record_success(), 1);
    assert_eq!(st.consecutive_errors, 0);
}

#[test]
fn success_resets_the_error_count() {
    let mut st = TransportLoopState::new();
    for _ in 0..(ERROR_THRESHOLD - 1) {
        st.record_failure();
    }
    assert!(!st.is_closed());
    st.record_success();
    assert_eq!(st.consecutive_errors, 0);
    // The reset means the threshold needs ten fresh consecutive failures.
    for _ in 0..(ERROR_THRESHOLD - 1) {
        st.record_failure();
    }
    assert!(!st.is_closed());
}

#[test]
fn ten_consecutive_failures_close_the_loop() {
    let mut st = TransportLoopState::new();
    for i in 0..ERROR_THRESHOLD {
        assert!(!st.is_closed());
        assert_eq!(st.consecutive_errors, i);
        st.record_failure();
    }
    assert!(st.is_closed());
    assert_eq!(st.connection_count, 0);
}

#[test]
fn listeners_are_independent() {
    let mut one = TransportLoopState::new();
    let mut other = TransportLoopState::new();
    for _ in 0..ERROR_THRESHOLD {
        one.record_failure();
    }
    assert!(one.is_closed());
    assert!(!other.is_closed());
    assert_eq!(other.record_success(), 1);
}

#[test]
fn select_bound_keeps_exactly_the_bound_addresses() {
    let addrs = vec![a(1), a(2), a(3)];
    let live = select_bound(&addrs, &vec![true, false, true]);
    assert_eq!(live, vec![a(1), a(3)]);
    let none = select_bound(&addrs, &vec![false, false, false]);
    assert!(none.is_empty());
    let all = select_bound(&addrs, &vec![true, true, true]);
    assert_eq!(all, addrs);
}

#[test]
fn assessment_is_fatal_only_when_nothing_bound() {
    let r = assess_startup(2, 2, 0, 0);
    assert!(r.fatal);
    assert!(!r.tcp_warning && !r.udp_warning);

    let r = assess_startup(2, 2, 0, 1);
    assert!(!r.fatal);
    assert!(r.tcp_warning);
    assert!(!r.udp_warning);

    let r = assess_startup(0, 2, 0, 2);
    assert!(!r.fatal);
    assert!(!r.tcp_warning);
    assert!(!r.udp_warning);

    let r = assess_startup(1, 1, 1, 1);
    assert!(!r.fatal && !r.tcp_warning && !r.udp_warning);
}
