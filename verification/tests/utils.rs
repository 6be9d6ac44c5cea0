use simpletcp::utils::{event_occurred, remaining_wait, translate_event, EV_POLLIN, EV_POLLOUT};

#[test]
fn event_constants() {
    assert_eq!(EV_POLLIN, 1);
    assert_eq!(EV_POLLOUT, 2);
}

#[test]
fn translate_each_event() {
    assert_eq!(translate_event(0, 0x001, 0x004), 0);
    assert_eq!(translate_event(EV_POLLIN, 0x001, 0x004), 0x001);
    assert_eq!(translate_event(EV_POLLOUT, 0x001, 0x004), 0x004);
    assert_eq!(translate_event(EV_POLLIN | EV_POLLOUT, 0x001, 0x004), 0x005);
    assert_eq!(translate_event(EV_POLLIN | 8, 0x100, 0x010), 0x100);
}

#[test]
fn event_occurred_wants_exactly_what_was_asked() {
    assert!(event_occurred(EV_POLLIN, 0x001, 0x001, 0x004));
    assert!(!event_occurred(EV_POLLIN, 0x000, 0x001, 0x004));
    assert!(!event_occurred(EV_POLLIN | EV_POLLOUT, 0x004, 0x001, 0x004));
    assert!(event_occurred(EV_POLLIN | EV_POLLOUT, 0x005, 0x001, 0x004));
    assert!(!event_occurred(EV_POLLOUT, 0x00c, 0x001, 0x004));
}

#[test]
fn remaining_wait_counts_down() {
    assert_eq!(remaining_wait(1000, 0), Some(1000));
    assert_eq!(remaining_wait(1000, 500), Some(500));
    assert_eq!(remaining_wait(1000, 1000), Some(0));
    assert_eq!(remaining_wait(1000, 1001), None);
    assert_eq!(remaining_wait(1000, 1200), None);
    assert_eq!(remaining_wait(0, 0), Some(0));
    assert_eq!(remaining_wait(i32::MAX, 1), Some(i32::MAX - 1));
}

#[test]
fn remaining_wait_handles_the_edges() {
    assert_eq!(remaining_wait(-1, 0), None);
    assert_eq!(remaining_wait(i32::MIN, 5), None);
    assert_eq!(remaining_wait(10, u128::MAX), None);
    assert_eq!(remaining_wait(10, 1 << 32), None);
}
