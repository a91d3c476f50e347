use voxmagic::hotkey::{HotkeyEvent, HotkeyMonitor, RELEASE_GRACE_MS};

fn run(m: &mut HotkeyMonitor, polls: &[(bool, u64)]) -> Vec<HotkeyEvent> {
    let mut events = Vec::new();
    for &(pressed, now) in polls {
        if let Some(e) = m.tick(pressed, now) {
            events.push(e);
        }
    }
    events
}

#[test]
fn press_then_long_release_publishes_one_pair() {
    let mut m = HotkeyMonitor::new();
    let mut polls = Vec::new();
    let mut t: u64 = 0;
    for _ in 0..5 {
        polls.push((true, t));
        t += 10;
    }
    for _ in 0..30 {
        polls.push((false, t));
        t += 10;
    }
    let events = run(&mut m, &polls);
    assert_eq!(events, vec![HotkeyEvent::Pressed, HotkeyEvent::Released]);
}

#[test]
fn release_fires_only_after_grace_window() {
    let mut m = HotkeyMonitor::new();
    assert_eq!(m.tick(true, 0), Some(HotkeyEvent::Pressed));
    assert_eq!(m.tick(false, 10), None);
    assert_eq!(m.tick(false, 10 + RELEASE_GRACE_MS - 1), None);
    assert_eq!(m.tick(false, 10 + RELEASE_GRACE_MS), Some(HotkeyEvent::Released));
    assert_eq!(m.tick(false, 20 + RELEASE_GRACE_MS), None);
}

#[test]
fn short_release_then_repress_publishes_nothing() {
    let mut m = HotkeyMonitor::new();
    assert_eq!(m.tick(true, 0), Some(HotkeyEvent::Pressed));
    let mut events = Vec::new();
    let mut t: u64 = 10;
    for _ in 0..10 {
        if let Some(e) = m.tick(false, t) {
            events.push(e);
        }
        t += 10;
    }
    if let Some(e) = m.tick(true, t) {
        events.push(e);
    }
    assert!(events.is_empty());
    // The chord is still believed held: a full release still works afterwards.
    let late = run(&mut m, &[(false, t + 10), (false, t + 10 + RELEASE_GRACE_MS)]);
    assert_eq!(late, vec![HotkeyEvent::Released]);
}

#[test]
fn holding_publishes_no_second_press() {
    let mut m = HotkeyMonitor::new();
    let polls: Vec<(bool, u64)> = (0..100u64).map(|i| (true, i * 10)).collect();
    let events = run(&mut m, &polls);
    assert_eq!(events, vec![HotkeyEvent::Pressed]);
}
