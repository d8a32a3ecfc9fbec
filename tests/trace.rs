use raytrace::trace::{budget_exhausted, next_action, TraceAction, TraceEvent};

#[test]
fn budget_cut_off() {
    assert!(budget_exhausted(0));
    assert!(budget_exhausted(-3));
    assert!(!budget_exhausted(1));
    assert!(!budget_exhausted(50));
}

#[test]
fn miss_gives_background() {
    assert_eq!(next_action(1, TraceEvent::Miss), TraceAction::Background);
    assert_eq!(next_action(50, TraceEvent::Miss), TraceAction::Background);
}

#[test]
fn absorbed_gives_black() {
    assert_eq!(next_action(5, TraceEvent::Absorbed), TraceAction::Black);
}

#[test]
fn scatter_spends_one_bounce() {
    assert_eq!(next_action(50, TraceEvent::Scattered), TraceAction::Bounce(49));
    assert_eq!(next_action(1, TraceEvent::Scattered), TraceAction::Bounce(0));
    assert_eq!(next_action(i32::MAX, TraceEvent::Scattered), TraceAction::Bounce(i32::MAX - 1));
}

#[test]
fn always_scattering_path_stops_at_budget() {
    let mut depth: i32 = 50;
    let mut bounces = 0;
    while !budget_exhausted(depth) {
        match next_action(depth, TraceEvent::Scattered) {
            TraceAction::Bounce(d) => {
                depth = d;
                bounces += 1;
            }
            other => panic!("unexpected action {:?}", other),
        }
    }
    assert_eq!(bounces, 50);
    assert_eq!(depth, 0);
}
