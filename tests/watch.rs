use ssg::watch::{classify, show_path, step, Action, EventKind, Received, Trigger, TriggerKind, WatchState};

#[test]
fn access_event_gives_no_trigger() {
    assert!(Trigger::new(EventKind::Access, vec![String::from("/r/x.txt")], String::from("/r")).is_none());
    assert_eq!(classify(EventKind::Access), None);
    assert_eq!(step(WatchState::Active, Received::Event(EventKind::Access)), (WatchState::Active, Action::Skip));
}

#[test]
fn create_event_is_shown_relative_to_root() {
    let trigger = Trigger::new(EventKind::Create, vec![String::from("/r/x.txt")], String::from("/r")).unwrap();
    assert_eq!(trigger.kind, TriggerKind::Create);
    assert_eq!(trigger.render(), "create x.txt");
}

#[test]
fn path_outside_root_is_shown_as_is() {
    let trigger = Trigger::new(
        EventKind::Modify,
        vec![String::from("/r/a/b.scss"), String::from("/elsewhere/c"), String::from("/rx/d")],
        String::from("/r"),
    )
    .unwrap();
    assert_eq!(trigger.render(), "modify a/b.scss, /elsewhere/c, /rx/d");
}

#[test]
fn every_other_kind_is_classified() {
    assert_eq!(classify(EventKind::Any), Some(TriggerKind::Any));
    assert_eq!(classify(EventKind::Create), Some(TriggerKind::Create));
    assert_eq!(classify(EventKind::Modify), Some(TriggerKind::Modify));
    assert_eq!(classify(EventKind::Remove), Some(TriggerKind::Remove));
    assert_eq!(classify(EventKind::Other), Some(TriggerKind::Other));
    assert_eq!(TriggerKind::Remove.as_str(), "remove");
    assert_eq!(TriggerKind::Any.as_str(), "any");
    assert_eq!(TriggerKind::Other.as_str(), "other");
    assert_eq!(TriggerKind::Modify.as_str(), "modify");
}

#[test]
fn trigger_without_paths_shows_kind_only() {
    let trigger = Trigger::new(EventKind::Remove, Vec::new(), String::from("/r")).unwrap();
    assert_eq!(trigger.render(), "remove ");
}

#[test]
fn events_are_emitted_and_errors_reported() {
    assert_eq!(
        step(WatchState::Active, Received::Event(EventKind::Create)),
        (WatchState::Active, Action::Emit(TriggerKind::Create))
    );
    assert_eq!(step(WatchState::Active, Received::Failed), (WatchState::Active, Action::Fail));
}

#[test]
fn closed_channel_ends_watching_for_good() {
    let (state, action) = step(WatchState::Active, Received::Closed);
    assert_eq!((state, action), (WatchState::Closed, Action::End));
    assert_eq!(step(state, Received::Event(EventKind::Create)), (WatchState::Closed, Action::End));
    assert_eq!(step(state, Received::Closed), (WatchState::Closed, Action::End));
}

#[test]
fn shown_path_prefers_the_stripped_rest() {
    assert_eq!(show_path("/r/x.txt", Some(String::from("x.txt"))), "x.txt");
    assert_eq!(show_path("/other/x.txt", None), "/other/x.txt");
}

#[test]
fn access_events_then_closed_channel_end_without_trigger() {
    let mut state = WatchState::Active;
    for _ in 0..3 {
        let (next, action) = step(state, Received::Event(EventKind::Access));
        assert_eq!(action, Action::Skip);
        state = next;
    }
    assert_eq!(step(state, Received::Closed), (WatchState::Closed, Action::End));
}

#[test]
fn trigger_has_debug_output() {
    let trigger = Trigger::new(EventKind::Create, vec![String::from("/r/x.txt")], String::from("/r")).unwrap();
    assert!(format!("{:?}", trigger).contains("Create"));
}
