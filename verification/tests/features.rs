use botcore::collector::{ControlId, ControlKind};
use botcore::features::{BrowseAction, BrowseEvent, FeatureBrowser, FeatureState};

fn control(kind: ControlKind) -> BrowseEvent {
    BrowseEvent::Control(ControlId { correlation: 7, kind })
}

fn select(code: i64) -> BrowseEvent {
    BrowseEvent::Select(ControlId { correlation: 7, kind: ControlKind::Filter }, code)
}

#[test]
fn state_codes_round_trip() {
    for s in [
        FeatureState::All,
        FeatureState::ToDo,
        FeatureState::Implemented,
        FeatureState::Rejected,
        FeatureState::Postponed,
    ] {
        assert_eq!(FeatureState::from_code(s.code()), s);
    }
    assert_eq!(FeatureState::from_code(99), FeatureState::All);
    assert_eq!(FeatureState::ToDo.label(), "To Do");
    assert_eq!(FeatureState::All.label(), "All");
}

#[test]
fn browsing_pages_with_wraparound() {
    let mut b = FeatureBrowser::new(7, 12, 5);
    assert_eq!(b.step(&control(ControlKind::Next)), BrowseAction::UpdateView);
    assert_eq!(b.page.offset, 5);
    assert_eq!(b.step(&control(ControlKind::Next)), BrowseAction::UpdateView);
    assert_eq!(b.page.offset, 10);
    assert_eq!(b.step(&control(ControlKind::Next)), BrowseAction::UpdateView);
    assert_eq!(b.page.offset, 0);
    assert_eq!(b.step(&control(ControlKind::Prev)), BrowseAction::UpdateView);
    assert_eq!(b.page.offset, 10);
}

#[test]
fn selecting_a_new_filter_resets_the_page() {
    let mut b = FeatureBrowser::new(7, 12, 5);
    b.step(&control(ControlKind::Next));
    assert_eq!(b.page.offset, 5);

    assert_eq!(b.step(&select(1)), BrowseAction::FetchCount);
    assert_eq!(b.filter, FeatureState::Implemented);
    assert_eq!(b.page.offset, 0);
    b.apply_count(3);
    assert_eq!(b.page.total, 3);
}

#[test]
fn selecting_the_active_filter_only_acknowledges() {
    let mut b = FeatureBrowser::new(7, 12, 5);
    b.step(&control(ControlKind::Next));
    let offset_before = b.page.offset;

    // the browser starts on All, whose stored code is -1
    assert_eq!(b.step(&select(-1)), BrowseAction::AlreadyShowing);
    assert_eq!(b.filter, FeatureState::All);
    assert_eq!(b.page.offset, offset_before);
}

#[test]
fn the_header_shows_filter_offset_and_count() {
    let mut b = FeatureBrowser::new(7, 12, 5);
    assert_eq!(b.list_header(), "**All** Features 0/12");
    b.step(&control(ControlKind::Next));
    assert_eq!(b.list_header(), "**All** Features 5/12");
    b.step(&select(2));
    b.apply_count(4);
    assert_eq!(b.list_header(), "**Rejected** 0/4");
}

#[test]
fn refresh_and_strays_and_timeout() {
    let mut b = FeatureBrowser::new(7, 12, 5);
    assert_eq!(b.step(&control(ControlKind::Refresh)), BrowseAction::FetchCount);

    let foreign = BrowseEvent::Control(ControlId { correlation: 8, kind: ControlKind::Next });
    assert_eq!(b.step(&foreign), BrowseAction::Ignored);
    assert_eq!(b.page.offset, 0);

    let odd = control(ControlKind::Boop);
    assert_eq!(b.step(&odd), BrowseAction::Ignored);

    assert_eq!(b.step(&BrowseEvent::TimedOut), BrowseAction::Ended);
}
