use botcore::collector::{
    classify, decide_confirm, BoopSession, CollectorOutcome, ConfirmOutcome, ControlId,
    ControlKind, MessageView, PageState, PageViewer,
};

#[test]
fn paging_next_wraps_past_the_end() {
    // total = 12, page size = 5: next presses cycle 0 -> 5 -> 10 -> 0 -> 5
    let mut p = PageState::new(12, 5);
    assert_eq!(p.offset, 0);
    p.next_page();
    assert_eq!(p.offset, 5);
    p.next_page();
    assert_eq!(p.offset, 10);
    p.next_page();
    assert_eq!(p.offset, 0);
    p.next_page();
    assert_eq!(p.offset, 5);
}

#[test]
fn paging_prev_from_start_lands_on_the_last_full_page_boundary() {
    let mut p = PageState::new(12, 5);
    // prev from offset 0 wraps to (12 / 5) * 5 = 10, not to 11
    p.prev_page();
    assert_eq!(p.offset, 10);
    p.prev_page();
    assert_eq!(p.offset, 5);
    p.prev_page();
    assert_eq!(p.offset, 0);
}

#[test]
fn refreshing_the_total_keeps_the_offset() {
    let mut p = PageState::new(12, 5);
    p.next_page();
    p.set_total(3);
    assert_eq!(p.offset, 5);
    assert_eq!(p.total, 3);
    // the next press notices the shrunken total and wraps home
    p.next_page();
    assert_eq!(p.offset, 0);
}

#[test]
fn viewer_cycles_through_its_pages_both_ways() {
    let mut v = PageViewer::new(3);
    assert_eq!(v.index, 0);
    v.next_page();
    v.next_page();
    assert_eq!(v.index, 2);
    v.next_page();
    assert_eq!(v.index, 0);
    v.prev_page();
    assert_eq!(v.index, 2);
    v.prev_page();
    assert_eq!(v.index, 1);
}

#[test]
fn classify_sorts_interactions_for_a_session() {
    let known = [ControlKind::Prev, ControlKind::Next];
    assert_eq!(classify(9, None, &known), CollectorOutcome::Timeout);

    let next = ControlId { correlation: 9, kind: ControlKind::Next };
    assert_eq!(
        classify(9, Some(&next), &known),
        CollectorOutcome::Recognized(ControlKind::Next)
    );

    // another invocation's control, and an unknown role of this one
    let foreign = ControlId { correlation: 8, kind: ControlKind::Next };
    assert_eq!(classify(9, Some(&foreign), &known), CollectorOutcome::Unrelated);
    let stray = ControlId { correlation: 9, kind: ControlKind::Cancel };
    assert_eq!(classify(9, Some(&stray), &known), CollectorOutcome::Unrelated);
}

#[test]
fn confirm_dialog_confirms_only_its_own_confirm_control() {
    assert_eq!(decide_confirm(4, None), ConfirmOutcome::TimedOut);

    let yes = ControlId { correlation: 4, kind: ControlKind::Confirm };
    assert_eq!(decide_confirm(4, Some(&yes)), ConfirmOutcome::Confirmed);

    let no = ControlId { correlation: 4, kind: ControlKind::Cancel };
    assert_eq!(decide_confirm(4, Some(&no)), ConfirmOutcome::Cancelled);

    let foreign = ControlId { correlation: 5, kind: ControlKind::Confirm };
    assert_eq!(decide_confirm(4, Some(&foreign)), ConfirmOutcome::Cancelled);
}

#[test]
fn boop_counts_only_its_own_button() {
    let mut s = BoopSession::new(3);
    let own = ControlId { correlation: 3, kind: ControlKind::Boop };
    let foreign = ControlId { correlation: 4, kind: ControlKind::Boop };
    assert!(!s.step(Some(&own)));
    assert!(!s.step(Some(&own)));
    assert!(!s.step(Some(&foreign)));
    assert_eq!(s.count, 2);
    assert!(s.step(None));
    assert_eq!(s.count, 2);
}

#[test]
fn teardown_strips_controls_but_keeps_the_rendering() {
    let mut m = MessageView {
        content: "**Page 2/3**".to_string(),
        embeds: vec!["a feature".to_string(), "another".to_string()],
        controls: vec![
            ControlId { correlation: 1, kind: ControlKind::Prev },
            ControlId { correlation: 1, kind: ControlKind::Next },
        ],
    };
    m.strip_controls();
    assert_eq!(m.content, "**Page 2/3**");
    assert_eq!(m.embeds, vec!["a feature".to_string(), "another".to_string()]);
    assert!(m.controls.is_empty());
}
