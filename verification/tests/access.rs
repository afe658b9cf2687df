use botcore::access::{demotion_for, Demotion};

#[test]
fn active_members_keep_their_roles() {
    let ladder = vec![10, 20, 30];
    assert_eq!(demotion_for(&ladder, &vec![10], true), Demotion::Keep);
}

#[test]
fn inactive_members_slide_one_rung_down() {
    let ladder = vec![10, 20, 30];
    assert_eq!(
        demotion_for(&ladder, &vec![99, 10], false),
        Demotion::Move { remove_role: 10, add_role: 20 }
    );
    assert_eq!(
        demotion_for(&ladder, &vec![20], false),
        Demotion::Move { remove_role: 20, add_role: 30 }
    );
}

#[test]
fn the_highest_held_rung_wins() {
    let ladder = vec![10, 20, 30];
    assert_eq!(
        demotion_for(&ladder, &vec![20, 10], false),
        Demotion::Move { remove_role: 10, add_role: 20 }
    );
}

#[test]
fn the_lowest_rung_is_never_taken() {
    let ladder = vec![10, 20, 30];
    assert_eq!(demotion_for(&ladder, &vec![30], false), Demotion::Keep);
    assert_eq!(demotion_for(&ladder, &vec![], false), Demotion::Keep);
}
