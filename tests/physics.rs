use game_core::physics::{
    candidate_pairs, confirmed_contacts, is_integrated, least_axis, pair_test, plan_contact, Axis, ContactFacts, ContactPlan,
    PairTest, ShapeKind,
};

fn facts(trigger_a: bool, trigger_b: bool, static_a: bool, static_b: bool, approaching: bool) -> ContactFacts {
    ContactFacts { trigger_a, trigger_b, static_a, static_b, approaching, normal_up: true, normal_down: false }
}

fn noop() -> ContactPlan {
    ContactPlan {
        correction_a: 0,
        correction_b: 0,
        impulse: false,
        impulse_a: false,
        impulse_b: false,
        ground_a: false,
        ground_b: false,
    }
}

#[test]
fn integrator_skips_static_and_incomplete_bodies() {
    assert!(is_integrated(true, true, false));
    assert!(!is_integrated(true, true, true));
    assert!(!is_integrated(false, true, false));
    assert!(!is_integrated(true, false, false));
}

#[test]
fn pair_test_dispatch() {
    assert_eq!(pair_test(ShapeKind::Box, ShapeKind::Box), PairTest::Boxes);
    assert_eq!(pair_test(ShapeKind::Sphere, ShapeKind::Sphere), PairTest::Spheres);
    assert_eq!(pair_test(ShapeKind::Capsule, ShapeKind::Sphere), PairTest::Spheres);
    assert_eq!(pair_test(ShapeKind::Sphere, ShapeKind::Capsule), PairTest::Spheres);
    assert_eq!(pair_test(ShapeKind::Capsule, ShapeKind::Capsule), PairTest::Spheres);
    assert_eq!(pair_test(ShapeKind::Sphere, ShapeKind::Box), PairTest::SphereBox { swapped: false });
    assert_eq!(pair_test(ShapeKind::Capsule, ShapeKind::Box), PairTest::SphereBox { swapped: false });
    assert_eq!(pair_test(ShapeKind::Box, ShapeKind::Sphere), PairTest::SphereBox { swapped: true });
    assert_eq!(pair_test(ShapeKind::Box, ShapeKind::Capsule), PairTest::SphereBox { swapped: true });
}

#[test]
fn least_axis_breaks_ties_toward_later_axes() {
    // overlaps (0.1, 1, 1): x strictly least
    assert_eq!(least_axis(true, true, false), Axis::X);
    // overlaps (1, 0.5, 1): y least
    assert_eq!(least_axis(false, false, true), Axis::Y);
    // overlaps (1, 1, 0.5): z least
    assert_eq!(least_axis(false, false, false), Axis::Z);
    // overlaps (0.5, 0.5, 1): tie of x and y goes to y
    assert_eq!(least_axis(false, true, true), Axis::Y);
    // all equal: z
    assert_eq!(least_axis(false, false, false), Axis::Z);
}

#[test]
fn broad_phase_lists_eligible_pairs_in_order() {
    let pairs = candidate_pairs(&vec![true, false, true, true]);
    assert_eq!(pairs, vec![(0, 2), (0, 3), (2, 3)]);
    assert_eq!(candidate_pairs(&vec![]), vec![]);
    assert_eq!(candidate_pairs(&vec![true]), vec![]);
    assert_eq!(candidate_pairs(&vec![false, true, false]), vec![]);
    assert_eq!(candidate_pairs(&vec![true, true, true]), vec![(0, 1), (0, 2), (1, 2)]);
}

#[test]
fn trigger_contact_changes_nothing() {
    assert_eq!(plan_contact(facts(true, false, false, false, true)), noop());
    assert_eq!(plan_contact(facts(false, true, false, true, true)), noop());
    assert_eq!(plan_contact(facts(true, true, false, false, false)), noop());
}

#[test]
fn static_pair_changes_nothing() {
    assert_eq!(plan_contact(facts(false, false, true, true, true)), noop());
    assert_eq!(plan_contact(facts(false, false, true, true, false)), noop());
}

#[test]
fn dynamic_pair_splits_correction_and_exchanges_impulse() {
    // The normal points up from A to B: B is the upper body.
    let p = plan_contact(facts(false, false, false, false, true));
    assert_eq!(p.correction_a, 1);
    assert_eq!(p.correction_b, 1);
    assert!(p.impulse && p.impulse_a && p.impulse_b);
    assert!(!p.ground_a);
    assert!(p.ground_b);
}

#[test]
fn one_static_body_takes_no_share() {
    // A static, B dynamic, the normal (from A toward B) pointing down: B lies
    // below A and takes the whole correction and the impulse, but is not grounded.
    let f = ContactFacts {
        trigger_a: false,
        trigger_b: false,
        static_a: true,
        static_b: false,
        approaching: true,
        normal_up: false,
        normal_down: true,
    };
    let p = plan_contact(f);
    assert_eq!(p.correction_a, 0);
    assert_eq!(p.correction_b, 2);
    assert!(p.impulse && !p.impulse_a && p.impulse_b);
    assert!(!p.ground_a && !p.ground_b);

    // A dynamic, B static, normal up: A lies below B and is not grounded.
    let p = plan_contact(facts(false, false, false, true, true));
    assert_eq!((p.correction_a, p.correction_b), (2, 0));
    assert!(p.impulse_a && !p.impulse_b && !p.ground_a && !p.ground_b);
}

#[test]
fn resting_box_on_static_box_is_grounded_in_either_order() {
    // Box first: the normal points down from the box to the floor.
    let box_first = ContactFacts { normal_up: false, normal_down: true, ..facts(false, false, false, true, true) };
    let p = plan_contact(box_first);
    assert!(p.ground_a && !p.ground_b);
    // Floor first: the normal points up from the floor to the box.
    let floor_first = facts(false, false, true, false, true);
    let p = plan_contact(floor_first);
    assert!(!p.ground_a && p.ground_b);
}

#[test]
fn separating_bodies_get_correction_only() {
    let p = plan_contact(facts(false, false, false, false, false));
    assert_eq!((p.correction_a, p.correction_b), (1, 1));
    assert!(!p.impulse && !p.impulse_a && !p.impulse_b);
    assert!(!p.ground_a && !p.ground_b);
}

#[test]
fn grounded_flags_follow_the_normal() {
    // Normal pointing up from A: B is above and is marked grounded.
    let up = plan_contact(facts(false, false, false, false, true));
    assert!(!up.ground_a && up.ground_b);
    // Normal pointing down from A: A is above and is marked grounded.
    let down = ContactFacts { normal_up: false, normal_down: true, ..facts(false, false, false, false, true) };
    let p = plan_contact(down);
    assert!(p.ground_a && !p.ground_b);
    // A horizontal normal grounds neither.
    let side = ContactFacts { normal_up: false, normal_down: false, ..facts(false, false, false, false, true) };
    let p = plan_contact(side);
    assert!(!p.ground_a && !p.ground_b);
    // Bodies moving apart are not grounded.
    let apart = plan_contact(facts(false, false, false, false, false));
    assert!(!apart.ground_a && !apart.ground_b);
}

#[test]
fn no_overlap_no_contact() {
    let pairs = vec![(0, 1), (0, 2), (1, 2)];
    let none: Vec<Option<(i32, i32)>> = vec![None, None, None];
    assert!(confirmed_contacts(&pairs, &none).is_empty());
    let some = vec![None, Some((5, 1)), Some((7, 2))];
    assert_eq!(confirmed_contacts(&pairs, &some), vec![(0, 2, (5, 1)), (1, 2, (7, 2))]);
    assert!(confirmed_contacts::<u8>(&vec![], &vec![]).is_empty());
}
