//! The discrete decisions of one simulation tick: which bodies the
//! integrator advances, which pairs of colliders are tested, which shape
//! test a pair takes, and how a detected contact is answered. The
//! arithmetic on positions and velocities is done by the caller with
//! these decisions in hand.
use vstd::prelude::*;

verus! {

/// The kind of a collider's shape, without its dimensions.
#[derive(Debug, Clone, Copy, PartialEq, Eq, Structural)]
pub enum ShapeKind {
    Box,
    Sphere,
    /// Tested as a sphere of the capsule's radius in every pairing.
    Capsule,
}

/// One of the three coordinate axes.
#[derive(Debug, Clone, Copy, PartialEq, Eq, Structural)]
pub enum Axis {
    X,
    Y,
    Z,
}

/// The shape test that a pair of colliders takes.
#[derive(Debug, Clone, Copy, PartialEq, Eq, Structural)]
pub enum PairTest {
    /// Two axis-aligned boxes.
    Boxes,
    /// Two spheres (a capsule counts as a sphere).
    Spheres,
    /// A sphere and a box. With `swapped` the box is the first collider:
    /// the test runs with the arguments exchanged and the normal negated.
    SphereBox { swapped: bool },
}

/// Whether a body with the given components is advanced by the integrator:
/// it needs a transform and a rigidbody, and a static body never moves.
pub fn is_integrated(has_transform: bool, has_rigidbody: bool, is_static: bool) -> (r: bool)
    ensures
        r == (has_transform && has_rigidbody && !is_static),
{
    has_transform && has_rigidbody && !is_static
}

/// A shape that collides as a sphere.
pub open spec fn is_round(k: ShapeKind) -> bool {
    k is Sphere || k is Capsule
}

pub open spec fn pair_test_spec(a: ShapeKind, b: ShapeKind) -> PairTest {
    if a is Box && b is Box {
        PairTest::Boxes
    } else if is_round(a) && is_round(b) {
        PairTest::Spheres
    } else {
        PairTest::SphereBox { swapped: a is Box }
    }
}

/// Picks the shape test for a pair of colliders, the first one being A.
pub fn pair_test(a: ShapeKind, b: ShapeKind) -> (r: PairTest)
    ensures
        r == pair_test_spec(a, b),
        r is Boxes <==> (a is Box && b is Box),
        r is Spheres <==> (is_round(a) && is_round(b)),
        r matches PairTest::SphereBox { swapped } ==> (swapped <==> a is Box) && (swapped <==> is_round(b)),
{
    match (a, b) {
        (ShapeKind::Box, ShapeKind::Box) => PairTest::Boxes,
        (ShapeKind::Box, _) => PairTest::SphereBox { swapped: true },
        (_, ShapeKind::Box) => PairTest::SphereBox { swapped: false },
        _ => PairTest::Spheres,
    }
}

pub open spec fn least_axis_spec(x_lt_y: bool, x_lt_z: bool, y_lt_z: bool) -> Axis {
    if x_lt_y && x_lt_z {
        Axis::X
    } else if y_lt_z {
        Axis::Y
    } else {
        Axis::Z
    }
}

/// Chooses the axis of least overlap from the three strict comparisons of
/// the overlaps. X wins only when it is strictly below both others; of Y
/// and Z, Y wins only when strictly below Z: ties go to the later axis.
pub fn least_axis(x_lt_y: bool, x_lt_z: bool, y_lt_z: bool) -> (r: Axis)
    ensures
        r == least_axis_spec(x_lt_y, x_lt_z, y_lt_z),
{
    if x_lt_y && x_lt_z {
        Axis::X
    } else if y_lt_z {
        Axis::Y
    } else {
        Axis::Z
    }
}

/// Pair (a, b) comes strictly before pair (c, d) in enumeration order.
pub open spec fn pair_before(p: (usize, usize), q: (usize, usize)) -> bool {
    p.0 < q.0 || (p.0 == q.0 && p.1 < q.1)
}

/// (i, j) is a candidate pair: i before j, and both entities have a
/// transform and a collider.
pub open spec fn is_candidate(eligible: Seq<bool>, i: int, j: int) -> bool {
    0 <= i < j < eligible.len() && eligible[i] && eligible[j]
}

/// `pairs` lists every candidate pair of `eligible` once, in enumeration order.
pub open spec fn lists_candidates(eligible: Seq<bool>, pairs: Seq<(usize, usize)>) -> bool {
    &&& forall|k: int|
        0 <= k < pairs.len() ==> #[trigger] is_candidate(eligible, pairs[k].0 as int, pairs[k].1 as int)
    &&& forall|i: int, j: int|
        #[trigger] is_candidate(eligible, i, j) ==> exists|k: int|
            0 <= k < pairs.len() && pairs[k].0 == i && #[trigger] pairs[k].1 == j
    &&& forall|k1: int, k2: int|
        0 <= k1 < k2 < pairs.len() ==> pair_before(#[trigger] pairs[k1], #[trigger] pairs[k2])
}

/// Broad phase: every unordered pair (i, j), i < j, of entities that both
/// have a transform and a collider (`eligible`), in enumeration order.
pub fn candidate_pairs(eligible: &Vec<bool>) -> (r: Vec<(usize, usize)>)
    ensures
        lists_candidates(eligible@, r@),
{
    let n = eligible.len();
    let mut r: Vec<(usize, usize)> = Vec::new();
    let mut i: usize = 0;
    while i < n
        invariant
            n == eligible.len(),
            i <= n,
            forall|k: int| 0 <= k < r.len() ==> #[trigger] is_candidate(eligible@, r@[k].0 as int, r@[k].1 as int),
            forall|k: int| 0 <= k < r.len() ==> (#[trigger] r@[k]).0 < i,
            forall|a: int, b: int|
                #[trigger] is_candidate(eligible@, a, b) && a < i ==> exists|k: int|
                    0 <= k < r.len() && r@[k].0 == a && #[trigger] r@[k].1 == b,
            forall|k1: int, k2: int|
                0 <= k1 < k2 < r.len() ==> pair_before(#[trigger] r@[k1], #[trigger] r@[k2]),
        decreases n - i,
    {
        if eligible[i] {
            let mut j: usize = i + 1;
            while j < n
                invariant
                    n == eligible.len(),
                    i < n,
                    i < j <= n,
                    eligible@[i as int],
                    forall|k: int| 0 <= k < r.len() ==> #[trigger] is_candidate(eligible@, r@[k].0 as int, r@[k].1 as int),
                    forall|k: int| 0 <= k < r.len() ==> (#[trigger] r@[k]).0 < i || (r@[k].0 == i && r@[k].1 < j),
                    forall|a: int, b: int|
                        #[trigger] is_candidate(eligible@, a, b) && (a < i || (a == i && b < j)) ==> exists|k: int|
                            0 <= k < r.len() && r@[k].0 == a && #[trigger] r@[k].1 == b,
                    forall|k1: int, k2: int|
                        0 <= k1 < k2 < r.len() ==> pair_before(#[trigger] r@[k1], #[trigger] r@[k2]),
                decreases n - j,
            {
                if eligible[j] {
                    let ghost old_r = r@;
                    r.push((i, j));
                    assert forall|a: int, b: int|
                        #[trigger] is_candidate(eligible@, a, b) && (a < i || (a == i && b < j + 1)) implies exists|k: int|
                            0 <= k < r.len() && r@[k].0 == a && #[trigger] r@[k].1 == b by {
                        if a == i && b == j {
                            let k = old_r.len() as int;
                            assert(r@[k].0 == a && r@[k].1 == b);
                        } else {
                            assert(a < i || (a == i && b < j));
                            let k = choose|k: int| 0 <= k < old_r.len() && old_r[k].0 == a && #[trigger] old_r[k].1 == b;
                            assert(r@[k] == old_r[k]);
                            assert(r@[k].0 == a && r@[k].1 == b);
                        }
                    }
                }
                j = j + 1;
            }
        } else {
            assert forall|a: int, b: int|
                #[trigger] is_candidate(eligible@, a, b) && a < i + 1 implies exists|k: int|
                    0 <= k < r.len() && r@[k].0 == a && #[trigger] r@[k].1 == b by {
                assert(a != i);
            }
        }
        i = i + 1;
    }
    r
}

/// What the resolver of one contact does to the two bodies. Positional
/// corrections are counted in halves of the penetration depth: A moves
/// back along the normal by `correction_a / 2` times the depth, B forward
/// by `correction_b / 2` times the depth.
#[derive(Debug, Clone, Copy, PartialEq, Eq, Structural)]
pub struct ContactPlan {
    pub correction_a: u8,
    pub correction_b: u8,
    /// A normal impulse (and friction, where the bodies slide) is applied.
    pub impulse: bool,
    pub impulse_a: bool,
    pub impulse_b: bool,
    pub ground_a: bool,
    pub ground_b: bool,
}

/// What the resolver needs to know of a contact, measured by the caller:
/// the trigger flags of both colliders, which bodies are static (mass 0),
/// whether the bodies approach along the normal (relative velocity along
/// it below zero), and whether the normal, which points from A toward B,
/// points up (y above 0.5) or down (y below -0.5).
#[derive(Debug, Clone, Copy, PartialEq, Eq, Structural)]
pub struct ContactFacts {
    pub trigger_a: bool,
    pub trigger_b: bool,
    pub static_a: bool,
    pub static_b: bool,
    pub approaching: bool,
    pub normal_up: bool,
    pub normal_down: bool,
}

/// The plan that changes nothing.
pub open spec fn is_noop(p: ContactPlan) -> bool {
    p.correction_a == 0 && p.correction_b == 0 && !p.impulse && !p.impulse_a && !p.impulse_b
        && !p.ground_a && !p.ground_b
}

/// The contact is resolved at all: no trigger, and at least one body dynamic.
pub open spec fn is_resolved(f: ContactFacts) -> bool {
    !f.trigger_a && !f.trigger_b && !(f.static_a && f.static_b)
}

pub open spec fn plan_spec(f: ContactFacts) -> ContactPlan {
    if !is_resolved(f) {
        ContactPlan {
            correction_a: 0,
            correction_b: 0,
            impulse: false,
            impulse_a: false,
            impulse_b: false,
            ground_a: false,
            ground_b: false,
        }
    } else {
        let share_a: u8 = if f.static_a { 0 } else if f.static_b { 2 } else { 1 };
        let share_b: u8 = if f.static_b { 0 } else if f.static_a { 2 } else { 1 };
        ContactPlan {
            correction_a: share_a,
            correction_b: share_b,
            impulse: f.approaching,
            impulse_a: f.approaching && !f.static_a,
            impulse_b: f.approaching && !f.static_b,
            ground_a: f.approaching && f.normal_down && !f.static_a,
            ground_b: f.approaching && f.normal_up && !f.static_b,
        }
    }
}

/// Decides how one contact is resolved. A trigger on either side, or two
/// static bodies, leave both untouched. Otherwise the penetration is
/// corrected in full, split in halves between two dynamic bodies or given
/// whole to the only dynamic one; an impulse (with friction) and the
/// grounded flags follow only when the bodies approach. The normal points
/// from A toward B, so a body is grounded when it is the upper one: A when
/// the normal points down, B when it points up.
pub fn plan_contact(f: ContactFacts) -> (r: ContactPlan)
    ensures
        r == plan_spec(f),
{
    if f.trigger_a || f.trigger_b || (f.static_a && f.static_b) {
        return ContactPlan {
            correction_a: 0,
            correction_b: 0,
            impulse: false,
            impulse_a: false,
            impulse_b: false,
            ground_a: false,
            ground_b: false,
        };
    }
    let correction_a: u8 = if f.static_a { 0 } else if f.static_b { 2 } else { 1 };
    let correction_b: u8 = if f.static_b { 0 } else if f.static_a { 2 } else { 1 };
    ContactPlan {
        correction_a,
        correction_b,
        impulse: f.approaching,
        impulse_a: f.approaching && !f.static_a,
        impulse_b: f.approaching && !f.static_b,
        ground_a: f.approaching && f.normal_down && !f.static_a,
        ground_b: f.approaching && f.normal_up && !f.static_b,
    }
}

/// A contact with a trigger collider on either side is detected but
/// resolved with no change to either body.
pub proof fn lemma_trigger_changes_nothing(f: ContactFacts)
    requires
        f.trigger_a || f.trigger_b,
    ensures
        is_noop(plan_spec(f)),
{
}

/// A contact between two static bodies is never resolved: neither body changes.
pub proof fn lemma_static_pair_changes_nothing(f: ContactFacts)
    requires
        f.static_a && f.static_b,
    ensures
        is_noop(plan_spec(f)),
{
}

/// A static body is never moved, pushed or marked grounded by a contact.
pub proof fn lemma_static_body_untouched(f: ContactFacts)
    ensures
        f.static_a ==> plan_spec(f).correction_a == 0 && !plan_spec(f).impulse_a && !plan_spec(f).ground_a,
        f.static_b ==> plan_spec(f).correction_b == 0 && !plan_spec(f).impulse_b && !plan_spec(f).ground_b,
{
}

/// A resolved contact is corrected by exactly its penetration depth in all.
pub proof fn lemma_full_correction(f: ContactFacts)
    requires
        is_resolved(f),
    ensures
        plan_spec(f).correction_a + plan_spec(f).correction_b == 2,
{
}

/// A dynamic body pressed onto a body below it is marked grounded,
/// whichever of the two comes first in the pair: as A the normal points
/// down to the body below, as B it points up from it.
pub proof fn lemma_resting_body_grounded(f: ContactFacts)
    requires
        !f.trigger_a && !f.trigger_b,
        f.approaching,
    ensures
        !f.static_a && f.normal_down ==> plan_spec(f).ground_a,
        !f.static_b && f.normal_up ==> plan_spec(f).ground_b,
{
}

/// Narrow-phase results `results[k]` for the candidate pairs `pairs[k]`:
/// the confirmed contacts are the pairs that overlap, with their results.
pub open spec fn confirmed_spec<T>(pairs: Seq<(usize, usize)>, results: Seq<Option<T>>) -> Seq<(usize, usize, T)>
    decreases pairs.len(),
{
    if pairs.len() == 0 || results.len() != pairs.len() {
        Seq::empty()
    } else {
        let rest = confirmed_spec(pairs.drop_last(), results.drop_last());
        match results.last() {
            Some(t) => rest.push((pairs.last().0, pairs.last().1, t)),
            None => rest,
        }
    }
}

/// Contact `c` comes from one of the first `n` pairs, whose test found `c.2`.
pub open spec fn found_among<T>(pairs: Seq<(usize, usize)>, results: Seq<Option<T>>, n: int, c: (usize, usize, T)) -> bool {
    exists|k: int| 0 <= k < n && #[trigger] pairs[k] == (c.0, c.1) && results[k] == Some(c.2)
}

/// Keeps, in order, the candidate pairs whose narrow-phase test found an
/// overlap, with what the test found. When no pair overlaps there is no
/// contact, so resolution has nothing to change.
pub fn confirmed_contacts<T: Copy>(pairs: &Vec<(usize, usize)>, results: &Vec<Option<T>>) -> (r: Vec<(usize, usize, T)>)
    requires
        pairs.len() == results.len(),
    ensures
        r@ == confirmed_spec(pairs@, results@),
        (forall|k: int| 0 <= k < results.len() ==> (#[trigger] results@[k]) is None) ==> r.len() == 0,
        forall|m: int| 0 <= m < r.len() ==> found_among(pairs@, results@, pairs.len() as int, #[trigger] r@[m]),
{
    let mut r: Vec<(usize, usize, T)> = Vec::new();
    let mut i: usize = 0;
    while i < pairs.len()
        invariant
            i <= pairs.len(),
            pairs.len() == results.len(),
            r@ == confirmed_spec(pairs@.subrange(0, i as int), results@.subrange(0, i as int)),
            (forall|k: int| 0 <= k < i ==> (#[trigger] results@[k]) is None) ==> r.len() == 0,
            forall|m: int| 0 <= m < r.len() ==> found_among(pairs@, results@, i as int, #[trigger] r@[m]),
        decreases pairs.len() - i,
    {
        proof {
            assert(pairs@.subrange(0, i as int + 1).drop_last() =~= pairs@.subrange(0, i as int));
            assert(results@.subrange(0, i as int + 1).drop_last() =~= results@.subrange(0, i as int));
        }
        let ghost r0 = r@;
        match results[i] {
            Some(t) => {
                r.push((pairs[i].0, pairs[i].1, t));
                proof {
                    assert forall|m: int| 0 <= m < r.len() implies found_among(pairs@, results@, i + 1, #[trigger] r@[m]) by {
                        if m == r0.len() {
                            assert(pairs@[i as int] == (r@[m].0, r@[m].1));
                        } else {
                            assert(r@[m] == r0[m]);
                            assert(found_among(pairs@, results@, i as int, r0[m]));
                        }
                    }
                }
            },
            None => {
                proof {
                    assert forall|m: int| 0 <= m < r.len() implies found_among(pairs@, results@, i + 1, #[trigger] r@[m]) by {
                        assert(found_among(pairs@, results@, i as int, r@[m]));
                    }
                }
            },
        }
        i = i + 1;
    }
    proof {
        assert(pairs@.subrange(0, i as int) =~= pairs@);
        assert(results@.subrange(0, i as int) =~= results@);
    }
    r
}

} // verus!
