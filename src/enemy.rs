//! How enemies behave and what state their AI is in.
use vstd::prelude::*;

verus! {

/// Enemy AI behavior types.
#[derive(Debug, Clone, Copy, PartialEq, Eq, Structural)]
pub enum AIBehavior {
    /// Attacks only when already in combat.
    Passive,
    /// Attacks on sight.
    Aggressive,
    /// Patrols an area around its spawn point.
    Patrol,
    /// Guards its spawn point.
    Guard,
    /// Runs away from the player.
    Flee,
    Boss,
}

/// The state an enemy's AI is in.
#[derive(Debug, Clone, Copy, PartialEq, Eq, Structural)]
pub enum EnemyState {
    Idle,
    Patrolling,
    Combat,
    Fleeing,
}

} // verus!
