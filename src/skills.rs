//! Skill identifiers and kinds.
use vstd::prelude::*;

verus! {

/// Unique skill identifier.
#[derive(Debug, Clone, Copy, PartialEq, Eq, Hash, Structural)]
pub struct SkillId(pub u32);

/// Whether a skill is used on demand or always in effect.
#[derive(Debug, Clone, Copy, PartialEq, Eq, Structural)]
pub enum SkillType {
    /// Must be activated.
    Active,
    /// Always in effect.
    Passive,
}

} // verus!
