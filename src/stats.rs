//! Character level and experience, and the status effects a character can carry.
use vstd::prelude::*;

verus! {

/// Experience needed to pass `level`: 100 plus 50 per square level.
pub open spec fn exp_needed_spec(level: int) -> int {
    100 + level * level * 50
}

/// Character level and experience.
#[derive(Debug, Clone, Copy, PartialEq, Eq, Structural)]
pub struct Level {
    pub current_level: i32,
    pub current_exp: i32,
    pub exp_to_next_level: i32,
}

impl Level {
    /// Level 1 with no experience.
    pub fn new() -> (r: Self)
        ensures
            r.current_level == 1,
            r.current_exp == 0,
            r.exp_to_next_level == exp_needed_spec(1),
    {
        Level { current_level: 1, current_exp: 0, exp_to_next_level: Self::calculate_exp_needed(1) }
    }

    /// Experience needed to pass `level`.
    fn calculate_exp_needed(level: i32) -> (r: i32)
        requires
            exp_needed_spec(level as int) <= i32::MAX,
        ensures
            r == exp_needed_spec(level as int),
    {
        assert(0 <= level * level) by (nonlinear_arith);
        assert(level * level <= level * level * 50) by (nonlinear_arith)
            requires 0 <= level * level;
        let sq = level as i64 * level as i64;
        assert(sq * 50 <= i32::MAX);
        (100 + sq * 50) as i32
    }

    /// Adds `exp` experience. When the total reaches the threshold, the
    /// threshold is taken off, the level goes up by one, the next threshold
    /// is set, and the new level is returned; else `None`.
    pub fn add_exp(&mut self, exp: i32) -> (r: Option<i32>)
        requires
            i32::MIN <= old(self).current_exp + exp <= i32::MAX,
            old(self).current_exp + exp >= old(self).exp_to_next_level ==> {
                &&& old(self).current_exp + exp - old(self).exp_to_next_level <= i32::MAX
                &&& old(self).current_level + 1 <= i32::MAX
                &&& exp_needed_spec(old(self).current_level + 1) <= i32::MAX
            },
        ensures
            ({
                let total = old(self).current_exp + exp;
                if total >= old(self).exp_to_next_level {
                    &&& final(self).current_exp == total - old(self).exp_to_next_level
                    &&& final(self).current_level == old(self).current_level + 1
                    &&& final(self).exp_to_next_level == exp_needed_spec(old(self).current_level + 1)
                    &&& r == Some(final(self).current_level)
                } else {
                    &&& final(self).current_exp == total
                    &&& final(self).current_level == old(self).current_level
                    &&& final(self).exp_to_next_level == old(self).exp_to_next_level
                    &&& r is None
                }
            }),
    {
        self.current_exp = self.current_exp + exp;
        if self.current_exp >= self.exp_to_next_level {
            self.current_exp = self.current_exp - self.exp_to_next_level;
            self.current_level = self.current_level + 1;
            self.exp_to_next_level = Self::calculate_exp_needed(self.current_level);
            Some(self.current_level)
        } else {
            None
        }
    }
}

/// Status effects that can be applied to characters.
#[derive(Debug, Clone, Copy, PartialEq, Eq, Structural)]
pub enum StatusEffect {
    Poisoned,
    Burning,
    Frozen,
    Stunned,
    Blessed,
    Cursed,
    Hasted,
    Slowed,
    Invulnerable,
    Regenerating,
}

} // verus!
