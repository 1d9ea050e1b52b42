//! Game logic with verified contracts: the discrete decisions of the rigid
//! body simulation (broad phase, shape-test dispatch, contact resolution
//! plans), and the role-playing rules around it (inventory, equipment,
//! levels, quest flags, dialogue, quests, the noise permutation table).
use vstd::prelude::*;

pub mod enemy;
pub mod items;
pub mod keyed;
pub mod noise;
pub mod physics;
pub mod player;
pub mod skills;
pub mod stats;
pub mod story;

verus! {

} // verus!
