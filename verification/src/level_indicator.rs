//! Level progression: a running level counter and its high-water mark,
//! advanced once per level-completed event. The on-screen widgets that show
//! these numbers belong to the rendering collaborator.

use vstd::prelude::*;

verus! {

/// Emitted whenever a level milestone is reached: a capsule pickup, a wave
/// wipe with a lapsed cooldown, or a player death resetting progress.
#[derive(Clone, Copy, PartialEq, Eq, Structural, Debug)]
pub struct LevelCompletedEvent {}

/// Largest level count `update_level_complete` accepts without risking
/// overflow.
pub const SCORE_LIMIT: i64 = 1_000_000_000_000;

/// Largest batch of level-completed events accepted in one tick.
pub const LEVEL_EVENT_LIMIT: usize = 1_000_000;

/// The level counter and its high-water mark, read by external display.
#[derive(Clone, Copy, PartialEq, Eq, Structural, Debug)]
pub struct ScoreManager {
    pub curr_level: i64,
    pub max_level: i64,
}

impl ScoreManager {
    pub open spec fn wf(self) -> bool {
        0 <= self.curr_level <= self.max_level
    }

    pub fn new() -> (m: ScoreManager)
        ensures
            m == (ScoreManager { curr_level: 1, max_level: 1 }),
    {
        ScoreManager { curr_level: 1, max_level: 1 }
    }
}

/// Advances the level counter once per completed level and raises the
/// high-water mark whenever the counter passes it.
pub fn update_level_complete(score: &mut ScoreManager, events: &Vec<LevelCompletedEvent>)
    requires
        -SCORE_LIMIT <= old(score).curr_level <= SCORE_LIMIT,
        -SCORE_LIMIT <= old(score).max_level <= SCORE_LIMIT,
        events@.len() <= LEVEL_EVENT_LIMIT,
    ensures
        final(score).curr_level == old(score).curr_level + events@.len(),
        final(score).max_level == (if events@.len() > 0 && old(score).curr_level + events@.len()
            > old(score).max_level {
            old(score).curr_level + events@.len() as int
        } else {
            old(score).max_level as int
        }),
{
    let mut i: usize = 0;
    while i < events.len()
        invariant
            i <= events@.len() <= LEVEL_EVENT_LIMIT,
            -SCORE_LIMIT <= old(score).curr_level <= SCORE_LIMIT,
            -SCORE_LIMIT <= old(score).max_level <= SCORE_LIMIT,
            score.curr_level == old(score).curr_level + i,
            score.max_level == (if i > 0 && old(score).curr_level + i > old(score).max_level {
                old(score).curr_level + i as int
            } else {
                old(score).max_level as int
            }),
        decreases events@.len() - i,
    {
        score.curr_level = score.curr_level + 1;
        if score.curr_level > score.max_level {
            score.max_level = score.curr_level;
        }
        i = i + 1;
    }
}

} // verus!
