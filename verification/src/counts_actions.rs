use vstd::prelude::*;

use crate::number_text::{f64_at_least, f64_value};

verus! {

/// Which level curve a counter follows. The curve itself (how many actions
/// in total it takes to reach a given level) is evaluated by the caller and
/// handed to the counter as plain integers.
#[derive(Clone, Copy, Debug, PartialEq, Eq, Structural)]
pub enum LevelCurve {
    /// The curve of the skill counters.
    Skill,
    /// The curve of the job archetype counters.
    JobArchetype,
}

/// Counts performed actions and turns them into levels.
#[derive(Clone, Copy, Debug)]
pub struct CountsActions {
    pub level: i64,
    pub actions_done_current_level: i64,
    pub actions_done_total: i64,
    pub actions_to_reach_level: LevelCurve,
    pub actions_flat: i64,
}

impl CountsActions {
    /// A counter is well formed when its level is at least one and the actions
    /// of the current level are part of the total.
    pub open spec fn wf(self) -> bool {
        &&& self.level >= 1
        &&& 0 <= self.actions_done_current_level <= self.actions_done_total
    }

    /// The counter can record one more action without leaving `i64`.
    pub open spec fn can_count(self) -> bool {
        &&& self.actions_done_total < i64::MAX
        &&& self.level < i64::MAX
    }

    /// The counter after one recorded action, when the current level takes
    /// `threshold` actions. The level goes up once the actions of the level,
    /// converted to `f64`, reach the threshold converted to `f64`.
    pub open spec fn after_action(self, threshold: int) -> CountsActions {
        if f64_value(self.actions_done_current_level + 1) >= f64_value(threshold) {
            CountsActions {
                level: (self.level + 1) as i64,
                actions_done_current_level: 0,
                actions_done_total: (self.actions_done_total + 1) as i64,
                ..self
            }
        } else {
            CountsActions {
                actions_done_current_level: (self.actions_done_current_level + 1) as i64,
                actions_done_total: (self.actions_done_total + 1) as i64,
                ..self
            }
        }
    }

    /// A fresh counter: level one, no actions yet.
    pub open spec fn new_spec(actions_to_reach_level: LevelCurve, actions_flat: i64) -> CountsActions {
        CountsActions {
            level: 1,
            actions_done_current_level: 0,
            actions_done_total: 0,
            actions_to_reach_level,
            actions_flat,
        }
    }

    pub fn new(actions_to_reach_level: LevelCurve, actions_flat: i64) -> (res: Self)
        ensures
            res == CountsActions::new_spec(actions_to_reach_level, actions_flat),
            res.wf(),
    {
        Self {
            level: 1,
            actions_done_current_level: 0,
            actions_done_total: 0,
            actions_to_reach_level,
            actions_flat,
        }
    }

    /// Actions needed to go from the current level to the next one, given the
    /// curve's value at the current level and at the next level.
    pub fn actions_to_next_level(&self, reach_level: i64, reach_next_level: i64) -> (res: i64)
        requires
            i64::MIN <= self.actions_flat + reach_next_level <= i64::MAX,
            i64::MIN <= self.actions_flat + reach_next_level - reach_level <= i64::MAX,
        ensures
            res == self.actions_flat + reach_next_level - reach_level,
    {
        self.actions_flat + reach_next_level - reach_level
    }

    /// Records one action; the counter levels up once the actions of the
    /// current level reach `actions_to_next_level` (both compared as `f64`).
    pub fn increment_actions(&mut self, actions_to_next_level: i64)
        requires
            old(self).wf(),
            old(self).can_count(),
        ensures
            *final(self) == old(self).after_action(actions_to_next_level as int),
            final(self).wf(),
    {
        self.actions_done_total = self.actions_done_total + 1;
        self.actions_done_current_level = self.actions_done_current_level + 1;

        if f64_at_least(self.actions_done_current_level, actions_to_next_level) {
            self.level_up();
        }
    }

    pub fn level_up(&mut self)
        requires
            old(self).level < i64::MAX,
        ensures
            final(self).level == old(self).level + 1,
            final(self).actions_done_current_level == 0,
            final(self).actions_done_total == old(self).actions_done_total,
            final(self).actions_to_reach_level == old(self).actions_to_reach_level,
            final(self).actions_flat == old(self).actions_flat,
    {
        self.level = self.level + 1;
        self.actions_done_current_level = 0;
    }
}

} // verus!
