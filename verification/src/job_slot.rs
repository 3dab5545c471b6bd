use vstd::prelude::*;

use crate::job::JobInstance;
use crate::skill::{SkillArchetype, SkillCategory};

verus! {

#[derive(Clone, Copy, Debug, PartialEq, Eq, Structural)]
pub enum JobSlotState {
    Locked,
    Empty,
    PickingCategory,
    PickingSkill(SkillCategory),
    PickingProduct(SkillArchetype),
    RunningJob(JobInstance),
}

#[derive(Clone, Copy, Debug, PartialEq, Eq, Structural)]
pub struct JobSlot {
    pub index: usize,
    pub state: JobSlotState,
}

} // verus!
