use vstd::prelude::*;

use crate::counts_actions::{CountsActions, LevelCurve};
use crate::job::{
    AlchemyJobArchetype, CookingJobArchetype, HerbalismJobArchetype, HuntingJobArchetype,
    JobArchetype, LumberingJobArchetype, MiningJobArchetype, SmithingJobArchetype,
};

verus! {

#[derive(Clone, Copy, Debug, PartialEq, Eq, Structural)]
pub enum SkillCategory {
    Gathering,
    Crafting,
}

#[derive(Clone, Copy, Debug, PartialEq, Eq, Structural)]
pub enum SkillArchetype {
    // Gathering skills
    Lumbering,
    Mining,
    Hunting,
    Herbalism,
    // Crafting skills
    Smithing,
    Alchemy,
    Cooking,
}

/// Every skill category, in declaration order.
pub open spec fn all_skill_categories() -> Seq<SkillCategory> {
    seq![SkillCategory::Gathering, SkillCategory::Crafting]
}

/// Every skill, in declaration order.
pub open spec fn all_skill_archetypes() -> Seq<SkillArchetype> {
    seq![
        SkillArchetype::Lumbering,
        SkillArchetype::Mining,
        SkillArchetype::Hunting,
        SkillArchetype::Herbalism,
        SkillArchetype::Smithing,
        SkillArchetype::Alchemy,
        SkillArchetype::Cooking,
    ]
}

impl SkillCategory {
    pub open spec fn name(self) -> Seq<char> {
        match self {
            SkillCategory::Gathering => "Gathering"@,
            SkillCategory::Crafting => "Crafting"@,
        }
    }

    pub open spec fn skill_archetypes(self) -> Seq<SkillArchetype> {
        match self {
            SkillCategory::Gathering => seq![
                SkillArchetype::Lumbering,
                SkillArchetype::Mining,
                SkillArchetype::Hunting,
                SkillArchetype::Herbalism,
            ],
            SkillCategory::Crafting => seq![
                SkillArchetype::Smithing,
                SkillArchetype::Alchemy,
                SkillArchetype::Cooking,
            ],
        }
    }

    /// Every skill category, in declaration order.
    pub fn variants() -> (res: Vec<SkillCategory>)
        ensures
            res@ == all_skill_categories(),
    {
        let mut res = Vec::new();
        res.push(SkillCategory::Gathering);
        res.push(SkillCategory::Crafting);
        assert(res@ =~= all_skill_categories());
        res
    }

    pub fn as_str(&self) -> (res: &'static str)
        ensures
            res@ == self.name(),
    {
        match self {
            SkillCategory::Gathering => "Gathering",
            SkillCategory::Crafting => "Crafting",
        }
    }

    pub fn get_skill_archetypes(&self) -> (res: Vec<SkillArchetype>)
        ensures
            res@ == self.skill_archetypes(),
    {
        let mut res = Vec::new();
        match self {
            SkillCategory::Gathering => {
                res.push(SkillArchetype::Lumbering);
                res.push(SkillArchetype::Mining);
                res.push(SkillArchetype::Hunting);
                res.push(SkillArchetype::Herbalism);
            },
            SkillCategory::Crafting => {
                res.push(SkillArchetype::Smithing);
                res.push(SkillArchetype::Alchemy);
                res.push(SkillArchetype::Cooking);
            },
        }
        assert(res@ =~= self.skill_archetypes());
        res
    }
}

impl SkillArchetype {
    pub open spec fn name(self) -> Seq<char> {
        match self {
            SkillArchetype::Lumbering => "Lumbering"@,
            SkillArchetype::Mining => "Mining"@,
            SkillArchetype::Hunting => "Hunting"@,
            SkillArchetype::Herbalism => "Herbalism"@,
            SkillArchetype::Smithing => "Smithing"@,
            SkillArchetype::Alchemy => "Alchemy"@,
            SkillArchetype::Cooking => "Cooking"@,
        }
    }

    pub open spec fn job_archetypes(self) -> Seq<JobArchetype> {
        match self {
            SkillArchetype::Alchemy => seq![JobArchetype::Alchemy(AlchemyJobArchetype::ManaPotion)],
            SkillArchetype::Cooking => seq![JobArchetype::Cooking(CookingJobArchetype::Sandwich)],
            SkillArchetype::Lumbering => seq![
                JobArchetype::Lumbering(LumberingJobArchetype::Craftwood),
                JobArchetype::Lumbering(LumberingJobArchetype::Graintree),
            ],
            SkillArchetype::Mining => seq![JobArchetype::Mining(MiningJobArchetype::Iron)],
            SkillArchetype::Hunting => seq![JobArchetype::Hunting(HuntingJobArchetype::Deer)],
            SkillArchetype::Herbalism => seq![JobArchetype::Herbalism(HerbalismJobArchetype::Herb)],
            SkillArchetype::Smithing => seq![JobArchetype::Smithing(SmithingJobArchetype::IronBar)],
        }
    }

    /// Every skill, in declaration order.
    pub fn variants() -> (res: Vec<SkillArchetype>)
        ensures
            res@ == all_skill_archetypes(),
    {
        let mut res = Vec::new();
        res.push(SkillArchetype::Lumbering);
        res.push(SkillArchetype::Mining);
        res.push(SkillArchetype::Hunting);
        res.push(SkillArchetype::Herbalism);
        res.push(SkillArchetype::Smithing);
        res.push(SkillArchetype::Alchemy);
        res.push(SkillArchetype::Cooking);
        assert(res@ =~= all_skill_archetypes());
        res
    }

    pub fn get_name(&self) -> (res: &'static str)
        ensures
            res@ == self.name(),
    {
        match self {
            SkillArchetype::Lumbering => "Lumbering",
            SkillArchetype::Mining => "Mining",
            SkillArchetype::Hunting => "Hunting",
            SkillArchetype::Herbalism => "Herbalism",
            SkillArchetype::Smithing => "Smithing",
            SkillArchetype::Alchemy => "Alchemy",
            SkillArchetype::Cooking => "Cooking",
        }
    }

    pub fn get_job_archetypes(&self) -> (res: Vec<JobArchetype>)
        ensures
            res@ == self.job_archetypes(),
    {
        let mut res = Vec::new();
        match self {
            SkillArchetype::Alchemy => {
                res.push(JobArchetype::Alchemy(AlchemyJobArchetype::ManaPotion));
            },
            SkillArchetype::Cooking => {
                res.push(JobArchetype::Cooking(CookingJobArchetype::Sandwich));
            },
            SkillArchetype::Lumbering => {
                res.push(JobArchetype::Lumbering(LumberingJobArchetype::Craftwood));
                res.push(JobArchetype::Lumbering(LumberingJobArchetype::Graintree));
            },
            SkillArchetype::Mining => {
                res.push(JobArchetype::Mining(MiningJobArchetype::Iron));
            },
            SkillArchetype::Hunting => {
                res.push(JobArchetype::Hunting(HuntingJobArchetype::Deer));
            },
            SkillArchetype::Herbalism => {
                res.push(JobArchetype::Herbalism(HerbalismJobArchetype::Herb));
            },
            SkillArchetype::Smithing => {
                res.push(JobArchetype::Smithing(SmithingJobArchetype::IronBar));
            },
        }
        assert(res@ =~= self.job_archetypes());
        res
    }
}

pub struct SkillArchetypeInstance {
    pub skill_type: SkillArchetype,
    pub actions_counter: CountsActions,
}

impl SkillArchetypeInstance {
    pub fn new(skill_type: SkillArchetype) -> (res: Self)
        ensures
            res.skill_type == skill_type,
            res.actions_counter == CountsActions::new_spec(LevelCurve::Skill, 10),
    {
        Self { skill_type, actions_counter: CountsActions::new(LevelCurve::Skill, 10) }
    }

    pub fn increment_actions(&mut self, actions_to_next_level: i64)
        requires
            old(self).actions_counter.wf(),
            old(self).actions_counter.can_count(),
        ensures
            final(self).skill_type == old(self).skill_type,
            final(self).actions_counter == old(self).actions_counter.after_action(
                actions_to_next_level as int,
            ),
    {
        self.actions_counter.increment_actions(actions_to_next_level);
    }
}

} // verus!

verus! {

impl SkillArchetype {
    /// The place of this skill in `all_skill_archetypes`.
    pub open spec fn index(self) -> int {
        match self {
            SkillArchetype::Lumbering => 0,
            SkillArchetype::Mining => 1,
            SkillArchetype::Hunting => 2,
            SkillArchetype::Herbalism => 3,
            SkillArchetype::Smithing => 4,
            SkillArchetype::Alchemy => 5,
            SkillArchetype::Cooking => 6,
        }
    }
}

/// Every skill occurs in `all_skill_archetypes`, exactly once.
pub proof fn lemma_all_skill_archetypes(s: SkillArchetype)
    ensures
        0 <= s.index() < all_skill_archetypes().len(),
        all_skill_archetypes()[s.index()] == s,
        forall|i: int|
            0 <= i < all_skill_archetypes().len() && #[trigger] all_skill_archetypes()[i] == s ==> i
                == s.index(),
{
}

/// The first position in `s` whose skill is `skill`.
pub open spec fn first_skill_position(s: Seq<SkillArchetypeInstance>, skill: SkillArchetype) -> int {
    choose|i: int|
        0 <= i < s.len() && s[i].skill_type == skill && forall|j: int|
            0 <= j < i ==> #[trigger] s[j].skill_type != skill
}

/// `s` holds an instance of `skill`.
pub open spec fn has_skill(s: Seq<SkillArchetypeInstance>, skill: SkillArchetype) -> bool {
    exists|i: int| 0 <= i < s.len() && #[trigger] s[i].skill_type == skill
}

pub struct SkillArchetypeInstances {
    pub instances: Vec<SkillArchetypeInstance>,
}

impl SkillArchetypeInstances {
    /// One instance per skill, in the order of `all_skill_archetypes`, each
    /// with a well formed counter.
    pub open spec fn wf(&self) -> bool {
        &&& self.instances@.len() == all_skill_archetypes().len()
        &&& forall|i: int|
            0 <= i < self.instances@.len() ==> (#[trigger] self.instances@[i]).skill_type
                == all_skill_archetypes()[i] && self.instances@[i].actions_counter.wf()
    }

    /// Position of the first instance of `skill_type`, which must exist.
    fn position(&self, skill_type: &SkillArchetype) -> (k: usize)
        requires
            has_skill(self.instances@, *skill_type),
        ensures
            k == first_skill_position(self.instances@, *skill_type),
            k < self.instances@.len(),
    {
        let mut k: usize = 0;
        while k < self.instances.len()
            invariant
                k <= self.instances@.len(),
                has_skill(self.instances@, *skill_type),
                forall|j: int| 0 <= j < k ==> #[trigger] self.instances@[j].skill_type != *skill_type,
            decreases self.instances@.len() - k,
        {
            if self.instances[k].skill_type == *skill_type {
                let ghost p = first_skill_position(self.instances@, *skill_type);
                assert(p == k) by {
                    let s = self.instances@;
                    assert(0 <= p < s.len() && s[p].skill_type == *skill_type && forall|j: int|
                        0 <= j < p ==> #[trigger] s[j].skill_type != *skill_type);
                    if p > k {
                        assert(s[k as int].skill_type != *skill_type);
                    }
                }
                return k;
            }
            k = k + 1;
        }
        assert(false);
        0
    }

    pub fn new() -> (res: Self)
        ensures
            res.wf(),
            forall|i: int|
                0 <= i < res.instances@.len() ==> (#[trigger] res.instances@[i]).actions_counter
                    == CountsActions::new_spec(LevelCurve::Skill, 10),
    {
        let skills = SkillArchetype::variants();
        let mut instances: Vec<SkillArchetypeInstance> = Vec::new();
        let mut i: usize = 0;
        while i < skills.len()
            invariant
                skills@ == all_skill_archetypes(),
                i <= skills@.len(),
                instances@.len() == i,
                forall|j: int|
                    0 <= j < i ==> (#[trigger] instances@[j]).skill_type == all_skill_archetypes()[j]
                        && instances@[j].actions_counter == CountsActions::new_spec(
                        LevelCurve::Skill,
                        10,
                    ),
            decreases skills@.len() - i,
        {
            instances.push(SkillArchetypeInstance::new(skills[i]));
            i = i + 1;
        }
        Self { instances }
    }

    pub fn get_skill_by_type_mut(&mut self, skill_type: &SkillArchetype) -> (res: &mut SkillArchetypeInstance)
        requires
            has_skill(old(self).instances@, *skill_type),
        ensures
            *res == old(self).instances@[first_skill_position(old(self).instances@, *skill_type)],
            final(self).instances@ == old(self).instances@.update(
                first_skill_position(old(self).instances@, *skill_type),
                *final(res),
            ),
    {
        let k = self.position(skill_type);
        &mut self.instances[k]
    }

    /// Records one action of `skill_type`.
    pub fn increment_actions_for(&mut self, skill_type: &SkillArchetype, actions_to_next_level: i64)
        requires
            old(self).wf(),
            old(self).instances@[skill_type.index()].actions_counter.can_count(),
        ensures
            final(self).wf(),
            final(self).instances@ == old(self).instances@.update(
                skill_type.index(),
                SkillArchetypeInstance {
                    actions_counter: old(self).instances@[skill_type.index()].actions_counter.after_action(
                        actions_to_next_level as int,
                    ),
                    ..old(self).instances@[skill_type.index()]
                },
            ),
    {
        proof {
            lemma_skill_position(self, *skill_type);
            lemma_all_skill_archetypes(*skill_type);
        }
        self.get_skill_by_type_mut(skill_type).increment_actions(actions_to_next_level);
        proof {
            let k = skill_type.index();
            assert forall|i: int| 0 <= i < self.instances@.len() implies (#[trigger] self.instances@[i]).skill_type
                == all_skill_archetypes()[i] && self.instances@[i].actions_counter.wf() by {
                if i != k {
                    assert(self.instances@[i] == old(self).instances@[i]);
                }
            }
        }
    }

    pub fn get_skill_by_type(&self, skill_type: &SkillArchetype) -> (res: &SkillArchetypeInstance)
        requires
            has_skill(self.instances@, *skill_type),
        ensures
            *res == self.instances@[first_skill_position(self.instances@, *skill_type)],
    {
        let k = self.position(skill_type);
        &self.instances[k]
    }
}

/// In a well formed collection, the instance of a skill sits at that skill's
/// place in `all_skill_archetypes`.
pub proof fn lemma_skill_position(instances: &SkillArchetypeInstances, skill: SkillArchetype)
    requires
        instances.wf(),
    ensures
        has_skill(instances.instances@, skill),
        first_skill_position(instances.instances@, skill) == skill.index(),
{
    let s = instances.instances@;
    let k = skill.index();
    lemma_all_skill_archetypes(skill);
    assert(s[k].skill_type == skill);
    assert forall|j: int| 0 <= j < k implies #[trigger] s[j].skill_type != skill by {
        assert(s[j].skill_type == all_skill_archetypes()[j]);
    }
    let p = first_skill_position(s, skill);
    if p != k {
        assert(s[p].skill_type == all_skill_archetypes()[p]);
    }
}

} // verus!
