use vstd::prelude::*;

use crate::counts_actions::{CountsActions, LevelCurve};
use crate::game::{add_to, amount_of, distinct_keys, Effect, Inventory, Item, WoodItem};
use crate::skill::SkillArchetype;

verus! {

#[derive(Clone, Copy, Debug, Hash, PartialEq, Eq, Structural)]
pub enum LumberingJobArchetype {
    Kindlewood,
    Craftwood,
    Graintree,
}

#[derive(Clone, Copy, Debug, Hash, PartialEq, Eq, Structural)]
pub enum MiningJobArchetype {
    Iron,
}

#[derive(Clone, Copy, Debug, Hash, PartialEq, Eq, Structural)]
pub enum HuntingJobArchetype {
    Deer,
}

#[derive(Clone, Copy, Debug, Hash, PartialEq, Eq, Structural)]
pub enum HerbalismJobArchetype {
    Herb,
}

#[derive(Clone, Copy, Debug, Hash, PartialEq, Eq, Structural)]
pub enum CookingJobArchetype {
    Sandwich,
}

#[derive(Clone, Copy, Debug, Hash, PartialEq, Eq, Structural)]
pub enum AlchemyJobArchetype {
    ManaPotion,
}

#[derive(Clone, Copy, Debug, Hash, PartialEq, Eq, Structural)]
pub enum SmithingJobArchetype {
    IronBar,
}

#[derive(Clone, Copy, Debug, Hash, PartialEq, Eq, Structural)]
pub enum JobArchetype {
    Lumbering(LumberingJobArchetype),
    Mining(MiningJobArchetype),
    Hunting(HuntingJobArchetype),
    Herbalism(HerbalismJobArchetype),
    Smithing(SmithingJobArchetype),
    Cooking(CookingJobArchetype),
    Alchemy(AlchemyJobArchetype),
}

/// Every job archetype, in the order in which the game lists them:
/// the lumbering products, then mining, hunting, herbalism, cooking, alchemy
/// and smithing.
pub open spec fn all_job_archetypes() -> Seq<JobArchetype> {
    seq![
        JobArchetype::Lumbering(LumberingJobArchetype::Kindlewood),
        JobArchetype::Lumbering(LumberingJobArchetype::Craftwood),
        JobArchetype::Lumbering(LumberingJobArchetype::Graintree),
        JobArchetype::Mining(MiningJobArchetype::Iron),
        JobArchetype::Hunting(HuntingJobArchetype::Deer),
        JobArchetype::Herbalism(HerbalismJobArchetype::Herb),
        JobArchetype::Cooking(CookingJobArchetype::Sandwich),
        JobArchetype::Alchemy(AlchemyJobArchetype::ManaPotion),
        JobArchetype::Smithing(SmithingJobArchetype::IronBar),
    ]
}

/// Whether an inventory map holds every required amount.
pub open spec fn has_items(m: Map<Item, int>, reqs: Seq<(Item, i64)>) -> bool {
    forall|i: int| 0 <= i < reqs.len() ==> amount_of(m, #[trigger] reqs[i].0) >= reqs[i].1
}

/// The inventory map after taking away each required amount, in order.
pub open spec fn remove_items(m: Map<Item, int>, reqs: Seq<(Item, i64)>) -> Map<Item, int>
    decreases reqs.len(),
{
    if reqs.len() == 0 {
        m
    } else {
        add_to(remove_items(m, reqs.drop_last()), reqs.last().0, -reqs.last().1)
    }
}

impl JobArchetype {
    pub open spec fn name(self) -> Seq<char> {
        match self {
            JobArchetype::Lumbering(LumberingJobArchetype::Kindlewood) => "Kindlewood"@,
            JobArchetype::Lumbering(LumberingJobArchetype::Craftwood) => "Craftwood"@,
            JobArchetype::Lumbering(LumberingJobArchetype::Graintree) => "Graintree"@,
            JobArchetype::Mining(MiningJobArchetype::Iron) => "Mining"@,
            JobArchetype::Hunting(HuntingJobArchetype::Deer) => "Deer"@,
            JobArchetype::Cooking(CookingJobArchetype::Sandwich) => "Sandwich"@,
            JobArchetype::Alchemy(AlchemyJobArchetype::ManaPotion) => "Mana Potion"@,
            JobArchetype::Herbalism(HerbalismJobArchetype::Herb) => "Herb"@,
            JobArchetype::Smithing(SmithingJobArchetype::IronBar) => "Iron Bar"@,
        }
    }

    pub open spec fn product(self) -> Item {
        match self {
            JobArchetype::Lumbering(LumberingJobArchetype::Kindlewood) => Item::Wood(
                WoodItem::Kindlewood,
            ),
            JobArchetype::Lumbering(LumberingJobArchetype::Craftwood) => Item::Wood(
                WoodItem::Craftwood,
            ),
            JobArchetype::Lumbering(LumberingJobArchetype::Graintree) => Item::Wood(
                WoodItem::Graintree,
            ),
            JobArchetype::Mining(MiningJobArchetype::Iron) => Item::Iron,
            JobArchetype::Hunting(HuntingJobArchetype::Deer) => Item::Meat,
            JobArchetype::Cooking(CookingJobArchetype::Sandwich) => Item::Sandwich,
            JobArchetype::Alchemy(AlchemyJobArchetype::ManaPotion) => Item::ManaPotion,
            JobArchetype::Herbalism(HerbalismJobArchetype::Herb) => Item::Herb,
            JobArchetype::Smithing(SmithingJobArchetype::IronBar) => Item::IronBar,
        }
    }

    pub open spec fn required_items(self) -> Seq<(Item, i64)> {
        match self {
            JobArchetype::Cooking(CookingJobArchetype::Sandwich) => seq![
                (Item::Wood(WoodItem::Kindlewood), 4i64),
                (Item::Meat, 1i64),
                (Item::Herb, 1i64),
                (Item::ManaPotion, 1i64),
            ],
            JobArchetype::Alchemy(AlchemyJobArchetype::ManaPotion) => seq![(Item::Herb, 1i64)],
            JobArchetype::Smithing(SmithingJobArchetype::IronBar) => seq![(Item::Iron, 2i64)],
            _ => seq![],
        }
    }

    pub open spec fn skill_type(self) -> SkillArchetype {
        match self {
            JobArchetype::Lumbering(_) => SkillArchetype::Lumbering,
            JobArchetype::Mining(_) => SkillArchetype::Mining,
            JobArchetype::Hunting(_) => SkillArchetype::Hunting,
            JobArchetype::Herbalism(_) => SkillArchetype::Herbalism,
            JobArchetype::Cooking(_) => SkillArchetype::Cooking,
            JobArchetype::Alchemy(_) => SkillArchetype::Alchemy,
            JobArchetype::Smithing(_) => SkillArchetype::Smithing,
        }
    }

    /// The effects that one finished action of this job has, in order.
    pub open spec fn completion_effects(self) -> Seq<Effect> {
        seq![
            Effect::AddItem { item: self.product(), amount: 1 },
            Effect::IncrementActionsForSkill { skill_type: self.skill_type() },
            Effect::IncrementActionsForJobType { job_type: self },
        ]
    }

    /// Every job archetype, in the order in which the game lists them.
    pub fn variants() -> (res: Vec<JobArchetype>)
        ensures
            res@ == all_job_archetypes(),
    {
        let mut res = Vec::new();
        res.push(JobArchetype::Lumbering(LumberingJobArchetype::Kindlewood));
        res.push(JobArchetype::Lumbering(LumberingJobArchetype::Craftwood));
        res.push(JobArchetype::Lumbering(LumberingJobArchetype::Graintree));
        res.push(JobArchetype::Mining(MiningJobArchetype::Iron));
        res.push(JobArchetype::Hunting(HuntingJobArchetype::Deer));
        res.push(JobArchetype::Herbalism(HerbalismJobArchetype::Herb));
        res.push(JobArchetype::Cooking(CookingJobArchetype::Sandwich));
        res.push(JobArchetype::Alchemy(AlchemyJobArchetype::ManaPotion));
        res.push(JobArchetype::Smithing(SmithingJobArchetype::IronBar));
        assert(res@ =~= all_job_archetypes());
        res
    }

    pub fn get_name(&self) -> (res: String)
        ensures
            res@ == self.name(),
    {
        match self {
            JobArchetype::Lumbering(LumberingJobArchetype::Kindlewood) => "Kindlewood".to_string(),
            JobArchetype::Lumbering(LumberingJobArchetype::Craftwood) => "Craftwood".to_string(),
            JobArchetype::Lumbering(LumberingJobArchetype::Graintree) => "Graintree".to_string(),
            JobArchetype::Mining(MiningJobArchetype::Iron) => "Mining".to_string(),
            JobArchetype::Hunting(HuntingJobArchetype::Deer) => "Deer".to_string(),
            JobArchetype::Cooking(CookingJobArchetype::Sandwich) => "Sandwich".to_string(),
            JobArchetype::Alchemy(AlchemyJobArchetype::ManaPotion) => "Mana Potion".to_string(),
            JobArchetype::Herbalism(HerbalismJobArchetype::Herb) => "Herb".to_string(),
            JobArchetype::Smithing(SmithingJobArchetype::IronBar) => "Iron Bar".to_string(),
        }
    }

    pub fn get_product(&self) -> (res: Item)
        ensures
            res == self.product(),
    {
        match self {
            JobArchetype::Lumbering(LumberingJobArchetype::Kindlewood) => Item::Wood(
                WoodItem::Kindlewood,
            ),
            JobArchetype::Lumbering(LumberingJobArchetype::Craftwood) => Item::Wood(
                WoodItem::Craftwood,
            ),
            JobArchetype::Lumbering(LumberingJobArchetype::Graintree) => Item::Wood(
                WoodItem::Graintree,
            ),
            JobArchetype::Mining(MiningJobArchetype::Iron) => Item::Iron,
            JobArchetype::Hunting(HuntingJobArchetype::Deer) => Item::Meat,
            JobArchetype::Cooking(CookingJobArchetype::Sandwich) => Item::Sandwich,
            JobArchetype::Alchemy(AlchemyJobArchetype::ManaPotion) => Item::ManaPotion,
            JobArchetype::Herbalism(HerbalismJobArchetype::Herb) => Item::Herb,
            JobArchetype::Smithing(SmithingJobArchetype::IronBar) => Item::IronBar,
        }
    }

    pub fn get_required_items(&self) -> (res: Vec<(Item, i64)>)
        ensures
            res@ == self.required_items(),
    {
        let mut res = Vec::new();
        match self {
            JobArchetype::Cooking(CookingJobArchetype::Sandwich) => {
                res.push((Item::Wood(WoodItem::Kindlewood), 4i64));
                res.push((Item::Meat, 1i64));
                res.push((Item::Herb, 1i64));
                res.push((Item::ManaPotion, 1i64));
            },
            JobArchetype::Alchemy(AlchemyJobArchetype::ManaPotion) => {
                res.push((Item::Herb, 1i64));
            },
            JobArchetype::Smithing(SmithingJobArchetype::IronBar) => {
                res.push((Item::Iron, 2i64));
            },
            _ => {},
        }
        assert(res@ =~= self.required_items());
        res
    }

    pub fn get_completion_effect(&self) -> (res: Effect)
        ensures
            res == (Effect::AddItem { item: self.product(), amount: 1 }),
    {
        Effect::AddItem { item: self.get_product(), amount: 1 }
    }

    pub fn get_skill_type(&self) -> (res: SkillArchetype)
        ensures
            res == self.skill_type(),
    {
        match self {
            JobArchetype::Lumbering(LumberingJobArchetype::Kindlewood) => SkillArchetype::Lumbering,
            JobArchetype::Lumbering(LumberingJobArchetype::Craftwood) => SkillArchetype::Lumbering,
            JobArchetype::Lumbering(LumberingJobArchetype::Graintree) => SkillArchetype::Lumbering,
            JobArchetype::Mining(MiningJobArchetype::Iron) => SkillArchetype::Mining,
            JobArchetype::Hunting(HuntingJobArchetype::Deer) => SkillArchetype::Hunting,
            JobArchetype::Herbalism(HerbalismJobArchetype::Herb) => SkillArchetype::Herbalism,
            JobArchetype::Cooking(CookingJobArchetype::Sandwich) => SkillArchetype::Cooking,
            JobArchetype::Alchemy(AlchemyJobArchetype::ManaPotion) => SkillArchetype::Alchemy,
            JobArchetype::Smithing(SmithingJobArchetype::IronBar) => SkillArchetype::Smithing,
        }
    }
}

/// The requirements of every job name distinct items, each in an amount
/// between one and four.
pub proof fn lemma_required_items_shape(job: JobArchetype)
    ensures
        distinct_keys(job.required_items()),
        forall|i: int|
            0 <= i < job.required_items().len() ==> 1 <= #[trigger] job.required_items()[i].1 <= 4,
{
}

pub struct JobArchetypeInstance {
    pub job_archetype: JobArchetype,
    pub action_counter: CountsActions,
}

impl JobArchetypeInstance {
    pub fn new(job_archetype: JobArchetype) -> (res: Self)
        ensures
            res.job_archetype == job_archetype,
            res.action_counter == CountsActions::new_spec(LevelCurve::JobArchetype, 1),
    {
        Self { job_archetype, action_counter: CountsActions::new(LevelCurve::JobArchetype, 1) }
    }

    pub fn increment_actions(&mut self, actions_to_next_level: i64)
        requires
            old(self).action_counter.wf(),
            old(self).action_counter.can_count(),
        ensures
            final(self).job_archetype == old(self).job_archetype,
            final(self).action_counter == old(self).action_counter.after_action(
                actions_to_next_level as int,
            ),
    {
        self.action_counter.increment_actions(actions_to_next_level)
    }
}

/// One running job: which archetype it works on, whether it runs, and whether
/// the resources of its current action have been paid.
#[derive(Clone, Copy, Debug, PartialEq, Eq, Structural)]
pub struct JobInstance {
    pub job_archetype: JobArchetype,
    pub running: bool,
    pub timeslot_cost: i32,
    pub has_paid_resources: bool,
}

pub struct JobParameters {
    pub job_archetype: JobArchetype,
}

impl JobInstance {
    pub open spec fn new_spec(job_archetype: JobArchetype) -> JobInstance {
        JobInstance { job_archetype, running: true, timeslot_cost: 1, has_paid_resources: false }
    }

    pub fn new(p: JobParameters) -> (res: Self)
        ensures
            res == JobInstance::new_spec(p.job_archetype),
    {
        Self {
            job_archetype: p.job_archetype,
            running: true,
            timeslot_cost: 1,
            has_paid_resources: false,
        }
    }

    pub fn toggle_running(&mut self)
        ensures
            *final(self) == (JobInstance { running: !old(self).running, ..*old(self) }),
    {
        self.running = !self.running;
    }

    /// Whether the job may make progress, and the inventory after paying for
    /// the current action where that is due.
    pub open spec fn prepare_spec(self, inv: Map<Item, int>) -> (bool, JobInstance, Map<Item, int>) {
        let reqs = self.job_archetype.required_items();
        if self.has_paid_resources {
            (true, self, inv)
        } else if has_items(inv, reqs) {
            (true, JobInstance { has_paid_resources: true, ..self }, remove_items(inv, reqs))
        } else {
            (false, self, inv)
        }
    }

    /// Makes the job ready to progress: unless the current action is already
    /// paid, it takes the required items from the inventory, all of them or,
    /// when one falls short, none. Returns whether the job may progress.
    pub fn prepare_action(&mut self, inventory: &mut Inventory) -> (ready: bool)
        requires
            old(inventory).wf(),
        ensures
            final(inventory).wf(),
            (ready, *final(self), final(inventory)@) == old(self).prepare_spec(old(inventory)@),
    {
        if self.has_paid_resources {
            return true;
        }
        let required_items = self.job_archetype.get_required_items();
        let ghost reqs = required_items@;
        proof {
            lemma_required_items_shape(self.job_archetype);
        }

        let mut i: usize = 0;
        while i < required_items.len()
            invariant
                required_items@ == reqs,
                reqs == self.job_archetype.required_items(),
                *inventory == *old(inventory),
                *self == *old(self),
                !self.has_paid_resources,
                inventory.wf(),
                i <= reqs.len(),
                forall|j: int| 0 <= j < i ==> amount_of(inventory@, #[trigger] reqs[j].0) >= reqs[j].1,
            decreases reqs.len() - i,
        {
            let (item, amount) = required_items[i];
            if inventory.get_item_amount(&item) < amount {
                assert(amount_of(inventory@, reqs[i as int].0) < reqs[i as int].1);
                assert(!has_items(inventory@, reqs));
                return false;
            }
            i = i + 1;
        }
        assert(has_items(inventory@, reqs));

        let ghost start = inventory@;
        let mut k: usize = 0;
        while k < required_items.len()
            invariant
                required_items@ == reqs,
                reqs == self.job_archetype.required_items(),
                distinct_keys(reqs),
                forall|j: int| 0 <= j < reqs.len() ==> 1 <= #[trigger] reqs[j].1 <= 4,
                has_items(start, reqs),
                inventory.wf(),
                k <= reqs.len(),
                inventory@ == remove_items(start, reqs.take(k as int)),
            decreases reqs.len() - k,
        {
            let (item, amount) = required_items[k];
            proof {
                let prefix = reqs.take(k as int);
                assert forall|j: int| 0 <= j < prefix.len() implies #[trigger] prefix[j].0 != item by {
                    assert(prefix[j] == reqs[j]);
                    assert(reqs[k as int].0 == item);
                }
                crate::laws::law_payment_touches_only_required_items(start, prefix, item);
                crate::game::lemma_amount_in_range(inventory, item);
                assert(amount_of(start, reqs[k as int].0) >= reqs[k as int].1);
                assert(reqs.take(k + 1).drop_last() =~= prefix);
            }
            inventory.add_item(item, -amount);
            k = k + 1;
        }
        assert(reqs.take(reqs.len() as int) =~= reqs);
        self.has_paid_resources = true;
        true
    }

    /// The job's requirements, each with whether the player has enough of it
    /// for the current action: the action is paid already, or the inventory
    /// holds the amount.
    pub open spec fn resource_status(self, inv: Map<Item, int>) -> Seq<(Item, i64, bool)> {
        self.job_archetype.required_items().map_values(
            |r: (Item, i64)| (r.0, r.1, r.1 <= amount_of(inv, r.0) || self.has_paid_resources),
        )
    }

    /// What a job card shows of the job's requirements: each required item,
    /// its amount, and whether the player has enough of it.
    pub fn required_resources(&self, inventory: &Inventory) -> (res: Vec<(Item, i64, bool)>)
        requires
            inventory.wf(),
        ensures
            res@ == self.resource_status(inventory@),
    {
        let required_items = self.job_archetype.get_required_items();
        let mut res: Vec<(Item, i64, bool)> = Vec::new();
        let mut i: usize = 0;
        while i < required_items.len()
            invariant
                required_items@ == self.job_archetype.required_items(),
                inventory.wf(),
                i <= required_items@.len(),
                res@ == self.resource_status(inventory@).take(i as int),
            decreases required_items@.len() - i,
        {
            let (item, amount) = required_items[i];
            let enough = amount <= inventory.get_item_amount(&item) || self.has_paid_resources;
            res.push((item, amount, enough));
            i = i + 1;
            assert(res@ =~= self.resource_status(inventory@).take(i as int));
        }
        assert(res@ =~= self.resource_status(inventory@));
        res
    }

    /// Ends the current action: the next action will have to be paid again.
    /// Returns the effects of the finished action.
    pub fn finish_action(&mut self) -> (effects: Vec<Effect>)
        ensures
            *final(self) == (JobInstance { has_paid_resources: false, ..*old(self) }),
            effects@ == old(self).job_archetype.completion_effects(),
    {
        self.has_paid_resources = false;
        let mut effects = Vec::new();
        effects.push(Effect::AddItem { item: self.job_archetype.get_product(), amount: 1 });
        effects.push(
            Effect::IncrementActionsForSkill { skill_type: self.job_archetype.get_skill_type() },
        );
        effects.push(Effect::IncrementActionsForJobType { job_type: self.job_archetype });
        assert(effects@ =~= self.job_archetype.completion_effects());
        effects
    }
}

} // verus!

verus! {

/// The first position in `s` whose archetype is `ja`.
pub open spec fn first_archetype_position(s: Seq<JobArchetypeInstance>, ja: JobArchetype) -> int {
    choose|i: int|
        0 <= i < s.len() && s[i].job_archetype == ja && forall|j: int|
            0 <= j < i ==> #[trigger] s[j].job_archetype != ja
}

/// `s` holds an instance of archetype `ja`.
pub open spec fn has_archetype(s: Seq<JobArchetypeInstance>, ja: JobArchetype) -> bool {
    exists|i: int| 0 <= i < s.len() && #[trigger] s[i].job_archetype == ja
}

pub struct JobArchetypeInstances {
    pub instances: Vec<JobArchetypeInstance>,
}

impl JobArchetypeInstances {
    /// One instance per archetype, in the order of `all_job_archetypes`, each
    /// with a well formed counter.
    pub open spec fn wf(&self) -> bool {
        &&& self.instances@.len() == all_job_archetypes().len()
        &&& forall|i: int|
            0 <= i < self.instances@.len() ==> (#[trigger] self.instances@[i]).job_archetype
                == all_job_archetypes()[i] && self.instances@[i].action_counter.wf()
    }

    /// Position of the first instance of `job_type`, which must exist.
    fn position(&self, job_type: &JobArchetype) -> (k: usize)
        requires
            has_archetype(self.instances@, *job_type),
        ensures
            k == first_archetype_position(self.instances@, *job_type),
            k < self.instances@.len(),
    {
        let mut k: usize = 0;
        while k < self.instances.len()
            invariant
                k <= self.instances@.len(),
                has_archetype(self.instances@, *job_type),
                forall|j: int| 0 <= j < k ==> #[trigger] self.instances@[j].job_archetype != *job_type,
            decreases self.instances@.len() - k,
        {
            if self.instances[k].job_archetype == *job_type {
                let ghost p = first_archetype_position(self.instances@, *job_type);
                assert(p == k) by {
                    let s = self.instances@;
                    assert(0 <= p < s.len() && s[p].job_archetype == *job_type && forall|j: int|
                        0 <= j < p ==> #[trigger] s[j].job_archetype != *job_type);
                    if p < k {
                    } else if p > k {
                        assert(s[k as int].job_archetype != *job_type);
                    }
                }
                return k;
            }
            k = k + 1;
        }
        assert(false);
        0
    }

    pub fn new() -> (res: Self)
        ensures
            res.wf(),
            forall|i: int|
                0 <= i < res.instances@.len() ==> (#[trigger] res.instances@[i]).action_counter
                    == CountsActions::new_spec(LevelCurve::JobArchetype, 1),
    {
        let archetypes = JobArchetype::variants();
        let mut instances: Vec<JobArchetypeInstance> = Vec::new();
        let mut i: usize = 0;
        while i < archetypes.len()
            invariant
                archetypes@ == all_job_archetypes(),
                i <= archetypes@.len(),
                instances@.len() == i,
                forall|j: int|
                    0 <= j < i ==> (#[trigger] instances@[j]).job_archetype == all_job_archetypes()[j]
                        && instances@[j].action_counter == CountsActions::new_spec(
                        LevelCurve::JobArchetype,
                        1,
                    ),
            decreases archetypes@.len() - i,
        {
            instances.push(JobArchetypeInstance::new(archetypes[i]));
            i = i + 1;
        }
        Self { instances }
    }

    /// Records one action of `job_type`.
    pub fn increment_actions_for(&mut self, job_type: &JobArchetype, actions_to_next_level: i64)
        requires
            old(self).wf(),
            old(self).instances@[job_type.index()].action_counter.can_count(),
        ensures
            final(self).wf(),
            final(self).instances@ == old(self).instances@.update(
                job_type.index(),
                JobArchetypeInstance {
                    action_counter: old(self).instances@[job_type.index()].action_counter.after_action(
                        actions_to_next_level as int,
                    ),
                    ..old(self).instances@[job_type.index()]
                },
            ),
    {
        proof {
            lemma_archetype_position(self, *job_type);
            lemma_all_job_archetypes(*job_type);
        }
        self.get_archetype_mut(job_type).increment_actions(actions_to_next_level);
        proof {
            let k = job_type.index();
            assert forall|i: int| 0 <= i < self.instances@.len() implies (#[trigger] self.instances@[i]).job_archetype
                == all_job_archetypes()[i] && self.instances@[i].action_counter.wf() by {
                if i != k {
                    assert(self.instances@[i] == old(self).instances@[i]);
                }
            }
        }
    }

    pub fn get_archetype(&self, job_type: &JobArchetype) -> (res: &JobArchetypeInstance)
        requires
            has_archetype(self.instances@, *job_type),
        ensures
            *res == self.instances@[first_archetype_position(self.instances@, *job_type)],
    {
        let k = self.position(job_type);
        &self.instances[k]
    }

    pub fn get_archetype_mut(&mut self, job_type: &JobArchetype) -> (res: &mut JobArchetypeInstance)
        requires
            has_archetype(old(self).instances@, *job_type),
        ensures
            *res == old(self).instances@[first_archetype_position(old(self).instances@, *job_type)],
            final(self).instances@ == old(self).instances@.update(
                first_archetype_position(old(self).instances@, *job_type),
                *final(res),
            ),
    {
        let k = self.position(job_type);
        &mut self.instances[k]
    }
}

/// In a well formed collection, the instance of an archetype sits at that
/// archetype's place in `all_job_archetypes`.
pub proof fn lemma_archetype_position(instances: &JobArchetypeInstances, ja: JobArchetype)
    requires
        instances.wf(),
    ensures
        has_archetype(instances.instances@, ja),
        first_archetype_position(instances.instances@, ja) == ja.index(),
{
    let s = instances.instances@;
    let k = ja.index();
    lemma_all_job_archetypes(ja);
    assert(s[k].job_archetype == ja);
    assert forall|j: int| 0 <= j < k implies #[trigger] s[j].job_archetype != ja by {
        assert(s[j].job_archetype == all_job_archetypes()[j]);
    }
    let p = first_archetype_position(s, ja);
    if p != k {
        assert(s[p].job_archetype == all_job_archetypes()[p]);
    }
}

} // verus!

verus! {

impl JobArchetype {
    /// The place of this archetype in `all_job_archetypes`.
    pub open spec fn index(self) -> int {
        match self {
            JobArchetype::Lumbering(LumberingJobArchetype::Kindlewood) => 0,
            JobArchetype::Lumbering(LumberingJobArchetype::Craftwood) => 1,
            JobArchetype::Lumbering(LumberingJobArchetype::Graintree) => 2,
            JobArchetype::Mining(MiningJobArchetype::Iron) => 3,
            JobArchetype::Hunting(HuntingJobArchetype::Deer) => 4,
            JobArchetype::Herbalism(HerbalismJobArchetype::Herb) => 5,
            JobArchetype::Cooking(CookingJobArchetype::Sandwich) => 6,
            JobArchetype::Alchemy(AlchemyJobArchetype::ManaPotion) => 7,
            JobArchetype::Smithing(SmithingJobArchetype::IronBar) => 8,
        }
    }
}

/// Every job archetype occurs in `all_job_archetypes`, exactly once.
pub proof fn lemma_all_job_archetypes(ja: JobArchetype)
    ensures
        0 <= ja.index() < all_job_archetypes().len(),
        all_job_archetypes()[ja.index()] == ja,
        forall|i: int|
            0 <= i < all_job_archetypes().len() && #[trigger] all_job_archetypes()[i] == ja ==> i
                == ja.index(),
{
}

} // verus!
