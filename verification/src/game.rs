use vstd::prelude::*;

use crate::counts_actions::CountsActions;
use crate::number_text::{
    fixed_text, fixed_to_text, float_quotient_fixed, float_quotient_fixed_exec, int_text, int_to_text,
};
use crate::job::{
    JobArchetype, JobArchetypeInstance, JobArchetypeInstances, JobInstance,
};
use crate::job_slot::{JobSlot, JobSlotState};
use crate::skill::{
    SkillArchetype, SkillArchetypeInstance, SkillArchetypeInstances,
};

verus! {

#[derive(Clone, Copy, Debug, Hash, PartialEq, Eq, Structural)]
pub enum WoodItem {
    Kindlewood,
    Craftwood,
    Graintree,
}

impl WoodItem {
    pub open spec fn name(self) -> Seq<char> {
        match self {
            WoodItem::Kindlewood => "Kindlewood"@,
            WoodItem::Craftwood => "Craftwood"@,
            WoodItem::Graintree => "Graintree"@,
        }
    }

    pub fn get_name(&self) -> (res: String)
        ensures
            res@ == self.name(),
    {
        match self {
            WoodItem::Kindlewood => "Kindlewood".to_string(),
            WoodItem::Craftwood => "Craftwood".to_string(),
            WoodItem::Graintree => "Graintree".to_string(),
        }
    }
}

#[derive(Clone, Copy, Debug, Hash, PartialEq, Eq, Structural)]
pub enum WoodWorkingItem {
    Plank,
}

#[derive(Clone, Copy, Debug, Hash, PartialEq, Eq, Structural)]
pub enum Item {
    Wood(WoodItem),
    Woodworking(WoodWorkingItem),
    Coin,
    Iron,
    Herb,
    Meat,
    Berry,
    IronBar,
    Sandwich,
    ManaPotion,
}

impl Item {
    pub open spec fn name(self) -> Seq<char> {
        match self {
            Item::Coin => "Coin"@,
            Item::Wood(item) => item.name(),
            Item::Woodworking(WoodWorkingItem::Plank) => "Plank"@,
            Item::Iron => "Iron"@,
            Item::Herb => "Herb"@,
            Item::Meat => "Meat"@,
            Item::Berry => "Berry"@,
            Item::IronBar => "Iron Bar"@,
            Item::Sandwich => "Sandwich"@,
            Item::ManaPotion => "Mana Potion"@,
        }
    }

    pub fn get_name(&self) -> (res: String)
        ensures
            res@ == self.name(),
    {
        match self {
            Item::Coin => "Coin".to_string(),
            Item::Wood(item) => item.get_name(),
            Item::Woodworking(WoodWorkingItem::Plank) => "Plank".to_string(),
            Item::Iron => "Iron".to_string(),
            Item::Herb => "Herb".to_string(),
            Item::Meat => "Meat".to_string(),
            Item::Berry => "Berry".to_string(),
            Item::IronBar => "Iron Bar".to_string(),
            Item::Sandwich => "Sandwich".to_string(),
            Item::ManaPotion => "Mana Potion".to_string(),
        }
    }
}

#[derive(Clone, Copy, Debug, PartialEq, Eq, Structural)]
pub enum Effect {
    AddItem { item: Item, amount: i64 },
    IncrementActionsForSkill { skill_type: SkillArchetype },
    IncrementActionsForJobType { job_type: JobArchetype },
}

/// How the game writes a large number: from ten thousand on as thousands
/// (`k`), millions (`m`) or billions (`b`) of the value computed in `f64`,
/// with two decimals; below that, all of its digits.
pub open spec fn pretty_text(num: i64) -> Seq<char> {
    if num >= 1_000_000_000 {
        fixed_text(float_quotient_fixed(num as nat, 9, 53, 2), 2).push('b')
    } else if num >= 1_000_000 {
        fixed_text(float_quotient_fixed(num as nat, 6, 53, 2), 2).push('m')
    } else if num >= 10_000 {
        fixed_text(float_quotient_fixed(num as nat, 3, 53, 2), 2).push('k')
    } else {
        int_text(num as int)
    }
}

fn two_decimals_with_suffix(num: i64, k: u32, suffix: &'static str) -> (res: String)
    requires
        num > 0,
        k <= 9,
    ensures
        res@ == fixed_text(float_quotient_fixed(num as nat, k as nat, 53, 2), 2) + suffix@,
{
    let r = float_quotient_fixed_exec(num as u64, k, 53, 2);
    let mut s = fixed_to_text(r, 2);
    s.append(suffix);
    s
}

pub fn pretty_number(num: i64) -> (res: String)
    ensures
        res@ == pretty_text(num),
{
    proof {
        reveal_strlit("b");
        reveal_strlit("m");
        reveal_strlit("k");
    }
    let res = if num >= 1_000_000_000 {
        two_decimals_with_suffix(num, 9, "b")
    } else if num >= 1_000_000 {
        two_decimals_with_suffix(num, 6, "m")
    } else if num >= 10_000 {
        two_decimals_with_suffix(num, 3, "k")
    } else {
        int_to_text(num)
    };
    assert(res@ =~= pretty_text(num));
    res
}

/// Amounts of items, one entry per item.
pub struct Inventory {
    pub item_amounts: Vec<(Item, i64)>,
}

/// The keys of a list of entries are pairwise distinct.
pub open spec fn distinct_keys(entries: Seq<(Item, i64)>) -> bool {
    forall|i: int, j: int|
        0 <= i < entries.len() && 0 <= j < entries.len() && i != j ==> #[trigger] entries[i].0
            != #[trigger] entries[j].0
}

/// The map that a list of entries with distinct keys stands for.
pub open spec fn entries_map(entries: Seq<(Item, i64)>) -> Map<Item, int>
    decreases entries.len(),
{
    if entries.len() == 0 {
        Map::empty()
    } else {
        entries_map(entries.drop_last()).insert(entries.last().0, entries.last().1 as int)
    }
}

impl View for Inventory {
    type V = Map<Item, int>;

    open spec fn view(&self) -> Map<Item, int> {
        entries_map(self.item_amounts@)
    }
}

/// The amount of `item` that an inventory map holds; absent items count zero.
pub open spec fn amount_of(m: Map<Item, int>, item: Item) -> int {
    if m.contains_key(item) {
        m[item]
    } else {
        0
    }
}

/// The map after adding `amount` of `item`.
pub open spec fn add_to(m: Map<Item, int>, item: Item, amount: int) -> Map<Item, int> {
    m.insert(item, amount_of(m, item) + amount)
}

proof fn lemma_entries_map_index(entries: Seq<(Item, i64)>, k: int)
    requires
        distinct_keys(entries),
        0 <= k < entries.len(),
    ensures
        entries_map(entries).contains_key(entries[k].0),
        entries_map(entries)[entries[k].0] == entries[k].1 as int,
    decreases entries.len(),
{
    let last = entries.len() - 1;
    if k < last {
        assert(distinct_keys(entries.drop_last()));
        lemma_entries_map_index(entries.drop_last(), k);
        assert(entries[k].0 != entries[last].0);
    }
}

proof fn lemma_entries_map_dom(entries: Seq<(Item, i64)>, item: Item)
    ensures
        entries_map(entries).contains_key(item) <==> exists|k: int|
            0 <= k < entries.len() && entries[k].0 == item,
    decreases entries.len(),
{
    if entries.len() > 0 {
        lemma_entries_map_dom(entries.drop_last(), item);
        let prefix = entries.drop_last();
        if entries_map(entries).contains_key(item) && item != entries.last().0 {
            let k = choose|k: int| 0 <= k < prefix.len() && prefix[k].0 == item;
            assert(entries[k].0 == item);
        }
        if exists|k: int| 0 <= k < entries.len() && entries[k].0 == item {
            let k = choose|k: int| 0 <= k < entries.len() && entries[k].0 == item;
            if k < entries.len() - 1 {
                assert(prefix[k].0 == item);
            }
        }
    }
}

/// Every amount that an inventory holds fits in an `i64`.
pub proof fn lemma_amount_in_range(inv: &Inventory, item: Item)
    requires
        inv.wf(),
    ensures
        i64::MIN <= amount_of(inv@, item) <= i64::MAX,
{
    lemma_entries_map_dom(inv.item_amounts@, item);
    if inv@.contains_key(item) {
        let k = choose|k: int| 0 <= k < inv.item_amounts@.len() && inv.item_amounts@[k].0 == item;
        lemma_entries_map_index(inv.item_amounts@, k);
    }
}

proof fn lemma_entries_map_update(entries: Seq<(Item, i64)>, k: int, v: i64)
    requires
        distinct_keys(entries),
        0 <= k < entries.len(),
    ensures
        distinct_keys(entries.update(k, (entries[k].0, v))),
        entries_map(entries.update(k, (entries[k].0, v))) == entries_map(entries).insert(
            entries[k].0,
            v as int,
        ),
    decreases entries.len(),
{
    let updated = entries.update(k, (entries[k].0, v));
    let last = entries.len() - 1;
    assert(updated.drop_last() == if k < last {
        entries.drop_last().update(k, (entries[k].0, v))
    } else {
        entries.drop_last()
    });
    if k < last {
        assert(distinct_keys(entries.drop_last()));
        lemma_entries_map_update(entries.drop_last(), k, v);
        assert(entries[k].0 != entries[last].0);
    } else {
        assert(distinct_keys(entries.drop_last()));
        lemma_entries_map_dom(entries.drop_last(), entries[last].0);
        if entries_map(entries.drop_last()).contains_key(entries[last].0) {
            let j = choose|j: int|
                0 <= j < entries.drop_last().len() && entries.drop_last()[j].0 == entries[last].0;
            assert(entries[j].0 == entries[last].0);
        }
    }
    assert(entries_map(updated) =~= entries_map(entries).insert(entries[k].0, v as int));
}

proof fn lemma_entries_map_push(entries: Seq<(Item, i64)>, item: Item, v: i64)
    requires
        distinct_keys(entries),
        !entries_map(entries).contains_key(item),
    ensures
        distinct_keys(entries.push((item, v))),
        entries_map(entries.push((item, v))) == entries_map(entries).insert(item, v as int),
{
    lemma_entries_map_dom(entries, item);
    assert(entries.push((item, v)).drop_last() == entries);
    assert forall|i: int, j: int|
        0 <= i < entries.len() + 1 && 0 <= j < entries.len() + 1 && i != j implies #[trigger] entries.push((item, v))[i].0
            != #[trigger] entries.push((item, v))[j].0 by {
        if i == entries.len() {
            assert(entries[j].0 != item);
        } else if j == entries.len() {
            assert(entries[i].0 != item);
        }
    }
}

impl Inventory {
    /// The entries of the inventory name each item at most once.
    pub open spec fn wf(&self) -> bool {
        distinct_keys(self.item_amounts@)
    }

    pub fn new() -> (res: Self)
        ensures
            res.wf(),
            res@ == map![Item::Coin => 0int],
    {
        let mut item_amounts: Vec<(Item, i64)> = Vec::new();
        item_amounts.push((Item::Coin, 0i64));
        let res = Self { item_amounts };
        assert(res.item_amounts@.drop_last() =~= Seq::<(Item, i64)>::empty());
        assert(entries_map(Seq::<(Item, i64)>::empty()) == Map::<Item, int>::empty());
        assert(res@ =~= map![Item::Coin => 0int]);
        res
    }

    /// Position of `item` among the entries, if it has one.
    fn find(&self, item: &Item) -> (res: Option<usize>)
        requires
            self.wf(),
        ensures
            match res {
                Some(k) => k < self.item_amounts.len() && self.item_amounts@[k as int].0 == *item,
                None => !self@.contains_key(*item),
            },
    {
        let mut k: usize = 0;
        while k < self.item_amounts.len()
            invariant
                k <= self.item_amounts.len(),
                forall|j: int| 0 <= j < k ==> self.item_amounts@[j].0 != *item,
            decreases self.item_amounts.len() - k,
        {
            if self.item_amounts[k].0 == *item {
                return Some(k);
            }
            k = k + 1;
        }
        proof {
            lemma_entries_map_dom(self.item_amounts@, *item);
        }
        None
    }

    pub fn add_item(&mut self, item: Item, amount: i64)
        requires
            old(self).wf(),
            i64::MIN <= amount_of(old(self)@, item) + amount <= i64::MAX,
        ensures
            final(self).wf(),
            final(self)@ == add_to(old(self)@, item, amount as int),
    {
        match self.find(&item) {
            Some(k) => {
                proof {
                    lemma_entries_map_index(self.item_amounts@, k as int);
                }
                let count = self.item_amounts[k].1;
                self.item_amounts.set(k, (item, count + amount));
                proof {
                    lemma_entries_map_update(old(self).item_amounts@, k as int, (count + amount) as i64);
                }
            },
            None => {
                proof {
                    lemma_entries_map_push(self.item_amounts@, item, amount);
                }
                self.item_amounts.push((item, amount));
            },
        }
    }

    pub fn get_item_amount(&self, item: &Item) -> (res: i64)
        requires
            self.wf(),
        ensures
            res == amount_of(self@, *item),
    {
        match self.find(item) {
            Some(k) => {
                proof {
                    lemma_entries_map_index(self.item_amounts@, k as int);
                }
                self.item_amounts[k].1
            },
            None => 0,
        }
    }
}


#[derive(Clone, Copy, Debug, PartialEq, Eq, Structural)]
pub enum EffectWithSource {
    JobSource { job: JobInstance, effect: Effect },
}

/// What a player asks the game to do.
#[derive(Clone, Copy, Debug, PartialEq, Eq, Structural)]
pub enum Intent {
    ToggleJob(usize),
    SkipSeconds(i32),
    ToggleHyperMode(usize),
    ChangeJobSlotState(usize, JobSlotState),
}

/// The number of job slots of a new game.
pub const JOB_SLOT_COUNT: usize = 9;

pub struct GameState {
    pub skill_archetype_instances: SkillArchetypeInstances,
    pub job_archetype_instances: JobArchetypeInstances,
    pub inventory: Inventory,
    pub job_slots: Vec<JobSlot>,
}

/// The skill instances after `effect`, where `threshold` is the number of
/// actions the affected counter's current level takes.
pub open spec fn skills_after(
    skills: Seq<SkillArchetypeInstance>,
    effect: Effect,
    threshold: int,
) -> Seq<SkillArchetypeInstance> {
    match effect {
        Effect::IncrementActionsForSkill { skill_type } => skills.update(
            skill_type.index(),
            SkillArchetypeInstance {
                actions_counter: skills[skill_type.index()].actions_counter.after_action(threshold),
                ..skills[skill_type.index()]
            },
        ),
        _ => skills,
    }
}

/// The job archetype instances after `effect`, where `threshold` is the number
/// of actions the affected counter's current level takes.
pub open spec fn jobs_after(
    jobs: Seq<JobArchetypeInstance>,
    effect: Effect,
    threshold: int,
) -> Seq<JobArchetypeInstance> {
    match effect {
        Effect::IncrementActionsForJobType { job_type } => jobs.update(
            job_type.index(),
            JobArchetypeInstance {
                action_counter: jobs[job_type.index()].action_counter.after_action(threshold),
                ..jobs[job_type.index()]
            },
        ),
        _ => jobs,
    }
}

/// The inventory after `effect`.
pub open spec fn inventory_after(inv: Map<Item, int>, effect: Effect) -> Map<Item, int> {
    match effect {
        Effect::AddItem { item, amount } => add_to(inv, item, amount as int),
        _ => inv,
    }
}

/// The state can take `effect` without leaving `i64` anywhere.
pub open spec fn effect_fits(
    skills: Seq<SkillArchetypeInstance>,
    jobs: Seq<JobArchetypeInstance>,
    inv: Map<Item, int>,
    effect: Effect,
) -> bool {
    match effect {
        Effect::AddItem { item, amount } => i64::MIN <= amount_of(inv, item) + amount <= i64::MAX,
        Effect::IncrementActionsForSkill { skill_type } => skills[skill_type.index()].actions_counter.can_count(),
        Effect::IncrementActionsForJobType { job_type } => jobs[job_type.index()].action_counter.can_count(),
    }
}

impl GameState {
    pub open spec fn wf(&self) -> bool {
        &&& self.skill_archetype_instances.wf()
        &&& self.job_archetype_instances.wf()
        &&& self.inventory.wf()
    }

    pub fn new() -> (res: Self)
        ensures
            res.wf(),
            res.inventory@ == map![Item::Coin => 0int],
            forall|i: int|
                0 <= i < res.skill_archetype_instances.instances@.len() ==> (#[trigger] res.skill_archetype_instances.instances@[i]).actions_counter
                    == CountsActions::new_spec(crate::counts_actions::LevelCurve::Skill, 10),
            forall|i: int|
                0 <= i < res.job_archetype_instances.instances@.len() ==> (#[trigger] res.job_archetype_instances.instances@[i]).action_counter
                    == CountsActions::new_spec(crate::counts_actions::LevelCurve::JobArchetype, 1),
            res.job_slots@.len() == JOB_SLOT_COUNT,
            forall|i: int|
                0 <= i < JOB_SLOT_COUNT ==> #[trigger] res.job_slots@[i] == (JobSlot {
                    index: i as usize,
                    state: JobSlotState::Empty,
                }),
    {
        let mut job_slots: Vec<JobSlot> = Vec::new();
        let mut i: usize = 0;
        while i < JOB_SLOT_COUNT
            invariant
                i <= JOB_SLOT_COUNT,
                job_slots@.len() == i,
                forall|j: int|
                    0 <= j < i ==> #[trigger] job_slots@[j] == (JobSlot {
                        index: j as usize,
                        state: JobSlotState::Empty,
                    }),
            decreases JOB_SLOT_COUNT - i,
        {
            job_slots.push(JobSlot { index: i, state: JobSlotState::Empty });
            i = i + 1;
        }
        Self {
            skill_archetype_instances: SkillArchetypeInstances::new(),
            job_archetype_instances: JobArchetypeInstances::new(),
            inventory: Inventory::new(),
            job_slots,
        }
    }

    /// Carries out one effect of a finished action. `actions_to_next_level`
    /// is the number of actions that the current level of the counter that
    /// the effect increments takes; an `AddItem` effect ignores it.
    pub fn apply_effect(&mut self, effect: &Effect, actions_to_next_level: i64)
        requires
            old(self).wf(),
            effect_fits(
                old(self).skill_archetype_instances.instances@,
                old(self).job_archetype_instances.instances@,
                old(self).inventory@,
                *effect,
            ),
        ensures
            final(self).wf(),
            final(self).skill_archetype_instances.instances@ == skills_after(
                old(self).skill_archetype_instances.instances@,
                *effect,
                actions_to_next_level as int,
            ),
            final(self).job_archetype_instances.instances@ == jobs_after(
                old(self).job_archetype_instances.instances@,
                *effect,
                actions_to_next_level as int,
            ),
            final(self).inventory@ == inventory_after(old(self).inventory@, *effect),
            final(self).job_slots@ == old(self).job_slots@,
    {
        match effect {
            Effect::AddItem { item, amount } => {
                self.inventory.add_item(*item, *amount);
            },
            Effect::IncrementActionsForSkill { skill_type } => {
                self.skill_archetype_instances.increment_actions_for(skill_type, actions_to_next_level);
            },
            Effect::IncrementActionsForJobType { job_type } => {
                self.job_archetype_instances.increment_actions_for(job_type, actions_to_next_level);
            },
        }
    }
}


impl GameState {
    /// The slot holds a job.
    pub open spec fn holds_job(&self, slot: int) -> bool {
        0 <= slot < self.job_slots@.len() && self.job_slots@[slot].state is RunningJob
    }

    /// The job that the slot holds.
    pub open spec fn job_at(&self, slot: int) -> JobInstance {
        self.job_slots@[slot].state->RunningJob_0
    }

    /// First half of a job's update: a slot whose job runs pays for the
    /// current action when that is due. Returns whether the job may make
    /// progress now; for a slot that holds no running job it is false.
    pub fn prepare_job(&mut self, slot: usize) -> (ready: bool)
        requires
            old(self).wf(),
        ensures
            final(self).wf(),
            final(self).skill_archetype_instances.instances@ == old(self).skill_archetype_instances.instances@,
            final(self).job_archetype_instances.instances@ == old(self).job_archetype_instances.instances@,
            if old(self).holds_job(slot as int) && old(self).job_at(slot as int).running {
                let (r, job, inv) = old(self).job_at(slot as int).prepare_spec(old(self).inventory@);
                &&& ready == r
                &&& final(self).inventory@ == inv
                &&& final(self).job_slots@ == old(self).job_slots@.update(
                    slot as int,
                    JobSlot { state: JobSlotState::RunningJob(job), ..old(self).job_slots@[slot as int] },
                )
            } else {
                &&& !ready
                &&& final(self).inventory@ == old(self).inventory@
                &&& final(self).job_slots@ == old(self).job_slots@
            },
    {
        if slot >= self.job_slots.len() {
            return false;
        }
        let s = self.job_slots[slot];
        match s.state {
            JobSlotState::RunningJob(job) => {
                if !job.running {
                    return false;
                }
                let mut job = job;
                let ready = job.prepare_action(&mut self.inventory);
                self.job_slots.set(slot, JobSlot { index: s.index, state: JobSlotState::RunningJob(job) });
                ready
            },
            _ => false,
        }
    }

    /// Second half of a job's update, once its action is complete: the action
    /// ends and its effects are carried out in order. `skill_threshold` and
    /// `job_threshold` are the numbers of actions that the current levels of
    /// the job's skill counter and of its archetype counter take.
    pub fn finish_job_action(&mut self, slot: usize, skill_threshold: i64, job_threshold: i64) -> (res: Vec<EffectWithSource>)
        requires
            old(self).wf(),
            old(self).holds_job(slot as int),
            amount_of(old(self).inventory@, old(self).job_at(slot as int).job_archetype.product()) + 1 <= i64::MAX,
            old(self).skill_archetype_instances.instances@[old(self).job_at(slot as int).job_archetype.skill_type().index()].actions_counter.can_count(),
            old(self).job_archetype_instances.instances@[old(self).job_at(slot as int).job_archetype.index()].action_counter.can_count(),
        ensures
            final(self).wf(),
            ({
                let job = old(self).job_at(slot as int);
                let ja = job.job_archetype;
                let finished = JobInstance { has_paid_resources: false, ..job };
                &&& final(self).job_slots@ == old(self).job_slots@.update(
                    slot as int,
                    JobSlot { state: JobSlotState::RunningJob(finished), ..old(self).job_slots@[slot as int] },
                )
                &&& final(self).inventory@ == add_to(old(self).inventory@, ja.product(), 1)
                &&& final(self).skill_archetype_instances.instances@ == skills_after(
                    old(self).skill_archetype_instances.instances@,
                    Effect::IncrementActionsForSkill { skill_type: ja.skill_type() },
                    skill_threshold as int,
                )
                &&& final(self).job_archetype_instances.instances@ == jobs_after(
                    old(self).job_archetype_instances.instances@,
                    Effect::IncrementActionsForJobType { job_type: ja },
                    job_threshold as int,
                )
                &&& res@ == ja.completion_effects().map_values(
                    |e: Effect| EffectWithSource::JobSource { job: finished, effect: e },
                )
            }),
    {
        let s = self.job_slots[slot];
        let mut job = match s.state {
            JobSlotState::RunningJob(job) => job,
            _ => {
                assert(false);
                return Vec::new();
            },
        };
        let effects = job.finish_action();
        self.job_slots.set(slot, JobSlot { index: s.index, state: JobSlotState::RunningJob(job) });

        let mut res: Vec<EffectWithSource> = Vec::new();

        let add = effects[0];
        proof {
            lemma_amount_in_range(&self.inventory, job.job_archetype.product());
        }
        self.apply_effect(&add, 0);
        res.push(EffectWithSource::JobSource { job, effect: add });

        let skill = effects[1];
        self.apply_effect(&skill, skill_threshold);
        res.push(EffectWithSource::JobSource { job, effect: skill });

        proof {
            crate::skill::lemma_all_skill_archetypes(job.job_archetype.skill_type());
        }
        let archetype = effects[2];
        self.apply_effect(&archetype, job_threshold);
        res.push(EffectWithSource::JobSource { job, effect: archetype });

        assert(res@ =~= job.job_archetype.completion_effects().map_values(
            |e: Effect| EffectWithSource::JobSource { job, effect: e },
        ));
        res
    }
}

impl Intent {
    /// How many one-second updates the intent asks for.
    pub open spec fn seconds_to_skip(self) -> u32 {
        match self {
            Intent::SkipSeconds(seconds) => if seconds > 0 { seconds as u32 } else { 0 },
            _ => 0,
        }
    }

    /// The job slots after the intent.
    pub open spec fn slots_after(self, slots: Seq<JobSlot>) -> Seq<JobSlot> {
        match self {
            Intent::ToggleJob(index) => if index < slots.len() && slots[index as int].state is RunningJob {
                let job = slots[index as int].state->RunningJob_0;
                slots.update(
                    index as int,
                    JobSlot {
                        state: JobSlotState::RunningJob(JobInstance { running: !job.running, ..job }),
                        ..slots[index as int]
                    },
                )
            } else {
                slots
            },
            Intent::ChangeJobSlotState(index, new_state) => if index < slots.len() {
                slots.update(index as int, JobSlot { state: new_state, ..slots[index as int] })
            } else {
                slots
            },
            _ => slots,
        }
    }

    /// Carries out the intent on the game state. A request to skip seconds
    /// changes nothing here: the number of one-second updates it asks for is
    /// returned, for the caller to run.
    pub fn execute(&self, game_state: &mut GameState) -> (seconds_to_skip: u32)
        requires
            old(game_state).wf(),
        ensures
            final(game_state).wf(),
            seconds_to_skip == self.seconds_to_skip(),
            final(game_state).job_slots@ == self.slots_after(old(game_state).job_slots@),
            final(game_state).inventory@ == old(game_state).inventory@,
            final(game_state).skill_archetype_instances.instances@ == old(game_state).skill_archetype_instances.instances@,
            final(game_state).job_archetype_instances.instances@ == old(game_state).job_archetype_instances.instances@,
    {
        match self {
            Intent::ToggleJob(index) => {
                if *index < game_state.job_slots.len() {
                    let s = game_state.job_slots[*index];
                    if let JobSlotState::RunningJob(job) = s.state {
                        let mut job = job;
                        job.toggle_running();
                        game_state.job_slots.set(
                            *index,
                            JobSlot { index: s.index, state: JobSlotState::RunningJob(job) },
                        );
                    }
                }
                0
            },
            Intent::ToggleHyperMode(_index) => 0,
            Intent::SkipSeconds(seconds) => {
                if *seconds > 0 {
                    *seconds as u32
                } else {
                    0
                }
            },
            Intent::ChangeJobSlotState(index, new_state) => {
                if *index < game_state.job_slots.len() {
                    let s = game_state.job_slots[*index];
                    game_state.job_slots.set(*index, JobSlot { index: s.index, state: *new_state });
                }
                0
            },
        }
    }
}

} // verus!
