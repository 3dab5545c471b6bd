//! Properties that hold across the game's operations.
use vstd::prelude::*;

use crate::counts_actions::CountsActions;
use crate::number_text::{lemma_exp2_53, lemma_float_of_small_int};
use crate::game::{add_to, amount_of, Intent, Item};
use crate::game::WoodItem;
use crate::job::{
    AlchemyJobArchetype, CookingJobArchetype, HerbalismJobArchetype, HuntingJobArchetype,
    JobArchetype, JobInstance, LumberingJobArchetype, MiningJobArchetype, SmithingJobArchetype,
    all_job_archetypes, has_items, lemma_all_job_archetypes, lemma_required_items_shape,
    remove_items,
};
use crate::job_slot::{JobSlot, JobSlotState};
use crate::skill::{SkillArchetype, SkillCategory, all_skill_archetypes, all_skill_categories};

verus! {

/// Adding an amount of an item changes the amount read back for that item by
/// exactly that much, and leaves every other item's amount unchanged.
pub proof fn law_add_then_read(m: Map<Item, int>, item: Item, amount: int, other: Item)
    ensures
        amount_of(add_to(m, item, amount), item) == amount_of(m, item) + amount,
        other != item ==> amount_of(add_to(m, item, amount), other) == amount_of(m, other),
{
}

/// Adding two amounts of an item one after the other is the same as adding
/// their sum once.
pub proof fn law_add_twice(m: Map<Item, int>, item: Item, a: int, b: int)
    ensures
        add_to(add_to(m, item, a), item, b) == add_to(m, item, a + b),
{
    assert(add_to(add_to(m, item, a), item, b) =~= add_to(m, item, a + b));
}

/// Items that no requirement names keep their amount when a job pays.
pub proof fn law_payment_touches_only_required_items(
    m: Map<Item, int>,
    reqs: Seq<(Item, i64)>,
    item: Item,
)
    requires
        forall|i: int| 0 <= i < reqs.len() ==> #[trigger] reqs[i].0 != item,
    ensures
        amount_of(remove_items(m, reqs), item) == amount_of(m, item),
    decreases reqs.len(),
{
    if reqs.len() > 0 {
        law_payment_touches_only_required_items(m, reqs.drop_last(), item);
        assert(reqs[reqs.len() - 1].0 != item);
    }
}

/// The amount that remains of each item after a job pays, when no item is
/// required twice: the amount before, less what the requirements name.
proof fn lemma_remove_distinct(m: Map<Item, int>, reqs: Seq<(Item, i64)>, k: int)
    requires
        crate::game::distinct_keys(reqs),
        0 <= k < reqs.len(),
    ensures
        amount_of(remove_items(m, reqs), reqs[k].0) == amount_of(m, reqs[k].0) - reqs[k].1,
    decreases reqs.len(),
{
    let last = reqs.len() - 1;
    let prefix = reqs.drop_last();
    if k < last {
        assert(crate::game::distinct_keys(prefix));
        lemma_remove_distinct(m, prefix, k);
        assert(prefix[k] == reqs[k]);
        assert(reqs[k].0 != reqs[last].0);
    } else {
        assert forall|i: int| 0 <= i < prefix.len() implies #[trigger] prefix[i].0 != reqs[k].0 by {
            assert(prefix[i] == reqs[i]);
        }
        law_payment_touches_only_required_items(m, prefix, reqs[k].0);
    }
}

/// Preparing a job never drives an amount below zero: a job pays only when
/// the inventory holds every required amount, and then takes exactly those.
pub proof fn law_preparing_keeps_amounts_nonnegative(job: JobInstance, m: Map<Item, int>, item: Item)
    requires
        amount_of(m, item) >= 0,
    ensures
        amount_of(job.prepare_spec(m).2, item) >= 0,
{
    let reqs = job.job_archetype.required_items();
    if !job.has_paid_resources && has_items(m, reqs) {
        lemma_required_items_shape(job.job_archetype);
        if exists|k: int| 0 <= k < reqs.len() && reqs[k].0 == item {
            let k = choose|k: int| 0 <= k < reqs.len() && reqs[k].0 == item;
            lemma_remove_distinct(m, reqs, k);
            assert(amount_of(m, reqs[k].0) >= reqs[k].1);
        } else {
            law_payment_touches_only_required_items(m, reqs, item);
        }
    }
}

/// An action is paid for once: preparing a job again before its action ends
/// changes neither the job nor the inventory.
pub proof fn law_prepare_pays_once(job: JobInstance, m: Map<Item, int>)
    ensures
        job.prepare_spec(m).0 ==> job.prepare_spec(m).1.prepare_spec(job.prepare_spec(m).2) == (
            true,
            job.prepare_spec(m).1,
            job.prepare_spec(m).2,
        ),
{
}

/// A job that cannot pay is left as it was, and so is the inventory.
pub proof fn law_refused_payment_changes_nothing(job: JobInstance, m: Map<Item, int>)
    ensures
        !job.prepare_spec(m).0 ==> job.prepare_spec(m).1 == job && job.prepare_spec(m).2 == m,
{
}

/// Toggling a job twice leaves the job slots as they were.
pub proof fn law_toggle_twice(slots: Seq<JobSlot>, index: usize)
    ensures
        Intent::ToggleJob(index).slots_after(Intent::ToggleJob(index).slots_after(slots)) == slots,
{
    let once = Intent::ToggleJob(index).slots_after(slots);
    if index < slots.len() && slots[index as int].state is RunningJob {
        assert(once[index as int].state is RunningJob);
        assert(Intent::ToggleJob(index).slots_after(once) =~= slots);
    }
}

/// Toggling a job changes only the slot it names. That slot, when it holds a
/// job, keeps its index and its job, whose running flag flips; every other
/// slot, and the number of slots, stay as they were. A slot that holds no job
/// (or an index past the last slot) leaves all slots unchanged.
pub proof fn law_toggle_changes_only_its_slot(slots: Seq<JobSlot>, index: usize, other: int)
    ensures
        Intent::ToggleJob(index).slots_after(slots).len() == slots.len(),
        0 <= other < slots.len() && other != index ==> Intent::ToggleJob(index).slots_after(
            slots,
        )[other] == slots[other],
        index < slots.len() && slots[index as int].state is RunningJob ==> ({
            let before = slots[index as int];
            let after = Intent::ToggleJob(index).slots_after(slots)[index as int];
            let job = before.state->RunningJob_0;
            &&& after.index == before.index
            &&& after.state is RunningJob
            &&& after.state->RunningJob_0.running == !job.running
            &&& after.state->RunningJob_0.job_archetype == job.job_archetype
            &&& after.state->RunningJob_0.timeslot_cost == job.timeslot_cost
            &&& after.state->RunningJob_0.has_paid_resources == job.has_paid_resources
        }),
        !(index < slots.len() && slots[index as int].state is RunningJob) ==> Intent::ToggleJob(
            index,
        ).slots_after(slots) == slots,
{
}

/// Changing a slot's state and reading the slot back gives the new state;
/// the slot keeps its index, and every other slot is unchanged.
pub proof fn law_change_then_read(slots: Seq<JobSlot>, index: usize, state: JobSlotState, other: int)
    requires
        index < slots.len(),
    ensures
        Intent::ChangeJobSlotState(index, state).slots_after(slots)[index as int].state == state,
        Intent::ChangeJobSlotState(index, state).slots_after(slots)[index as int].index
            == slots[index as int].index,
        Intent::ChangeJobSlotState(index, state).slots_after(slots).len() == slots.len(),
        0 <= other < slots.len() && other != index ==> Intent::ChangeJobSlotState(
            index,
            state,
        ).slots_after(slots)[other] == slots[other],
{
}

/// The counter after `n` recorded actions, each at the same threshold.
pub open spec fn after_actions(c: CountsActions, threshold: int, n: nat) -> CountsActions
    decreases n,
{
    if n == 0 {
        c
    } else {
        after_actions(c, threshold, (n - 1) as nat).after_action(threshold)
    }
}

/// Recording an action never lowers the level, raises it by at most one, and
/// counts exactly one more action in total.
pub proof fn law_action_counts_once(c: CountsActions, threshold: int)
    requires
        c.wf(),
        c.can_count(),
    ensures
        c.after_action(threshold).actions_done_total == c.actions_done_total + 1,
        c.level <= c.after_action(threshold).level <= c.level + 1,
        c.after_action(threshold).wf(),
{
}

/// Starting a level with no actions done, a counter reaches the next level
/// after exactly `threshold` actions (for a threshold of at least one, and
/// below `2^53`, where every count converts to `f64` exactly), and not before.
pub proof fn law_level_up_after_threshold_actions(c: CountsActions, threshold: nat, n: nat)
    requires
        c.wf(),
        c.actions_done_current_level == 0,
        c.level < i64::MAX,
        c.actions_done_total + threshold <= i64::MAX,
        threshold >= 1,
        threshold < 0x20000000000000,
        n <= threshold,
    ensures
        after_actions(c, threshold as int, n).actions_done_total == c.actions_done_total + n,
        n < threshold ==> after_actions(c, threshold as int, n).level == c.level
            && after_actions(c, threshold as int, n).actions_done_current_level == n,
        n == threshold ==> after_actions(c, threshold as int, n).level == c.level + 1
            && after_actions(c, threshold as int, n).actions_done_current_level == 0,
    decreases n,
{
    if n > 0 {
        law_level_up_after_threshold_actions(c, threshold, (n - 1) as nat);
        lemma_exp2_53();
        lemma_float_of_small_int(n, 53);
        lemma_float_of_small_int(threshold, 53);
    }
}

/// Every job that a skill offers belongs to that skill.
pub proof fn law_skill_jobs_belong_to_skill(skill: SkillArchetype, i: int)
    requires
        0 <= i < skill.job_archetypes().len(),
    ensures
        skill.job_archetypes()[i].skill_type() == skill,
{
}

/// Every skill belongs to exactly one category.
pub proof fn law_categories_partition_skills(skill: SkillArchetype)
    ensures
        exists|c: SkillCategory| #[trigger] c.skill_archetypes().contains(skill),
        forall|c1: SkillCategory, c2: SkillCategory|
            #[trigger] c1.skill_archetypes().contains(skill) && #[trigger] c2.skill_archetypes().contains(skill)
                ==> c1 == c2,
{
    let g = SkillCategory::Gathering.skill_archetypes();
    let cr = SkillCategory::Crafting.skill_archetypes();
    match skill {
        SkillArchetype::Lumbering => assert(g[0] == skill),
        SkillArchetype::Mining => assert(g[1] == skill),
        SkillArchetype::Hunting => assert(g[2] == skill),
        SkillArchetype::Herbalism => assert(g[3] == skill),
        SkillArchetype::Smithing => assert(cr[0] == skill),
        SkillArchetype::Alchemy => assert(cr[1] == skill),
        SkillArchetype::Cooking => assert(cr[2] == skill),
    }
    assert(g.contains(skill) || cr.contains(skill));
    assert forall|c1: SkillCategory, c2: SkillCategory|
        #[trigger] c1.skill_archetypes().contains(skill) && #[trigger] c2.skill_archetypes().contains(skill)
            implies c1 == c2 by {
        if c1 != c2 {
            let i = choose|i: int| 0 <= i < g.len() && g[i] == skill;
            let j = choose|j: int| 0 <= j < cr.len() && cr[j] == skill;
            assert(g[i] != cr[j]);
        }
    }
}

/// The single completion effect that a job names is the first of the effects
/// that a finished action has.
pub proof fn law_completion_effect_comes_first(job: JobArchetype)
    ensures
        job.completion_effects()[0] == (crate::game::Effect::AddItem { item: job.product(), amount: 1 }),
        job.completion_effects().len() == 3,
{
}

/// What each job produces: the lumbering jobs their wood, the iron mine iron,
/// the deer hunt meat, herbalism herbs, and each crafting job its dish, potion
/// or bar.
pub proof fn law_job_products(ja: JobArchetype)
    ensures
        ja == JobArchetype::Lumbering(LumberingJobArchetype::Kindlewood) ==> ja.product()
            == Item::Wood(WoodItem::Kindlewood),
        ja == JobArchetype::Lumbering(LumberingJobArchetype::Craftwood) ==> ja.product()
            == Item::Wood(WoodItem::Craftwood),
        ja == JobArchetype::Lumbering(LumberingJobArchetype::Graintree) ==> ja.product()
            == Item::Wood(WoodItem::Graintree),
        ja == JobArchetype::Mining(MiningJobArchetype::Iron) ==> ja.product() == Item::Iron,
        ja == JobArchetype::Hunting(HuntingJobArchetype::Deer) ==> ja.product() == Item::Meat,
        ja == JobArchetype::Herbalism(HerbalismJobArchetype::Herb) ==> ja.product() == Item::Herb,
        ja == JobArchetype::Cooking(CookingJobArchetype::Sandwich) ==> ja.product()
            == Item::Sandwich,
        ja == JobArchetype::Alchemy(AlchemyJobArchetype::ManaPotion) ==> ja.product()
            == Item::ManaPotion,
        ja == JobArchetype::Smithing(SmithingJobArchetype::IronBar) ==> ja.product()
            == Item::IronBar,
{
}

/// Two different jobs never produce the same item.
pub proof fn law_products_distinct(a: JobArchetype, b: JobArchetype)
    ensures
        a != b ==> a.product() != b.product(),
{
}

/// Every item that a job requires is the product of some job, so every
/// crafting chain can be fed from the game's own jobs.
pub proof fn law_required_items_are_produced(ja: JobArchetype, i: int)
    requires
        0 <= i < ja.required_items().len(),
    ensures
        exists|p: JobArchetype| #[trigger] p.product() == ja.required_items()[i].0,
{
    let kindlewood = JobArchetype::Lumbering(LumberingJobArchetype::Kindlewood);
    let deer = JobArchetype::Hunting(HuntingJobArchetype::Deer);
    let herb = JobArchetype::Herbalism(HerbalismJobArchetype::Herb);
    let potion = JobArchetype::Alchemy(AlchemyJobArchetype::ManaPotion);
    let iron = JobArchetype::Mining(MiningJobArchetype::Iron);
    assert(kindlewood.product() == Item::Wood(WoodItem::Kindlewood));
    assert(deer.product() == Item::Meat);
    assert(herb.product() == Item::Herb);
    assert(potion.product() == Item::ManaPotion);
    assert(iron.product() == Item::Iron);
}

/// Gathering jobs need no items; crafting jobs need at least one.
pub proof fn law_gathering_needs_nothing_crafting_needs_something(ja: JobArchetype)
    ensures
        SkillCategory::Gathering.skill_archetypes().contains(ja.skill_type())
            ==> ja.required_items().len() == 0,
        SkillCategory::Crafting.skill_archetypes().contains(ja.skill_type())
            ==> ja.required_items().len() >= 1,
{
    let g = SkillCategory::Gathering.skill_archetypes();
    let c = SkillCategory::Crafting.skill_archetypes();
    if g.contains(ja.skill_type()) {
        let k = choose|k: int| 0 <= k < g.len() && g[k] == ja.skill_type();
        assert(g[k] == ja.skill_type());
    }
    if c.contains(ja.skill_type()) {
        let k = choose|k: int| 0 <= k < c.len() && c[k] == ja.skill_type();
        assert(c[k] == ja.skill_type());
    }
}

/// A gathering job is always ready: preparing it takes nothing from any
/// inventory and marks its action as paid.
pub proof fn law_gathering_job_always_ready(job: JobInstance, m: Map<Item, int>)
    requires
        SkillCategory::Gathering.skill_archetypes().contains(job.job_archetype.skill_type()),
    ensures
        job.prepare_spec(m) == (true, JobInstance { has_paid_resources: true, ..job }, m),
{
    law_gathering_needs_nothing_crafting_needs_something(job.job_archetype);
    assert(has_items(m, job.job_archetype.required_items()));
    assert(remove_items(m, job.job_archetype.required_items()) == m);
}

/// What each crafting job takes from the inventory for one action: a sandwich
/// four kindlewood, a meat, a herb and a mana potion; a mana potion a herb; an
/// iron bar two iron.
pub proof fn law_crafting_requirements(ja: JobArchetype)
    ensures
        ja == JobArchetype::Cooking(CookingJobArchetype::Sandwich) ==> ja.required_items() == seq![
            (Item::Wood(WoodItem::Kindlewood), 4i64),
            (Item::Meat, 1i64),
            (Item::Herb, 1i64),
            (Item::ManaPotion, 1i64),
        ],
        ja == JobArchetype::Alchemy(AlchemyJobArchetype::ManaPotion) ==> ja.required_items()
            == seq![(Item::Herb, 1i64)],
        ja == JobArchetype::Smithing(SmithingJobArchetype::IronBar) ==> ja.required_items()
            == seq![(Item::Iron, 2i64)],
{
}

/// The resources a job card shows are the job's requirements, in order, each
/// flagged as enough exactly when the action is paid already or the inventory
/// holds at least the required amount.
pub proof fn law_resource_flags(job: JobInstance, m: Map<Item, int>, i: int)
    ensures
        job.resource_status(m).len() == job.job_archetype.required_items().len(),
        0 <= i < job.resource_status(m).len() ==> ({
            let r = job.job_archetype.required_items()[i];
            let s = job.resource_status(m)[i];
            &&& s.0 == r.0
            &&& s.1 == r.1
            &&& s.2 == (job.has_paid_resources || amount_of(m, r.0) >= r.1)
        }),
{
}

/// For an action not yet paid, every requirement shows as enough exactly when
/// preparing the job would pay and let it progress.
pub proof fn law_flags_agree_with_payment(job: JobInstance, m: Map<Item, int>)
    requires
        !job.has_paid_resources,
    ensures
        (forall|i: int| 0 <= i < job.resource_status(m).len() ==> #[trigger] job.resource_status(m)[i].2)
            <==> job.prepare_spec(m).0,
{
    let reqs = job.job_archetype.required_items();
    let st = job.resource_status(m);
    if forall|i: int| 0 <= i < st.len() ==> #[trigger] st[i].2 {
        assert forall|i: int| 0 <= i < reqs.len() implies amount_of(m, #[trigger] reqs[i].0) >= reqs[i].1 by {
            assert(st[i].2);
        }
    }
    if job.prepare_spec(m).0 {
        assert forall|i: int| 0 <= i < st.len() implies #[trigger] st[i].2 by {
            assert(amount_of(m, reqs[i].0) >= reqs[i].1);
        }
    }
}

/// A skill offers exactly its own jobs, save kindlewood, which no skill
/// offers: a job is in its skill's list unless it is the kindlewood job.
pub proof fn law_skill_offers_its_jobs(ja: JobArchetype, skill: SkillArchetype)
    ensures
        skill.job_archetypes().contains(ja) <==> (ja.skill_type() == skill && ja
            != JobArchetype::Lumbering(LumberingJobArchetype::Kindlewood)),
{
    let l = skill.job_archetypes();
    if l.contains(ja) {
        let k = choose|k: int| 0 <= k < l.len() && l[k] == ja;
        law_skill_jobs_belong_to_skill(skill, k);
    }
    if ja.skill_type() == skill && ja != JobArchetype::Lumbering(LumberingJobArchetype::Kindlewood) {
        match ja {
            JobArchetype::Lumbering(LumberingJobArchetype::Craftwood) => assert(l[0] == ja),
            JobArchetype::Lumbering(LumberingJobArchetype::Graintree) => assert(l[1] == ja),
            _ => assert(l[0] == ja),
        }
    }
}

/// A skill lists its jobs in the game's order of jobs, each once.
pub proof fn law_skill_jobs_in_order(skill: SkillArchetype, i: int, j: int)
    requires
        0 <= i < j < skill.job_archetypes().len(),
    ensures
        skill.job_archetypes()[i].index() < skill.job_archetypes()[j].index(),
{
}

/// A category lists its skills in the game's order of skills, each once.
pub proof fn law_category_skills_in_order(category: SkillCategory, i: int, j: int)
    requires
        0 <= i < j < category.skill_archetypes().len(),
    ensures
        category.skill_archetypes()[i].index() < category.skill_archetypes()[j].index(),
{
}

/// When a job pays for an action, each required item loses exactly its
/// required amount.
pub proof fn law_payment_takes_required_amounts(job: JobInstance, m: Map<Item, int>, k: int)
    requires
        !job.has_paid_resources,
        job.prepare_spec(m).0,
        0 <= k < job.job_archetype.required_items().len(),
    ensures
        ({
            let r = job.job_archetype.required_items()[k];
            amount_of(job.prepare_spec(m).2, r.0) == amount_of(m, r.0) - r.1
        }),
{
    lemma_required_items_shape(job.job_archetype);
    lemma_remove_distinct(m, job.job_archetype.required_items(), k);
}

/// A job that needs an item the inventory lacks (holds less of than required)
/// cannot start its action.
pub proof fn law_short_requirement_blocks(job: JobInstance, m: Map<Item, int>, k: int)
    requires
        !job.has_paid_resources,
        0 <= k < job.job_archetype.required_items().len(),
        amount_of(m, job.job_archetype.required_items()[k].0) < job.job_archetype.required_items()[k].1,
    ensures
        !job.prepare_spec(m).0,
{
    assert(!has_items(m, job.job_archetype.required_items()));
}

/// Skipping seconds asks for that many one-second updates when the number is
/// positive, and none otherwise; no other intent asks for any. Neither
/// skipping seconds nor toggling hyper mode changes a slot.
pub proof fn law_only_skipping_asks_for_updates(intent: Intent, slots: Seq<JobSlot>)
    ensures
        intent matches Intent::SkipSeconds(n) ==> intent.seconds_to_skip() == (if n > 0 {
            n as int
        } else {
            0
        }),
        !(intent is SkipSeconds) ==> intent.seconds_to_skip() == 0,
        intent is SkipSeconds || intent is ToggleHyperMode ==> intent.slots_after(slots) == slots,
{
}

/// A job named after what it makes carries its product's name: every job but
/// the iron mine ("Mining") and the deer hunt ("Deer").
pub proof fn law_jobs_named_after_products(ja: JobArchetype)
    ensures
        ja != JobArchetype::Mining(MiningJobArchetype::Iron) && ja != JobArchetype::Hunting(
            HuntingJobArchetype::Deer,
        ) ==> ja.name() == ja.product().name(),
        ja == JobArchetype::Mining(MiningJobArchetype::Iron) ==> ja.name() == "Mining"@,
        ja == JobArchetype::Hunting(HuntingJobArchetype::Deer) ==> ja.name() == "Deer"@,
{
}

/// The names the game shows for items.
pub proof fn law_item_names(w: WoodItem)
    ensures
        Item::Wood(w).name() == w.name(),
        WoodItem::Kindlewood.name() == "Kindlewood"@,
        WoodItem::Craftwood.name() == "Craftwood"@,
        WoodItem::Graintree.name() == "Graintree"@,
        Item::Woodworking(crate::game::WoodWorkingItem::Plank).name() == "Plank"@,
        Item::Coin.name() == "Coin"@,
        Item::Iron.name() == "Iron"@,
        Item::Herb.name() == "Herb"@,
        Item::Meat.name() == "Meat"@,
        Item::Berry.name() == "Berry"@,
        Item::IronBar.name() == "Iron Bar"@,
        Item::Sandwich.name() == "Sandwich"@,
        Item::ManaPotion.name() == "Mana Potion"@,
{
}

/// The names the game shows for skills and skill categories.
pub proof fn law_skill_names()
    ensures
        SkillArchetype::Lumbering.name() == "Lumbering"@,
        SkillArchetype::Mining.name() == "Mining"@,
        SkillArchetype::Hunting.name() == "Hunting"@,
        SkillArchetype::Herbalism.name() == "Herbalism"@,
        SkillArchetype::Smithing.name() == "Smithing"@,
        SkillArchetype::Alchemy.name() == "Alchemy"@,
        SkillArchetype::Cooking.name() == "Cooking"@,
        SkillCategory::Gathering.name() == "Gathering"@,
        SkillCategory::Crafting.name() == "Crafting"@,
{
}

/// A job placed in a slot starts running, with nothing paid yet, and takes
/// one time slot.
pub proof fn law_new_job_runs_unpaid(ja: JobArchetype)
    ensures
        JobInstance::new_spec(ja).job_archetype == ja,
        JobInstance::new_spec(ja).running,
        !JobInstance::new_spec(ja).has_paid_resources,
        JobInstance::new_spec(ja).timeslot_cost == 1,
{
}

/// A new counter is at level one with no actions, on the curve and with the
/// flat cost it was made with.
pub proof fn law_new_counter(curve: crate::counts_actions::LevelCurve, flat: i64)
    ensures
        CountsActions::new_spec(curve, flat).level == 1,
        CountsActions::new_spec(curve, flat).actions_done_current_level == 0,
        CountsActions::new_spec(curve, flat).actions_done_total == 0,
        CountsActions::new_spec(curve, flat).actions_to_reach_level == curve,
        CountsActions::new_spec(curve, flat).actions_flat == flat,
        CountsActions::new_spec(curve, flat).wf(),
{
}

} // verus!
