use tiny_fields::counts_actions::{CountsActions, LevelCurve};
use tiny_fields::game::{Effect, EffectWithSource, GameState, Intent, Inventory, Item, WoodItem, WoodWorkingItem, JOB_SLOT_COUNT};
use tiny_fields::job::{
    AlchemyJobArchetype, CookingJobArchetype, JobArchetype, JobInstance, JobParameters, LumberingJobArchetype,
    MiningJobArchetype, SmithingJobArchetype,
};
use tiny_fields::job_slot::{JobSlot, JobSlotState};
use tiny_fields::skill::{SkillArchetype, SkillCategory};

fn kindlewood() -> JobArchetype {
    JobArchetype::Lumbering(LumberingJobArchetype::Kindlewood)
}

#[test]
fn new_inventory_holds_no_coins() {
    let inventory = Inventory::new();
    assert_eq!(inventory.get_item_amount(&Item::Coin), 0);
    assert_eq!(inventory.get_item_amount(&Item::Herb), 0);
    assert_eq!(inventory.item_amounts, vec![(Item::Coin, 0)]);
}

#[test]
fn adding_items_is_read_back() {
    let mut inventory = Inventory::new();
    inventory.add_item(Item::Herb, 3);
    assert_eq!(inventory.get_item_amount(&Item::Herb), 3);
    inventory.add_item(Item::Herb, 4);
    assert_eq!(inventory.get_item_amount(&Item::Herb), 7);
    inventory.add_item(Item::Herb, -7);
    assert_eq!(inventory.get_item_amount(&Item::Herb), 0);
    inventory.add_item(Item::Coin, -2);
    assert_eq!(inventory.get_item_amount(&Item::Coin), -2);
    // other items keep their amounts
    assert_eq!(inventory.get_item_amount(&Item::Meat), 0);
    assert_eq!(inventory.item_amounts.len(), 2);
}

#[test]
fn item_names() {
    assert_eq!(Item::Coin.get_name(), "Coin");
    assert_eq!(Item::Wood(WoodItem::Kindlewood).get_name(), "Kindlewood");
    assert_eq!(Item::Wood(WoodItem::Craftwood).get_name(), "Craftwood");
    assert_eq!(Item::Wood(WoodItem::Graintree).get_name(), "Graintree");
    assert_eq!(Item::Woodworking(WoodWorkingItem::Plank).get_name(), "Plank");
    assert_eq!(Item::IronBar.get_name(), "Iron Bar");
    assert_eq!(Item::ManaPotion.get_name(), "Mana Potion");
    assert_eq!(WoodItem::Graintree.get_name(), "Graintree");
}

#[test]
fn job_archetype_tables() {
    let sandwich = JobArchetype::Cooking(CookingJobArchetype::Sandwich);
    assert_eq!(sandwich.get_name(), "Sandwich");
    assert_eq!(sandwich.get_product(), Item::Sandwich);
    assert_eq!(sandwich.get_skill_type(), SkillArchetype::Cooking);
    assert_eq!(
        sandwich.get_required_items(),
        vec![(Item::Wood(WoodItem::Kindlewood), 4), (Item::Meat, 1), (Item::Herb, 1), (Item::ManaPotion, 1)]
    );
    let iron = JobArchetype::Mining(MiningJobArchetype::Iron);
    assert_eq!(iron.get_name(), "Mining");
    assert_eq!(iron.get_product(), Item::Iron);
    assert_eq!(iron.get_required_items(), vec![]);
    let bar = JobArchetype::Smithing(SmithingJobArchetype::IronBar);
    assert_eq!(bar.get_required_items(), vec![(Item::Iron, 2)]);
    assert_eq!(bar.get_completion_effect(), Effect::AddItem { item: Item::IronBar, amount: 1 });
    assert_eq!(kindlewood().get_skill_type(), SkillArchetype::Lumbering);
    assert_eq!(JobArchetype::variants().len(), 9);
    assert_eq!(JobArchetype::variants()[0], kindlewood());
    assert_eq!(JobArchetype::variants()[8], bar);
}

#[test]
fn skill_tables() {
    assert_eq!(SkillCategory::Gathering.as_str(), "Gathering");
    assert_eq!(SkillCategory::Crafting.as_str(), "Crafting");
    assert_eq!(
        SkillCategory::Gathering.get_skill_archetypes(),
        vec![SkillArchetype::Lumbering, SkillArchetype::Mining, SkillArchetype::Hunting, SkillArchetype::Herbalism]
    );
    assert_eq!(
        SkillCategory::Crafting.get_skill_archetypes(),
        vec![SkillArchetype::Smithing, SkillArchetype::Alchemy, SkillArchetype::Cooking]
    );
    assert_eq!(SkillArchetype::Herbalism.get_name(), "Herbalism");
    assert_eq!(
        SkillArchetype::Lumbering.get_job_archetypes(),
        vec![
            JobArchetype::Lumbering(LumberingJobArchetype::Craftwood),
            JobArchetype::Lumbering(LumberingJobArchetype::Graintree)
        ]
    );
    assert_eq!(SkillArchetype::variants().len(), 7);
    assert_eq!(SkillCategory::variants(), vec![SkillCategory::Gathering, SkillCategory::Crafting]);
}

#[test]
fn counter_levels_up_at_threshold() {
    let mut counter = CountsActions::new(LevelCurve::Skill, 10);
    assert_eq!(counter.level, 1);
    assert_eq!(counter.actions_to_next_level(1, 3), 12);
    for _ in 0..2 {
        counter.increment_actions(3);
    }
    assert_eq!(counter.level, 1);
    assert_eq!(counter.actions_done_current_level, 2);
    counter.increment_actions(3);
    assert_eq!(counter.level, 2);
    assert_eq!(counter.actions_done_current_level, 0);
    assert_eq!(counter.actions_done_total, 3);
    counter.level_up();
    assert_eq!(counter.level, 3);
    assert_eq!(counter.actions_done_total, 3);
}

#[test]
fn counter_compares_counts_as_f64() {
    // 2^54 + 2 converts to 2^54 as f64, so the level is reached two actions early
    let big: i64 = (1i64 << 54) + 2;
    let mut counter = CountsActions {
        level: 1,
        actions_done_current_level: (1i64 << 54) - 1,
        actions_done_total: (1i64 << 54) - 1,
        actions_to_reach_level: LevelCurve::JobArchetype,
        actions_flat: 1,
    };
    assert_eq!((counter.actions_done_current_level + 1) as f64 >= big as f64, true);
    counter.increment_actions(big);
    assert_eq!(counter.level, 2);
    assert_eq!(counter.actions_done_current_level, 0);
    assert_eq!(counter.actions_done_total, 1i64 << 54);
    // a threshold of zero or less is reached by the first action
    let mut counter = CountsActions::new(LevelCurve::Skill, 10);
    counter.increment_actions(-5);
    assert_eq!(counter.level, 2);
    counter.increment_actions(0);
    assert_eq!(counter.level, 3);
}

#[test]
fn job_toggles() {
    let mut job = JobInstance::new(JobParameters { job_archetype: kindlewood() });
    assert!(job.running);
    assert_eq!(job.timeslot_cost, 1);
    assert!(!job.has_paid_resources);
    let before = job;
    job.toggle_running();
    assert!(!job.running);
    job.toggle_running();
    assert_eq!(job, before);
}

#[test]
fn job_pays_for_its_action_once() {
    let mut inventory = Inventory::new();
    let mut job = JobInstance::new(JobParameters { job_archetype: JobArchetype::Alchemy(AlchemyJobArchetype::ManaPotion) });
    // not enough herbs: nothing happens
    assert!(!job.prepare_action(&mut inventory));
    assert!(!job.has_paid_resources);
    assert_eq!(inventory.item_amounts, vec![(Item::Coin, 0)]);
    // with two herbs it pays one
    inventory.add_item(Item::Herb, 2);
    assert!(job.prepare_action(&mut inventory));
    assert!(job.has_paid_resources);
    assert_eq!(inventory.get_item_amount(&Item::Herb), 1);
    // preparing again pays nothing more
    assert!(job.prepare_action(&mut inventory));
    assert_eq!(inventory.get_item_amount(&Item::Herb), 1);
    // the finished action's effects
    let effects = job.finish_action();
    assert!(!job.has_paid_resources);
    assert_eq!(
        effects,
        vec![
            Effect::AddItem { item: Item::ManaPotion, amount: 1 },
            Effect::IncrementActionsForSkill { skill_type: SkillArchetype::Alchemy },
            Effect::IncrementActionsForJobType { job_type: JobArchetype::Alchemy(AlchemyJobArchetype::ManaPotion) },
        ]
    );
}

#[test]
fn job_with_partial_resources_pays_nothing() {
    let mut inventory = Inventory::new();
    inventory.add_item(Item::Wood(WoodItem::Kindlewood), 4);
    inventory.add_item(Item::Meat, 1);
    inventory.add_item(Item::Herb, 1);
    let mut job = JobInstance::new(JobParameters { job_archetype: JobArchetype::Cooking(CookingJobArchetype::Sandwich) });
    assert!(!job.prepare_action(&mut inventory));
    assert_eq!(inventory.get_item_amount(&Item::Wood(WoodItem::Kindlewood)), 4);
    assert_eq!(inventory.get_item_amount(&Item::Meat), 1);
    assert_eq!(job.required_resources(&inventory), vec![
        (Item::Wood(WoodItem::Kindlewood), 4, true),
        (Item::Meat, 1, true),
        (Item::Herb, 1, true),
        (Item::ManaPotion, 1, false),
    ]);
    inventory.add_item(Item::ManaPotion, 1);
    assert!(job.prepare_action(&mut inventory));
    for item in [Item::Wood(WoodItem::Kindlewood), Item::Meat, Item::Herb, Item::ManaPotion] {
        assert_eq!(inventory.get_item_amount(&item), 0);
    }
    // once paid, every requirement counts as met
    assert!(job.required_resources(&inventory).iter().all(|r| r.2));
}

#[test]
fn new_game_state() {
    let state = GameState::new();
    assert_eq!(state.inventory.get_item_amount(&Item::Coin), 0);
    assert_eq!(state.job_slots.len(), JOB_SLOT_COUNT);
    for (i, slot) in state.job_slots.iter().enumerate() {
        assert_eq!(*slot, JobSlot { index: i, state: JobSlotState::Empty });
    }
    assert_eq!(state.skill_archetype_instances.instances.len(), 7);
    assert_eq!(state.job_archetype_instances.instances.len(), 9);
    let skill = state.skill_archetype_instances.get_skill_by_type(&SkillArchetype::Cooking);
    assert_eq!(skill.skill_type, SkillArchetype::Cooking);
    assert_eq!(skill.actions_counter.actions_flat, 10);
    let job = state.job_archetype_instances.get_archetype(&kindlewood());
    assert_eq!(job.job_archetype, kindlewood());
    assert_eq!(job.action_counter.actions_flat, 1);
    assert_eq!(job.action_counter.level, 1);
}

#[test]
fn intents_change_slots() {
    let mut state = GameState::new();
    let place = Intent::ChangeJobSlotState(2, JobSlotState::RunningJob(JobInstance::new(JobParameters { job_archetype: kindlewood() })));
    assert_eq!(place.execute(&mut state), 0);
    assert_eq!(state.job_slots[2].index, 2);
    match state.job_slots[2].state {
        JobSlotState::RunningJob(job) => assert!(job.running),
        _ => panic!("slot 2 should hold a job"),
    }
    assert_eq!(Intent::ToggleJob(2).execute(&mut state), 0);
    match state.job_slots[2].state {
        JobSlotState::RunningJob(job) => assert!(!job.running),
        _ => panic!("slot 2 should hold a job"),
    }
    // a stopped job neither pays nor progresses
    assert!(!state.prepare_job(2));
    assert_eq!(Intent::ToggleJob(2).execute(&mut state), 0);
    // toggling a slot without a job, or past the last slot, does nothing
    let before = state.job_slots.clone();
    assert_eq!(Intent::ToggleJob(0).execute(&mut state), 0);
    assert_eq!(Intent::ToggleJob(42).execute(&mut state), 0);
    assert_eq!(Intent::ChangeJobSlotState(9, JobSlotState::Locked).execute(&mut state), 0);
    assert_eq!(Intent::ToggleHyperMode(2).execute(&mut state), 0);
    assert_eq!(state.job_slots, before);
    // skipping time is left to the caller
    assert_eq!(Intent::SkipSeconds(300).execute(&mut state), 300);
    assert_eq!(Intent::SkipSeconds(-5).execute(&mut state), 0);
    assert_eq!(state.job_slots, before);
}

#[test]
fn finished_action_reaches_inventory_and_counters() {
    let mut state = GameState::new();
    Intent::ChangeJobSlotState(0, JobSlotState::RunningJob(JobInstance::new(JobParameters { job_archetype: kindlewood() })))
        .execute(&mut state);
    assert!(state.prepare_job(0));
    assert!(!state.prepare_job(1));
    let effects = state.finish_job_action(0, 12, 2);
    assert_eq!(effects.len(), 3);
    let finished = JobInstance::new(JobParameters { job_archetype: kindlewood() });
    assert_eq!(effects[0], EffectWithSource::JobSource { job: finished, effect: Effect::AddItem { item: Item::Wood(WoodItem::Kindlewood), amount: 1 } });
    assert_eq!(state.inventory.get_item_amount(&Item::Wood(WoodItem::Kindlewood)), 1);
    let skill = state.skill_archetype_instances.get_skill_by_type(&SkillArchetype::Lumbering);
    assert_eq!(skill.actions_counter.actions_done_total, 1);
    assert_eq!(skill.actions_counter.actions_done_current_level, 1);
    let job = state.job_archetype_instances.get_archetype(&kindlewood());
    assert_eq!(job.action_counter.actions_done_total, 1);
    // a second action reaches the job archetype's threshold of two
    assert!(state.prepare_job(0));
    state.finish_job_action(0, 12, 2);
    let job = state.job_archetype_instances.get_archetype(&kindlewood());
    assert_eq!(job.action_counter.level, 2);
    assert_eq!(job.action_counter.actions_done_current_level, 0);
    assert_eq!(state.inventory.get_item_amount(&Item::Wood(WoodItem::Kindlewood)), 2);
    // other counters are untouched
    let mining = state.skill_archetype_instances.get_skill_by_type(&SkillArchetype::Mining);
    assert_eq!(mining.actions_counter.actions_done_total, 0);
}

#[test]
fn crafting_job_waits_for_resources() {
    let mut state = GameState::new();
    let bar = JobArchetype::Smithing(SmithingJobArchetype::IronBar);
    Intent::ChangeJobSlotState(1, JobSlotState::RunningJob(JobInstance::new(JobParameters { job_archetype: bar })))
        .execute(&mut state);
    assert!(!state.prepare_job(1));
    state.inventory.add_item(Item::Iron, 3);
    assert!(state.prepare_job(1));
    assert_eq!(state.inventory.get_item_amount(&Item::Iron), 1);
    state.finish_job_action(1, 100, 100);
    assert_eq!(state.inventory.get_item_amount(&Item::IronBar), 1);
    // one iron is not enough for the next bar
    assert!(!state.prepare_job(1));
    assert_eq!(state.inventory.get_item_amount(&Item::Iron), 1);
}

#[test]
fn applying_effects() {
    let mut state = GameState::new();
    state.apply_effect(&Effect::AddItem { item: Item::Berry, amount: 5 }, 0);
    assert_eq!(state.inventory.get_item_amount(&Item::Berry), 5);
    state.apply_effect(&Effect::IncrementActionsForSkill { skill_type: SkillArchetype::Hunting }, 1);
    let hunting = state.skill_archetype_instances.get_skill_by_type(&SkillArchetype::Hunting);
    assert_eq!(hunting.actions_counter.level, 2);
    assert_eq!(hunting.actions_counter.actions_done_total, 1);
}

#[test]
fn every_skill_in_one_category_and_its_jobs_in_it() {
    for skill in SkillArchetype::variants() {
        let holding: Vec<SkillCategory> = SkillCategory::variants()
            .into_iter()
            .filter(|c| c.get_skill_archetypes().contains(&skill))
            .collect();
        assert_eq!(holding.len(), 1);
        for job in skill.get_job_archetypes() {
            assert_eq!(job.get_skill_type(), skill);
        }
    }
}

#[test]
fn completion_effect_is_the_first_effect() {
    for archetype in JobArchetype::variants() {
        let mut job = JobInstance::new(JobParameters { job_archetype: archetype });
        let effects = job.finish_action();
        assert_eq!(effects.len(), 3);
        assert_eq!(effects[0], archetype.get_completion_effect());
    }
}
