use tiny_fields::game::{GameState, Intent, Item};

#[test]
fn it_works() {
    let mut game_state = GameState::new();
    let intents: Vec<Intent> = vec![];

    // one frame: the intents, then each slot's job, none of which is there
    for intent in &intents {
        assert_eq!(intent.execute(&mut game_state), 0);
    }
    for slot in 0..game_state.job_slots.len() {
        assert!(!game_state.prepare_job(slot));
    }

    assert_eq!(game_state.inventory.get_item_amount(&Item::Coin), 0);
}
