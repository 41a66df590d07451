use std::collections::HashMap;

use strawbevy::cards::{CardStatus, WordType};
use strawbevy::command::{Command, CommandError};
use strawbevy::dialogue::{
    create_cards_update, handle_event, pick_card_update, run_command, update, CardHit, Handled,
    TickInput,
};
use strawbevy::line::{show_line, LineNote};
use strawbevy::options::offer_options;
use strawbevy::state::DialogueState;
use strawbevy::story::{hash_obj, StoryState, NUM_ENDINGS};
use strawbevy::yarn::{ScriptEvent, YarnManager};

fn fresh() -> (DialogueState, StoryState, YarnManager) {
    (
        DialogueState::new(),
        StoryState::new([false; NUM_ENDINGS], HashMap::new()),
        YarnManager::new(),
    )
}

fn texts(items: &[&str]) -> Vec<String> {
    items.iter().map(|s| s.to_string()).collect()
}

fn quiet(elapsed: u64) -> TickInput {
    TickInput { advance: false, confirm: None, elapsed }
}

#[test]
fn question_line_sets_context_and_waits_for_options() {
    let (_, mut story, mut yarn) = fresh();
    let shown = show_line(&mut story, &mut yarn, "Remie: Hello ___");
    assert_eq!(shown.speaker, "Remie");
    assert_eq!(shown.body, "Hello ___");
    assert!(shown.question);
    assert_eq!(shown.note, LineNote::Spoken);
    assert!(!yarn.waiting_continue);
    assert_eq!(story.current_question, hash_obj("Hello ___"));
}

#[test]
fn plain_line_waits_for_continue() {
    let (_, mut story, mut yarn) = fresh();
    story.current_question = 17;
    let shown = show_line(&mut story, &mut yarn, "Player: Fine, thanks.");
    assert_eq!(shown.speaker, "Player");
    assert_eq!(shown.body, "Fine, thanks.");
    assert!(!shown.question);
    assert!(yarn.waiting_continue);
    assert_eq!(story.current_question, 17);
}

#[test]
fn options_become_cards_and_selection_resolves() {
    let (mut state, story, mut yarn) = fresh();
    offer_options(&mut state, &story, &mut yarn, &texts(&["yes (please)", "no", "other"]));
    assert_eq!(state.cards.len(), 2);
    assert_eq!(state.cards.keys(), texts(&["yes please", "no"]));
    assert_eq!(state.cards.status("yes please"), Some(CardStatus::New(Some(0))));
    assert_eq!(
        state.cards.words("yes please"),
        Some(vec![WordType::Regular("yes".to_string()), WordType::Varying("please ".to_string())])
    );
    assert_eq!(state.cards.status("no"), Some(CardStatus::New(Some(1))));
    assert_eq!(state.cards.words("no"), Some(vec![WordType::Regular("no".to_string())]));
    assert!(!state.cards.contains("other"));
    assert_eq!(yarn.other_option, 2);
    assert!(yarn.waiting_response);

    assert!(create_cards_update(&mut state, "yes please", 11));
    assert!(create_cards_update(&mut state, "no", 12));
    pick_card_update(&mut state, &vec![CardHit { card: 12, x: -3, y: 0 }], 100, 125);
    let mut story = story;
    let plan = update(
        &mut state,
        &mut story,
        &mut yarn,
        &TickInput { advance: false, confirm: Some("no".to_string()), elapsed: 16_000 },
    );
    assert_eq!(plan.select_option, Some(1));
    assert_eq!(plan.removed, vec![12]);
    assert!(plan.save_history);
    assert!(plan.pull_event);
    assert_eq!(state.cards.status("no"), Some(CardStatus::Played));
    assert_eq!(state.cards.status("yes please"), Some(CardStatus::Card(11, Some(0))));
    assert_eq!(state.selected_card, None);
    assert_eq!(state.previous_card, None);
    assert!(!yarn.waiting_response);
    assert_eq!(story.selected_options.get(&story.current_question), Some(&texts(&["no"])));
}

#[test]
fn discard_plays_every_card_for_good() {
    let (mut state, mut story, mut yarn) = fresh();
    offer_options(&mut state, &story, &mut yarn, &texts(&["stay", "leave"]));
    assert!(create_cards_update(&mut state, "stay", 5));
    pick_card_update(&mut state, &vec![CardHit { card: 5, x: 0, y: 0 }], 100, 125);
    pick_card_update(&mut state, &vec![CardHit { card: 5, x: 0, y: 0 }], 100, 125);
    assert_eq!(state.selected_card, Some(5));
    assert_eq!(state.previous_card, Some(5));

    let done = run_command(&mut state, &mut story, &mut yarn, "discard").unwrap();
    assert_eq!(done.command, Command::Discard);
    assert_eq!(done.removed, vec![5]);
    assert_eq!(state.cards.status("stay"), Some(CardStatus::Played));
    assert_eq!(state.cards.status("leave"), Some(CardStatus::Played));
    assert_eq!(state.selected_card, None);
    assert_eq!(state.previous_card, None);
    assert!(yarn.waiting_continue);

    offer_options(&mut state, &story, &mut yarn, &texts(&["stay", "leave"]));
    assert_eq!(state.cards.len(), 2);
    assert_eq!(state.cards.status("stay"), Some(CardStatus::Played));
    assert_eq!(state.cards.status("leave"), Some(CardStatus::Played));
    assert!(state.cards.new_cards().is_empty());
}

#[test]
fn wait_command_holds_the_script_until_the_timer_is_done() {
    let (mut state, mut story, mut yarn) = fresh();
    let handled =
        handle_event(&mut state, &mut story, &mut yarn, &ScriptEvent::Command("wait 2.5".to_string()));
    match handled {
        Ok(Handled::Command(done)) => assert_eq!(done.command, Command::Wait(2_500_000)),
        _ => panic!("the command was not applied"),
    }
    assert_eq!(yarn.wait_timer, (0, 2_500_000));

    let plan = update(&mut state, &mut story, &mut yarn, &quiet(1_000_000));
    assert!(!plan.pull_event);
    assert_eq!(yarn.wait_timer, (1_000_000, 2_500_000));
    let plan = update(&mut state, &mut story, &mut yarn, &quiet(1_000_000));
    assert!(!plan.pull_event);
    assert_eq!(yarn.wait_timer, (2_000_000, 2_500_000));
    let plan = update(&mut state, &mut story, &mut yarn, &quiet(500_000));
    assert!(!plan.pull_event);
    assert_eq!(yarn.wait_timer, (2_500_000, 2_500_000));
    let plan = update(&mut state, &mut story, &mut yarn, &quiet(16_000));
    assert!(plan.pull_event);
    assert_eq!(yarn.wait_timer, (2_500_000, 2_500_000));
}

#[test]
fn malformed_commands_are_reported_and_change_nothing() {
    let (mut state, mut story, mut yarn) = fresh();
    let r = run_command(&mut state, &mut story, &mut yarn, "wait soon");
    assert_eq!(r.err(), Some(CommandError::MalformedWait));
    let r = run_command(&mut state, &mut story, &mut yarn, "theEnd 9");
    assert_eq!(r.err(), Some(CommandError::MalformedEnding));
    let r = run_command(&mut state, &mut story, &mut yarn, "theEnd");
    assert_eq!(r.err(), Some(CommandError::MalformedEnding));
    assert_eq!(yarn.wait_timer, (0, 0));
    assert!(!yarn.finished);
    assert_eq!(story.endings, [false; NUM_ENDINGS]);
}
