use std::collections::hash_map::DefaultHasher;
use std::collections::HashMap;
use std::hash::{Hash, Hasher};

use strawbevy::cards::{CardStatus, WordKind, WordType};
use strawbevy::command::{parse_command, parse_wait, Command, CommandError};
use strawbevy::dialogue::{
    card_update, card_words_update, create_cards_update, handle_event, notice, pick_card_update,
    resolve_selection, run_command, update, CardHit, CardSlot, Handled, TickInput,
};
use strawbevy::line::{read_line, show_line, LineNote};
use strawbevy::options::offer_options;
use strawbevy::phrasing::{card_of_phrasing, key_of_phrasing};
use strawbevy::registry::OptionRegistry;
use strawbevy::state::DialogueState;
use strawbevy::story::{hash_obj, StoryState, NUM_ENDINGS};
use strawbevy::text::{
    chars_of, contains_marker, is_space_char, join_chars, split_chars, string_of,
    strip_annotation_chars, tokens_of, trim_chars,
};
use strawbevy::yarn::{ScriptEvent, YarnManager};

fn new_game() -> (DialogueState, StoryState, YarnManager) {
    (
        DialogueState::new(),
        StoryState::new([false; NUM_ENDINGS], HashMap::new()),
        YarnManager::new(),
    )
}

fn strings(items: &[&str]) -> Vec<String> {
    items.iter().map(|s| s.to_string()).collect()
}

fn confirm(key: &str) -> TickInput {
    TickInput { advance: false, confirm: Some(key.to_string()), elapsed: 16_000 }
}

fn idle_tick() -> TickInput {
    TickInput { advance: false, confirm: None, elapsed: 16_000 }
}

fn show_all(state: &mut DialogueState, first_handle: u64) {
    let mut handle = first_handle;
    for key in state.cards.new_cards() {
        assert!(create_cards_update(state, &key, handle));
        handle += 1;
    }
}

fn snapshot(state: &DialogueState) -> Vec<(String, Option<CardStatus>, Option<Vec<WordType>>)> {
    state
        .cards
        .keys()
        .into_iter()
        .map(|k| {
            let status = state.cards.status(&k);
            let words = state.cards.words(&k);
            (k, status, words)
        })
        .collect()
}

#[test]
fn phrasings_of_one_option_resolve_to_its_index() {
    let (mut state, mut story, mut yarn) = new_game();
    offer_options(&mut state, &story, &mut yarn, &strings(&["no", "yes | sure|of course", "other"]));
    assert_eq!(state.cards.keys(), strings(&["no", "yes", "sure", "of course"]));
    assert_eq!(state.cards.status("yes"), Some(CardStatus::New(Some(1))));
    assert_eq!(state.cards.status("sure"), Some(CardStatus::New(Some(1))));
    assert_eq!(state.cards.status("of course"), Some(CardStatus::New(Some(1))));
    assert!(!state.cards.contains("other"));
    assert_eq!(yarn.other_option, 2);
    show_all(&mut state, 40);
    pick_card_update(&mut state, &vec![CardHit { card: 42, x: 0, y: 0 }], 100, 125);
    let plan = update(&mut state, &mut story, &mut yarn, &confirm("sure"));
    assert_eq!(plan.select_option, Some(1));
}

#[test]
fn cards_without_an_index_resolve_to_the_fallback() {
    let (mut state, mut story, mut yarn) = new_game();
    offer_options(&mut state, &story, &mut yarn, &strings(&["tea", "coffee"]));
    show_all(&mut state, 1);
    assert_eq!(state.cards.status("tea"), Some(CardStatus::Card(1, Some(0))));
    offer_options(&mut state, &story, &mut yarn, &strings(&["water", "juice", "milk|other"]));
    assert_eq!(state.cards.status("tea"), Some(CardStatus::Card(1, None)));
    assert_eq!(state.cards.status("coffee"), Some(CardStatus::Card(2, None)));
    assert_eq!(state.cards.status("milk"), Some(CardStatus::New(Some(2))));
    assert_eq!(yarn.other_option, 2);
    pick_card_update(&mut state, &vec![CardHit { card: 1, x: 0, y: 0 }], 100, 125);
    let plan = update(&mut state, &mut story, &mut yarn, &confirm("tea"));
    assert_eq!(plan.select_option, Some(2));
    assert_eq!(state.cards.status("tea"), Some(CardStatus::Played));
}

#[test]
fn offering_the_same_options_twice_changes_nothing() {
    let (mut state, mut story, mut yarn) = new_game();
    offer_options(&mut state, &story, &mut yarn, &strings(&["gone", "kept"]));
    show_all(&mut state, 1);
    assert_eq!(resolve_selection(&mut state, &mut story, &mut yarn, "gone").select_option, Some(0));
    story.current_question = 5;
    let event = strings(&["gone (again)|gone", "kept (still)", "fresh|other"]);
    offer_options(&mut state, &story, &mut yarn, &event);
    let once = snapshot(&state);
    let fallback = yarn.other_option;
    offer_options(&mut state, &story, &mut yarn, &event);
    assert_eq!(snapshot(&state), once);
    assert_eq!(yarn.other_option, fallback);
    assert_eq!(state.cards.len(), 5);
    assert_eq!(state.cards.status("gone"), Some(CardStatus::Played));
    assert_eq!(state.cards.words("gone"), Some(vec![WordType::Regular("gone".to_string())]));
    assert_eq!(state.cards.status("kept"), Some(CardStatus::Card(2, None)));
    assert_eq!(state.cards.status("kept still"), Some(CardStatus::New(Some(1))));
}

#[test]
fn previous_card_lags_one_step_and_a_miss_clears_both() {
    let mut state = DialogueState::new();
    pick_card_update(&mut state, &vec![CardHit { card: 3, x: -50, y: 10 }], 100, 125);
    assert_eq!((state.selected_card, state.previous_card), (Some(3), None));
    pick_card_update(
        &mut state,
        &vec![CardHit { card: 3, x: -50, y: 10 }, CardHit { card: 4, x: 20, y: 10 }],
        100,
        125,
    );
    assert_eq!((state.selected_card, state.previous_card), (Some(4), Some(3)));
    pick_card_update(&mut state, &vec![CardHit { card: 4, x: 20, y: 10 }], 100, 125);
    assert_eq!((state.selected_card, state.previous_card), (Some(4), Some(4)));
    pick_card_update(&mut state, &vec![], 100, 125);
    assert_eq!((state.selected_card, state.previous_card), (None, None));
    pick_card_update(&mut state, &vec![CardHit { card: 4, x: 20, y: 10 }], 100, 125);
    pick_card_update(&mut state, &vec![CardHit { card: 4, x: 101, y: 10 }], 100, 125);
    assert_eq!((state.selected_card, state.previous_card), (None, None));
}

#[test]
fn the_card_nearest_to_the_pointer_sideways_is_hovered() {
    let mut state = DialogueState::new();
    let hits = vec![
        CardHit { card: 1, x: 60, y: 0 },
        CardHit { card: 2, x: 5, y: 126 },
        CardHit { card: 3, x: -30, y: -125 },
        CardHit { card: 4, x: 30, y: 0 },
        CardHit { card: 5, x: -100, y: 125 },
        CardHit { card: 6, x: i64::MIN, y: 0 },
    ];
    pick_card_update(&mut state, &hits, 100, 125);
    assert_eq!(state.selected_card, Some(3));
    pick_card_update(&mut state, &hits, 29, 125);
    assert_eq!((state.selected_card, state.previous_card), (None, None));
    pick_card_update(&mut state, &hits, -1, -1);
    assert_eq!((state.selected_card, state.previous_card), (None, None));
    pick_card_update(&mut state, &hits, i64::MAX, 0);
    assert_eq!(state.selected_card, Some(4));
}

#[test]
fn a_reloaded_history_styles_the_cards_as_before() {
    let (mut state, mut story, mut yarn) = new_game();
    let question = ScriptEvent::Line("Remie: Shall we ___".to_string());
    let options = strings(&["yes (gladly)", "no thanks"]);
    handle_event(&mut state, &mut story, &mut yarn, &question).unwrap();
    offer_options(&mut state, &story, &mut yarn, &options);
    assert_eq!(
        state.cards.words("no thanks"),
        Some(vec![WordType::Regular("no thanks".to_string())])
    );
    show_all(&mut state, 1);
    pick_card_update(&mut state, &vec![CardHit { card: 2, x: 0, y: 0 }], 100, 125);
    let plan = update(&mut state, &mut story, &mut yarn, &confirm("no thanks"));
    assert!(plan.save_history);

    let saved: HashMap<u64, Vec<String>> = story.selected_options.clone();
    assert_eq!(saved.get(&hash_obj("Shall we ___")), Some(&strings(&["no thanks"])));

    let mut replay = DialogueState::new();
    let mut same_run = YarnManager::new();
    offer_options(&mut replay, &story, &mut same_run, &options);

    let mut reloaded_state = DialogueState::new();
    let mut reloaded_story = StoryState::new([false; NUM_ENDINGS], saved);
    let mut reloaded_yarn = YarnManager::new();
    handle_event(&mut reloaded_state, &mut reloaded_story, &mut reloaded_yarn, &question).unwrap();
    offer_options(&mut reloaded_state, &reloaded_story, &mut reloaded_yarn, &options);

    assert_eq!(snapshot(&reloaded_state), snapshot(&replay));
    assert_eq!(
        reloaded_state.cards.words("no thanks"),
        Some(vec![WordType::PreviouslySelected("no thanks".to_string())])
    );
    assert_eq!(
        reloaded_state.cards.words("yes gladly"),
        Some(vec![WordType::Regular("yes".to_string()), WordType::Varying("gladly ".to_string())])
    );
}

#[test]
fn an_important_pair_is_closed_by_choosing_one_of_it() {
    let (mut state, mut story, mut yarn) = new_game();
    offer_options(&mut state, &story, &mut yarn, &strings(&["shrug", "!stay", "!go"]));
    assert!(yarn.important_decision);
    assert_eq!(
        state.important_decision,
        (Some("!stay".to_string()), Some("!go".to_string()))
    );
    show_all(&mut state, 10);
    assert_eq!(card_update(&state, &yarn, "!stay", 11).slot, CardSlot::Left);
    assert_eq!(card_update(&state, &yarn, "!go", 12).slot, CardSlot::Right);
    assert_eq!(card_update(&state, &yarn, "shrug", 10).slot, CardSlot::Hidden);

    pick_card_update(&mut state, &vec![CardHit { card: 11, x: 0, y: 0 }], 100, 125);
    let plan = update(&mut state, &mut story, &mut yarn, &confirm("!stay"));
    assert_eq!(plan.select_option, Some(1));
    assert_eq!(plan.removed, vec![11, 12]);
    assert_eq!(state.cards.status("!stay"), Some(CardStatus::Played));
    assert_eq!(state.cards.status("!go"), Some(CardStatus::Played));
    assert_eq!(state.cards.status("shrug"), Some(CardStatus::Card(10, Some(0))));
    assert_eq!(state.important_decision, (None, None));
    assert!(!yarn.important_decision);
    assert_eq!(card_update(&state, &yarn, "shrug", 10).slot, CardSlot::Fan);
}

#[test]
fn the_fan_lifts_the_hovered_card_and_restarts_on_change() {
    let (mut state, story, mut yarn) = new_game();
    offer_options(&mut state, &story, &mut yarn, &strings(&["a", "b"]));
    show_all(&mut state, 1);
    pick_card_update(&mut state, &vec![CardHit { card: 1, x: 0, y: 0 }], 100, 125);
    let hovered = card_update(&state, &yarn, "a", 1);
    assert_eq!(hovered.slot, CardSlot::Fan);
    assert!(hovered.raised && hovered.restart && !hovered.lowered);
    let other = card_update(&state, &yarn, "b", 2);
    assert!(!other.raised && !other.restart);
    pick_card_update(&mut state, &vec![CardHit { card: 2, x: 0, y: 0 }], 100, 125);
    assert!(card_update(&state, &yarn, "a", 1).restart);
    assert!(card_update(&state, &yarn, "b", 2).restart);
    pick_card_update(&mut state, &vec![CardHit { card: 2, x: 0, y: 0 }], 100, 125);
    assert!(!card_update(&state, &yarn, "b", 2).restart);
    yarn.waiting_response = false;
    let resting = card_update(&state, &yarn, "b", 2);
    assert!(resting.lowered && !resting.raised);
}

#[test]
fn at_most_one_event_is_pulled_and_only_when_nothing_is_awaited() {
    let (mut state, mut story, mut yarn) = new_game();
    assert!(update(&mut state, &mut story, &mut yarn, &idle_tick()).pull_event);
    handle_event(&mut state, &mut story, &mut yarn, &ScriptEvent::Line("Waiter: Hello.".to_string()))
        .unwrap();
    assert!(yarn.waiting_continue);
    assert!(!update(&mut state, &mut story, &mut yarn, &idle_tick()).pull_event);
    let go_on = TickInput { advance: true, confirm: None, elapsed: 16_000 };
    assert!(update(&mut state, &mut story, &mut yarn, &go_on).pull_event);
    assert!(!yarn.waiting_continue);

    handle_event(&mut state, &mut story, &mut yarn, &ScriptEvent::Options(strings(&["x"]))).unwrap();
    assert!(!update(&mut state, &mut story, &mut yarn, &go_on).pull_event);
    let plan = update(&mut state, &mut story, &mut yarn, &confirm("x"));
    assert_eq!(plan.select_option, None);
    assert!(!plan.pull_event);
    assert!(yarn.waiting_response);
}

#[test]
fn a_function_call_changes_nothing() {
    let (mut state, mut story, mut yarn) = new_game();
    let handled = handle_event(&mut state, &mut story, &mut yarn, &ScriptEvent::Function);
    assert!(matches!(handled, Ok(Handled::Function)));
    assert!(!yarn.waiting_continue && !yarn.waiting_response);
    assert_eq!(state.cards.len(), 0);
}

#[test]
fn the_end_unlocks_an_ending_and_stops_the_script() {
    let (mut state, mut story, mut yarn) = new_game();
    let done = run_command(&mut state, &mut story, &mut yarn, "theEnd 3").unwrap();
    assert_eq!(done.command, Command::TheEnd(2));
    assert_eq!(story.endings, [false, false, true, false, false]);
    assert_eq!(story.unlocked_endings(), 1);
    assert!(yarn.finished);
    assert_eq!(notice(done.command), Some("the end... or is it".to_string()));

    let plan = update(&mut state, &mut story, &mut yarn, &confirm("x"));
    assert!(!plan.pull_event && plan.select_option.is_none() && plan.removed.is_empty());
    assert!(!story.the_end);
    let go_on = TickInput { advance: true, confirm: None, elapsed: 0 };
    assert!(!update(&mut state, &mut story, &mut yarn, &go_on).pull_event);
    assert!(story.the_end);
}

#[test]
fn commands_are_read_by_their_tokens() {
    assert_eq!(parse_command("discard"), Ok(Command::Discard));
    assert_eq!(parse_command("marcoComes"), Ok(Command::MarcoComes));
    assert_eq!(parse_command("marcoLeaves"), Ok(Command::MarcoLeaves(false)));
    assert_eq!(parse_command("marcoLeaves drinks"), Ok(Command::MarcoLeaves(true)));
    assert_eq!(parse_command("marcoLeaves drinks now"), Ok(Command::MarcoLeaves(false)));
    assert_eq!(parse_command("remieLeaves"), Ok(Command::RemieLeaves));
    assert_eq!(parse_command("  wait   3  "), Ok(Command::Wait(3_000_000)));
    assert_eq!(parse_command("wait"), Ok(Command::Wait(1_000_000)));
    assert_eq!(parse_command("theEnd 1"), Ok(Command::TheEnd(0)));
    assert_eq!(parse_command("theEnd 5"), Ok(Command::TheEnd(4)));
    assert_eq!(parse_command("theEnd 0"), Err(CommandError::MalformedEnding));
    assert_eq!(parse_command("theEnd 6"), Err(CommandError::MalformedEnding));
    assert_eq!(parse_command("theEnd 2 3"), Err(CommandError::MalformedEnding));
    assert_eq!(parse_command("theEnd two"), Err(CommandError::MalformedEnding));
    assert_eq!(parse_command("wait 1e3"), Err(CommandError::MalformedWait));
    assert_eq!(parse_command("dance"), Ok(Command::Unknown));
    assert_eq!(parse_command(""), Ok(Command::Unknown));
    assert_eq!(notice(Command::Discard), Some("New act (cards are discarded)".to_string()));
    assert_eq!(notice(Command::Wait(5)), Some("...".to_string()));
    assert_eq!(notice(Command::MarcoComes), None);
}

#[test]
fn wait_durations_are_decimal_seconds_in_timer_units() {
    let wait = |s: &str| parse_wait(&s.chars().collect());
    assert_eq!(wait("2.5"), Some(2_500_000));
    assert_eq!(wait("0"), Some(0));
    assert_eq!(wait("7"), Some(7_000_000));
    assert_eq!(wait("7."), Some(7_000_000));
    assert_eq!(wait(".25"), Some(250_000));
    assert_eq!(wait("0.000001"), Some(1));
    assert_eq!(wait("1.2345678"), Some(1_234_567));
    assert_eq!(wait("18446744073709.551615"), Some(u64::MAX));
    assert_eq!(wait("18446744073709.551616"), None);
    assert_eq!(wait("99999999999999999999"), None);
    assert_eq!(wait("."), None);
    assert_eq!(wait(""), None);
    assert_eq!(wait("-1"), None);
    assert_eq!(wait("1.2.3"), None);
    assert_eq!(wait("1.2345678x"), None);
}

#[test]
fn presence_commands_move_the_characters() {
    let (mut state, mut story, mut yarn) = new_game();
    assert!(story.is_remie_here && !story.is_marco_here);
    run_command(&mut state, &mut story, &mut yarn, "marcoComes").unwrap();
    assert!(story.is_marco_here);
    let done = run_command(&mut state, &mut story, &mut yarn, "marcoLeaves drinks").unwrap();
    assert_eq!(done.command, Command::MarcoLeaves(true));
    assert!(!story.is_marco_here);
    run_command(&mut state, &mut story, &mut yarn, "remieLeaves").unwrap();
    assert!(!story.is_remie_here);
    let done = run_command(&mut state, &mut story, &mut yarn, "juggle 3").unwrap();
    assert_eq!(done.command, Command::Unknown);
    assert!(done.removed.is_empty());
}

#[test]
fn the_timer_stops_at_the_largest_time() {
    let (mut state, mut story, mut yarn) = new_game();
    yarn.wait_timer = (u64::MAX - 5, u64::MAX);
    let tick = TickInput { advance: false, confirm: None, elapsed: 100 };
    assert!(!update(&mut state, &mut story, &mut yarn, &tick).pull_event);
    assert_eq!(yarn.wait_timer, (u64::MAX, u64::MAX));
    assert!(update(&mut state, &mut story, &mut yarn, &tick).pull_event);
}

#[test]
fn lines_lose_their_annotations_and_split_at_the_speaker() {
    let line = read_line("Remie: [smile]Hi [wave] there[end]");
    assert_eq!((line.speaker.as_str(), line.body.as_str()), ("Remie", "Hi  there"));
    assert_eq!(line.note, LineNote::Spoken);
    assert!(!line.question);

    let line = read_line("Waiter: One thing: the bill ___ ");
    assert_eq!((line.speaker.as_str(), line.body.as_str()), ("Waiter", "One thing: the bill ___"));
    assert!(line.question);

    let line = read_line("Remy: Hello");
    assert_eq!((line.speaker.as_str(), line.body.as_str()), ("", "Remy: Hello"));
    assert_eq!(line.note, LineNote::UnknownSpeaker);

    let line = read_line("  The room is quiet.  ");
    assert_eq!((line.speaker.as_str(), line.body.as_str()), ("", "The room is quiet."));
    assert_eq!(line.note, LineNote::NoSpeaker);

    let line = read_line("Player: __ _ __");
    assert!(!line.question);
}

#[test]
fn text_rules_on_edge_cases() {
    let strip = |s: &str| string_of(&strip_annotation_chars(&chars_of(s)));
    assert_eq!(strip("a[b]c"), "ac");
    assert_eq!(strip("[a[b]c]"), "c]");
    assert_eq!(strip("a]b"), "a]b");
    assert_eq!(strip("a[bc"), "a[bc");
    assert_eq!(strip("[][]"), "");
    assert_eq!(strip(""), "");

    let trim = |s: &str| string_of(&trim_chars(&chars_of(s)));
    assert_eq!(trim(" \t a b \u{a0}\n"), "a b");
    assert_eq!(trim("   "), "");
    assert_eq!(trim("x"), "x");

    let pieces: Vec<String> = split_chars(&chars_of("a||b|"), '|').iter().map(string_of).collect();
    assert_eq!(pieces, strings(&["a", "", "b", ""]));
    let pieces: Vec<String> = split_chars(&chars_of(""), '|').iter().map(string_of).collect();
    assert_eq!(pieces, strings(&[""]));

    let toks = tokens_of(&chars_of("  one   two three "));
    assert_eq!(toks.iter().map(string_of).collect::<Vec<String>>(), strings(&["one", "two", "three"]));
    assert_eq!(string_of(&join_chars(&toks, ' ')), "one two three");
    assert_eq!(string_of(&join_chars(&Vec::new(), ' ')), "");
}

#[test]
fn strings_and_characters_convert_both_ways() {
    let text = "h\u{e9}llo \u{4e16}\u{754c} ___";
    let chars = chars_of(text);
    assert_eq!(chars, text.chars().collect::<Vec<char>>());
    assert_eq!(string_of(&chars), text);
    assert_eq!(string_of(&Vec::new()), "");
}

#[test]
fn question_ids_are_the_default_hash_of_the_text() {
    let expected = |s: &str| {
        let mut h = DefaultHasher::new();
        s.hash(&mut h);
        h.finish()
    };
    assert_eq!(hash_obj("Hello ___"), expected("Hello ___"));
    assert_eq!(hash_obj(""), expected(""));
    assert_ne!(hash_obj("Hello ___"), hash_obj("Hello ___ "));
    let (_, mut story, mut yarn) = new_game();
    show_line(&mut story, &mut yarn, "Remie: [sigh] What now ___");
    assert_eq!(story.current_question, expected("What now ___"));
}

#[test]
fn card_keys_and_words_follow_the_tokens() {
    let card = |s: &str, chosen: bool| card_of_phrasing(&chars_of(s), chosen);
    let (key, words) = card("I (really) like it  here", false);
    assert_eq!(key, "I really like it here");
    assert_eq!(
        words,
        vec![
            WordType::Regular("I".to_string()),
            WordType::Varying("really ".to_string()),
            WordType::Regular("like it here".to_string()),
        ]
    );
    let (key, words) = card("(a) (b) c", true);
    assert_eq!(key, "a b c");
    assert_eq!(
        words,
        vec![
            WordType::Varying("a ".to_string()),
            WordType::Varying("b ".to_string()),
            WordType::PreviouslySelected("c".to_string()),
        ]
    );
    let (key, words) = card("", false);
    assert_eq!(key, "");
    assert!(words.is_empty());
    assert_eq!(key_of_phrasing(&chars_of("maybe (x)")), "maybe x");
    assert_eq!(words[..].len(), 0);
    assert_eq!(WordType::Varying("x ".to_string()).describe(), "Varying(x )");
    assert_eq!(WordType::Regular("a b".to_string()).describe(), "Regular(a b)");
    assert_eq!(WordType::PreviouslySelected("c".to_string()).describe(), "PreviouslySelected(c)");
    assert_eq!(WordType::default(), WordType::Regular(String::new()));
    assert_eq!(WordType::Varying("x".to_string()).kind(), WordKind::Varying);
    assert_eq!(CardStatus::default(), CardStatus::New(None));
}

#[test]
fn the_registry_keeps_one_entry_per_key() {
    let mut cards = OptionRegistry::new();
    assert_eq!(cards.len(), 0);
    cards.offer("a".to_string(), vec![WordType::Regular("a".to_string())], 0);
    cards.offer("b".to_string(), vec![WordType::Regular("b".to_string())], 1);
    cards.offer("a".to_string(), vec![WordType::Regular("A".to_string())], 4);
    assert_eq!(cards.len(), 2);
    assert_eq!(cards.status("a"), Some(CardStatus::New(Some(4))));
    assert_eq!(cards.words("a"), Some(vec![WordType::Regular("A".to_string())]));
    assert_eq!(cards.status("c"), None);
    assert_eq!(cards.words("c"), None);

    assert!(cards.render("a", 9));
    assert!(!cards.render("a", 10));
    assert!(!cards.render("c", 10));
    assert_eq!(cards.status("a"), Some(CardStatus::Card(9, Some(4))));
    assert_eq!(cards.new_cards(), strings(&["b"]));
    cards.clear_indices();
    assert_eq!(cards.status("a"), Some(CardStatus::Card(9, None)));
    assert_eq!(cards.status("b"), Some(CardStatus::New(Some(1))));

    assert_eq!(cards.play("b"), None);
    assert_eq!(cards.play("a"), Some((9, None)));
    assert_eq!(cards.play("a"), None);
    assert_eq!(cards.status("a"), Some(CardStatus::Played));
    cards.offer("a".to_string(), vec![WordType::Regular("late".to_string())], 2);
    assert_eq!(cards.status("a"), Some(CardStatus::Played));
    assert_eq!(cards.words("a"), Some(vec![WordType::Regular("A".to_string())]));
    assert!(cards.render("b", 3));
    assert_eq!(cards.discard(), vec![3]);
    assert_eq!(cards.status("b"), Some(CardStatus::Played));
}

#[test]
fn used_up_cards_show_no_words() {
    let (mut state, mut story, mut yarn) = new_game();
    offer_options(&mut state, &story, &mut yarn, &strings(&["one", "two"]));
    assert_eq!(card_words_update(&state, "one"), Some(vec![WordType::Regular("one".to_string())]));
    assert_eq!(card_words_update(&state, "three"), None);
    assert!(!create_cards_update(&mut state, "three", 1));
    assert!(create_cards_update(&mut state, "one", 1));
    assert!(!create_cards_update(&mut state, "one", 2));
    resolve_selection(&mut state, &mut story, &mut yarn, "one");
    assert_eq!(card_words_update(&state, "one"), None);
}

#[test]
fn choosing_a_card_that_is_not_shown_selects_nothing() {
    let (mut state, mut story, mut yarn) = new_game();
    offer_options(&mut state, &story, &mut yarn, &strings(&["one"]));
    state.selected_card = Some(77);
    let plan = update(&mut state, &mut story, &mut yarn, &confirm("one"));
    assert_eq!(plan.select_option, None);
    assert!(!plan.save_history);
    assert_eq!(plan.removed, vec![77]);
    assert_eq!(state.cards.status("one"), Some(CardStatus::New(Some(0))));
    assert!(story.selected_options.is_empty());
    assert!(!yarn.waiting_response);
}

#[test]
fn fresh_values_wait_for_nothing() {
    let yarn = YarnManager::default();
    assert!(!yarn.waiting_continue && !yarn.waiting_response && !yarn.finished);
    assert!(!yarn.is_paused());
    assert_eq!(yarn.wait_timer, (0, 0));
    let state = DialogueState::default();
    assert_eq!((state.selected_card, state.previous_card), (None, None));
    assert_eq!(state.important_decision, (None, None));
    let story = StoryState::new([true, false, true, false, false], HashMap::new());
    assert_eq!(story.unlocked_endings(), 2);
    assert!(!story.was_chosen("x"));
}

#[test]
fn a_third_important_phrasing_takes_the_second_place() {
    let (mut state, story, mut yarn) = new_game();
    offer_options(&mut state, &story, &mut yarn, &strings(&["!one|plain", "!two", "!three"]));
    assert!(yarn.important_decision);
    assert_eq!(
        state.important_decision,
        (Some("!one".to_string()), Some("!three".to_string()))
    );
    assert_eq!(state.cards.keys(), strings(&["!one", "plain", "!two", "!three"]));
    let (mut state, story, mut yarn) = new_game();
    offer_options(&mut state, &story, &mut yarn, &strings(&["only", "!this"]));
    assert_eq!(state.important_decision, (Some("!this".to_string()), None));
    let (mut state, story, mut yarn) = new_game();
    offer_options(&mut state, &story, &mut yarn, &strings(&["none", "of these"]));
    assert!(!yarn.important_decision);
    assert_eq!(state.important_decision, (None, None));
}

#[test]
fn white_space_is_what_the_standard_library_trims() {
    let mut c = 0u32;
    while c <= 0x10ffff {
        if let Some(ch) = char::from_u32(c) {
            assert_eq!(is_space_char(ch), ch.is_whitespace(), "at {:x}", c);
        }
        c += 1;
    }
}

#[test]
fn text_rules_agree_with_the_standard_library() {
    let samples = [
        "",
        " ",
        "a",
        "  a  b  ",
        "\t x|y |  z\u{3000}",
        "||",
        "a|b|c",
        " yes | sure|of course ",
        "___",
        "a __ _b___",
        "\u{2003}wide\u{a0}",
    ];
    for s in samples {
        assert_eq!(string_of(&trim_chars(&chars_of(s))), s.trim());
        let pieces: Vec<String> = split_chars(&chars_of(s), '|').iter().map(string_of).collect();
        assert_eq!(pieces, s.split('|').map(|p| p.to_string()).collect::<Vec<String>>());
        let tokens: Vec<String> = tokens_of(&chars_of(s)).iter().map(string_of).collect();
        let expected: Vec<String> =
            s.split(' ').filter(|t| !t.is_empty()).map(|t| t.to_string()).collect();
        assert_eq!(tokens, expected);
        assert_eq!(contains_marker(&chars_of(s)), s.contains("___"));
    }
}
