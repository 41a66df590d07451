//! The dialogue's state machine: what one tick decides, what each script
//! event does, and how pointer input and the presentation layer reach the
//! cards.

use vstd::prelude::*;
use crate::cards::{CardStatus, WordType, span_views};
use crate::command::{Command, CommandError, parse_command, parsed_command};
use crate::line::{LineShown, show_line, shown_line};
use crate::options::{offer_of, offer_options, options_event};
use crate::registry::{
    CardView, discarded_registry, played_registry, shown_card, shown_handles, texts, with_status,
};
use crate::state::DialogueState;
use crate::story::{StoryState, question_id, recorded};
use crate::yarn::{ScriptEvent, YarnManager};

verus! {

/// What the player did since the last tick, and how long that tick is.
pub struct TickInput {
    /// The player asked for the next line.
    pub advance: bool,
    /// The player confirmed a card: the key of the card under the pointer.
    pub confirm: Option<String>,
    /// The time since the last tick, in timer units.
    pub elapsed: u64,
}

/// What the game is to do for one tick, in this order: remove the visual
/// objects, tell the interpreter the chosen option, store the history, pull
/// the next script event.
pub struct TickPlan {
    pub select_option: Option<usize>,
    pub removed: Vec<u64>,
    pub save_history: bool,
    pub pull_event: bool,
}

/// What the choice of a card asks of the game.
pub struct Choice {
    /// The option to tell the interpreter, where the card stands for one.
    pub select_option: Option<usize>,
    /// The handles of the visual objects to remove.
    pub removed: Vec<u64>,
}

/// The option index that the choice of the card under `key` resolves to: the
/// index that the card holds, or `fallback` where it holds none. Only a shown
/// card resolves.
pub open spec fn choice_index(
    reg: Map<Seq<char>, CardView>,
    key: Seq<char>,
    fallback: usize,
) -> Option<usize> {
    if reg.contains_key(key) {
        reg[key].status.resolved(fallback)
    } else {
        None
    }
}

/// The registry once the card under `key` is used up, where a key is given.
pub open spec fn opt_played(reg: Map<Seq<char>, CardView>, key: Option<Seq<char>>) -> Map<
    Seq<char>,
    CardView,
> {
    match key {
        Some(k) => played_registry(reg, k),
        None => reg,
    }
}

/// The handle of the card under `key`, where a key is given and the card is
/// shown.
pub open spec fn opt_handle(reg: Map<Seq<char>, CardView>, key: Option<Seq<char>>) -> Seq<u64> {
    match key {
        Some(k) => match shown_card(reg, k) {
            Some((handle, _)) => seq![handle],
            None => Seq::<u64>::empty(),
        },
        None => Seq::<u64>::empty(),
    }
}

/// The registry once both cards of the pair are used up.
pub open spec fn pair_closed(
    reg: Map<Seq<char>, CardView>,
    pair: (Option<Seq<char>>, Option<Seq<char>>),
) -> Map<Seq<char>, CardView> {
    opt_played(opt_played(reg, pair.0), pair.1)
}

/// The handles of the cards of the pair that are still shown, the first
/// card's first.
pub open spec fn pair_handles(
    reg: Map<Seq<char>, CardView>,
    pair: (Option<Seq<char>>, Option<Seq<char>>),
) -> Seq<u64> {
    opt_handle(reg, pair.0) + opt_handle(opt_played(reg, pair.0), pair.1)
}

/// A handle as a sequence of one or none.
pub open spec fn opt_seq(handle: Option<u64>) -> Seq<u64> {
    match handle {
        Some(h) => seq![h],
        None => Seq::<u64>::empty(),
    }
}

/// How the choice of the card under `key` changes the game: the card is used
/// up and its key joins the history of the current question, where the card
/// was shown; an important pair is closed, both its cards used up; nothing is
/// hovered any more and the session no longer waits for a choice. The game
/// is to remove the hovered visual object and those of the pair.
pub open spec fn selection_resolved(
    s0: DialogueState,
    t0: StoryState,
    y0: YarnManager,
    key: Seq<char>,
    s1: DialogueState,
    t1: StoryState,
    y1: YarnManager,
    select_option: Option<usize>,
    removed: Seq<u64>,
) -> bool {
    let played = played_registry(s0.cards@, key);
    &&& select_option == choice_index(s0.cards@, key, y0.other_option)
    &&& s1.cards@ == if y0.important_decision {
        pair_closed(played, s0.pair())
    } else {
        played
    }
    &&& s1.cards.order() == s0.cards.order()
    &&& removed == opt_seq(s0.selected_card) + if y0.important_decision {
        pair_handles(played, s0.pair())
    } else {
        Seq::<u64>::empty()
    }
    &&& s1.selected_card is None
    &&& s1.previous_card is None
    &&& s1.pair() == if y0.important_decision {
        (None::<Seq<char>>, None::<Seq<char>>)
    } else {
        s0.pair()
    }
    &&& t1.history() == if select_option is Some {
        recorded(t0.history(), t0.current_question, key)
    } else {
        t0.history()
    }
    &&& t1.is_marco_here == t0.is_marco_here
    &&& t1.is_remie_here == t0.is_remie_here
    &&& t1.endings == t0.endings
    &&& t1.current_question == t0.current_question
    &&& t1.the_end == t0.the_end
    &&& !y1.waiting_response
    &&& !y1.important_decision
    &&& y1.waiting_continue == y0.waiting_continue
    &&& y1.finished == y0.finished
    &&& y1.wait_timer == y0.wait_timer
    &&& y1.other_option == y0.other_option
}

/// Resolves the choice of the card under `card_key`.
pub fn resolve_selection(
    state: &mut DialogueState,
    story: &mut StoryState,
    yarn: &mut YarnManager,
    card_key: &str,
) -> (choice: Choice)
    requires
        old(state).wf(),
    ensures
        final(state).wf(),
        selection_resolved(
            *old(state),
            *old(story),
            *old(yarn),
            card_key@,
            *final(state),
            *final(story),
            *final(yarn),
            choice.select_option,
            choice.removed@,
        ),
{
    let mut removed: Vec<u64> = Vec::new();
    match state.selected_card {
        Some(handle) => {
            removed.push(handle);
        },
        None => {},
    }
    assert(removed@ =~= opt_seq(state.selected_card));
    yarn.waiting_response = false;
    let select_option = match state.cards.status(card_key) {
        Some(status) => status.resolve(yarn.other_option),
        None => None,
    };
    if select_option.is_some() {
        state.cards.play(card_key);
        story.record_choice(card_key.to_owned());
    }
    state.selected_card = None;
    state.previous_card = None;
    if yarn.important_decision {
        let ghost played = state.cards@;
        let ghost hovered = removed@;
        let first = state.important_decision.0.take();
        match first {
            Some(key) => {
                match state.cards.play(key.as_str()) {
                    Some((handle, _)) => {
                        removed.push(handle);
                    },
                    None => {},
                }
            },
            None => {},
        }
        assert(removed@ =~= hovered + opt_handle(played, old(state).pair().0));
        let ghost half = state.cards@;
        let second = state.important_decision.1.take();
        match second {
            Some(key) => {
                match state.cards.play(key.as_str()) {
                    Some((handle, _)) => {
                        removed.push(handle);
                    },
                    None => {},
                }
            },
            None => {},
        }
        assert(removed@ =~= hovered + (opt_handle(played, old(state).pair().0) + opt_handle(
            half,
            old(state).pair().1,
        )));
        yarn.important_decision = false;
    } else {
        assert(removed@ =~= opt_seq(old(state).selected_card) + Seq::<u64>::empty());
    }
    Choice { select_option, removed }
}

/// Whether a plan asks nothing of the game.
pub open spec fn idle(plan: TickPlan) -> bool {
    &&& plan.select_option is None
    &&& plan.removed@ == Seq::<u64>::empty()
    &&& !plan.save_history
    &&& !plan.pull_event
}

/// Whether this tick resolves a choice: the session waits for one, the
/// player confirmed, and a card is hovered.
pub open spec fn confirms(state: DialogueState, yarn: YarnManager, input: TickInput) -> bool {
    yarn.waiting_response && input.confirm is Some && state.selected_card is Some
}

/// The sum of two times, held at the largest time where it would pass it.
pub open spec fn time_sum(a: u64, b: u64) -> u64 {
    if a + b <= u64::MAX {
        (a + b) as u64
    } else {
        u64::MAX
    }
}

/// Decides what one tick does.
///
/// After the end of the script only the player's request to go on counts: it
/// acknowledges the end. While a pause runs, the tick only moves the timer.
/// Otherwise the tick first resolves a confirmed choice, then takes the
/// player's request to go on, and asks for the next script event only if the
/// session then waits for nothing.
pub fn update(
    state: &mut DialogueState,
    story: &mut StoryState,
    yarn: &mut YarnManager,
    input: &TickInput,
) -> (plan: TickPlan)
    requires
        old(state).wf(),
    ensures
        final(state).wf(),
        old(yarn).finished ==> {
            &&& idle(plan)
            &&& *final(state) == *old(state)
            &&& *final(yarn) == *old(yarn)
            &&& *final(story) == (StoryState {
                the_end: old(story).the_end || input.advance,
                ..*old(story)
            })
        },
        !old(yarn).finished && old(yarn).paused() ==> {
            &&& idle(plan)
            &&& *final(state) == *old(state)
            &&& *final(story) == *old(story)
            &&& *final(yarn) == (YarnManager {
                wait_timer: (
                    time_sum(old(yarn).wait_timer.0, input.elapsed),
                    old(yarn).wait_timer.1,
                ),
                ..*old(yarn)
            })
        },
        !old(yarn).finished && !old(yarn).paused() ==> {
            &&& final(yarn).waiting_continue == (old(yarn).waiting_continue && !input.advance)
            &&& plan.pull_event == (!final(yarn).waiting_continue && !final(yarn).waiting_response)
            &&& plan.save_history == (plan.select_option is Some)
            &&& confirms(*old(state), *old(yarn), *input) ==> selection_resolved(
                *old(state),
                *old(story),
                *old(yarn),
                input.confirm->0@,
                *final(state),
                *final(story),
                YarnManager { waiting_continue: old(yarn).waiting_continue, ..*final(yarn) },
                plan.select_option,
                plan.removed@,
            )
            &&& !confirms(*old(state), *old(yarn), *input) ==> {
                &&& plan.select_option is None
                &&& plan.removed@ == Seq::<u64>::empty()
                &&& *final(state) == *old(state)
                &&& *final(story) == *old(story)
                &&& *final(yarn) == (YarnManager {
                    waiting_continue: final(yarn).waiting_continue,
                    ..*old(yarn)
                })
            }
        },
{
    if yarn.finished {
        if input.advance {
            story.the_end = true;
        }
        return TickPlan {
            select_option: None,
            removed: Vec::new(),
            save_history: false,
            pull_event: false,
        };
    }
    if yarn.is_paused() {
        let elapsed = yarn.wait_timer.0;
        yarn.wait_timer.0 = if elapsed > u64::MAX - input.elapsed {
            u64::MAX
        } else {
            elapsed + input.elapsed
        };
        return TickPlan {
            select_option: None,
            removed: Vec::new(),
            save_history: false,
            pull_event: false,
        };
    }
    let mut select_option: Option<usize> = None;
    let mut removed: Vec<u64> = Vec::new();
    if yarn.waiting_response && state.selected_card.is_some() {
        match &input.confirm {
            Some(key) => {
                let choice = resolve_selection(state, story, yarn, key.as_str());
                select_option = choice.select_option;
                removed = choice.removed;
            },
            None => {},
        }
    }
    if input.advance {
        yarn.waiting_continue = false;
    }
    let save_history = select_option.is_some();
    let pull_event = !yarn.waiting_continue && !yarn.waiting_response;
    TickPlan { select_option, removed, save_history, pull_event }
}

/// What a command asks of the game.
pub struct CommandDone {
    /// The command that was read and applied.
    pub command: Command,
    /// The handles of the visual objects to remove.
    pub removed: Vec<u64>,
}

/// How command `c` changes the game. `discard` uses up every card, clears
/// the hovered card and lets the session wait for the player to go on; the
/// game is to remove the visual objects of the shown cards. The comings and
/// goings set who is present. `wait` starts the timer anew with its target.
/// `theEnd` unlocks its ending and ends the script. An unknown verb changes
/// nothing.
pub open spec fn command_applied(
    c: Command,
    s0: DialogueState,
    t0: StoryState,
    y0: YarnManager,
    s1: DialogueState,
    t1: StoryState,
    y1: YarnManager,
    removed: Seq<u64>,
) -> bool {
    match c {
        Command::Discard => {
            &&& s1.cards@ == discarded_registry(s0.cards@)
            &&& s1.cards.order() == s0.cards.order()
            &&& s1.selected_card is None
            &&& s1.previous_card is None
            &&& s1.important_decision == s0.important_decision
            &&& removed == shown_handles(s0.cards.order(), s0.cards@)
            &&& t1 == t0
            &&& y1 == (YarnManager { waiting_continue: true, ..y0 })
        },
        Command::MarcoComes => {
            &&& s1 == s0
            &&& removed == Seq::<u64>::empty()
            &&& t1 == (StoryState { is_marco_here: true, ..t0 })
            &&& y1 == y0
        },
        Command::MarcoLeaves(_) => {
            &&& s1 == s0
            &&& removed == Seq::<u64>::empty()
            &&& t1 == (StoryState { is_marco_here: false, ..t0 })
            &&& y1 == y0
        },
        Command::RemieLeaves => {
            &&& s1 == s0
            &&& removed == Seq::<u64>::empty()
            &&& t1 == (StoryState { is_remie_here: false, ..t0 })
            &&& y1 == y0
        },
        Command::Wait(units) => {
            &&& s1 == s0
            &&& removed == Seq::<u64>::empty()
            &&& t1 == t0
            &&& y1 == (YarnManager { wait_timer: (0, units), ..y0 })
        },
        Command::TheEnd(position) => {
            &&& s1 == s0
            &&& removed == Seq::<u64>::empty()
            &&& t1.endings@ == t0.endings@.update(position as int, true)
            &&& t1.is_marco_here == t0.is_marco_here
            &&& t1.is_remie_here == t0.is_remie_here
            &&& t1.selected_options == t0.selected_options
            &&& t1.current_question == t0.current_question
            &&& t1.the_end == t0.the_end
            &&& y1 == (YarnManager { finished: true, ..y0 })
        },
        Command::Unknown => {
            &&& s1 == s0
            &&& removed == Seq::<u64>::empty()
            &&& t1 == t0
            &&& y1 == y0
        },
    }
}

/// What the dialogue box shows for a command, where it shows anything.
pub open spec fn command_notice(c: Command) -> Option<Seq<char>> {
    match c {
        Command::Discard => Some("New act (cards are discarded)"@),
        Command::Wait(_) => Some("..."@),
        Command::TheEnd(_) => Some("the end... or is it"@),
        _ => None,
    }
}

/// What the dialogue box shows for a command.
pub fn notice(c: Command) -> (r: Option<String>)
    ensures
        (r is Some) == (command_notice(c) is Some),
        r is Some ==> r->0@ == command_notice(c)->0,
{
    match c {
        Command::Discard => Some("New act (cards are discarded)".to_owned()),
        Command::Wait(_) => Some("...".to_owned()),
        Command::TheEnd(_) => Some("the end... or is it".to_owned()),
        _ => None,
    }
}

/// Reads and applies a command of the script. A command that cannot be read
/// changes nothing.
pub fn run_command(
    state: &mut DialogueState,
    story: &mut StoryState,
    yarn: &mut YarnManager,
    raw: &str,
) -> (r: Result<CommandDone, CommandError>)
    requires
        old(state).wf(),
    ensures
        final(state).wf(),
        match parsed_command(raw@) {
            Ok(c) => r is Ok && r->Ok_0.command == c && command_applied(
                c,
                *old(state),
                *old(story),
                *old(yarn),
                *final(state),
                *final(story),
                *final(yarn),
                r->Ok_0.removed@,
            ),
            Err(e) => r == Err::<CommandDone, CommandError>(e) && *final(state) == *old(state)
                && *final(story) == *old(story) && *final(yarn) == *old(yarn),
        },
{
    let command = match parse_command(raw) {
        Ok(c) => c,
        Err(e) => {
            return Err(e);
        },
    };
    let mut removed: Vec<u64> = Vec::new();
    match command {
        Command::Discard => {
            removed = state.cards.discard();
            state.selected_card = None;
            state.previous_card = None;
            yarn.waiting_continue = true;
        },
        Command::MarcoComes => {
            story.is_marco_here = true;
        },
        Command::MarcoLeaves(_) => {
            story.is_marco_here = false;
        },
        Command::RemieLeaves => {
            story.is_remie_here = false;
        },
        Command::Wait(units) => {
            yarn.wait_timer = (0, units);
        },
        Command::TheEnd(position) => {
            story.endings[position] = true;
            yarn.finished = true;
        },
        Command::Unknown => {},
    }
    Ok(CommandDone { command, removed })
}

/// What the handling of a script event asks of the game.
pub enum Handled {
    /// Show the line in the dialogue box.
    Line(LineShown),
    /// The options stand in the registry.
    Options,
    /// The command is applied.
    Command(CommandDone),
    /// Compute the function and hand its value to the interpreter.
    Function,
}

/// Handles one script event: a line is shown, options are offered, a command
/// is read and applied; a function call is left to the host and changes
/// nothing here.
pub fn handle_event(
    state: &mut DialogueState,
    story: &mut StoryState,
    yarn: &mut YarnManager,
    event: &ScriptEvent,
) -> (r: Result<Handled, CommandError>)
    requires
        old(state).wf(),
    ensures
        final(state).wf(),
        match *event {
            ScriptEvent::Line(text) => {
                &&& r is Ok
                &&& r->Ok_0 is Line
                &&& r->Ok_0->Line_0@ == shown_line(text@)
                &&& *final(state) == *old(state)
                &&& *final(yarn) == (YarnManager {
                    waiting_continue: !shown_line(text@).question,
                    ..*old(yarn)
                })
                &&& *final(story) == (StoryState {
                    current_question: if shown_line(text@).question {
                        question_id(shown_line(text@).body)
                    } else {
                        old(story).current_question
                    },
                    ..*old(story)
                })
            },
            ScriptEvent::Options(options) => {
                &&& r is Ok
                &&& r->Ok_0 is Options
                &&& offer_of(*final(state), *final(yarn)) == options_event(
                    offer_of(*old(state), *old(yarn)),
                    texts(options@),
                    old(story).history(),
                    old(story).current_question,
                )
                &&& final(yarn).waiting_response
                &&& final(yarn).waiting_continue == old(yarn).waiting_continue
                &&& final(yarn).finished == old(yarn).finished
                &&& final(yarn).wait_timer == old(yarn).wait_timer
                &&& final(state).selected_card == old(state).selected_card
                &&& final(state).previous_card == old(state).previous_card
                &&& *final(story) == *old(story)
            },
            ScriptEvent::Command(raw) => match parsed_command(raw@) {
                Ok(c) => r is Ok && r->Ok_0 is Command && r->Ok_0->Command_0.command == c
                    && command_applied(
                    c,
                    *old(state),
                    *old(story),
                    *old(yarn),
                    *final(state),
                    *final(story),
                    *final(yarn),
                    r->Ok_0->Command_0.removed@,
                ),
                Err(e) => {
                    &&& r is Err
                    &&& r->Err_0 == e
                    &&& *final(state) == *old(state)
                    &&& *final(story) == *old(story)
                    &&& *final(yarn) == *old(yarn)
                },
            },
            ScriptEvent::Function => {
                &&& r is Ok
                &&& r->Ok_0 is Function
                &&& *final(state) == *old(state)
                &&& *final(story) == *old(story)
                &&& *final(yarn) == *old(yarn)
            },
        },
{
    match event {
        ScriptEvent::Line(text) => Ok(Handled::Line(show_line(story, yarn, text.as_str()))),
        ScriptEvent::Options(options) => {
            offer_options(state, story, yarn, options);
            Ok(Handled::Options)
        },
        ScriptEvent::Command(raw) => {
            match run_command(state, story, yarn, raw.as_str()) {
                Ok(done) => Ok(Handled::Command(done)),
                Err(e) => Err(e),
            }
        },
        ScriptEvent::Function => Ok(Handled::Function),
    }
}

/// A point where the pointer's ray meets the plane of a card.
#[derive(Clone, Copy, Debug, PartialEq, Eq)]
pub struct CardHit {
    /// The handle of the card's visual object.
    pub card: u64,
    /// The point's horizontal offset from the card's centre, in the caller's
    /// fixed-point unit.
    pub x: i64,
    /// The point's vertical offset from the card's centre, in the same unit.
    pub y: i64,
}

/// Whether a point lies on its card: within the half extents of the card in
/// both directions.
pub open spec fn on_card(hit: CardHit, half_width: i64, half_height: i64) -> bool {
    -half_width <= hit.x <= half_width && -half_height <= hit.y <= half_height
}

/// The signed distance of a point from the edge of its card along the
/// horizontal axis: negative inside, least on the card's centre line.
pub open spec fn edge_distance(hit: CardHit, half_width: i64) -> int {
    if hit.x < 0 {
        -hit.x - half_width
    } else {
        hit.x - half_width
    }
}

/// The position in `hits` of the hovered card's point: the first of the
/// points on their cards with the least distance from the edge, or -1 where
/// no point lies on its card.
pub open spec fn nearest(hits: Seq<CardHit>, half_width: i64, half_height: i64) -> int
    decreases hits.len(),
{
    if hits.len() == 0 {
        -1
    } else {
        let best = nearest(hits.drop_last(), half_width, half_height);
        if on_card(hits.last(), half_width, half_height) && (best < 0 || edge_distance(
            hits.last(),
            half_width,
        ) < edge_distance(hits[best], half_width)) {
            hits.len() - 1
        } else {
            best
        }
    }
}

/// The hovered card's point lies on its card, no point on its card is
/// nearer to the centre line, and none before it is as near. There is a
/// hovered card as soon as one point lies on its card.
pub proof fn nearest_is_least(hits: Seq<CardHit>, half_width: i64, half_height: i64)
    ensures
        -1 <= nearest(hits, half_width, half_height) < hits.len(),
        nearest(hits, half_width, half_height) >= 0 ==> on_card(
            hits[nearest(hits, half_width, half_height)],
            half_width,
            half_height,
        ),
        forall|j: int|
            0 <= j < hits.len() && on_card(#[trigger] hits[j], half_width, half_height) ==> {
                &&& nearest(hits, half_width, half_height) >= 0
                &&& edge_distance(hits[nearest(hits, half_width, half_height)], half_width)
                    <= edge_distance(hits[j], half_width)
                &&& j < nearest(hits, half_width, half_height) ==> edge_distance(
                    hits[nearest(hits, half_width, half_height)],
                    half_width,
                ) < edge_distance(hits[j], half_width)
            },
    decreases hits.len(),
{
    if hits.len() > 0 {
        let before = hits.drop_last();
        nearest_is_least(before, half_width, half_height);
        assert forall|j: int| 0 <= j < before.len() implies before[j] == hits[j] by {}
    }
}

/// Whether `offset` lies within `half` of the centre, on either side.
pub fn within(offset: i64, half: i64) -> (r: bool)
    ensures
        r == (-half <= offset <= half),
{
    half >= 0 && -half <= offset && offset <= half
}

/// Takes the points where the pointer's ray meets the planes of the cards,
/// with the half extents of a card. With a point on its card, the card that
/// is nearest to the pointer sideways becomes the hovered one and the one
/// hovered before is remembered; with none, both are forgotten at once.
pub fn pick_card_update(
    state: &mut DialogueState,
    hits: &Vec<CardHit>,
    half_width: i64,
    half_height: i64,
)
    ensures
        final(state).cards == old(state).cards,
        final(state).important_decision == old(state).important_decision,
        nearest(hits@, half_width, half_height) < 0 ==> {
            &&& final(state).selected_card is None
            &&& final(state).previous_card is None
        },
        nearest(hits@, half_width, half_height) >= 0 ==> {
            &&& final(state).previous_card == old(state).selected_card
            &&& final(state).selected_card == Some(
                hits@[nearest(hits@, half_width, half_height)].card,
            )
        },
{
    let mut best: Option<usize> = None;
    let mut i: usize = 0;
    assert(hits@.take(0) =~= Seq::<CardHit>::empty());
    while i < hits.len()
        invariant
            i <= hits.len(),
            match best {
                Some(b) => b < i && b == nearest(hits@.take(i as int), half_width, half_height),
                None => nearest(hits@.take(i as int), half_width, half_height) == -1,
            },
            best is Some ==> on_card(hits@[best->0 as int], half_width, half_height),
        decreases hits.len() - i,
    {
        assert(hits@.take(i + 1).drop_last() =~= hits@.take(i as int));
        let hit = hits[i];
        if within(hit.x, half_width) && within(hit.y, half_height) {
            let nearer = match best {
                Some(b) => {
                    assert(hits@.take(i + 1)[b as int] == hits@[b as int]);
                    let other = hits[b];
                    let here = if hit.x < 0 {
                        -hit.x
                    } else {
                        hit.x
                    };
                    let there = if other.x < 0 {
                        -other.x
                    } else {
                        other.x
                    };
                    here < there
                },
                None => true,
            };
            if nearer {
                best = Some(i);
            }
        }
        i += 1;
    }
    assert(hits@.take(hits.len() as int) =~= hits@);
    match best {
        Some(b) => {
            state.previous_card = state.selected_card;
            state.selected_card = Some(hits[b].card);
        },
        None => {
            state.previous_card = None;
            state.selected_card = None;
        },
    }
}

/// Records that the presentation layer made the visual object `handle` for
/// the card under `key`. The result tells whether the card took it: only a
/// card without a visual object does.
pub fn create_cards_update(state: &mut DialogueState, key: &str, handle: u64) -> (done: bool)
    requires
        old(state).wf(),
    ensures
        final(state).wf(),
        final(state).selected_card == old(state).selected_card,
        final(state).previous_card == old(state).previous_card,
        final(state).important_decision == old(state).important_decision,
        final(state).cards.order() == old(state).cards.order(),
        done == (old(state).cards@.contains_key(key@) && old(state).cards@[key@].status is New),
        final(state).cards@ == if done {
            with_status(old(state).cards@, key@, old(state).cards@[key@].status.rendered(handle))
        } else {
            old(state).cards@
        },
{
    state.cards.render(key, handle)
}

/// The words to show on the card under `key`: those of its entry, unless
/// there is no entry or the card is used up.
pub fn card_words_update(state: &DialogueState, key: &str) -> (r: Option<Vec<WordType>>)
    requires
        state.wf(),
    ensures
        (r is Some) == (state.cards@.contains_key(key@) && !state.cards@[key@].status.is_played()),
        r is Some ==> span_views(r->0@) == state.cards@[key@].words,
{
    match state.cards.status(key) {
        Some(CardStatus::Played) => None,
        Some(_) => state.cards.words(key),
        None => None,
    }
}

/// Where a card lies on the table.
#[derive(Clone, Copy, Debug, PartialEq, Eq)]
pub enum CardSlot {
    /// The left place of an important pair.
    Left,
    /// The right place of an important pair.
    Right,
    /// Out of sight, while an important pair is on show.
    Hidden,
    /// In the fan of cards.
    Fan,
}

/// How the presentation layer is to lay out one card.
#[derive(Clone, Copy, Debug, PartialEq, Eq)]
pub struct CardPlacement {
    pub slot: CardSlot,
    /// The fan lies low: the session waits for no choice.
    pub lowered: bool,
    /// The card is lifted: it is hovered while the session waits for a choice.
    pub raised: bool,
    /// The card's movement starts anew: it has just gained or lost the pointer.
    pub restart: bool,
}

/// The place of the card under `key` while an important pair is on show.
pub open spec fn pair_slot(pair: (Option<Seq<char>>, Option<Seq<char>>), key: Seq<char>) -> CardSlot {
    if pair.0 == Some(key) {
        CardSlot::Left
    } else if pair.1 == Some(key) {
        CardSlot::Right
    } else {
        CardSlot::Hidden
    }
}

/// The layout of the card with key `key` and handle `handle`.
pub open spec fn placement(
    state: DialogueState,
    yarn: YarnManager,
    key: Seq<char>,
    handle: u64,
) -> CardPlacement {
    let hovered = state.selected_card == Some(handle);
    let was_hovered = state.previous_card == Some(handle);
    if yarn.important_decision {
        CardPlacement {
            slot: pair_slot(state.pair(), key),
            lowered: false,
            raised: false,
            restart: false,
        }
    } else {
        CardPlacement {
            slot: CardSlot::Fan,
            lowered: !yarn.waiting_response,
            raised: hovered && yarn.waiting_response,
            restart: hovered != was_hovered,
        }
    }
}

/// While an important pair is on show, every card outside the pair is out
/// of sight.
pub proof fn others_are_hidden(state: DialogueState, yarn: YarnManager, key: Seq<char>, handle: u64)
    requires
        yarn.important_decision,
        state.pair().0 != Some(key),
        state.pair().1 != Some(key),
    ensures
        placement(state, yarn, key, handle).slot == CardSlot::Hidden,
{
}

fn names(slot: &Option<String>, key: &str) -> (r: bool)
    ensures
        r == (crate::state::opt_text(*slot) == Some(key@)),
{
    match slot {
        Some(s) => *s == key.to_owned(),
        None => false,
    }
}

/// Decides the layout of one card.
pub fn card_update(state: &DialogueState, yarn: &YarnManager, key: &str, handle: u64) -> (r:
    CardPlacement)
    ensures
        r == placement(*state, *yarn, key@, handle),
{
    let hovered = match state.selected_card {
        Some(h) => h == handle,
        None => false,
    };
    let was_hovered = match state.previous_card {
        Some(h) => h == handle,
        None => false,
    };
    if yarn.important_decision {
        let slot = if names(&state.important_decision.0, key) {
            CardSlot::Left
        } else if names(&state.important_decision.1, key) {
            CardSlot::Right
        } else {
            CardSlot::Hidden
        };
        CardPlacement { slot, lowered: false, raised: false, restart: false }
    } else {
        CardPlacement {
            slot: CardSlot::Fan,
            lowered: !yarn.waiting_response,
            raised: hovered && yarn.waiting_response,
            restart: hovered != was_hovered,
        }
    }
}

} // verus!
