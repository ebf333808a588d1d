//! The session with the client's WebSocket, as a state machine: the caller
//! reads a frame, hands it over as an event, and performs what comes back
//! (frames to send, messages for the window). While the user is marked
//! ready, the start of champion select sets off the random picks.

use vstd::prelude::*;
use crate::json::Json;
use crate::frames::{
    pickable_query, pick_request, spells_query, spells_request, styles_query, delete_pages_request,
    summoner_query, ready_subscription, lobby_query, subscribe_frame, watched_events, ready_query,
    pickable_query_frame, pick_request_frame, spells_query_frame, spells_request_frame,
    styles_query_frame, delete_pages_frame, summoner_query_frame, ready_subscription_frame,
    lobby_query_frame, ready_query_frame, watched_event_frames,
};
use crate::picks::{
    frame_item, frame_code, frame_is_reply, is_champ_select_start, action_id_of, champion_pick,
    spells_available, spells_after_draw, code_of, distinct, law_drawn_spells_distinct,
    law_available_spells_listed, i64_items, is_classic_spell, lemma_classic_ids_are_classic,
    classic_spell_ids, is_reply, champ_select_started, action_id,
    pick_champion, available_spells, draw_spell,
};
use crate::runes::{
    RuneBuilder, RuneBuilderView, RunePage, RunePageView, RuneStep, RuneStepView, rune_start,
    rune_step, rune_needs_draw,
};

verus! {

/// How far the session is set up.
#[derive(Clone, Copy, PartialEq, Eq, Structural)]
pub enum Setup {
    /// Asked whether the client's settings are ready.
    AwaitReady,
    /// Subscribed to the settings becoming ready; waiting for any frame.
    AwaitReadyEvent,
    /// Asked for the signed-in summoner.
    AwaitSummoner,
    /// Asked for the lobby.
    AwaitLobby,
    /// Subscribed to the watched events.
    Watching,
}

/// Where a champion select run stands.
pub enum Stage {
    /// Asked which champions may be picked.
    AwaitPickable,
    /// Asked to lock in the drawn champion.
    AwaitPick,
    /// Asked which summoner spells the summoner owns.
    AwaitSpells,
    /// Drawing two different spells out of the available ones.
    DrawSpells { available: Vec<i64>, chosen: Vec<i64> },
    /// Asked to select the two spells.
    AwaitSpellsSet,
    /// Asked for the rune styles.
    AwaitStyles,
    /// Drawing a rune page.
    Runes(RuneBuilder),
    /// Asked to delete the rune pages; this page comes next.
    AwaitPagesDeleted(RunePage),
    /// Asked to create the page.
    AwaitPageCreated,
}

/// A champion select run, started by the event frame `message`.
pub struct Frame {
    pub message: String,
    pub is_close: bool,
    pub action_id: u64,
    pub stage: Stage,
}

/// The session with the client.
pub struct Watcher {
    spell_ids: Vec<i64>,
    summoner_id: String,
    setup: Setup,
    frames: Vec<Frame>,
    nested: bool,
    finished: bool,
}

/// What happened on the socket.
pub enum Event {
    /// A frame was read: its text, its items where it parses as a JSON
    /// array, whether it closes the connection, and whether the user is
    /// marked ready.
    Received { text: String, frame: Option<Vec<Json>>, is_close: bool, ready: bool },
    /// Reading failed.
    ReadFailed,
    /// Nothing was read: the last outcome asked to go on.
    Continue,
}

/// What the caller is to do.
pub enum Output {
    /// Send this text frame.
    Send(String),
    /// Send the call that creates this rune page, written as JSON.
    CreatePage(RunePage),
    /// Hand this frame to the window.
    Emit(String),
    /// The signed-in summoner: show the name, keep the id.
    Summoner { name: String, id: Json },
    /// The members of the lobby, for the window.
    LobbyMembers(Json),
}

/// How the session goes on.
#[derive(Clone, Copy, PartialEq, Eq, Structural)]
pub enum Status {
    /// Read the next frame.
    Waiting,
    /// Step again without reading.
    Continue,
    /// The connection closed; `during_setup` where that happened before the
    /// session was set up.
    Closed { during_setup: bool },
    /// A frame was not shaped as the client sends it.
    Failed,
    /// The session was over already.
    Finished,
}

/// The result of one step.
pub struct Outcome {
    pub outputs: Vec<Output>,
    pub status: Status,
}

/// A stage, with its lists seen as sequences.
pub enum StageView {
    AwaitPickable,
    AwaitPick,
    AwaitSpells,
    DrawSpells { available: Seq<i64>, chosen: Seq<i64> },
    AwaitSpellsSet,
    AwaitStyles,
    Runes(RuneBuilderView),
    AwaitPagesDeleted(RunePageView),
    AwaitPageCreated,
}

/// A run, with its text seen as a sequence.
pub struct FrameView {
    pub message: Seq<char>,
    pub is_close: bool,
    pub action_id: u64,
    pub stage: StageView,
}

/// The session, seen as sequences.
pub struct WatcherView {
    pub spell_ids: Seq<i64>,
    pub summoner_id: Seq<char>,
    pub setup: Setup,
    pub frames: Seq<FrameView>,
    pub nested: bool,
    pub finished: bool,
}

/// An event, seen as sequences.
pub enum EventView {
    Received { text: Seq<char>, frame: Option<Seq<Json>>, is_close: bool, ready: bool },
    ReadFailed,
    Continue,
}

/// An output, seen as sequences.
pub enum OutputView {
    Send(Seq<char>),
    CreatePage(RunePageView),
    Emit(Seq<char>),
    Summoner { name: Seq<char>, id: Json },
    LobbyMembers(Json),
}

/// An outcome, seen as sequences.
pub struct OutcomeView {
    pub outputs: Seq<OutputView>,
    pub status: Status,
}

impl View for Stage {
    type V = StageView;

    open spec fn view(&self) -> StageView {
        match self {
            Stage::AwaitPickable => StageView::AwaitPickable,
            Stage::AwaitPick => StageView::AwaitPick,
            Stage::AwaitSpells => StageView::AwaitSpells,
            Stage::DrawSpells { available, chosen } => StageView::DrawSpells {
                available: available@,
                chosen: chosen@,
            },
            Stage::AwaitSpellsSet => StageView::AwaitSpellsSet,
            Stage::AwaitStyles => StageView::AwaitStyles,
            Stage::Runes(b) => StageView::Runes(b@),
            Stage::AwaitPagesDeleted(p) => StageView::AwaitPagesDeleted(p@),
            Stage::AwaitPageCreated => StageView::AwaitPageCreated,
        }
    }
}

impl View for Frame {
    type V = FrameView;

    open spec fn view(&self) -> FrameView {
        FrameView {
            message: self.message@,
            is_close: self.is_close,
            action_id: self.action_id,
            stage: self.stage@,
        }
    }
}

/// The views of a list of frames.
pub open spec fn frames_view(frames: Seq<Frame>) -> Seq<FrameView> {
    frames.map_values(|f: Frame| f@)
}

impl View for Watcher {
    type V = WatcherView;

    closed spec fn view(&self) -> WatcherView {
        WatcherView {
            spell_ids: self.spell_ids@,
            summoner_id: self.summoner_id@,
            setup: self.setup,
            frames: frames_view(self.frames@),
            nested: self.nested,
            finished: self.finished,
        }
    }
}

impl View for Event {
    type V = EventView;

    open spec fn view(&self) -> EventView {
        match self {
            Event::Received { text, frame, is_close, ready } => EventView::Received {
                text: text@,
                frame: match frame {
                    Some(f) => Some(f@),
                    None => None,
                },
                is_close: *is_close,
                ready: *ready,
            },
            Event::ReadFailed => EventView::ReadFailed,
            Event::Continue => EventView::Continue,
        }
    }
}

impl View for Output {
    type V = OutputView;

    open spec fn view(&self) -> OutputView {
        match self {
            Output::Send(s) => OutputView::Send(s@),
            Output::CreatePage(p) => OutputView::CreatePage(p@),
            Output::Emit(s) => OutputView::Emit(s@),
            Output::Summoner { name, id } => OutputView::Summoner { name: name@, id: *id },
            Output::LobbyMembers(m) => OutputView::LobbyMembers(*m),
        }
    }
}

/// The views of a list of outputs.
pub open spec fn outputs_view(outputs: Seq<Output>) -> Seq<OutputView> {
    outputs.map_values(|o: Output| o@)
}

impl View for Outcome {
    type V = OutcomeView;

    open spec fn view(&self) -> OutcomeView {
        OutcomeView { outputs: outputs_view(self.outputs@), status: self.status }
    }
}

/// Whether the innermost loop waits for the answer to a call: the frame
/// read next goes to it, not to the top level.
pub open spec fn awaiting_reply(w: WatcherView) -> bool {
    !w.nested && (w.frames.len() > 0 || w.setup != Setup::Watching)
}

/// Whether the innermost loop is the raw wait for the ready event.
pub open spec fn awaiting_ready_event(w: WatcherView) -> bool {
    !w.nested && w.frames.len() == 0 && w.setup == Setup::AwaitReadyEvent
}

/// Whether the innermost run is drawing at random and reads nothing.
pub open spec fn drawing(w: WatcherView) -> bool {
    &&& !w.nested
    &&& w.frames.len() > 0
    &&& (w.frames.last().stage is DrawSpells || w.frames.last().stage is Runes)
}

/// Go on waiting, with `outputs`.
pub open spec fn wait_with(w: WatcherView, outputs: Seq<OutputView>) -> (WatcherView, OutcomeView) {
    (w, OutcomeView { outputs, status: Status::Waiting })
}

/// Step again, with no output.
pub open spec fn go_on(w: WatcherView) -> (WatcherView, OutcomeView) {
    (w, OutcomeView { outputs: Seq::empty(), status: Status::Continue })
}

/// The session ends with `outputs` and `status`: every run unwinds.
pub open spec fn end_with(w: WatcherView, outputs: Seq<OutputView>, status: Status) -> (WatcherView, OutcomeView) {
    (
        WatcherView { frames: Seq::empty(), nested: false, finished: true, ..w },
        OutcomeView { outputs, status },
    )
}

/// The session ends on a frame that is not shaped as the client sends it.
pub open spec fn failure(w: WatcherView) -> (WatcherView, OutcomeView) {
    end_with(w, Seq::empty(), Status::Failed)
}

/// The top level is done with a frame: it hands the frame to the window,
/// and the connection ends where it was a close frame.
pub open spec fn hand_over(w: WatcherView, text: Seq<char>, is_close: bool) -> (WatcherView, OutcomeView) {
    if is_close {
        end_with(w, seq![OutputView::Emit(text)], Status::Closed { during_setup: w.setup != Setup::Watching })
    } else {
        wait_with(WatcherView { nested: false, ..w }, seq![OutputView::Emit(text)])
    }
}

/// The payload of a champion select event.
pub open spec fn session_of(frame: Seq<Json>) -> Option<Json> {
    match frame_item(frame, 2) {
        Some(p) => p.member("data"@),
        None => None,
    }
}

/// A frame at the top level: while the user is ready, an event frame that
/// starts champion select starts a run; any other event frame, and every
/// frame while the user is not ready, goes to the window; other frames are
/// dropped.
pub open spec fn top_level(
    w: WatcherView,
    text: Seq<char>,
    frame: Option<Seq<Json>>,
    is_close: bool,
    ready: bool,
) -> (WatcherView, OutcomeView) {
    if !ready {
        hand_over(w, text, is_close)
    } else {
        match frame {
            None => wait_with(WatcherView { nested: false, ..w }, Seq::empty()),
            Some(d) => match frame_code(d) {
                None => failure(w),
                Some(code) => if code != 8 {
                    wait_with(WatcherView { nested: false, ..w }, Seq::empty())
                } else {
                    match is_champ_select_start(d) {
                        None => failure(w),
                        Some(false) => hand_over(w, text, is_close),
                        Some(true) => match session_of(d) {
                            Some(session) => match action_id_of(session) {
                                Some(id) => wait_with(
                                    WatcherView {
                                        nested: false,
                                        frames: w.frames.push(FrameView {
                                            message: text,
                                            is_close,
                                            action_id: id,
                                            stage: StageView::AwaitPickable,
                                        }),
                                        ..w
                                    },
                                    seq![OutputView::Send(pickable_query())],
                                ),
                                None => failure(w),
                            },
                            None => failure(w),
                        },
                    }
                },
            },
        }
    }
}

/// The subscriptions that end the setup.
pub open spec fn subscriptions() -> Seq<OutputView> {
    seq![
        OutputView::Send(subscribe_frame(watched_events()[0])),
        OutputView::Send(subscribe_frame(watched_events()[1])),
        OutputView::Send(subscribe_frame(watched_events()[2])),
        OutputView::Send(subscribe_frame(watched_events()[3])),
    ]
}

/// An answer during setup.
pub open spec fn setup_reply(w: WatcherView, d: Seq<Json>) -> (WatcherView, OutcomeView) {
    match frame_code(d) {
        None => failure(w),
        Some(code) => match w.setup {
            Setup::AwaitReady => match frame_item(d, 2) {
                None => failure(w),
                Some(p) => if code == 3 {
                    match p.bool_value() {
                        Some(true) => wait_with(
                            WatcherView { setup: Setup::AwaitSummoner, ..w },
                            seq![OutputView::Send(summoner_query())],
                        ),
                        Some(false) => wait_with(
                            WatcherView { setup: Setup::AwaitReadyEvent, ..w },
                            seq![OutputView::Send(ready_subscription())],
                        ),
                        None => failure(w),
                    }
                } else {
                    wait_with(
                        WatcherView { setup: Setup::AwaitReadyEvent, ..w },
                        seq![OutputView::Send(ready_subscription())],
                    )
                },
            },
            Setup::AwaitSummoner => match frame_item(d, 2) {
                None => failure(w),
                Some(p) => if code == 3 {
                    match (p.member("displayName"@), p.member("summonerId"@)) {
                        (Some(n), Some(id)) => match n.text() {
                            Some(name) => wait_with(
                                WatcherView { setup: Setup::AwaitLobby, ..w },
                                seq![OutputView::Summoner { name, id }, OutputView::Send(lobby_query())],
                            ),
                            None => failure(w),
                        },
                        _ => failure(w),
                    }
                } else {
                    wait_with(WatcherView { setup: Setup::AwaitLobby, ..w }, seq![OutputView::Send(lobby_query())])
                },
            },
            Setup::AwaitLobby => if code == 4 {
                if frame_item(d, 3) is Some {
                    wait_with(WatcherView { setup: Setup::Watching, ..w }, subscriptions())
                } else {
                    failure(w)
                }
            } else {
                match frame_item(d, 2) {
                    Some(p) => match p.member("members"@) {
                        Some(m) => wait_with(
                            WatcherView { setup: Setup::Watching, ..w },
                            seq![OutputView::LobbyMembers(m)] + subscriptions(),
                        ),
                        None => failure(w),
                    },
                    None => failure(w),
                }
            },
            _ => wait_with(w, Seq::empty()),
        },
    }
}

/// The innermost run moved on to `stage`.
pub open spec fn with_stage(w: WatcherView, stage: StageView) -> WatcherView {
    WatcherView {
        frames: w.frames.drop_last().push(FrameView { stage, ..w.frames.last() }),
        ..w
    }
}

/// Whether an answer is an error whose message is missing.
pub open spec fn error_without_message(code: u64, d: Seq<Json>) -> bool {
    code == 4 && frame_item(d, 3) is None
}

/// An answer to the innermost run's call; `r` is the random number that
/// the step may draw with.
pub open spec fn run_reply(w: WatcherView, d: Seq<Json>, r: usize) -> (WatcherView, OutcomeView) {
    let f = w.frames.last();
    match frame_code(d) {
        None => failure(w),
        Some(code) => match f.stage {
            StageView::AwaitPickable => if code == 3 {
                match frame_item(d, 2) {
                    Some(p) => match p.items() {
                        Some(list) => match champion_pick(list, r) {
                            Some(c) => wait_with(
                                with_stage(w, StageView::AwaitPick),
                                seq![OutputView::Send(pick_request(f.action_id, c))],
                            ),
                            None => failure(w),
                        },
                        None => failure(w),
                    },
                    None => failure(w),
                }
            } else {
                wait_with(w, Seq::empty())
            },
            StageView::AwaitPick => if error_without_message(code, d) {
                failure(w)
            } else {
                wait_with(with_stage(w, StageView::AwaitSpells), seq![OutputView::Send(spells_query(w.summoner_id))])
            },
            StageView::AwaitSpells => if error_without_message(code, d) {
                failure(w)
            } else {
                match frame_item(d, 2) {
                    Some(p) => match p.member("spells"@) {
                        Some(s) => match s.items() {
                            Some(owned) => match spells_available(w.spell_ids, owned) {
                                Some(available) => go_on(
                                    with_stage(w, StageView::DrawSpells { available, chosen: Seq::empty() }),
                                ),
                                None => failure(w),
                            },
                            None => failure(w),
                        },
                        None => failure(w),
                    },
                    None => failure(w),
                }
            },
            StageView::AwaitSpellsSet => if error_without_message(code, d) {
                failure(w)
            } else {
                wait_with(with_stage(w, StageView::AwaitStyles), seq![OutputView::Send(styles_query())])
            },
            StageView::AwaitStyles => if error_without_message(code, d) {
                failure(w)
            } else {
                match frame_item(d, 2) {
                    Some(styles) => match rune_start(styles, r) {
                        Some(b) => go_on(with_stage(w, StageView::Runes(b))),
                        None => failure(w),
                    },
                    None => failure(w),
                }
            },
            StageView::AwaitPagesDeleted(page) => if error_without_message(code, d) {
                failure(w)
            } else {
                wait_with(with_stage(w, StageView::AwaitPageCreated), seq![OutputView::CreatePage(page)])
            },
            StageView::AwaitPageCreated => if error_without_message(code, d) {
                failure(w)
            } else {
                hand_over(WatcherView { frames: w.frames.drop_last(), ..w }, f.message, f.is_close)
            },
            _ => go_on(w),
        },
    }
}

/// A step without reading, where the innermost run draws at random.
pub open spec fn run_draw(w: WatcherView, r: usize) -> (WatcherView, OutcomeView) {
    if !drawing(w) {
        wait_with(w, Seq::empty())
    } else {
        match w.frames.last().stage {
            StageView::DrawSpells { available, chosen } => if available.len() == 0 {
                failure(w)
            } else {
                let now = spells_after_draw(chosen, available, r);
                if now.len() == 2 {
                    wait_with(
                        with_stage(w, StageView::AwaitSpellsSet),
                        seq![OutputView::Send(spells_request(now[0], now[1]))],
                    )
                } else {
                    go_on(with_stage(w, StageView::DrawSpells { available, chosen: now }))
                }
            },
            StageView::Runes(b) => match rune_step(b, r) {
                RuneStepView::Building(next) => go_on(with_stage(w, StageView::Runes(next))),
                RuneStepView::Done(page) => wait_with(
                    with_stage(w, StageView::AwaitPagesDeleted(page)),
                    seq![OutputView::Send(delete_pages_request())],
                ),
                RuneStepView::Failed => failure(w),
            },
            _ => wait_with(w, Seq::empty()),
        }
    }
}

/// One step of the session on `event`, with the random number `r` for the
/// step that draws.
pub open spec fn watch_step(w: WatcherView, event: EventView, r: usize) -> (WatcherView, OutcomeView) {
    if w.finished {
        (w, OutcomeView { outputs: Seq::empty(), status: Status::Finished })
    } else {
        match event {
            EventView::Continue => run_draw(w, r),
            EventView::ReadFailed => if !awaiting_reply(w) {
                wait_with(WatcherView { nested: false, ..w }, Seq::empty())
            } else if awaiting_ready_event(w) {
                wait_with(w, Seq::empty())
            } else if drawing(w) {
                go_on(w)
            } else {
                failure(w)
            },
            EventView::Received { text, frame, is_close, ready } => if !awaiting_reply(w) {
                top_level(w, text, frame, is_close, ready)
            } else if awaiting_ready_event(w) {
                if text.len() == 0 {
                    wait_with(w, Seq::empty())
                } else {
                    wait_with(WatcherView { setup: Setup::AwaitSummoner, ..w }, seq![OutputView::Send(summoner_query())])
                }
            } else if drawing(w) {
                go_on(w)
            } else {
                match frame {
                    None => failure(w),
                    Some(d) => match frame_is_reply(d) {
                        None => failure(w),
                        Some(false) => wait_with(WatcherView { nested: true, ..w }, Seq::empty()),
                        Some(true) => if w.frames.len() == 0 {
                            setup_reply(w, d)
                        } else {
                            run_reply(w, d, r)
                        },
                    },
                }
            },
        }
    }
}

/// Whether the step on `event` draws a random number.
pub open spec fn step_draws(w: WatcherView, event: EventView) -> bool {
    &&& !w.finished
    &&& match event {
        EventView::Continue => drawing(w) && match w.frames.last().stage {
            StageView::DrawSpells { available, .. } => available.len() > 0,
            StageView::Runes(b) => rune_needs_draw(b),
            _ => false,
        },
        EventView::Received { frame: Some(d), .. } => {
            &&& awaiting_reply(w)
            &&& !awaiting_ready_event(w)
            &&& !drawing(w)
            &&& w.frames.len() > 0
            &&& frame_is_reply(d) == Some(true)
            &&& match frame_code(d) {
                Some(code) => match w.frames.last().stage {
                    StageView::AwaitPickable => code == 3 && match frame_item(d, 2) {
                        Some(p) => p.items() is Some,
                        None => false,
                    },
                    StageView::AwaitStyles => !error_without_message(code, d) && frame_item(d, 2) is Some,
                    _ => false,
                },
                None => false,
            }
        },
        _ => false,
    }
}

/// The views of frames follow pushes and pops.
proof fn lemma_frames_view_push(frames: Seq<Frame>, f: Frame)
    ensures
        frames_view(frames.push(f)) == frames_view(frames).push(f@),
{
    assert(frames_view(frames.push(f)) =~= frames_view(frames).push(f@));
}

/// The views of frames follow pops.
proof fn lemma_frames_view_drop_last(frames: Seq<Frame>)
    requires
        frames.len() > 0,
    ensures
        frames_view(frames.drop_last()) == frames_view(frames).drop_last(),
        frames_view(frames).last() == frames.last()@,
        frames_view(frames).len() == frames.len(),
{
    assert(frames_view(frames.drop_last()) =~= frames_view(frames).drop_last());
}

/// The views of outputs follow pushes.
proof fn lemma_outputs_view_push(outputs: Seq<Output>, o: Output)
    ensures
        outputs_view(outputs.push(o)) == outputs_view(outputs).push(o@),
{
    assert(outputs_view(outputs.push(o)) =~= outputs_view(outputs).push(o@));
}

/// An outcome of a single output.
fn one(o: Output, status: Status) -> (out: Outcome)
    ensures
        out@ == (OutcomeView { outputs: seq![o@], status }),
{
    let mut outputs: Vec<Output> = Vec::new();
    outputs.push(o);
    proof {
        lemma_outputs_view_push(Seq::empty(), o);
        assert(outputs_view(Seq::<Output>::empty()) =~= Seq::<OutputView>::empty());
        assert(outputs@ =~= Seq::<Output>::empty().push(o));
    }
    Outcome { outputs, status }
}

/// An outcome without output.
fn none(status: Status) -> (out: Outcome)
    ensures
        out@ == (OutcomeView { outputs: Seq::empty(), status }),
{
    let outputs: Vec<Output> = Vec::new();
    assert(outputs_view(outputs@) =~= Seq::<OutputView>::empty());
    Outcome { outputs, status }
}

impl Watcher {
    /// A session that has just connected; the frame to send first asks
    /// whether the client's settings are ready.
    pub fn new(spell_ids: Vec<i64>) -> (r: (Watcher, String))
        ensures
            r.0@ == new_session(spell_ids@),
            r.1@ == ready_query(),
    {
        let w = Watcher {
            spell_ids,
            summoner_id: String::new(),
            setup: Setup::AwaitReady,
            frames: Vec::new(),
            nested: false,
            finished: false,
        };
        assert(frames_view(w.frames@) =~= Seq::<FrameView>::empty());
        (w, ready_query_frame())
    }

    /// Keeps the summoner id, written as JSON, for the spells query.
    pub fn set_summoner_id(&mut self, id: String)
        ensures
            final(self)@ == (WatcherView { summoner_id: id@, ..old(self)@ }),
    {
        self.summoner_id = id;
    }

    /// Whether the session is over.
    pub fn is_finished(&self) -> (r: bool)
        ensures
            r == self@.finished,
    {
        self.finished
    }

    /// How far the session is set up.
    pub fn setup(&self) -> (r: Setup)
        ensures
            r == self@.setup,
    {
        self.setup
    }

    /// The summoner id kept for the spells query.
    pub fn summoner_id(&self) -> (r: &String)
        ensures
            r@ == self@.summoner_id,
    {
        &self.summoner_id
    }

    /// The number of champion select runs under way.
    pub fn runs(&self) -> (r: usize)
        ensures
            r == self@.frames.len(),
    {
        proof { lemma_frames_len(self.frames@); }
        self.frames.len()
    }

    fn awaits_reply(&self) -> (r: bool)
        ensures
            r == awaiting_reply(self@),
    {
        proof { lemma_frames_len(self.frames@); }
        !self.nested && (self.frames.len() > 0 || self.setup != Setup::Watching)
    }

    fn awaits_ready_event(&self) -> (r: bool)
        ensures
            r == awaiting_ready_event(self@),
    {
        proof { lemma_frames_len(self.frames@); }
        !self.nested && self.frames.len() == 0 && self.setup == Setup::AwaitReadyEvent
    }

    fn is_drawing(&self) -> (r: bool)
        ensures
            r == drawing(self@),
    {
        proof { lemma_frames_len(self.frames@); }
        if self.nested || self.frames.len() == 0 {
            return false;
        }
        proof { lemma_frames_view_drop_last(self.frames@); }
        match &self.frames[self.frames.len() - 1].stage {
            Stage::DrawSpells { .. } => true,
            Stage::Runes(_) => true,
            _ => false,
        }
    }

    /// Ends the session.
    fn end(&mut self, outputs: Vec<Output>, status: Status) -> (out: Outcome)
        ensures
            (final(self)@, out@) == end_with(old(self)@, outputs_view(outputs@), status),
    {
        self.frames = Vec::new();
        self.nested = false;
        self.finished = true;
        assert(frames_view(self.frames@) =~= Seq::<FrameView>::empty());
        Outcome { outputs, status }
    }

    /// Ends the session on a malformed frame.
    fn fail(&mut self) -> (out: Outcome)
        ensures
            (final(self)@, out@) == failure(old(self)@),
    {
        let outputs: Vec<Output> = Vec::new();
        assert(outputs_view(outputs@) =~= Seq::<OutputView>::empty());
        self.end(outputs, Status::Failed)
    }

    /// The top level hands a frame to the window.
    fn hand_over(&mut self, text: String, is_close: bool) -> (out: Outcome)
        ensures
            (final(self)@, out@) == hand_over(old(self)@, text@, is_close),
    {
        if is_close {
            let during_setup = self.setup != Setup::Watching;
            let mut outputs: Vec<Output> = Vec::new();
            outputs.push(Output::Emit(text));
            proof {
                assert(outputs_view(outputs@) =~= seq![OutputView::Emit(text@)]);
            }
            self.end(outputs, Status::Closed { during_setup })
        } else {
            self.nested = false;
            one(Output::Emit(text), Status::Waiting)
        }
    }

    /// A frame at the top level.
    fn at_top_level(&mut self, text: String, frame: Option<Vec<Json>>, is_close: bool, ready: bool) -> (out: Outcome)
        ensures
            (final(self)@, out@) == top_level(
                old(self)@,
                text@,
                match frame {
                    Some(f) => Some(f@),
                    None => None,
                },
                is_close,
                ready,
            ),
    {
        if !ready {
            return self.hand_over(text, is_close);
        }
        let d = match frame {
            None => {
                self.nested = false;
                return none(Status::Waiting);
            },
            Some(d) => d,
        };
        let code = match code_of(&d) {
            None => return self.fail(),
            Some(c) => c,
        };
        if code != 8 {
            self.nested = false;
            return none(Status::Waiting);
        }
        match champ_select_started(&d) {
            None => self.fail(),
            Some(false) => self.hand_over(text, is_close),
            Some(true) => {
                let id = match d[2].get("data") {
                    Some(session) => match action_id(session) {
                        Some(id) => id,
                        None => return self.fail(),
                    },
                    None => return self.fail(),
                };
                let f = Frame { message: text, is_close, action_id: id, stage: Stage::AwaitPickable };
                proof { lemma_frames_view_push(self.frames@, f); }
                self.frames.push(f);
                self.nested = false;
                one(Output::Send(pickable_query_frame()), Status::Waiting)
            },
        }
    }

    /// An answer during setup.
    fn on_setup_reply(&mut self, d: Vec<Json>) -> (out: Outcome)
        requires
            old(self)@.frames.len() == 0,
        ensures
            (final(self)@, out@) == setup_reply(old(self)@, d@),
    {
        let mut d = d;
        let code = match code_of(&d) {
            None => return self.fail(),
            Some(c) => c,
        };
        match self.setup {
            Setup::AwaitReady => {
                if d.len() < 3 {
                    return self.fail();
                }
                if code == 3 {
                    match d[2].as_bool() {
                        Some(true) => {
                            self.setup = Setup::AwaitSummoner;
                            one(Output::Send(summoner_query_frame()), Status::Waiting)
                        },
                        Some(false) => {
                            self.setup = Setup::AwaitReadyEvent;
                            one(Output::Send(ready_subscription_frame()), Status::Waiting)
                        },
                        None => self.fail(),
                    }
                } else {
                    self.setup = Setup::AwaitReadyEvent;
                    one(Output::Send(ready_subscription_frame()), Status::Waiting)
                }
            },
            Setup::AwaitSummoner => {
                if d.len() < 3 {
                    return self.fail();
                }
                if code == 3 {
                    let p = d.remove(2);
                    let name = match p.get("displayName") {
                        Some(n) => match n.as_str() {
                            Some(t) => t.clone(),
                            None => return self.fail(),
                        },
                        None => return self.fail(),
                    };
                    let id = match p.take_member("summonerId") {
                        Some(id) => id,
                        None => return self.fail(),
                    };
                    self.setup = Setup::AwaitLobby;
                    let mut outputs: Vec<Output> = Vec::new();
                    outputs.push(Output::Summoner { name, id });
                    outputs.push(Output::Send(lobby_query_frame()));
                    assert(outputs_view(outputs@) =~= seq![
                        outputs@[0]@,
                        outputs@[1]@,
                    ]);
                    Outcome { outputs, status: Status::Waiting }
                } else {
                    self.setup = Setup::AwaitLobby;
                    one(Output::Send(lobby_query_frame()), Status::Waiting)
                }
            },
            Setup::AwaitLobby => {
                let mut outputs: Vec<Output> = Vec::new();
                if code == 4 {
                    if d.len() < 4 {
                        return self.fail();
                    }
                } else {
                    if d.len() < 3 {
                        return self.fail();
                    }
                    let p = d.remove(2);
                    match p.take_member("members") {
                        Some(m) => outputs.push(Output::LobbyMembers(m)),
                        None => return self.fail(),
                    }
                }
                let ghost before = outputs_view(outputs@);
                assert(code == 4 ==> before =~= Seq::<OutputView>::empty());
                assert(code != 4 ==> before =~= seq![outputs@[0]@]);
                let subs = watched_event_frames();
                let mut subs = subs;
                let mut k: usize = 0;
                let ghost all = subs@;
                while k < 4
                    invariant
                        k <= 4,
                        all.len() == 4,
                        forall|i: int| 0 <= i < 4 ==> #[trigger] all[i]@ == subscribe_frame(watched_events()[i]),
                        subs@ == all.skip(k as int),
                        outputs_view(outputs@) == before + subscriptions().take(k as int),
                    decreases 4 - k,
                {
                    let s = subs.remove(0);
                    assert(s == all[k as int]);
                    proof { lemma_outputs_view_push(outputs@, Output::Send(s)); }
                    outputs.push(Output::Send(s));
                    assert(subs@ =~= all.skip(k + 1));
                    assert(subscriptions().take(k + 1) =~= subscriptions().take(k as int).push(OutputView::Send(all[k as int]@)));
                    k = k + 1;
                }
                assert(subscriptions().take(4) =~= subscriptions());
                self.setup = Setup::Watching;
                Outcome { outputs, status: Status::Waiting }
            },
            _ => none(Status::Waiting),
        }
    }
}

impl Watcher {
    /// Puts a run back as the innermost one.
    fn resume(&mut self, message: String, is_close: bool, action_id: u64, stage: Stage)
        ensures
            final(self)@ == (WatcherView {
                frames: old(self)@.frames.push(FrameView {
                    message: message@,
                    is_close,
                    action_id,
                    stage: stage@,
                }),
                ..old(self)@
            }),
    {
        let f = Frame { message, is_close, action_id, stage };
        proof { lemma_frames_view_push(self.frames@, f); }
        self.frames.push(f);
    }

    /// An answer to the innermost run's call.
    fn on_run_reply(&mut self, d: Vec<Json>, r: usize) -> (out: Outcome)
        requires
            old(self)@.frames.len() > 0,
        ensures
            (final(self)@, out@) == run_reply(old(self)@, d@, r),
    {
        let mut d = d;
        let code = match code_of(&d) {
            None => return self.fail(),
            Some(c) => c,
        };
        let ghost w = self@;
        proof {
            lemma_frames_len(self.frames@);
            lemma_frames_view_drop_last(self.frames@);
        }
        let f = self.frames.pop().unwrap();
        let Frame { message, is_close, action_id, stage } = f;
        let missing_message = code == 4 && d.len() < 4;
        match stage {
            Stage::AwaitPickable => {
                if code == 3 {
                    if d.len() < 3 {
                        return self.fail();
                    }
                    let list = match d[2].as_array() {
                        Some(l) => l,
                        None => return self.fail(),
                    };
                    match pick_champion(list, r) {
                        Some(c) => {
                            self.resume(message, is_close, action_id, Stage::AwaitPick);
                            one(Output::Send(pick_request_frame(action_id, c)), Status::Waiting)
                        },
                        None => self.fail(),
                    }
                } else {
                    self.resume(message, is_close, action_id, Stage::AwaitPickable);
                    assert(self@.frames =~= w.frames);
                    none(Status::Waiting)
                }
            },
            Stage::AwaitPick => {
                if missing_message {
                    return self.fail();
                }
                let query = spells_query_frame(self.summoner_id.as_str());
                self.resume(message, is_close, action_id, Stage::AwaitSpells);
                one(Output::Send(query), Status::Waiting)
            },
            Stage::AwaitSpells => {
                if missing_message || d.len() < 3 {
                    return self.fail();
                }
                let owned = match d[2].get("spells") {
                    Some(s) => match s.as_array() {
                        Some(o) => o,
                        None => return self.fail(),
                    },
                    None => return self.fail(),
                };
                match available_spells(&self.spell_ids, owned) {
                    Some(available) => {
                        let chosen: Vec<i64> = Vec::new();
                        self.resume(message, is_close, action_id, Stage::DrawSpells { available, chosen });
                        assert(chosen@ =~= Seq::<i64>::empty());
                        none(Status::Continue)
                    },
                    None => self.fail(),
                }
            },
            Stage::AwaitSpellsSet => {
                if missing_message {
                    return self.fail();
                }
                self.resume(message, is_close, action_id, Stage::AwaitStyles);
                one(Output::Send(styles_query_frame()), Status::Waiting)
            },
            Stage::AwaitStyles => {
                if missing_message || d.len() < 3 {
                    return self.fail();
                }
                let styles = d.remove(2);
                match RuneBuilder::start(styles, r) {
                    Some(b) => {
                        self.resume(message, is_close, action_id, Stage::Runes(b));
                        none(Status::Continue)
                    },
                    None => self.fail(),
                }
            },
            Stage::AwaitPagesDeleted(page) => {
                if missing_message {
                    return self.fail();
                }
                self.resume(message, is_close, action_id, Stage::AwaitPageCreated);
                one(Output::CreatePage(page), Status::Waiting)
            },
            Stage::AwaitPageCreated => {
                if missing_message {
                    return self.fail();
                }
                self.hand_over(message, is_close)
            },
            Stage::DrawSpells { available, chosen } => {
                self.resume(message, is_close, action_id, Stage::DrawSpells { available, chosen });
                assert(self@.frames =~= w.frames);
                none(Status::Continue)
            },
            Stage::Runes(b) => {
                self.resume(message, is_close, action_id, Stage::Runes(b));
                assert(self@.frames =~= w.frames);
                none(Status::Continue)
            },
        }
    }

    /// A step without reading.
    fn on_continue(&mut self, r: usize) -> (out: Outcome)
        ensures
            (final(self)@, out@) == run_draw(old(self)@, r),
    {
        if !self.is_drawing() {
            return none(Status::Waiting);
        }
        let ghost w = self@;
        proof {
            lemma_frames_len(self.frames@);
            lemma_frames_view_drop_last(self.frames@);
        }
        let f = self.frames.pop().unwrap();
        let Frame { message, is_close, action_id, stage } = f;
        match stage {
            Stage::DrawSpells { available, chosen } => {
                if available.len() == 0 {
                    return self.fail();
                }
                let mut chosen = chosen;
                draw_spell(&mut chosen, &available, r);
                if chosen.len() == 2 {
                    let request = spells_request_frame(chosen[0], chosen[1]);
                    self.resume(message, is_close, action_id, Stage::AwaitSpellsSet);
                    one(Output::Send(request), Status::Waiting)
                } else {
                    self.resume(message, is_close, action_id, Stage::DrawSpells { available, chosen });
                    none(Status::Continue)
                }
            },
            Stage::Runes(b) => match b.step(r) {
                RuneStep::Building(next) => {
                    self.resume(message, is_close, action_id, Stage::Runes(next));
                    none(Status::Continue)
                },
                RuneStep::Done(page) => {
                    self.resume(message, is_close, action_id, Stage::AwaitPagesDeleted(page));
                    one(Output::Send(delete_pages_frame()), Status::Waiting)
                },
                RuneStep::Failed => self.fail(),
            },
            other => {
                self.resume(message, is_close, action_id, other);
                assert(self@.frames =~= w.frames);
                none(Status::Waiting)
            },
        }
    }

    /// One step of the session on `event`; `r` is the random number that a
    /// step that draws uses.
    pub fn step(&mut self, event: Event, r: usize) -> (out: Outcome)
        ensures
            (final(self)@, out@) == watch_step(old(self)@, event@, r),
    {
        if self.finished {
            return none(Status::Finished);
        }
        match event {
            Event::Continue => self.on_continue(r),
            Event::ReadFailed => {
                if !self.awaits_reply() {
                    self.nested = false;
                    none(Status::Waiting)
                } else if self.awaits_ready_event() {
                    none(Status::Waiting)
                } else if self.is_drawing() {
                    none(Status::Continue)
                } else {
                    self.fail()
                }
            },
            Event::Received { text, frame, is_close, ready } => {
                if !self.awaits_reply() {
                    self.at_top_level(text, frame, is_close, ready)
                } else if self.awaits_ready_event() {
                    if text.as_str().is_empty() {
                        none(Status::Waiting)
                    } else {
                        self.setup = Setup::AwaitSummoner;
                        one(Output::Send(summoner_query_frame()), Status::Waiting)
                    }
                } else if self.is_drawing() {
                    none(Status::Continue)
                } else {
                    match frame {
                        None => self.fail(),
                        Some(d) => match is_reply(&d) {
                            None => self.fail(),
                            Some(false) => {
                                self.nested = true;
                                none(Status::Waiting)
                            },
                            Some(true) => {
                                proof { lemma_frames_len(self.frames@); }
                                if self.frames.len() == 0 {
                                    self.on_setup_reply(d)
                                } else {
                                    self.on_run_reply(d, r)
                                }
                            },
                        },
                    }
                }
            },
        }
    }
}

impl Watcher {
    /// Whether the step on `event` draws a random number.
    pub fn draws(&self, event: &Event) -> (d: bool)
        ensures
            d == step_draws(self@, event@),
    {
        if self.finished {
            return false;
        }
        match event {
            Event::Continue => {
                if !self.is_drawing() {
                    return false;
                }
                proof { lemma_frames_view_drop_last(self.frames@); }
                match &self.frames[self.frames.len() - 1].stage {
                    Stage::DrawSpells { available, .. } => available.len() > 0,
                    Stage::Runes(b) => b.needs_draw(),
                    _ => false,
                }
            },
            Event::Received { frame: Some(d), .. } => {
                if !self.awaits_reply() || self.awaits_ready_event() || self.is_drawing() {
                    return false;
                }
                proof { lemma_frames_len(self.frames@); }
                if self.frames.len() == 0 {
                    return false;
                }
                match is_reply(d) {
                    Some(true) => {},
                    _ => return false,
                }
                let code = match code_of(d) {
                    Some(c) => c,
                    None => return false,
                };
                proof { lemma_frames_view_drop_last(self.frames@); }
                match &self.frames[self.frames.len() - 1].stage {
                    Stage::AwaitPickable => code == 3 && d.len() >= 3 && d[2].as_array().is_some(),
                    Stage::AwaitStyles => !(code == 4 && d.len() < 4) && d.len() >= 3,
                    _ => false,
                }
            },
            _ => false,
        }
    }

    /// One step of the session on `event`, drawing the random number where
    /// the step uses one. Whatever number came back, the step is the one
    /// that `watch_step` gives for some number.
    pub fn advance(&mut self, event: Event) -> (out: Outcome)
        ensures
            exists|r: usize| (final(self)@, out@) == #[trigger] watch_step(old(self)@, event@, r),
    {
        let r = if self.draws(&event) {
            crate::chance::random_index()
        } else {
            0
        };
        let out = self.step(event, r);
        assert((self@, out@) == watch_step(old(self)@, event@, r));
        out
    }
}

/// Law: a session that is over stays over, and does nothing more.
pub proof fn law_finished_stays(w: WatcherView, event: EventView, r: usize)
    requires
        w.finished,
    ensures
        watch_step(w, event, r) == (w, OutcomeView { outputs: Seq::<OutputView>::empty(), status: Status::Finished }),
{
}

/// Law: a step that closes or fails ends the session, with every run unwound.
pub proof fn law_end_is_final(w: WatcherView, event: EventView, r: usize)
    ensures
        ({
            let (next, out) = watch_step(w, event, r);
            (out.status is Closed || out.status is Failed) ==> {
                &&& next.finished
                &&& next.frames.len() == 0
                &&& !next.nested
            }
        }),
{
}

/// Law: a step starts at most one champion select run.
pub proof fn law_one_run_at_a_time(w: WatcherView, event: EventView, r: usize)
    ensures
        watch_step(w, event, r).0.frames.len() <= w.frames.len() + 1,
{
}

/// Law: a run starts only at the top level, on an event frame that reports
/// the start of champion select while the user is marked ready, and its
/// first call asks for the pickable champions.
pub proof fn law_runs_start_when_ready(w: WatcherView, event: EventView, r: usize)
    ensures
        ({
            let (next, out) = watch_step(w, event, r);
            next.frames.len() > w.frames.len() ==> {
                &&& !awaiting_reply(w)
                &&& event matches EventView::Received { frame: Some(d), ready, .. }
                &&& ready
                &&& frame_code(d) == Some(8u64)
                &&& is_champ_select_start(d) == Some(true)
                &&& out.outputs == seq![OutputView::Send(pickable_query())]
            }
        }),
{
}

/// Law: while the user is not marked ready, a frame at the top level only
/// goes to the window; no run starts.
pub proof fn law_not_ready_only_forwards(
    w: WatcherView,
    text: Seq<char>,
    frame: Option<Seq<Json>>,
    is_close: bool,
    r: usize,
)
    requires
        !w.finished,
        !awaiting_reply(w),
    ensures
        ({
            let (next, out) = watch_step(w, EventView::Received { text, frame, is_close, ready: false }, r);
            &&& out.outputs == seq![OutputView::Emit(text)]
            &&& next.frames.len() <= w.frames.len()
            &&& (out.status is Closed <==> is_close)
        }),
{
}

/// Law: the random number matters only to the steps that draw it.
pub proof fn law_draws_only_where_needed(w: WatcherView, event: EventView, r1: usize, r2: usize)
    requires
        !step_draws(w, event),
    ensures
        watch_step(w, event, r1) == watch_step(w, event, r2),
{
    if !w.finished {
        match event {
            EventView::Continue => {
                if drawing(w) {
                    match w.frames.last().stage {
                        StageView::Runes(b) => {
                            crate::runes::law_rune_step_without_draw(b, r1, r2);
                        },
                        _ => {},
                    }
                }
            },
            _ => {},
        }
    }
}

/// Law: the spells request names two different spells, both available.
pub proof fn law_spells_request_distinct(w: WatcherView, r: usize)
    requires
        !w.finished,
        drawing(w),
        w.frames.last().stage matches StageView::DrawSpells { available, chosen } && {
            &&& distinct(chosen)
            &&& chosen.len() < 2
            &&& forall|x: i64| chosen.contains(x) ==> available.contains(x)
        },
    ensures
        ({
            let (next, out) = watch_step(w, EventView::Continue, r);
            next.frames.len() > 0 && next.frames.last().stage is AwaitSpellsSet ==> exists|a: i64, b: i64| {
                &&& a != b
                &&& w.frames.last().stage->available.contains(a)
                &&& w.frames.last().stage->available.contains(b)
                &&& out.outputs == seq![OutputView::Send(spells_request(a, b))]
            }
        }),
{
    if let StageView::DrawSpells { available, chosen } = w.frames.last().stage {
        if available.len() > 0 {
            law_drawn_spells_distinct(chosen, available, r);
            let now = spells_after_draw(chosen, available, r);
            if now.len() == 2 {
                assert(now.contains(now[0]));
                assert(now.contains(now[1]));
                assert(now[0] != now[1]);
            }
        }
    }
}

/// Whether a run stage draws at random rather than waiting for an answer.
pub open spec fn is_drawing_stage(stage: StageView) -> bool {
    stage is DrawSpells || stage is Runes
}

/// Whether the spells chosen so far in a stage are distinct, fewer than
/// two, and all available.
pub open spec fn spells_in_order(stage: StageView) -> bool {
    stage matches StageView::DrawSpells { available, chosen } ==> {
        &&& distinct(chosen)
        &&& chosen.len() < 2
        &&& forall|x: i64| chosen.contains(x) ==> available.contains(x)
    }
}

/// Whether the spells a stage draws from are all in the session's spell list.
pub open spec fn spells_listed(stage: StageView, spell_ids: Seq<i64>) -> bool {
    stage matches StageView::DrawSpells { available, .. } ==> forall|x: i64|
        available.contains(x) ==> spell_ids.contains(x)
}

/// What holds of every state the session reaches: only the innermost run
/// draws; the spells chosen so far are distinct and available; the top
/// level runs nested only inside a loop that waits; an ended session holds
/// no run.
pub open spec fn session_ok(w: WatcherView) -> bool {
    &&& forall|i: int| 0 <= i < w.frames.len() ==> spells_in_order(#[trigger] w.frames[i].stage)
    &&& forall|i: int| 0 <= i < w.frames.len() ==> spells_listed(#[trigger] w.frames[i].stage, w.spell_ids)
    &&& forall|i: int| 0 <= i < w.frames.len() - 1 ==> !is_drawing_stage(#[trigger] w.frames[i].stage)
    &&& w.nested ==> (w.frames.len() > 0 || w.setup != Setup::Watching)
    &&& w.nested ==> !(w.frames.len() > 0 && is_drawing_stage(w.frames.last().stage))
    &&& w.finished ==> w.frames.len() == 0
}

/// Law: a new session is in order, and every step keeps it in order.
pub proof fn law_session_stays_in_order(w: WatcherView, event: EventView, r: usize)
    requires
        session_ok(w),
    ensures
        session_ok(watch_step(w, event, r).0),
{
    let next = watch_step(w, event, r).0;
    if w.frames.len() > 0 && w.frames.last().stage is AwaitSpells {
        if let EventView::Received { frame: Some(d), .. } = event {
            if let Some(p) = frame_item(d, 2) {
                if let Some(sp) = p.member("spells"@) {
                    if let Some(owned) = sp.items() {
                        law_available_spells_listed(w.spell_ids, i64_items(owned));
                    }
                }
            }
        }
    }
    if !w.finished {
        match event {
            EventView::Continue => {
                if drawing(w) {
                    if let StageView::DrawSpells { available, chosen } = w.frames.last().stage {
                        assert(spells_in_order(w.frames[w.frames.len() - 1].stage));
                        if available.len() > 0 {
                            law_drawn_spells_distinct(chosen, available, r);
                        }
                    }
                }
            },
            _ => {},
        }
    }
    assert forall|i: int| 0 <= i < next.frames.len() implies spells_listed(#[trigger] next.frames[i].stage, next.spell_ids) by {
        if i < w.frames.len() - 1 {
            assert(next.frames[i] == w.frames[i]) by {
                if next.frames.len() > 0 && next.frames.drop_last() =~= w.frames.drop_last() {
                    assert(next.frames.drop_last()[i] == w.frames.drop_last()[i]);
                }
            }
        }
    }
    assert forall|i: int| 0 <= i < next.frames.len() implies spells_in_order(#[trigger] next.frames[i].stage) by {
        if i < w.frames.len() - 1 {
            assert(next.frames[i] == w.frames[i]) by {
                if next.frames.len() > 0 && next.frames.drop_last() =~= w.frames.drop_last() {
                    assert(next.frames.drop_last()[i] == w.frames.drop_last()[i]);
                }
            }
        }
    }
}

/// Law: in a session whose spell list is the classic spells of the game
/// data `spells`, the spells request names two different spells, each the
/// id of an entry of the game data whose game modes list `CLASSIC`.
pub proof fn law_spells_request_classic(w: WatcherView, r: usize, spells: Json)
    requires
        session_ok(w),
        classic_spell_ids(spells) == Some(w.spell_ids),
        !w.finished,
        drawing(w),
    ensures
        ({
            let (next, out) = watch_step(w, EventView::Continue, r);
            (w.frames.last().stage is DrawSpells && next.frames.len() > 0
                && next.frames.last().stage is AwaitSpellsSet) ==> exists|a: i64, b: i64| {
                &&& a != b
                &&& is_classic_spell(spells.items().unwrap(), a)
                &&& is_classic_spell(spells.items().unwrap(), b)
                &&& out.outputs == seq![OutputView::Send(spells_request(a, b))]
            }
        }),
{
    let last = w.frames.len() - 1;
    assert(w.frames[last] == w.frames.last());
    assert(spells_in_order(w.frames[last].stage));
    assert(spells_listed(w.frames[last].stage, w.spell_ids));
    if let StageView::DrawSpells { available, chosen } = w.frames.last().stage {
        if available.len() > 0 {
            law_drawn_spells_distinct(chosen, available, r);
            let now = spells_after_draw(chosen, available, r);
            let items = spells.items().unwrap();
            lemma_classic_ids_are_classic(items);
            if now.len() == 2 {
                assert(now.contains(now[0]));
                assert(now.contains(now[1]));
                assert(available.contains(now[0]));
                assert(available.contains(now[1]));
                assert(w.spell_ids.contains(now[0]));
                assert(w.spell_ids.contains(now[1]));
                assert(is_classic_spell(items, now[0]));
                assert(is_classic_spell(items, now[1]));
            }
        }
    }
}

/// A new session is in order.
pub proof fn law_new_session_in_order(spell_ids: Seq<i64>)
    ensures
        session_ok(WatcherView {
            spell_ids,
            summoner_id: Seq::empty(),
            setup: Setup::AwaitReady,
            frames: Seq::empty(),
            nested: false,
            finished: false,
        }),
{
}

/// A session that has just connected, following the spell list `spell_ids`.
pub open spec fn new_session(spell_ids: Seq<i64>) -> WatcherView {
    WatcherView {
        spell_ids,
        summoner_id: Seq::empty(),
        setup: Setup::AwaitReady,
        frames: Seq::empty(),
        nested: false,
        finished: false,
    }
}

/// The session after the steps `steps`, each an event and the random number
/// that the step may draw. Every sequence of `advance` calls follows some
/// such list, since `advance` steps as `watch_step` does for some number.
pub open spec fn run_steps(w: WatcherView, steps: Seq<(EventView, usize)>) -> WatcherView
    decreases steps.len(),
{
    if steps.len() == 0 {
        w
    } else {
        run_steps(watch_step(w, steps[0].0, steps[0].1).0, steps.drop_first())
    }
}

/// A step keeps the session's spell list.
pub proof fn lemma_step_keeps_spell_list(w: WatcherView, event: EventView, r: usize)
    ensures
        watch_step(w, event, r).0.spell_ids == w.spell_ids,
{
}

/// Every state that steps reach from an ordered session is in order and
/// keeps its spell list.
pub proof fn lemma_run_in_order(w: WatcherView, steps: Seq<(EventView, usize)>)
    requires
        session_ok(w),
    ensures
        session_ok(run_steps(w, steps)),
        run_steps(w, steps).spell_ids == w.spell_ids,
    decreases steps.len(),
{
    if steps.len() > 0 {
        law_session_stays_in_order(w, steps[0].0, steps[0].1);
        lemma_step_keeps_spell_list(w, steps[0].0, steps[0].1);
        lemma_run_in_order(watch_step(w, steps[0].0, steps[0].1).0, steps.drop_first());
    }
}

/// Law: in every session that starts with the classic spells of the game
/// data `spells`, whatever events it met and numbers it drew, the spells
/// request names two different spells, each the id of an entry of the game
/// data whose game modes list `CLASSIC`.
pub proof fn law_every_spells_request_classic(
    spells: Json,
    steps: Seq<(EventView, usize)>,
    r: usize,
)
    requires
        classic_spell_ids(spells) is Some,
    ensures
        ({
            let w = run_steps(new_session(classic_spell_ids(spells).unwrap()), steps);
            let (next, out) = watch_step(w, EventView::Continue, r);
            &&& session_ok(w)
            &&& (!w.finished && drawing(w) && w.frames.last().stage is DrawSpells && next.frames.len() > 0
                && next.frames.last().stage is AwaitSpellsSet) ==> exists|a: i64, b: i64| {
                &&& a != b
                &&& is_classic_spell(spells.items().unwrap(), a)
                &&& is_classic_spell(spells.items().unwrap(), b)
                &&& out.outputs == seq![OutputView::Send(spells_request(a, b))]
            }
        }),
{
    let start = new_session(classic_spell_ids(spells).unwrap());
    law_new_session_in_order(start.spell_ids);
    lemma_run_in_order(start, steps);
    let w = run_steps(start, steps);
    if !w.finished && drawing(w) {
        law_spells_request_classic(w, r, spells);
    }
}

/// The number of frame views is the number of frames.
proof fn lemma_frames_len(frames: Seq<Frame>)
    ensures
        frames_view(frames).len() == frames.len(),
{
}

} // verus!
