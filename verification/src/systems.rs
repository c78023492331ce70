//! Decisions of the systems that run every frame.

use std::collections::HashMap;

use vstd::prelude::*;
use vstd::std_specs::hash::*;
use vstd::string::*;

use crate::inline::{InlineAnchor, InlineObject};
use crate::maps::keys_of;
use crate::presentation::{spatial, TerminalPresentationMode};
use crate::screen::texts;
use crate::sequences::{lemma_filter_next, lemma_filtered, lemma_push_holds};

verus! {

broadcast use group_hash_axioms;

/// What becomes of a request that is granted once: whether it has been granted by
/// now, and whether it is granted at this time.
pub open spec fn granted_once(granted: bool, wanted: bool) -> (bool, bool) {
    (granted || wanted, wanted && !granted)
}

/// A request is granted at the first time that it is wanted, and never again.
pub proof fn grants_are_made_once(granted: bool, wanted: bool, wanted_later: bool)
    ensures
        granted_once(false, true) == (true, true),
        granted_once(granted, false) == (granted, false),
        granted_once(granted, wanted).1 ==> wanted,
        granted_once(granted, wanted).0 ==> granted_once(
            granted_once(granted, wanted).0,
            wanted_later,
        ) == (true, false),
{
}

/// Decides whether the application exits because its window was asked to close.
/// The request is made once: `exit_requested` remembers it.
pub fn request_exit(exit_requested: &mut bool, primary_asked_to_close: bool) -> (exit: bool)
    ensures
        exit == (!*old(exit_requested) && primary_asked_to_close),
        *final(exit_requested) == (*old(exit_requested) || primary_asked_to_close),
        (*final(exit_requested), exit) == granted_once(
            *old(exit_requested),
            primary_asked_to_close,
        ),
{
    if *exit_requested {
        return false;
    }
    if primary_asked_to_close {
        *exit_requested = true;
        return true;
    }
    false
}

/// Decides whether the terminal is shut down because the application exits. The
/// shutdown is started once: `shutdown_started` remembers it.
pub fn start_shutdown(shutdown_started: &mut bool, exiting: bool) -> (shutdown: bool)
    ensures
        shutdown == (!*old(shutdown_started) && exiting),
        *final(shutdown_started) == (*old(shutdown_started) || exiting),
        (*final(shutdown_started), shutdown) == granted_once(*old(shutdown_started), exiting),
{
    if *shutdown_started {
        return false;
    }
    if exiting {
        *shutdown_started = true;
        return true;
    }
    false
}

/// What the shell's output channel delivered.
#[derive(Clone, Copy, PartialEq, Eq, Structural, Debug)]
pub enum PumpEvent {
    /// A chunk of output.
    Chunk,
    /// Nothing at the moment.
    Empty,
    /// The channel is closed.
    Disconnected,
}

/// What is to be done about an event of the output channel.
#[derive(Clone, Copy, PartialEq, Eq, Structural, Debug)]
pub enum PumpAction {
    /// Feed the chunk to the terminal, and look for more.
    Feed,
    /// Stop looking for output.
    Stop,
    /// Stop looking for output, and exit.
    Exit,
}

/// State of the output pump.
#[derive(Clone, Copy, PartialEq, Eq, Structural, Debug)]
pub struct PumpState {
    /// Whether output was fed in this frame, so that the terminal has to be
    /// drawn again.
    pub processed_output: bool,
    /// Whether the channel is known to be closed.
    pub pty_disconnected: bool,
}

/// The state of the pump at the start of a frame.
pub open spec fn frame_start(state: PumpState) -> PumpState {
    PumpState { processed_output: false, ..state }
}

/// Starts a frame: no output has been fed in it yet.
pub fn begin_pump(state: &mut PumpState)
    ensures
        *final(state) == frame_start(*old(state)),
{
    state.processed_output = false;
}

/// The state of the pump after an event of the output channel, and what is to be
/// done about it. A closed channel leads to an exit where it was not known to be
/// closed.
pub open spec fn pump_next(state: PumpState, event: PumpEvent) -> (PumpState, PumpAction) {
    match event {
        PumpEvent::Chunk => (PumpState { processed_output: true, ..state }, PumpAction::Feed),
        PumpEvent::Empty => (state, PumpAction::Stop),
        PumpEvent::Disconnected => (
            PumpState { pty_disconnected: true, ..state },
            if state.pty_disconnected {
                PumpAction::Stop
            } else {
                PumpAction::Exit
            },
        ),
    }
}

/// Handles an event of the output channel. A closed channel leads to an exit
/// once.
pub fn pump_step(state: &mut PumpState, event: PumpEvent) -> (action: PumpAction)
    ensures
        (*final(state), action) == pump_next(*old(state), event),
{
    match event {
        PumpEvent::Chunk => {
            state.processed_output = true;
            PumpAction::Feed
        },
        PumpEvent::Empty => PumpAction::Stop,
        PumpEvent::Disconnected => {
            if state.pty_disconnected {
                PumpAction::Stop
            } else {
                state.pty_disconnected = true;
                PumpAction::Exit
            }
        },
    }
}

/// The state of the pump after a run of events.
pub open spec fn pumped(state: PumpState, events: Seq<PumpEvent>) -> PumpState
    decreases events.len(),
{
    if events.len() == 0 {
        state
    } else {
        pump_next(pumped(state, events.drop_last()), events.last()).0
    }
}

/// What is to be done about one event of a run.
pub open spec fn pump_answer(state: PumpState, events: Seq<PumpEvent>, i: int) -> PumpAction {
    pump_next(pumped(state, events.take(i)), events[i]).1
}

/// Over any run of events, every chunk is fed, the exit is answered exactly at the
/// first event that finds the channel closed, and output counts as processed
/// exactly where a chunk was fed.
pub proof fn pump_exits_once(state: PumpState, events: Seq<PumpEvent>)
    requires
        !state.pty_disconnected,
    ensures
        forall|i: int|
            0 <= i < events.len() ==> (#[trigger] pump_answer(state, events, i) == PumpAction::Feed
                <==> events[i] == PumpEvent::Chunk),
        forall|i: int|
            0 <= i < events.len() ==> (#[trigger] pump_answer(state, events, i) == PumpAction::Exit
                <==> events[i] == PumpEvent::Disconnected && !events.take(i).contains(
                PumpEvent::Disconnected,
            )),
        pumped(state, events).processed_output <==> state.processed_output || events.contains(
            PumpEvent::Chunk,
        ),
        pumped(state, events).pty_disconnected <==> events.contains(PumpEvent::Disconnected),
{
    assert forall|i: int| 0 <= i < events.len() implies pumped(
        state,
        #[trigger] events.take(i),
    ).pty_disconnected == events.take(i).contains(PumpEvent::Disconnected) by {
        lemma_pumped(state, events.take(i));
    }
    lemma_pumped(state, events);
}

proof fn lemma_pumped(state: PumpState, events: Seq<PumpEvent>)
    ensures
        pumped(state, events).processed_output <==> state.processed_output || events.contains(
            PumpEvent::Chunk,
        ),
        pumped(state, events).pty_disconnected <==> state.pty_disconnected || events.contains(
            PumpEvent::Disconnected,
        ),
    decreases events.len(),
{
    if events.len() > 0 {
        let before = events.drop_last();
        let last = events.last();
        lemma_pumped(state, before);
        assert(events =~= before.push(last));
        lemma_push_holds(before, last, PumpEvent::Chunk);
        lemma_push_holds(before, last, PumpEvent::Disconnected);
    }
}

/// What one call of the pump finds: a number of queued chunks, and whether the
/// channel is closed behind them.
pub type PumpCall = (nat, bool);

/// The events of a call: its chunks in the order of the queue, and the event that
/// ends it.
pub open spec fn call_events(call: PumpCall) -> Seq<PumpEvent> {
    Seq::new(call.0, |i: int| PumpEvent::Chunk).push(
        if call.1 {
            PumpEvent::Disconnected
        } else {
            PumpEvent::Empty
        },
    )
}

/// The state of the pump after a number of calls.
pub open spec fn after_calls(state: PumpState, calls: Seq<PumpCall>) -> PumpState
    decreases calls.len(),
{
    if calls.len() == 0 {
        state
    } else {
        pumped(frame_start(after_calls(state, calls.drop_last())), call_events(calls.last()))
    }
}

/// Over any number of calls, each call feeds every chunk that it finds and has the
/// terminal drawn again exactly where it found one. The exit is answered at the
/// end of the first call that finds the channel closed, and by no other.
pub proof fn calls_exit_once(state: PumpState, calls: Seq<PumpCall>, k: int)
    requires
        !state.pty_disconnected,
        0 <= k < calls.len(),
    ensures
        ({
            let start = frame_start(after_calls(state, calls.take(k)));
            let events = call_events(calls[k]);
            &&& forall|i: int|
                0 <= i < calls[k].0 ==> #[trigger] pump_answer(start, events, i)
                    == PumpAction::Feed
            &&& pump_answer(start, events, calls[k].0 as int) == (if calls[k].1 && forall|j: int|
                0 <= j < k ==> !(#[trigger] calls[j]).1 {
                PumpAction::Exit
            } else {
                PumpAction::Stop
            })
            &&& after_calls(state, calls.take(k + 1)) == pumped(start, events)
            &&& pumped(start, events).processed_output <==> calls[k].0 > 0
        }),
{
    let earlier = calls.take(k);
    let start = frame_start(after_calls(state, earlier));
    let events = call_events(calls[k]);
    let chunks = calls[k].0 as int;
    lemma_after_calls(state, earlier);
    assert(start.pty_disconnected <==> exists|j: int| 0 <= j < k && (#[trigger] calls[j]).1) by {
        if exists|j: int| 0 <= j < k && (#[trigger] calls[j]).1 {
            let j = choose|j: int| 0 <= j < k && (#[trigger] calls[j]).1;
            assert(earlier[j].1);
        }
        if start.pty_disconnected {
            let j = choose|j: int| 0 <= j < earlier.len() && (#[trigger] earlier[j]).1;
            assert(calls[j].1);
        }
    }
    lemma_pumped(start, events.take(chunks));
    assert(!events.take(chunks).contains(PumpEvent::Disconnected));
    lemma_pumped(start, events);
    assert(calls[k].0 > 0 ==> events[0] == PumpEvent::Chunk);
    assert(calls.take(k + 1).drop_last() =~= earlier);
}

proof fn lemma_after_calls(state: PumpState, calls: Seq<PumpCall>)
    requires
        !state.pty_disconnected,
    ensures
        after_calls(state, calls).pty_disconnected <==> exists|j: int|
            0 <= j < calls.len() && (#[trigger] calls[j]).1,
    decreases calls.len(),
{
    if calls.len() > 0 {
        let before = calls.drop_last();
        let last = calls.last();
        let events = call_events(last);
        lemma_after_calls(state, before);
        lemma_pumped(frame_start(after_calls(state, before)), events);
        assert(last.1 ==> events[last.0 as int] == PumpEvent::Disconnected);
        if exists|j: int| 0 <= j < before.len() && (#[trigger] before[j]).1 {
            let j = choose|j: int| 0 <= j < before.len() && (#[trigger] before[j]).1;
            assert(calls[j].1);
        }
        if exists|j: int| 0 <= j < calls.len() && (#[trigger] calls[j]).1 {
            let j = choose|j: int| 0 <= j < calls.len() && (#[trigger] calls[j]).1;
            if j < before.len() {
                assert(before[j].1);
            }
        }
        assert(calls[calls.len() - 1] == last);
    }
}

/// Whether the rows moved up by a number of rows: what is above the last rows of
/// the later screen stood that many rows lower on the earlier one.
pub open spec fn moved_up(prev: Seq<Seq<char>>, next: Seq<Seq<char>>, shift: int) -> bool {
    forall|i: int|
        0 <= i < next.len() && i + shift < prev.len() ==> #[trigger] next[i] == prev[i + shift]
}

/// The largest number of rows below a bound that the rows moved up by, or zero.
pub open spec fn largest_shift(prev: Seq<Seq<char>>, next: Seq<Seq<char>>, bound: int) -> int
    decreases bound,
{
    if bound <= 1 {
        0
    } else if moved_up(prev, next, bound - 1) {
        bound - 1
    } else {
        largest_shift(prev, next, bound - 1)
    }
}

/// The number of rows that a screen scrolled up by.
pub open spec fn upward_scroll(prev: Seq<Seq<char>>, next: Seq<Seq<char>>) -> int {
    largest_shift(
        prev,
        next,
        if prev.len() <= next.len() {
            prev.len() as int
        } else {
            next.len() as int
        },
    )
}

/// Tests whether the rows moved up by a number of rows.
fn rows_moved_up(prev: &[String], next: &[String], shift: usize) -> (r: bool)
    requires
        shift <= prev.len(),
    ensures
        r == moved_up(texts(prev@), texts(next@), shift as int),
{
    let mut i: usize = 0;
    while i < next.len() && i < prev.len() - shift
        invariant
            shift <= prev.len(),
            i <= next.len(),
            i <= prev.len() - shift,
            forall|k: int|
                0 <= k < i ==> #[trigger] texts(next@)[k] == texts(prev@)[k + shift],
        decreases next.len() - i,
    {
        if prev[i + shift] != next[i] {
            assert(texts(next@)[i as int] != texts(prev@)[i + shift]);
            return false;
        }
        assert(texts(next@)[i as int] == texts(prev@)[i + shift]);
        i = i + 1;
    }
    true
}

/// Infers how many rows a screen scrolled up by from its rows before and after.
pub fn infer_upward_scroll(prev_rows: &[String], next_rows: &[String]) -> (shift: u16)
    ensures
        shift == upward_scroll(texts(prev_rows@), texts(next_rows@)) as u16,
{
    let bound: usize = if prev_rows.len() <= next_rows.len() {
        prev_rows.len()
    } else {
        next_rows.len()
    };
    let mut shift: usize = bound;
    while shift > 1
        invariant
            shift <= bound <= prev_rows.len(),
            largest_shift(texts(prev_rows@), texts(next_rows@), shift as int) == upward_scroll(
                texts(prev_rows@),
                texts(next_rows@),
            ),
        decreases shift,
    {
        shift = shift - 1;
        if rows_moved_up(prev_rows, next_rows, shift) {
            return shift as u16;
        }
    }
    0
}

/// The inferred scroll is a shift that the rows moved up by, and there is no
/// larger one.
pub proof fn inferred_scroll_is_the_largest(prev: Seq<Seq<char>>, next: Seq<Seq<char>>, bound: int)
    ensures
        ({
            let shift = largest_shift(prev, next, bound);
            &&& shift != 0 ==> 0 < shift < bound && moved_up(prev, next, shift)
            &&& forall|larger: int|
                shift < larger < bound && 0 < larger ==> !#[trigger] moved_up(prev, next, larger)
        }),
    decreases bound,
{
    if bound > 1 {
        inferred_scroll_is_the_largest(prev, next, bound - 1);
    }
}

/// Whether inline sprites, and whether inline planes, are visible.
pub open spec fn inline_parts(mode: TerminalPresentationMode) -> (bool, bool) {
    (!spatial(mode), spatial(mode))
}

/// Sprites are visible on the flat terminal, planes on the plane and on the strip,
/// and never both.
pub proof fn sprites_and_planes_take_turns(mode: TerminalPresentationMode)
    ensures
        inline_parts(mode).0 <==> mode is Flat2d,
        inline_parts(mode).1 <==> mode is Plane3d || mode is Mobius3d,
        inline_parts(mode).0 != inline_parts(mode).1,
{
}

/// Decides whether inline sprites are visible: in the flat presentation.
pub fn sprites_visible(mode: TerminalPresentationMode) -> (visible: bool)
    ensures
        visible == !spatial(mode),
        visible == inline_parts(mode).0,
{
    match mode {
        TerminalPresentationMode::Flat2d => true,
        TerminalPresentationMode::Plane3d | TerminalPresentationMode::Mobius3d => false,
    }
}

/// Decides whether inline planes are visible: in space.
pub fn planes_visible(mode: TerminalPresentationMode) -> (visible: bool)
    ensures
        visible == spatial(mode),
        visible == inline_parts(mode).1,
{
    match mode {
        TerminalPresentationMode::Flat2d => false,
        TerminalPresentationMode::Plane3d | TerminalPresentationMode::Mobius3d => true,
    }
}

/// Progress of loading the cursor model.
#[derive(Clone, Copy, PartialEq, Eq, Structural, Debug)]
pub struct ModelLoadState {
    /// Whether a terminal image has been uploaded.
    pub first_frame_uploaded: bool,
    /// Whether the cursor model has been taken care of.
    pub loaded: bool,
}

impl Default for ModelLoadState {
    fn default() -> (state: Self)
        ensures
            state == (ModelLoadState { first_frame_uploaded: false, loaded: false }),
    {
        ModelLoadState { first_frame_uploaded: false, loaded: false }
    }
}

/// Whether the terminal is drawn in a frame.
pub open spec fn drawn(
    requested: bool,
    mode: TerminalPresentationMode,
    cursor_model_visible: bool,
    load: ModelLoadState,
) -> bool {
    requested || (spatial(mode) && !cursor_model_visible) || !load.loaded
}

/// The terminal is drawn on request, until the cursor model has been taken care of,
/// and in space without that model. Otherwise it is left as it is.
pub proof fn draws_have_a_cause(
    mode: TerminalPresentationMode,
    cursor_model_visible: bool,
    load: ModelLoadState,
)
    ensures
        drawn(true, mode, cursor_model_visible, load),
        !load.loaded ==> drawn(false, mode, cursor_model_visible, load),
        load.loaded && cursor_model_visible ==> !drawn(false, mode, cursor_model_visible, load),
        load.loaded && !cursor_model_visible ==> (drawn(false, mode, cursor_model_visible, load)
            <==> mode is Plane3d || mode is Mobius3d),
{
}

/// Decides whether the terminal is drawn: when a redraw was requested, in every
/// frame in space while the cursor is drawn as text, and until the cursor model
/// has been taken care of.
pub fn needs_redraw(
    requested: bool,
    mode: TerminalPresentationMode,
    cursor_model_visible: bool,
    load: &ModelLoadState,
) -> (draw: bool)
    ensures
        draw == (requested || (spatial(mode) && !cursor_model_visible) || !load.loaded),
        draw == drawn(requested, mode, cursor_model_visible, *load),
{
    let force_live_redraw = planes_visible(mode) && !cursor_model_visible;
    requested || force_live_redraw || !load.loaded
}

/// Where the cursor is drawn as text: column and row.
pub open spec fn text_cursor_at(
    cursor_model_visible: bool,
    hidden: bool,
    row: u16,
    col: u16,
) -> Option<(u16, u16)> {
    if cursor_model_visible || hidden {
        None
    } else {
        Some((col, row))
    }
}

/// The cursor is drawn as text exactly where it is not hidden and no model stands
/// for it, with its column before its row.
pub proof fn text_cursors_follow_the_screen(
    cursor_model_visible: bool,
    hidden: bool,
    row: u16,
    col: u16,
)
    ensures
        text_cursor_at(cursor_model_visible, hidden, row, col) is Some <==> !cursor_model_visible
            && !hidden,
        text_cursor_at(cursor_model_visible, hidden, row, col) matches Some(at) ==> at.0 == col
            && at.1 == row,
{
}

/// Decides where the cursor is drawn as text: column and row, unless the cursor
/// model stands for it or it is hidden.
pub fn text_cursor(cursor_model_visible: bool, hidden: bool, row: u16, col: u16) -> (at: Option<
    (u16, u16),
>)
    ensures
        at == (if cursor_model_visible || hidden {
            None
        } else {
            Some((col, row))
        }),
        at == text_cursor_at(cursor_model_visible, hidden, row, col),
{
    if !cursor_model_visible && !hidden {
        Some((col, row))
    } else {
        None
    }
}

/// What follows the upload of a terminal image.
#[derive(Clone, Copy, PartialEq, Eq, Structural, Debug)]
pub enum AfterUpload {
    /// Nothing.
    Nothing,
    /// Draw once more.
    RequestRedraw,
    /// Spawn the cursor model.
    SpawnCursorModel,
}

/// The progress of loading after the upload of a terminal image, and what follows
/// it.
pub open spec fn uploaded(load: ModelLoadState, cursor_model_visible: bool) -> (
    ModelLoadState,
    AfterUpload,
) {
    if !load.first_frame_uploaded {
        (ModelLoadState { first_frame_uploaded: true, ..load }, AfterUpload::RequestRedraw)
    } else {
        (
            ModelLoadState { loaded: true, ..load },
            if !load.loaded && cursor_model_visible {
                AfterUpload::SpawnCursorModel
            } else {
                AfterUpload::Nothing
            },
        )
    }
}

/// From the start, the first upload asks for another one, the second takes care of
/// the cursor model, which it spawns where it is visible, and nothing follows any
/// later one.
pub proof fn uploads_run_their_course(first: bool, second: bool, later: bool)
    ensures
        ({
            let start = ModelLoadState { first_frame_uploaded: false, loaded: false };
            let (once, asked) = uploaded(start, first);
            let (twice, spawned) = uploaded(once, second);
            let (thrice, rested) = uploaded(twice, later);
            &&& asked == AfterUpload::RequestRedraw && !once.loaded
            &&& second ==> spawned == AfterUpload::SpawnCursorModel
            &&& !second ==> spawned == AfterUpload::Nothing
            &&& twice.loaded && thrice == twice
            &&& rested == AfterUpload::Nothing
        }),
{
}

/// Decides what follows the upload of a terminal image: another frame after the
/// first one, and then the cursor model where it is visible.
pub fn after_upload(load: &mut ModelLoadState, cursor_model_visible: bool) -> (next: AfterUpload)
    ensures
        final(load).first_frame_uploaded,
        if !old(load).first_frame_uploaded {
            &&& next == AfterUpload::RequestRedraw
            &&& final(load).loaded == old(load).loaded
        } else {
            &&& final(load).loaded
            &&& next == (if !old(load).loaded && cursor_model_visible {
                AfterUpload::SpawnCursorModel
            } else {
                AfterUpload::Nothing
            })
        },
        (*final(load), next) == uploaded(*old(load), cursor_model_visible),
{
    if !load.first_frame_uploaded {
        load.first_frame_uploaded = true;
        return AfterUpload::RequestRedraw;
    }
    if !load.loaded {
        load.loaded = true;
        if cursor_model_visible {
            return AfterUpload::SpawnCursorModel;
        }
    }
    AfterUpload::Nothing
}

/// Whether inline objects are synchronized in a frame.
pub open spec fn synchronized(
    mode: TerminalPresentationMode,
    warped: bool,
    has_anchors: bool,
    changed: bool,
) -> bool {
    (spatial(mode) && warped && has_anchors) || changed
}

/// Inline objects are synchronized with every change. Without one, they are where a
/// warped terminal in space carries any, and only there.
pub proof fn synchronizations_have_a_cause(
    mode: TerminalPresentationMode,
    warped: bool,
    has_anchors: bool,
)
    ensures
        synchronized(mode, warped, has_anchors, true),
        synchronized(mode, warped, has_anchors, false) <==> !(mode is Flat2d) && warped
            && has_anchors,
{
}

/// Decides whether inline objects are synchronized: when something about them
/// changed, and in every frame while a warped terminal carries any.
pub fn needs_inline_sync(
    mode: TerminalPresentationMode,
    warped: bool,
    has_anchors: bool,
    changed: bool,
) -> (sync: bool)
    ensures
        sync == ((spatial(mode) && warped && has_anchors) || changed),
        sync == synchronized(mode, warped, has_anchors, changed),
{
    (planes_visible(mode) && warped && has_anchors) || changed
}

/// The row below an anchor. Heights are taken as signed numbers.
pub open spec fn anchor_end(row: u16, rows: u32) -> int {
    row + (rows as i32)
}

/// Whether an anchor lies on the terminal, at least in part.
pub open spec fn on_terminal(row: u16, rows: u32, terminal_rows: u16) -> bool {
    row < terminal_rows && anchor_end(row, rows) > 0
}

/// Tests whether an anchor lies on the terminal, at least in part.
pub fn is_renderable(row: u16, rows: u32, terminal_rows: u16) -> (r: bool)
    requires
        anchor_end(row, rows) <= i32::MAX,
    ensures
        r == on_terminal(row, rows, terminal_rows),
{
    let start: i32 = row as i32;
    let end: i32 = start + rows as i32;
    start < terminal_rows as i32 && end > 0
}

/// Whether an object is registered and anchored on the terminal.
pub open spec fn renderable<H, P, R, S>(
    anchors: Map<u32, InlineAnchor<S>>,
    objects: Map<u32, InlineObject<H, P, R>>,
    terminal_rows: u16,
    id: u32,
) -> bool {
    &&& anchors.dom().contains(id)
    &&& objects.dom().contains(id)
    &&& on_terminal(anchors[id].row, anchors[id].rows, terminal_rows)
}

/// Lists the objects to render, in no particular order.
pub fn renderable_ids<H, P, R, S>(
    anchors: &HashMap<u32, InlineAnchor<S>>,
    objects: &HashMap<u32, InlineObject<H, P, R>>,
    terminal_rows: u16,
) -> (ids: Vec<u32>)
    requires
        forall|id: u32| #[trigger]
            anchors@.dom().contains(id) && objects@.dom().contains(id) ==> anchor_end(
                anchors@[id].row,
                anchors@[id].rows,
            ) <= i32::MAX,
    ensures
        ids@.no_duplicates(),
        forall|id: u32| #[trigger]
            ids@.contains(id) <==> renderable(anchors@, objects@, terminal_rows, id),
{
    let keys = keys_of(anchors);
    let ghost wanted = |id: u32| renderable(anchors@, objects@, terminal_rows, id);
    let mut ids: Vec<u32> = Vec::new();
    let mut i: usize = 0;
    assert(keys@.take(0).filter(wanted) =~= Seq::<u32>::empty()) by {
        reveal(Seq::filter);
    }
    while i < keys.len()
        invariant
            i <= keys.len(),
            forall|id: u32| #[trigger] keys@.contains(id) <==> anchors@.dom().contains(id),
            forall|id: u32| #[trigger]
                anchors@.dom().contains(id) && objects@.dom().contains(id) ==> anchor_end(
                    anchors@[id].row,
                    anchors@[id].rows,
                ) <= i32::MAX,
            wanted == |id: u32| renderable(anchors@, objects@, terminal_rows, id),
            ids@ == keys@.take(i as int).filter(wanted),
        decreases keys.len() - i,
    {
        let id: u32 = keys[i];
        proof {
            lemma_filter_next(keys@, wanted, i as int);
            assert(keys@.contains(keys@[i as int]));
        }
        let shown = match anchors.get(&id) {
            Some(anchor) => objects.contains_key(&id) && is_renderable(
                anchor.row,
                anchor.rows,
                terminal_rows,
            ),
            None => false,
        };
        if shown {
            ids.push(id);
        }
        i = i + 1;
    }
    proof {
        assert(keys@.take(keys.len() as int) =~= keys@);
        lemma_filtered(keys@, wanted);
    }
    ids
}

/// The components of the color of an object: of its own, or of white.
pub open spec fn shown_color(color: Option<[u8; 3]>) -> Seq<u8> {
    match color {
        Some(color) => color@,
        None => seq![255u8, 255, 255],
    }
}

/// An object with a color has that color, component by component, and one without
/// has every component at its largest.
pub proof fn objects_are_white_by_default(color: [u8; 3], i: int)
    requires
        0 <= i < 3,
    ensures
        shown_color(Some(color))[i] == color@[i],
        shown_color(None)[i] == u8::MAX,
        shown_color(Some(color)).len() == 3,
        shown_color(None).len() == 3,
{
}

/// The color of an object: its own, or white.
pub fn object_color(color: Option<[u8; 3]>) -> (rgb: [u8; 3])
    ensures
        match color {
            Some(color) => rgb == color,
            None => rgb@ == seq![255u8, 255, 255],
        },
        rgb@ == shown_color(color),
{
    match color {
        Some(color) => color,
        None => [255, 255, 255],
    }
}

/// Where the brightness of a material comes from.
#[derive(Clone, Copy, PartialEq, Eq, Structural, Debug)]
pub enum BrightnessSource {
    /// From the inline object whose root is this entity.
    Object(u64),
    /// From the cursor model.
    Cursor,
}

/// The source of brightness that an entity is.
pub open spec fn brightness_of(
    entity: u64,
    object_roots: Seq<u64>,
    cursor_roots: Seq<u64>,
) -> Option<BrightnessSource> {
    if object_roots.contains(entity) {
        Some(BrightnessSource::Object(entity))
    } else if cursor_roots.contains(entity) {
        Some(BrightnessSource::Cursor)
    } else {
        None
    }
}

/// The nearest source of brightness among the ancestors of an entity.
pub open spec fn nearest_brightness(
    ancestors: Seq<u64>,
    object_roots: Seq<u64>,
    cursor_roots: Seq<u64>,
) -> Option<BrightnessSource>
    decreases ancestors.len(),
{
    if ancestors.len() == 0 {
        None
    } else {
        match brightness_of(ancestors.first(), object_roots, cursor_roots) {
            Some(source) => Some(source),
            None => nearest_brightness(ancestors.drop_first(), object_roots, cursor_roots),
        }
    }
}

/// Tests whether an entity is among others.
fn is_among(entity: u64, entities: &[u64]) -> (r: bool)
    ensures
        r == entities@.contains(entity),
{
    let mut i: usize = 0;
    while i < entities.len()
        invariant
            i <= entities.len(),
            forall|k: int| 0 <= k < i ==> #[trigger] entities@[k] != entity,
        decreases entities.len() - i,
    {
        if entities[i] == entity {
            assert(entities@[i as int] == entity);
            return true;
        }
        i = i + 1;
    }
    false
}

/// Finds the nearest source of brightness among the ancestors of an entity, from
/// its parent upwards.
pub fn brightness_source(ancestors: &[u64], object_roots: &[u64], cursor_roots: &[u64]) -> (source:
    Option<BrightnessSource>)
    ensures
        source == nearest_brightness(ancestors@, object_roots@, cursor_roots@),
{
    let mut i: usize = 0;
    assert(ancestors@.skip(0) =~= ancestors@);
    while i < ancestors.len()
        invariant
            i <= ancestors.len(),
            nearest_brightness(ancestors@.skip(i as int), object_roots@, cursor_roots@)
                == nearest_brightness(ancestors@, object_roots@, cursor_roots@),
        decreases ancestors.len() - i,
    {
        let entity: u64 = ancestors[i];
        assert(ancestors@.skip(i as int).first() == entity);
        assert(ancestors@.skip(i as int).drop_first() =~= ancestors@.skip(i + 1));
        if is_among(entity, object_roots) {
            return Some(BrightnessSource::Object(entity));
        }
        if is_among(entity, cursor_roots) {
            return Some(BrightnessSource::Cursor);
        }
        i = i + 1;
    }
    None
}

/// Whether the meshes of the terminal in space are warped again in a frame.
pub open spec fn warped_again(
    mode: TerminalPresentationMode,
    presentation_changed: bool,
    warp_changed: bool,
    warped: bool,
) -> bool {
    match mode {
        TerminalPresentationMode::Flat2d => false,
        TerminalPresentationMode::Plane3d => presentation_changed || warp_changed || warped,
        TerminalPresentationMode::Mobius3d => true,
    }
}

/// The flat terminal has no meshes to warp, the strip is warped in every frame, and
/// the plane where one of the three causes holds.
pub proof fn warps_have_a_cause(
    mode: TerminalPresentationMode,
    presentation_changed: bool,
    warp_changed: bool,
    warped: bool,
)
    ensures
        warped_again(mode, presentation_changed, warp_changed, warped) ==> spatial(mode),
        mode is Mobius3d ==> warped_again(mode, presentation_changed, warp_changed, warped),
        mode is Plane3d ==> {
            &&& warped_again(mode, true, warp_changed, warped)
            &&& warped_again(mode, presentation_changed, true, warped)
            &&& warped_again(mode, presentation_changed, warp_changed, true)
            &&& !warped_again(mode, false, false, false)
        },
{
}

/// Decides whether the meshes of the terminal in space are warped again: on a
/// plane when something changed or a warp is set, and on the Mobius strip in
/// every frame.
pub fn needs_warp_update(
    mode: TerminalPresentationMode,
    presentation_changed: bool,
    warp_changed: bool,
    warped: bool,
) -> (update: bool)
    ensures
        update == match mode {
            TerminalPresentationMode::Flat2d => false,
            TerminalPresentationMode::Plane3d => presentation_changed || warp_changed || warped,
            TerminalPresentationMode::Mobius3d => true,
        },
        update == warped_again(mode, presentation_changed, warp_changed, warped),
{
    match mode {
        TerminalPresentationMode::Flat2d => false,
        TerminalPresentationMode::Plane3d => presentation_changed || warp_changed || warped,
        TerminalPresentationMode::Mobius3d => true,
    }
}

/// How far the terminal has turned into the Mobius strip.
#[derive(Clone, Copy, PartialEq, Eq, Structural, Debug)]
pub enum MobiusProgress {
    /// Not at all.
    Flat,
    /// As far as the running transition.
    Morphing,
    /// Completely.
    Complete,
}

/// How far the terminal has turned into the Mobius strip.
pub open spec fn mobius_progress(
    mode: TerminalPresentationMode,
    transition_active: bool,
) -> MobiusProgress {
    if mode != TerminalPresentationMode::Mobius3d {
        MobiusProgress::Flat
    } else if transition_active {
        MobiusProgress::Morphing
    } else {
        MobiusProgress::Complete
    }
}

/// Only the strip is turned at all: completely once no transition is running.
pub proof fn only_strips_are_turned(mode: TerminalPresentationMode, transition_active: bool)
    ensures
        mobius_progress(mode, transition_active) is Flat <==> mode is Flat2d || mode is Plane3d,
        mobius_progress(TerminalPresentationMode::Mobius3d, true) is Morphing,
        mobius_progress(TerminalPresentationMode::Mobius3d, false) is Complete,
        mobius_next(mode, transition_active) is Stop <==> mode is Flat2d || mode is Plane3d,
        mobius_next(TerminalPresentationMode::Mobius3d, true) is Advance,
        mobius_next(TerminalPresentationMode::Mobius3d, false) is Wait,
{
}

/// Tells how far the terminal has turned into the Mobius strip.
pub fn active_mobius_progress(mode: TerminalPresentationMode, transition_active: bool) -> (progress:
    MobiusProgress)
    ensures
        progress == (if mode != TerminalPresentationMode::Mobius3d {
            MobiusProgress::Flat
        } else if transition_active {
            MobiusProgress::Morphing
        } else {
            MobiusProgress::Complete
        }),
        progress == mobius_progress(mode, transition_active),
{
    if mode != TerminalPresentationMode::Mobius3d {
        MobiusProgress::Flat
    } else if transition_active {
        MobiusProgress::Morphing
    } else {
        MobiusProgress::Complete
    }
}

/// Direction of a transition of the Mobius strip.
#[derive(Clone, Copy, PartialEq, Eq, Structural, Debug)]
pub enum MobiusTransitionDirection {
    /// Into the strip.
    Entering,
    /// Out of the strip.
    Exiting,
}

/// What a frame does to a transition of the Mobius strip.
#[derive(Clone, Copy, PartialEq, Eq, Structural, Debug)]
pub enum MobiusStep {
    /// Nothing.
    Wait,
    /// Stop it: the terminal is not presented as the strip.
    Stop,
    /// Advance it, and draw the terminal.
    Advance,
}

/// What a frame does to a transition of the Mobius strip.
pub open spec fn mobius_next(mode: TerminalPresentationMode, transition_active: bool) -> MobiusStep {
    if mode != TerminalPresentationMode::Mobius3d {
        MobiusStep::Stop
    } else if transition_active {
        MobiusStep::Advance
    } else {
        MobiusStep::Wait
    }
}

/// Decides what a frame does to a transition of the Mobius strip.
pub fn mobius_step(mode: TerminalPresentationMode, transition_active: bool) -> (step: MobiusStep)
    ensures
        step == (if mode != TerminalPresentationMode::Mobius3d {
            MobiusStep::Stop
        } else if transition_active {
            MobiusStep::Advance
        } else {
            MobiusStep::Wait
        }),
        step == mobius_next(mode, transition_active),
{
    if mode != TerminalPresentationMode::Mobius3d {
        return MobiusStep::Stop;
    }
    if !transition_active {
        return MobiusStep::Wait;
    }
    MobiusStep::Advance
}

/// The mode after a transition, and whether the view is restored.
pub open spec fn after_transition(
    mode: TerminalPresentationMode,
    direction: MobiusTransitionDirection,
    source_mode: TerminalPresentationMode,
) -> (TerminalPresentationMode, bool) {
    if direction == MobiusTransitionDirection::Exiting {
        (source_mode, true)
    } else {
        (mode, false)
    }
}

/// Leaving the strip ends in the mode that it was entered from, with its view;
/// entering it ends in the strip.
pub proof fn leaving_undoes_entering(source_mode: TerminalPresentationMode)
    ensures
        ({
            let strip = TerminalPresentationMode::Mobius3d;
            let entered = after_transition(strip, MobiusTransitionDirection::Entering, source_mode);
            let left = after_transition(
                entered.0,
                MobiusTransitionDirection::Exiting,
                source_mode,
            );
            &&& entered.0 == strip && !entered.1
            &&& left.0 == source_mode && left.1
        }),
{
}

/// Completes a transition: leaving the strip returns to the mode it was entered
/// from. Returns whether the view is restored as well.
pub fn finish_mobius_transition(
    mode: &mut TerminalPresentationMode,
    direction: MobiusTransitionDirection,
    source_mode: TerminalPresentationMode,
) -> (restore_view: bool)
    ensures
        restore_view == (direction == MobiusTransitionDirection::Exiting),
        *final(mode) == (if restore_view {
            source_mode
        } else {
            *old(mode)
        }),
        (*final(mode), restore_view) == after_transition(*old(mode), direction, source_mode),
{
    if direction == MobiusTransitionDirection::Exiting {
        *mode = source_mode;
        return true;
    }
    false
}

/// Whether the cursor model is seen.
pub open spec fn cursor_model_seen(
    mode: TerminalPresentationMode,
    cursor_model_visible: bool,
    hidden: bool,
    plane_present: bool,
) -> bool {
    cursor_model_visible && (if spatial(mode) {
        plane_present
    } else {
        !hidden
    })
}

/// The cursor model is never seen where it is switched off. On the flat terminal
/// the hidden cursor alone decides, and in space the plane alone.
pub proof fn cursor_models_need_a_place(
    mode: TerminalPresentationMode,
    cursor_model_visible: bool,
    hidden: bool,
    plane_present: bool,
)
    ensures
        !cursor_model_seen(mode, false, hidden, plane_present),
        mode is Flat2d ==> (cursor_model_seen(mode, true, hidden, plane_present) <==> !hidden),
        mode is Plane3d ==> cursor_model_seen(mode, true, hidden, plane_present) == plane_present,
        mode is Mobius3d ==> cursor_model_seen(mode, true, hidden, plane_present) == plane_present,
{
}

/// Decides whether the cursor model is visible. In space it needs the terminal
/// plane; on the flat terminal it follows the cursor of the screen.
pub fn cursor_model_shown(
    mode: TerminalPresentationMode,
    cursor_model_visible: bool,
    hidden: bool,
    plane_present: bool,
) -> (shown: bool)
    ensures
        shown == (cursor_model_visible && (if spatial(mode) {
            plane_present
        } else {
            !hidden
        })),
        shown == cursor_model_seen(mode, cursor_model_visible, hidden, plane_present),
{
    match mode {
        TerminalPresentationMode::Flat2d => cursor_model_visible && !hidden,
        TerminalPresentationMode::Plane3d | TerminalPresentationMode::Mobius3d => {
            plane_present && cursor_model_visible
        },
    }
}

/// A position within an extent, or its last position.
pub open spec fn within(position: u16, extent: u16) -> u16 {
    if extent == 0 {
        0
    } else if position < extent {
        position
    } else {
        (extent - 1) as u16
    }
}

/// The column and the row of a cursor position, kept within the terminal.
pub open spec fn kept_cell(row: u16, col: u16, rows: u16, cols: u16) -> (u16, u16) {
    (within(col, cols), within(row, rows))
}

/// A cursor on the terminal keeps its column and its row; one beyond its last
/// column or row is moved to that, and one on a terminal without any to the first.
pub proof fn cursors_are_kept_on_the_terminal(row: u16, col: u16, rows: u16, cols: u16)
    ensures
        col < cols ==> kept_cell(row, col, rows, cols).0 == col,
        row < rows ==> kept_cell(row, col, rows, cols).1 == row,
        0 < cols <= col ==> kept_cell(row, col, rows, cols).0 == cols - 1,
        0 < rows <= row ==> kept_cell(row, col, rows, cols).1 == rows - 1,
        cols == 0 ==> kept_cell(row, col, rows, cols).0 == 0,
        rows == 0 ==> kept_cell(row, col, rows, cols).1 == 0,
{
}

/// Keeps a cursor position within the terminal. Returns column and row.
pub fn cursor_cell(row: u16, col: u16, rows: u16, cols: u16) -> (at: (u16, u16))
    ensures
        at == (within(col, cols), within(row, rows)),
        at == kept_cell(row, col, rows, cols),
{
    let last_col: u16 = cols.saturating_sub(1);
    let last_row: u16 = rows.saturating_sub(1);
    (
        if col <= last_col {
            col
        } else {
            last_col
        },
        if row <= last_row {
            row
        } else {
            last_row
        },
    )
}

/// Where the rows of a screen moved up by a number of rows, and new ones came in
/// below, the inferred scroll is at least that number, and every row that stayed
/// visible under it stood that much lower before.
pub proof fn scrolled_rows_are_found(prev: Seq<Seq<char>>, fresh: Seq<Seq<char>>)
    requires
        0 < fresh.len() < prev.len(),
    ensures
        ({
            let next = prev.skip(fresh.len() as int) + fresh;
            let shift = upward_scroll(prev, next);
            &&& fresh.len() <= shift < prev.len()
            &&& forall|i: int|
                0 <= i < prev.len() - shift ==> #[trigger] next[i] == prev[i + shift]
        }),
{
    let next = prev.skip(fresh.len() as int) + fresh;
    let k = fresh.len() as int;
    assert forall|i: int| 0 <= i < next.len() && i + k < prev.len() implies #[trigger] next[i]
        == prev[i + k] by {
        assert(next[i] == prev.skip(k)[i]);
    }
    assert(moved_up(prev, next, k));
    inferred_scroll_is_the_largest(prev, next, prev.len() as int);
    let shift = upward_scroll(prev, next);
    if shift < k {
        assert(!moved_up(prev, next, k));
    }
}

/// Where no row of the later screen stood on the earlier one, nothing scrolled.
pub proof fn new_screens_do_not_scroll(prev: Seq<Seq<char>>, next: Seq<Seq<char>>)
    requires
        forall|i: int, j: int|
            0 <= i < next.len() && 0 <= j < prev.len() ==> #[trigger] next[i] != #[trigger] prev[j],
    ensures
        upward_scroll(prev, next) == 0,
{
    let bound = if prev.len() <= next.len() {
        prev.len() as int
    } else {
        next.len() as int
    };
    inferred_scroll_is_the_largest(prev, next, bound);
    let shift = upward_scroll(prev, next);
    if shift != 0 {
        assert(next[0] == prev[0 + shift]);
    }
}

/// An anchor of a common height lies on the terminal exactly where it starts above
/// the end of the terminal and ends below its start. One without a height does so
/// below the first row.
pub proof fn anchors_lie_on_the_terminal(row: u16, rows: u32, terminal_rows: u16)
    requires
        rows <= i32::MAX,
    ensures
        anchor_end(row, rows) == row + rows,
        row >= terminal_rows ==> !on_terminal(row, rows, terminal_rows),
        row < terminal_rows && rows > 0 ==> on_terminal(row, rows, terminal_rows),
        row < terminal_rows && rows == 0 ==> (on_terminal(row, rows, terminal_rows) <==> row > 0),
{
}

/// An object that is not anchored, that is not registered, or whose anchor is not
/// on the terminal is not rendered; any other is.
pub proof fn anchored_objects_are_rendered<H, P, R, S>(
    anchors: Map<u32, InlineAnchor<S>>,
    objects: Map<u32, InlineObject<H, P, R>>,
    terminal_rows: u16,
    id: u32,
    anchor: InlineAnchor<S>,
    object: InlineObject<H, P, R>,
)
    ensures
        !renderable(anchors.remove(id), objects, terminal_rows, id),
        !renderable(anchors, objects.remove(id), terminal_rows, id),
        anchor.row >= terminal_rows ==> !renderable(
            anchors.insert(id, anchor),
            objects,
            terminal_rows,
            id,
        ),
        anchor.row < terminal_rows && 0 < anchor.rows <= i32::MAX ==> renderable(
            anchors.insert(id, anchor),
            objects.insert(id, object),
            terminal_rows,
            id,
        ),
{
}

/// The brightness of a material comes from its nearest ancestor that is the root of
/// an object or of the cursor model; that of an object counts where an ancestor is
/// both.
pub proof fn nearest_roots_give_brightness(
    ancestors: Seq<u64>,
    object_roots: Seq<u64>,
    cursor_roots: Seq<u64>,
    k: int,
)
    requires
        0 <= k <= ancestors.len(),
        forall|i: int|
            0 <= i < k ==> !object_roots.contains(#[trigger] ancestors[i]) && !cursor_roots.contains(
                ancestors[i],
            ),
    ensures
        k == ancestors.len() ==> nearest_brightness(ancestors, object_roots, cursor_roots) is None,
        k < ancestors.len() && object_roots.contains(ancestors[k]) ==> nearest_brightness(
            ancestors,
            object_roots,
            cursor_roots,
        ) == Some(BrightnessSource::Object(ancestors[k])),
        k < ancestors.len() && !object_roots.contains(ancestors[k]) && cursor_roots.contains(
            ancestors[k],
        ) ==> nearest_brightness(ancestors, object_roots, cursor_roots) == Some(
            BrightnessSource::Cursor,
        ),
    decreases k,
{
    if k > 0 {
        let rest = ancestors.drop_first();
        assert(!object_roots.contains(ancestors[0]));
        assert forall|i: int| 0 <= i < k - 1 implies !object_roots.contains(#[trigger] rest[i])
            && !cursor_roots.contains(rest[i]) by {
            assert(rest[i] == ancestors[i + 1]);
        }
        nearest_roots_give_brightness(rest, object_roots, cursor_roots, k - 1);
        if k < ancestors.len() {
            assert(rest[k - 1] == ancestors[k]);
        }
    }
}

} // verus!
