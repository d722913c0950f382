//! What the status display shows, and the decisions of its refresh loop.
//!
//! The loop itself (receiving from channels, drawing, sleeping) runs outside
//! the library: each turn it polls the shutdown and update channels, hands the
//! results to [`UiState::step`], and performs the action that comes back.
use vstd::prelude::*;
use crate::framebuffer::{Color, LinePattern};

verus! {

/// How long the display loop waits between two redraws, in milliseconds.
pub const REFRESH_RATE: u64 = 1000;

/// The display level at which the full set of decorative bars is drawn.
pub const FULL_UI_LEVEL: u8 = 128;

/// Severity of an event reported by the analyzers.
#[derive(Copy, Clone, Debug, PartialEq, Eq, Structural)]
pub enum EventType {
    Informational,
    Low,
    Medium,
    High,
}

/// What the daemon reports to the display.
#[derive(Copy, Clone, Debug, PartialEq, Eq, Structural)]
pub enum DisplayState {
    Recording,
    Paused,
    WarningDetected { event_type: EventType },
}

/// The colour and pattern of the status line for a display state.
/// In colourblind mode blue takes the place of green.
pub open spec fn display_style(state: DisplayState, colorblind_mode: bool) -> (Color, LinePattern) {
    match state {
        DisplayState::Paused => (Color::White, LinePattern::Solid),
        DisplayState::Recording => if colorblind_mode {
            (Color::Blue, LinePattern::Solid)
        } else {
            (Color::Green, LinePattern::Solid)
        },
        DisplayState::WarningDetected { event_type } => match event_type {
            EventType::Informational => if colorblind_mode {
                (Color::Blue, LinePattern::Solid)
            } else {
                (Color::Green, LinePattern::Solid)
            },
            EventType::Low => (Color::Yellow, LinePattern::Dotted),
            EventType::Medium => (Color::Orange, LinePattern::Dashed),
            EventType::High => (Color::Red, LinePattern::Solid),
        },
    }
}

/// The colour and pattern of the status line for `state`.
pub fn display_style_from_state(state: DisplayState, colorblind_mode: bool) -> (style: (
    Color,
    LinePattern,
))
    ensures
        style == display_style(state, colorblind_mode),
{
    match state {
        DisplayState::Paused => (Color::White, LinePattern::Solid),
        DisplayState::Recording => {
            if colorblind_mode {
                (Color::Blue, LinePattern::Solid)
            } else {
                (Color::Green, LinePattern::Solid)
            }
        },
        DisplayState::WarningDetected { event_type } => match event_type {
            EventType::Informational => {
                if colorblind_mode {
                    (Color::Blue, LinePattern::Solid)
                } else {
                    (Color::Green, LinePattern::Solid)
                }
            },
            EventType::Low => (Color::Yellow, LinePattern::Dotted),
            EventType::Medium => (Color::Orange, LinePattern::Dashed),
            EventType::High => (Color::Red, LinePattern::Solid),
        },
    }
}

/// The status line per display state: paused is solid white; recording and
/// informational events are solid green, or solid blue in colourblind mode;
/// a low warning is dotted yellow, a medium one dashed orange and a high one
/// solid red, in either mode.
pub proof fn lemma_status_styles(colorblind_mode: bool)
    ensures
        display_style(DisplayState::Paused, colorblind_mode) == (Color::White, LinePattern::Solid),
        display_style(DisplayState::Recording, colorblind_mode) == (if colorblind_mode {
            (Color::Blue, LinePattern::Solid)
        } else {
            (Color::Green, LinePattern::Solid)
        }),
        display_style(
            DisplayState::WarningDetected { event_type: EventType::Informational },
            colorblind_mode,
        ) == display_style(DisplayState::Recording, colorblind_mode),
        display_style(DisplayState::WarningDetected { event_type: EventType::Low }, colorblind_mode)
            == (Color::Yellow, LinePattern::Dotted),
        display_style(DisplayState::WarningDetected { event_type: EventType::Medium }, colorblind_mode)
            == (Color::Orange, LinePattern::Dashed),
        display_style(DisplayState::WarningDetected { event_type: EventType::High }, colorblind_mode)
            == (Color::Red, LinePattern::Solid),
{
}

/// In colourblind mode the status line is never green: it shows what the
/// ordinary mode shows, with blue in place of green.
pub proof fn lemma_colorblind_replaces_green(state: DisplayState)
    ensures
        display_style(state, true).0 != Color::Green,
        display_style(state, true) == (if display_style(state, false).0 == Color::Green {
            (Color::Blue, display_style(state, false).1)
        } else {
            display_style(state, false)
        }),
{
}

/// A warning of severity low, medium or high shows a status line that no
/// other display state shows, in either mode.
pub proof fn lemma_warnings_distinguishable(
    severity: EventType,
    other: DisplayState,
    colorblind_mode: bool,
)
    requires
        severity != EventType::Informational,
        other != (DisplayState::WarningDetected { event_type: severity }),
    ensures
        display_style(DisplayState::WarningDetected { event_type: severity }, colorblind_mode)
            != display_style(other, colorblind_mode),
{
}

/// What a poll of the shutdown channel found.
#[derive(Copy, Clone, Debug, PartialEq, Eq, Structural)]
pub enum ShutdownPoll {
    /// A shutdown was requested.
    Requested,
    /// Nothing was sent yet.
    Empty,
    /// The sender is gone without sending.
    Closed,
}

/// What a poll of the display-state update channel found.
#[derive(Copy, Clone, Debug, PartialEq, Eq, Structural)]
pub enum UpdatePoll {
    /// A new display state arrived.
    State(DisplayState),
    /// No new state is waiting.
    Empty,
    /// All senders are gone.
    Disconnected,
}

/// One line drawn in a frame.
#[derive(Copy, Clone, Debug, PartialEq, Eq, Structural)]
pub enum LineDraw {
    /// `draw_line(color, height)`.
    Solid(Color, u32),
    /// `draw_patterned_line(color, height, pattern)`.
    Patterned(Color, u32, LinePattern),
}

/// What the display loop does after a poll.
pub enum UiAction {
    /// Stop the loop: a shutdown was requested.
    Exit,
    /// The shutdown channel closed without a request: the loop cannot go on.
    ShutdownChannelClosed,
    /// Draw `lines` in order, then wait [`REFRESH_RATE`] milliseconds.
    /// `update_channel_lost` says that the update channel was found disconnected,
    /// which is reported and otherwise ignored.
    Draw { lines: Vec<LineDraw>, update_channel_lost: bool },
}

/// The lines of one frame: the decorative bars at the full display level,
/// then the status line, two rows high, in the current style.
pub open spec fn frame_lines(display_level: u8, style: (Color, LinePattern)) -> Seq<LineDraw> {
    let status = LineDraw::Patterned(style.0, 2, style.1);
    if display_level == FULL_UI_LEVEL {
        seq![
            LineDraw::Solid(Color::Cyan, 128),
            LineDraw::Solid(Color::Pink, 102),
            LineDraw::Solid(Color::White, 76),
            LineDraw::Solid(Color::Pink, 50),
            LineDraw::Solid(Color::Cyan, 25),
            status,
        ]
    } else {
        seq![status]
    }
}

/// Every frame ends with the status line, two rows high, in the current
/// style, whatever the level. At the full level it is preceded by five solid
/// bars: cyan 128 rows, pink 102, white 76, pink 50 and cyan 25; at any other
/// level it is the only line.
pub proof fn lemma_frame_layout(display_level: u8, style: (Color, LinePattern))
    ensures
        frame_lines(display_level, style).len() > 0,
        frame_lines(display_level, style).last() == LineDraw::Patterned(style.0, 2, style.1),
        display_level == FULL_UI_LEVEL ==> frame_lines(display_level, style).len() == 6,
        display_level == FULL_UI_LEVEL ==> frame_lines(display_level, style)[0] == LineDraw::Solid(Color::Cyan, 128),
        display_level == FULL_UI_LEVEL ==> frame_lines(display_level, style)[1] == LineDraw::Solid(Color::Pink, 102),
        display_level == FULL_UI_LEVEL ==> frame_lines(display_level, style)[2] == LineDraw::Solid(Color::White, 76),
        display_level == FULL_UI_LEVEL ==> frame_lines(display_level, style)[3] == LineDraw::Solid(Color::Pink, 50),
        display_level == FULL_UI_LEVEL ==> frame_lines(display_level, style)[4] == LineDraw::Solid(Color::Cyan, 25),
        display_level != FULL_UI_LEVEL ==> frame_lines(display_level, style).len() == 1,
        forall|other: u8|
            #![trigger frame_lines(other, style)]
            other != FULL_UI_LEVEL && display_level != FULL_UI_LEVEL ==> frame_lines(other, style)
                == frame_lines(display_level, style),
{
}

/// The style after a poll of the update channel: a new state restyles the
/// status line, anything else keeps the style.
pub open spec fn next_style(style: (Color, LinePattern), colorblind_mode: bool, update: UpdatePoll) -> (
    Color,
    LinePattern,
) {
    match update {
        UpdatePoll::State(state) => display_style(state, colorblind_mode),
        _ => style,
    }
}

/// The state of the display loop.
pub struct UiState {
    /// Level of detail: [`FULL_UI_LEVEL`] draws the decorative bars, any other
    /// level only the status line.
    pub display_level: u8,
    pub colorblind_mode: bool,
    /// Colour and pattern of the status line.
    pub style: (Color, LinePattern),
}

impl UiState {
    /// The loop's state before the first poll: the status line shows `Recording`.
    pub fn new(display_level: u8, colorblind_mode: bool) -> (s: UiState)
        ensures
            s.display_level == display_level,
            s.colorblind_mode == colorblind_mode,
            s.style == display_style(DisplayState::Recording, colorblind_mode),
    {
        let style = display_style_from_state(DisplayState::Recording, colorblind_mode);
        UiState { display_level, colorblind_mode, style }
    }

    /// The lines of a frame in the current state.
    pub fn frame(&self) -> (lines: Vec<LineDraw>)
        ensures
            lines@ == frame_lines(self.display_level, self.style),
    {
        let status = LineDraw::Patterned(self.style.0, 2, self.style.1);
        if self.display_level == FULL_UI_LEVEL {
            vec![
                LineDraw::Solid(Color::Cyan, 128),
                LineDraw::Solid(Color::Pink, 102),
                LineDraw::Solid(Color::White, 76),
                LineDraw::Solid(Color::Pink, 50),
                LineDraw::Solid(Color::Cyan, 25),
                status,
            ]
        } else {
            vec![status]
        }
    }

    /// One turn of the display loop, from what the two polls found.
    /// The shutdown channel is looked at first: a request ends the loop and a
    /// closed channel fails it, whatever the update channel holds. Otherwise a
    /// new display state restyles the status line and the frame is drawn.
    pub fn step(&mut self, shutdown: ShutdownPoll, update: UpdatePoll) -> (action: UiAction)
        ensures
            final(self).display_level == old(self).display_level,
            final(self).colorblind_mode == old(self).colorblind_mode,
            shutdown == ShutdownPoll::Requested ==> action is Exit,
            shutdown == ShutdownPoll::Closed ==> action is ShutdownChannelClosed,
            shutdown != ShutdownPoll::Empty ==> final(self).style == old(self).style,
            shutdown == ShutdownPoll::Empty ==> {
                &&& final(self).style == next_style(
                    old(self).style,
                    old(self).colorblind_mode,
                    update,
                )
                &&& action matches UiAction::Draw { lines, update_channel_lost }
                &&& lines@ == frame_lines(final(self).display_level, final(self).style)
                &&& update_channel_lost == (update == UpdatePoll::Disconnected)
            },
    {
        match shutdown {
            ShutdownPoll::Requested => UiAction::Exit,
            ShutdownPoll::Closed => UiAction::ShutdownChannelClosed,
            ShutdownPoll::Empty => {
                let mut update_channel_lost = false;
                match update {
                    UpdatePoll::State(state) => {
                        self.style = display_style_from_state(state, self.colorblind_mode);
                    },
                    UpdatePoll::Empty => {},
                    UpdatePoll::Disconnected => {
                        update_channel_lost = true;
                    },
                }
                let lines = self.frame();
                UiAction::Draw { lines, update_channel_lost }
            },
        }
    }
}

/// The style of the status line after the display loop has taken the update
/// polls `updates`, in order, with no shutdown pending: the style of the last
/// state received, or of `Recording` while none has been received.
pub open spec fn style_after_updates(colorblind_mode: bool, updates: Seq<UpdatePoll>) -> (
    Color,
    LinePattern,
)
    decreases updates.len(),
{
    if updates.len() == 0 {
        display_style(DisplayState::Recording, colorblind_mode)
    } else {
        match updates.last() {
            UpdatePoll::State(state) => display_style(state, colorblind_mode),
            _ => style_after_updates(colorblind_mode, updates.drop_last()),
        }
    }
}

/// The style after a run of update polls, poll by poll: `Recording` before
/// any poll; a poll that brings a state shows that state; any other poll keeps
/// the style.
pub proof fn lemma_style_after_updates_push(
    colorblind_mode: bool,
    updates: Seq<UpdatePoll>,
    update: UpdatePoll,
)
    ensures
        style_after_updates(colorblind_mode, Seq::empty()) == display_style(
            DisplayState::Recording,
            colorblind_mode,
        ),
        update is State ==> style_after_updates(colorblind_mode, updates.push(update))
            == display_style(update->0, colorblind_mode),
        !(update is State) ==> style_after_updates(colorblind_mode, updates.push(update))
            == style_after_updates(colorblind_mode, updates),
{
    assert(updates.push(update).drop_last() =~= updates);
}

/// Over many turns of the display loop the status line follows the last
/// display state received: before any state it shows `Recording`, and after
/// the polls `updates[0..k]` it shows the style of the last state among them.
///
/// `turns[k]` is the loop's state after `k` turns: `turns[0]` is what
/// `UiState::new` returns, and `turns[k + 1]` is what `UiState::step` leaves
/// from `turns[k]` when no shutdown is pending and the update poll finds
/// `updates[k]`. Frame `k + 1` then draws `frame_lines` of `turns[k + 1]`.
pub proof fn lemma_status_line_follows_last_state(
    colorblind_mode: bool,
    updates: Seq<UpdatePoll>,
    turns: Seq<UiState>,
)
    requires
        turns.len() == updates.len() + 1,
        turns[0].colorblind_mode == colorblind_mode,
        turns[0].style == display_style(DisplayState::Recording, colorblind_mode),
        forall|k: int|
            0 <= k < updates.len() ==> {
                &&& #[trigger] turns[k + 1].style == next_style(
                    turns[k].style,
                    turns[k].colorblind_mode,
                    updates[k],
                )
                &&& turns[k + 1].colorblind_mode == turns[k].colorblind_mode
                &&& turns[k + 1].display_level == turns[k].display_level
            },
    ensures
        forall|k: int| #![trigger turns[k]]
            0 <= k < turns.len() ==> {
                &&& turns[k].colorblind_mode == colorblind_mode
                &&& turns[k].display_level == turns[0].display_level
                &&& turns[k].style == style_after_updates(colorblind_mode, updates.take(k))
                &&& frame_lines(turns[k].display_level, turns[k].style) == frame_lines(
                    turns[0].display_level,
                    style_after_updates(colorblind_mode, updates.take(k)),
                )
            },
    decreases updates.len(),
{
    if updates.len() > 0 {
        let n = updates.len() - 1;
        assert forall|k: int| 0 <= k < n implies {
            &&& #[trigger] turns.take(n + 1)[k + 1].style == next_style(
                turns.take(n + 1)[k].style,
                turns.take(n + 1)[k].colorblind_mode,
                updates.take(n)[k],
            )
            &&& turns.take(n + 1)[k + 1].colorblind_mode == turns.take(n + 1)[k].colorblind_mode
            &&& turns.take(n + 1)[k + 1].display_level == turns.take(n + 1)[k].display_level
        } by {
            assert(turns[k + 1].style == next_style(turns[k].style, turns[k].colorblind_mode, updates[k]));
        }
        lemma_status_line_follows_last_state(
            colorblind_mode,
            updates.take(n),
            turns.take(n + 1),
        );
        assert forall|k: int| #![trigger turns[k]] 0 <= k < turns.len() implies {
            &&& turns[k].colorblind_mode == colorblind_mode
            &&& turns[k].display_level == turns[0].display_level
            &&& turns[k].style == style_after_updates(colorblind_mode, updates.take(k))
            &&& frame_lines(turns[k].display_level, turns[k].style) == frame_lines(
                turns[0].display_level,
                style_after_updates(colorblind_mode, updates.take(k)),
            )
        } by {
            let t = turns.take(n + 1);
            let u = updates.take(n);
            assert(t[0] == turns[0]);
            if k <= n {
                assert(t[k] == turns[k]);
                assert(u.take(k) =~= updates.take(k));
                assert(t[k].style == style_after_updates(colorblind_mode, u.take(k)));
            } else {
                assert(t[n] == turns[n]);
                assert(u.take(n) =~= u);
                assert(t[n].style == style_after_updates(colorblind_mode, u.take(n)));
                assert(t[n].colorblind_mode == colorblind_mode);
                assert(t[n].display_level == turns[0].display_level);
                assert(updates.take(k).drop_last() =~= u);
                assert(updates.take(k).last() == updates[n]);
                assert(turns[n + 1].style == next_style(
                    turns[n].style,
                    turns[n].colorblind_mode,
                    updates[n],
                ));
                assert(updates.take(k).len() > 0);
            }
        }
    } else {
        assert(updates.take(0) =~= Seq::<UpdatePoll>::empty());
        assert(turns[0].style == style_after_updates(colorblind_mode, updates.take(0)));
        assert forall|k: int| #![trigger turns[k]] 0 <= k < turns.len() implies {
            &&& turns[k].colorblind_mode == colorblind_mode
            &&& turns[k].display_level == turns[0].display_level
            &&& turns[k].style == style_after_updates(colorblind_mode, updates.take(k))
            &&& frame_lines(turns[k].display_level, turns[k].style) == frame_lines(
                turns[0].display_level,
                style_after_updates(colorblind_mode, updates.take(k)),
            )
        } by {
            assert(k == 0);
        }
    }
}

} // verus!
