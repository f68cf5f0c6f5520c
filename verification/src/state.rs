//! The explorer's control state and its reaction to input events.
//!
//! A single-threaded control loop owns one `ExplorerState`, feeds each
//! input event through `handle_event`, and redraws when the event asks
//! for it. The iteration cap moves in fixed steps and never drops below
//! its floor; the variant index cycles with wraparound; resetting the
//! viewport redraws only when it actually changes something; a resize
//! redraws only when the reported size differs from the last rendered
//! one.

use crate::kernel::FractalVariant;
use crate::viewport::{default_viewport, spec_default_viewport, Viewport};
use vstd::prelude::*;

verus! {

/// Fixed step by which the iteration cap moves.
pub const CAP_STEP: u32 = 10;

/// The floor the iteration cap never drops below.
pub const CAP_MIN: u32 = 10;

/// The iteration cap at program start.
pub const CAP_DEFAULT: u32 = 100;

/// Number of fractal variants to cycle through.
pub const VARIANT_COUNT: u8 = 3;

/// One abstract input event, as the unverified shell reports it.
#[derive(Clone, Copy, PartialEq, Eq, Structural, Debug)]
pub enum InputEvent {
    Quit,
    PanUp,
    PanDown,
    PanLeft,
    PanRight,
    ZoomIn,
    ZoomOut,
    Redraw,
    IncreaseCap,
    DecreaseCap,
    NextVariant,
    PrevVariant,
    Reset,
    Resize(u16, u16),
}

/// Everything the control loop owns between two events.
#[derive(Clone, Copy, PartialEq, Eq, Structural, Debug)]
pub struct ExplorerState {
    pub viewport: Viewport,
    pub max_iterations: u32,
    pub variant_index: u8,
    pub last_width: u16,
    pub last_height: u16,
}

impl ExplorerState {
    /// A usable state: viewport well-formed, cap at or above its
    /// floor, variant index within the variant list.
    pub open spec fn wf(self) -> bool {
        self.viewport.wf() && self.max_iterations >= CAP_MIN && self.variant_index < VARIANT_COUNT
    }

    /// The variant its index selects.
    pub open spec fn spec_variant(self) -> FractalVariant {
        if self.variant_index == 0 {
            FractalVariant::Mandelbrot
        } else if self.variant_index == 1 {
            FractalVariant::BurningShip
        } else {
            FractalVariant::Julia
        }
    }

    /// Look up the selected variant.
    pub fn variant(&self) -> (v: FractalVariant)
        ensures
            v == self.spec_variant(),
    {
        if self.variant_index == 0 {
            FractalVariant::Mandelbrot
        } else if self.variant_index == 1 {
            FractalVariant::BurningShip
        } else {
            FractalVariant::Julia
        }
    }
}

/// The state at program start.
pub open spec fn spec_initial_state() -> ExplorerState {
    ExplorerState {
        viewport: spec_default_viewport(),
        max_iterations: CAP_DEFAULT,
        variant_index: 0,
        last_width: 0,
        last_height: 0,
    }
}

/// Build the state at program start.
pub fn initial_state() -> (s: ExplorerState)
    ensures
        s == spec_initial_state(),
        s.wf(),
{
    ExplorerState {
        viewport: default_viewport(),
        max_iterations: CAP_DEFAULT,
        variant_index: 0,
        last_width: 0,
        last_height: 0,
    }
}

/// The cap one increase step up; unchanged when the step does not fit
/// the integer.
pub open spec fn spec_increase_cap(cap: u32) -> u32 {
    if cap + CAP_STEP <= u32::MAX {
        (cap + CAP_STEP) as u32
    } else {
        cap
    }
}

/// The cap one decrease step down; unchanged when that would drop it
/// below the floor.
pub open spec fn spec_decrease_cap(cap: u32) -> u32 {
    if cap >= CAP_MIN + CAP_STEP {
        (cap - CAP_STEP) as u32
    } else {
        cap
    }
}

/// The variant index after cycling forward, wrapping past the end.
pub open spec fn spec_next_variant(i: u8) -> u8 {
    if i >= VARIANT_COUNT - 1 {
        0
    } else {
        (i + 1) as u8
    }
}

/// The variant index after cycling backward, wrapping below zero.
pub open spec fn spec_prev_variant(i: u8) -> u8 {
    if i == 0 {
        (VARIANT_COUNT - 1) as u8
    } else {
        (i - 1) as u8
    }
}

/// The state after one event, and whether the event asks for a redraw.
pub open spec fn spec_handle(s: ExplorerState, ev: InputEvent) -> (ExplorerState, bool) {
    match ev {
        InputEvent::Quit => (s, false),
        InputEvent::PanUp => (ExplorerState { viewport: s.viewport.pan_up_spec(), ..s }, true),
        InputEvent::PanDown => (ExplorerState { viewport: s.viewport.pan_down_spec(), ..s }, true),
        InputEvent::PanLeft => (ExplorerState { viewport: s.viewport.pan_left_spec(), ..s }, true),
        InputEvent::PanRight => (
            ExplorerState { viewport: s.viewport.pan_right_spec(), ..s },
            true,
        ),
        InputEvent::ZoomIn => (ExplorerState { viewport: s.viewport.zoom_in_spec(), ..s }, true),
        InputEvent::ZoomOut => (ExplorerState { viewport: s.viewport.zoom_out_spec(), ..s }, true),
        InputEvent::Redraw => (s, true),
        InputEvent::IncreaseCap => (
            ExplorerState { max_iterations: spec_increase_cap(s.max_iterations), ..s },
            true,
        ),
        InputEvent::DecreaseCap => (
            ExplorerState { max_iterations: spec_decrease_cap(s.max_iterations), ..s },
            s.max_iterations >= CAP_MIN + CAP_STEP,
        ),
        InputEvent::NextVariant => (
            ExplorerState { variant_index: spec_next_variant(s.variant_index), ..s },
            true,
        ),
        InputEvent::PrevVariant => (
            ExplorerState { variant_index: spec_prev_variant(s.variant_index), ..s },
            true,
        ),
        InputEvent::Reset => {
            if s.viewport == spec_default_viewport() {
                (s, false)
            } else {
                (ExplorerState { viewport: spec_default_viewport(), ..s }, true)
            }
        },
        InputEvent::Resize(w, h) => (s, w != s.last_width || h != s.last_height),
    }
}

/// Apply one input event to the state; returns whether to redraw.
pub fn handle_event(state: &mut ExplorerState, ev: InputEvent) -> (redraw: bool)
    requires
        old(state).wf(),
    ensures
        *final(state) == spec_handle(*old(state), ev).0,
        redraw == spec_handle(*old(state), ev).1,
        final(state).wf(),
{
    match ev {
        InputEvent::Quit => false,
        InputEvent::PanUp => {
            state.viewport.pan_up();
            true
        },
        InputEvent::PanDown => {
            state.viewport.pan_down();
            true
        },
        InputEvent::PanLeft => {
            state.viewport.pan_left();
            true
        },
        InputEvent::PanRight => {
            state.viewport.pan_right();
            true
        },
        InputEvent::ZoomIn => {
            state.viewport.zoom_in();
            true
        },
        InputEvent::ZoomOut => {
            state.viewport.zoom_out();
            true
        },
        InputEvent::Redraw => true,
        InputEvent::IncreaseCap => {
            if state.max_iterations <= u32::MAX - CAP_STEP {
                state.max_iterations = state.max_iterations + CAP_STEP;
            }
            true
        },
        InputEvent::DecreaseCap => {
            if state.max_iterations >= CAP_MIN + CAP_STEP {
                state.max_iterations = state.max_iterations - CAP_STEP;
                true
            } else {
                false
            }
        },
        InputEvent::NextVariant => {
            if state.variant_index >= VARIANT_COUNT - 1 {
                state.variant_index = 0;
            } else {
                state.variant_index = state.variant_index + 1;
            }
            true
        },
        InputEvent::PrevVariant => {
            if state.variant_index == 0 {
                state.variant_index = VARIANT_COUNT - 1;
            } else {
                state.variant_index = state.variant_index - 1;
            }
            true
        },
        InputEvent::Reset => {
            let def = default_viewport();
            if state.viewport == def {
                false
            } else {
                state.viewport = def;
                true
            }
        },
        InputEvent::Resize(w, h) => w != state.last_width || h != state.last_height,
    }
}

/// Remember the size a frame was just rendered at.
pub fn record_rendered(state: &mut ExplorerState, width: u16, height: u16)
    ensures
        *final(state) == (ExplorerState { last_width: width, last_height: height, ..*old(state) }),
{
    state.last_width = width;
    state.last_height = height;
}

/// Cycling backward from index 0 wraps to the last variant; cycling
/// forward from the last wraps back to 0.
pub proof fn lemma_variant_cycle_wraps(s: ExplorerState)
    requires
        s.wf(),
    ensures
        s.variant_index == 0 ==> spec_handle(s, InputEvent::PrevVariant).0.variant_index
            == VARIANT_COUNT - 1,
        s.variant_index == VARIANT_COUNT - 1 ==> spec_handle(
            s,
            InputEvent::NextVariant,
        ).0.variant_index == 0,
{
}

/// Decreasing the cap never takes it below its floor, and a decrease
/// that would is rejected outright.
pub proof fn lemma_cap_floor(s: ExplorerState)
    requires
        s.wf(),
    ensures
        spec_handle(s, InputEvent::DecreaseCap).0.max_iterations >= CAP_MIN,
        s.max_iterations - CAP_STEP < CAP_MIN ==> spec_handle(
            s,
            InputEvent::DecreaseCap,
        ).0.max_iterations == s.max_iterations,
{
}

} // verus!
