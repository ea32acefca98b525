//! The border toggle: what is written to a window, and where the window is
//! put afterwards.

use vstd::prelude::*;
use crate::display::DisplayInfo;
use crate::style::{
    is_borderless, lemma_toggle_flips, spec_is_borderless, spec_toggled_style, toggled_style,
};

verus! {

/// Keep the current size.
pub const SWP_NOSIZE: u32 = 0x0001;

/// Keep the current position.
pub const SWP_NOMOVE: u32 = 0x0002;

/// Keep the current place in the stacking order.
pub const SWP_NOZORDER: u32 = 0x0004;

/// Do not activate the window.
pub const SWP_NOACTIVATE: u32 = 0x0010;

/// Tell the window that its frame changed.
pub const SWP_FRAMECHANGED: u32 = 0x0020;

/// Flags of a request that moves and resizes: frame changed, stacking order
/// kept, no activation.
pub const FILL_FLAGS: u32 = 0x0034;

/// Flags of a request that only announces the new frame: position, size and
/// stacking order kept, no activation.
pub const KEEP_FLAGS: u32 = 0x0037;

/// Where a window goes after its style was written.
#[derive(Debug, Clone, Copy, PartialEq, Eq, Structural)]
pub enum Placement {
    /// Position and size stay as they are.
    Keep,
    /// The window fills the given bounds.
    Fill { x: i32, y: i32, width: i32, height: i32 },
    /// The window fills the primary screen, whose size is still to be read.
    FillPrimary,
}

/// What a toggle does to a window.
#[derive(Debug, Clone, Copy, PartialEq, Eq, Structural)]
pub struct TogglePlan {
    /// The style bits to write.
    pub new_style: u32,
    /// Whether the toggle removes the decorations.
    pub to_borderless: bool,
    pub placement: Placement,
}

/// The arguments of the position request that ends a toggle.
#[derive(Debug, Clone, Copy, PartialEq, Eq, Structural)]
pub struct PositionRequest {
    pub x: i32,
    pub y: i32,
    pub width: i32,
    pub height: i32,
    pub flags: u32,
}

/// The bounds of `display` as a placement.
pub open spec fn fill_of(display: DisplayInfo) -> Placement {
    Placement::Fill {
        x: display.x,
        y: display.y,
        width: display.width,
        height: display.height,
    }
}

/// Where a toggle puts a window whose style was `current_style`: a window
/// that loses its decorations fills the target display, or the primary
/// screen where none is given, if the caller asked for a resize; every
/// other window stays where it is.
pub open spec fn spec_placement(
    current_style: u32,
    resize_to_screen: bool,
    target: Option<DisplayInfo>,
) -> Placement {
    if resize_to_screen && !spec_is_borderless(current_style) {
        match target {
            Some(display) => fill_of(display),
            None => Placement::FillPrimary,
        }
    } else {
        Placement::Keep
    }
}

/// The plan of a toggle on a window whose style is `current_style`.
pub open spec fn spec_plan(
    current_style: u32,
    resize_to_screen: bool,
    target: Option<DisplayInfo>,
) -> TogglePlan {
    TogglePlan {
        new_style: spec_toggled_style(current_style),
        to_borderless: !spec_is_borderless(current_style),
        placement: spec_placement(current_style, resize_to_screen, target),
    }
}

/// The position request for `placement` on a primary screen of the given
/// size.
pub open spec fn spec_request(
    placement: Placement,
    screen_width: i32,
    screen_height: i32,
) -> PositionRequest {
    match placement {
        Placement::Keep => PositionRequest { x: 0, y: 0, width: 0, height: 0, flags: KEEP_FLAGS },
        Placement::Fill { x, y, width, height } => PositionRequest {
            x,
            y,
            width,
            height,
            flags: FILL_FLAGS,
        },
        Placement::FillPrimary => PositionRequest {
            x: 0,
            y: 0,
            width: screen_width,
            height: screen_height,
            flags: FILL_FLAGS,
        },
    }
}

/// The display that a toggle resizes to: none unless a resize is asked for,
/// else the selected one, if the selection is in the list.
pub open spec fn spec_target(
    resize_to_screen: bool,
    selected: Option<usize>,
    displays: Seq<DisplayInfo>,
) -> Option<DisplayInfo> {
    if resize_to_screen && selected is Some && selected->0 < displays.len() {
        Some(displays[selected->0 as int])
    } else {
        None
    }
}

/// Picks the display that a toggle resizes to.
pub fn target_display(
    resize_to_screen: bool,
    selected: Option<usize>,
    displays: &Vec<DisplayInfo>,
) -> (target: Option<&DisplayInfo>)
    ensures
        match target {
            Some(display) => spec_target(resize_to_screen, selected, displays@) == Some(*display),
            None => spec_target(resize_to_screen, selected, displays@) is None,
        },
{
    if !resize_to_screen {
        return None;
    }
    match selected {
        Some(index) => if index < displays.len() {
            Some(&displays[index])
        } else {
            None
        },
        None => None,
    }
}

/// Plans a toggle of a window whose style is `current_style`.
pub fn plan_toggle(
    current_style: u32,
    resize_to_screen: bool,
    target: Option<&DisplayInfo>,
) -> (plan: TogglePlan)
    ensures
        plan == spec_plan(
            current_style,
            resize_to_screen,
            match target {
                Some(display) => Some(*display),
                None => None,
            },
        ),
{
    let to_borderless = !is_borderless(current_style);
    let placement = if resize_to_screen && to_borderless {
        match target {
            Some(display) => Placement::Fill {
                x: display.x,
                y: display.y,
                width: display.width,
                height: display.height,
            },
            None => Placement::FillPrimary,
        }
    } else {
        Placement::Keep
    };
    TogglePlan { new_style: toggled_style(current_style), to_borderless, placement }
}

/// Plans the step by which the auto-borderless policy makes a window
/// borderless, from the style that the window has now: the plan of a
/// toggle where the window is decorated, and nothing where it is
/// borderless already. So the policy never restores decorations.
pub fn plan_borderless(
    current_style: u32,
    resize_to_screen: bool,
    target: Option<&DisplayInfo>,
) -> (plan: Option<TogglePlan>)
    ensures
        plan is Some == !spec_is_borderless(current_style),
        plan is Some ==> plan->0 == spec_plan(
            current_style,
            resize_to_screen,
            match target {
                Some(display) => Some(*display),
                None => None,
            },
        ),
        plan is Some ==> plan->0.to_borderless && spec_is_borderless(plan->0.new_style),
{
    if is_borderless(current_style) {
        None
    } else {
        proof {
            lemma_toggle_flips(current_style);
        }
        Some(plan_toggle(current_style, resize_to_screen, target))
    }
}

/// One of the three steps of a toggle.
#[derive(Debug, Clone, Copy, PartialEq, Eq, Structural)]
pub enum ToggleStep {
    /// The style of the window is read.
    ReadStyle,
    /// The new style is written to the window.
    WriteStyle,
    /// The window is told of its new frame, and moved where the plan says.
    Position,
}

/// The result of a toggle whose steps ended as given: it succeeded if all
/// three did, else it failed at the first step that failed.
pub open spec fn spec_toggle_result(read_ok: bool, write_ok: bool, position_ok: bool) -> Result<
    (),
    ToggleStep,
> {
    if !read_ok {
        Err(ToggleStep::ReadStyle)
    } else if !write_ok {
        Err(ToggleStep::WriteStyle)
    } else if !position_ok {
        Err(ToggleStep::Position)
    } else {
        Ok(())
    }
}

/// Makes the result of a toggle from how its three steps ended: the style
/// read, the style write and the position call. The first failure
/// decides, so what is said of the steps after it does not matter.
pub fn toggle_result(read_ok: bool, write_ok: bool, position_ok: bool) -> (result: Result<
    (),
    ToggleStep,
>)
    ensures
        result == spec_toggle_result(read_ok, write_ok, position_ok),
        result is Ok == (read_ok && write_ok && position_ok),
{
    if !read_ok {
        Err(ToggleStep::ReadStyle)
    } else if !write_ok {
        Err(ToggleStep::WriteStyle)
    } else if !position_ok {
        Err(ToggleStep::Position)
    } else {
        Ok(())
    }
}

/// Tells whether a call that reads or writes a window's style succeeded,
/// from what it returned and the error code that the system holds after
/// it, which was cleared before the call: such a call returns zero when it
/// fails, and may return zero when it succeeds, but then leaves the error
/// code clear.
pub fn style_call_succeeded(returned: i32, last_error: u32) -> (ok: bool)
    ensures
        ok == (returned != 0 || last_error == 0),
{
    returned != 0 || last_error == 0
}

impl ToggleStep {
    /// What failed, in words.
    pub fn message(&self) -> (text: &'static str)
        ensures
            text@ == match *self {
                ToggleStep::ReadStyle => "Failed to read the window style"@,
                ToggleStep::WriteStyle => "Failed to write the window style"@,
                ToggleStep::Position => "Failed to place the window"@,
            },
    {
        match self {
            ToggleStep::ReadStyle => "Failed to read the window style",
            ToggleStep::WriteStyle => "Failed to write the window style",
            ToggleStep::Position => "Failed to place the window",
        }
    }
}

impl Placement {
    /// Tells whether the size of the primary screen must be read before the
    /// position request can be made.
    pub fn needs_screen_size(&self) -> (needed: bool)
        ensures
            needed == (*self == Placement::FillPrimary),
    {
        match self {
            Placement::FillPrimary => true,
            _ => false,
        }
    }

    /// Makes the position request for this placement. The screen size is
    /// read only by [`Placement::FillPrimary`].
    pub fn request(&self, screen_width: i32, screen_height: i32) -> (request: PositionRequest)
        ensures
            request == spec_request(*self, screen_width, screen_height),
    {
        match *self {
            Placement::Keep => PositionRequest {
                x: 0,
                y: 0,
                width: 0,
                height: 0,
                flags: KEEP_FLAGS,
            },
            Placement::Fill { x, y, width, height } => PositionRequest {
                x,
                y,
                width,
                height,
                flags: FILL_FLAGS,
            },
            Placement::FillPrimary => PositionRequest {
                x: 0,
                y: 0,
                width: screen_width,
                height: screen_height,
                flags: FILL_FLAGS,
            },
        }
    }
}

/// The two flag sets are the unions that their names say.
pub proof fn lemma_position_flags()
    ensures
        FILL_FLAGS == SWP_FRAMECHANGED | SWP_NOZORDER | SWP_NOACTIVATE,
        KEEP_FLAGS == SWP_FRAMECHANGED | SWP_NOMOVE | SWP_NOSIZE | SWP_NOZORDER | SWP_NOACTIVATE,
{
    assert(0x0034u32 == 0x0020u32 | 0x0004u32 | 0x0010u32) by (bit_vector);
    assert(0x0037u32 == 0x0020u32 | 0x0002u32 | 0x0001u32 | 0x0004u32 | 0x0010u32)
        by (bit_vector);
}

/// A toggle moves a window only when it removes the decorations, and
/// restoring them never moves it.
pub proof fn lemma_restore_keeps_geometry(
    current_style: u32,
    resize_to_screen: bool,
    target: Option<DisplayInfo>,
)
    ensures
        spec_is_borderless(current_style) ==> spec_placement(
            current_style,
            resize_to_screen,
            target,
        ) == Placement::Keep,
        !resize_to_screen ==> spec_placement(current_style, resize_to_screen, target)
            == Placement::Keep,
{
}

} // verus!
