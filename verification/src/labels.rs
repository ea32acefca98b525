//! The texts that the window shows: they follow from the window list and
//! the selection alone.

use vstd::prelude::*;
use vstd::string::*;
use crate::text::{decimal, decimal_digits, push_decimal, push_unsigned};
use crate::window::{window_label, WindowInfo};

verus! {

/// The text of the counter above the list: the number of windows, and
/// "window" in the singular for exactly one.
pub open spec fn spec_window_count_text(count: nat) -> Seq<char> {
    decimal_digits(count) + if count == 1 {
        " window found"@
    } else {
        " windows found"@
    }
}

/// The key under which the icon of the window `hwnd` is cached.
pub open spec fn spec_icon_cache_key(hwnd: isize) -> Seq<char> {
    "icon_"@ + decimal(hwnd as int)
}

/// The text of the selector: the label of the selected window, or an
/// invitation to select one where nothing in the list is selected.
pub open spec fn spec_selection_text(windows: Seq<WindowInfo>, selected: Option<usize>) -> Seq<
    char,
> {
    if selected is Some && selected->0 < windows.len() {
        window_label(
            windows[selected->0 as int].title@,
            windows[selected->0 as int].process_name@,
        )
    } else {
        "Select a window..."@
    }
}

/// The selected window is in the list and is borderless.
pub open spec fn selected_is_borderless(windows: Seq<WindowInfo>, selected: Option<usize>) -> bool {
    selected is Some && selected->0 < windows.len() && windows[selected->0 as int].is_borderless
}

/// Makes the text of the counter above the list.
pub fn window_count_text(count: usize) -> (text: String)
    ensures
        text@ == spec_window_count_text(count as nat),
{
    let mut text = String::new();
    push_unsigned(&mut text, count as u64);
    if count == 1 {
        text.append(" window found");
    } else {
        text.append(" windows found");
    }
    assert(text@ =~= spec_window_count_text(count as nat));
    text
}

/// Makes the key under which the icon of the window `hwnd` is cached.
pub fn icon_cache_key(hwnd: isize) -> (key: String)
    ensures
        key@ == spec_icon_cache_key(hwnd),
{
    let mut key = String::from_str("icon_");
    push_decimal(&mut key, hwnd as i64);
    key
}

/// Makes the text of the selector.
pub fn selection_text(windows: &[WindowInfo], selected: Option<usize>) -> (text: String)
    ensures
        text@ == spec_selection_text(windows@, selected),
{
    match selected {
        Some(index) => {
            if index < windows.len() {
                return windows[index].display_text();
            }
        },
        None => {},
    }
    String::from_str("Select a window...")
}

/// The text of the toggle button: it offers to restore the borders of a
/// selected borderless window, and to remove them in every other case.
pub fn action_text(windows: &[WindowInfo], selected: Option<usize>) -> (text: &'static str)
    ensures
        text@ == if selected_is_borderless(windows@, selected) {
            "Restore Borders"@
        } else {
            "Make Borderless"@
        },
{
    match selected {
        Some(index) => {
            if index < windows.len() && windows[index].is_borderless {
                return "Restore Borders";
            }
        },
        None => {},
    }
    "Make Borderless"
}

/// The mark in front of a list entry: `[B]` for a borderless window, `[W]`
/// for a decorated one.
pub fn status_text(is_borderless: bool) -> (text: &'static str)
    ensures
        text@ == if is_borderless {
            "[B]"@
        } else {
            "[W]"@
        },
{
    if is_borderless {
        "[B]"
    } else {
        "[W]"
    }
}

} // verus!
