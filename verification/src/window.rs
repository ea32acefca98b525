//! Top-level windows: which ones are listed, what is recorded of each, and
//! the order of the list.

use vstd::prelude::*;
use vstd::string::*;
use crate::icon::ICON_BYTES;
use crate::sort::{stable_sort, stable_sort_of, Ranked};
use crate::style::{is_borderless, spec_is_borderless};
use crate::text::{
    blank, has_prefix, is_blank, lemma_text_le_total, lemma_text_le_transitive, lowercase,
    same_text, starts_with, text_le, text_precedes, truncate_for_display, truncated,
};

verus! {

/// Longest title shown in full.
pub const MAX_TITLE_LEN: usize = 30;

/// Longest process name shown in full.
pub const MAX_PROCESS_LEN: usize = 15;

/// Title and process name of the application itself, which is never listed.
pub open spec fn host_name() -> Seq<char> {
    "ihateborders"@
}

/// Beginning of the title of the desktop shell's window.
pub open spec fn shell_title_prefix() -> Seq<char> {
    "Program Manager"@
}

/// Process name recorded when the owner of a window cannot be found.
pub open spec fn unknown_process() -> Seq<char> {
    "Unknown"@
}

/// A title under which a window is listed: not blank, not the desktop
/// shell's, not the application's own.
pub open spec fn title_listed(title: Seq<char>) -> bool {
    &&& !blank(title)
    &&& !has_prefix(title, shell_title_prefix())
    &&& title != host_name()
}

/// The name recorded for a window's owner: the one found, or the
/// placeholder.
pub open spec fn resolved_process(found: Option<Seq<char>>) -> Seq<char> {
    match found {
        Some(name) => name,
        None => unknown_process(),
    }
}

/// One window as contracts speak of it.
pub struct WindowView {
    pub hwnd: int,
    pub title: Seq<char>,
    pub process_name: Seq<char>,
    pub is_borderless: bool,
    pub icon_data: Option<Seq<u8>>,
}

/// One listed window, as it was when the list was made. `is_borderless` is a
/// snapshot: the window itself may have changed since.
#[derive(Debug, Clone)]
pub struct WindowInfo {
    pub hwnd: isize,
    pub title: String,
    pub process_name: String,
    pub is_borderless: bool,
    pub icon_data: Option<Vec<u8>>,
}

/// What was read of one top-level window, before it is decided whether the
/// window is listed.
#[derive(Debug, Clone)]
pub struct RawWindow {
    pub hwnd: isize,
    pub visible: bool,
    pub title: String,
    /// Name of the owning process, if it was found.
    pub process_name: Option<String>,
    /// The window's style bits.
    pub style: u32,
    pub icon_data: Option<Vec<u8>>,
}

/// One raw window as contracts speak of it.
pub struct RawWindowView {
    pub hwnd: int,
    pub visible: bool,
    pub title: Seq<char>,
    pub process_name: Option<Seq<char>>,
    pub style: u32,
    pub icon_data: Option<Seq<u8>>,
}

pub open spec fn bytes_view(data: Option<Vec<u8>>) -> Option<Seq<u8>> {
    match data {
        Some(bytes) => Some(bytes@),
        None => None,
    }
}

pub open spec fn name_view(name: Option<String>) -> Option<Seq<char>> {
    match name {
        Some(text) => Some(text@),
        None => None,
    }
}

impl View for WindowInfo {
    type V = WindowView;

    open spec fn view(&self) -> WindowView {
        WindowView {
            hwnd: self.hwnd as int,
            title: self.title@,
            process_name: self.process_name@,
            is_borderless: self.is_borderless,
            icon_data: bytes_view(self.icon_data),
        }
    }
}

impl View for RawWindow {
    type V = RawWindowView;

    open spec fn view(&self) -> RawWindowView {
        RawWindowView {
            hwnd: self.hwnd as int,
            visible: self.visible,
            title: self.title@,
            process_name: name_view(self.process_name),
            style: self.style,
            icon_data: bytes_view(self.icon_data),
        }
    }
}

/// `window` with the recorded decoration state flipped.
pub open spec fn flipped(window: WindowInfo) -> WindowInfo {
    WindowInfo {
        hwnd: window.hwnd,
        title: window.title,
        process_name: window.process_name,
        is_borderless: !window.is_borderless,
        icon_data: window.icon_data,
    }
}

/// A raw window whose owner's name reads `lowered_process` in lowercase is
/// listed when it is visible, its title is one under which windows are
/// listed, and that name is not the application's own.
pub open spec fn listed_as(raw: RawWindowView, lowered_process: Seq<char>) -> bool {
    &&& raw.visible
    &&& title_listed(raw.title)
    &&& lowered_process != host_name()
}

/// A raw window is listed when it is visible, its title is one under which
/// windows are listed, and its owner is not the application itself.
pub open spec fn listed(raw: RawWindowView) -> bool {
    listed_as(raw, lowercase(resolved_process(raw.process_name)))
}

/// The icon that an entry keeps: a bitmap of the full size, and no other.
pub open spec fn kept_icon(icon_data: Option<Seq<u8>>) -> Option<Seq<u8>> {
    if icon_data is Some && icon_data->0.len() == ICON_BYTES {
        icon_data
    } else {
        None
    }
}

/// The entry made for a listed raw window.
pub open spec fn entry_of(raw: RawWindowView) -> WindowView {
    WindowView {
        hwnd: raw.hwnd,
        title: raw.title,
        process_name: resolved_process(raw.process_name),
        is_borderless: spec_is_borderless(raw.style),
        icon_data: kept_icon(raw.icon_data),
    }
}

/// The entry for `raw`, if it is listed.
pub open spec fn listing(raw: RawWindowView) -> Option<WindowView> {
    if listed(raw) {
        Some(entry_of(raw))
    } else {
        None
    }
}

/// The label of a window: title and process name, each shortened to its
/// limit, the process name in parentheses.
pub open spec fn window_label(title: Seq<char>, process_name: Seq<char>) -> Seq<char> {
    truncated(title, MAX_TITLE_LEN as nat) + seq![' ', '('] + truncated(
        process_name,
        MAX_PROCESS_LEN as nat,
    ) + seq![')']
}

/// Tells whether a window with this title is listed.
pub fn title_is_listed(title: &str) -> (ok: bool)
    ensures
        ok == title_listed(title@),
{
    !is_blank(title) && !starts_with(title, "Program Manager") && !same_text(title, "ihateborders")
}

/// Tells whether an already lowercased process name is the application's
/// own.
pub fn is_host_name(lowered: &str) -> (host: bool)
    ensures
        host == (lowered@ == host_name()),
{
    same_text(lowered, "ihateborders")
}

/// The process name to record: the one found, or `Unknown`.
pub fn resolve_process_name(found: Option<String>) -> (name: String)
    ensures
        name@ == resolved_process(name_view(found)),
{
    match found {
        Some(name) => name,
        None => String::from_str("Unknown"),
    }
}

impl WindowInfo {
    /// Makes the entry for a raw window, or `None` when the window is not
    /// listed. An icon that is not a bitmap of the full size is left out.
    pub fn from_raw(raw: RawWindow) -> (entry: Option<WindowInfo>)
        ensures
            entry is Some == listed(raw@),
            entry is Some ==> entry->0@ == entry_of(raw@),
            entry is Some && entry->0@.icon_data is Some ==> entry->0@.icon_data->0.len()
                == ICON_BYTES,
    {
        let lowered = match &raw.process_name {
            Some(name) => name.as_str().to_lowercase(),
            None => "Unknown".to_lowercase(),
        };
        WindowInfo::from_raw_lowered(raw, lowered.as_str())
    }

    /// Makes the entry for a raw window whose owner's name reads
    /// `lowered_process` in lowercase, or `None` when the window is not
    /// listed. An icon that is not a bitmap of the full size is left out.
    pub fn from_raw_lowered(raw: RawWindow, lowered_process: &str) -> (entry: Option<WindowInfo>)
        ensures
            entry is Some == listed_as(raw@, lowered_process@),
            entry is Some ==> entry->0@ == entry_of(raw@),
            entry is Some && entry->0@.icon_data is Some ==> entry->0@.icon_data->0.len()
                == ICON_BYTES,
    {
        if !raw.visible || !title_is_listed(raw.title.as_str()) || is_host_name(lowered_process) {
            return None;
        }
        let icon_data = match raw.icon_data {
            Some(bytes) => if bytes.len() == ICON_BYTES {
                Some(bytes)
            } else {
                None
            },
            None => None,
        };
        Some(
            WindowInfo {
                hwnd: raw.hwnd,
                title: raw.title,
                process_name: resolve_process_name(raw.process_name),
                is_borderless: is_borderless(raw.style),
                icon_data,
            },
        )
    }

    /// The label under which the window is shown.
    pub fn display_text(&self) -> (text: String)
        ensures
            text@ == window_label(self.title@, self.process_name@),
    {
        let mut text = truncate_for_display(self.title.as_str(), MAX_TITLE_LEN);
        let process = truncate_for_display(self.process_name.as_str(), MAX_PROCESS_LEN);
        proof {
            reveal_strlit(" (");
            reveal_strlit(")");
        }
        text.append(" (");
        text.append(process.as_str());
        text.append(")");
        assert(text@ =~= window_label(self.title@, self.process_name@));
        text
    }

    /// Tells whether the window carries an icon bitmap of the right size.
    pub fn has_icon(&self) -> (ok: bool)
        ensures
            ok == (self@.icon_data is Some && self@.icon_data->0.len() == ICON_BYTES),
    {
        match &self.icon_data {
            Some(bytes) => bytes.len() == ICON_BYTES,
            None => false,
        }
    }
}

impl Ranked for WindowInfo {
    /// Windows are ranked by title, in code point order.
    open spec fn rank_le(&self, other: &Self) -> bool {
        text_le(self.title@, other.title@)
    }

    fn ranks_before(&self, other: &Self) -> (le: bool) {
        text_precedes(self.title.as_str(), other.title.as_str())
    }

    proof fn lemma_rank_total(a: &Self, b: &Self) {
        lemma_text_le_total(a.title@, b.title@);
    }

    proof fn lemma_rank_transitive(a: &Self, b: &Self, c: &Self) {
        lemma_text_le_transitive(a.title@, b.title@, c.title@);
    }
}

/// The views of a sequence of windows.
pub open spec fn window_views(windows: Seq<WindowInfo>) -> Seq<WindowView> {
    windows.map_values(|w: WindowInfo| w@)
}

/// The views of a sequence of raw windows.
pub open spec fn raw_views(raws: Seq<RawWindow>) -> Seq<RawWindowView> {
    raws.map_values(|r: RawWindow| r@)
}

/// The entries of the listed windows among `raws`, in the order of `raws`.
pub open spec fn listings(raws: Seq<RawWindowView>) -> Seq<WindowView> {
    raws.filter_map(|r: RawWindowView| listing(r))
}

/// Sorts a window list by title, ascending in code point order; windows
/// with the same title keep their order.
pub fn sort_by_title(windows: Vec<WindowInfo>) -> (sorted: Vec<WindowInfo>)
    ensures
        stable_sort_of(sorted@, windows@),
        sorted@.to_multiset() == windows@.to_multiset(),
{
    stable_sort(windows)
}

/// Keeps the listed windows of `raws`, in the order of `raws`.
pub fn list_windows(raws: Vec<RawWindow>) -> (windows: Vec<WindowInfo>)
    ensures
        window_views(windows@) == listings(raw_views(raws@)),
{
    let ghost all = raw_views(raws@);
    let ghost given = raws@;
    let mut windows: Vec<WindowInfo> = Vec::new();
    proof {
        assert(all.take(0) =~= Seq::<RawWindowView>::empty());
        assert(window_views(windows@) =~= listings(all.take(0)));
    }
    for raw in it: raws
        invariant
            it.seq() == given,
            all == raw_views(given),
            window_views(windows@) == listings(all.take(it.index() as int)),
    {
        let ghost i = it.index() as int;
        let ghost before = windows@;
        proof {
            assert(all[i] == raw@);
            all.lemma_filter_map_take_succ(|r: RawWindowView| listing(r), i);
        }
        match WindowInfo::from_raw(raw) {
            Some(entry) => {
                windows.push(entry);
                proof {
                    assert(window_views(windows@) =~= window_views(before).push(entry@));
                    assert(window_views(windows@) =~= listings(all.take(i + 1)));
                }
            },
            None => {
                assert(window_views(windows@) =~= listings(all.take(i + 1)));
            },
        }
    }
    proof {
        assert(all.take(all.len() as int) =~= all);
    }
    windows
}

/// The window list that one enumeration pass delivers: the listed windows
/// of `raws`, sorted by title, ties in the order of `raws`.
pub fn collect_windows(raws: Vec<RawWindow>) -> (windows: Vec<WindowInfo>)
    ensures
        exists|kept: Seq<WindowInfo>|
            {
                &&& window_views(kept) == listings(raw_views(raws@))
                &&& #[trigger] stable_sort_of(windows@, kept)
            },
{
    let kept = list_windows(raws);
    let windows = sort_by_title(kept);
    assert(stable_sort_of(windows@, kept@));
    windows
}

} // verus!
