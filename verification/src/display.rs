//! Physical displays: how one is described, named and labelled, and the
//! order in which they are offered.

use vstd::prelude::*;
use vstd::string::*;
use crate::sort::{ranked, stable_sort, stable_sort_of, tied_to, tied_with, Ranked};
use crate::text::{
    decimal, decimal_digits, lemma_text_le_reflexive, lemma_text_le_total,
    lemma_text_le_transitive, push_decimal, push_unsigned, text_le, text_precedes,
};

verus! {

/// Flag value of the primary monitor.
pub const MONITOR_PRIMARY: u32 = 1;

/// One display as contracts speak of it.
pub struct DisplayView {
    pub name: Seq<char>,
    pub x: int,
    pub y: int,
    pub width: int,
    pub height: int,
    pub is_primary: bool,
}

/// One display: its synthesized name, its bounds in virtual-desktop
/// coordinates, and whether it is the primary one.
#[derive(Debug, Clone)]
pub struct DisplayInfo {
    pub name: String,
    pub x: i32,
    pub y: i32,
    pub width: i32,
    pub height: i32,
    pub is_primary: bool,
}

/// The bounding rectangle and flags that the system reports for a monitor.
#[derive(Debug, Clone, Copy)]
pub struct MonitorRect {
    pub left: i32,
    pub top: i32,
    pub right: i32,
    pub bottom: i32,
    pub flags: u32,
}

impl View for DisplayInfo {
    type V = DisplayView;

    open spec fn view(&self) -> DisplayView {
        DisplayView {
            name: self.name@,
            x: self.x as int,
            y: self.y as int,
            width: self.width as int,
            height: self.height as int,
            is_primary: self.is_primary,
        }
    }
}

/// The name of the display discovered as number `ordinal`, counting from 1.
pub open spec fn display_name(ordinal: nat) -> Seq<char> {
    "Display "@ + decimal_digits(ordinal)
}

/// The label of a display: name, size, and a mark on the primary one.
pub open spec fn display_label(d: DisplayView) -> Seq<char> {
    d.name + seq![' ', '-', ' '] + decimal(d.width) + seq!['x'] + decimal(d.height)
        + if d.is_primary {
        " (Primary)"@
    } else {
        Seq::<char>::empty()
    }
}

impl MonitorRect {
    /// Width and height of the rectangle are representable.
    pub open spec fn extents_fit(&self) -> bool {
        &&& i32::MIN <= self.right - self.left <= i32::MAX
        &&& i32::MIN <= self.bottom - self.top <= i32::MAX
    }

    /// Tells whether width and height of the rectangle are representable.
    pub fn has_extents(&self) -> (fit: bool)
        ensures
            fit == self.extents_fit(),
    {
        self.right.checked_sub(self.left).is_some() && self.bottom.checked_sub(self.top).is_some()
    }
}

/// The display made of the monitor `rect`, discovered as number `ordinal`.
pub open spec fn display_of(rect: MonitorRect, ordinal: nat) -> DisplayView {
    DisplayView {
        name: display_name(ordinal),
        x: rect.left as int,
        y: rect.top as int,
        width: rect.right - rect.left,
        height: rect.bottom - rect.top,
        is_primary: rect.flags == MONITOR_PRIMARY,
    }
}

impl DisplayInfo {
    /// Describes the monitor `rect`, which was discovered as number
    /// `ordinal`, counting from 1.
    pub fn from_monitor(rect: MonitorRect, ordinal: usize) -> (display: DisplayInfo)
        requires
            rect.extents_fit(),
        ensures
            display@ == display_of(rect, ordinal as nat),
    {
        let mut name = String::from_str("Display ");
        push_unsigned(&mut name, ordinal as u64);
        DisplayInfo {
            name,
            x: rect.left,
            y: rect.top,
            width: rect.right - rect.left,
            height: rect.bottom - rect.top,
            is_primary: rect.flags == MONITOR_PRIMARY,
        }
    }

    /// The label under which the display is shown.
    pub fn display_text(&self) -> (text: String)
        ensures
            text@ == display_label(self@),
    {
        let mut text = self.name.clone();
        proof {
            reveal_strlit(" - ");
            reveal_strlit("x");
        }
        text.append(" - ");
        push_decimal(&mut text, self.width as i64);
        text.append("x");
        push_decimal(&mut text, self.height as i64);
        if self.is_primary {
            text.append(" (Primary)");
        }
        assert(text@ =~= display_label(self@));
        text
    }
}

impl Ranked for DisplayInfo {
    /// The primary display ranks before the others; displays of the same
    /// kind are ranked by name, in code point order.
    open spec fn rank_le(&self, other: &Self) -> bool {
        if self.is_primary != other.is_primary {
            self.is_primary
        } else {
            text_le(self.name@, other.name@)
        }
    }

    fn ranks_before(&self, other: &Self) -> (le: bool) {
        if self.is_primary != other.is_primary {
            self.is_primary
        } else {
            text_precedes(self.name.as_str(), other.name.as_str())
        }
    }

    proof fn lemma_rank_total(a: &Self, b: &Self) {
        lemma_text_le_total(a.name@, b.name@);
    }

    proof fn lemma_rank_transitive(a: &Self, b: &Self, c: &Self) {
        if a.is_primary == b.is_primary && b.is_primary == c.is_primary {
            lemma_text_le_transitive(a.name@, b.name@, c.name@);
        }
    }
}

/// The views of a sequence of displays.
pub open spec fn display_views(displays: Seq<DisplayInfo>) -> Seq<DisplayView> {
    displays.map_values(|d: DisplayInfo| d@)
}

/// The displays made of `rects`, named in the order of discovery.
pub open spec fn named_displays(rects: Seq<MonitorRect>) -> Seq<DisplayView> {
    Seq::new(rects.len(), |i: int| display_of(rects[i], (i + 1) as nat))
}

/// Sorts displays for presentation: the primary one first, the others by
/// name.
pub fn sort_displays(displays: Vec<DisplayInfo>) -> (sorted: Vec<DisplayInfo>)
    ensures
        stable_sort_of(sorted@, displays@),
        sorted@.to_multiset() == displays@.to_multiset(),
{
    stable_sort(displays)
}

/// Names the monitors in the order in which they were discovered.
pub fn name_displays(rects: &Vec<MonitorRect>) -> (displays: Vec<DisplayInfo>)
    requires
        forall|i: int| 0 <= i < rects@.len() ==> (#[trigger] rects@[i]).extents_fit(),
    ensures
        display_views(displays@) == named_displays(rects@),
{
    let mut displays: Vec<DisplayInfo> = Vec::new();
    let mut i: usize = 0;
    while i < rects.len()
        invariant
            i <= rects@.len(),
            displays@.len() == i,
            forall|j: int| 0 <= j < rects@.len() ==> (#[trigger] rects@[j]).extents_fit(),
            forall|j: int| 0 <= j < i ==> (#[trigger] displays@[j])@ == display_of(
                rects@[j],
                (j + 1) as nat,
            ),
        decreases rects@.len() - i,
    {
        displays.push(DisplayInfo::from_monitor(rects[i], i + 1));
        i += 1;
    }
    assert(display_views(displays@) =~= named_displays(rects@));
    displays
}

/// The display list for the monitors `rects`, given in the order of
/// discovery: each named by its number, the primary one first, the others
/// by name.
pub fn enumerate_displays(rects: &Vec<MonitorRect>) -> (displays: Vec<DisplayInfo>)
    requires
        forall|i: int| 0 <= i < rects@.len() ==> (#[trigger] rects@[i]).extents_fit(),
    ensures
        exists|named: Seq<DisplayInfo>|
            {
                &&& display_views(named) == named_displays(rects@)
                &&& #[trigger] stable_sort_of(displays@, named)
            },
{
    let named = name_displays(rects);
    let displays = sort_displays(named);
    assert(stable_sort_of(displays@, named@));
    displays
}

/// Exactly one display of `displays` is primary, the one at `at`.
pub open spec fn only_primary_at(displays: Seq<DisplayInfo>, at: int) -> bool {
    &&& 0 <= at < displays.len()
    &&& forall|i: int|
        0 <= i < displays.len() ==> ((#[trigger] displays[i]).is_primary <==> i == at)
}

/// Where exactly one display is primary, sorting puts it first, wherever it
/// stood.
pub proof fn lemma_primary_sorts_first(
    sorted: Seq<DisplayInfo>,
    displays: Seq<DisplayInfo>,
    at: int,
)
    requires
        stable_sort_of(sorted, displays),
        only_primary_at(displays, at),
    ensures
        sorted.len() > 0,
        sorted[0] == displays[at],
{
    let primary = displays[at];
    lemma_text_le_reflexive(primary.name@);
    // The primary display is among the sorted ones.
    assert(tied_to(primary)(primary));
    assert(displays.filter(tied_to(primary)).contains(primary)) by {
        displays.lemma_filter_contains(tied_to(primary), at);
    }
    assert(tied_with(sorted, primary) == tied_with(displays, primary));
    sorted.lemma_filter_contains_rev(tied_to(primary), primary);
    let m = choose|m: int| 0 <= m < sorted.len() && sorted[m] == primary;
    // Whatever stands first ranks at or before it, so it is primary too.
    let first = sorted[0];
    if m > 0 {
        assert(sorted[0].rank_le(&sorted[m]));
    }
    assert(first.is_primary);
    // And it is one of the given displays, of which only one is primary.
    lemma_text_le_reflexive(first.name@);
    assert(tied_to(first)(first));
    assert(sorted.filter(tied_to(first)).contains(first)) by {
        sorted.lemma_filter_contains(tied_to(first), 0);
    }
    assert(tied_with(sorted, first) == tied_with(displays, first));
    displays.lemma_filter_contains_rev(tied_to(first), first);
    let j = choose|j: int| 0 <= j < displays.len() && displays[j] == first;
    assert(displays[j].is_primary);
}

} // verus!
