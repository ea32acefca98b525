//! Window style bits and the border toggle.

use vstd::prelude::*;

verus! {

/// Thin-line border.
pub const WS_BORDER: u32 = 0x0080_0000;

/// Dialog frame.
pub const WS_DLGFRAME: u32 = 0x0040_0000;

/// Title bar; the union of the thin-line border and the dialog frame.
pub const WS_CAPTION: u32 = 0x00C0_0000;

/// Sizing frame.
pub const WS_THICKFRAME: u32 = 0x0004_0000;

/// Every bit that draws window chrome.
pub const BORDER_STYLES: u32 = 0x00C4_0000;

/// The bits set when decorations are restored.
pub const RESTORED_STYLES: u32 = 0x00C4_0000;

/// A window is borderless when none of the chrome bits is set.
pub open spec fn spec_is_borderless(style: u32) -> bool {
    style & BORDER_STYLES == 0
}

/// The style a toggle writes back: chrome bits cleared when any was set,
/// caption and sizing frame added when none was.
pub open spec fn spec_toggled_style(style: u32) -> u32 {
    if style & BORDER_STYLES != 0 {
        style & !BORDER_STYLES
    } else {
        style | RESTORED_STYLES
    }
}

/// Tells whether `style` carries no chrome bit.
#[verifier::when_used_as_spec(spec_is_borderless)]
pub fn is_borderless(style: u32) -> (borderless: bool)
    ensures
        borderless == spec_is_borderless(style),
{
    (style & BORDER_STYLES) == 0
}

/// Computes the style that a toggle applies to a window whose style is `style`.
#[verifier::when_used_as_spec(spec_toggled_style)]
pub fn toggled_style(style: u32) -> (new_style: u32)
    ensures
        new_style == spec_toggled_style(style),
{
    if (style & BORDER_STYLES) != 0 {
        style & !BORDER_STYLES
    } else {
        style | RESTORED_STYLES
    }
}

/// The chrome mask is exactly the four border-related bits.
pub proof fn lemma_border_mask()
    ensures
        BORDER_STYLES == WS_BORDER | WS_CAPTION | WS_THICKFRAME | WS_DLGFRAME,
        RESTORED_STYLES == WS_CAPTION | WS_THICKFRAME,
{
    assert(0x00C4_0000u32 == 0x0080_0000u32 | 0x00C0_0000u32 | 0x0004_0000u32 | 0x0040_0000u32)
        by (bit_vector);
    assert(0x00C4_0000u32 == 0x00C0_0000u32 | 0x0004_0000u32) by (bit_vector);
}

/// A toggle always changes the decoration category, and leaves every bit
/// outside the chrome mask as it was.
pub proof fn lemma_toggle_flips(style: u32)
    ensures
        spec_is_borderless(spec_toggled_style(style)) == !spec_is_borderless(style),
        spec_toggled_style(style) & !BORDER_STYLES == style & !BORDER_STYLES,
{
    assert((style & !0x00C4_0000u32) & 0x00C4_0000u32 == 0) by (bit_vector);
    assert((style | 0x00C4_0000u32) & 0x00C4_0000u32 != 0) by (bit_vector);
    assert((style & !0x00C4_0000u32) & !0x00C4_0000u32 == style & !0x00C4_0000u32)
        by (bit_vector);
    assert((style | 0x00C4_0000u32) & !0x00C4_0000u32 == style & !0x00C4_0000u32)
        by (bit_vector);
}

/// Toggling twice brings a window back to the decoration category it started
/// in: borderless stays borderless, decorated stays decorated.
pub proof fn lemma_double_toggle_keeps_category(style: u32)
    ensures
        spec_is_borderless(spec_toggled_style(spec_toggled_style(style))) == spec_is_borderless(
            style,
        ),
{
    lemma_toggle_flips(style);
    lemma_toggle_flips(spec_toggled_style(style));
}

/// A decorated window toggled twice ends with the canonical chrome bits, not
/// with the bits it started with.
pub proof fn lemma_double_toggle_canonical(style: u32)
    ensures
        !spec_is_borderless(style) ==> spec_toggled_style(spec_toggled_style(style)) == (style
            & !BORDER_STYLES) | RESTORED_STYLES,
        spec_is_borderless(style) ==> spec_toggled_style(spec_toggled_style(style)) == style,
{
    lemma_toggle_flips(style);
    assert(style & 0x00C4_0000u32 == 0 ==> (style | 0x00C4_0000u32) & !0x00C4_0000u32 == style)
        by (bit_vector);
}

} // verus!
