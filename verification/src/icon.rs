//! Window icons: which handle is drawn, how large the bitmap is, and the
//! channel order of its pixels.

use vstd::prelude::*;

verus! {

/// Edge of an icon bitmap, in pixels.
pub const ICON_SIZE: i32 = 16;

/// Bytes of an icon bitmap: 16 by 16 pixels of four bytes.
pub const ICON_BYTES: usize = 1024;

/// The handle to draw: the window's own icon, else its class's, else none.
/// A handle of zero means that there is none.
pub open spec fn spec_icon_handle(window_icon: isize, class_icon: isize) -> Option<isize> {
    if window_icon != 0 {
        Some(window_icon)
    } else if class_icon != 0 {
        Some(class_icon)
    } else {
        None
    }
}

/// Picks the icon handle to draw.
pub fn pick_icon_handle(window_icon: isize, class_icon: isize) -> (handle: Option<isize>)
    ensures
        handle == spec_icon_handle(window_icon, class_icon),
{
    if window_icon != 0 {
        Some(window_icon)
    } else if class_icon != 0 {
        Some(class_icon)
    } else {
        None
    }
}

/// Bytes of a square bitmap with the edge `size` and four bytes to the
/// pixel.
pub fn bitmap_bytes(size: i32) -> (bytes: usize)
    requires
        0 <= size,
        size * size * 4 <= i32::MAX,
    ensures
        bytes == size * size * 4,
{
    assert(size * size * 4 <= i32::MAX ==> size * size <= i32::MAX) by (nonlinear_arith)
        requires
            0 <= size,
    ;
    (size * size * 4) as usize
}

/// The number of whole pixels in `len` bytes, times four.
pub open spec fn whole_pixels(len: nat) -> int {
    len - len % 4
}

/// `data` with the first and third byte of every whole pixel exchanged;
/// bytes after the last whole pixel stay.
pub open spec fn swapped(data: Seq<u8>) -> Seq<u8> {
    Seq::new(
        data.len(),
        |i: int|
            if i >= whole_pixels(data.len()) {
                data[i]
            } else if i % 4 == 0 {
                data[i + 2]
            } else if i % 4 == 2 {
                data[i - 2]
            } else {
                data[i]
            },
    )
}

/// Turns pixels stored blue, green, red, alpha into red, green, blue,
/// alpha, in place.
pub fn bgra_to_rgba(data: &mut Vec<u8>)
    ensures
        final(data)@ == swapped(old(data)@),
{
    let n = data.len();
    let whole = n - n % 4;
    let mut i: usize = 0;
    while i < whole
        invariant
            n == old(data)@.len(),
            data@.len() == n,
            whole == whole_pixels(n as nat),
            i <= whole,
            i % 4 == 0,
            forall|j: int| 0 <= j < i ==> data@[j] == swapped(old(data)@)[j],
            forall|j: int| i <= j < n ==> data@[j] == old(data)@[j],
        decreases whole - i,
    {
        let blue = data[i];
        let red = data[i + 2];
        data[i] = red;
        data[i + 2] = blue;
        i += 4;
    }
    assert(data@ =~= swapped(old(data)@));
}

/// The pixels of an icon as the list shows them, from what was read back
/// from the bitmap: nothing where no scan line was copied, else the bytes
/// with red and blue exchanged.
pub fn rgba_from_readback(scan_lines: i32, data: Vec<u8>) -> (pixels: Option<Vec<u8>>)
    ensures
        scan_lines == 0 ==> pixels is None,
        scan_lines != 0 ==> pixels is Some && pixels->0@ == swapped(data@),
{
    if scan_lines == 0 {
        return None;
    }
    let mut pixels = data;
    bgra_to_rgba(&mut pixels);
    Some(pixels)
}

/// Exchanging twice gives the bytes back.
pub proof fn lemma_swapped_twice(data: Seq<u8>)
    ensures
        swapped(swapped(data)) == data,
{
    assert(swapped(swapped(data)) =~= data);
}

} // verus!
