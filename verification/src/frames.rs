use vstd::prelude::*;
use crate::runtime::{decimal, decimal_text};
use crate::text::concat2;

verus! {

// Screen frames arrive from the platform as three planes, Y then U then V,
// and are copied into I420 video frames from a buffer pool.

/// The sizes, in bytes, of the planes of an I420 frame and of the whole frame.
#[derive(Clone, Copy, Debug, PartialEq, Eq, Structural)]
pub struct FrameLayout {
    /// The luma plane: a byte per pixel.
    pub luma: usize,
    /// Each chroma plane: a byte per two by two pixels (halves rounded down).
    pub chroma: usize,
    /// The luma plane and the two chroma planes.
    pub total: usize,
}

/// The byte size of an I420 frame of this size, which must fit in `usize`.
pub open spec fn frame_total(width: int, height: int) -> int {
    width * height + 2 * ((width / 2) * (height / 2))
}

/// The layout of an I420 frame `width` by `height`.
pub fn frame_layout(width: usize, height: usize) -> (l: FrameLayout)
    requires
        frame_total(width as int, height as int) <= usize::MAX,
    ensures
        l.luma == width * height,
        l.chroma == (width / 2) * (height / 2),
        l.total == frame_total(width as int, height as int),
{
    assert(0 <= (width / 2) * (height / 2)) by (nonlinear_arith);
    assert(0 <= width * height) by (nonlinear_arith);
    let luma = width * height;
    let chroma = (width / 2) * (height / 2);
    FrameLayout { luma, chroma, total: luma + 2 * chroma }
}

/// The refusal of a plane whose buffer holds fewer bytes than the plane needs.
pub open spec fn short_buffer(capacity: usize, size: usize) -> Seq<char> {
    "buffer_cap < size: "@ + decimal(capacity as nat) + " < "@ + decimal(size as nat)
}

/// Checks that a plane's buffer of `capacity` bytes holds the `size` bytes of the plane.
pub fn check_plane_buffer(capacity: usize, size: usize) -> (r: Result<(), String>)
    ensures
        capacity >= size ==> r is Ok,
        capacity < size ==> (r matches Err(e) && e@ == short_buffer(capacity, size)),
{
    if capacity < size {
        let head = concat2("buffer_cap < size: ", decimal_text(capacity).as_str());
        let tail = concat2(" < ", decimal_text(size).as_str());
        assert(head@ + tail@ =~= short_buffer(capacity, size));
        return Err(concat2(head.as_str(), tail.as_str()));
    }
    Ok(())
}

/// Whether the frame pool must be set up anew for frames of `frame_size`
/// bytes: when it is not active, has no parameters, or holds other caps
/// (`same_caps` false) or another size (the frame size cut to 32 bits).
pub fn pool_needs_reconfigure(active: bool, params: Option<(bool, u32)>, frame_size: usize) -> (r: bool)
    ensures
        r == (!active || match params {
            Some((same_caps, size)) => !same_caps || size != frame_size as u32,
            None => true,
        }),
{
    if !active {
        return true;
    }
    match params {
        Some((same_caps, size)) => {
            #[verifier::truncate]
            let cut = frame_size as u32;
            !same_caps || size != cut
        },
        None => true,
    }
}

/// How many bytes of a plane are copied row by row from a source of
/// `src_len` bytes into a destination of `dest_len` bytes, both in rows of
/// `stride` bytes: the whole rows that both hold.
pub fn plane_copy_len(dest_len: usize, src_len: usize, stride: usize) -> (n: usize)
    requires
        stride > 0,
    ensures
        n == (if dest_len / stride <= src_len / stride { dest_len / stride } else { src_len / stride }) * stride,
        n <= dest_len,
        n <= src_len,
{
    let rows = if dest_len / stride <= src_len / stride { dest_len / stride } else { src_len / stride };
    assert(rows * stride <= dest_len) by (nonlinear_arith)
        requires
            stride > 0,
            rows <= dest_len / stride,
    ;
    assert(rows * stride <= src_len) by (nonlinear_arith)
        requires
            stride > 0,
            rows <= src_len / stride,
    ;
    rows * stride
}

} // verus!
