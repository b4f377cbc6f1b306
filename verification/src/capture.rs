//! Checks on a captured window frame before it reaches the recogniser: a frame that
//! shows nothing (empty, fully transparent or black) is treated as protected content.
use vstd::prelude::*;

verus! {

/// Errors of the capture path.
#[derive(Clone, Copy, Debug, PartialEq, Eq, Structural)]
pub enum AcquisitionError {
    ProviderUnavailable,
    TargetMismatch,
    PermissionDenied,
}

/// Pixel `p` of an RGBA8 buffer is transparent or black.
pub open spec fn pixel_hidden(rgba8: Seq<u8>, p: int) -> bool {
    rgba8[4 * p + 3] == 0 || (rgba8[4 * p] == 0 && rgba8[4 * p + 1] == 0 && rgba8[4 * p + 2] == 0)
}

/// An empty frame, or one whose every whole pixel is hidden (trailing bytes of a
/// partial pixel are not looked at).
pub open spec fn frame_shows_nothing(rgba8: Seq<u8>) -> bool {
    rgba8.len() == 0 || forall|p: int| 0 <= p < rgba8.len() / 4 ==> #[trigger] pixel_hidden(rgba8, p)
}

pub fn protected_or_blank(rgba8: &[u8]) -> (r: bool)
    ensures
        r == frame_shows_nothing(rgba8@),
{
    if rgba8.len() == 0 {
        return true;
    }
    let pixels: usize = rgba8.len() / 4;
    let mut p: usize = 0;
    let mut i: usize = 0;
    while p < pixels
        invariant
            p <= pixels,
            i == 4 * p,
            pixels == rgba8@.len() / 4,
            forall|q: int| 0 <= q < p ==> #[trigger] pixel_hidden(rgba8@, q),
        decreases pixels - p,
    {
        assert(4 * p + 3 < rgba8@.len()) by (nonlinear_arith)
            requires
                p < pixels,
                pixels == rgba8@.len() / 4,
        ;
        let hidden = rgba8[i + 3] == 0 || (rgba8[i] == 0 && rgba8[i + 1] == 0 && rgba8[i + 2] == 0);
        if !hidden {
            assert(!pixel_hidden(rgba8@, p as int));
            return false;
        }
        p += 1;
        i += 4;
    }
    true
}

/// The extent from `start` to `end`, which must be positive and fit in `u32`.
pub fn rect_dimension(start: i32, end: i32) -> (r: Result<u32, AcquisitionError>)
    ensures
        match r {
            Ok(d) => d == end - start && end - start > 0,
            Err(e) => end - start <= 0 && e == AcquisitionError::ProviderUnavailable,
        },
{
    let d: i64 = end as i64 - start as i64;
    if d > 0 {
        Ok(d as u32)
    } else {
        Err(AcquisitionError::ProviderUnavailable)
    }
}

} // verus!
