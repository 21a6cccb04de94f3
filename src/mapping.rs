//! Mapping a window size to a viewport size and position.
use vstd::prelude::*;

use crate::aspect::{AspectRatioMode, Dim2, ScaleableViewport};

verus! {

/// `n / d` rounded to the nearest integer, halves away from zero.
pub open spec fn round_div(n: nat, d: nat) -> nat
    recommends
        d > 0,
{
    (2 * n + d) / (2 * d)
}

/// `len * num / den`, rounded, and saturated at the largest `u32`.
pub open spec fn scaled_len(len: nat, num: nat, den: nat) -> nat {
    let q = round_div(len * num, den);
    if q > u32::MAX as nat {
        u32::MAX as nat
    } else {
        q
    }
}

/// The window is proportionally wider than the ratio: `w / h > rx / ry`.
pub open spec fn wider_than(window: Dim2, ratio: Dim2) -> bool {
    window.x as int * ratio.y as int > ratio.x as int * window.y as int
}

/// The viewport size for a window, a target ratio and a mode.
pub open spec fn mapped_size(window: Dim2, ratio: Dim2, mode: AspectRatioMode) -> Dim2 {
    let from_height = scaled_len(window.y as nat, ratio.x as nat, ratio.y as nat) as u32;
    let from_width = scaled_len(window.x as nat, ratio.y as nat, ratio.x as nat) as u32;
    match mode {
        AspectRatioMode::Keep => if wider_than(window, ratio) {
            Dim2 { x: from_height, y: window.y }
        } else {
            Dim2 { x: window.x, y: from_width }
        },
        AspectRatioMode::KeepWidth => Dim2 { x: window.x, y: from_width },
        AspectRatioMode::KeepHeight => Dim2 { x: from_height, y: window.y },
        AspectRatioMode::Scale => window,
    }
}

/// `len * num / den` rounded half away from zero, saturated at `u32::MAX`.
fn scale_rounded(len: u32, num: u32, den: u32) -> (r: u32)
    requires
        den > 0,
    ensures
        r as nat == scaled_len(len as nat, num as nat, den as nat),
{
    let l = len as u128;
    let m = num as u128;
    assert(l * m <= 0xffff_ffff_u128 * 0xffff_ffff_u128) by (nonlinear_arith)
        requires
            l <= 0xffff_ffff_u128,
            m <= 0xffff_ffff_u128,
    ;
    let n: u128 = l * m;
    let d: u128 = den as u128;
    let q: u128 = (2 * n + d) / (2 * d);
    if q > u32::MAX as u128 {
        u32::MAX
    } else {
        q as u32
    }
}

/// The product of two `u32`s, which always fits in a `u64`.
fn wide_mul(a: u32, b: u32) -> (r: u64)
    ensures
        r as int == a as int * b as int,
{
    let x = a as u64;
    let y = b as u64;
    assert(x * y <= 0xffff_ffff_u64 * 0xffff_ffff_u64) by (nonlinear_arith)
        requires
            x <= 0xffff_ffff_u64,
            y <= 0xffff_ffff_u64,
    ;
    x * y
}

/// Where a camera draws inside its window, in physical pixels.
#[derive(Clone, Copy, Debug, PartialEq, Eq, Structural)]
pub struct ViewportRect {
    /// The top-left corner.
    pub physical_position: Dim2,
    /// The width and height.
    pub physical_size: Dim2,
}

/// The offset that centers `size` in `window`, half the slack rounded down;
/// zero when `size` is larger than `window`.
pub open spec fn centered_offset(window: u32, size: u32) -> u32 {
    if size <= window {
        ((window - size) / 2) as u32
    } else {
        0
    }
}

/// The viewport of one camera after its window took the size `window`.
pub open spec fn viewport_rect(window: Dim2, viewport: ScaleableViewport) -> ViewportRect {
    let size = mapped_size(window, viewport.aspect_ratio, viewport.aspect_ratio_mode);
    ViewportRect {
        physical_position: Dim2 {
            x: centered_offset(window.x, size.x),
            y: centered_offset(window.y, size.y),
        },
        physical_size: size,
    }
}

/// What a resize to `window` makes of each camera's viewport, in order: the new
/// rectangle for a well-formed descriptor, and `None` (left as it was) for one whose
/// ratio has a zero component.
pub open spec fn viewports_after(window: Dim2, viewports: Seq<ScaleableViewport>) -> Seq<
    Option<ViewportRect>,
> {
    Seq::new(
        viewports.len(),
        |i: int|
            if viewports[i].wf() {
                Some(viewport_rect(window, viewports[i]))
            } else {
                None
            },
    )
}

/// The window size of the last notification whose window could be read.
pub open spec fn last_resolved(events: Seq<Option<Dim2>>) -> Option<Dim2>
    decreases events.len(),
{
    if events.len() == 0 {
        None
    } else if events.last() is Some {
        events.last()
    } else {
        last_resolved(events.drop_last())
    }
}

/// `round_div(n, d)` is within half of `d` of `n / d`: `2qd <= 2n + d < 2qd + 2d`.
proof fn lemma_round_div_bounds(n: nat, d: nat)
    requires
        d > 0,
    ensures
        2 * round_div(n, d) * d <= 2 * n + d,
        2 * n + d < 2 * round_div(n, d) * d + 2 * d,
{
    let q = round_div(n, d);
    let m = 2 * n + d;
    assert(2 * q * d <= m && m < 2 * q * d + 2 * d) by (nonlinear_arith)
        requires
            d > 0,
            q == m / (2 * d),
    ;
}

/// Under `Keep` the viewport fits inside the window, takes the window's full
/// height (pillarbox) or full width (letterbox), and the other side is within
/// half a pixel of the exact size that the target ratio gives.
pub proof fn lemma_keep_fits_window(window: Dim2, ratio: Dim2)
    requires
        ratio.x > 0,
        ratio.y > 0,
    ensures
        ({
            let s = mapped_size(window, ratio, AspectRatioMode::Keep);
            let err = s.x as int * ratio.y as int - s.y as int * ratio.x as int;
            &&& s.x <= window.x
            &&& s.y <= window.y
            &&& (s.y == window.y && -(ratio.y as int) <= 2 * err <= ratio.y as int) || (s.x
                == window.x && -(ratio.x as int) <= 2 * err <= ratio.x as int)
        }),
{
    let w = window.x as nat;
    let h = window.y as nat;
    let rx = ratio.x as nat;
    let ry = ratio.y as nat;
    if wider_than(window, ratio) {
        let q = round_div(h * rx, ry);
        lemma_round_div_bounds(h * rx, ry);
        assert(q <= w) by (nonlinear_arith)
            requires
                2 * q * ry <= 2 * (h * rx) + ry,
                w * ry > rx * h,
                ry > 0,
        ;
        assert(-(ry as int) <= 2 * (q * ry - h * rx) <= ry) by (nonlinear_arith)
            requires
                2 * q * ry <= 2 * (h * rx) + ry,
                2 * (h * rx) + ry < 2 * q * ry + 2 * ry,
        ;
    } else {
        let q = round_div(w * ry, rx);
        lemma_round_div_bounds(w * ry, rx);
        assert(q <= h) by (nonlinear_arith)
            requires
                2 * q * rx <= 2 * (w * ry) + rx,
                w * ry <= rx * h,
                rx > 0,
        ;
        assert(-(rx as int) <= 2 * (q * rx - w * ry) <= rx) by (nonlinear_arith)
            requires
                2 * q * rx <= 2 * (w * ry) + rx,
                2 * (w * ry) + rx < 2 * q * rx + 2 * rx,
        ;
    }
}

/// Mapping is a function of its inputs alone: two mappings of the same window,
/// ratio and mode give the same size.
pub proof fn lemma_map_repeatable(
    window: Dim2,
    ratio: Dim2,
    mode: AspectRatioMode,
    first: Dim2,
    second: Dim2,
)
    requires
        first == mapped_size(window, ratio, mode),
        second == mapped_size(window, ratio, mode),
    ensures
        first == second,
{
}

/// Cameras do not interfere in a resize pass: a camera's new viewport depends
/// on the window and its own descriptor alone, whatever the other cameras hold.
pub proof fn lemma_cameras_independent(
    window: Dim2,
    a: Seq<ScaleableViewport>,
    b: Seq<ScaleableViewport>,
    i: int,
    j: int,
)
    requires
        0 <= i < a.len(),
        0 <= j < b.len(),
        a[i] == b[j],
    ensures
        viewports_after(window, a)[i] == viewports_after(window, b)[j],
        a[i].wf() ==> viewports_after(window, a)[i]
            == Some(viewport_rect(window, a[i])),
{
}

fn centered(window: u32, size: u32) -> (r: u32)
    ensures
        r == centered_offset(window, size),
{
    if size <= window {
        (window - size) / 2
    } else {
        0
    }
}

/// Runs the viewport computations.
pub struct ViewportPlugin;

impl ViewportPlugin {
    /// The viewport size for `window` under the target ratio `aspect` and the mode.
    pub fn get_new_resolution(window: Dim2, aspect: Dim2, aspect_mode: &AspectRatioMode) -> (r:
        Dim2)
        requires
            aspect.x > 0,
            aspect.y > 0,
        ensures
            r == mapped_size(window, aspect, *aspect_mode),
            *aspect_mode == AspectRatioMode::Scale ==> r == window,
            *aspect_mode == AspectRatioMode::KeepWidth ==> r.x == window.x,
            *aspect_mode == AspectRatioMode::KeepHeight ==> r.y == window.y,
    {
        match aspect_mode {
            AspectRatioMode::Keep => {
                if wide_mul(window.x, aspect.y) > wide_mul(aspect.x, window.y) {
                    Dim2 { x: scale_rounded(window.y, aspect.x, aspect.y), y: window.y }
                } else {
                    Dim2 { x: window.x, y: scale_rounded(window.x, aspect.y, aspect.x) }
                }
            },
            AspectRatioMode::KeepWidth => {
                Dim2 { x: window.x, y: scale_rounded(window.x, aspect.y, aspect.x) }
            },
            AspectRatioMode::KeepHeight => {
                Dim2 { x: scale_rounded(window.y, aspect.x, aspect.y), y: window.y }
            },
            AspectRatioMode::Scale => window,
        }
    }

    /// The centered viewport of one camera whose window now has the size `window`.
    pub fn viewport_for(window: Dim2, viewport: &ScaleableViewport) -> (r: ViewportRect)
        requires
            viewport.wf(),
        ensures
            r == viewport_rect(window, *viewport),
    {
        let size = Self::get_new_resolution(
            window,
            viewport.aspect_ratio,
            &viewport.aspect_ratio_mode,
        );
        let position = Dim2 { x: centered(window.x, size.x), y: centered(window.y, size.y) };
        ViewportRect { physical_position: position, physical_size: size }
    }

    /// One resize pass: the new viewport of every camera, each from its own
    /// descriptor and the same window size. A camera whose ratio has a zero
    /// component gets `None` and keeps its viewport.
    pub fn resize_all(window: Dim2, viewports: &Vec<ScaleableViewport>) -> (r: Vec<
        Option<ViewportRect>,
    >)
        ensures
            r@ == viewports_after(window, viewports@),
    {
        let mut out: Vec<Option<ViewportRect>> = Vec::new();
        let mut i: usize = 0;
        while i < viewports.len()
            invariant
                i <= viewports.len(),
                out@ == viewports_after(window, viewports@.take(i as int)),
            decreases viewports.len() - i,
        {
            let v = &viewports[i];
            if v.aspect_ratio.x > 0 && v.aspect_ratio.y > 0 {
                out.push(Some(Self::viewport_for(window, v)));
            } else {
                out.push(None);
            }
            i = i + 1;
            assert(out@ =~= viewports_after(window, viewports@.take(i as int)));
        }
        assert(viewports@.take(i as int) =~= viewports@);
        out
    }

    /// Handles the resize notifications of one update, in arrival order. Each is
    /// the new size of its window, or `None` where that window could no longer
    /// be read; those are skipped. Every readable notification recomputes all
    /// viewports, so the last one decides; with none, nothing changes (`None`).
    pub fn resize_viewport(events: &Vec<Option<Dim2>>, viewports: &Vec<ScaleableViewport>) -> (r:
        Option<Vec<Option<ViewportRect>>>)
        ensures
            last_resolved(events@) is None ==> r is None,
            last_resolved(events@) matches Some(w) ==> r matches Some(v) && v@ == viewports_after(
                w,
                viewports@,
            ),
    {
        let mut current: Option<Vec<Option<ViewportRect>>> = None;
        let mut i: usize = 0;
        while i < events.len()
            invariant
                i <= events.len(),
                last_resolved(events@.take(i as int)) is None ==> current is None,
                last_resolved(events@.take(i as int)) matches Some(w) ==> current matches Some(v)
                    && v@ == viewports_after(w, viewports@),
            decreases events.len() - i,
        {
            match events[i] {
                Some(window) => {
                    current = Some(Self::resize_all(window, viewports));
                },
                None => {},
            }
            i = i + 1;
            assert(events@.take(i as int).drop_last() =~= events@.take(i as int - 1));
        }
        assert(events@.take(i as int) =~= events@);
        current
    }
}

} // verus!
