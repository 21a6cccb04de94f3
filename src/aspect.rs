//! Aspect-ratio descriptors: a target width:height ratio and a scaling mode.
use vstd::prelude::*;

verus! {

/// A pair of unsigned pixel quantities: a size, a position or a ratio.
#[derive(Clone, Copy, Debug, PartialEq, Eq, Structural)]
pub struct Dim2 {
    pub x: u32,
    pub y: u32,
}

impl Dim2 {
    pub fn new(x: u32, y: u32) -> (r: Dim2)
        ensures
            r.x == x,
            r.y == y,
    {
        Dim2 { x, y }
    }
}

/// How a viewport relates to its window.
#[derive(Clone, Copy, Debug, PartialEq, Eq, Structural)]
pub enum AspectRatioMode {
    /// Fit inside the window with the target ratio, with bars left/right or top/bottom.
    Keep,
    /// Take the window's width and derive the height from the ratio.
    KeepWidth,
    /// Take the window's height and derive the width from the ratio.
    KeepHeight,
    /// Fill the window, ignoring the ratio.
    Scale,
}

/// The greatest common divisor, by Euclid's algorithm.
pub open spec fn gcd(a: nat, b: nat) -> nat
    decreases b,
{
    if b == 0 {
        a
    } else {
        gcd(b, a % b)
    }
}

/// `d` divides `a`.
pub open spec fn divides(d: nat, a: nat) -> bool {
    exists|k: nat| #[trigger] (d * k) == a
}

proof fn lemma_divides_mod(d: nat, a: nat)
    requires
        d > 0,
        divides(d, a),
    ensures
        a % d == 0,
{
    let k = choose|k: nat| #[trigger] (d * k) == a;
    assert((d * k) % d == 0) by (nonlinear_arith)
        requires
            d > 0,
    ;
}

proof fn lemma_mod_divides(d: nat, a: nat)
    requires
        d > 0,
        a % d == 0,
    ensures
        divides(d, a),
        d * (a / d) == a,
{
    assert(d * (a / d) == a) by (nonlinear_arith)
        requires
            d > 0,
            a % d == 0,
    ;
    let k: nat = a / d;
    assert(d * k == a);
}

/// Euclid's gcd divides both of its arguments, and is positive unless both are zero.
pub proof fn lemma_gcd_divides(a: nat, b: nat)
    ensures
        divides(gcd(a, b), a),
        divides(gcd(a, b), b),
        a > 0 || b > 0 ==> gcd(a, b) > 0,
    decreases b,
{
    if b == 0 {
        assert(a * 1 == a);
        assert(a * 0 == 0);
    } else {
        let r = a % b;
        lemma_gcd_divides(b, r);
        let g = gcd(b, r);
        let k1 = choose|k: nat| #[trigger] (g * k) == b;
        let k2 = choose|k: nat| #[trigger] (g * k) == r;
        let q: nat = a / b;
        assert(a == b * q + r) by (nonlinear_arith)
            requires
                b > 0,
                q == a / b,
                r == a % b,
        ;
        assert(g * (k1 * q + k2) == a) by (nonlinear_arith)
            requires
                a == b * q + r,
                g * k1 == b,
                g * k2 == r,
        ;
    }
}

/// Every common divisor of `a` and `b` divides their gcd.
pub proof fn lemma_common_divisor_divides_gcd(a: nat, b: nat, d: nat)
    requires
        divides(d, a),
        divides(d, b),
    ensures
        divides(d, gcd(a, b)),
    decreases b,
{
    if b > 0 {
        let r = a % b;
        let ka = choose|k: nat| #[trigger] (d * k) == a;
        let kb = choose|k: nat| #[trigger] (d * k) == b;
        let q: nat = a / b;
        assert(a == b * q + r) by (nonlinear_arith)
            requires
                b > 0,
                q == a / b,
                r == a % b,
        ;
        assert(d * ka - d * kb * q == r) by (nonlinear_arith)
            requires
                a == b * q + r,
                d * ka == a,
                d * kb == b,
        ;
        assert(d * (ka - kb * q) == r) by (nonlinear_arith)
            requires
                d * ka - d * kb * q == r,
        ;
        if d > 0 {
            assert(ka - kb * q >= 0) by (nonlinear_arith)
                requires
                    d * (ka - kb * q) == r,
                    d > 0,
                    r >= 0,
            ;
            let kr: nat = (ka - kb * q) as nat;
            assert(d * kr == r);
        } else {
            assert(d * 0 == r) by (nonlinear_arith)
                requires
                    d * kb == b,
                    b > 0,
                    d == 0,
            ;
        }
        lemma_common_divisor_divides_gcd(b, r, d);
    }
}

/// Euclid's algorithm on machine integers.
pub(crate) fn gcd_u32(a: u32, b: u32) -> (r: u32)
    ensures
        r as nat == gcd(a as nat, b as nat),
{
    let mut x = a;
    let mut y = b;
    while y != 0
        invariant
            gcd(x as nat, y as nat) == gcd(a as nat, b as nat),
        decreases y,
    {
        let t = x % y;
        x = y;
        y = t;
    }
    x
}

/// `resolution` divided by the gcd of its components.
pub open spec fn reduced(resolution: Dim2) -> Dim2 {
    let g = gcd(resolution.x as nat, resolution.y as nat);
    Dim2 { x: (resolution.x as nat / g) as u32, y: (resolution.y as nat / g) as u32 }
}

/// A resolution divided by the gcd of its components is in lowest terms.
pub proof fn lemma_reduced_is_lowest_terms(a: nat, b: nat)
    requires
        a > 0 || b > 0,
    ensures
        gcd(a / gcd(a, b), b / gcd(a, b)) == 1,
{
    let g = gcd(a, b);
    lemma_gcd_divides(a, b);
    lemma_divides_mod(g, a);
    lemma_divides_mod(g, b);
    lemma_mod_divides(g, a);
    lemma_mod_divides(g, b);
    let qa = a / g;
    let qb = b / g;
    assert(qa > 0 || qb > 0) by (nonlinear_arith)
        requires
            g * qa == a,
            g * qb == b,
            a > 0 || b > 0,
    ;
    lemma_gcd_divides(qa, qb);
    let d = gcd(qa, qb);
    let ka = choose|k: nat| #[trigger] (d * k) == qa;
    let kb = choose|k: nat| #[trigger] (d * k) == qb;
    assert((g * d) * ka == a && (g * d) * kb == b) by (nonlinear_arith)
        requires
            g * qa == a,
            g * qb == b,
            d * ka == qa,
            d * kb == qb,
    ;
    lemma_common_divisor_divides_gcd(a, b, g * d);
    let k = choose|k: nat| #[trigger] ((g * d) * k) == g;
    assert(d == 1) by (nonlinear_arith)
        requires
            (g * d) * k == g,
            g > 0,
            d > 0,
    ;
}

/// Why a ratio or resolution cannot describe a viewport.
#[derive(Clone, Copy, Debug, PartialEq, Eq, Structural)]
pub enum AspectRatioError {
    /// The width component is zero.
    ZeroWidth,
    /// The width is nonzero and the height component is zero.
    ZeroHeight,
}

/// The error for a pair with a zero component, if any.
pub open spec fn zero_component_error(d: Dim2) -> Option<AspectRatioError> {
    if d.x == 0 {
        Some(AspectRatioError::ZeroWidth)
    } else if d.y == 0 {
        Some(AspectRatioError::ZeroHeight)
    } else {
        None
    }
}

/// A camera's target aspect ratio and how its viewport follows the window.
#[derive(Clone, Copy, Debug, PartialEq, Eq, Structural)]
pub struct ScaleableViewport {
    pub aspect_ratio_mode: AspectRatioMode,
    pub aspect_ratio: Dim2,
}

impl ScaleableViewport {
    /// Both components of the ratio are positive.
    pub open spec fn wf(&self) -> bool {
        self.aspect_ratio.x > 0 && self.aspect_ratio.y > 0
    }

    /// The ratio of `resolution`, reduced by the gcd of its components.
    pub fn from_resolution(resolution: Dim2, mode: AspectRatioMode) -> (r: Self)
        requires
            resolution.x != 0,
            resolution.y != 0,
        ensures
            r.aspect_ratio == reduced(resolution),
            r.aspect_ratio_mode == mode,
            r.aspect_ratio.x as int * resolution.y as int == r.aspect_ratio.y as int
                * resolution.x as int,
            gcd(r.aspect_ratio.x as nat, r.aspect_ratio.y as nat) == 1,
            r.wf(),
    {
        let divisor = gcd_u32(resolution.x, resolution.y);
        proof {
            lemma_gcd_divides(resolution.x as nat, resolution.y as nat);
            lemma_reduced_is_lowest_terms(resolution.x as nat, resolution.y as nat);
            let g = divisor as nat;
            lemma_divides_mod(g, resolution.x as nat);
            lemma_divides_mod(g, resolution.y as nat);
            lemma_mod_divides(g, resolution.x as nat);
            lemma_mod_divides(g, resolution.y as nat);
            let qx = resolution.x as nat / g;
            let qy = resolution.y as nat / g;
            assert(qx * resolution.y == qy * resolution.x) by (nonlinear_arith)
                requires
                    g * qx == resolution.x,
                    g * qy == resolution.y,
            ;
            assert(resolution.x != 0 ==> qx > 0) by (nonlinear_arith)
                requires
                    g * qx == resolution.x,
            ;
            assert(resolution.y != 0 ==> qy > 0) by (nonlinear_arith)
                requires
                    g * qy == resolution.y,
            ;
        }
        let aspect = Dim2 { x: resolution.x / divisor, y: resolution.y / divisor };
        ScaleableViewport { aspect_ratio: aspect, aspect_ratio_mode: mode }
    }

    /// The ratio as given; its components must be nonzero.
    pub fn from_ratio(ratio: Dim2, mode: AspectRatioMode) -> (r: Self)
        requires
            ratio.x > 0,
            ratio.y > 0,
        ensures
            r.wf(),
            r.aspect_ratio == ratio,
            r.aspect_ratio_mode == mode,
    {
        ScaleableViewport { aspect_ratio: ratio, aspect_ratio_mode: mode }
    }

    /// The ratio as given, refused when a component is zero.
    pub fn try_from_ratio(ratio: Dim2, mode: AspectRatioMode) -> (r: Result<
        Self,
        AspectRatioError,
    >)
        ensures
            zero_component_error(ratio) matches Some(e) ==> r == Err::<Self, AspectRatioError>(e),
            zero_component_error(ratio) is None ==> r == Ok::<Self, AspectRatioError>(
                (ScaleableViewport { aspect_ratio: ratio, aspect_ratio_mode: mode }),
            ),
            r matches Ok(v) ==> v.wf(),
    {
        if ratio.x == 0 {
            Err(AspectRatioError::ZeroWidth)
        } else if ratio.y == 0 {
            Err(AspectRatioError::ZeroHeight)
        } else {
            Ok(Self::from_ratio(ratio, mode))
        }
    }

    /// The reduced ratio of `resolution`, refused when a component is zero.
    pub fn try_from_resolution(resolution: Dim2, mode: AspectRatioMode) -> (r: Result<
        Self,
        AspectRatioError,
    >)
        ensures
            zero_component_error(resolution) matches Some(e) ==> r == Err::<Self, AspectRatioError>(
                e,
            ),
            zero_component_error(resolution) is None ==> r == Ok::<Self, AspectRatioError>(
                (ScaleableViewport { aspect_ratio: reduced(resolution), aspect_ratio_mode: mode }),
            ),
            r matches Ok(v) ==> v.wf(),
    {
        if resolution.x == 0 {
            Err(AspectRatioError::ZeroWidth)
        } else if resolution.y == 0 {
            Err(AspectRatioError::ZeroHeight)
        } else {
            Ok(Self::from_resolution(resolution, mode))
        }
    }
}

} // verus!
