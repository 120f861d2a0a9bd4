use vstd::prelude::*;
use crate::config::{ZoomConfig, ZoomType, active_type_of, CENTIPOINTS_PER_POINT, FACTOR_ONE};

verus! {

/// The kind of a font command.
#[derive(Debug, Clone, Copy, PartialEq, Eq, Structural)]
pub enum AdjustOp {
    Increase,
    Decrease,
    Multiply,
    Divide,
}

/// One font command: change the size by `numerator / denominator` points
/// (increase, decrease), or scale it by that ratio (multiply, divide).
#[derive(Debug, Clone, Copy, PartialEq, Eq, Structural)]
pub struct FontAdjustment {
    pub op: AdjustOp,
    pub numerator: u64,
    pub denominator: u64,
}

/// What is believed of one window's font: its size in hundredths of a point
/// and its zoom factor in thousandths. Nothing reads the real size back, so
/// this is an estimate.
#[derive(Debug, Clone, Copy, PartialEq, Eq, Structural)]
pub struct WindowState {
    pub current_font_size: Option<i64>,
    pub current_zoom_factor: u32,
}

impl WindowState {
    pub fn new() -> (r: Self)
        ensures
            r.current_font_size is None,
            r.current_zoom_factor == FACTOR_ONE,
    {
        WindowState { current_font_size: None, current_zoom_factor: FACTOR_ONE }
    }

    pub fn with_baseline(baseline: u32) -> (r: Self)
        ensures
            r == initial_state(baseline),
    {
        WindowState { current_font_size: Some(baseline as i64), current_zoom_factor: FACTOR_ONE }
    }
}

/// A window seen for the first time: at the baseline size, unscaled.
pub open spec fn initial_state(baseline: u32) -> WindowState {
    WindowState { current_font_size: Some(baseline as i64), current_zoom_factor: FACTOR_ONE }
}

/// Factors closer than this, in thousandths, count as equal.
pub const FACTOR_TOLERANCE: u32 = 1;

pub open spec fn step_of(op: AdjustOp, step: u32) -> FontAdjustment {
    FontAdjustment { op, numerator: step as u64, denominator: 1 }
}

pub open spec fn ratio_of(op: AdjustOp, numerator: nat, denominator: nat) -> FontAdjustment {
    FontAdjustment { op, numerator: numerator as u64, denominator: denominator as u64 }
}

/// `a / b` rounded up.
pub open spec fn ceil_div(a: nat, b: nat) -> nat {
    a / b + if a % b == 0 {
        0nat
    } else {
        1nat
    }
}

pub open spec fn repeated(adj: FontAdjustment, n: nat) -> Seq<FontAdjustment> {
    Seq::new(n, |_i: int| adj)
}

/// One step, in hundredths of a point.
pub open spec fn step_width(step: u32) -> nat {
    step as nat * CENTIPOINTS_PER_POINT as nat
}

pub open spec fn clamp_i64(x: int) -> i64 {
    if x > i64::MAX {
        i64::MAX
    } else if x < i64::MIN {
        i64::MIN
    } else {
        x as i64
    }
}

pub open spec fn font_of(s: WindowState, baseline: u32) -> int {
    match s.current_font_size {
        Some(f) => f as int,
        None => baseline as int,
    }
}

/// The font size at a zoom factor, in hundredths of a point, rounded down.
pub open spec fn scaled_font(baseline: u32, factor: u32) -> i64 {
    ((baseline as nat * factor as nat) / FACTOR_ONE as nat) as i64
}

/// The commands that move a font by `diff` hundredths of a point: whole
/// steps rounded up, so that the last may overshoot; or, with `exact`,
/// whole steps and then the remainder.
pub open spec fn stepped(op: AdjustOp, diff: nat, step: u32, exact: bool) -> Seq<FontAdjustment> {
    if exact {
        repeated(step_of(op, step), diff / step_width(step)) + if diff % step_width(step) == 0 {
            Seq::<FontAdjustment>::empty()
        } else {
            seq![ratio_of(op, diff % step_width(step), CENTIPOINTS_PER_POINT as nat)]
        }
    } else {
        repeated(step_of(op, step), ceil_div(diff, step_width(step)))
    }
}

/// The commands that move a font from `from` to `to`.
pub open spec fn steps_between(from: int, to: int, step: u32, exact: bool) -> Seq<FontAdjustment> {
    if from < to {
        stepped(AdjustOp::Increase, (to - from) as nat, step, exact)
    } else if from > to {
        stepped(AdjustOp::Decrease, (from - to) as nat, step, exact)
    } else {
        Seq::empty()
    }
}

/// Multiplies by `step` while that does not pass `target`, then once by
/// the remaining ratio so as to land on `target`.
pub open spec fn scale_up(cur: nat, target: nat, step: nat) -> Seq<FontAdjustment>
    decreases target - cur,
    via scale_up_decreases
{
    if cur > 0 && step >= 2 && cur * step <= target {
        seq![ratio_of(AdjustOp::Multiply, step, 1)] + scale_up(cur * step, target, step)
    } else if cur < target {
        seq![ratio_of(AdjustOp::Multiply, target, cur)]
    } else {
        Seq::empty()
    }
}

#[via_fn]
proof fn scale_up_decreases(cur: nat, target: nat, step: nat) {
    if cur > 0 && step >= 2 && cur * step <= target {
        assert(cur * step >= cur * 2) by (nonlinear_arith)
            requires
                step >= 2,
        ;
    }
}

/// Divides by `step` while the factor, `cur / divisor`, stays at or above
/// `target`, then once by the remaining ratio so as to land on `target`.
pub open spec fn scale_down(cur: nat, divisor: nat, target: nat, step: nat) -> Seq<FontAdjustment>
    decreases cur - target * divisor,
    via scale_down_decreases
{
    if divisor > 0 && target > 0 && step >= 2 && target * divisor * step <= cur {
        seq![ratio_of(AdjustOp::Divide, step, 1)] + scale_down(cur, divisor * step, target, step)
    } else if target * divisor < cur {
        seq![ratio_of(AdjustOp::Divide, cur, target * divisor)]
    } else {
        Seq::empty()
    }
}

#[via_fn]
proof fn scale_down_decreases(cur: nat, divisor: nat, target: nat, step: nat) {
    if divisor > 0 && target > 0 && step >= 2 && target * divisor * step <= cur {
        let td = target * divisor;
        assert(td > 0) by (nonlinear_arith)
            requires
                divisor > 0,
                target > 0,
                td == target * divisor,
        ;
        assert(td * step >= td * 2) by (nonlinear_arith)
            requires
                step >= 2,
        ;
        assert(target * (divisor * step) == td * step) by (nonlinear_arith)
            requires
                td == target * divisor,
        ;
    }
}

/// The commands taking a zoom factor from `cur` to `target`.
pub open spec fn rescale(cur: nat, target: nat, step: nat) -> Seq<FontAdjustment> {
    if cur < target {
        scale_up(cur, target, step)
    } else {
        scale_down(cur, 1, target, step)
    }
}

pub open spec fn far_apart(a: u32, b: u32) -> bool {
    a as int - b as int > FACTOR_TOLERANCE as int || b as int - a as int > FACTOR_TOLERANCE as int
}

/// What a focus gain does to a window: its new state, and the commands
/// that take its font there.
pub open spec fn focus_plan(s: WindowState, c: ZoomConfig, baseline: u32) -> (WindowState, Seq<
    FontAdjustment,
>) {
    let cur = font_of(s, baseline);
    match active_type_of(c) {
        Some(ZoomType::Absolute) => {
            let t = c.absolute.unwrap() as int;
            if cur == t {
                (s, Seq::empty())
            } else {
                (
                    WindowState {
                        current_font_size: Some(t as i64),
                        current_zoom_factor: s.current_zoom_factor,
                    },
                    steps_between(cur, t, c.step_size, c.exact_steps),
                )
            }
        },
        Some(ZoomType::Additive) => {
            let a = c.additive.unwrap() as nat;
            (
                WindowState {
                    current_font_size: Some(clamp_i64(cur + a)),
                    current_zoom_factor: s.current_zoom_factor,
                },
                stepped(AdjustOp::Increase, a, c.step_size, c.exact_steps),
            )
        },
        Some(ZoomType::Multiplicative) => {
            let f = c.multiplicative.unwrap();
            if far_apart(f, s.current_zoom_factor) {
                (
                    WindowState { current_font_size: Some(scaled_font(baseline, f)), current_zoom_factor: f },
                    rescale(s.current_zoom_factor as nat, f as nat, c.step_size as nat),
                )
            } else {
                (s, Seq::empty())
            }
        },
        None => (s, Seq::empty()),
    }
}

/// What a focus loss does to a window: back to the baseline (absolute,
/// multiplicative), or the amount taken off again (additive).
pub open spec fn blur_plan(s: WindowState, c: ZoomConfig, baseline: u32) -> (WindowState, Seq<
    FontAdjustment,
>) {
    let cur = font_of(s, baseline);
    match active_type_of(c) {
        Some(ZoomType::Absolute) => {
            if cur == baseline as int {
                (s, Seq::empty())
            } else {
                (
                    WindowState { current_font_size: Some(baseline as i64), current_zoom_factor: FACTOR_ONE },
                    steps_between(cur, baseline as int, c.step_size, c.exact_steps),
                )
            }
        },
        Some(ZoomType::Additive) => {
            let a = c.additive.unwrap() as nat;
            (
                WindowState {
                    current_font_size: Some(clamp_i64(cur - a)),
                    current_zoom_factor: s.current_zoom_factor,
                },
                stepped(AdjustOp::Decrease, a, c.step_size, c.exact_steps),
            )
        },
        Some(ZoomType::Multiplicative) => {
            if far_apart(FACTOR_ONE, s.current_zoom_factor) {
                (
                    WindowState { current_font_size: Some(baseline as i64), current_zoom_factor: FACTOR_ONE },
                    rescale(s.current_zoom_factor as nat, FACTOR_ONE as nat, c.step_size as nat),
                )
            } else {
                (s, Seq::empty())
            }
        },
        None => (s, Seq::empty()),
    }
}

fn repeat_adjustment(adj: FontAdjustment, n: u64) -> (r: Vec<FontAdjustment>)
    ensures
        r@ == repeated(adj, n as nat),
{
    let mut out: Vec<FontAdjustment> = Vec::new();
    let mut i: u64 = 0;
    while i < n
        invariant
            i <= n,
            out@ == repeated(adj, i as nat),
        decreases n - i,
    {
        out.push(adj);
        i = i + 1;
        assert(out@ =~= repeated(adj, i as nat));
    }
    out
}

fn ceil_div_u64(a: u64, b: u64) -> (r: u64)
    requires
        b > 0,
    ensures
        r == ceil_div(a as nat, b as nat),
{
    let q = a / b;
    if a % b == 0 {
        q
    } else {
        assert(q < a) by (nonlinear_arith)
            requires
                q == a / b,
                a % b != 0,
                b > 0,
        ;
        q + 1
    }
}

fn stepped_exec(op: AdjustOp, diff: u64, step: u32, exact: bool) -> (r: Vec<FontAdjustment>)
    requires
        step >= 1,
    ensures
        r@ == stepped(op, diff as nat, step, exact),
{
    assert(CENTIPOINTS_PER_POINT == 100);
    let width: u64 = step as u64 * 100;
    let adj = FontAdjustment { op, numerator: step as u64, denominator: 1 };
    if exact {
        let mut out = repeat_adjustment(adj, diff / width);
        let rem = diff % width;
        let ghost whole = out@;
        if rem != 0 {
            out.push(FontAdjustment { op, numerator: rem, denominator: 100 });
        }
        assert(out@ =~= stepped(op, diff as nat, step, exact));
        out
    } else {
        repeat_adjustment(adj, ceil_div_u64(diff, width))
    }
}

/// Whether `a * b <= c`, without overflow.
fn product_at_most(a: u64, b: u64, c: u64) -> (r: bool)
    ensures
        r == (a * b <= c),
{
    match a.checked_mul(b) {
        Some(p) => p <= c,
        None => false,
    }
}

fn steps_between_exec(from: i64, to: i64, step: u32, exact: bool) -> (r: Vec<FontAdjustment>)
    requires
        step >= 1,
    ensures
        r@ == steps_between(from as int, to as int, step, exact),
{
    if from < to {
        stepped_exec(AdjustOp::Increase, (to as i128 - from as i128) as u64, step, exact)
    } else if from > to {
        stepped_exec(AdjustOp::Decrease, (from as i128 - to as i128) as u64, step, exact)
    } else {
        Vec::new()
    }
}

fn scale_up_exec(cur: u32, target: u32, step: u32) -> (r: Vec<FontAdjustment>)
    ensures
        r@ == scale_up(cur as nat, target as nat, step as nat),
{
    let mut out: Vec<FontAdjustment> = Vec::new();
    let mut z: u64 = cur as u64;
    let t: u64 = target as u64;
    let s: u64 = step as u64;
    while z > 0 && s >= 2 && product_at_most(z, s, t)
        invariant
            z <= u32::MAX || z == cur,
            z <= t || z == cur,
            cur <= u32::MAX,
            t == target,
            s == step,
            out@ + scale_up(z as nat, t as nat, s as nat) == scale_up(cur as nat, target as nat, step as nat),
        decreases t - z,
    {
        assert(z * s <= u32::MAX * u32::MAX) by (nonlinear_arith)
            requires
                z <= u32::MAX,
                s <= u32::MAX,
        ;
        assert(z * s >= z * 2) by (nonlinear_arith)
            requires
                s >= 2,
        ;
        let ghost before = out@;
        out.push(FontAdjustment { op: AdjustOp::Multiply, numerator: s, denominator: 1 });
        assert(out@ + scale_up((z * s) as nat, t as nat, s as nat) =~= before + scale_up(
            z as nat,
            t as nat,
            s as nat,
        ));
        z = z * s;
    }
    if z < t {
        let ghost before = out@;
        out.push(FontAdjustment { op: AdjustOp::Multiply, numerator: t, denominator: z });
        assert(out@ =~= before + scale_up(z as nat, t as nat, s as nat));
    } else {
        assert(out@ =~= out@ + scale_up(z as nat, t as nat, s as nat));
    }
    out
}

fn scale_down_exec(cur: u32, target: u32, step: u32) -> (r: Vec<FontAdjustment>)
    requires
        target <= cur,
    ensures
        r@ == scale_down(cur as nat, 1, target as nat, step as nat),
{
    let mut out: Vec<FontAdjustment> = Vec::new();
    let c: u64 = cur as u64;
    let t: u64 = target as u64;
    let s: u64 = step as u64;
    let mut d: u64 = 1;
    assert(t * d == t);
    while t > 0 && s >= 2 && product_at_most(t * d, s, c)
        invariant
            d >= 1,
            t * d <= c,
            c == cur,
            t == target,
            s == step,
            c <= u32::MAX,
            out@ + scale_down(c as nat, d as nat, t as nat, s as nat) == scale_down(
                cur as nat,
                1,
                target as nat,
                step as nat,
            ),
        decreases c - t * d,
    {
        assert((t * d) * s <= u32::MAX * u32::MAX) by (nonlinear_arith)
            requires
                t * d <= u32::MAX,
                s <= u32::MAX,
        ;
        assert(t * (d * s) == (t * d) * s) by (nonlinear_arith);
        assert(d * s <= t * d * s) by (nonlinear_arith)
            requires
                t > 0,
                d >= 1,
        ;
        assert(t * d * s >= t * d * 2) by (nonlinear_arith)
            requires
                s >= 2,
        ;
        assert(d * s >= 1) by (nonlinear_arith)
            requires
                d >= 1,
                s >= 2,
        ;
        let ghost before = out@;
        out.push(FontAdjustment { op: AdjustOp::Divide, numerator: s, denominator: 1 });
        assert(out@ + scale_down(c as nat, (d * s) as nat, t as nat, s as nat) =~= before + scale_down(
            c as nat,
            d as nat,
            t as nat,
            s as nat,
        ));
        d = d * s;
    }
    if t * d < c {
        let ghost before = out@;
        out.push(FontAdjustment { op: AdjustOp::Divide, numerator: c, denominator: t * d });
        assert(out@ =~= before + scale_down(c as nat, d as nat, t as nat, s as nat));
    } else {
        assert(out@ =~= out@ + scale_down(c as nat, d as nat, t as nat, s as nat));
    }
    out
}

/// The ratio by which a run of commands scales a font, as a numerator and
/// a denominator: multiplications and divisions compose; changes by a
/// number of points are not scalings and count as one.
pub open spec fn scale_of(s: Seq<FontAdjustment>) -> (nat, nat)
    decreases s.len(),
{
    if s.len() == 0 {
        (1, 1)
    } else {
        let rest = scale_of(s.drop_first());
        let a = s[0];
        match a.op {
            AdjustOp::Multiply => (a.numerator as nat * rest.0, a.denominator as nat * rest.1),
            AdjustOp::Divide => (a.denominator as nat * rest.0, a.numerator as nat * rest.1),
            _ => rest,
        }
    }
}

proof fn lemma_scale_up_lands(cur: nat, target: nat, step: nat)
    requires
        0 < cur <= target <= u32::MAX,
        step <= u32::MAX,
    ensures
        scale_of(scale_up(cur, target, step)).0 > 0,
        scale_of(scale_up(cur, target, step)).1 > 0,
        cur * scale_of(scale_up(cur, target, step)).0 == target * scale_of(scale_up(cur, target, step)).1,
    decreases target - cur,
{
    let sq = scale_up(cur, target, step);
    if cur > 0 && step >= 2 && cur * step <= target {
        assert(cur * step >= cur * 2) by (nonlinear_arith)
            requires
                step >= 2,
        ;
        lemma_scale_up_lands(cur * step, target, step);
        let rest = scale_up(cur * step, target, step);
        assert(sq.drop_first() =~= rest);
        let (n, d) = scale_of(rest);
        assert(sq[0] == ratio_of(AdjustOp::Multiply, step, 1));
        assert(scale_of(sq) == (step * n, 1 * d));
        assert(cur * (step * n) == target * (1 * d) && step * n > 0) by (nonlinear_arith)
            requires
                (cur * step) * n == target * d,
                step >= 2,
                n > 0,
        ;
    } else if cur < target {
        assert(sq.drop_first() =~= Seq::<FontAdjustment>::empty());
        assert(scale_of(sq.drop_first()) == (1nat, 1nat));
        assert(sq[0] == ratio_of(AdjustOp::Multiply, target, cur));
        assert(scale_of(sq) == (target * 1, cur * 1));
        assert(cur * (target * 1) == target * (cur * 1)) by (nonlinear_arith);
    } else {
        assert(cur == target);
    }
}

proof fn lemma_scale_down_lands(cur: nat, divisor: nat, target: nat, step: nat)
    requires
        0 < target,
        0 < divisor,
        target * divisor <= cur <= u32::MAX,
        step <= u32::MAX,
    ensures
        scale_of(scale_down(cur, divisor, target, step)).0 > 0,
        scale_of(scale_down(cur, divisor, target, step)).1 > 0,
        cur * scale_of(scale_down(cur, divisor, target, step)).0 == target * divisor * scale_of(
            scale_down(cur, divisor, target, step),
        ).1,
    decreases cur - target * divisor,
{
    let sq = scale_down(cur, divisor, target, step);
    let td = target * divisor;
    assert(td > 0) by (nonlinear_arith)
        requires
            td == target * divisor,
            target > 0,
            divisor > 0,
    ;
    if divisor > 0 && target > 0 && step >= 2 && target * divisor * step <= cur {
        assert(td * step >= td * 2) by (nonlinear_arith)
            requires
                step >= 2,
        ;
        assert(target * (divisor * step) == td * step) by (nonlinear_arith)
            requires
                td == target * divisor,
        ;
        assert(divisor * step > 0) by (nonlinear_arith)
            requires
                divisor > 0,
                step >= 2,
        ;
        lemma_scale_down_lands(cur, divisor * step, target, step);
        let rest = scale_down(cur, divisor * step, target, step);
        assert(sq.drop_first() =~= rest);
        let (n, m) = scale_of(rest);
        assert(sq[0] == ratio_of(AdjustOp::Divide, step, 1));
        assert(scale_of(sq) == (1 * n, step * m));
        assert(cur * (1 * n) == td * (step * m) && step * m > 0) by (nonlinear_arith)
            requires
                cur * n == target * (divisor * step) * m,
                td == target * divisor,
                step >= 2,
                m > 0,
        ;
    } else if target * divisor < cur {
        assert(sq.drop_first() =~= Seq::<FontAdjustment>::empty());
        assert(scale_of(sq.drop_first()) == (1nat, 1nat));
        assert(sq[0] == ratio_of(AdjustOp::Divide, cur, td));
        assert(scale_of(sq) == (td * 1, cur * 1));
        assert(cur * (td * 1) == td * (cur * 1)) by (nonlinear_arith);
    } else {
        assert(cur == td);
    }
}

/// Multiplicative rescaling lands exactly on the target factor: the
/// commands that take a factor from `cur` to `target` scale it by exactly
/// `target / cur`.
pub proof fn lemma_rescale_lands(cur: u32, target: u32, step: u32)
    requires
        cur > 0,
        target > 0,
    ensures
        scale_of(rescale(cur as nat, target as nat, step as nat)).0 > 0,
        scale_of(rescale(cur as nat, target as nat, step as nat)).1 > 0,
        cur * scale_of(rescale(cur as nat, target as nat, step as nat)).0 == target * scale_of(
            rescale(cur as nat, target as nat, step as nat),
        ).1,
{
    if cur < target {
        lemma_scale_up_lands(cur as nat, target as nat, step as nat);
    } else {
        lemma_scale_down_lands(cur as nat, 1, target as nat, step as nat);
    }
}

/// The commands taking a zoom factor from `cur` to `target`.
pub fn rescale_exec(cur: u32, target: u32, step: u32) -> (r: Vec<FontAdjustment>)
    ensures
        r@ == rescale(cur as nat, target as nat, step as nat),
{
    if cur < target {
        scale_up_exec(cur, target, step)
    } else {
        scale_down_exec(cur, target, step)
    }
}

fn add_clamped(a: i64, b: i64) -> (r: i64)
    ensures
        r == clamp_i64(a + b),
{
    match a.checked_add(b) {
        Some(v) => v,
        None => if b > 0 {
            i64::MAX
        } else {
            i64::MIN
        },
    }
}

fn factors_far_apart(a: u32, b: u32) -> (r: bool)
    ensures
        r == far_apart(a, b),
{
    (a > b && a - b > FACTOR_TOLERANCE) || (b > a && b - a > FACTOR_TOLERANCE)
}

/// The state and the commands for a focus gain.
pub fn plan_focus(s: WindowState, c: &ZoomConfig, baseline: u32) -> (r: (WindowState, Vec<FontAdjustment>))
    requires
        c.step_size >= 1,
    ensures
        r.0 == focus_plan(s, *c, baseline).0,
        r.1@ == focus_plan(s, *c, baseline).1,
{
    let cur: i64 = match s.current_font_size {
        Some(f) => f,
        None => baseline as i64,
    };
    match c.active_type() {
        Some(ZoomType::Absolute) => {
            let t = c.absolute.unwrap() as i64;
            if cur == t {
                (s, Vec::new())
            } else {
                (
                    WindowState { current_font_size: Some(t), current_zoom_factor: s.current_zoom_factor },
                    steps_between_exec(cur, t, c.step_size, c.exact_steps),
                )
            }
        },
        Some(ZoomType::Additive) => {
            let a = c.additive.unwrap();
            (
                WindowState {
                    current_font_size: Some(add_clamped(cur, a as i64)),
                    current_zoom_factor: s.current_zoom_factor,
                },
                stepped_exec(AdjustOp::Increase, a as u64, c.step_size, c.exact_steps),
            )
        },
        Some(ZoomType::Multiplicative) => {
            let f = c.multiplicative.unwrap();
            if factors_far_apart(f, s.current_zoom_factor) {
                assert(baseline as u64 * f as u64 <= u32::MAX as u64 * u32::MAX as u64) by (nonlinear_arith);
                let font = ((baseline as u64 * f as u64) / FACTOR_ONE as u64) as i64;
                (
                    WindowState { current_font_size: Some(font), current_zoom_factor: f },
                    rescale_exec(s.current_zoom_factor, f, c.step_size),
                )
            } else {
                (s, Vec::new())
            }
        },
        None => (s, Vec::new()),
    }
}

/// The state and the commands for a focus loss.
pub fn plan_blur(s: WindowState, c: &ZoomConfig, baseline: u32) -> (r: (WindowState, Vec<FontAdjustment>))
    requires
        c.step_size >= 1,
    ensures
        r.0 == blur_plan(s, *c, baseline).0,
        r.1@ == blur_plan(s, *c, baseline).1,
{
    let cur: i64 = match s.current_font_size {
        Some(f) => f,
        None => baseline as i64,
    };
    match c.active_type() {
        Some(ZoomType::Absolute) => {
            if cur == baseline as i64 {
                (s, Vec::new())
            } else {
                (
                    WindowState { current_font_size: Some(baseline as i64), current_zoom_factor: FACTOR_ONE },
                    steps_between_exec(cur, baseline as i64, c.step_size, c.exact_steps),
                )
            }
        },
        Some(ZoomType::Additive) => {
            let a = c.additive.unwrap();
            (
                WindowState {
                    current_font_size: Some(add_clamped(cur, -(a as i64))),
                    current_zoom_factor: s.current_zoom_factor,
                },
                stepped_exec(AdjustOp::Decrease, a as u64, c.step_size, c.exact_steps),
            )
        },
        Some(ZoomType::Multiplicative) => {
            if factors_far_apart(FACTOR_ONE, s.current_zoom_factor) {
                (
                    WindowState { current_font_size: Some(baseline as i64), current_zoom_factor: FACTOR_ONE },
                    rescale_exec(s.current_zoom_factor, FACTOR_ONE, c.step_size),
                )
            } else {
                (s, Vec::new())
            }
        },
        None => (s, Vec::new()),
    }
}

/// Under an absolute policy, a second focus gain with no focus loss in
/// between issues no command and leaves the window as it was.
pub proof fn lemma_absolute_focus_idempotent(s: WindowState, c: ZoomConfig, baseline: u32)
    requires
        active_type_of(c) == Some(ZoomType::Absolute),
    ensures
        focus_plan(focus_plan(s, c, baseline).0, c, baseline).1.len() == 0,
        focus_plan(focus_plan(s, c, baseline).0, c, baseline).0 == focus_plan(s, c, baseline).0,
{
}

proof fn lemma_stepped_mirror(diff: nat, step: u32, exact: bool)
    requires
        step >= 1,
    ensures
        stepped(AdjustOp::Increase, diff, step, exact).len() == stepped(AdjustOp::Decrease, diff, step, exact).len(),
        forall|i: int|
            0 <= i < stepped(AdjustOp::Increase, diff, step, exact).len() ==> {
                let up = #[trigger] stepped(AdjustOp::Increase, diff, step, exact)[i];
                let down = stepped(AdjustOp::Decrease, diff, step, exact)[i];
                up.op == AdjustOp::Increase && down.op == AdjustOp::Decrease && up.numerator == down.numerator
                    && up.denominator == down.denominator
            },
{
    let up = stepped(AdjustOp::Increase, diff, step, exact);
    let down = stepped(AdjustOp::Decrease, diff, step, exact);
    if exact {
        let w = step_width(step);
        assert(w >= 100) by (nonlinear_arith)
            requires
                w == step as nat * 100,
                step >= 1,
        ;
        let n = diff / w;
        let rem = diff % w;
        let ru = repeated(step_of(AdjustOp::Increase, step), n);
        let rd = repeated(step_of(AdjustOp::Decrease, step), n);
        let tu = if rem == 0 {
            Seq::<FontAdjustment>::empty()
        } else {
            seq![ratio_of(AdjustOp::Increase, rem, CENTIPOINTS_PER_POINT as nat)]
        };
        let td = if rem == 0 {
            Seq::<FontAdjustment>::empty()
        } else {
            seq![ratio_of(AdjustOp::Decrease, rem, CENTIPOINTS_PER_POINT as nat)]
        };
        assert(up == ru + tu);
        assert(down == rd + td);
        assert(ru.len() == n && rd.len() == n);
        assert(tu.len() == td.len());
        assert forall|i: int| 0 <= i < up.len() implies up[i].op == AdjustOp::Increase && down[i].op
            == AdjustOp::Decrease && up[i].numerator == down[i].numerator && up[i].denominator
            == down[i].denominator by {
            if i < n {
                assert(up[i] == ru[i]);
                assert(down[i] == rd[i]);
            } else {
                assert(up[i] == tu[i - n]);
                assert(down[i] == td[i - n]);
            }
        }
    } else {
        let n = ceil_div(diff, step_width(step));
        assert(up.len() == n && down.len() == n);
        assert forall|i: int| 0 <= i < up.len() implies up[i].op == AdjustOp::Increase && down[i].op
            == AdjustOp::Decrease && up[i].numerator == down[i].numerator && up[i].denominator
            == down[i].denominator by {
            assert(up[i] == step_of(AdjustOp::Increase, step));
            assert(down[i] == step_of(AdjustOp::Decrease, step));
        }
    }
}

/// Under an additive policy, a focus gain followed by a focus loss issues
/// as many decreases as increases, each of one step, and brings the
/// believed font size back where it was (away from the limits of `i64`).
pub proof fn lemma_additive_round_trip(s: WindowState, c: ZoomConfig, baseline: u32)
    requires
        active_type_of(c) == Some(ZoomType::Additive),
        c.step_size >= 1,
        s.current_font_size is Some,
        font_of(s, baseline) + c.additive.unwrap() <= i64::MAX,
    ensures
        blur_plan(focus_plan(s, c, baseline).0, c, baseline).0.current_font_size == s.current_font_size,
        blur_plan(focus_plan(s, c, baseline).0, c, baseline).0.current_zoom_factor == s.current_zoom_factor,
        blur_plan(focus_plan(s, c, baseline).0, c, baseline).1.len() == focus_plan(s, c, baseline).1.len(),
        forall|i: int|
            0 <= i < focus_plan(s, c, baseline).1.len() ==> focus_plan(s, c, baseline).1[i].op == AdjustOp::Increase
                && blur_plan(focus_plan(s, c, baseline).0, c, baseline).1[i].op == AdjustOp::Decrease
                && focus_plan(s, c, baseline).1[i].numerator == blur_plan(
                focus_plan(s, c, baseline).0,
                c,
                baseline,
            ).1[i].numerator && focus_plan(s, c, baseline).1[i].denominator == blur_plan(
                focus_plan(s, c, baseline).0,
                c,
                baseline,
            ).1[i].denominator,
{
    lemma_stepped_mirror(c.additive.unwrap() as nat, c.step_size, c.exact_steps);
}

/// Under a multiplicative policy, a second focus gain with no focus loss in
/// between issues no command and leaves the window as it was.
pub proof fn lemma_multiplicative_focus_idempotent(s: WindowState, c: ZoomConfig, baseline: u32)
    requires
        active_type_of(c) == Some(ZoomType::Multiplicative),
    ensures
        focus_plan(focus_plan(s, c, baseline).0, c, baseline).1.len() == 0,
        focus_plan(focus_plan(s, c, baseline).0, c, baseline).0 == focus_plan(s, c, baseline).0,
{
}

} // verus!
