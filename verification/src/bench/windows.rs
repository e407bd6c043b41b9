//! Rolling windows over the test part of a series.
//!
//! A window is a place at which a forecast starts, with the values before it as context. The values
//! of a series and of a forecast are held as the bits of singles.

use vstd::arithmetic::div_mod;
use vstd::arithmetic::power2;
use vstd::prelude::*;

use crate::bench::double;
use crate::bench::double::Double;

verus! {

/// One window's forecast, what really came, the context that the forecast was made from, and the
/// width of the forecast's spread, which is not a number where the model gives none.
#[derive(Clone, Debug)]
pub struct WindowResult {
    pub point: Vec<u32>,
    pub truth: Vec<u32>,
    pub context: Vec<u32>,
    pub iqr: u32,
}

/// What a window's result holds.
pub struct WindowView {
    pub point: Seq<u32>,
    pub truth: Seq<u32>,
    pub context: Seq<u32>,
    pub iqr: u32,
}

impl View for WindowResult {
    type V = WindowView;

    open spec fn view(&self) -> WindowView {
        WindowView { point: self.point@, truth: self.truth@, context: self.context@, iqr: self.iqr }
    }
}

/// All windows of a model.
#[derive(Debug)]
pub struct ModelRunResult {
    /// One entry for each window; none where there was too little context or no forecast.
    pub windows: Vec<Option<WindowResult>>,
    pub errors: usize,
}

/// A model's forecast for a window.
#[derive(Debug)]
pub struct Prediction {
    pub point: Vec<u32>,
    pub iqr: Option<u32>,
}

/// Where a window lies: its context is `context_start..start`, and its forecast starts at `start`.
#[derive(Debug, Clone, Copy, PartialEq, Eq, Structural)]
pub struct WindowPlan {
    pub context_start: usize,
    pub start: usize,
}

/// The bits of a single that is not a number.
pub const NOT_A_NUMBER: u32 = 0x7fc0_0000;

/// A whole number in double precision.
pub open spec fn whole(x: int) -> int {
    if x < 0 {
        -double::of_whole((-x) as nat)
    } else {
        double::of_whole(x as nat) as int
    }
}

/// Step `i` of evenly spaced numbers away from the first, in double precision.
pub open spec fn stride(start: int, stop: int, num: nat, i: int) -> int {
    let over = |d: int| double::product(
        double::of_whole(i as nat),
        double::quotient(double::of_whole(d as nat), double::of_whole((num - 1) as nat)),
    ) as int;
    if stop < start {
        -over(start - stop)
    } else {
        over(stop - start)
    }
}

/// Number `i` of `num` evenly spaced numbers from `start` to `stop`: it is computed in double
/// precision, but for the last one, which is `stop`, and rounded down; it is zero where it is
/// negative, and the greatest number there is where it is greater.
pub open spec fn spaced(start: int, stop: int, num: nat, i: int) -> int {
    let v = if num <= 1 {
        start
    } else if i == num - 1 {
        stop
    } else {
        (double::sum(whole(start), stride(start, stop, num, i)) / double::one()) as int
    };
    if v < 0 {
        0
    } else if v < usize::MAX {
        v
    } else {
        usize::MAX as int
    }
}

/// A double of a number of at most 53 binary digits is the number.
proof fn lemma_whole_exact(x: nat)
    requires
        x <= double::BEYOND,
    ensures
        double::of_whole(x) == x * double::one(),
{
    double::lemma_exact(x, 128, 1);
    assert((x * double::one()) * 1 == x * double::one());
}

/// A stride is zero at the start, does not go back, and stops short of the end.
proof fn lemma_stride(d: nat, n: nat, i: nat, j: nat)
    requires
        d <= double::BEYOND,
        0 < n <= double::BEYOND,
        i <= j < n,
    ensures
        stride(0, d as int, n + 1, 0) == 0,
        0 <= stride(0, d as int, n + 1, i as int) <= stride(0, d as int, n + 1, j as int) <= d * double::one(),
{
    let u = double::one();
    power2::lemma_pow2_pos(128);
    lemma_whole_exact(d);
    lemma_whole_exact(n);
    lemma_whole_exact(i);
    lemma_whole_exact(j);
    lemma_whole_exact(0);
    let s = double::quotient(d * u, n * u);
    assert(0 * u == 0 && 0 * s == 0) by (nonlinear_arith);
    double::lemma_exact(0, 0, u);
    assert((0 * power2::pow2(0)) * u == 0) by (nonlinear_arith);
    assert((i * u) * s <= (j * u) * s) by (nonlinear_arith)
        requires
            i <= j,
    ;
    double::lemma_ordered((i * u) * s, (j * u) * s, u);
    if d == 0 {
        assert(n * u > 0) by (nonlinear_arith)
            requires
                n > 0,
                u > 0,
        ;
        double::lemma_exact(0, 0, n * u);
        assert((0 * power2::pow2(0)) * (n * u) == 0) by (nonlinear_arith);
        assert((d * u) * u == 0) by (nonlinear_arith)
            requires
                d == 0,
        ;
        assert((j * u) * 0 == 0);
    } else {
        power2::lemma2_to64();
        power2::lemma_pow2_adds(64, 64);
        let b = double::BEYOND as nat;
        assert(n * u > 0) by (nonlinear_arith)
            requires
                n > 0,
                u > 0,
        ;
        assert(2 * ((d * u) * u) >= b * (n * u)) by (nonlinear_arith)
            requires
                d >= 1,
                n <= b,
                u >= b * b,
                b == 0x20_0000_0000_0000nat,
        ;
        double::lemma_close((d * u) * u, n * u);
        assert(b * (s * n) <= (b + 1) * (d * u)) by (nonlinear_arith)
            requires
                b * (s * (n * u)) <= (b + 1) * ((d * u) * u),
                u > 0,
        ;
        assert(j * s <= d * u) by (nonlinear_arith)
            requires
                b * (s * n) <= (b + 1) * (d * u),
                j + 1 <= n <= b,
                s >= 0,
                b > 0,
        ;
        assert((j * u) * s <= (d * u) * u) by (nonlinear_arith)
            requires
                j * s <= d * u,
        ;
        double::lemma_ordered((j * u) * s, (d * u) * u, u);
        double::lemma_exact(d, 128, u);
    }
}

/// Between ends of at most 53 binary digits, all numbers lie between them and none goes back.
proof fn lemma_spaced_between(start: int, stop: int, num: nat, i: int, j: int)
    requires
        0 <= start <= stop <= double::BEYOND,
        stop < usize::MAX,
        num <= double::BEYOND,
        0 <= i <= j < num,
    ensures
        start <= spaced(start, stop, num, i) <= spaced(start, stop, num, j) <= stop,
        spaced(start, stop, num, 0) == start,
{
    if num > 1 {
        let u = double::one();
        power2::lemma_pow2_pos(128);
        let n = (num - 1) as nat;
        lemma_whole_exact(start as nat);
        if j == n {
            if i == n {
                lemma_stride((stop - start) as nat, n, 0, 0);
                lemma_sum(start, stop, 0, 0);
            } else {
                lemma_stride((stop - start) as nat, n, i as nat, i as nat);
                let p = stride(start, stop, num, i);
                lemma_sum(start, stop, p, p);
                lemma_sum(start, stop, 0, p);
            }
        } else {
            lemma_stride((stop - start) as nat, n, i as nat, j as nat);
            lemma_sum(start, stop, stride(start, stop, num, i), stride(start, stop, num, j));
            lemma_sum(start, stop, 0, stride(start, stop, num, i));
        }
    }
}

proof fn lemma_sum(start: int, stop: int, p: int, q: int)
    requires
        0 <= start <= stop <= double::BEYOND,
        0 <= p <= q <= (stop - start) * double::one(),
    ensures
        start <= double::sum(whole(start), p) / double::one() <= double::sum(whole(start), q) / double::one() <= stop,
        double::sum(whole(start), 0) / double::one() == start,
{
    let u = double::one();
    power2::lemma_pow2_pos(128);
    lemma_whole_exact(start as nat);
    lemma_whole_exact(stop as nat);
    let a = start * u;
    assert(a + (stop - start) * u == stop * u) by (nonlinear_arith)
        requires
            a == start * u,
    ;
    assert(a >= 0) by (nonlinear_arith)
        requires
            a == start * u,
            start >= 0,
            u > 0,
    ;
    double::lemma_ordered(a as nat, (a + p) as nat, 1);
    double::lemma_ordered((a + p) as nat, (a + q) as nat, 1);
    double::lemma_ordered((a + q) as nat, (stop * u) as nat, 1);
    div_mod::lemma_div_is_ordered(a, double::sum(a, p) as int, u as int);
    div_mod::lemma_div_is_ordered(double::sum(a, p) as int, double::sum(a, q) as int, u as int);
    div_mod::lemma_div_is_ordered(double::sum(a, q) as int, stop * u, u as int);
    div_mod::lemma_fundamental_div_mod_converse(a, u as int, start, 0);
    div_mod::lemma_fundamental_div_mod_converse(stop * u, u as int, stop, 0);
}

/// `num` evenly spaced numbers from `start` to `stop`, each rounded down.
pub fn linspace_int(start: i64, stop: i64, num: usize) -> (r: Vec<usize>)
    requires
        start <= usize::MAX,
        stop <= usize::MAX,
        num > 1 ==> i64::MIN <= stop - start <= i64::MAX,
    ensures
        r@.len() == num,
        forall|i: int| 0 <= i < num ==> #[trigger] r@[i] == spaced(start as int, stop as int, num as nat, i),
{
    let mut out: Vec<usize> = Vec::new();
    if num == 0 {
        return out;
    }
    if num == 1 {
        out.push(if start < 0 { 0 } else { start as usize });
        return out;
    }
    let back: bool = stop < start;
    let gap: u64 = if back {
        (start as i128 - stop as i128) as u64
    } else {
        (stop as i128 - start as i128) as u64
    };
    let first: Double = Double::of(
        if start < 0 {
            (-(start as i128)) as u64
        } else {
            start as u64
        },
    );
    let parts: Double = Double::of((num - 1) as u64);
    let distance: Double = Double::of(gap);
    proof {
        lemma_positive((num - 1) as nat);
        if gap > 0 {
            lemma_positive(gap as nat);
        }
    }
    let step: Double = if gap == 0 {
        Double { mant: 0, exp: 0 }
    } else {
        distance.over(parts)
    };
    proof {
        if gap == 0 {
            lemma_zero_quotient(parts.units());
            lemma_nothing(step);
        }
    }
    let mut i: usize = 0;
    while i + 1 < num
        invariant
            1 < num,
            i < num,
            start <= usize::MAX,
            stop <= usize::MAX,
            i64::MIN <= stop - start <= i64::MAX,
            back == (stop < start),
            first.wf() && first.whole(),
            step.wf() && step.exp <= 210,
            first.units() == double::of_whole(
                (if start < 0 {
                    -start
                } else {
                    start as int
                }) as nat,
            ),
            step.units() == double::quotient(
                double::of_whole(
                    (if back {
                        start - stop
                    } else {
                        stop - start
                    }) as nat,
                ),
                double::of_whole((num - 1) as nat),
            ),
            out@.len() == i,
            forall|j: int| 0 <= j < i ==> #[trigger] out@[j] == spaced(start as int, stop as int, num as nat, j),
        decreases num - i,
    {
        let gone: Double = Double::of(i as u64).times(step);
        let at: Double = if start < 0 {
            if back {
                Double { mant: 0, exp: 0 }
            } else {
                gone.minus(first)
            }
        } else if back {
            first.minus(gone)
        } else {
            first.plus(gone)
        };
        proof {
            power2::lemma_pow2_pos(128);
            let w = whole(start as int);
            let p = stride(start as int, stop as int, num as nat, i as int);
            if start < 0 && back {
                lemma_zero();
                lemma_nothing(at);
                assert(double::sum(w, p) == 0);
            }
            assert(at.units() == double::sum(w, p));
        }
        out.push(at.floor());
        i += 1;
    }
    out.push(if stop < 0 { 0 } else { stop as usize });
    out
}

proof fn lemma_nothing(x: Double)
    requires
        x.mant == 0,
    ensures
        x.units() == 0,
{
    assert(0 * power2::pow2(x.exp as nat) == 0) by (nonlinear_arith);
}

proof fn lemma_zero()
    ensures
        double::rounded(0, 1) == 0,
{
    double::lemma_exact(0, 0, 1);
    assert(0 * power2::pow2(0) == 0);
}

/// A whole number that is not zero has a double that is not zero.
proof fn lemma_positive(x: nat)
    requires
        x > 0,
    ensures
        double::of_whole(x) > 0,
{
    power2::lemma_pow2_pos(128);
    assert(1 * double::one() <= x * double::one()) by (nonlinear_arith)
        requires
            x >= 1,
    ;
    lemma_whole_exact(1);
    double::lemma_ordered(1 * double::one(), x * double::one(), 1);
}

proof fn lemma_zero_quotient(y: nat)
    requires
        y > 0,
    ensures
        double::quotient(double::of_whole(0), y) == 0,
{
    lemma_zero();
    double::lemma_exact(0, 0, y);
    assert((0 * power2::pow2(0)) * y == 0) by (nonlinear_arith);
    assert(0 * double::one() == 0);
}

/// The first place after the training part.
pub open spec fn train_end(series_len: int, test_rows: int) -> int {
    if series_len < test_rows {
        0
    } else {
        series_len - test_rows
    }
}

/// The number of places at which a forecast of the horizon can start, short of the last.
pub open spec fn max_start(series_len: int, horizon: int) -> int {
    if series_len < horizon {
        0
    } else {
        series_len - horizon
    }
}

/// Where the context of a window starts.
pub open spec fn context_start(start: int, context_len: int) -> int {
    if start < context_len {
        0
    } else {
        start - context_len
    }
}

/// Where window `i` lies. There is none where the test part has no room for the horizon, where the
/// start leaves none, or where fewer than two values come before the forecast.
pub open spec fn window_at(
    series_len: int,
    test_rows: int,
    context_len: int,
    horizon: int,
    n_windows: nat,
    i: int,
) -> Option<WindowPlan> {
    let from = train_end(series_len, test_rows);
    let to = max_start(series_len, horizon);
    if to <= from {
        None
    } else {
        let start = spaced(from, to - 1, n_windows, i);
        let ctx = context_start(start, context_len);
        if start > to || start - ctx < 2 {
            None
        } else {
            Some(WindowPlan { context_start: ctx as usize, start: start as usize })
        }
    }
}

/// Where the windows of a series lie.
pub fn plan_windows(series_len: usize, test_rows: usize, context_len: usize, horizon: usize, n_windows: usize) -> (r:
    Vec<Option<WindowPlan>>)
    requires
        series_len <= i64::MAX,
    ensures
        r@.len() == n_windows,
        forall|i: int|
            0 <= i < n_windows ==> #[trigger] r@[i] == window_at(
                series_len as int,
                test_rows as int,
                context_len as int,
                horizon as int,
                n_windows as nat,
                i,
            ),
{
    let from: usize = if series_len < test_rows { 0 } else { series_len - test_rows };
    let to: usize = if series_len < horizon { 0 } else { series_len - horizon };
    let mut out: Vec<Option<WindowPlan>> = Vec::new();
    let mut i: usize = 0;
    if to <= from {
        while i < n_windows
            invariant
                i <= n_windows,
                out@.len() == i,
                forall|j: int| 0 <= j < i ==> #[trigger] out@[j] == None::<WindowPlan>,
            decreases n_windows - i,
        {
            out.push(None);
            i += 1;
        }
        return out;
    }
    let starts: Vec<usize> = linspace_int(from as i64, to as i64 - 1, n_windows);
    while i < n_windows
        invariant
            i <= n_windows,
            to > from,
            from == train_end(series_len as int, test_rows as int),
            to == max_start(series_len as int, horizon as int),
            starts@.len() == n_windows,
            forall|j: int|
                0 <= j < n_windows ==> #[trigger] starts@[j] == spaced(from as int, to - 1, n_windows as nat, j),
            out@.len() == i,
            forall|j: int|
                0 <= j < i ==> #[trigger] out@[j] == window_at(
                    series_len as int,
                    test_rows as int,
                    context_len as int,
                    horizon as int,
                    n_windows as nat,
                    j,
                ),
        decreases n_windows - i,
    {
        let start: usize = starts[i];
        let ctx: usize = if start < context_len { 0 } else { start - context_len };
        out.push(if start > to || start - ctx < 2 { None } else { Some(WindowPlan { context_start: ctx, start }) });
        i += 1;
    }
    out
}

/// Every window leaves room for the horizon, and its context is no longer than asked for and ends
/// where the forecast starts; while double precision tells all places and windows apart, every window
/// lies in the test part.
pub proof fn law_windows_fit(
    series_len: int,
    test_rows: int,
    context_len: int,
    horizon: int,
    n_windows: nat,
    i: int,
)
    requires
        0 <= series_len <= usize::MAX,
        0 <= test_rows,
        0 <= context_len,
        0 <= horizon,
        0 <= i < n_windows,
    ensures
        window_at(series_len, test_rows, context_len, horizon, n_windows, i) matches Some(w) ==> {
            &&& w.start + horizon <= series_len
            &&& series_len <= double::BEYOND && n_windows <= double::BEYOND ==> train_end(series_len, test_rows) <= w.start
                && w.start + horizon < series_len
            &&& w.context_start + 2 <= w.start
            &&& w.start - w.context_start <= context_len
        },
{
    let from = train_end(series_len, test_rows);
    let to = max_start(series_len, horizon);
    if to > from && series_len <= double::BEYOND && n_windows <= double::BEYOND {
        lemma_spaced_between(from, to - 1, n_windows, i, i);
    }
}

/// The first window starts where the training part ends, and the last one as late as any can but
/// one; in between the starts do not go back.
pub proof fn law_windows_spread(from: int, to: int, n_windows: nat, i: int, j: int)
    requires
        0 <= from <= to <= double::BEYOND,
        to < usize::MAX,
        2 <= n_windows <= double::BEYOND,
        0 <= i <= j < n_windows,
    ensures
        spaced(from, to, n_windows, 0) == from,
        spaced(from, to, n_windows, n_windows - 1) == to,
        spaced(from, to, n_windows, i) <= spaced(from, to, n_windows, j),
{
    lemma_spaced_between(from, to, n_windows, i, j);
}

/// The result of a window, where it has a place and a forecast that is long enough.
pub open spec fn result_at(series: Seq<u32>, horizon: int, plan: Option<WindowPlan>, made: Option<Prediction>) -> Option<
    WindowView,
> {
    match plan {
        None => None,
        Some(w) => match made {
            None => None,
            Some(p) => if p.point@.len() < horizon {
                None
            } else {
                Some(
                    WindowView {
                        point: p.point@.take(horizon),
                        truth: series.subrange(w.start as int, w.start + horizon),
                        context: series.subrange(w.context_start as int, w.start as int),
                        iqr: match p.iqr {
                            Some(v) => v,
                            None => NOT_A_NUMBER,
                        },
                    },
                )
            },
        },
    }
}

/// Whether a window lies in the series.
pub open spec fn inside(series_len: int, horizon: int, plan: Option<WindowPlan>) -> bool {
    plan matches Some(w) ==> w.context_start <= w.start && w.start + horizon <= series_len
}

/// What an optional result holds.
pub open spec fn held(w: Option<WindowResult>) -> Option<WindowView> {
    match w {
        Some(w) => Some(w@),
        None => None,
    }
}

/// How many of the first `n` windows have no result.
pub open spec fn missing(windows: Seq<Option<WindowResult>>, n: nat) -> nat
    decreases n,
{
    if n == 0 {
        0
    } else {
        missing(windows, (n - 1) as nat) + (if windows[n - 1] is None {
            1nat
        } else {
            0
        })
    }
}

fn part(series: &[u32], from: usize, to: usize) -> (r: Vec<u32>)
    requires
        from <= to <= series@.len(),
    ensures
        r@ == series@.subrange(from as int, to as int),
{
    let mut out: Vec<u32> = Vec::new();
    out.extend_from_slice(vstd::slice::slice_subrange(series, from, to));
    assert(out@ =~= series@.subrange(from as int, to as int));
    out
}

/// The result of one window.
pub fn window_result(series: &[u32], horizon: usize, plan: &Option<WindowPlan>, made: &Option<Prediction>) -> (r:
    Option<WindowResult>)
    requires
        inside(series@.len() as int, horizon as int, *plan),
    ensures
        held(r) == result_at(series@, horizon as int, *plan, *made),
{
    match plan {
        None => None,
        Some(w) => match made {
            None => None,
            Some(p) => {
                if p.point.len() < horizon {
                    return None;
                }
                let n: usize = series.len();
                let point: Vec<u32> = part(p.point.as_slice(), 0, horizon);
                assert(point@ =~= p.point@.take(horizon as int));
                Some(
                    WindowResult {
                        point,
                        truth: part(series, w.start, w.start + horizon),
                        context: part(series, w.context_start, w.start),
                        iqr: match p.iqr {
                            Some(v) => v,
                            None => NOT_A_NUMBER,
                        },
                    },
                )
            },
        },
    }
}

proof fn lemma_missing_prefix(a: Seq<Option<WindowResult>>, b: Seq<Option<WindowResult>>, n: nat)
    requires
        n <= a.len(),
        n <= b.len(),
        forall|i: int| 0 <= i < n ==> a[i] == b[i],
    ensures
        missing(a, n) == missing(b, n),
    decreases n,
{
    if n > 0 {
        lemma_missing_prefix(a, b, (n - 1) as nat);
    }
}

/// The results of all windows. A window without a place, without a forecast, or with one that is too
/// short counts as an error.
pub fn collect_windows(series: &[u32], horizon: usize, plans: &Vec<Option<WindowPlan>>, made: &Vec<
    Option<Prediction>,
>) -> (r: ModelRunResult)
    requires
        plans@.len() == made@.len(),
        forall|i: int|
            0 <= i < plans@.len() ==> inside(series@.len() as int, horizon as int, #[trigger] plans@[i]),
    ensures
        r.windows@.len() == plans@.len(),
        forall|i: int|
            0 <= i < plans@.len() ==> held(#[trigger] r.windows@[i]) == result_at(
                series@,
                horizon as int,
                plans@[i],
                made@[i],
            ),
        r.errors == missing(r.windows@, plans@.len()),
{
    let mut windows: Vec<Option<WindowResult>> = Vec::new();
    let mut errors: usize = 0;
    let mut i: usize = 0;
    while i < plans.len()
        invariant
            i <= plans@.len() == made@.len(),
            forall|j: int|
                0 <= j < plans@.len() ==> inside(series@.len() as int, horizon as int, #[trigger] plans@[j]),
            windows@.len() == i,
            errors <= i,
            errors == missing(windows@, i as nat),
            forall|j: int|
                0 <= j < i ==> held(#[trigger] windows@[j]) == result_at(series@, horizon as int, plans@[j], made@[j]),
        decreases plans@.len() - i,
    {
        let ghost before = windows@;
        let w = window_result(series, horizon, &plans[i], &made[i]);
        match &w {
            None => {
                errors += 1;
            },
            Some(_) => {},
        }
        windows.push(w);
        proof {
            lemma_missing_prefix(before, windows@, i as nat);
        }
        i += 1;
    }
    ModelRunResult { windows, errors }
}

/// When there is a window: where the test part is longer than the horizon, one starts at each of the
/// evenly spaced places from the end of the training part to one before the last from which the
/// horizon fits, wherever two values come before it and two are asked for. Its context is as many of
/// the values before it as are asked for, or all of them where there are fewer.
pub proof fn law_windows_exist(
    series_len: int,
    test_rows: int,
    context_len: int,
    horizon: int,
    n_windows: nat,
    i: int,
)
    requires
        0 <= horizon < test_rows <= series_len <= double::BEYOND,
        series_len <= usize::MAX,
        0 <= context_len,
        0 <= i < n_windows <= double::BEYOND,
    ensures
        ({
            let start = spaced(series_len - test_rows, series_len - horizon - 1, n_windows, i);
            let w = window_at(series_len, test_rows, context_len, horizon, n_windows, i);
            &&& series_len - test_rows <= start < series_len - horizon
            &&& w is Some <==> start >= 2 && context_len >= 2
            &&& w is Some ==> w->0.start == start
            &&& w is Some && context_len <= start ==> w->0.start - w->0.context_start == context_len
            &&& w is Some && context_len > start ==> w->0.context_start == 0
        }),
{
    lemma_spaced_between(series_len - test_rows, series_len - horizon - 1, n_windows, i, i);
}

/// Where the test part has no room for the horizon there is no window.
pub proof fn law_no_room_no_window(
    series_len: int,
    test_rows: int,
    context_len: int,
    horizon: int,
    n_windows: nat,
    i: int,
)
    requires
        0 <= test_rows <= horizon || series_len <= horizon,
        0 <= test_rows,
        0 <= series_len,
        0 <= horizon,
    ensures
        window_at(series_len, test_rows, context_len, horizon, n_windows, i) is None,
{
}

/// Where the distance is a whole number of steps, the starts are exactly that step apart.
pub proof fn law_even_steps(start: nat, step: nat, n: nat, i: nat)
    requires
        start + n * step <= double::BEYOND,
        start + n * step < usize::MAX,
        0 < n <= double::BEYOND,
        i <= n,
    ensures
        spaced(start as int, (start + n * step) as int, n + 1, i as int) == start + i * step,
{
    let u = double::one();
    let d = n * step;
    power2::lemma_pow2_pos(128);
    assert(step <= d && i * step <= d) by (nonlinear_arith)
        requires
            d == n * step,
            0 < n,
            i <= n,
    ;
    if i < n {
        lemma_whole_exact(d);
        lemma_whole_exact(n);
        lemma_whole_exact(i);
        lemma_whole_exact(start);
        assert(n * u > 0) by (nonlinear_arith)
            requires
                n > 0,
                u > 0,
        ;
        double::lemma_exact(step, 128, n * u);
        assert((d * u) * u == (step * u) * (n * u)) by (nonlinear_arith)
            requires
                d == n * step,
        ;
        assert(double::quotient(d * u, n * u) == step * u);
        double::lemma_exact(i * step, 128, u);
        assert((i * u) * (step * u) == ((i * step) * u) * u) by (nonlinear_arith);
        assert(double::product(i * u, step * u) == (i * step) * u);
        double::lemma_exact(start + i * step, 128, 1);
        assert(start * u + (i * step) * u == (start + i * step) * u) by (nonlinear_arith);
        assert(((start + i * step) * u) * 1 == (start + i * step) * u);
        assert(double::sum((start * u) as int, ((i * step) * u) as int) == (start + i * step) * u);
        assert(((start + i * step) * u) / u == start + i * step) by (nonlinear_arith)
            requires
                u > 0,
        ;
    }
}

/// A window's result is the first values of the forecast up to the horizon, the values of the series
/// that they are of, and the values before them; it has a spread where the forecast has one. A
/// forecast that is too short gives none.
pub proof fn law_results_of_windows(series: Seq<u32>, horizon: int, w: WindowPlan, p: Prediction, t: int)
    requires
        0 <= horizon,
        inside(series.len() as int, horizon, Some(w)),
    ensures
        result_at(series, horizon, None, Some(p)) is None,
        result_at(series, horizon, Some(w), None) is None,
        p.point@.len() < horizon ==> result_at(series, horizon, Some(w), Some(p)) is None,
        p.point@.len() >= horizon ==> result_at(series, horizon, Some(w), Some(p)) is Some,
        result_at(series, horizon, Some(w), Some(p)) matches Some(v) ==> {
            &&& v.point.len() == horizon
            &&& v.truth.len() == horizon
            &&& v.context.len() == w.start - w.context_start
            &&& 0 <= t < horizon ==> v.point[t] == p.point@[t] && v.truth[t] == series[w.start + t]
            &&& 0 <= t < w.start - w.context_start ==> v.context[t] == series[w.context_start + t]
            &&& p.iqr is Some ==> v.iqr == p.iqr->0
            &&& p.iqr is None ==> v.iqr == 0x7fc0_0000
        },
{
}

proof fn lemma_missing_of_first(a: Seq<Option<WindowResult>>, b: Seq<Option<WindowResult>>, n: nat)
    requires
        n <= a.len(),
        n <= b.len(),
        forall|i: int| 0 <= i < n ==> a[i] == b[i],
    ensures
        missing(a, n) == missing(b, n),
    decreases n,
{
    if n > 0 {
        lemma_missing_of_first(a, b, (n - 1) as nat);
    }
}

/// Every window without a result counts as one error.
pub proof fn law_errors_are_counted(windows: Seq<Option<WindowResult>>, w: WindowResult)
    ensures
        missing(windows, 0) == 0,
        missing(windows.push(None), windows.len() + 1) == missing(windows, windows.len()) + 1,
        missing(windows.push(Some(w)), windows.len() + 1) == missing(windows, windows.len()),
{
    lemma_missing_of_first(windows, windows.push(None), windows.len());
    lemma_missing_of_first(windows, windows.push(Some(w)), windows.len());
}

/// Where the steps lead down, they are exactly that step apart as well.
pub proof fn law_even_steps_down(stop: nat, step: nat, n: nat, i: nat)
    requires
        stop + n * step <= double::BEYOND,
        stop + n * step < usize::MAX,
        0 < n <= double::BEYOND,
        i <= n,
    ensures
        spaced((stop + n * step) as int, stop as int, n + 1, i as int) == stop + (n - i) * step,
{
    let u = double::one();
    let d = n * step;
    let start = stop + d;
    let left = (n - i) as nat;
    power2::lemma_pow2_pos(128);
    assert(step <= d && left * step <= d && i * step <= d && i * step + left * step == d) by (nonlinear_arith)
        requires
            d == n * step,
            0 < n,
            i <= n,
            left == n - i,
    ;
    if i < n {
        lemma_whole_exact(d);
        lemma_whole_exact(n);
        lemma_whole_exact(i);
        lemma_whole_exact(start);
        assert(n * u > 0) by (nonlinear_arith)
            requires
                n > 0,
                u > 0,
        ;
        double::lemma_exact(step, 128, n * u);
        assert((d * u) * u == (step * u) * (n * u)) by (nonlinear_arith)
            requires
                d == n * step,
        ;
        assert(double::quotient(d * u, n * u) == step * u);
        double::lemma_exact(i * step, 128, u);
        assert((i * u) * (step * u) == ((i * step) * u) * u) by (nonlinear_arith);
        assert(double::product(i * u, step * u) == (i * step) * u);
        let v = stop + left * step;
        double::lemma_exact(v, 128, 1);
        assert(start * u - (i * step) * u == v * u) by (nonlinear_arith)
            requires
                start - i * step == v,
        ;
        assert((v * u) * 1 == v * u);
        assert(v * u >= 0) by (nonlinear_arith);
        assert(stride(start as int, stop as int, n + 1, i as int) == -((i * step) * u));
        assert(double::sum((start * u) as int, -((i * step) * u)) == v * u);
        assert((v * u) / u == v) by (nonlinear_arith)
            requires
                u > 0,
        ;
    } else {
        assert(left * step == 0) by (nonlinear_arith)
            requires
                left == 0,
        ;
    }
}

} // verus!
