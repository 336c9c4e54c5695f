//! Index and layout logic of the visual transforms: which rows and bands they
//! read and write, the mirror that makes a strip symmetric, and the mirrored
//! padding and windows of 1-D correlation.
use vstd::prelude::*;

verus! {

/// The three colour channels of one display row.
#[derive(Clone, Copy, Debug)]
pub struct Channels<T> {
    pub r: T,
    pub g: T,
    pub b: T,
}

/// `half[skip..]` reversed, followed by `half`: a strip symmetric about its
/// centre, where `skip == 1` keeps an odd-length strip from doubling its
/// centre sample.
pub open spec fn mirrored<T>(half: Seq<T>, skip: int) -> Seq<T> {
    half.subrange(skip, half.len() as int).reverse() + half
}

/// A mirrored strip is symmetric about its centre: the pixel `i` places from
/// one end equals the pixel `i` places from the other.
pub proof fn lemma_mirrored_symmetric<T>(half: Seq<T>, skip: int)
    requires
        0 <= skip <= 1,
        skip <= half.len(),
    ensures
        forall|i: int|
            0 <= i < mirrored(half, skip).len() ==> #[trigger] mirrored(half, skip)[i] == mirrored(
                half,
                skip,
            )[mirrored(half, skip).len() - 1 - i],
{
    let m = mirrored(half, skip);
    let l = half.len() as int;
    let front = half.subrange(skip, l).reverse();
    assert(front.len() == l - skip);
    assert forall|i: int| 0 <= i < m.len() implies #[trigger] m[i] == m[m.len() - 1 - i] by {
        let j = m.len() - 1 - i;
        // Position p of the strip shows half[l - 1 - p] in the front part and
        // half[p - (l - skip)] in the back part.
        if i < l - skip {
            assert(m[i] == half[l - 1 - i]);
        } else {
            assert(m[i] == half[i - (l - skip)]);
        }
        if j < l - skip {
            assert(m[j] == half[l - 1 - j]);
        } else {
            assert(m[j] == half[j - (l - skip)]);
        }
    }
}

/// Builds the full strip from its upper half by mirroring:
/// `half[skip..]` reversed, then `half`.
pub fn mirror_concat<T: Copy>(half: &Vec<T>, skip: usize) -> (r: Vec<T>)
    requires
        skip <= half.len(),
    ensures
        r@ == mirrored(half@, skip as int),
        r.len() == 2 * half.len() - skip,
{
    let n = half.len();
    let mut out: Vec<T> = Vec::new();
    let mut i: usize = n;
    while i > skip
        invariant
            skip <= i <= n,
            n == half.len(),
            out@ == half@.subrange(i as int, n as int).reverse(),
        decreases i,
    {
        i = i - 1;
        out.push(half[i]);
        proof {
            assert(half@.subrange(i as int, n as int).reverse() =~= half@.subrange(
                i + 1,
                n as int,
            ).reverse().push(half@[i as int]));
        }
    }
    let mut j: usize = 0;
    while j < n
        invariant
            j <= n,
            n == half.len(),
            out@ == half@.subrange(skip as int, n as int).reverse() + half@.subrange(0, j as int),
        decreases n - j,
    {
        out.push(half[j]);
        proof {
            assert(half@.subrange(0, j + 1) =~= half@.subrange(0, j as int).push(half@[j as int]));
            assert(out@ =~= half@.subrange(skip as int, n as int).reverse() + half@.subrange(
                0,
                j + 1,
            ));
        }
        j = j + 1;
    }
    proof {
        assert(half@.subrange(0, n as int) =~= half@);
    }
    out
}

/// How a strip of `n_points` pixels is computed from its upper half: the
/// first row of that half, and how many rows of the half the mirror leaves
/// out so that an odd strip does not repeat its centre pixel. Mirroring the
/// half (`mirror_concat`) gives back exactly `n_points` rows.
pub fn half_strip(n_points: usize) -> (r: (usize, usize))
    ensures
        r.0 == n_points / 2,
        r.1 == n_points % 2,
        r.1 <= n_points - r.0,
        2 * (n_points - r.0) - r.1 == n_points,
{
    (n_points / 2, n_points % 2)
}

/// The rows `from..` of `rows`.
pub fn tail_from<T: Copy>(rows: &Vec<T>, from: usize) -> (r: Vec<T>)
    requires
        from <= rows.len(),
    ensures
        r@ == rows@.subrange(from as int, rows.len() as int),
{
    let mut out: Vec<T> = Vec::new();
    let mut i: usize = from;
    while i < rows.len()
        invariant
            from <= i <= rows.len(),
            out@ == rows@.subrange(from as int, i as int),
        decreases rows.len() - i,
    {
        out.push(rows[i]);
        proof {
            assert(rows@.subrange(from as int, i + 1) =~= rows@.subrange(
                from as int,
                i as int,
            ).push(rows@[i as int]));
        }
        i = i + 1;
    }
    out
}

/// Bounds `(lo, hi)` of band `band` (bass 0, mid 1, treble 2) when `n` values
/// are split into three equal contiguous bands.
pub open spec fn band_bounds(n: int, band: int) -> (int, int) {
    (band * n / 3, (band + 1) * n / 3)
}

/// The half-open index range of one of three equal contiguous bands of `n`
/// values.
pub fn band_range(n: usize, band: usize) -> (r: (usize, usize))
    requires
        band < 3,
    ensures
        r.0 == band_bounds(n as int, band as int).0,
        r.1 == band_bounds(n as int, band as int).1,
        r.0 <= r.1 <= n,
{
    let q = n / 3;
    let m = n % 3;
    assert(band * q <= (band + 1) * q <= 3 * q && band * m <= (band + 1) * m <= 3 * m
        && 3 * q + m == n) by (nonlinear_arith)
        requires
            band < 3,
            q == n / 3,
            m == n % 3,
    ;
    let lo: usize = band * q + (band * m) / 3;
    let hi: usize = (band + 1) * q + ((band + 1) * m) / 3;
    assert(lo == band * n / 3 && hi == (band + 1) * n / 3) by (nonlinear_arith)
        requires
            band < 3,
            q == n / 3,
            m == n % 3,
            lo == band * q + (band * m) / 3,
            hi == (band + 1) * q + ((band + 1) * m) / 3,
    ;
    assert(band * n / 3 <= (band + 1) * n / 3 <= n) by (nonlinear_arith)
        requires
            band < 3,
    ;
    (lo, hi)
}

/// The value of channel `c` (0 red, 1 green, 2 blue) of a bar graph whose bars
/// have the given `heights`, at row `i`: `on` below the bar's height, `off`
/// from there on.
pub open spec fn bar_value<T>(heights: Channels<usize>, c: int, i: int, on: T, off: T) -> T {
    let h = if c == 0 {
        heights.r
    } else if c == 1 {
        heights.g
    } else {
        heights.b
    };
    if i < h {
        on
    } else {
        off
    }
}

/// A bar graph of `rows` rows: in each channel, the leading rows up to that
/// channel's height hold `on`, the rest hold `off`. A height past the last row
/// fills the whole channel.
pub fn fill_bars<T: Copy>(rows: usize, heights: Channels<usize>, on: T, off: T) -> (r: Vec<
    Channels<T>,
>)
    ensures
        r.len() == rows,
        forall|i: int|
            0 <= i < rows ==> {
                &&& #[trigger] r@[i].r == bar_value(heights, 0, i, on, off)
                &&& r@[i].g == bar_value(heights, 1, i, on, off)
                &&& r@[i].b == bar_value(heights, 2, i, on, off)
            },
{
    let mut out: Vec<Channels<T>> = Vec::new();
    let mut i: usize = 0;
    while i < rows
        invariant
            i <= rows,
            out.len() == i,
            forall|k: int|
                0 <= k < i ==> {
                    &&& #[trigger] out@[k].r == bar_value(heights, 0, k, on, off)
                    &&& out@[k].g == bar_value(heights, 1, k, on, off)
                    &&& out@[k].b == bar_value(heights, 2, k, on, off)
                },
        decreases rows - i,
    {
        let row = Channels {
            r: if i < heights.r {
                on
            } else {
                off
            },
            g: if i < heights.g {
                on
            } else {
                off
            },
            b: if i < heights.b {
                on
            } else {
                off
            },
        };
        out.push(row);
        i = i + 1;
    }
    out
}

/// Samples of reflected padding before the array, for a kernel of `k` taps.
pub open spec fn left_pad(k: int) -> int {
    k / 2
}

/// Samples of reflected padding after the array, for a kernel of `k` taps: one
/// fewer than before it when `k` is even.
pub open spec fn right_pad(k: int) -> int {
    k / 2 - 1 + k % 2
}

/// `arr` extended by mirror reflection: its first `left_pad(k)` samples
/// reversed before it, its last `right_pad(k)` samples reversed after it.
pub open spec fn mirror_extended<T>(arr: Seq<T>, k: int) -> Seq<T> {
    arr.subrange(0, left_pad(k)).reverse() + arr + arr.subrange(
        arr.len() - right_pad(k),
        arr.len() as int,
    ).reverse()
}

/// The `i`-th window of `k` samples of the mirror-extended `arr`: what output
/// sample `i` of the correlation is computed from.
pub open spec fn window<T>(arr: Seq<T>, k: int, i: int) -> Seq<T> {
    mirror_extended(arr, k).subrange(i, i + k)
}

/// The kernel lengths for which the reflected padding exists.
pub open spec fn kernel_fits(len: int, k: int) -> bool {
    1 <= k && k / 2 <= len
}

/// `arr` extended at both ends by mirror reflection for a kernel of `k` taps.
pub fn mirror_extend<T: Copy>(arr: &Vec<T>, k: usize) -> (r: Vec<T>)
    requires
        kernel_fits(arr.len() as int, k as int),
    ensures
        r@ == mirror_extended(arr@, k as int),
        r.len() == arr.len() + k - 1,
{
    let n = arr.len();
    let left = k / 2;
    let right = if k % 2 == 1 {
        left
    } else {
        left - 1
    };
    let mut out: Vec<T> = Vec::new();
    let mut i: usize = left;
    while i > 0
        invariant
            i <= left <= n,
            n == arr.len(),
            out@ == arr@.subrange(i as int, left as int).reverse(),
        decreases i,
    {
        i = i - 1;
        out.push(arr[i]);
        proof {
            assert(arr@.subrange(i as int, left as int).reverse() =~= arr@.subrange(
                i + 1,
                left as int,
            ).reverse().push(arr@[i as int]));
        }
    }
    let mut j: usize = 0;
    while j < n
        invariant
            j <= n,
            left <= n,
            n == arr.len(),
            out@ == arr@.subrange(0, left as int).reverse() + arr@.subrange(0, j as int),
        decreases n - j,
    {
        out.push(arr[j]);
        proof {
            assert(arr@.subrange(0, j + 1) =~= arr@.subrange(0, j as int).push(arr@[j as int]));
            assert(out@ =~= arr@.subrange(0, left as int).reverse() + arr@.subrange(0, j + 1));
        }
        j = j + 1;
    }
    proof {
        assert(arr@.subrange(0, n as int) =~= arr@);
    }
    let ghost front = out@;
    let mut m: usize = n;
    while m > n - right
        invariant
            right <= n,
            n - right <= m <= n,
            n == arr.len(),
            out@ == front + arr@.subrange(m as int, n as int).reverse(),
        decreases m,
    {
        m = m - 1;
        out.push(arr[m]);
        proof {
            assert(arr@.subrange(m as int, n as int).reverse() =~= arr@.subrange(
                m + 1,
                n as int,
            ).reverse().push(arr@[m as int]));
        }
    }
    out
}

/// `v` is what `dot` returns for some window holding the samples `win`, and
/// the kernel `kern`.
pub open spec fn dot_of<T, F: Fn(&Vec<T>, &Vec<T>) -> T>(
    dot: F,
    win: Seq<T>,
    kern: &Vec<T>,
    v: T,
) -> bool {
    exists|w: Vec<T>| w@ == win && #[trigger] dot.ensures((&w, kern), v)
}

/// The samples `start..start + k` of `v`.
fn window_at<T: Copy>(v: &Vec<T>, start: usize, k: usize) -> (r: Vec<T>)
    requires
        start + k <= v.len(),
    ensures
        r@ == v@.subrange(start as int, start + k),
{
    let mut out: Vec<T> = Vec::new();
    let mut i: usize = start;
    while i < start + k
        invariant
            start <= i <= start + k <= v.len(),
            out@ == v@.subrange(start as int, i as int),
        decreases start + k - i,
    {
        out.push(v[i]);
        proof {
            assert(v@.subrange(start as int, i + 1) =~= v@.subrange(
                start as int,
                i as int,
            ).push(v@[i as int]));
        }
        i = i + 1;
    }
    out
}

/// One-dimensional correlation of `arr` with `kern` under mirror padding.
/// Output sample `i` is what `dot` returns for the `i`-th window of
/// `kern.len()` samples of the extended array, and the kernel.
pub fn correlate_1d_single<T: Copy, F: Fn(&Vec<T>, &Vec<T>) -> T>(
    arr: &Vec<T>,
    kern: &Vec<T>,
    dot: F,
) -> (r: Vec<T>)
    requires
        kernel_fits(arr.len() as int, kern.len() as int),
        forall|w: &Vec<T>| w.len() == kern.len() ==> #[trigger] dot.requires((w, kern)),
    ensures
        r.len() == arr.len(),
        forall|i: int|
            0 <= i < arr.len() ==> dot_of(dot, window(arr@, kern.len() as int, i), kern, #[trigger] r@[i]),
{
    let k = kern.len();
    let ext = mirror_extend(arr, k);
    let mut out: Vec<T> = Vec::new();
    let mut i: usize = 0;
    while i < arr.len()
        invariant
            i <= arr.len(),
            k == kern.len(),
            ext@ == mirror_extended(arr@, k as int),
            ext.len() == arr.len() + k - 1,
            out.len() == i,
            forall|w: &Vec<T>| w.len() == kern.len() ==> #[trigger] dot.requires((w, kern)),
            forall|j: int|
                0 <= j < i ==> dot_of(dot, window(arr@, k as int, j), kern, #[trigger] out@[j]),
        decreases arr.len() - i,
    {
        let w = window_at(&ext, i, k);
        assert(dot.requires((&w, kern)));
        let v = dot(&w, kern);
        let ghost prev = out@;
        out.push(v);
        proof {
            assert forall|j: int| 0 <= j < i + 1 implies dot_of(dot, window(arr@, k as int, j), kern, #[trigger] out@[j]) by {
                if j == i {
                    assert(w@ == window(arr@, k as int, j));
                    assert(dot.ensures((&w, kern), out@[j]));
                } else {
                    assert(out@[j] == prev[j]);
                }
            }
        }
        i = i + 1;
    }
    out
}

/// Row-wise correlation: each row of `arr` correlated with `kern` as by
/// `correlate_1d_single`.
pub fn correlate_1d<T: Copy, F: Fn(&Vec<T>, &Vec<T>) -> T>(
    arr: &Vec<Vec<T>>,
    kern: &Vec<T>,
    dot: F,
) -> (r: Vec<Vec<T>>)
    requires
        forall|i: int|
            0 <= i < arr.len() ==> kernel_fits(#[trigger] arr@[i].len() as int, kern.len() as int),
        forall|w: &Vec<T>| w.len() == kern.len() ==> #[trigger] dot.requires((w, kern)),
    ensures
        r.len() == arr.len(),
        forall|i: int| 0 <= i < arr.len() ==> (#[trigger] r@[i]).len() == arr@[i].len(),
        forall|i: int, j: int|
            0 <= i < arr.len() && 0 <= j < arr@[i].len() ==> dot_of(
                dot,
                window(arr@[i]@, kern.len() as int, j),
                kern,
                #[trigger] r@[i]@[j],
            ),
{
    let mut out: Vec<Vec<T>> = Vec::new();
    let mut i: usize = 0;
    while i < arr.len()
        invariant
            i <= arr.len(),
            out.len() == i,
            forall|m: int|
                0 <= m < arr.len() ==> kernel_fits(#[trigger] arr@[m].len() as int, kern.len() as int),
            forall|w: &Vec<T>| w.len() == kern.len() ==> #[trigger] dot.requires((w, kern)),
            forall|m: int| 0 <= m < i ==> (#[trigger] out@[m]).len() == arr@[m].len(),
            forall|m: int, j: int|
                0 <= m < i && 0 <= j < arr@[m].len() ==> dot_of(
                    dot,
                    window(arr@[m]@, kern.len() as int, j),
                    kern,
                    #[trigger] out@[m]@[j],
                ),
        decreases arr.len() - i,
    {
        let row = correlate_1d_single(&arr[i], kern, &dot);
        let ghost prev = out@;
        out.push(row);
        proof {
            assert forall|m: int, j: int|
                0 <= m < i + 1 && 0 <= j < arr@[m].len() implies dot_of(
                    dot,
                    window(arr@[m]@, kern.len() as int, j),
                    kern,
                    #[trigger] out@[m]@[j],
                ) by {
                if m == i {
                    assert(out@[m]@[j] == row@[j]);
                } else {
                    assert(out@[m] == prev[m]);
                }
            }
        }
        i = i + 1;
    }
    out
}

/// The scroll step: every row moves one place away from the centre and passes
/// through `decay` on the way; row 0 keeps its value until the caller writes
/// the new leading row there, and the last row falls off.
pub fn scroll_rows<T: Copy, F: Fn(T) -> T>(rows: &Vec<T>, decay: F) -> (r: Vec<T>)
    requires
        forall|x: T| #[trigger] decay.requires((x,)),
    ensures
        r.len() == rows.len(),
        rows.len() > 0 ==> r@[0] == rows@[0],
        forall|i: int| 1 <= i < rows.len() ==> decay.ensures((rows@[i - 1],), #[trigger] r@[i]),
{
    let mut out: Vec<T> = Vec::new();
    if rows.len() == 0 {
        return out;
    }
    out.push(rows[0]);
    let mut i: usize = 1;
    while i < rows.len()
        invariant
            1 <= i <= rows.len(),
            out.len() == i,
            out@[0] == rows@[0],
            forall|x: T| #[trigger] decay.requires((x,)),
            forall|j: int| 1 <= j < i ==> decay.ensures((rows@[j - 1],), #[trigger] out@[j]),
        decreases rows.len() - i,
    {
        let v = decay(rows[i - 1]);
        out.push(v);
        i = i + 1;
    }
    out
}

/// Nearest-sample resampling of `src` to `len` samples: sample `i` is taken
/// from `src[i * src.len() / len]`.
pub fn resample<T: Copy>(src: &Vec<T>, len: usize) -> (r: Vec<T>)
    requires
        src.len() > 0,
    ensures
        r.len() == len,
        forall|i: int| 0 <= i < len ==> #[trigger] r@[i] == src@[i * src.len() / len as int],
{
    let m = src.len();
    let mut out: Vec<T> = Vec::new();
    let mut i: usize = 0;
    while i < len
        invariant
            i <= len,
            m == src.len(),
            m > 0,
            out.len() == i,
            forall|j: int| 0 <= j < i ==> #[trigger] out@[j] == src@[j * m / len as int],
        decreases len - i,
    {
        assert(i * m <= 0xffff_ffff_ffff_ffffu128 * 0xffff_ffff_ffff_ffffu128) by (nonlinear_arith)
            requires
                i <= 0xffff_ffff_ffff_ffffu128,
                m <= 0xffff_ffff_ffff_ffffu128,
        ;
        let p: u128 = i as u128 * m as u128;
        let k: u128 = p / len as u128;
        proof {
            assert(p < len * m) by (nonlinear_arith)
                requires
                    i < len,
                    m > 0,
                    p == i * m,
            ;
            vstd::arithmetic::div_mod::lemma_fundamental_div_mod(p as int, len as int);
            assert(k < m) by (nonlinear_arith)
                requires
                    k * len <= p,
                    p < len * m,
                    len > 0,
            ;
        }
        out.push(src[k as usize]);
        i = i + 1;
    }
    out
}

/// The non-negative frequency half of a spectrum of `len` bins: bins
/// `0..=len / 2`, Nyquist included when `len` is even.
pub open spec fn nonnegative_bins(len: int) -> int {
    if len == 0 {
        0
    } else {
        len / 2 + 1
    }
}

/// The bins of `spectrum` at non-negative frequencies.
pub fn nonnegative_half<T: Copy>(spectrum: &Vec<T>) -> (r: Vec<T>)
    ensures
        r@ == spectrum@.subrange(0, nonnegative_bins(spectrum.len() as int)),
{
    let n = spectrum.len();
    let keep: usize = if n == 0 {
        0
    } else {
        n / 2 + 1
    };
    let mut out: Vec<T> = Vec::new();
    let mut i: usize = 0;
    while i < keep
        invariant
            i <= keep <= n,
            n == spectrum.len(),
            out@ == spectrum@.subrange(0, i as int),
        decreases keep - i,
    {
        out.push(spectrum[i]);
        proof {
            assert(spectrum@.subrange(0, i + 1) =~= spectrum@.subrange(0, i as int).push(
                spectrum@[i as int],
            ));
        }
        i = i + 1;
    }
    out
}

} // verus!
