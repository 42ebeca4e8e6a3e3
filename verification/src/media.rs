//! Raw-media helpers around the sessions.
//!
//! Pure integer helpers the capture and playback paths use: picking the
//! closest camera format, converting packed YUV frames to RGB24, remixing
//! interleaved 16-bit audio between channel counts, and a test pattern.
//! Device access itself stays with the caller.

use vstd::prelude::*;

verus! {

/// Pixel layout of a camera format, ordered by how cheap it is for us.
#[derive(Clone, Copy, Debug, PartialEq, Eq, Structural)]
pub enum PixelLayout {
    Mjpeg,
    Yuyv,
    Nv12,
    Other,
}

/// One camera format: resolution, frame rate and pixel layout.
#[derive(Clone, Copy, Debug, PartialEq, Eq, Structural)]
pub struct CamFormat {
    pub width: u32,
    pub height: u32,
    pub frame_rate: u32,
    pub layout: PixelLayout,
}

/// Preference rank of a pixel layout, lower is better.
pub open spec fn spec_layout_rank(l: PixelLayout) -> u32 {
    match l {
        PixelLayout::Mjpeg => 0u32,
        PixelLayout::Yuyv => 1u32,
        PixelLayout::Nv12 => 2u32,
        PixelLayout::Other => 3u32,
    }
}

/// Absolute difference of two 32-bit values.
pub open spec fn spec_abs_diff(a: u32, b: u32) -> u32 {
    if a >= b {
        (a - b) as u32
    } else {
        (b - a) as u32
    }
}

/// The score of a format against the wanted resolution and rate: layout
/// rank first, then the distances in width, height and frame rate.
pub open spec fn spec_score(f: CamFormat, want_w: u32, want_h: u32, want_fps: u32) -> (
    u32,
    u32,
    u32,
    u32,
) {
    (
        spec_layout_rank(f.layout),
        spec_abs_diff(f.width, want_w),
        spec_abs_diff(f.height, want_h),
        spec_abs_diff(f.frame_rate, want_fps),
    )
}

/// Lexicographic order on scores.
pub open spec fn spec_score_lt(a: (u32, u32, u32, u32), b: (u32, u32, u32, u32)) -> bool {
    if a.0 != b.0 {
        a.0 < b.0
    } else if a.1 != b.1 {
        a.1 < b.1
    } else if a.2 != b.2 {
        a.2 < b.2
    } else {
        a.3 < b.3
    }
}

/// Compares two scores lexicographically.
fn score_lt(a: (u32, u32, u32, u32), b: (u32, u32, u32, u32)) -> (r: bool)
    ensures
        r == spec_score_lt(a, b),
{
    if a.0 != b.0 {
        a.0 < b.0
    } else if a.1 != b.1 {
        a.1 < b.1
    } else if a.2 != b.2 {
        a.2 < b.2
    } else {
        a.3 < b.3
    }
}

/// Computes the score of a format.
fn score_of(f: &CamFormat, want_w: u32, want_h: u32, want_fps: u32) -> (r: (u32, u32, u32, u32))
    ensures
        r == spec_score(*f, want_w, want_h, want_fps),
{
    let rank: u32 = match f.layout {
        PixelLayout::Mjpeg => 0,
        PixelLayout::Yuyv => 1,
        PixelLayout::Nv12 => 2,
        PixelLayout::Other => 3,
    };
    let dw = if f.width >= want_w {
        f.width - want_w
    } else {
        want_w - f.width
    };
    let dh = if f.height >= want_h {
        f.height - want_h
    } else {
        want_h - f.height
    };
    let df = if f.frame_rate >= want_fps {
        f.frame_rate - want_fps
    } else {
        want_fps - f.frame_rate
    };
    (rank, dw, dh, df)
}

/// Picks the format whose score is lexicographically smallest; among equal
/// scores the first one listed wins. Nothing is picked from an empty list.
pub fn pick_best_format(formats: &[CamFormat], want_w: u32, want_h: u32, want_fps: u32) -> (r:
    Option<CamFormat>)
    ensures
        r is Some <==> formats@.len() > 0,
        r matches Some(f) ==> exists|j: int|
            {
                &&& 0 <= j < formats@.len()
                &&& f == formats@[j]
                &&& forall|k: int|
                    0 <= k < formats@.len() ==> !spec_score_lt(
                        spec_score(#[trigger] formats@[k], want_w, want_h, want_fps),
                        spec_score(f, want_w, want_h, want_fps),
                    )
                &&& forall|k: int|
                    0 <= k < j ==> spec_score_lt(
                        spec_score(f, want_w, want_h, want_fps),
                        spec_score(#[trigger] formats@[k], want_w, want_h, want_fps),
                    )
            },
{
    if formats.len() == 0 {
        return None;
    }
    let n = formats.len();
    let mut best_idx: usize = 0;
    let mut best_score = score_of(&formats[0], want_w, want_h, want_fps);
    let mut i: usize = 1;
    while i < n
        invariant
            1 <= i <= n,
            n == formats@.len(),
            best_idx < i,
            best_score == spec_score(formats@[best_idx as int], want_w, want_h, want_fps),
            forall|k: int|
                0 <= k < i ==> !spec_score_lt(
                    spec_score(#[trigger] formats@[k], want_w, want_h, want_fps),
                    best_score,
                ),
            forall|k: int|
                0 <= k < best_idx ==> spec_score_lt(
                    best_score,
                    spec_score(#[trigger] formats@[k], want_w, want_h, want_fps),
                ),
        decreases n - i,
    {
        let s = score_of(&formats[i], want_w, want_h, want_fps);
        if score_lt(s, best_score) {
            best_idx = i;
            best_score = s;
        }
        i = i + 1;
    }
    Some(formats[best_idx])
}

/// Truncating average of two samples, rounding toward zero as the widened
/// 32-bit division does.
pub open spec fn spec_avg_sample(l: i16, r: i16) -> i16 {
    let s = l + r;
    if s >= 0 {
        (s / 2) as i16
    } else {
        (-((-s) / 2)) as i16
    }
}

/// The left sample of frame `f` under `src_ch` channels.
pub open spec fn spec_left(input: Seq<i16>, src_ch: int, f: int) -> i16 {
    if src_ch == 1 {
        input[f]
    } else {
        input[f * src_ch]
    }
}

/// The right sample of frame `f` under `src_ch` channels.
pub open spec fn spec_right(input: Seq<i16>, src_ch: int, f: int) -> i16 {
    if src_ch == 1 {
        input[f]
    } else {
        input[f * src_ch + 1]
    }
}

/// Remixes interleaved 16-bit samples between channel counts.
///
/// With equal counts the input is returned unchanged. Otherwise the input
/// is read frame by frame (`len / src_ch` frames; a mono source feeds both
/// sides, any other source is read as a stereo pair) and written as mono -
/// the truncating average - when one channel is asked for, or as the
/// stereo pair for any other channel count.
pub fn remix_channels_i16(input: &[i16], src_ch: usize, dst_ch: usize) -> (out: Vec<i16>)
    requires
        src_ch >= 1,
    ensures
        src_ch == dst_ch ==> out@ == input@,
        src_ch != dst_ch ==> {
            let frames = input@.len() as int / src_ch as int;
            &&& dst_ch == 1 ==> out@.len() == frames && (forall|f: int|
                0 <= f < frames ==> out@[f] == spec_avg_sample(
                    spec_left(input@, src_ch as int, f),
                    spec_right(input@, src_ch as int, f),
                ))
            &&& dst_ch != 1 ==> out@.len() == 2 * frames && (forall|f: int|
                0 <= f < frames ==> out@[2 * f] == spec_left(input@, src_ch as int, f) && out@[2
                    * f + 1] == spec_right(input@, src_ch as int, f))
        },
{
    if src_ch == dst_ch {
        return vstd::slice::slice_to_vec(input);
    }
    let len = input.len();
    let frames = len / src_ch;
    let mut out: Vec<i16> = Vec::new();
    let mut f: usize = 0;
    let mut base: usize = 0;
    proof {
        assert(frames * src_ch <= len) by (nonlinear_arith)
            requires
                frames == len as int / src_ch as int,
                src_ch >= 1,
                len >= 0,
        ;
    }
    while f < frames
        invariant
            f <= frames,
            base == f * src_ch,
            src_ch >= 1,
            len == input@.len(),
            frames == len as int / src_ch as int,
            frames * src_ch <= len,
            dst_ch == 1 ==> out@.len() == f && (forall|k: int|
                0 <= k < f ==> out@[k] == spec_avg_sample(
                    spec_left(input@, src_ch as int, k),
                    spec_right(input@, src_ch as int, k),
                )),
            dst_ch != 1 ==> out@.len() == 2 * f && (forall|k: int|
                0 <= k < f ==> out@[2 * k] == spec_left(input@, src_ch as int, k) && out@[2 * k
                    + 1] == spec_right(input@, src_ch as int, k)),
        decreases frames - f,
    {
        proof {
            assert(base + src_ch <= len) by (nonlinear_arith)
                requires
                    base == f * src_ch,
                    f < frames,
                    frames * src_ch <= len,
                    src_ch >= 1,
            ;
        }
        let (l, r) = if src_ch == 1 {
            (input[base], input[base])
        } else {
            (input[base], input[base + 1])
        };
        if dst_ch == 1 {
            let s: i32 = (l as i32) + (r as i32);
            let avg: i32 = if s >= 0 {
                s / 2
            } else {
                -((-s) / 2)
            };
            out.push(avg as i16);
        } else {
            out.push(l);
            out.push(r);
        }
        proof {
            assert((f + 1) * src_ch == f * src_ch + src_ch) by (nonlinear_arith);
        }
        f = f + 1;
        base = base + src_ch;
    }
    out
}

/// Clamps an integer into one byte.
pub open spec fn spec_clamp8(x: int) -> u8 {
    if x < 0 {
        0u8
    } else if x > 255 {
        255u8
    } else {
        x as u8
    }
}

/// Clamps a 32-bit value into one byte.
pub fn clamp8(x: i32) -> (r: u8)
    ensures
        r == spec_clamp8(x as int),
{
    if x < 0 {
        0
    } else if x > 255 {
        255
    } else {
        x as u8
    }
}

/// The red offset of chroma `v` in the fixed-point BT.601 conversion.
pub open spec fn spec_red_shift(v: int) -> int {
    (((91881 * v) as i32) >> 16) as int
}

/// The green offset of chroma `u`, `v`.
pub open spec fn spec_green_shift(u: int, v: int) -> int {
    ((((-22554) * u - 46802 * v) as i32) >> 16) as int
}

/// The blue offset of chroma `u`.
pub open spec fn spec_blue_shift(u: int) -> int {
    (((116130 * u) as i32) >> 16) as int
}

/// The RGB triplet of luma `y` and centred chroma `u`, `v`.
pub open spec fn spec_rgb_triplet(y: int, u: int, v: int) -> Seq<u8> {
    seq![
        spec_clamp8(y + spec_red_shift(v)),
        spec_clamp8(y + spec_green_shift(u, v)),
        spec_clamp8(y + spec_blue_shift(u)),
    ]
}

/// Any 32-bit value shifted right by 16 fits comfortably in 16 bits.
proof fn lemma_shr16_bounds(p: i32)
    ensures
        -32768 <= (p >> 16) <= 32767,
{
    assert(-32768 <= (p >> 16) <= 32767) by (bit_vector);
}

/// Computes one RGB triplet from luma and centred chroma.
fn rgb_triplet_into(out: &mut Vec<u8>, y: i32, u: i32, v: i32)
    requires
        0 <= y <= 255,
        -128 <= u <= 127,
        -128 <= v <= 127,
    ensures
        final(out)@ == old(out)@ + spec_rgb_triplet(y as int, u as int, v as int),
{
    let pr: i32 = 91881 * v;
    proof {
        assert(-8877568 <= (-22554) * u - 46802 * v <= 8877568) by (nonlinear_arith)
            requires
                -128 <= u <= 127,
                -128 <= v <= 127,
        ;
    }
    let pg: i32 = (-22554) * u - 46802 * v;
    let pb: i32 = 116130 * u;
    proof {
        lemma_shr16_bounds(pr);
        lemma_shr16_bounds(pg);
        lemma_shr16_bounds(pb);
    }
    let r_v: i32 = pr >> 16;
    let g_uv: i32 = pg >> 16;
    let b_u: i32 = pb >> 16;
    out.push(clamp8(y + r_v));
    out.push(clamp8(y + g_uv));
    out.push(clamp8(y + b_u));
    assert(final(out)@ =~= old(out)@ + spec_rgb_triplet(y as int, u as int, v as int));
}

/// The six RGB bytes of YUYV pair `t`: two pixels sharing one chroma pair.
pub open spec fn spec_yuyv_pair(yuyv: Seq<u8>, t: int) -> Seq<u8> {
    let y0 = yuyv[4 * t] as int;
    let u = yuyv[4 * t + 1] - 128;
    let y1 = yuyv[4 * t + 2] as int;
    let v = yuyv[4 * t + 3] - 128;
    spec_rgb_triplet(y0, u, v) + spec_rgb_triplet(y1, u, v)
}

/// Converts a packed YUYV 4:2:2 frame to RGB24.
///
/// Refused (nothing returned) when the width is odd or the input holds
/// fewer than `w * h * 2` bytes. On success the output holds `w * h * 3`
/// bytes; byte `i` belongs to pixel pair `i / 6` and is pinned by
/// [`spec_yuyv_pair`].
pub fn yuyv422_to_rgb24(yuyv: &[u8], w: usize, h: usize) -> (r: Option<Vec<u8>>)
    requires
        w * h * 3 <= usize::MAX,
    ensures
        r is Some <==> (w % 2 == 0 && yuyv@.len() >= w * h * 2),
        r matches Some(v) ==> v@.len() == w * h * 3 && (forall|i: int|
            0 <= i < v@.len() ==> #[trigger] v@[i] == spec_yuyv_pair(yuyv@, i / 6)[i % 6]),
{
    if w % 2 != 0 {
        return None;
    }
    let y_size = w * h;
    proof {
        assert(y_size * 2 <= y_size * 3 && y_size * 3 == w * h * 3) by (nonlinear_arith)
            requires
                y_size == w * h,
        ;
        vstd::arithmetic::div_mod::lemma_fundamental_div_mod(w as int, 2);
        let k = w as int / 2;
        assert(y_size == 2 * (k * h)) by (nonlinear_arith)
            requires
                y_size == w * h,
                w == 2 * k,
        ;
        assert(y_size % 2 == 0) by (nonlinear_arith)
            requires
                y_size == 2 * (k * (h as int)),
        ;
    }
    let needed = y_size * 2;
    if yuyv.len() < needed {
        return None;
    }
    let pairs = y_size / 2;
    proof {
        assert(pairs * 2 == y_size && 2 * pairs == y_size) by (nonlinear_arith)
            requires
                pairs == y_size as int / 2,
                y_size % 2 == 0,
                y_size >= 0,
        ;
    }
    let mut out: Vec<u8> = Vec::new();
    let mut t: usize = 0;
    let mut si: usize = 0;
    while t < pairs
        invariant
            t <= pairs,
            si == 4 * t,
            2 * pairs == y_size,
            2 * y_size <= yuyv@.len(),
            y_size == w * h,
            w * h * 3 <= usize::MAX,
            out@.len() == 6 * t,
            forall|i: int|
                0 <= i < out@.len() ==> #[trigger] out@[i] == spec_yuyv_pair(yuyv@, i / 6)[i % 6],
        decreases pairs - t,
    {
        proof {
            assert(si + 4 <= 2 * y_size && 6 * t + 6 <= 3 * y_size) by (nonlinear_arith)
                requires
                    si == 4 * t,
                    t < pairs,
                    2 * pairs == y_size,
            ;
        }
        let y0 = yuyv[si] as i32;
        let u = (yuyv[si + 1] as i32) - 128;
        let y1 = yuyv[si + 2] as i32;
        let v = (yuyv[si + 3] as i32) - 128;
        let ghost before = out@;
        rgb_triplet_into(&mut out, y0, u, v);
        rgb_triplet_into(&mut out, y1, u, v);
        proof {
            assert(out@ =~= before + spec_yuyv_pair(yuyv@, t as int));
            assert forall|i: int| 0 <= i < out@.len() implies #[trigger] out@[i] == spec_yuyv_pair(
                yuyv@,
                i / 6,
            )[i % 6] by {
                if i >= before.len() {
                    assert(i / 6 == t && i % 6 == i - 6 * t) by (nonlinear_arith)
                        requires
                            6 * t <= i < 6 * t + 6,
                    ;
                }
            }
        }
        t = t + 1;
        si = si + 4;
    }
    proof {
        assert(6 * pairs == 3 * y_size && w * h * 3 == 3 * y_size) by (nonlinear_arith)
            requires
                2 * pairs == y_size,
                y_size == w * h,
        ;
    }
    Some(out)
}

/// The RGB triplet of pixel `p` of an NV12 frame: full-resolution luma over
/// a half-resolution interleaved chroma plane.
pub open spec fn spec_nv12_px(nv12: Seq<u8>, w: int, h: int, p: int) -> Seq<u8> {
    let j = p / w;
    let col = p % w;
    let uv = w * h + (j / 2) * w + (col - col % 2);
    spec_rgb_triplet(nv12[p] as int, nv12[uv] - 128, nv12[uv + 1] - 128)
}

/// Converts an NV12 4:2:0 frame to RGB24.
///
/// Both dimensions must be even (the chroma plane is half-resolution in
/// both directions). Refused when the input holds fewer than
/// `w * h * 3 / 2` bytes. On success the output holds `w * h * 3` bytes;
/// byte `i` belongs to pixel `i / 3` and is pinned by [`spec_nv12_px`].
pub fn nv12_to_rgb24(nv12: &[u8], w: usize, h: usize) -> (r: Option<Vec<u8>>)
    requires
        w % 2 == 0,
        h % 2 == 0,
        w * h * 3 <= usize::MAX,
    ensures
        r is Some <==> nv12@.len() >= w * h + (w * h) / 2,
        r matches Some(v) ==> v@.len() == w * h * 3 && (forall|i: int|
            0 <= i < v@.len() ==> #[trigger] v@[i] == spec_nv12_px(
                nv12@,
                w as int,
                h as int,
                i / 3,
            )[i % 3]),
{
    let y_size = w * h;
    let uv_size = y_size / 2;
    if nv12.len() < y_size || nv12.len() - y_size < uv_size {
        return None;
    }
    let mut out: Vec<u8> = Vec::new();
    let mut j: usize = 0;
    let mut row_base: usize = 0;
    while j < h
        invariant
            j <= h,
            row_base == j * w,
            y_size == w * h,
            uv_size == y_size as int / 2,
            y_size + uv_size <= nv12@.len(),
            w % 2 == 0,
            h % 2 == 0,
            w * h * 3 <= usize::MAX,
            out@.len() == 3 * (j * w),
            forall|i: int|
                0 <= i < out@.len() ==> #[trigger] out@[i] == spec_nv12_px(
                    nv12@,
                    w as int,
                    h as int,
                    i / 3,
                )[i % 3],
        decreases h - j,
    {
        proof {
            vstd::arithmetic::div_mod::lemma_fundamental_div_mod(h as int, 2);
            vstd::arithmetic::div_mod::lemma_fundamental_div_mod(j as int, 2);
            let k = h as int / 2;
            let jj = j as int / 2;
            assert(jj <= k - 1) by (nonlinear_arith)
                requires
                    j == 2 * jj + (j as int) % 2,
                    0 <= (j as int) % 2 < 2,
                    h == 2 * k,
                    j < h,
            ;
            assert(y_size == 2 * (k * w)) by (nonlinear_arith)
                requires
                    y_size == w * h,
                    h == 2 * k,
            ;
            assert(uv_size == k * w) by (nonlinear_arith)
                requires
                    uv_size == y_size as int / 2,
                    y_size == 2 * (k * (w as int)),
            ;
            assert(jj * w + w <= k * w) by (nonlinear_arith)
                requires
                    jj <= k - 1,
            ;
            assert(row_base + w <= y_size && 3 * (j * w) + 3 * w <= 3 * y_size && (j + 1) * w == j
                * w + w) by (nonlinear_arith)
                requires
                    row_base == j * w,
                    j < h,
                    y_size == w * h,
            ;
        }
        let uv_row = y_size + (j / 2) * w;
        proof {
            assert((j / 2) * w == (j as int / 2) * w);
        }
        let mut col: usize = 0;
        while col < w
            invariant
                col <= w,
                j < h,
                row_base == j * w,
                uv_row == y_size + (j as int / 2) * w,
                (j as int / 2) * w + w <= uv_size,
                y_size == w * h,
                uv_size == y_size as int / 2,
                y_size + uv_size <= nv12@.len(),
                w % 2 == 0,
                w * h * 3 <= usize::MAX,
                3 * (j * w) + 3 * w <= 3 * y_size,
                out@.len() == 3 * (j * w) + 3 * col,
                forall|i: int|
                    0 <= i < out@.len() ==> #[trigger] out@[i] == spec_nv12_px(
                        nv12@,
                        w as int,
                        h as int,
                        i / 3,
                    )[i % 3],
            decreases w - col,
        {
            let p = row_base + col;
            let uv = uv_row + (col - col % 2);
            let y = nv12[p] as i32;
            let u = (nv12[uv] as i32) - 128;
            let v = (nv12[uv + 1] as i32) - 128;
            let ghost before = out@;
            rgb_triplet_into(&mut out, y, u, v);
            proof {
                assert(out@ =~= before + spec_rgb_triplet(y as int, u as int, v as int));
                assert((p as int) / (w as int) == j && (p as int) % (w as int)
                    == col) by (nonlinear_arith)
                    requires
                        p == j * w + col,
                        0 <= col < w,
                        0 <= j,
                ;
                assert(spec_nv12_px(nv12@, w as int, h as int, p as int) =~= spec_rgb_triplet(
                    y as int,
                    u as int,
                    v as int,
                ));
                assert forall|i: int| 0 <= i < out@.len() implies #[trigger] out@[i]
                    == spec_nv12_px(nv12@, w as int, h as int, i / 3)[i % 3] by {
                    if i >= before.len() {
                        assert(i / 3 == p && i % 3 == i - 3 * p) by (nonlinear_arith)
                            requires
                                3 * p <= i < 3 * p + 3,
                                p == j * w + col,
                                before.len() == 3 * (j * w) + 3 * col,
                                i >= before.len(),
                        ;
                    }
                }
            }
            col = col + 1;
        }
        j = j + 1;
        row_base = row_base + w;
    }
    proof {
        assert(3 * (h * w) == w * h * 3) by (nonlinear_arith);
    }
    Some(out)
}

/// The checkerboard pixel at `(x, y)`: dark or light 16x16 squares.
pub open spec fn spec_checker_px(x: int, y: int) -> u32 {
    if ((x / 16) + (y / 16)) % 2 == 0 {
        0x0022_2222u32
    } else {
        0x00DD_DDDDu32
    }
}

/// Renders a `w` by `h` checkerboard of 16-pixel squares, row-major: the
/// pixel at flat index `i` belongs to column `i % w` and row `i / w`.
pub fn make_checkerboard(w: usize, h: usize) -> (r: Vec<u32>)
    requires
        w * h <= usize::MAX,
    ensures
        r@.len() == w * h,
        forall|i: int| 0 <= i < w * h ==> #[trigger] r@[i] == spec_checker_px(i % (w as int), i / (w as int)),
{
    let mut fb: Vec<u32> = Vec::new();
    let mut y: usize = 0;
    let mut row_base: usize = 0;
    while y < h
        invariant
            y <= h,
            row_base == y * w,
            w * h <= usize::MAX,
            fb@.len() == y * w,
            forall|i: int|
                0 <= i < fb@.len() ==> #[trigger] fb@[i] == spec_checker_px(
                    i % (w as int),
                    i / (w as int),
                ),
        decreases h - y,
    {
        proof {
            assert(row_base + w <= w * h) by (nonlinear_arith)
                requires
                    row_base == y * w,
                    y < h,
            ;
        }
        let mut x: usize = 0;
        while x < w
            invariant
                x <= w,
                y < h,
                row_base == y * w,
                row_base + w <= w * h <= usize::MAX,
                fb@.len() == y * w + x,
                forall|i: int|
                    0 <= i < fb@.len() ==> #[trigger] fb@[i] == spec_checker_px(
                        i % (w as int),
                        i / (w as int),
                    ),
            decreases w - x,
        {
            let c: u32 = if ((x / 16) + (y / 16)) % 2 == 0 {
                0x0022_2222
            } else {
                0x00DD_DDDD
            };
            fb.push(c);
            proof {
                assert((y * w + x) % (w as int) == x && (y * w + x) / (w as int)
                    == y) by (nonlinear_arith)
                    requires
                        0 <= x < w,
                        0 <= y,
                ;
            }
            x = x + 1;
        }
        proof {
            assert((y + 1) * w == y * w + w) by (nonlinear_arith);
        }
        y = y + 1;
        row_base = row_base + w;
    }
    proof {
        assert(h * w == w * h) by (nonlinear_arith);
    }
    fb
}

} // verus!
