//! An owned RGB raster (three bytes per pixel, row-major, top-left origin)
//! and pixel-level overlay placement.

use vstd::prelude::*;
use vstd::arithmetic::div_mod::lemma_fundamental_div_mod_converse;

verus! {

/// Pure white, the background of every rendered symbol.
pub const WHITE: u8 = 255;

/// Pure black, the colour of a dark module.
pub const BLACK: u8 = 0;

/// A rectangular RGB raster with 8 bits per channel.
pub struct Raster {
    pub width: u32,
    pub height: u32,
    /// Row-major samples: pixel `(x, y)` occupies bytes `3 * (y * width + x) .. + 3`.
    pub data: Vec<u8>,
}

impl Raster {
    /// The sample buffer holds exactly one RGB triple per pixel.
    pub open spec fn wf(&self) -> bool {
        self.data@.len() == 3 * self.width * self.height
    }

    /// Builds a raster of the given size filled with a single grey level.
    pub fn filled(width: u32, height: u32, level: u8) -> (r: Raster)
        requires
            3 * width * height <= usize::MAX,
        ensures
            r.wf(),
            r.width == width,
            r.height == height,
            forall|k: int| 0 <= k < r.data@.len() ==> r.data@[k] == level,
    {
        proof {
            lemma_fits(width as int, height as int);
        }
        let n: usize = if height == 0 {
            0
        } else {
            3 * (width as usize) * (height as usize)
        };
        let mut data: Vec<u8> = Vec::with_capacity(n);
        let mut k: usize = 0;
        while k < n
            invariant
                k <= n,
                data@.len() == k,
                forall|i: int| 0 <= i < k ==> data@[i] == level,
            decreases n - k,
        {
            data.push(level);
            k = k + 1;
        }
        Raster { width, height, data }
    }
}

/// The three samples of pixel `(x, y)` in a raster `width` pixels wide.
pub open spec fn pixel(data: Seq<u8>, width: nat, x: int, y: int) -> (u8, u8, u8) {
    let i = 3 * (y * width + x);
    (data[i], data[i + 1], data[i + 2])
}

/// Sample `k` of a `bw`-wide base after placing a `tw × th` overlay with its
/// top-left pixel at `(ox, oy)`: overlay pixels replace base pixels where they
/// fall inside the base, and everything outside the base is clipped away.
pub open spec fn overlay_sample(
    base: Seq<u8>,
    bw: nat,
    top: Seq<u8>,
    tw: nat,
    th: nat,
    ox: int,
    oy: int,
    k: int,
) -> u8 {
    let p = k / 3;
    let tx = p % (bw as int) - ox;
    let ty = p / (bw as int) - oy;
    if 0 <= tx < tw && 0 <= ty < th {
        top[3 * (ty * tw + tx) + k % 3]
    } else {
        base[k]
    }
}

/// The samples of the base after the overlay has been placed at `(ox, oy)`.
pub open spec fn overlaid(
    base: Seq<u8>,
    bw: nat,
    top: Seq<u8>,
    tw: nat,
    th: nat,
    ox: int,
    oy: int,
) -> Seq<u8> {
    Seq::new(base.len(), |k: int| overlay_sample(base, bw, top, tw, th, ox, oy, k))
}

/// The offset that centres an extent `inner` inside an extent `outer`:
/// half the difference, truncated toward zero.
pub open spec fn centered(outer: int, inner: int) -> int {
    if inner <= outer {
        (outer - inner) / 2
    } else {
        -((inner - outer) / 2)
    }
}

proof fn lemma_top_index(tx: int, ty: int, tw: int, th: int)
    requires
        0 <= tx < tw,
        0 <= ty < th,
    ensures
        0 <= ty * tw,
        0 <= ty * tw + tx < tw * th,
        3 * (ty * tw + tx) + 2 < 3 * tw * th,
{
    assert(3 * tw * th == 3 * (tw * th)) by (nonlinear_arith);
    assert(ty * tw + tx < tw * th) by (nonlinear_arith)
        requires
            0 <= tx < tw,
            0 <= ty < th,
    ;
    assert(0 <= ty * tw) by (nonlinear_arith)
        requires
            0 <= tw,
            0 <= ty,
    ;
}

/// A pixel count that fits also fits without its height factor.
pub proof fn lemma_fits(w: int, h: int)
    requires
        0 <= w,
        0 <= h,
        3 * w * h <= usize::MAX,
    ensures
        3 * w <= usize::MAX || h == 0,
{
    if h > 0 {
        assert(3 * w <= 3 * w * h) by (nonlinear_arith)
            requires
                0 <= w,
                1 <= h,
        ;
    }
}

/// A non-empty buffer of `3 * w * h` samples has a positive width.
pub proof fn lemma_nonempty_width(n: int, w: int, h: int)
    requires
        n == 3 * w * h,
        n > 0,
        w >= 0,
    ensures
        w > 0,
{
    if w == 0 {
        assert(3 * w * h == 0) by (nonlinear_arith)
            requires
                w == 0,
        ;
    }
}

/// The offset that centres `inner` inside `outer`.
pub fn center_offset(outer: u32, inner: u32) -> (r: i64)
    ensures
        r == centered(outer as int, inner as int),
{
    if inner <= outer {
        ((outer - inner) / 2) as i64
    } else {
        -(((inner - outer) / 2) as i64)
    }
}

/// Places `top` with its top-left pixel at `(x, y)` on `base`, clipping
/// whatever falls outside `base`.
pub fn overlay(base: &mut Raster, top: &Raster, x: i64, y: i64)
    requires
        old(base).wf(),
        top.wf(),
    ensures
        final(base).wf(),
        final(base).width == old(base).width,
        final(base).height == old(base).height,
        final(base).data@ == overlaid(
            old(base).data@,
            old(base).width as nat,
            top.data@,
            top.width as nat,
            top.height as nat,
            x as int,
            y as int,
        ),
{
    let n = base.data.len();
    let bw = base.width as usize;
    let tw = top.width as usize;
    let th = top.height as usize;
    let tlen = top.data.len();
    let ghost src = base.data@;
    let mut out: Vec<u8> = Vec::with_capacity(n);
    let mut k: usize = 0;
    while k < n
        invariant
            k <= n,
            n == src.len(),
            src == base.data@,
            base.wf(),
            top.wf(),
            bw == base.width,
            tw == top.width,
            th == top.height,
            tlen == top.data@.len(),
            out@.len() == k,
            forall|i: int|
                0 <= i < k ==> out@[i] == overlay_sample(
                    src,
                    bw as nat,
                    top.data@,
                    tw as nat,
                    th as nat,
                    x as int,
                    y as int,
                    i,
                ),
        decreases n - k,
    {
        proof {
            lemma_nonempty_width(n as int, bw as int, base.height as int);
        }
        let p = k / 3;
        let tx: i128 = (p % bw) as i128 - x as i128;
        let ty: i128 = (p / bw) as i128 - y as i128;
        let v = if 0 <= tx && tx < tw as i128 && 0 <= ty && ty < th as i128 {
            proof {
                lemma_top_index(tx as int, ty as int, tw as int, th as int);
                assert(0 <= (ty as int) * (tw as int));
                assert(3 * ((ty as int) * (tw as int) + tx as int) + 2 < top.data@.len());
            }
            let tyu = ty as usize;
            let txu = tx as usize;
            assert(tyu as int == ty as int && txu as int == tx as int);
            let i = 3 * (tyu * tw + txu) + k % 3;
            top.data[i]
        } else {
            base.data[k]
        };
        out.push(v);
        k = k + 1;
    }
    proof {
        assert(out@ =~= overlaid(src, bw as nat, top.data@, tw as nat, th as nat, x as int, y as int));
    }
    base.data = out;
}

/// Places `top` centred on `base`, clipping whatever falls outside it.
pub fn overlay_centered(base: &mut Raster, top: &Raster)
    requires
        old(base).wf(),
        top.wf(),
    ensures
        final(base).wf(),
        final(base).width == old(base).width,
        final(base).height == old(base).height,
        final(base).data@ == overlaid(
            old(base).data@,
            old(base).width as nat,
            top.data@,
            top.width as nat,
            top.height as nat,
            centered(old(base).width as int, top.width as int),
            centered(old(base).height as int, top.height as int),
        ),
{
    let x = center_offset(base.width, top.width);
    let y = center_offset(base.height, top.height);
    overlay(base, top, x, y);
}

/// Sample `c` of pixel `(x, y)` sits at index `3 * (y * w + x) + c`, and that
/// index decomposes back into the pixel and channel.
proof fn lemma_sample_index(x: int, y: int, w: int, h: int, c: int)
    requires
        0 <= x < w,
        0 <= y < h,
        0 <= c < 3,
    ensures
        ({
            let k = 3 * (y * w + x) + c;
            &&& 0 <= k < 3 * w * h
            &&& k / 3 == y * w + x
            &&& k % 3 == c
            &&& (k / 3) % w == x
            &&& (k / 3) / w == y
        }),
{
    let p = y * w + x;
    lemma_top_index(x, y, w, h);
    lemma_fundamental_div_mod_converse(3 * p + c, 3, p, c);
    assert(p == y * w + x);
    lemma_fundamental_div_mod_converse(p, w, y, x);
}

/// Centring on a larger base: overlay pixel `(i, j)` lands at column
/// `(W - w) / 2 + i` and row `(H - h) / 2 + j` of the result, for every
/// overlay no wider and no taller than the base.
pub proof fn lemma_centered_placement(
    base: Seq<u8>,
    bw: nat,
    bh: nat,
    top: Seq<u8>,
    tw: nat,
    th: nat,
    i: int,
    j: int,
)
    requires
        base.len() == 3 * bw * bh,
        top.len() == 3 * tw * th,
        tw <= bw,
        th <= bh,
        0 <= i < tw,
        0 <= j < th,
    ensures
        pixel(
            overlaid(base, bw, top, tw, th, centered(bw as int, tw as int), centered(bh as int, th as int)),
            bw,
            (bw - tw) / 2 + i,
            (bh - th) / 2 + j,
        ) == pixel(top, tw, i, j),
{
    let ox = (bw - tw) / 2;
    let oy = (bh - th) / 2;
    let x = ox + i;
    let y = oy + j;
    let r = overlaid(base, bw, top, tw, th, ox, oy);
    lemma_sample_index(x, y, bw as int, bh as int, 0);
    lemma_sample_index(x, y, bw as int, bh as int, 1);
    lemma_sample_index(x, y, bw as int, bh as int, 2);
    lemma_sample_index(i, j, tw as int, th as int, 0);
    lemma_sample_index(i, j, tw as int, th as int, 1);
    lemma_sample_index(i, j, tw as int, th as int, 2);
    let k = 3 * (y * bw + x);
    assert(r[k] == top[3 * (j * tw + i)]);
    assert(r[k + 1] == top[3 * (j * tw + i) + 1]);
    assert(r[k + 2] == top[3 * (j * tw + i) + 2]);
}

} // verus!
