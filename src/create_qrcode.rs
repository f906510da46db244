//! Rendering a text payload as a square raster holding its QR symbol.

use vstd::prelude::*;
use vstd::arithmetic::div_mod::lemma_fundamental_div_mod;
use crate::raster::{Raster, BLACK, WHITE};

verus! {

/// Why a symbol could not be rendered.
#[derive(Debug, Clone, Copy, PartialEq, Eq, Structural)]
pub enum RenderError {
    /// The requested width is zero.
    InvalidDimension,
    /// The text does not fit in the largest symbol at the chosen error-correction level.
    PayloadTooLarge,
}

/// The symbol that the encoder builds for `text` at the medium
/// error-correction level: its module count per side and its modules in
/// row-major order (`true` for dark), or `None` when the text does not fit.
pub uninterp spec fn qr_symbol(text: Seq<char>) -> Option<(nat, Seq<bool>)>;

/// Relies on `qrcode::QrCode::with_error_correction_level` with `EcLevel::M`,
/// read back through `QrCode::width` and `QrCode::to_colors`: a normal symbol
/// (version 1 to 40, so `17 + 4 * version` modules per side) whose
/// `width * width` modules come in row-major order; any error means the text
/// does not fit.
#[verifier::external_body]
fn encode_symbol(text: &str) -> (r: Option<(usize, Vec<bool>)>)
    ensures
        r is None <==> qr_symbol(text@) is None,
        r matches Some((n, m)) ==> qr_symbol(text@) == Some((n as nat, m@)) && 21 <= n <= 177
            && m@.len() == n * n,
{
    match qrcode::QrCode::with_error_correction_level(text, qrcode::EcLevel::M) {
        Ok(code) => Some((
            code.width(),
            code.to_colors().into_iter().map(|c| c == qrcode::Color::Dark).collect(),
        )),
        Err(_) => None,
    }
}

/// Pixels per module side: the target width divided by the module count,
/// rounded down, but never less than one.
pub open spec fn module_scale(width: nat, n: nat) -> nat {
    if width / n >= 1 {
        width / n
    } else {
        1
    }
}

/// Where the scaled symbol starts on both axes: half the leftover width,
/// rounded down (negative when the symbol is wider than the target).
pub open spec fn symbol_offset(width: nat, n: nat) -> int {
    (width - n * module_scale(width, n)) / 2
}

/// Sample `k` of a `width × width` raster holding the `n × n` symbol
/// `modules`, scaled by `module_scale` and centred on a white background.
pub open spec fn symbol_sample(modules: Seq<bool>, n: nat, width: nat, k: int) -> u8 {
    let s = module_scale(width, n);
    let size = n * s;
    let off = symbol_offset(width, n);
    let p = k / 3;
    let mx = p % (width as int) - off;
    let my = p / (width as int) - off;
    if 0 <= mx < size && 0 <= my < size && modules[(my / s as int) * n + mx / s as int] {
        BLACK
    } else {
        WHITE
    }
}

/// The samples of the rendered `width × width` raster.
pub open spec fn symbol_raster(modules: Seq<bool>, n: nat, width: nat) -> Seq<u8> {
    Seq::new(3 * width * width, |k: int| symbol_sample(modules, n, width, k))
}

/// What rendering `text` at `width` gives: the raster's samples, or the error.
pub open spec fn render_outcome(text: Seq<char>, width: nat) -> Result<Seq<u8>, RenderError> {
    if width == 0 {
        Err(RenderError::InvalidDimension)
    } else {
        match qr_symbol(text) {
            None => Err(RenderError::PayloadTooLarge),
            Some((n, modules)) => Ok(symbol_raster(modules, n, width)),
        }
    }
}

proof fn lemma_module_index(mx: int, my: int, s: int, n: int, size: int)
    requires
        s > 0,
        n > 0,
        size == n * s,
        0 <= mx < size,
        0 <= my < size,
    ensures
        0 <= mx / s < n,
        0 <= my / s < n,
        0 <= (my / s) * n + mx / s < n * n,
{
    lemma_fundamental_div_mod(mx, s);
    lemma_fundamental_div_mod(my, s);
    assert(0 <= mx / s < n) by (nonlinear_arith)
        requires
            s > 0,
            mx == s * (mx / s) + mx % s,
            0 <= mx % s < s,
            0 <= mx < n * s,
    ;
    assert(0 <= my / s < n) by (nonlinear_arith)
        requires
            s > 0,
            my == s * (my / s) + my % s,
            0 <= my % s < s,
            0 <= my < n * s,
    ;
    assert(0 <= (my / s) * n + mx / s < n * n) by (nonlinear_arith)
        requires
            0 <= mx / s < n,
            0 <= my / s < n,
    ;
}

/// Renders the `n × n` symbol `modules` into a `width × width` raster:
/// each module becomes a `module_scale` square block, and the symbol is
/// centred on white, the border serving as quiet zone.
pub fn render_modules(modules: &Vec<bool>, n: usize, width: u32) -> (r: Raster)
    requires
        n >= 1,
        modules@.len() == n * n,
        3 * width * width <= usize::MAX,
    ensures
        r.wf(),
        r.width == width,
        r.height == width,
        r.data@ == symbol_raster(modules@, n as nat, width as nat),
{
    let ghost nn = n as nat;
    let ghost wn = width as nat;
    proof {
        assert(n * n >= n) by (nonlinear_arith)
            requires
                n >= 1,
        ;
    }
    let w = width as u64;
    let nm = n as u64;
    let s: u64 = if w / nm >= 1 {
        w / nm
    } else {
        1
    };
    assert(s == module_scale(wn, nn));
    proof {
        if w / nm >= 1 {
            lemma_fundamental_div_mod(w as int, nm as int);
            assert(nm * (w / nm) <= w) by (nonlinear_arith)
                requires
                    w == nm * (w / nm) + w % nm,
                    0 <= w % nm,
            ;
        }
    }
    let size: u64 = nm * s;
    let off: i128 = if size <= w {
        ((w - size) / 2) as i128
    } else {
        -(((size - w) as i128 + 1) / 2)
    };
    assert(off == symbol_offset(wn, nn));
    let total: usize = if width == 0 {
        0
    } else {
        proof {
            crate::raster::lemma_fits(width as int, width as int);
        }
        3 * (width as usize) * (width as usize)
    };
    let wu = width as usize;
    let mlen = modules.len();
    let mut data: Vec<u8> = Vec::with_capacity(total);
    let mut k: usize = 0;
    while k < total
        invariant
            k <= total,
            total == 3 * wn * wn,
            wn == width as nat,
            nn == n as nat,
            wu == width,
            s == module_scale(wn, nn),
            s >= 1,
            size == nn * s,
            off == symbol_offset(wn, nn),
            modules@.len() == n * n,
            n >= 1,
            nm == n,
            mlen == modules@.len(),
            data@.len() == k,
            forall|i: int| 0 <= i < k ==> data@[i] == symbol_sample(modules@, nn, wn, i),
        decreases total - k,
    {
        proof {
            crate::raster::lemma_nonempty_width(total as int, wu as int, wu as int);
        }
        let p = k / 3;
        let mx: i128 = (p % wu) as i128 - off;
        let my: i128 = (p / wu) as i128 - off;
        let v = if 0 <= mx && mx < size as i128 && 0 <= my && my < size as i128 {
            proof {
                lemma_module_index(mx as int, my as int, s as int, n as int, size as int);
            }
            let myu = my as u64;
            let mxu = mx as u64;
            assert(myu as int == my as int && mxu as int == mx as int);
            let row = (myu / s) as usize;
            let col = (mxu / s) as usize;
            assert(row as int == (my as int) / (s as int) && col as int == (mx as int) / (s as int));
            assert(row * n + col < mlen);
            if modules[row * n + col] {
                BLACK
            } else {
                WHITE
            }
        } else {
            WHITE
        };
        data.push(v);
        k = k + 1;
    }
    proof {
        assert(data@ =~= symbol_raster(modules@, nn, wn));
    }
    Raster { width, height: width, data }
}

/// Renders `data` as a QR symbol on a white `width × width` raster.
pub fn new(data: String, width: u32) -> (r: Result<Raster, RenderError>)
    requires
        3 * width * width <= usize::MAX,
    ensures
        match r {
            Ok(img) => img.wf() && img.width == width && img.height == width
                && render_outcome(data@, width as nat) == Ok::<Seq<u8>, RenderError>(img.data@),
            Err(e) => render_outcome(data@, width as nat) == Err::<Seq<u8>, RenderError>(e),
        },
{
    if width == 0 {
        return Err(RenderError::InvalidDimension);
    }
    match encode_symbol(data.as_str()) {
        None => Err(RenderError::PayloadTooLarge),
        Some((n, modules)) => Ok(render_modules(&modules, n, width)),
    }
}

/// Every positive width and every text that fits give a raster of exactly
/// `width × width` pixels.
pub proof fn lemma_render_size(text: Seq<char>, width: nat)
    requires
        width > 0,
        qr_symbol(text) is Some,
    ensures
        render_outcome(text, width) is Ok,
        render_outcome(text, width)->Ok_0.len() == 3 * width * width,
{
}

/// Rendering is deterministic: equal text and width give equal outcomes,
/// sample for sample.
pub proof fn lemma_render_deterministic(t1: Seq<char>, w1: nat, t2: Seq<char>, w2: nat)
    requires
        t1 == t2,
        w1 == w2,
    ensures
        render_outcome(t1, w1) == render_outcome(t2, w2),
{
}

/// A zero width is refused with `InvalidDimension`, whatever the text.
pub proof fn lemma_zero_width(text: Seq<char>)
    ensures
        render_outcome(text, 0) == Err::<Seq<u8>, RenderError>(RenderError::InvalidDimension),
{
}

} // verus!
