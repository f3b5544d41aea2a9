//! Reconstruction of filtered scanlines.
//!
//! A band of `height` scanlines arrives as `filter_type, bytes..., filter_type,
//! bytes...`, each scanline holding `bytes_per_line` bytes after its filter
//! type. Filter types: 0 None, 1 Sub, 2 Up, 3 Average, 4 Paeth. All arithmetic
//! on bytes is modulo 256; neighbours outside the band count as 0.
use vstd::prelude::*;

use crate::errors::PngDecodeErrorCode;

verus! {

pub open spec fn abs_diff(a: int, b: int) -> int {
    if a >= b {
        a - b
    } else {
        b - a
    }
}

/// The Paeth predictor: the neighbour closest to `left + up - up_left`,
/// ties going to `left`, then to `up`.
pub open spec fn paeth(left: u8, up: u8, up_left: u8) -> u8 {
    let p = left as int + up as int - up_left as int;
    let pl = abs_diff(p, left as int);
    let pu = abs_diff(p, up as int);
    let pul = abs_diff(p, up_left as int);
    if pl <= pu && pl <= pul {
        left
    } else if pu <= pul {
        up
    } else {
        up_left
    }
}

/// Addition modulo 256.
pub open spec fn wrap_add(a: u8, b: u8) -> u8 {
    ((a as int + b as int) % 256) as u8
}

/// One reconstructed byte from its filtered value and its three neighbours.
pub open spec fn recon_byte(filter_type: u8, filt: u8, left: u8, up: u8, up_left: u8) -> u8 {
    if filter_type == 1 {
        wrap_add(filt, left)
    } else if filter_type == 2 {
        wrap_add(filt, up)
    } else if filter_type == 3 {
        wrap_add(filt, ((left as int + up as int) / 2) as u8)
    } else if filter_type == 4 {
        wrap_add(filt, paeth(left, up, up_left))
    } else {
        filt
    }
}

/// Filter type of scanline `row`.
pub open spec fn filter_type_at(inp: Seq<u8>, bpl: int, row: int) -> u8 {
    inp[row * (bpl + 1)]
}

/// Byte `k` of the reconstructed band, `done` being the `k` bytes before it.
pub open spec fn band_byte(inp: Seq<u8>, bpp: int, bpl: int, done: Seq<u8>, k: int) -> u8 {
    let row = k / bpl;
    let col = k % bpl;
    let filt = inp[row * (bpl + 1) + 1 + col];
    let left = if col >= bpp {
        done[k - bpp]
    } else {
        0u8
    };
    let up = if row > 0 {
        done[k - bpl]
    } else {
        0u8
    };
    let up_left = if row > 0 && col >= bpp {
        done[k - bpl - bpp]
    } else {
        0u8
    };
    recon_byte(filter_type_at(inp, bpl, row), filt, left, up, up_left)
}

/// The first `n` bytes of the reconstructed band.
pub open spec fn unfiltered_prefix(inp: Seq<u8>, bpp: int, bpl: int, n: nat) -> Seq<u8>
    decreases n,
{
    if n == 0 {
        Seq::empty()
    } else {
        let done = unfiltered_prefix(inp, bpp, bpl, (n - 1) as nat);
        done.push(band_byte(inp, bpp, bpl, done, n - 1))
    }
}

/// The reconstructed band: `height * bpl` bytes.
pub open spec fn unfiltered_band(inp: Seq<u8>, height: int, bpp: int, bpl: int) -> Seq<u8> {
    unfiltered_prefix(inp, bpp, bpl, (height * bpl) as nat)
}

/// Whether the first `rows` scanlines all carry a known filter type.
pub open spec fn filters_known(inp: Seq<u8>, bpl: int, rows: int) -> bool {
    forall|r: int| 0 <= r < rows ==> filter_type_at(inp, bpl, r) <= 4
}

pub proof fn lemma_prefix_len(inp: Seq<u8>, bpp: int, bpl: int, n: nat)
    ensures
        unfiltered_prefix(inp, bpp, bpl, n).len() == n,
    decreases n,
{
    if n > 0 {
        lemma_prefix_len(inp, bpp, bpl, (n - 1) as nat);
    }
}

/// The Paeth predictor of three equal neighbours is that value.
pub proof fn lemma_paeth_of_equal(a: u8)
    ensures
        paeth(a, a, a) == a,
{
}

/// Average filtering of an all-zero first scanline reconstructs to all zeros,
/// whatever the filter stride.
pub proof fn lemma_average_first_line_zero(inp: Seq<u8>, bpp: int, bpl: int)
    requires
        bpp >= 1,
        bpl >= 1,
        inp.len() >= bpl + 1,
        inp[0] == 3,
        forall|i: int| 1 <= i <= bpl ==> inp[i] == 0,
    ensures
        forall|k: int|
            0 <= k < bpl ==> #[trigger] unfiltered_prefix(inp, bpp, bpl, bpl as nat)[k] == 0,
{
    lemma_average_zero_prefix(inp, bpp, bpl, bpl as nat);
}

proof fn lemma_average_zero_prefix(inp: Seq<u8>, bpp: int, bpl: int, n: nat)
    requires
        bpp >= 1,
        bpl >= 1,
        n <= bpl,
        inp.len() >= bpl + 1,
        inp[0] == 3,
        forall|i: int| 1 <= i <= bpl ==> inp[i] == 0,
    ensures
        unfiltered_prefix(inp, bpp, bpl, n).len() == n,
        forall|k: int| 0 <= k < n ==> #[trigger] unfiltered_prefix(inp, bpp, bpl, n)[k] == 0,
    decreases n,
{
    if n > 0 {
        let m = (n - 1) as int;
        lemma_average_zero_prefix(inp, bpp, bpl, (n - 1) as nat);
        let done = unfiltered_prefix(inp, bpp, bpl, (n - 1) as nat);
        vstd::arithmetic::div_mod::lemma_fundamental_div_mod_converse(m, bpl, 0, m);
        assert(m / bpl == 0 && m % bpl == m);
        assert(0 * (bpl + 1) == 0);
        assert(filter_type_at(inp, bpl, 0) == 3);
        assert(inp[0 * (bpl + 1) + 1 + m] == 0);
        let left = if m >= bpp {
            done[m - bpp]
        } else {
            0u8
        };
        assert(left == 0);
        assert(recon_byte(3, 0, left, 0, 0) == 0);
        assert(band_byte(inp, bpp, bpl, done, m) == 0);
        assert forall|k: int| 0 <= k < n implies #[trigger] unfiltered_prefix(
            inp,
            bpp,
            bpl,
            n,
        )[k] == 0 by {
            if k < m {
                assert(unfiltered_prefix(inp, bpp, bpl, n)[k] == done[k]);
            }
        }
    }
}

/// Band byte `line * bpl + i` spelled out with its scanline and column.
proof fn lemma_band_byte_at(inp: Seq<u8>, bpp: int, bpl: int, done: Seq<u8>, line: int, i: int)
    requires
        0 <= i < bpl,
        0 <= line,
    ensures
        band_byte(inp, bpp, bpl, done, line * bpl + i) == recon_byte(
            inp[line * (bpl + 1)],
            inp[line * (bpl + 1) + 1 + i],
            if i >= bpp {
                done[line * bpl + i - bpp]
            } else {
                0u8
            },
            if line > 0 {
                done[line * bpl + i - bpl]
            } else {
                0u8
            },
            if line > 0 && i >= bpp {
                done[line * bpl + i - bpl - bpp]
            } else {
                0u8
            },
        ),
{
    vstd::arithmetic::div_mod::lemma_fundamental_div_mod_converse(line * bpl + i, bpl, line, i);
}

/// Reconstructs the scanlines of one band (a whole image, or one Adam7 pass).
pub struct UnfilterProcessor {
    height: u32,
    bytes_per_pixel: usize,
    bytes_per_line: usize,
}

impl UnfilterProcessor {
    pub closed spec fn height_view(&self) -> int {
        self.height as int
    }

    pub closed spec fn bpp_view(&self) -> int {
        self.bytes_per_pixel as int
    }

    pub closed spec fn bpl_view(&self) -> int {
        self.bytes_per_line as int
    }

    pub fn new(height: u32, bytes_per_pixel: usize, bytes_per_line: usize) -> (r: Self)
        ensures
            r.height_view() == height,
            r.bpp_view() == bytes_per_pixel,
            r.bpl_view() == bytes_per_line,
    {
        Self { height, bytes_per_pixel, bytes_per_line }
    }

    /// The Paeth predictor of the three neighbours.
    pub fn paeth_predictor(&self, left: u8, up: u8, up_left: u8) -> (r: u8)
        ensures
            r == paeth(left, up, up_left),
    {
        let p: i16 = left as i16 + up as i16 - up_left as i16;
        let position_left: i16 = if p >= left as i16 {
            p - left as i16
        } else {
            left as i16 - p
        };
        let position_up: i16 = if p >= up as i16 {
            p - up as i16
        } else {
            up as i16 - p
        };
        let position_up_left: i16 = if p >= up_left as i16 {
            p - up_left as i16
        } else {
            up_left as i16 - p
        };
        if position_left <= position_up && position_left <= position_up_left {
            left
        } else if position_up <= position_up_left {
            up
        } else {
            up_left
        }
    }

    /// Appends reconstructed scanline `line`, whose filter type is
    /// `filter_type` (one of 0..=4), to the bytes already reconstructed.
    fn unfilter_line(
        &self,
        filter_type: u8,
        line: usize,
        in_buffer_start_index: usize,
        in_buffer: &[u8],
        out_buffer: &mut Vec<u8>,
    )
        requires
            self.bpp_view() >= 1,
            filter_type <= 4,
            line < self.height_view(),
            in_buffer_start_index == line * (self.bpl_view() + 1) + 1,
            in_buffer@.len() >= self.height_view() * (self.bpl_view() + 1),
            filter_type == filter_type_at(in_buffer@, self.bpl_view(), line as int),
            old(out_buffer)@ == unfiltered_prefix(
                in_buffer@,
                self.bpp_view(),
                self.bpl_view(),
                (line * self.bpl_view()) as nat,
            ),
        ensures
            final(out_buffer)@ == unfiltered_prefix(
                in_buffer@,
                self.bpp_view(),
                self.bpl_view(),
                ((line + 1) * self.bpl_view()) as nat,
            ),
    {
        let bpl = self.bytes_per_line;
        let bpp = self.bytes_per_pixel;
        let ghost inp = in_buffer@;
        let ghost h = self.height_view();
        proof {
            assert((line + 1) * (bpl + 1) <= h * (bpl + 1)) by (nonlinear_arith)
                requires
                    line + 1 <= h,
                    bpl >= 0,
            ;
            assert((line + 1) * (bpl + 1) == line * (bpl + 1) + bpl + 1) by (nonlinear_arith);
            assert((line + 1) * bpl == line * bpl + bpl) by (nonlinear_arith);
            assert(line * bpl <= line * (bpl + 1)) by (nonlinear_arith)
                requires
                    line >= 0,
            ;
            lemma_prefix_len(inp, bpp as int, bpl as int, (line * bpl) as nat);
        }
        let out_start = out_buffer.len();
        // The slice length bounds the index arithmetic below.
        let in_len = in_buffer.len();
        let mut i: usize = 0;
        while i < bpl
            invariant
                i <= bpl,
                bpl == self.bpl_view(),
                bpp == self.bpp_view(),
                bpp >= 1,
                inp == in_buffer@,
                in_len == inp.len(),
                filter_type <= 4,
                filter_type == inp[line * (bpl + 1)],
                in_buffer_start_index + bpl <= inp.len(),
                in_buffer_start_index == line * (bpl + 1) + 1,
                out_start == line * bpl,
                out_start + bpl <= inp.len(),
                out_buffer@ == unfiltered_prefix(inp, bpp as int, bpl as int, (out_start + i) as nat),
            decreases bpl - i,
        {
            proof {
                assert(line > 0 ==> out_start >= bpl) by (nonlinear_arith)
                    requires
                        out_start == line * bpl,
                        bpl >= 0,
                ;
                lemma_prefix_len(inp, bpp as int, bpl as int, (out_start + i) as nat);
                lemma_band_byte_at(inp, bpp as int, bpl as int, out_buffer@, line as int, i as int);
            }
            let k = out_start + i;
            let filt = in_buffer[in_buffer_start_index + i];
            let left: u8 = if i >= bpp {
                out_buffer[k - bpp]
            } else {
                0
            };
            let up: u8 = if line > 0 {
                out_buffer[k - bpl]
            } else {
                0
            };
            let up_left: u8 = if line > 0 && i >= bpp {
                out_buffer[k - bpl - bpp]
            } else {
                0
            };
            let value: u8 = match filter_type {
                0 => filt,
                1 => ((filt as u16 + left as u16) % 256) as u8,
                2 => ((filt as u16 + up as u16) % 256) as u8,
                3 => ((filt as u16 + (left as u16 + up as u16) / 2) % 256) as u8,
                _ => ((filt as u16 + self.paeth_predictor(left, up, up_left) as u16) % 256) as u8,
            };
            out_buffer.push(value);
            i = i + 1;
        }
    }

    /// Reconstructs the band held in `in_buffer`: `height` scanlines, each a
    /// filter type followed by `bytes_per_line` filtered bytes. Stops with
    /// `UnknownFilterType` at the first scanline whose filter type is not 0..=4.
    pub fn unfilter(&self, in_buffer: &[u8]) -> (r: Result<Vec<u8>, PngDecodeErrorCode>)
        requires
            self.bpp_view() >= 1,
            in_buffer@.len() >= self.height_view() * (self.bpl_view() + 1),
        ensures
            match r {
                Ok(out) => filters_known(in_buffer@, self.bpl_view(), self.height_view())
                    && out@ == unfiltered_band(
                    in_buffer@,
                    self.height_view(),
                    self.bpp_view(),
                    self.bpl_view(),
                ),
                Err(e) => exists|row: int|
                    0 <= row < self.height_view() && filters_known(in_buffer@, self.bpl_view(), row)
                        && filter_type_at(in_buffer@, self.bpl_view(), row) > 4 && e
                        == PngDecodeErrorCode::UnknownFilterType(
                        filter_type_at(in_buffer@, self.bpl_view(), row),
                    ),
            },
    {
        let bpl = self.bytes_per_line;
        let height = self.height as usize;
        let ghost inp = in_buffer@;
        let mut out_buffer: Vec<u8> = Vec::new();
        let mut filter_byte_index: usize = 0;
        let mut line: usize = 0;
        while line < height
            invariant
                line <= height,
                height == self.height_view(),
                bpl == self.bpl_view(),
                self.bpp_view() >= 1,
                inp == in_buffer@,
                inp.len() >= height * (bpl + 1),
                filter_byte_index == line * (bpl + 1),
                filters_known(inp, bpl as int, line as int),
                out_buffer@ == unfiltered_prefix(
                    inp,
                    self.bpp_view(),
                    bpl as int,
                    (line * bpl) as nat,
                ),
            decreases height - line,
        {
            proof {
                assert((line + 1) * (bpl + 1) <= height * (bpl + 1)) by (nonlinear_arith)
                    requires
                        line + 1 <= height,
                ;
                assert((line + 1) * (bpl + 1) == line * (bpl + 1) + bpl + 1) by (nonlinear_arith);
            }
            let filter_type = in_buffer[filter_byte_index];
            if filter_type > 4 {
                return Err(PngDecodeErrorCode::UnknownFilterType(filter_type));
            }
            self.unfilter_line(
                filter_type,
                line,
                filter_byte_index + 1,
                in_buffer,
                &mut out_buffer,
            );
            filter_byte_index = filter_byte_index + bpl + 1;
            line = line + 1;
        }
        Ok(out_buffer)
    }
}

} // verus!
