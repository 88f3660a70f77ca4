use vstd::prelude::*;
use crate::cells::MAX_CELLS;
use crate::temp::TempMap;

verus! {

/// `v` limited to `[lo, hi]`.
pub open spec fn clamp(v: int, lo: int, hi: int) -> int {
    if v < lo {
        lo
    } else if v > hi {
        hi
    } else {
        v
    }
}

/// Where `value` lies between `min_temp` and `max_temp`, on a scale from `0`
/// to `1020` (four steps of `255`), rounded down and clamped.
pub open spec fn heat_level(value: int, min_temp: int, max_temp: int) -> int {
    clamp((value - min_temp) * 1020 / (max_temp - min_temp), 0, 1020)
}

/// One colour channel of the palette: a tent of height `382.5` centred on
/// level `255 * k`, rounded down and clamped to a byte.
pub open spec fn channel(level: int, k: int) -> int {
    let d = if level >= 255 * k { level - 255 * k } else { 255 * k - level };
    clamp((765 - 2 * d) / 2, 0, 255)
}

/// The RGBA colour of `value` on a blue-green-red palette spanning
/// `[min_temp, max_temp]`.
pub open spec fn heat_color_spec(value: int, min_temp: int, max_temp: int) -> Seq<u8> {
    let q = heat_level(value, min_temp, max_temp);
    seq![channel(q, 3) as u8, channel(q, 2) as u8, channel(q, 1) as u8, 255u8]
}

/// Byte `k` of the texture of the `w`-column field `s`: four bytes per cell,
/// rows in order, each row's cells by column.
pub open spec fn texture_byte(s: Seq<Seq<i64>>, w: int, min_temp: int, max_temp: int, k: int) -> u8 {
    let n = k / 4;
    heat_color_spec(s[n % w][n / w] as int, min_temp, max_temp)[k % 4]
}

fn clamp_exec(v: i128, lo: i128, hi: i128) -> (r: i128)
    requires
        lo <= hi,
    ensures
        r == clamp(v as int, lo as int, hi as int),
{
    if v < lo {
        lo
    } else if v > hi {
        hi
    } else {
        v
    }
}

fn channel_exec(level: i128, k: i128) -> (r: u8)
    requires
        0 <= level <= 1020,
        1 <= k <= 3,
    ensures
        r == channel(level as int, k as int),
{
    let d = if level >= 255 * k { level - 255 * k } else { 255 * k - level };
    clamp_exec((765 - 2 * d) / 2, 0, 255) as u8
}

/// The RGBA colour of `value` on a blue-green-red palette spanning
/// `[min_temp, max_temp]`.
pub fn heat_color(value: i64, min_temp: i64, max_temp: i64) -> (r: [u8; 4])
    requires
        min_temp < max_temp,
    ensures
        r@ == heat_color_spec(value as int, min_temp as int, max_temp as int),
{
    let num = (value as i128 - min_temp as i128) * 1020;
    let den = max_temp as i128 - min_temp as i128;
    let q = clamp_exec(crate::fixed::floor_div(num, den), 0, 1020);
    let r = [channel_exec(q, 3), channel_exec(q, 2), channel_exec(q, 1), 255u8];
    proof {
        assert(r@ =~= heat_color_spec(value as int, min_temp as int, max_temp as int));
    }
    r
}

impl TempMap {
    /// The field as an RGBA texture for the palette spanning
    /// `[min_temp, max_temp]`: four bytes per cell, rows in order, each row's
    /// cells by column.
    pub fn get_heat_texture(&self, min_temp: i64, max_temp: i64) -> (r: Vec<u8>)
        requires
            self.wf(),
            min_temp < max_temp,
        ensures
            r@.len() == 4 * self.spec_width() * self.spec_height(),
            forall|k: int|
                0 <= k < r@.len() ==> #[trigger] r@[k] == texture_byte(
                    self@,
                    self.spec_width() as int,
                    min_temp as int,
                    max_temp as int,
                    k,
                ),
    {
        proof {
            self.lemma_wf();
        }
        let ghost s = self@;
        let w = self.width();
        let h = self.height();
        let ghost wi = w as int;
        let mut colors: Vec<u8> = Vec::new();
        let mut y: usize = 0;
        while y < h
            invariant
                self.wf(),
                s == self@,
                w == self.spec_width(),
                h == self.spec_height(),
                wi == w,
                2 <= w,
                2 <= h,
                w * h <= MAX_CELLS,
                min_temp < max_temp,
                y <= h,
                colors@.len() == 4 * (y * w),
                forall|k: int|
                    0 <= k < colors@.len() ==> #[trigger] colors@[k] == texture_byte(
                        s,
                        wi,
                        min_temp as int,
                        max_temp as int,
                        k,
                    ),
            decreases h - y,
        {
            let mut x: usize = 0;
            while x < w
                invariant
                    self.wf(),
                    s == self@,
                    w == self.spec_width(),
                    h == self.spec_height(),
                    wi == w,
                    2 <= w,
                    2 <= h,
                    w * h <= MAX_CELLS,
                    min_temp < max_temp,
                    y < h,
                    x <= w,
                    colors@.len() == 4 * (y * w + x),
                    forall|k: int|
                        0 <= k < colors@.len() ==> #[trigger] colors@[k] == texture_byte(
                            s,
                            wi,
                            min_temp as int,
                            max_temp as int,
                            k,
                        ),
                decreases w - x,
            {
                let ghost n = y * w + x;
                proof {
                    assert(y * w + x < w * h) by (nonlinear_arith)
                        requires
                            y < h,
                            x < w,
                    ;
                    vstd::arithmetic::div_mod::lemma_fundamental_div_mod_converse(
                        n,
                        wi,
                        y as int,
                        x as int,
                    );
                }
                let c = heat_color(self.get(x, y), min_temp, max_temp);
                let ghost before = colors@;
                colors.push(c[0]);
                colors.push(c[1]);
                colors.push(c[2]);
                colors.push(c[3]);
                proof {
                    assert forall|k: int|
                        0 <= k < colors@.len() implies #[trigger] colors@[k] == texture_byte(
                        s,
                        wi,
                        min_temp as int,
                        max_temp as int,
                        k,
                    ) by {
                        if k >= 4 * n {
                            let i = k - 4 * n;
                            vstd::arithmetic::div_mod::lemma_fundamental_div_mod_converse(
                                k,
                                4,
                                n,
                                i,
                            );
                            assert(colors@[k] == c@[i]);
                        } else {
                            assert(colors@[k] == before[k]);
                        }
                    }
                    assert(4 * (y * w + x + 1) == 4 * (y * w + x) + 4);
                }
                x += 1;
            }
            proof {
                assert(y * w + w == (y + 1) * w) by (nonlinear_arith);
            }
            y += 1;
        }
        proof {
            assert(4 * (h * w) == 4 * w * h) by (nonlinear_arith);
        }
        colors
    }
}

} // verus!
