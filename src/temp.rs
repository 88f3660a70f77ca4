use vstd::prelude::*;
use crate::cells::MAX_CELLS;
use crate::cells::{CellArray, cells_of, has_shape, cells_zeroed, cell_get, cell_set};
use crate::config::{SimConfig, RAD_DEN, RAD_MAX};
use crate::diffusion::{field_ok, rk4_step, heat_eq_step_spherical};
use crate::fixed::{TEMP_LIMIT, saturate, in_range, saturate_exec};
use crate::poles::{homogenize, homogenize_poles, lemma_homogenize_poles};

verus! {

/// `s + f` cell by cell, saturated.
pub open spec fn add_field(s: Seq<Seq<i64>>, f: Seq<Seq<i64>>) -> Seq<Seq<i64>> {
    Seq::new(
        s.len(),
        |x: int| Seq::new(s[x].len(), |y: int| saturate(s[x][y] + f[x][y]) as i64),
    )
}

/// The black-body loss of a cell at temperature `t`:
/// `t^4 * radiation / RAD_DEN`, rounded down.
pub open spec fn black_body_loss(c: SimConfig, t: int) -> int {
    t * t * t * t * c.radiation / (RAD_DEN as int)
}

/// `s` after one black-body cooling step.
pub open spec fn radiate_field(c: SimConfig, s: Seq<Seq<i64>>) -> Seq<Seq<i64>> {
    Seq::new(
        s.len(),
        |x: int|
            Seq::new(s[x].len(), |y: int| saturate(s[x][y] - black_body_loss(c, s[x][y] as int)) as i64),
    )
}

/// One diffusion step: a Runge-Kutta step followed by pole homogenization.
pub open spec fn heat_step(c: SimConfig, s: Seq<Seq<i64>>) -> Seq<Seq<i64>> {
    homogenize(rk4_step(c, s), c.height as int)
}

/// `n` diffusion steps in sequence.
pub open spec fn heat_steps(c: SimConfig, s: Seq<Seq<i64>>, n: nat) -> Seq<Seq<i64>>
    decreases n,
{
    if n == 0 {
        s
    } else {
        heat_step(c, heat_steps(c, s, (n - 1) as nat))
    }
}

/// The temperature field: a `width` by `height` grid of temperatures, each
/// within `[-TEMP_LIMIT, TEMP_LIMIT]`.
pub struct TempMap {
    map: CellArray,
    width: usize,
    height: usize,
}

impl View for TempMap {
    type V = Seq<Seq<i64>>;

    /// The temperatures, one sequence per longitude column.
    closed spec fn view(&self) -> Seq<Seq<i64>> {
        cells_of(self.map)
    }
}

impl TempMap {
    pub closed spec fn spec_width(&self) -> nat {
        self.width as nat
    }

    pub closed spec fn spec_height(&self) -> nat {
        self.height as nat
    }

    /// The field's invariant: its shape, a grid of at least two rows and two
    /// columns, and temperatures within range.
    pub closed spec fn wf(&self) -> bool {
        &&& 2 <= self.width
        &&& 2 <= self.height
        &&& self.width * self.height <= MAX_CELLS
        &&& field_ok(cells_of(self.map), self.width as int, self.height as int)
    }

    /// Whether the field has the grid size of `c`.
    pub open spec fn fits(&self, c: SimConfig) -> bool {
        self.spec_width() == c.width && self.spec_height() == c.height
    }

    pub proof fn lemma_wf(&self)
        requires
            self.wf(),
        ensures
            2 <= self.spec_width(),
            2 <= self.spec_height(),
            self.spec_width() * self.spec_height() <= MAX_CELLS,
            field_ok(self@, self.spec_width() as int, self.spec_height() as int),
    {
    }

    /// A field of `width` columns and `height` rows, every cell at zero.
    pub fn new(width: usize, height: usize) -> (r: TempMap)
        requires
            2 <= width,
            2 <= height,
            width * height <= MAX_CELLS,
        ensures
            r.wf(),
            r.spec_width() == width,
            r.spec_height() == height,
            forall|x: int, y: int| 0 <= x < width && 0 <= y < height ==> #[trigger] r@[x][y] == 0,
    {
        let map = cells_zeroed(width, height);
        TempMap { map, width, height }
    }

    pub fn width(&self) -> (r: usize)
        ensures
            r == self.spec_width(),
    {
        self.width
    }

    pub fn height(&self) -> (r: usize)
        ensures
            r == self.spec_height(),
    {
        self.height
    }

    /// The temperature of cell `(x, y)`.
    pub fn get(&self, x: usize, y: usize) -> (t: i64)
        requires
            self.wf(),
            x < self.spec_width(),
            y < self.spec_height(),
        ensures
            t == self@[x as int][y as int],
    {
        cell_get(&self.map, x, y)
    }

    /// Sets cell `(x, y)` to `t`, saturated.
    pub fn set_at(&mut self, x: usize, y: usize, t: i64)
        requires
            old(self).wf(),
            x < old(self).spec_width(),
            y < old(self).spec_height(),
        ensures
            final(self).wf(),
            final(self).spec_width() == old(self).spec_width(),
            final(self).spec_height() == old(self).spec_height(),
            final(self)@ == old(self)@.update(
                x as int,
                old(self)@[x as int].update(y as int, saturate(t as int) as i64),
            ),
    {
        let v = saturate_exec(t as i128);
        cell_set(&mut self.map, x, y, v);
    }

    /// Sets every cell `(x, y)` to `f(x, y)`: a seed function of the cell's
    /// column and row, whose values are storable temperatures.
    pub fn set_heat<F: Fn(usize, usize) -> i64>(&mut self, f: F)
        requires
            old(self).wf(),
            forall|x: usize, y: usize|
                x < old(self).spec_width() && y < old(self).spec_height() ==> #[trigger] f.requires(
                    (x, y),
                ),
            forall|x: usize, y: usize, v: i64| #[trigger] f.ensures((x, y), v) ==> in_range(v as int),
        ensures
            final(self).wf(),
            final(self).spec_width() == old(self).spec_width(),
            final(self).spec_height() == old(self).spec_height(),
            forall|x: usize, y: usize|
                #![trigger final(self)@[x as int][y as int]]
                x < final(self).spec_width() && y < final(self).spec_height() ==> f.ensures(
                    (x, y),
                    final(self)@[x as int][y as int],
                ),
    {
        let w = self.width;
        let h = self.height;
        let mut x: usize = 0;
        while x < w
            invariant
                w == self.width,
                h == self.height,
                2 <= w,
                2 <= h,
                w * h <= MAX_CELLS,
                forall|i: usize, j: usize| i < w && j < h ==> #[trigger] f.requires((i, j)),
                forall|i: usize, j: usize, v: i64| #[trigger] f.ensures((i, j), v) ==> in_range(v as int),
                x <= w,
                field_ok(cells_of(self.map), w as int, h as int),
                forall|i: usize, j: usize|
                    #![trigger cells_of(self.map)[i as int][j as int]]
                    i < x && j < h ==> f.ensures((i, j), cells_of(self.map)[i as int][j as int]),
            decreases w - x,
        {
            let mut y: usize = 0;
            while y < h
                invariant
                    w == self.width,
                    h == self.height,
                    2 <= w,
                    2 <= h,
                    w * h <= MAX_CELLS,
                    forall|i: usize, j: usize| i < w && j < h ==> #[trigger] f.requires((i, j)),
                    forall|i: usize, j: usize, v: i64| #[trigger] f.ensures((i, j), v) ==> in_range(v as int),
                    x < w,
                    y <= h,
                    field_ok(cells_of(self.map), w as int, h as int),
                    forall|i: usize, j: usize|
                        #![trigger cells_of(self.map)[i as int][j as int]]
                        (i < x && j < h) || (i == x && j < y) ==> f.ensures(
                            (i, j),
                            cells_of(self.map)[i as int][j as int],
                        ),
                decreases h - y,
            {
                let v = f(x, y);
                cell_set(&mut self.map, x, y, v);
                y += 1;
            }
            x += 1;
        }
    }

    /// Adds the grid `rhs` (a flux) to the field, cell by cell, saturated.
    pub fn add_heat(&mut self, rhs: &CellArray)
        requires
            old(self).wf(),
            has_shape(cells_of(*rhs), old(self).spec_width() as int, old(self).spec_height() as int),
        ensures
            final(self).wf(),
            final(self).spec_width() == old(self).spec_width(),
            final(self).spec_height() == old(self).spec_height(),
            final(self)@ == add_field(old(self)@, cells_of(*rhs)),
    {
        let ghost s0 = cells_of(self.map);
        let ghost f = cells_of(*rhs);
        let w = self.width;
        let h = self.height;
        let mut x: usize = 0;
        while x < w
            invariant
                w == self.width,
                h == self.height,
                2 <= w,
                2 <= h,
                w * h <= MAX_CELLS,
                field_ok(s0, w as int, h as int),
                has_shape(f, w as int, h as int),
                f == cells_of(*rhs),
                x <= w,
                has_shape(cells_of(self.map), w as int, h as int),
                forall|i: int, j: int|
                    0 <= i < w && 0 <= j < h ==> #[trigger] cells_of(self.map)[i][j] == if i < x {
                        saturate(s0[i][j] + f[i][j]) as i64
                    } else {
                        s0[i][j]
                    },
            decreases w - x,
        {
            let mut y: usize = 0;
            while y < h
                invariant
                    w == self.width,
                    h == self.height,
                    2 <= w,
                    2 <= h,
                    w * h <= MAX_CELLS,
                    field_ok(s0, w as int, h as int),
                    has_shape(f, w as int, h as int),
                    f == cells_of(*rhs),
                    x < w,
                    y <= h,
                    has_shape(cells_of(self.map), w as int, h as int),
                    forall|i: int, j: int|
                        0 <= i < w && 0 <= j < h ==> #[trigger] cells_of(self.map)[i][j] == if i < x
                            || (i == x && j < y) {
                            saturate(s0[i][j] + f[i][j]) as i64
                        } else {
                            s0[i][j]
                        },
                decreases h - y,
            {
                let a = cell_get(&self.map, x, y) as i128;
                let b = cell_get(rhs, x, y) as i128;
                let v = saturate_exec(a + b);
                cell_set(&mut self.map, x, y, v);
                y += 1;
            }
            x += 1;
        }
        proof {
            assert(cells_of(self.map) =~~= add_field(s0, f));
            assert forall|i: int, j: int| 0 <= i < w && 0 <= j < h implies in_range(
                #[trigger] cells_of(self.map)[i][j] as int,
            ) by {
                assert(in_range(saturate(s0[i][j] + f[i][j])));
            }
        }
    }

    /// Subtracts each cell's black-body loss `t^4 * radiation / RAD_DEN`,
    /// saturated.
    pub fn radiate_black_body(&mut self, c: &SimConfig)
        requires
            old(self).wf(),
            c.wf(),
        ensures
            final(self).wf(),
            final(self).spec_width() == old(self).spec_width(),
            final(self).spec_height() == old(self).spec_height(),
            final(self)@ == radiate_field(*c, old(self)@),
    {
        let ghost s0 = cells_of(self.map);
        let w = self.width;
        let h = self.height;
        let mut x: usize = 0;
        while x < w
            invariant
                c.wf(),
                w == self.width,
                h == self.height,
                2 <= w,
                2 <= h,
                w * h <= MAX_CELLS,
                field_ok(s0, w as int, h as int),
                x <= w,
                has_shape(cells_of(self.map), w as int, h as int),
                forall|i: int, j: int|
                    0 <= i < w && 0 <= j < h ==> #[trigger] cells_of(self.map)[i][j] == if i < x {
                        saturate(s0[i][j] - black_body_loss(*c, s0[i][j] as int)) as i64
                    } else {
                        s0[i][j]
                    },
            decreases w - x,
        {
            let mut y: usize = 0;
            while y < h
                invariant
                    c.wf(),
                    w == self.width,
                    h == self.height,
                    2 <= w,
                    2 <= h,
                    w * h <= MAX_CELLS,
                    field_ok(s0, w as int, h as int),
                    x < w,
                    y <= h,
                    has_shape(cells_of(self.map), w as int, h as int),
                    forall|i: int, j: int|
                        0 <= i < w && 0 <= j < h ==> #[trigger] cells_of(self.map)[i][j] == if i < x
                            || (i == x && j < y) {
                            saturate(s0[i][j] - black_body_loss(*c, s0[i][j] as int)) as i64
                        } else {
                            s0[i][j]
                        },
                decreases h - y,
            {
                let t = cell_get(&self.map, x, y);
                let loss = loss_of(c, t);
                let v = saturate_exec(t as i128 - loss);
                cell_set(&mut self.map, x, y, v);
                y += 1;
            }
            x += 1;
        }
        proof {
            assert(cells_of(self.map) =~~= radiate_field(*c, s0));
            assert forall|i: int, j: int| 0 <= i < w && 0 <= j < h implies in_range(
                #[trigger] cells_of(self.map)[i][j] as int,
            ) by {
                assert(in_range(saturate(s0[i][j] - black_body_loss(*c, s0[i][j] as int))));
            }
        }
    }

    /// Advances the field by one diffusion step: a Runge-Kutta step, then
    /// each pole row reset to its mean.
    pub fn apply_heat_eq(&mut self, c: &SimConfig)
        requires
            old(self).wf(),
            c.wf(),
            old(self).fits(*c),
        ensures
            final(self).wf(),
            final(self).fits(*c),
            final(self)@ == heat_step(*c, old(self)@),
            forall|x: int|
                0 <= x < c.width ==> #[trigger] final(self)@[x][0] == final(self)@[0][0],
            forall|x: int|
                0 <= x < c.width ==> #[trigger] final(self)@[x][c.height - 1]
                    == final(self)@[0][c.height - 1],
    {
        let mut next = heat_eq_step_spherical(c, &self.map);
        let ghost stepped = cells_of(next);
        homogenize_poles(&mut next, self.width, self.height);
        self.map = next;
        proof {
            lemma_homogenize_poles(stepped, c.width as int, c.height as int);
        }
    }
}

/// The black-body loss of a cell at temperature `t`.
fn loss_of(c: &SimConfig, t: i64) -> (r: i128)
    requires
        c.wf(),
        in_range(t as int),
    ensures
        r == black_body_loss(*c, t as int),
        0 <= r < 0x8_0000_0000_0000,
{
    let ghost l = TEMP_LIMIT as int;
    let ghost ti = t as int;
    proof {
        assert(0 <= ti * ti <= l * l) by (nonlinear_arith)
            requires
                -l <= ti <= l,
        ;
        assert(0 <= (ti * ti) * (ti * ti) <= (l * l) * (l * l)) by (nonlinear_arith)
            requires
                0 <= ti * ti <= l * l,
        ;
        assert(0 <= (ti * ti) * (ti * ti) * c.radiation <= (l * l) * (l * l) * RAD_MAX)
            by (nonlinear_arith)
            requires
                0 <= (ti * ti) * (ti * ti) <= (l * l) * (l * l),
                0 <= c.radiation <= RAD_MAX,
        ;
        assert((l * l) * (l * l) * RAD_MAX < 0x8000_0000_0000_0000_0000_0000_0000_0000)
            by (nonlinear_arith)
            requires
                l == 0x1000_0000,
        ;
    }
    let t = t as i128;
    let t2 = t * t;
    let t4 = t2 * t2;
    let p = t4 * c.radiation as i128;
    proof {
        let d = RAD_DEN as int;
        let pi = p as int;
        let q = pi / d;
        vstd::arithmetic::div_mod::lemma_fundamental_div_mod(pi, d);
        if q >= 0x8_0000_0000_0000 {
            assert(d * q >= d * 0x8_0000_0000_0000) by (nonlinear_arith)
                requires
                    q >= 0x8_0000_0000_0000,
                    d > 0,
            ;
        }
        if q < 0 {
            assert(d * q <= -d) by (nonlinear_arith)
                requires
                    q < 0,
                    d > 0,
            ;
        }
        assert(ti * ti * ti * ti == (ti * ti) * (ti * ti)) by (nonlinear_arith);
    }
    p / RAD_DEN
}

} // verus!
