//! A linear map applied to centred vectors.
//!
//! The transform sends a vector `x` of dimension `d_in` to the vector whose
//! component `o` is the sum over `j` of `matrix[o][j] * (x[j] - center[j])`.
//! The matrix is given when the transform is made. The centre is either given
//! as well, or learned in training as the mean of the training vectors.

use vstd::prelude::*;
use vstd::arithmetic::div_mod::lemma_fundamental_div_mod;
use vstd::arithmetic::div_mod::lemma_fundamental_div_mod_converse;
use vstd::arithmetic::div_mod::lemma_mod_bound;
use crate::error::STATUS_OK;
use crate::error::STATUS_REFUSED;
use crate::layout::count;
use crate::layout::row;
use crate::layout::lemma_row_bounds;
use crate::layout::row_of;

verus! {

/// The mathematical content of a transform.
pub struct TransformModel {
    pub d_in: nat,
    pub d_out: nat,
    /// `d_out` rows of `d_in` coefficients each.
    pub matrix: Seq<i32>,
    pub center: Seq<i32>,
    pub trained: bool,
}

impl TransformModel {
    /// The dimensions are positive and the matrix and the centre have the
    /// lengths that go with them.
    pub open spec fn wf(self) -> bool {
        &&& 0 < self.d_in <= u32::MAX
        &&& 0 < self.d_out <= u32::MAX
        &&& self.matrix.len() == self.d_out * self.d_in
        &&& self.center.len() == self.d_in
    }

    /// The trained transform with this matrix and the centre `center`.
    pub open spec fn centered(self, center: Seq<i32>) -> TransformModel {
        TransformModel { center, trained: true, ..self }
    }
}

/// The first `n` terms of component `o` of the image of `x`.
pub open spec fn dot_upto(t: TransformModel, x: Seq<i32>, o: int, n: nat) -> int
    decreases n,
{
    if n == 0 {
        0
    } else {
        dot_upto(t, x, o, (n - 1) as nat) + t.matrix[o * t.d_in + (n - 1)] * (x[n - 1]
            - t.center[n - 1])
    }
}

/// Component `o` of the image of `x`, as a mathematical integer.
pub open spec fn component(t: TransformModel, x: Seq<i32>, o: int) -> int {
    dot_upto(t, x, o, t.d_in)
}

/// Whether `v` can be a component of a vector.
pub open spec fn fits(v: int) -> bool {
    i32::MIN <= v <= i32::MAX
}

/// Whether the image of `x` is a vector: each of its components fits.
pub open spec fn maps(t: TransformModel, x: Seq<i32>) -> bool {
    forall|o: int| 0 <= o < t.d_out ==> fits(#[trigger] component(t, x, o))
}

/// The image of `x`.
pub open spec fn image(t: TransformModel, x: Seq<i32>) -> Seq<i32> {
    Seq::new(t.d_out, |o: int| component(t, x, o) as i32)
}

/// The images of the first `n` vectors of `data`, one after another.
pub open spec fn images(t: TransformModel, data: Seq<i32>, n: nat) -> Seq<i32>
    decreases n,
{
    if n == 0 {
        Seq::empty()
    } else {
        images(t, data, (n - 1) as nat) + image(t, row(data, t.d_in, n - 1))
    }
}

/// Whether the transform can be applied to `data`: it is trained and maps
/// each whole vector.
pub open spec fn apply_ok(t: TransformModel, data: Seq<i32>) -> bool {
    &&& t.trained
    &&& forall|i: int|
        0 <= i < count(data.len(), t.d_in) ==> maps(t, #[trigger] row(data, t.d_in, i))
}

/// The images of the whole vectors of `data`.
pub open spec fn applied(t: TransformModel, data: Seq<i32>) -> Seq<i32> {
    images(t, data, count(data.len(), t.d_in))
}

/// The sum of component `j` over the first `n` vectors of `data`.
pub open spec fn column_sum(data: Seq<i32>, d: nat, n: nat, j: int) -> int
    decreases n,
{
    if n == 0 {
        0
    } else {
        column_sum(data, d, (n - 1) as nat, j) + data[(n - 1) * d + j]
    }
}

/// The mean of the whole vectors of `data`, each component rounded down.
pub open spec fn mean(data: Seq<i32>, d: nat) -> Seq<i32> {
    let n = count(data.len(), d);
    Seq::new(d, |j: int| (column_sum(data, d, n, j) / (n as int)) as i32)
}

/// Whether the transform can be trained on `data`: an untrained one needs at
/// least one vector.
pub open spec fn train_ok(t: TransformModel, data: Seq<i32>) -> bool {
    t.trained || count(data.len(), t.d_in) > 0
}

/// The transform after training on `data`. A trained one stays as it is.
pub open spec fn trained_on(t: TransformModel, data: Seq<i32>) -> TransformModel {
    if t.trained {
        t
    } else {
        t.centered(mean(data, t.d_in))
    }
}

/// `n` images take up `n` times the output dimension.
pub proof fn lemma_images_len(t: TransformModel, data: Seq<i32>, n: nat)
    ensures
        images(t, data, n).len() == n * t.d_out,
    decreases n,
{
    if n > 0 {
        let m = (n - 1) as nat;
        lemma_images_len(t, data, m);
        assert(image(t, row(data, t.d_in, n - 1)).len() == t.d_out);
        assert(m * t.d_out + t.d_out == n * t.d_out) by (nonlinear_arith)
            requires
                m + 1 == n,
        ;
    } else {
        assert(0 * t.d_out == 0) by (nonlinear_arith);
    }
}

/// A product of a coefficient and a centred component stays below `2^63` in size.
proof fn lemma_term_bound(m: i32, x: i32, c: i32)
    ensures
        -0x8000_0000_0000_0000 <= m * (x - c) <= 0x8000_0000_0000_0000,
{
    let d: int = x - c;
    assert(-0x8000_0000_0000_0000 <= m * d <= 0x8000_0000_0000_0000) by (nonlinear_arith)
        requires
            -0x8000_0000 <= m <= 0x7fff_ffff,
            -0xffff_ffff <= d <= 0xffff_ffff,
    ;
}

/// A partial sum of `n` terms stays below `n * 2^63` in size.
proof fn lemma_dot_bound(t: TransformModel, x: Seq<i32>, o: int, n: nat)
    ensures
        -(n * 0x8000_0000_0000_0000) <= dot_upto(t, x, o, n) <= n * 0x8000_0000_0000_0000,
    decreases n,
{
    if n > 0 {
        lemma_dot_bound(t, x, o, (n - 1) as nat);
        lemma_term_bound(t.matrix[o * t.d_in + (n - 1)], x[n - 1], t.center[n - 1]);
    }
}

/// A column sum over `n` vectors lies between `n` times the least and `n`
/// times the greatest component.
proof fn lemma_column_sum_bound(data: Seq<i32>, d: nat, n: nat, j: int)
    ensures
        n * (-0x8000_0000) <= column_sum(data, d, n, j) <= n * 0x7fff_ffff,
    decreases n,
{
    if n > 0 {
        lemma_column_sum_bound(data, d, (n - 1) as nat, j);
    }
}

/// The mean of components is itself a component.
proof fn lemma_mean_fits(s: int, n: int)
    requires
        n > 0,
        n * (-0x8000_0000) <= s <= n * 0x7fff_ffff,
    ensures
        fits(s / n),
{
    lemma_fundamental_div_mod(s, n);
    lemma_mod_bound(s, n);
    let q = s / n;
    let r = s % n;
    assert(s == n * q + r);
    assert(q <= 0x7fff_ffff) by (nonlinear_arith)
        requires
            s == n * q + r,
            0 <= r,
            n > 0,
            s <= n * 0x7fff_ffff,
    ;
    assert(q >= -0x8000_0000) by (nonlinear_arith)
        requires
            s == n * q + r,
            r < n,
            n > 0,
            n * (-0x8000_0000) <= s,
    ;
}

/// Divides rounding down.
fn floor_div(s: i128, n: usize) -> (q: i128)
    requires
        n > 0,
        -0x8000_0000_0000_0000_0000_0000 <= s <= 0x8000_0000_0000_0000_0000_0000,
    ensures
        q == (s as int) / (n as int),
{
    let m: i128 = n as i128;
    if s >= 0 {
        s / m
    } else {
        let t: i128 = -s;
        let u: i128 = (t + m - 1) / m;
        proof {
            let q0 = (s as int) / (m as int);
            let r0 = (s as int) % (m as int);
            lemma_fundamental_div_mod(s as int, m as int);
            lemma_mod_bound(s as int, m as int);
            assert(t + m - 1 == (-q0) * m + (m - 1 - r0)) by (nonlinear_arith)
                requires
                    s == m * q0 + r0,
                    t == -s,
            ;
            lemma_fundamental_div_mod_converse((t + m - 1) as int, m as int, -q0, m - 1 - r0);
        }
        -u
    }
}

/// A transform of the object layer.
#[derive(Debug)]
pub struct NativeTransform {
    d_in: u32,
    d_out: u32,
    matrix: Vec<i32>,
    center: Vec<i32>,
    trained: bool,
}

impl View for NativeTransform {
    type V = TransformModel;

    closed spec fn view(&self) -> TransformModel {
        TransformModel {
            d_in: self.d_in as nat,
            d_out: self.d_out as nat,
            matrix: self.matrix@,
            center: self.center@,
            trained: self.trained,
        }
    }
}

impl NativeTransform {
    /// The transform is well formed.
    pub open spec fn wf(&self) -> bool {
        self@.wf()
    }

    /// Whether a transform can be made of these dimensions and this matrix.
    pub open spec fn shape_ok(d_in: u32, d_out: u32, matrix_len: nat) -> bool {
        d_in > 0 && d_out > 0 && matrix_len == d_out * d_in
    }

    /// Whether a transform can be made of these dimensions and a matrix of
    /// this length.
    fn check_shape(d_in: u32, d_out: u32, matrix_len: usize) -> (ok: bool)
        ensures
            ok == Self::shape_ok(d_in, d_out, matrix_len as nat),
    {
        assert(d_out * d_in <= 0xffff_ffff * 0xffff_ffff) by (nonlinear_arith)
            requires
                d_out <= 0xffff_ffff,
                d_in <= 0xffff_ffff,
        ;
        let cells: u64 = (d_out as u64) * (d_in as u64);
        d_in > 0 && d_out > 0 && matrix_len as u64 == cells
    }

    /// Makes an untrained transform with the given matrix, of `d_out` rows
    /// of `d_in` coefficients. Training will set its centre.
    pub fn new(d_in: u32, d_out: u32, matrix: Vec<i32>) -> (r: Result<NativeTransform, i32>)
        ensures
            match r {
                Ok(t) => {
                    &&& Self::shape_ok(d_in, d_out, matrix@.len())
                    &&& t.wf()
                    &&& t@ == (TransformModel {
                        d_in: d_in as nat,
                        d_out: d_out as nat,
                        matrix: matrix@,
                        center: Seq::new(d_in as nat, |j: int| 0i32),
                        trained: false,
                    })
                },
                Err(code) => !Self::shape_ok(d_in, d_out, matrix@.len()) && code == STATUS_REFUSED,
            },
    {
        if !Self::check_shape(d_in, d_out, matrix.len()) {
            return Err(STATUS_REFUSED);
        }
        let mut center: Vec<i32> = Vec::new();
        let mut j: u32 = 0;
        while j < d_in
            invariant
                j <= d_in,
                center@ == Seq::new(j as nat, |j: int| 0i32),
            decreases d_in - j,
        {
            center.push(0);
            j = j + 1;
            assert(center@ =~= Seq::new(j as nat, |j: int| 0i32));
        }
        Ok(NativeTransform { d_in, d_out, matrix, center, trained: false })
    }

    /// Makes a trained transform with the given matrix and centre.
    pub fn with_center(d_in: u32, d_out: u32, matrix: Vec<i32>, center: Vec<i32>) -> (r: Result<
        NativeTransform,
        i32,
    >)
        ensures
            match r {
                Ok(t) => {
                    &&& Self::shape_ok(d_in, d_out, matrix@.len())
                    &&& center@.len() == d_in
                    &&& t.wf()
                    &&& t@ == (TransformModel {
                        d_in: d_in as nat,
                        d_out: d_out as nat,
                        matrix: matrix@,
                        center: center@,
                        trained: true,
                    })
                },
                Err(code) => {
                    &&& !(Self::shape_ok(d_in, d_out, matrix@.len()) && center@.len() == d_in)
                    &&& code == STATUS_REFUSED
                },
            },
    {
        if !Self::check_shape(d_in, d_out, matrix.len()) || center.len() != d_in as usize {
            return Err(STATUS_REFUSED);
        }
        Ok(NativeTransform { d_in, d_out, matrix, center, trained: true })
    }

    /// The dimension of the vectors that the transform takes.
    pub fn d_in(&self) -> (d: u32)
        ensures
            d == self@.d_in,
    {
        self.d_in
    }

    /// The dimension of the vectors that the transform gives.
    pub fn d_out(&self) -> (d: u32)
        ensures
            d == self@.d_out,
    {
        self.d_out
    }

    /// Whether the centre is set.
    pub fn is_trained(&self) -> (b: bool)
        ensures
            b == self@.trained,
    {
        self.trained
    }

    /// A deep copy.
    pub fn duplicate(&self) -> (t: NativeTransform)
        ensures
            t@ == self@,
    {
        NativeTransform {
            d_in: self.d_in,
            d_out: self.d_out,
            matrix: self.matrix.clone(),
            center: self.center.clone(),
            trained: self.trained,
        }
    }

    /// Component `o` of the image of `x` under the centre `center`.
    fn component_of(&self, center: &[i32], x: &[i32], o: usize) -> (v: i128)
        requires
            self.wf(),
            center@.len() == self@.d_in,
            x@.len() == self@.d_in,
            o < self@.d_out,
        ensures
            v == component(self@.centered(center@), x@, o as int),
    {
        let d: usize = self.d_in as usize;
        let cells: usize = self.matrix.len();
        let mut acc: i128 = 0;
        let mut j: usize = 0;
        assert(o * d + d <= cells) by (nonlinear_arith)
            requires
                o < self.d_out,
                cells == self.d_out * d,
        ;
        while j < d
            invariant
                self.wf(),
                d == self@.d_in,
                center@.len() == d,
                x@.len() == d,
                j <= d,
                cells == self.matrix@.len(),
                o * d + d <= cells,
                acc == dot_upto(self@.centered(center@), x@, o as int, j as nat),
            decreases d - j,
        {
            proof {
                lemma_dot_bound(self@.centered(center@), x@, o as int, j as nat);
                lemma_term_bound(self.matrix@[o * d + j], x@[j as int], center@[j as int]);
                assert(j * 0x8000_0000_0000_0000 <= 0xffff_ffff * 0x8000_0000_0000_0000)
                    by (nonlinear_arith)
                    requires
                        j <= 0xffff_ffff,
                ;
                assert(0 <= o * d) by (nonlinear_arith);
            }
            let m: i128 = self.matrix[o * d + j] as i128;
            let c: i128 = x[j] as i128 - center[j] as i128;
            acc = acc + m * c;
            j = j + 1;
        }
        acc
    }

    /// The image of one vector under the centre `center`, if each of its
    /// components fits.
    fn image_of(&self, center: &[i32], x: &[i32]) -> (r: Option<Vec<i32>>)
        requires
            self.wf(),
            center@.len() == self@.d_in,
            x@.len() == self@.d_in,
        ensures
            r is Some <==> maps(self@.centered(center@), x@),
            r matches Some(y) ==> y@ == image(self@.centered(center@), x@),
    {
        let ghost t = self@.centered(center@);
        let n: usize = self.d_out as usize;
        let mut out: Vec<i32> = Vec::new();
        let mut o: usize = 0;
        while o < n
            invariant
                self.wf(),
                t == self@.centered(center@),
                n == self@.d_out,
                center@.len() == self@.d_in,
                x@.len() == self@.d_in,
                o <= n,
                out@.len() == o,
                forall|i: int| 0 <= i < o ==> fits(#[trigger] component(t, x@, i)),
                forall|i: int| 0 <= i < o ==> out@[i] == component(t, x@, i) as i32,
            decreases n - o,
        {
            let v: i128 = self.component_of(center, x, o);
            if v < i32::MIN as i128 || v > i32::MAX as i128 {
                assert(!fits(component(t, x@, o as int)));
                return None;
            }
            out.push(v as i32);
            o = o + 1;
        }
        assert(out@ =~= image(t, x@));
        Some(out)
    }

    /// Applies the transform to each whole vector of `data`.
    pub fn apply(&self, data: &[i32]) -> (r: Result<Vec<i32>, i32>)
        requires
            self.wf(),
        ensures
            match r {
                Ok(out) => apply_ok(self@, data@) && out@ == applied(self@, data@),
                Err(code) => !apply_ok(self@, data@) && code == STATUS_REFUSED,
            },
    {
        if !self.trained {
            return Err(STATUS_REFUSED);
        }
        assert(self@.centered(self.center@) == self@);
        self.apply_with(self.center.as_slice(), data)
    }

    /// Applies the transform to each whole vector of `data` as if `center`
    /// were its centre.
    pub fn apply_with(&self, center: &[i32], data: &[i32]) -> (r: Result<Vec<i32>, i32>)
        requires
            self.wf(),
            center@.len() == self@.d_in,
        ensures
            match r {
                Ok(out) => {
                    &&& apply_ok(self@.centered(center@), data@)
                    &&& out@ == applied(self@.centered(center@), data@)
                },
                Err(code) => !apply_ok(self@.centered(center@), data@) && code == STATUS_REFUSED,
            },
    {
        let ghost t = self@.centered(center@);
        let d: usize = self.d_in as usize;
        let n: usize = data.len() / d;
        let mut out: Vec<i32> = Vec::new();
        let mut i: usize = 0;
        while i < n
            invariant
                self.wf(),
                t == self@.centered(center@),
                center@.len() == self@.d_in,
                d == self@.d_in,
                n == count(data@.len(), d as nat),
                i <= n,
                out@ == images(t, data@, i as nat),
                forall|r: int| 0 <= r < i ==> maps(t, #[trigger] row(data@, d as nat, r)),
            decreases n - i,
        {
            let x: &[i32] = row_of(data, d, i);
            match self.image_of(center, x) {
                None => {
                    return Err(STATUS_REFUSED);
                },
                Some(mut y) => {
                    out.append(&mut y);
                },
            }
            i = i + 1;
        }
        Ok(out)
    }

    /// The mean of column `j` over the whole vectors of `data`, of which
    /// there must be one.
    fn column_mean(data: &[i32], d: usize, j: usize) -> (v: i32)
        requires
            0 < d <= u32::MAX,
            count(data@.len(), d as nat) > 0,
            j < d,
        ensures
            v == column_sum(data@, d as nat, count(data@.len(), d as nat), j as int) / (count(
                data@.len(),
                d as nat,
            ) as int),
    {
        let n: usize = data.len() / d;
        let mut acc: i128 = 0;
        let mut i: usize = 0;
        while i < n
            invariant
                0 < d,
                n == count(data@.len(), d as nat),
                data@.len() <= usize::MAX,
                j < d,
                i <= n,
                acc == column_sum(data@, d as nat, i as nat, j as int),
            decreases n - i,
        {
            proof {
                lemma_row_bounds(data@.len(), d as nat, i as nat);
                lemma_column_sum_bound(data@, d as nat, i as nat, j as int);
                assert(i * 0x8000_0000 <= 0xffff_ffff_ffff_ffff * 0x8000_0000) by (nonlinear_arith)
                    requires
                        i <= 0xffff_ffff_ffff_ffff,
                ;
            }
            acc = acc + data[i * d + j] as i128;
            i = i + 1;
        }
        proof {
            lemma_column_sum_bound(data@, d as nat, n as nat, j as int);
            assert(n * 0x8000_0000 <= 0xffff_ffff_ffff_ffff * 0x8000_0000) by (nonlinear_arith)
                requires
                    n <= 0xffff_ffff_ffff_ffff,
            ;
            lemma_mean_fits(acc as int, n as int);
        }
        let q: i128 = floor_div(acc, n);
        q as i32
    }

    /// The mean of the whole vectors of `data`, if there is one.
    pub fn learn(&self, data: &[i32]) -> (r: Option<Vec<i32>>)
        requires
            self.wf(),
        ensures
            r is Some <==> count(data@.len(), self@.d_in) > 0,
            r matches Some(c) ==> c@ == mean(data@, self@.d_in),
    {
        let d: usize = self.d_in as usize;
        let n: usize = data.len() / d;
        if n == 0 {
            return None;
        }
        let mut center: Vec<i32> = Vec::new();
        let mut j: usize = 0;
        while j < d
            invariant
                0 < d <= u32::MAX,
                n == count(data@.len(), d as nat),
                n > 0,
                j <= d,
                center@.len() == j,
                forall|c: int|
                    0 <= c < j ==> center@[c] as int == column_sum(data@, d as nat, n as nat, c) / (
                    n as int),
            decreases d - j,
        {
            let v: i32 = Self::column_mean(data, d, j);
            center.push(v);
            j = j + 1;
        }
        assert(center@ =~= mean(data@, d as nat));
        Some(center)
    }

    /// Makes `center` the centre of the transform, which is then trained.
    pub fn adopt(&mut self, center: Vec<i32>)
        requires
            old(self).wf(),
            center@.len() == old(self)@.d_in,
        ensures
            final(self).wf(),
            final(self)@ == old(self)@.centered(center@),
    {
        self.center = center;
        self.trained = true;
    }

    /// Trains the transform on the whole vectors of `data`: an untrained
    /// transform takes their mean as its centre.
    pub fn train(&mut self, data: &[i32]) -> (status: i32)
        requires
            old(self).wf(),
        ensures
            final(self).wf(),
            train_ok(old(self)@, data@) ==> status == STATUS_OK && final(self)@ == trained_on(
                old(self)@,
                data@,
            ),
            !train_ok(old(self)@, data@) ==> status == STATUS_REFUSED && final(self)@ == old(self)@,
    {
        if self.trained {
            return STATUS_OK;
        }
        match self.learn(data) {
            None => STATUS_REFUSED,
            Some(center) => {
                self.adopt(center);
                STATUS_OK
            },
        }
    }
}

} // verus!
