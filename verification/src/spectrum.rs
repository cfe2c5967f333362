use vstd::prelude::*;
use core::ops::RangeInclusive;

verus! {

/// A single wavelength with its corresponding intensity.
///
/// The wavelength is a positive integer number of nanometres: the
/// colour matching tables have no sub nanometre entries anyway.
#[derive(Debug, Clone, Copy, PartialEq)]
pub struct Sample<T> {
    wavelength: usize,
    intensity: T,
}

impl<T> View for Sample<T> {
    type V = (usize, T);

    closed spec fn view(&self) -> (usize, T) {
        (self.wavelength, self.intensity)
    }
}

impl<T> Sample<T> {
    pub fn new(wavelength: usize, intensity: T) -> (res: Self)
        ensures
            res@ == (wavelength, intensity),
    {
        Self { wavelength, intensity }
    }

    /// Get a reference to the sample's wavelength.
    pub fn get_wavelength(&self) -> (res: &usize)
        ensures
            *res == self@.0,
    {
        &self.wavelength
    }

    /// Get a reference to the sample's intensity.
    pub fn get_intensity(&self) -> (res: &T)
        ensures
            *res == self@.1,
    {
        &self.intensity
    }
}

/// A list of wavelengths without intensities, used to say which
/// wavelengths a conversion to a spectrum should produce.
#[derive(Debug, Clone)]
pub struct Wavelengths {
    wavelengths: Vec<usize>,
}

impl View for Wavelengths {
    type V = Seq<usize>;

    closed spec fn view(&self) -> Seq<usize> {
        self.wavelengths@
    }
}

/// Lowest wavelength of the colour matching tables.
pub const TABLE_MIN_WAVELENGTH: usize = 380;

/// Highest wavelength of the colour matching tables.
pub const TABLE_MAX_WAVELENGTH: usize = 780;

/// Spacing of the entries of the colour matching tables.
pub const TABLE_STEP: usize = 5;

/// The wavelengths for which the sRGB basis spectra are tabulated:
/// [380, 780] binned at 5nm.
pub open spec fn is_tabulated_wavelength(wavelength: int) -> bool {
    &&& TABLE_MIN_WAVELENGTH <= wavelength <= TABLE_MAX_WAVELENGTH
    &&& (wavelength - TABLE_MIN_WAVELENGTH) % (TABLE_STEP as int) == 0
}

/// The position of `wavelength` in the colour matching tables, which
/// hold [380, 780] binned at 5nm; `None` for a wavelength they lack.
pub fn table_index(wavelength: usize) -> (res: Option<usize>)
    ensures
        res is Some <==> is_tabulated_wavelength(wavelength as int),
        res matches Some(k) ==> k == (wavelength - 380) / 5 && k < 81,
{
    if TABLE_MIN_WAVELENGTH <= wavelength && wavelength <= TABLE_MAX_WAVELENGTH && (wavelength
        - TABLE_MIN_WAVELENGTH) % TABLE_STEP == 0 {
        Some((wavelength - TABLE_MIN_WAVELENGTH) / TABLE_STEP)
    } else {
        None
    }
}

impl Wavelengths {
    pub fn new(wavelengths: Vec<usize>) -> (res: Self)
        ensures
            res@ == wavelengths@,
    {
        Self { wavelengths }
    }

    /// All wavelengths in [380, 780] binned at 5nm.
    pub fn complete() -> (res: Self)
        ensures
            res@.len() == 81,
            forall|k: int| 0 <= k < 81 ==> #[trigger] res@[k] == 380 + 5 * k,
    {
        let mut wavelengths: Vec<usize> = Vec::new();
        let mut wavelength: usize = TABLE_MIN_WAVELENGTH;
        while wavelength <= TABLE_MAX_WAVELENGTH
            invariant
                380 <= wavelength <= 785,
                (wavelength - 380) % 5 == 0,
                wavelengths@.len() == (wavelength - 380) / 5,
                forall|k: int| 0 <= k < wavelengths@.len() ==> #[trigger] wavelengths@[k] == 380 + 5 * k,
            decreases 785 - wavelength,
        {
            wavelengths.push(wavelength);
            wavelength = wavelength + TABLE_STEP;
        }
        Self::new(wavelengths)
    }

    /// Get a reference to the wavelengths.
    pub fn get_wavelengths(&self) -> (res: &[usize])
        ensures
            res@ == self@,
    {
        self.wavelengths.as_slice()
    }
}

/// A spectrum of any number of wavelengths with intensities of any
/// type `T`.
///
/// The samples are kept in the order they were given; every operation
/// of this module keeps the wavelengths ascending when they were
/// ascending to begin with (see [`law_merge_keeps_ascending`]).
#[derive(Debug, Clone)]
pub struct TSpectrum<T> {
    samples: Vec<Sample<T>>,
}

impl<T> View for TSpectrum<T> {
    type V = Seq<(usize, T)>;

    closed spec fn view(&self) -> Seq<(usize, T)> {
        self.samples@.map_values(|s: Sample<T>| s@)
    }
}

/// The wavelengths of a spectrum, in order.
pub open spec fn wavelengths_of<T>(s: Seq<(usize, T)>) -> Seq<usize> {
    s.map_values(|p: (usize, T)| p.0)
}

/// Every wavelength is strictly greater than the one before it.
pub open spec fn strictly_ascending(w: Seq<usize>) -> bool {
    forall|a: int, b: int| 0 <= a < b < w.len() ==> w[a] < w[b]
}

/// One output sample of the merge of two spectra: taken from both
/// (equal wavelengths), from the left one only or from the right one
/// only, with the indices of the input samples.
pub enum MergeStep {
    Both(int, int),
    LeftOnly(int),
    RightOnly(int),
}

/// The steps of merging the wavelengths `lw[i..]` with `rw[j..]`,
/// always taking the smaller wavelength first, as in merge sort.
pub open spec fn merge_plan(lw: Seq<usize>, rw: Seq<usize>, i: int, j: int) -> Seq<MergeStep>
    decreases lw.len() - i + rw.len() - j,
{
    if i < 0 || j < 0 || i > lw.len() || j > rw.len() {
        Seq::empty()
    } else if i < lw.len() && j < rw.len() {
        if lw[i] < rw[j] {
            seq![MergeStep::LeftOnly(i)] + merge_plan(lw, rw, i + 1, j)
        } else if lw[i] == rw[j] {
            seq![MergeStep::Both(i, j)] + merge_plan(lw, rw, i + 1, j + 1)
        } else {
            seq![MergeStep::RightOnly(j)] + merge_plan(lw, rw, i, j + 1)
        }
    } else if i < lw.len() {
        seq![MergeStep::LeftOnly(i)] + merge_plan(lw, rw, i + 1, j)
    } else if j < rw.len() {
        seq![MergeStep::RightOnly(j)] + merge_plan(lw, rw, i, j + 1)
    } else {
        Seq::empty()
    }
}

/// The plan for merging two whole spectra.
pub open spec fn full_plan<T>(l: Seq<(usize, T)>, r: Seq<(usize, T)>) -> Seq<MergeStep> {
    merge_plan(wavelengths_of(l), wavelengths_of(r), 0, 0)
}

/// The wavelength an output sample gets from a merge step.
pub open spec fn step_wavelength(lw: Seq<usize>, rw: Seq<usize>, s: MergeStep) -> usize {
    match s {
        MergeStep::Both(i, _) => lw[i],
        MergeStep::LeftOnly(i) => lw[i],
        MergeStep::RightOnly(j) => rw[j],
    }
}

/// The wavelengths of the merge of `lw` and `rw`.
pub open spec fn merged_wavelengths(lw: Seq<usize>, rw: Seq<usize>) -> Seq<usize> {
    merge_plan(lw, rw, 0, 0).map_values(|s: MergeStep| step_wavelength(lw, rw, s))
}

/// `o` is what the merge step `s` produces from `l` and `r`, using
/// `both` for samples present in both spectra and `left` / `right` for
/// samples present in one of them only.
pub open spec fn step_realized<T, FB: Fn(T, T) -> T, FL: Fn(T) -> T, FR: Fn(T) -> T>(
    l: Seq<(usize, T)>,
    r: Seq<(usize, T)>,
    both: FB,
    left: FL,
    right: FR,
    s: MergeStep,
    o: (usize, T),
) -> bool {
    match s {
        MergeStep::Both(i, j) => o.0 == l[i].0 && call_ensures(both, (l[i].1, r[j].1), o.1),
        MergeStep::LeftOnly(i) => o.0 == l[i].0 && call_ensures(left, (l[i].1,), o.1),
        MergeStep::RightOnly(j) => o.0 == r[j].0 && call_ensures(right, (r[j].1,), o.1),
    }
}

/// `out` is the sum of the spectra `l` and `r`: the samples of both,
/// merged by wavelength, with the intensities of equal wavelengths
/// combined by `add` and all other samples copied unchanged.
pub open spec fn is_sum<T, F: Fn(T, T) -> T>(
    l: Seq<(usize, T)>,
    r: Seq<(usize, T)>,
    add: F,
    out: Seq<(usize, T)>,
) -> bool {
    let plan = full_plan(l, r);
    &&& out.len() == plan.len()
    &&& forall|k: int|
        0 <= k < out.len() ==> match #[trigger] plan[k] {
            MergeStep::Both(i, j) => out[k].0 == l[i].0 && call_ensures(
                add,
                (l[i].1, r[j].1),
                out[k].1,
            ),
            MergeStep::LeftOnly(i) => out[k] == l[i],
            MergeStep::RightOnly(j) => out[k] == r[j],
        }
}

/// `out` is the product of the spectra `l` and `r`: the samples of
/// both, merged by wavelength, with the intensities of equal
/// wavelengths combined by `mul` and all other samples given the
/// intensity `zero`.
pub open spec fn is_product<T, F: Fn(T, T) -> T>(
    l: Seq<(usize, T)>,
    r: Seq<(usize, T)>,
    mul: F,
    zero: T,
    out: Seq<(usize, T)>,
) -> bool {
    let plan = full_plan(l, r);
    &&& out.len() == plan.len()
    &&& forall|k: int|
        0 <= k < out.len() ==> match #[trigger] plan[k] {
            MergeStep::Both(i, j) => out[k].0 == l[i].0 && call_ensures(
                mul,
                (l[i].1, r[j].1),
                out[k].1,
            ),
            MergeStep::LeftOnly(i) => out[k] == (l[i].0, zero),
            MergeStep::RightOnly(j) => out[k] == (r[j].0, zero),
        }
}


/// The wavelengths that stepping through `range` by `step` visits:
/// none for an exhausted range or one whose start exceeds its end,
/// else `start, start + step, ...` up to `end`.
pub open spec fn stepped_wavelengths(
    range: vstd::std_specs::range::RangeInclusiveView<usize>,
    step: usize,
) -> Seq<usize> {
    if range.exhausted || range.start > range.end || step == 0 {
        Seq::empty()
    } else {
        Seq::new(
            ((range.end - range.start) / (step as int) + 1) as nat,
            |k: int| (range.start + k * step) as usize,
        )
    }
}

/// A spectrum with the given wavelengths, all with intensity `value`.
pub open spec fn constant_spectrum<T>(w: Seq<usize>, value: T) -> Seq<(usize, T)> {
    w.map_values(|x: usize| (x, value))
}

impl<T: Copy> TSpectrum<T> {
    pub fn new_empty() -> (res: Self)
        ensures
            res@ == Seq::<(usize, T)>::empty(),
    {
        Self::new(Vec::new())
    }

    pub fn new(samples: Vec<Sample<T>>) -> (res: Self)
        ensures
            res@ == samples@.map_values(|s: Sample<T>| s@),
    {
        Self { samples }
    }

    /// A spectrum with the wavelengths of `wavelength_range` stepped by
    /// `step`, all with intensity `value`.
    fn filled(wavelength_range: RangeInclusive<usize>, step: usize, value: T) -> (res: Self)
        requires
            step > 0,
        ensures
            res@ == constant_spectrum(stepped_wavelengths(wavelength_range@, step), value),
    {
        let mut samples: Vec<Sample<T>> = Vec::new();
        let ghost target = stepped_wavelengths(wavelength_range@, step);
        if !wavelength_range.is_empty() {
            let start = *wavelength_range.start();
            let end = *wavelength_range.end();
            let mut w: usize = start;
            assert(w == start + samples@.len() * step) by (nonlinear_arith)
                requires
                    w == start,
                    samples@.len() == 0,
            ;
            loop
                invariant_except_break
                    w == start + samples@.len() * step,
                invariant
                    !wavelength_range@.exhausted,
                    start == wavelength_range@.start,
                    end == wavelength_range@.end,
                    start <= w <= end,
                    step > 0,
                    target == stepped_wavelengths(wavelength_range@, step),
                    forall|k: int| 0 <= k < samples@.len() ==> #[trigger] samples@[k]@ == (
                        (start + k * step) as usize,
                        value,
                    ),
                ensures
                    samples@.len() == (end - start) / (step as int) + 1,
                    forall|k: int| 0 <= k < samples@.len() ==> #[trigger] samples@[k]@ == (
                        (start + k * step) as usize,
                        value,
                    ),
                decreases end - w,
            {
                samples.push(Sample::new(w, value));
                if end - w < step {
                    proof {
                        let n = samples@.len() - 1;
                        assert((end - start) == n * step + (end - w));
                        assert((end - start) / (step as int) == n) by (nonlinear_arith)
                            requires
                                (end - start) == n * step + (end - w),
                                0 <= end - w < step,
                                0 <= n,
                        {
                            vstd::arithmetic::div_mod::lemma_fundamental_div_mod_converse(
                                (end - start) as int,
                                step as int,
                                n,
                                (end - w) as int,
                            );
                        }
                    }
                    break;
                }
                proof {
                    assert(w + step == start + samples@.len() * step) by (nonlinear_arith)
                        requires
                            w == start + (samples@.len() - 1) * step,
                    ;
                }
                w = w + step;
            }
        }
        let res = Self::new(samples);
        proof {
            assert(res@ =~= constant_spectrum(target, value));
        }
        res
    }

    /// A spectrum with the wavelengths of `wavelength_range` stepped by
    /// `step`, all with the intensity `zero` (the zero of `T`).
    pub fn zeros(wavelength_range: RangeInclusive<usize>, step: usize, zero: T) -> (res: Self)
        requires
            step > 0,
        ensures
            res@ == constant_spectrum(stepped_wavelengths(wavelength_range@, step), zero),
    {
        Self::filled(wavelength_range, step, zero)
    }

    /// A spectrum with the wavelengths of `wavelength_range` stepped by
    /// `step`, all with the intensity `one` (the unit of `T`).
    pub fn ones(wavelength_range: RangeInclusive<usize>, step: usize, one: T) -> (res: Self)
        requires
            step > 0,
        ensures
            res@ == constant_spectrum(stepped_wavelengths(wavelength_range@, step), one),
    {
        Self::filled(wavelength_range, step, one)
    }

    /// A spectrum with one sample per given wavelength, in the given
    /// order, whose intensity is `srgb_response` of that wavelength
    /// (the response of the sRGB basis spectra to a colour). Only
    /// tabulated wavelengths are supported.
    pub fn from_srgb_for_wavelengths<F: Fn(usize) -> T>(
        srgb_response: F,
        wavelengths: &Wavelengths,
    ) -> (res: Self)
        requires
            forall|k: int|
                0 <= k < wavelengths@.len() ==> is_tabulated_wavelength(
                    #[trigger] wavelengths@[k] as int,
                ),
            forall|w: usize| #[trigger] srgb_response.requires((w,)),
        ensures
            res@.len() == wavelengths@.len(),
            forall|k: int|
                #![trigger res@[k]]
                0 <= k < res@.len() ==> res@[k].0 == wavelengths@[k] && call_ensures(
                    srgb_response,
                    (wavelengths@[k],),
                    res@[k].1,
                ),
    {
        let ws = wavelengths.get_wavelengths();
        let mut samples: Vec<Sample<T>> = Vec::with_capacity(ws.len());
        let mut k: usize = 0;
        while k < ws.len()
            invariant
                ws@ == wavelengths@,
                k <= ws@.len(),
                samples@.len() == k,
                forall|m: int|
                    #![trigger samples@[m]]
                    0 <= m < k ==> samples@[m]@.0 == ws@[m] && call_ensures(
                        srgb_response,
                        (ws@[m],),
                        samples@[m]@.1,
                    ),
                forall|w: usize| #[trigger] srgb_response.requires((w,)),
            decreases ws@.len() - k,
        {
            let wavelength = ws[k];
            let v = srgb_response(wavelength);
            samples.push(Sample::new(wavelength, v));
            k = k + 1;
        }
        let res = Self::new(samples);
        proof {
            assert forall|m: int| #![trigger res@[m]] 0 <= m < res@.len() implies res@[m].0
                == wavelengths@[m] && call_ensures(srgb_response, (wavelengths@[m],), res@[m].1) by {
                assert(res@[m] == samples@[m]@);
            }
        }
        res
    }

    /// Returns the number of samples in the spectrum.
    pub fn len(&self) -> (res: usize)
        ensures
            res == self@.len(),
    {
        self.samples.len()
    }

    /// Returns true if the spectrum has no samples.
    pub fn is_empty(&self) -> (res: bool)
        ensures
            res == (self@.len() == 0),
    {
        self.samples.len() == 0
    }

    /// Returns the samples of the spectrum.
    pub fn get_samples(&self) -> (res: &[Sample<T>])
        ensures
            res@.map_values(|s: Sample<T>| s@) == self@,
    {
        self.samples.as_slice()
    }

    /// Merges `self` and `rhs` by wavelength: `both` combines the
    /// intensities of a wavelength present in both, `left` and `right`
    /// give the intensity of a wavelength present in one only.
    fn merge<FB: Fn(T, T) -> T, FL: Fn(T) -> T, FR: Fn(T) -> T>(
        &self,
        rhs: &Self,
        both: FB,
        left: FL,
        right: FR,
    ) -> (res: Self)
        requires
            forall|a: T, b: T| #[trigger] both.requires((a, b)),
            forall|a: T| #[trigger] left.requires((a,)),
            forall|a: T| #[trigger] right.requires((a,)),
        ensures
            res@.len() == full_plan(self@, rhs@).len(),
            forall|k: int|
                0 <= k < res@.len() ==> step_realized(
                    self@,
                    rhs@,
                    both,
                    left,
                    right,
                    #[trigger] full_plan(self@, rhs@)[k],
                    res@[k],
                ),
    {
        let lhs_len = self.samples.len();
        let rhs_len = rhs.samples.len();
        let mut samples: Vec<Sample<T>> = Vec::new();
        let mut i: usize = 0;
        let mut j: usize = 0;
        let ghost l = self@;
        let ghost r = rhs@;
        let ghost lw = wavelengths_of(l);
        let ghost rw = wavelengths_of(r);
        let ghost mut done: Seq<MergeStep> = Seq::empty();
        assert(done + merge_plan(lw, rw, 0, 0) =~= merge_plan(lw, rw, 0, 0));
        while i < lhs_len || j < rhs_len
            invariant
                l == self@,
                r == rhs@,
                lw == wavelengths_of(l),
                rw == wavelengths_of(r),
                lhs_len == l.len(),
                rhs_len == r.len(),
                lhs_len == self.samples@.len(),
                rhs_len == rhs.samples@.len(),
                i <= lhs_len,
                j <= rhs_len,
                merge_plan(lw, rw, 0, 0) == done + merge_plan(lw, rw, i as int, j as int),
                samples@.len() == done.len(),
                forall|k: int|
                    0 <= k < done.len() ==> step_realized(
                        l,
                        r,
                        both,
                        left,
                        right,
                        #[trigger] done[k],
                        samples@[k]@,
                    ),
                forall|a: T, b: T| #[trigger] both.requires((a, b)),
                forall|a: T| #[trigger] left.requires((a,)),
                forall|a: T| #[trigger] right.requires((a,)),
            decreases lhs_len - i + rhs_len - j,
        {
            let ghost old_done = done;
            let ghost old_len = samples@.len();
            let ghost step: MergeStep;
            if i < lhs_len && j < rhs_len {
                let lw_i = self.samples[i].wavelength;
                let rw_j = rhs.samples[j].wavelength;
                assert(lw[i as int] == lw_i && rw[j as int] == rw_j);
                if lw_i < rw_j {
                    let v = left(self.samples[i].intensity);
                    samples.push(Sample::new(lw_i, v));
                    proof {
                        step = MergeStep::LeftOnly(i as int);
                    }
                    i = i + 1;
                } else if lw_i == rw_j {
                    let v = both(self.samples[i].intensity, rhs.samples[j].intensity);
                    samples.push(Sample::new(lw_i, v));
                    proof {
                        step = MergeStep::Both(i as int, j as int);
                    }
                    i = i + 1;
                    j = j + 1;
                } else {
                    let v = right(rhs.samples[j].intensity);
                    samples.push(Sample::new(rw_j, v));
                    proof {
                        step = MergeStep::RightOnly(j as int);
                    }
                    j = j + 1;
                }
            } else if i < lhs_len {
                let lw_i = self.samples[i].wavelength;
                let v = left(self.samples[i].intensity);
                samples.push(Sample::new(lw_i, v));
                proof {
                    step = MergeStep::LeftOnly(i as int);
                }
                i = i + 1;
            } else {
                let rw_j = rhs.samples[j].wavelength;
                let v = right(rhs.samples[j].intensity);
                samples.push(Sample::new(rw_j, v));
                proof {
                    step = MergeStep::RightOnly(j as int);
                }
                j = j + 1;
            }
            proof {
                done = done.push(step);
                assert(step_realized(l, r, both, left, right, done[old_len as int], samples@[old_len as int]@));
                assert(old_done + merge_plan(lw, rw, (i - (if step is RightOnly { 0int } else { 1int })) as int, (j - (if step is LeftOnly { 0int } else { 1int })) as int)
                    =~= done + merge_plan(lw, rw, i as int, j as int));
            }
        }
        proof {
            assert(done =~= merge_plan(lw, rw, 0, 0));
        }
        Self::new(samples)
    }

    /// The sum of two spectra: the samples of both merged by
    /// wavelength, the intensities of a wavelength present in both
    /// combined by `add_intensities` and every other sample copied.
    pub fn add_with<F: Fn(T, T) -> T>(&self, rhs: &Self, add_intensities: F) -> (res: Self)
        requires
            forall|a: T, b: T| #[trigger] add_intensities.requires((a, b)),
        ensures
            is_sum(self@, rhs@, add_intensities, res@),
    {
        let keep_left = |a: T| -> (o: T)
            ensures
                o == a,
            { a };
        let keep_right = |b: T| -> (o: T)
            ensures
                o == b,
            { b };
        let res = self.merge(rhs, add_intensities, keep_left, keep_right);
        proof {
            let plan = full_plan(self@, rhs@);
            assert forall|k: int| 0 <= k < res@.len() implies match #[trigger] plan[k] {
                MergeStep::Both(i, j) => res@[k].0 == self@[i].0 && call_ensures(
                    add_intensities,
                    (self@[i].1, rhs@[j].1),
                    res@[k].1,
                ),
                MergeStep::LeftOnly(i) => res@[k] == self@[i],
                MergeStep::RightOnly(j) => res@[k] == rhs@[j],
            } by {
                assert(step_realized(self@, rhs@, add_intensities, keep_left, keep_right, plan[k], res@[k]));
            }
        }
        res
    }

    /// The product of two spectra: the samples of both merged by
    /// wavelength, the intensities of a wavelength present in both
    /// combined by `mul_intensities` and every other sample given the
    /// intensity `zero`.
    pub fn mul_with<F: Fn(T, T) -> T>(&self, rhs: &Self, mul_intensities: F, zero: T) -> (res: Self)
        requires
            forall|a: T, b: T| #[trigger] mul_intensities.requires((a, b)),
        ensures
            is_product(self@, rhs@, mul_intensities, zero, res@),
    {
        let to_zero_left = |a: T| -> (o: T)
            ensures
                o == zero,
            { zero };
        let to_zero_right = |b: T| -> (o: T)
            ensures
                o == zero,
            { zero };
        let res = self.merge(rhs, mul_intensities, to_zero_left, to_zero_right);
        proof {
            let plan = full_plan(self@, rhs@);
            assert forall|k: int| 0 <= k < res@.len() implies match #[trigger] plan[k] {
                MergeStep::Both(i, j) => res@[k].0 == self@[i].0 && call_ensures(
                    mul_intensities,
                    (self@[i].1, rhs@[j].1),
                    res@[k].1,
                ),
                MergeStep::LeftOnly(i) => res@[k] == (self@[i].0, zero),
                MergeStep::RightOnly(j) => res@[k] == (rhs@[j].0, zero),
            } by {
                assert(step_realized(self@, rhs@, mul_intensities, to_zero_left, to_zero_right, plan[k], res@[k]));
            }
        }
        res
    }

    /// Every intensity of the spectrum transformed by `scale`, the
    /// wavelengths unchanged (multiplication by a scalar).
    pub fn scale_with<F: Fn(T) -> T>(&self, scale: F) -> (res: Self)
        requires
            forall|a: T| #[trigger] scale.requires((a,)),
        ensures
            res@.len() == self@.len(),
            forall|k: int|
                #![trigger res@[k]]
                0 <= k < res@.len() ==> res@[k].0 == self@[k].0 && call_ensures(
                    scale,
                    (self@[k].1,),
                    res@[k].1,
                ),
    {
        let mut samples: Vec<Sample<T>> = Vec::with_capacity(self.samples.len());
        let mut k: usize = 0;
        while k < self.samples.len()
            invariant
                k <= self.samples@.len(),
                samples@.len() == k,
                forall|m: int|
                    0 <= m < k ==> #[trigger] samples@[m]@.0 == self@[m].0 && call_ensures(
                        scale,
                        (self@[m].1,),
                        samples@[m]@.1,
                    ),
                forall|a: T| #[trigger] scale.requires((a,)),
            decreases self.samples@.len() - k,
        {
            let v = scale(self.samples[k].intensity);
            samples.push(Sample::new(self.samples[k].wavelength, v));
            k = k + 1;
        }
        let res = Self::new(samples);
        proof {
            assert forall|m: int| #![trigger res@[m]] 0 <= m < res@.len() implies res@[m].0 == self@[m].0
                && call_ensures(scale, (self@[m].1,), res@[m].1) by {
                assert(res@[m] == samples@[m]@);
            }
        }
        res
    }
}

} // verus!

verus! {

/// The indices of a merge step lie in `[i, n)` for the left spectrum
/// and `[j, m)` for the right one.
pub open spec fn step_in_range(s: MergeStep, i: int, j: int, n: int, m: int) -> bool {
    match s {
        MergeStep::Both(a, b) => i <= a < n && j <= b < m,
        MergeStep::LeftOnly(a) => i <= a < n,
        MergeStep::RightOnly(b) => j <= b < m,
    }
}

/// The merge steps swapped from left to right.
pub open spec fn swap_step(s: MergeStep) -> MergeStep {
    match s {
        MergeStep::Both(a, b) => MergeStep::Both(b, a),
        MergeStep::LeftOnly(a) => MergeStep::RightOnly(a),
        MergeStep::RightOnly(b) => MergeStep::LeftOnly(b),
    }
}

/// The wavelengths of the merge of `lw[i..]` and `rw[j..]`.
pub open spec fn plan_wavelengths(lw: Seq<usize>, rw: Seq<usize>, i: int, j: int) -> Seq<usize> {
    merge_plan(lw, rw, i, j).map_values(|s: MergeStep| step_wavelength(lw, rw, s))
}

proof fn lemma_plan_bounds(lw: Seq<usize>, rw: Seq<usize>, i: int, j: int)
    requires
        0 <= i <= lw.len(),
        0 <= j <= rw.len(),
    ensures
        forall|k: int|
            0 <= k < merge_plan(lw, rw, i, j).len() ==> step_in_range(
                #[trigger] merge_plan(lw, rw, i, j)[k],
                i,
                j,
                lw.len() as int,
                rw.len() as int,
            ),
        forall|k: int|
            0 <= k < merge_plan(lw, rw, i, j).len() ==> match #[trigger] merge_plan(lw, rw, i, j)[k] {
                MergeStep::Both(a, b) => lw[a] == rw[b],
                _ => true,
            },
        merge_plan(lw, rw, i, j).len() <= (lw.len() - i) + (rw.len() - j),
        merge_plan(lw, rw, i, j).len() >= lw.len() - i,
        merge_plan(lw, rw, i, j).len() >= rw.len() - j,
    decreases lw.len() - i + rw.len() - j,
{
    if i < lw.len() && j < rw.len() {
        if lw[i] < rw[j] {
            lemma_plan_bounds(lw, rw, i + 1, j);
        } else if lw[i] == rw[j] {
            lemma_plan_bounds(lw, rw, i + 1, j + 1);
        } else {
            lemma_plan_bounds(lw, rw, i, j + 1);
        }
    } else if i < lw.len() {
        lemma_plan_bounds(lw, rw, i + 1, j);
    } else if j < rw.len() {
        lemma_plan_bounds(lw, rw, i, j + 1);
    }
}

proof fn lemma_plan_swap(lw: Seq<usize>, rw: Seq<usize>, i: int, j: int)
    requires
        0 <= i <= lw.len(),
        0 <= j <= rw.len(),
    ensures
        merge_plan(rw, lw, j, i) == merge_plan(lw, rw, i, j).map_values(
            |s: MergeStep| swap_step(s),
        ),
    decreases lw.len() - i + rw.len() - j,
{
    let p = merge_plan(lw, rw, i, j);
    let q = merge_plan(rw, lw, j, i);
    if i < lw.len() && j < rw.len() {
        if lw[i] < rw[j] {
            lemma_plan_swap(lw, rw, i + 1, j);
        } else if lw[i] == rw[j] {
            lemma_plan_swap(lw, rw, i + 1, j + 1);
        } else {
            lemma_plan_swap(lw, rw, i, j + 1);
        }
    } else if i < lw.len() {
        lemma_plan_swap(lw, rw, i + 1, j);
    } else if j < rw.len() {
        lemma_plan_swap(lw, rw, i, j + 1);
    }
    assert(q =~= p.map_values(|s: MergeStep| swap_step(s)));
}

proof fn lemma_plan_ascending(lw: Seq<usize>, rw: Seq<usize>, i: int, j: int)
    requires
        0 <= i <= lw.len(),
        0 <= j <= rw.len(),
        strictly_ascending(lw),
        strictly_ascending(rw),
    ensures
        strictly_ascending(plan_wavelengths(lw, rw, i, j)),
        forall|k: int|
            0 <= k < plan_wavelengths(lw, rw, i, j).len() ==> {
                ||| (i < lw.len() && lw[i] <= #[trigger] plan_wavelengths(lw, rw, i, j)[k])
                ||| (j < rw.len() && rw[j] <= plan_wavelengths(lw, rw, i, j)[k])
            },
    decreases lw.len() - i + rw.len() - j,
{
    let pw = plan_wavelengths(lw, rw, i, j);
    if i < lw.len() && j < rw.len() {
        let (ni, nj) = if lw[i] < rw[j] {
            (i + 1, j)
        } else if lw[i] == rw[j] {
            (i + 1, j + 1)
        } else {
            (i, j + 1)
        };
        lemma_plan_ascending(lw, rw, ni, nj);
        let rest = plan_wavelengths(lw, rw, ni, nj);
        assert(pw =~= seq![pw[0]] + rest);
        assert forall|k: int| 0 <= k < rest.len() implies pw[0] < #[trigger] rest[k] by {
            if ni < lw.len() && lw[ni] <= rest[k] {
                assert(lw[i] < lw[ni] || ni == i);
            }
        }
    } else if i < lw.len() {
        lemma_plan_ascending(lw, rw, i + 1, j);
        let rest = plan_wavelengths(lw, rw, i + 1, j);
        assert(pw =~= seq![pw[0]] + rest);
        assert forall|k: int| 0 <= k < rest.len() implies pw[0] < #[trigger] rest[k] by {
            assert(i + 1 < lw.len() && lw[i + 1] <= rest[k]);
            assert(lw[i] < lw[i + 1]);
        }
    } else if j < rw.len() {
        lemma_plan_ascending(lw, rw, i, j + 1);
        let rest = plan_wavelengths(lw, rw, i, j + 1);
        assert(pw =~= seq![pw[0]] + rest);
        assert forall|k: int| 0 <= k < rest.len() implies pw[0] < #[trigger] rest[k] by {
            assert(j + 1 < rw.len() && rw[j + 1] <= rest[k]);
            assert(rw[j] < rw[j + 1]);
        }
    }
}

/// Merging two spectra whose wavelengths are strictly ascending gives
/// strictly ascending wavelengths: sums and products of spectra keep
/// the samples ordered by wavelength.
pub proof fn law_merge_keeps_ascending(lw: Seq<usize>, rw: Seq<usize>)
    requires
        strictly_ascending(lw),
        strictly_ascending(rw),
    ensures
        strictly_ascending(merged_wavelengths(lw, rw)),
{
    lemma_plan_ascending(lw, rw, 0, 0);
}

/// The wavelengths of a merge do not depend on which spectrum is on
/// the left: `a + b` and `b + a` have the same wavelengths in the same
/// order.
pub proof fn law_merged_wavelengths_commute(lw: Seq<usize>, rw: Seq<usize>)
    ensures
        merged_wavelengths(lw, rw) == merged_wavelengths(rw, lw),
{
    lemma_plan_swap(lw, rw, 0, 0);
    let p = merge_plan(lw, rw, 0, 0);
    let q = merge_plan(rw, lw, 0, 0);
    assert(merged_wavelengths(lw, rw) =~= merged_wavelengths(rw, lw)) by {
        lemma_plan_bounds(lw, rw, 0, 0);
        assert forall|k: int| 0 <= k < p.len() implies step_wavelength(lw, rw, #[trigger] p[k])
            == step_wavelength(rw, lw, q[k]) by {
            assert(q[k] == swap_step(p[k]));
        }
    }
}


/// The index into the left spectrum that a merge step reads, or -1.
pub open spec fn left_index(s: MergeStep) -> int {
    match s {
        MergeStep::Both(a, _) => a,
        MergeStep::LeftOnly(a) => a,
        MergeStep::RightOnly(_) => -1,
    }
}

/// The index into the right spectrum that a merge step reads, or -1.
pub open spec fn right_index(s: MergeStep) -> int {
    match s {
        MergeStep::Both(_, b) => b,
        MergeStep::LeftOnly(_) => -1,
        MergeStep::RightOnly(b) => b,
    }
}

/// Some step of the plan reads index `a` of the left spectrum.
pub open spec fn covers_left(p: Seq<MergeStep>, a: int) -> bool {
    exists|k: int| 0 <= k < p.len() && #[trigger] left_index(p[k]) == a
}

/// Some step of the plan reads index `b` of the right spectrum.
pub open spec fn covers_right(p: Seq<MergeStep>, b: int) -> bool {
    exists|k: int| 0 <= k < p.len() && #[trigger] right_index(p[k]) == b
}

proof fn lemma_plan_covers(lw: Seq<usize>, rw: Seq<usize>, i: int, j: int)
    requires
        0 <= i <= lw.len(),
        0 <= j <= rw.len(),
    ensures
        forall|a: int| i <= a < lw.len() ==> #[trigger] covers_left(merge_plan(lw, rw, i, j), a),
        forall|b: int| j <= b < rw.len() ==> #[trigger] covers_right(merge_plan(lw, rw, i, j), b),
    decreases lw.len() - i + rw.len() - j,
{
    let p = merge_plan(lw, rw, i, j);
    if p.len() > 0 {
        let (ni, nj) = if i < lw.len() && j < rw.len() {
            if lw[i] < rw[j] {
                (i + 1, j)
            } else if lw[i] == rw[j] {
                (i + 1, j + 1)
            } else {
                (i, j + 1)
            }
        } else if i < lw.len() {
            (i + 1, j)
        } else {
            (i, j + 1)
        };
        lemma_plan_covers(lw, rw, ni, nj);
        let rest = merge_plan(lw, rw, ni, nj);
        assert(p =~= seq![p[0]] + rest);
        assert forall|a: int| i <= a < lw.len() implies #[trigger] covers_left(p, a) by {
            if a < ni {
                assert(left_index(p[0]) == a);
            } else {
                assert(covers_left(rest, a));
                let k = choose|k: int| 0 <= k < rest.len() && #[trigger] left_index(rest[k]) == a;
                assert(p[k + 1] == rest[k]);
                assert(left_index(p[k + 1]) == a);
            }
        }
        assert forall|b: int| j <= b < rw.len() implies #[trigger] covers_right(p, b) by {
            if b < nj {
                assert(right_index(p[0]) == b);
            } else {
                assert(covers_right(rest, b));
                let k = choose|k: int| 0 <= k < rest.len() && #[trigger] right_index(rest[k]) == b;
                assert(p[k + 1] == rest[k]);
                assert(right_index(p[k + 1]) == b);
            }
        }
    }
}

/// A wavelength occurs in the merge of two spectra exactly when it
/// occurs in one of them: the wavelengths of a sum or product are the
/// union of the wavelengths of its operands.
pub proof fn law_merge_is_union(lw: Seq<usize>, rw: Seq<usize>, w: usize)
    ensures
        merged_wavelengths(lw, rw).contains(w) <==> (lw.contains(w) || rw.contains(w)),
{
    let p = merge_plan(lw, rw, 0, 0);
    let mw = merged_wavelengths(lw, rw);
    lemma_plan_bounds(lw, rw, 0, 0);
    lemma_plan_covers(lw, rw, 0, 0);
    if mw.contains(w) {
        let k = choose|k: int| 0 <= k < mw.len() && mw[k] == w;
        assert(step_in_range(p[k], 0, 0, lw.len() as int, rw.len() as int));
        match p[k] {
            MergeStep::Both(a, _) => assert(lw[a] == w),
            MergeStep::LeftOnly(a) => assert(lw[a] == w),
            MergeStep::RightOnly(b) => assert(rw[b] == w),
        }
    }
    if lw.contains(w) {
        let a = choose|a: int| 0 <= a < lw.len() && lw[a] == w;
        assert(covers_left(p, a));
        let k = choose|k: int| 0 <= k < p.len() && #[trigger] left_index(p[k]) == a;
        assert(step_in_range(p[k], 0, 0, lw.len() as int, rw.len() as int));
        assert(mw[k] == w);
    }
    if rw.contains(w) {
        let b = choose|b: int| 0 <= b < rw.len() && rw[b] == w;
        assert(covers_right(p, b));
        let k = choose|k: int| 0 <= k < p.len() && #[trigger] right_index(p[k]) == b;
        assert(step_in_range(p[k], 0, 0, lw.len() as int, rw.len() as int));
        match p[k] {
            MergeStep::Both(a, bb) => {
                assert(lw[a] == rw[bb]);
                assert(mw[k] == w);
            },
            MergeStep::RightOnly(_) => assert(mw[k] == w),
            MergeStep::LeftOnly(_) => {},
        }
    }
}

/// The number of samples of a merge lies between the larger operand's
/// and the sum of both operands' numbers of samples.
pub proof fn law_merge_length(lw: Seq<usize>, rw: Seq<usize>)
    ensures
        merged_wavelengths(lw, rw).len() <= lw.len() + rw.len(),
        merged_wavelengths(lw, rw).len() >= lw.len(),
        merged_wavelengths(lw, rw).len() >= rw.len(),
{
    lemma_plan_bounds(lw, rw, 0, 0);
}

proof fn lemma_plan_with_empty(lw: Seq<usize>, i: int)
    requires
        0 <= i <= lw.len(),
    ensures
        merge_plan(lw, Seq::empty(), i, 0).len() == lw.len() - i,
        forall|k: int|
            0 <= k < lw.len() - i ==> #[trigger] merge_plan(lw, Seq::empty(), i, 0)[k]
                == MergeStep::LeftOnly(i + k),
        merge_plan(Seq::empty(), lw, 0, i).len() == lw.len() - i,
        forall|k: int|
            0 <= k < lw.len() - i ==> #[trigger] merge_plan(Seq::empty(), lw, 0, i)[k]
                == MergeStep::RightOnly(i + k),
    decreases lw.len() - i,
{
    if i < lw.len() {
        lemma_plan_with_empty(lw, i + 1);
        let p = merge_plan(lw, Seq::empty(), i, 0);
        let q = merge_plan(Seq::empty(), lw, 0, i);
        assert forall|k: int| 0 <= k < lw.len() - i implies #[trigger] p[k] == MergeStep::LeftOnly(
            i + k,
        ) by {
            if k > 0 {
                assert(p[k] == merge_plan(lw, Seq::empty(), i + 1, 0)[k - 1]);
            }
        }
        assert forall|k: int| 0 <= k < lw.len() - i implies #[trigger] q[k] == MergeStep::RightOnly(
            i + k,
        ) by {
            if k > 0 {
                assert(q[k] == merge_plan(Seq::empty(), lw, 0, i + 1)[k - 1]);
            }
        }
    }
}

/// The empty spectrum is neutral for addition on both sides: adding it
/// gives back the other operand, sample for sample.
pub proof fn law_sum_with_empty<T, F: Fn(T, T) -> T>(
    s: Seq<(usize, T)>,
    add: F,
    out1: Seq<(usize, T)>,
    out2: Seq<(usize, T)>,
)
    requires
        is_sum(s, Seq::empty(), add, out1),
        is_sum(Seq::empty(), s, add, out2),
    ensures
        out1 == s,
        out2 == s,
{
    let sw = wavelengths_of(s);
    lemma_plan_with_empty(sw, 0);
    assert(wavelengths_of(Seq::<(usize, T)>::empty()) =~= Seq::<usize>::empty());
    let p1 = full_plan(s, Seq::empty());
    let p2 = full_plan(Seq::empty(), s);
    assert forall|k: int| 0 <= k < s.len() implies out1[k] == s[k] by {
        assert(p1[k] == MergeStep::LeftOnly(k));
    }
    assert forall|k: int| 0 <= k < s.len() implies out2[k] == s[k] by {
        assert(p2[k] == MergeStep::RightOnly(k));
    }
    assert(out1 =~= s);
    assert(out2 =~= s);
}

/// Multiplying by the empty spectrum keeps the wavelengths of the
/// other operand and sets every intensity to zero.
pub proof fn law_product_with_empty<T, F: Fn(T, T) -> T>(
    s: Seq<(usize, T)>,
    mul: F,
    zero: T,
    out: Seq<(usize, T)>,
)
    requires
        is_product(s, Seq::empty(), mul, zero, out),
    ensures
        out == constant_spectrum(wavelengths_of(s), zero),
{
    let sw = wavelengths_of(s);
    lemma_plan_with_empty(sw, 0);
    assert(wavelengths_of(Seq::<(usize, T)>::empty()) =~= Seq::<usize>::empty());
    let p1 = full_plan(s, Seq::empty());
    assert forall|k: int| 0 <= k < s.len() implies out[k] == constant_spectrum(sw, zero)[k] by {
        assert(p1[k] == MergeStep::LeftOnly(k));
    }
    assert(out =~= constant_spectrum(sw, zero));
}

/// The wavelengths of a sum and of a product of the same two spectra
/// are the merged wavelengths of the operands.
pub proof fn law_sum_and_product_wavelengths<T, FA: Fn(T, T) -> T, FM: Fn(T, T) -> T>(
    l: Seq<(usize, T)>,
    r: Seq<(usize, T)>,
    add: FA,
    mul: FM,
    zero: T,
    sum: Seq<(usize, T)>,
    product: Seq<(usize, T)>,
)
    requires
        is_sum(l, r, add, sum),
        is_product(l, r, mul, zero, product),
    ensures
        wavelengths_of(sum) == merged_wavelengths(wavelengths_of(l), wavelengths_of(r)),
        wavelengths_of(product) == merged_wavelengths(wavelengths_of(l), wavelengths_of(r)),
{
    let lw = wavelengths_of(l);
    let rw = wavelengths_of(r);
    let p = full_plan(l, r);
    lemma_plan_bounds(lw, rw, 0, 0);
    assert forall|k: int| 0 <= k < p.len() implies sum[k].0 == step_wavelength(lw, rw, #[trigger] p[k])
        && product[k].0 == step_wavelength(lw, rw, p[k]) by {
        assert(step_in_range(p[k], 0, 0, lw.len() as int, rw.len() as int));
    }
    assert(wavelengths_of(sum) =~= merged_wavelengths(lw, rw));
    assert(wavelengths_of(product) =~= merged_wavelengths(lw, rw));
}

} // verus!
