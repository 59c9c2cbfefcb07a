//! Splitting an image into horizontal row bands, one per worker.
use vstd::prelude::*;

verus! {

/// A run of whole rows of the image: rows `top .. top + rows`.
#[derive(Clone, Copy, Debug, PartialEq, Eq, Structural)]
pub struct Band {
    pub top: usize,
    pub rows: usize,
}

/// Height of every band but possibly the last: one more row than an even
/// share, so that `workers` bands always reach the bottom of the image.
pub open spec fn band_height(height: nat, workers: nat) -> nat
    recommends
        workers > 0,
{
    height / workers + 1
}

/// Number of bands of height `per_band` needed to cover `height` rows.
pub open spec fn band_count(height: nat, per_band: nat) -> nat
    recommends
        per_band > 0,
{
    height / per_band + if height % per_band == 0 {
        0nat
    } else {
        1nat
    }
}

/// The `i`-th band of the layout: it starts `i` full bands down and is cut
/// short by the bottom of the image.
pub open spec fn band_at(height: nat, per_band: nat, i: nat) -> Band {
    let top = i * per_band;
    Band {
        top: top as usize,
        rows: (if height - top < per_band {
            height - top
        } else {
            per_band as int
        }) as usize,
    }
}

/// The row bands that an image of `height` rows is split into for `workers`
/// workers.
pub open spec fn layout(height: nat, workers: nat) -> Seq<Band> {
    let per_band = band_height(height, workers);
    Seq::new(band_count(height, per_band), |i: int| band_at(height, per_band, i as nat))
}

/// Whether row `row` lies in band `b`.
pub open spec fn band_holds(b: Band, row: int) -> bool {
    b.top <= row < b.top + b.rows
}

/// Whether some band of `bands` holds row `row`.
pub open spec fn covered(bands: Seq<Band>, row: int) -> bool {
    exists|i: int| 0 <= i < bands.len() && #[trigger] band_holds(bands[i], row)
}

/// Band `i` of a layout starts above the bottom of the image exactly when
/// `i` is below the band count.
proof fn lemma_band_starts_inside(height: nat, per_band: nat, i: nat)
    requires
        per_band > 0,
    ensures
        i < band_count(height, per_band) <==> i * per_band < height,
{
    let q = height / per_band;
    let r = height % per_band;
    assert(height == q * per_band + r && 0 <= r < per_band) by {
        vstd::arithmetic::div_mod::lemma_fundamental_div_mod(height as int, per_band as int);
    }
    if r == 0 {
        assert(i < q <==> i * per_band < height) by (nonlinear_arith)
            requires
                height == q * per_band,
                per_band > 0,
        ;
    } else {
        assert(i <= q <==> i * per_band < height) by (nonlinear_arith)
            requires
                height == q * per_band + r,
                0 < r < per_band,
        ;
    }
}

/// Facts about a single band of the layout: it starts inside the image, it
/// is not empty, it ends no lower than the bottom, and it ends where the next
/// one starts.
proof fn lemma_band_shape(height: nat, workers: nat, i: nat)
    requires
        workers >= 1,
        height < usize::MAX,
        i < layout(height, workers).len(),
    ensures
        ({
            let per_band = band_height(height, workers);
            let b = layout(height, workers)[i as int];
            &&& b.top == i * per_band
            &&& b.top < height
            &&& 0 < b.rows <= per_band
            &&& b.top + b.rows <= height
            &&& i + 1 < layout(height, workers).len() ==> b.top + b.rows == (i + 1) * per_band
            &&& i + 1 == layout(height, workers).len() ==> b.top + b.rows == height
        }),
{
    let per_band = band_height(height, workers);
    assert(height / workers <= height) by {
        vstd::arithmetic::div_mod::lemma_div_is_ordered_by_denominator(height as int, 1, workers as int);
    }
    lemma_band_starts_inside(height, per_band, i);
    lemma_band_starts_inside(height, per_band, i + 1);
    assert((i + 1) * per_band == i * per_band + per_band) by (nonlinear_arith);
}

/// The layout partitions the rows of the image: every row `0 <= row < height`
/// lies in exactly one band, no band reaches outside the image, no band is
/// empty, consecutive bands touch, and there are never more bands than
/// workers.
pub proof fn lemma_layout_partitions_rows(height: usize, workers: usize)
    requires
        workers >= 1,
        height < usize::MAX,
    ensures
        ({
            let bands = layout(height as nat, workers as nat);
            &&& bands.len() <= workers
            &&& height > 0 ==> bands.len() > 0 && bands[0].top == 0
            &&& bands.len() > 0 ==> bands.last().top + bands.last().rows == height
            &&& forall|i: int| 0 <= i < bands.len() ==> #[trigger] bands[i].rows > 0
            &&& forall|i: int| #![trigger bands[i]]
                0 <= i < bands.len() - 1 ==> bands[i].top + bands[i].rows == bands[i + 1].top
            &&& forall|i: int, row: int|
                0 <= i < bands.len() && #[trigger] band_holds(bands[i], row) ==> 0 <= row < height
            &&& forall|row: int| 0 <= row < height ==> #[trigger] covered(bands, row)
            &&& forall|i: int, j: int, row: int|
                0 <= i < bands.len() && 0 <= j < bands.len() && #[trigger] band_holds(bands[i], row)
                    && #[trigger] band_holds(bands[j], row) ==> i == j
        }),
{
    let h = height as nat;
    let w = workers as nat;
    let bands = layout(h, w);
    let per_band = band_height(h, w);
    // fewer bands than workers: `workers` full bands already pass the bottom
    assert(h < w * per_band) by {
        vstd::arithmetic::div_mod::lemma_fundamental_div_mod(h as int, w as int);
        assert(h == w * (h / w) + h % w && h % w < w);
        assert(w * per_band == w * (h / w) + w) by (nonlinear_arith)
            requires
                per_band == h / w + 1,
        ;
    }
    lemma_band_starts_inside(h, per_band, w);
    assert forall|i: int| 0 <= i < bands.len() implies #[trigger] bands[i].rows > 0 by {
        lemma_band_shape(h, w, i as nat);
    }
    assert forall|i: int| #![trigger bands[i]] 0 <= i < bands.len() - 1 implies bands[i].top
        + bands[i].rows == bands[i + 1].top by {
        lemma_band_shape(h, w, i as nat);
        lemma_band_shape(h, w, (i + 1) as nat);
    }
    if bands.len() > 0 {
        lemma_band_shape(h, w, (bands.len() - 1) as nat);
    }
    if h > 0 {
        lemma_band_starts_inside(h, per_band, 0);
    }
    assert forall|i: int, row: int|
        0 <= i < bands.len() && #[trigger] band_holds(bands[i], row) implies 0 <= row < height by {
        lemma_band_shape(h, w, i as nat);
    }
    assert forall|row: int| 0 <= row < height implies #[trigger] covered(bands, row) by {
        let i = row / per_band as int;
        assert(i * per_band <= row < i * per_band + per_band) by {
            vstd::arithmetic::div_mod::lemma_fundamental_div_mod(row, per_band as int);
            assert(i * per_band == per_band * i) by (nonlinear_arith);
        }
        assert(i >= 0) by {
            vstd::arithmetic::div_mod::lemma_div_pos_is_pos(row, per_band as int);
        }
        lemma_band_starts_inside(h, per_band, i as nat);
        lemma_band_shape(h, w, i as nat);
        assert(band_holds(bands[i], row));
    }
    assert forall|i: int, j: int, row: int|
        0 <= i < bands.len() && 0 <= j < bands.len() && #[trigger] band_holds(bands[i], row)
            && #[trigger] band_holds(bands[j], row) implies i == j by {
        lemma_band_shape(h, w, i as nat);
        lemma_band_shape(h, w, j as nat);
        if i < j {
            assert((i + 1) * per_band <= j * per_band) by (nonlinear_arith)
                requires
                    i + 1 <= j,
            ;
            assert(i * per_band + per_band == (i + 1) * per_band) by (nonlinear_arith);
        } else if j < i {
            assert((j + 1) * per_band <= i * per_band) by (nonlinear_arith)
                requires
                    j + 1 <= i,
            ;
            assert(j * per_band + per_band == (j + 1) * per_band) by (nonlinear_arith);
        }
    }
}

/// Rows in one band when `workers` workers share `height` rows.
pub fn rows_per_band(height: usize, workers: usize) -> (r: usize)
    requires
        workers >= 1,
        height < usize::MAX,
    ensures
        r == band_height(height as nat, workers as nat),
{
    height / workers + 1
}

/// Splits `height` rows into consecutive bands of `rows_per_band` rows, the
/// last one possibly shorter.
pub fn band_layout(height: usize, workers: usize) -> (bands: Vec<Band>)
    requires
        workers >= 1,
        height < usize::MAX,
    ensures
        bands@ == layout(height as nat, workers as nat),
{
    let per_band = rows_per_band(height, workers);
    assert(height / per_band <= height) by {
        vstd::arithmetic::div_mod::lemma_div_is_ordered_by_denominator(height as int, 1, per_band as int);
    }
    let count = height / per_band + if height % per_band == 0 {
        0
    } else {
        1
    };
    let ghost want = layout(height as nat, workers as nat);
    let mut bands: Vec<Band> = Vec::new();
    for i in 0..count
        invariant
            workers >= 1,
            per_band == band_height(height as nat, workers as nat),
            count == band_count(height as nat, per_band as nat),
            want == layout(height as nat, workers as nat),
            bands@ == want.take(i as int),
    {
        proof {
            lemma_band_starts_inside(height as nat, per_band as nat, i as nat);
        }
        let top = i * per_band;
        let left = height - top;
        let rows = if left < per_band {
            left
        } else {
            per_band
        };
        bands.push(Band { top, rows });
        assert(bands@ =~= want.take(i + 1));
    }
    assert(bands@ =~= want);
    bands
}

/// Relies on num_cpus::get: the number of CPUs this process may run on.
/// Nothing is assumed of the number it returns.
#[verifier::external_body]
fn cpu_count() -> usize {
    num_cpus::get()
}

/// Splits `height` rows into bands for one worker per CPU of this machine;
/// a machine that reports no CPU is given a single worker.
pub fn machine_band_layout(height: usize) -> (bands: Vec<Band>)
    requires
        height < usize::MAX,
    ensures
        exists|workers: usize| workers >= 1 && bands@ == layout(height as nat, workers as nat),
{
    let reported = cpu_count();
    let workers: usize = if reported == 0 {
        1
    } else {
        reported
    };
    band_layout(height, workers)
}

} // verus!
