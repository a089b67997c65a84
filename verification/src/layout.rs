//! Layout primitives: a deterministic integer distribution of cells over
//! tracks, stacking, insets, splits and a two-pane split model.

use vstd::prelude::*;

use crate::geometry::{Position, Rect, sat_add, sat_sub, min_int, max_int};

verus! {

/// One row height or column width.
#[derive(Clone, Copy, PartialEq, Eq, Structural, Debug)]
pub enum Track {
    /// Exactly `n` cells (clipped to what is available).
    Fixed(u16),
    /// A weighted share of the space left after `Fixed` tracks.
    Flex(u16),
    /// Content-sized: one cell beside explicit `Flex` tracks, else an equal
    /// share of the remainder, unless a natural size is supplied.
    Auto,
}

/// Where an action row packs its buttons.
#[derive(Clone, Copy, PartialEq, Eq, Structural, Debug)]
pub enum RowAlign {
    /// Pack from the left.
    Start,
    /// Pack from the right.
    End,
}

/// Asymmetric insets.
#[derive(Clone, Copy, PartialEq, Eq, Structural, Debug, Default)]
pub struct Insets {
    /// Left.
    pub l: u16,
    /// Top.
    pub t: u16,
    /// Right.
    pub r: u16,
    /// Bottom.
    pub b: u16,
}

impl Insets {
    /// The same inset on every side.
    pub fn all(n: u16) -> (i: Insets)
        ensures
            i == (Insets { l: n, t: n, r: n, b: n }),
    {
        Insets { l: n, t: n, r: n, b: n }
    }

    /// Horizontal `h`, vertical `v`.
    pub fn symmetric(h: u16, v: u16) -> (i: Insets)
        ensures
            i == (Insets { l: h, t: v, r: h, b: v }),
    {
        Insets { l: h, t: v, r: h, b: v }
    }
}

// ---------------------------------------------------------------------------
// The distribution, stated as a closed form.
// ---------------------------------------------------------------------------

/// Some track is a `Flex` track.
pub open spec fn has_flex(tracks: Seq<Track>) -> bool {
    exists|i: int| 0 <= i < tracks.len() && tracks[i] is Flex
}

/// What track `i` asks for in the first (fixed) pass.
pub open spec fn want(tracks: Seq<Track>, natural: Option<Seq<u16>>, i: int) -> int {
    match tracks[i] {
        Track::Fixed(w) => w as int,
        Track::Auto => match natural {
            Some(n) if 0 <= i < n.len() => n[i] as int,
            _ => if has_flex(tracks) { 1 } else { 0 },
        },
        Track::Flex(_) => 0,
    }
}

/// The weight of track `i` in the second (flex) pass.
pub open spec fn weight(tracks: Seq<Track>, natural: Option<Seq<u16>>, i: int) -> int {
    match tracks[i] {
        Track::Flex(w) => w as int,
        Track::Auto => if !has_flex(tracks) && natural is None { 1 } else { 0 },
        _ => 0,
    }
}

/// Sum of the wants of tracks `0..i`.
pub open spec fn want_sum(tracks: Seq<Track>, natural: Option<Seq<u16>>, i: int) -> int
    decreases i,
{
    if i <= 0 { 0 } else { want_sum(tracks, natural, i - 1) + want(tracks, natural, i - 1) }
}

/// Sum of the weights of tracks `0..i`.
pub open spec fn weight_sum(tracks: Seq<Track>, natural: Option<Seq<u16>>, i: int) -> int
    decreases i,
{
    if i <= 0 { 0 } else { weight_sum(tracks, natural, i - 1) + weight(tracks, natural, i - 1) }
}

/// Number of weighted tracks among `0..i`.
pub open spec fn weighted_count(tracks: Seq<Track>, natural: Option<Seq<u16>>, i: int) -> int
    decreases i,
{
    if i <= 0 {
        0
    } else {
        weighted_count(tracks, natural, i - 1) + if weight(tracks, natural, i - 1) > 0 { 1int } else { 0int }
    }
}

/// The cells the gaps take: `spacing * (n - 1)` in saturating `u16`
/// arithmetic, where `n` is the track count truncated to `u16`.
pub open spec fn gaps(len: nat, spacing: u16) -> int {
    let n = (len % 0x10000) as int;
    let m = if n >= 1 { n - 1 } else { 0 };
    min_int(spacing as int * m, 0xffff)
}

/// The cells available to tracks after the gaps.
pub open spec fn avail0(total: u16, len: nat, spacing: u16) -> int {
    sat_sub(total as int, gaps(len, spacing))
}

/// The first pass gives each track its want, earliest first, while cells last.
pub open spec fn give(tracks: Seq<Track>, natural: Option<Seq<u16>>, total: u16, spacing: u16, i: int) -> int {
    min_int(want(tracks, natural, i),
        max_int(0, avail0(total, tracks.len(), spacing) - want_sum(tracks, natural, i)))
}

/// The cells left for the second pass.
pub open spec fn avail1(tracks: Seq<Track>, natural: Option<Seq<u16>>, total: u16, spacing: u16) -> int {
    let a = avail0(total, tracks.len(), spacing);
    a - min_int(want_sum(tracks, natural, tracks.len() as int), a)
}

/// Track `i`'s proportional share of the second pass, rounded down.
pub open spec fn share(tracks: Seq<Track>, natural: Option<Seq<u16>>, total: u16, spacing: u16, i: int) -> int {
    let w = weight_sum(tracks, natural, tracks.len() as int);
    if w == 0 { 0 } else { (avail1(tracks, natural, total, spacing) * weight(tracks, natural, i)) / w }
}

/// Sum of the shares of tracks `0..i`.
pub open spec fn share_sum(tracks: Seq<Track>, natural: Option<Seq<u16>>, total: u16, spacing: u16, i: int) -> int
    decreases i,
{
    if i <= 0 {
        0
    } else {
        share_sum(tracks, natural, total, spacing, i - 1) + share(tracks, natural, total, spacing, i - 1)
    }
}

/// The cells the rounding left over; they go one each to the earliest
/// weighted tracks.
pub open spec fn leftover(tracks: Seq<Track>, natural: Option<Seq<u16>>, total: u16, spacing: u16) -> int {
    sat_sub(avail1(tracks, natural, total, spacing), share_sum(tracks, natural, total, spacing, tracks.len() as int))
}

/// The size [`distribute`] gives track `i`.
pub open spec fn distributed(tracks: Seq<Track>, natural: Option<Seq<u16>>, total: u16, spacing: u16, i: int) -> int {
    if weight_sum(tracks, natural, tracks.len() as int) == 0 || weight(tracks, natural, i) == 0 {
        give(tracks, natural, total, spacing, i)
    } else {
        let s = share(tracks, natural, total, spacing, i);
        if weighted_count(tracks, natural, i) < leftover(tracks, natural, total, spacing) {
            sat_add(s, 1)
        } else {
            s
        }
    }
}

/// The weights fit the `u32` sum the distribution computes.
pub open spec fn weights_fit(tracks: Seq<Track>, natural: Option<Seq<u16>>) -> bool {
    weight_sum(tracks, natural, tracks.len() as int) <= 0xffff_ffff
}

proof fn lemma_sums_nonneg(tracks: Seq<Track>, natural: Option<Seq<u16>>, j: int)
    ensures
        0 <= want_sum(tracks, natural, j),
        0 <= weight_sum(tracks, natural, j),
        0 <= weighted_count(tracks, natural, j),
    decreases j,
{
    if j > 0 {
        lemma_sums_nonneg(tracks, natural, j - 1);
    }
}

proof fn lemma_sums_monotone(tracks: Seq<Track>, natural: Option<Seq<u16>>, i: int, j: int)
    requires
        0 <= i <= j,
    ensures
        0 <= want_sum(tracks, natural, i) <= want_sum(tracks, natural, j),
        0 <= weight_sum(tracks, natural, i) <= weight_sum(tracks, natural, j),
        0 <= weighted_count(tracks, natural, i) <= weighted_count(tracks, natural, j),
    decreases j - i,
{
    lemma_sums_nonneg(tracks, natural, i);
    if i < j {
        lemma_sums_monotone(tracks, natural, i, j - 1);
    }
}

proof fn lemma_weight_le_sum(tracks: Seq<Track>, natural: Option<Seq<u16>>, i: int)
    requires
        0 <= i < tracks.len(),
    ensures
        0 <= weight(tracks, natural, i) <= weight_sum(tracks, natural, tracks.len() as int),
{
    lemma_sums_monotone(tracks, natural, i + 1, tracks.len() as int);
    lemma_sums_nonneg(tracks, natural, i);
}

fn exec_has_flex(tracks: &[Track]) -> (b: bool)
    ensures
        b == has_flex(tracks@),
{
    let mut i: usize = 0;
    while i < tracks.len()
        invariant
            i <= tracks@.len(),
            forall|k: int| 0 <= k < i ==> !(tracks@[k] is Flex),
        decreases tracks@.len() - i,
    {
        if let Track::Flex(_) = tracks[i] {
            assert(0 <= i < tracks@.len() && tracks@[i as int] is Flex);
            return true;
        }
        i = i + 1;
    }
    false
}

fn exec_weight(t: Track, has_flex: bool, measured: bool) -> (w: u32)
    ensures
        w == match t {
            Track::Flex(w) => w as int,
            Track::Auto => if !has_flex && !measured { 1int } else { 0int },
            _ => 0int,
        },
{
    match t {
        Track::Flex(w) => w as u32,
        Track::Auto => if !has_flex && !measured { 1 } else { 0 },
        _ => 0,
    }
}

/// Distribute `total` cells over `tracks` with `spacing` between them.
/// Deterministic: leftover cells go to the earliest flexible tracks. The
/// sizes fill the space the gaps leave when a track has weight
/// ([`law_distribute_fills_the_space`]), and equal weights get sizes at
/// most one cell apart ([`law_distribute_is_fair`]).
pub fn distribute(total: u16, tracks: &[Track], spacing: u16, natural: Option<&[u16]>) -> (out: Vec<u16>)
    requires
        weights_fit(tracks@, match natural { Some(n) => Some(n@), None => None }),
    ensures
        out@.len() == tracks@.len(),
        forall|i: int| 0 <= i < tracks@.len() ==> out@[i] == distributed(
            tracks@, match natural { Some(n) => Some(n@), None => None }, total, spacing, i),
{
    let ghost nat_view: Option<Seq<u16>> = match natural { Some(n) => Some(n@), None => None };
    let ghost ts = tracks@;
    let len = tracks.len();
    let n: u16 = (len % 0x10000) as u16;
    let m: u16 = n.saturating_sub(1);
    assert((spacing as int) * (m as int) <= 0xffff * 0xffff) by (nonlinear_arith)
        requires m <= 0xffff, spacing <= 0xffff;
    let wide: u32 = (spacing as u32) * (m as u32);
    let gaps: u16 = if wide > 0xffff { 0xffff } else { wide as u16 };
    let mut avail = total.saturating_sub(gaps);
    assert(avail == avail0(total, ts.len(), spacing)) by (nonlinear_arith)
        requires
            avail == sat_sub(total as int, gaps as int),
            gaps == min_int(wide as int, 0xffff),
            wide == spacing as int * m as int, m == sat_sub(n as int, 1),
            n as int == ts.len() as int % 0x10000,
    {}
    let hf = exec_has_flex(tracks);
    let measured = natural.is_some();
    let mut out: Vec<u16> = Vec::new();
    // pass 1: fixed and measured auto
    let mut i: usize = 0;
    while i < len
        invariant
            len == ts.len(),
            ts == tracks@,
            hf == has_flex(ts),
            measured == (natural is Some),
            nat_view == (match natural { Some(n) => Some(n@), None => None }),
            i <= len,
            out@.len() == i,
            0 <= want_sum(ts, nat_view, i as int),
            avail == avail0(total, ts.len(), spacing) - min_int(want_sum(ts, nat_view, i as int), avail0(total, ts.len(), spacing)),
            forall|k: int| 0 <= k < i ==> out@[k] == give(ts, nat_view, total, spacing, k),
        decreases len - i,
    {
        let wanted: u16 = match tracks[i] {
            Track::Fixed(w) => w,
            Track::Auto => {
                let got: Option<u16> = match natural {
                    Some(ns) => if i < ns.len() { Some(ns[i]) } else { None },
                    None => None,
                };
                match got {
                    Some(w) => w,
                    None => if hf { 1 } else { 0 },
                }
            },
            Track::Flex(_) => 0,
        };
        assert(wanted == want(ts, nat_view, i as int));
        let give = if wanted < avail { wanted } else { avail };
        avail = avail - give;
        out.push(give);
        proof {
            lemma_sums_monotone(ts, nat_view, i as int, i as int + 1);
        }
        i = i + 1;
    }
    // pass 2: weights
    let mut weights: u32 = 0;
    let mut j: usize = 0;
    while j < len
        invariant
            len == ts.len(),
            ts == tracks@,
            hf == has_flex(ts),
            measured == (natural is Some),
            nat_view == (match natural { Some(n) => Some(n@), None => None }),
            j <= len,
            weights == weight_sum(ts, nat_view, j as int),
            weights_fit(ts, nat_view),
        decreases len - j,
    {
        let w = exec_weight(tracks[j], hf, measured);
        assert(w == weight(ts, nat_view, j as int));
        proof {
            lemma_sums_monotone(ts, nat_view, j as int + 1, len as int);
        }
        weights = weights + w;
        j = j + 1;
    }
    if weights == 0 {
        assert forall|k: int| 0 <= k < ts.len() implies out@[k] == distributed(ts, nat_view, total, spacing, k) by {}
        return out;
    }
    let ghost a1 = avail as int;
    assert(a1 == avail1(ts, nat_view, total, spacing));
    let mut remainder: u16 = avail;
    let mut i: usize = 0;
    while i < len
        invariant
            len == ts.len(),
            ts == tracks@,
            hf == has_flex(ts),
            measured == (natural is Some),
            nat_view == (match natural { Some(n) => Some(n@), None => None }),
            weights == weight_sum(ts, nat_view, len as int),
            weights > 0,
            avail as int == avail1(ts, nat_view, total, spacing),
            i <= len,
            out@.len() == len,
            remainder as int == sat_sub(avail as int, share_sum(ts, nat_view, total, spacing, i as int)),
            forall|k: int| 0 <= k < i && weight(ts, nat_view, k) > 0 ==> out@[k] == share(ts, nat_view, total, spacing, k),
            forall|k: int| (i <= k < len || (0 <= k < len && weight(ts, nat_view, k) == 0)) ==> out@[k] == give(ts, nat_view, total, spacing, k),
        decreases len - i,
    {
        let w = exec_weight(tracks[i], hf, measured);
        assert(w == weight(ts, nat_view, i as int));
        proof {
            lemma_weight_le_sum(ts, nat_view, i as int);
        }
        if w != 0 {
            assert(avail as int * w as int <= 0xffff * 0xffff) by (nonlinear_arith)
                requires avail <= 0xffff, w <= 0xffff;
            let prod: u32 = (avail as u32) * w;
            let q: u32 = prod / weights;
            assert(q <= avail) by (nonlinear_arith)
                requires
                    q == prod / weights,
                    prod == avail as int * w as int,
                    w <= weights, weights > 0,
            {
                assert(avail as int * w as int <= avail as int * weights as int);
                assert((avail as int * weights as int) / weights as int == avail as int);
                vstd::arithmetic::div_mod::lemma_div_is_ordered(avail as int * w as int, avail as int * weights as int, weights as int);
            }
            let portion = q as u16;
            out.set(i, portion);
            remainder = remainder.saturating_sub(portion);
            assert(portion as int == share(ts, nat_view, total, spacing, i as int));
        } else {
            assert(share(ts, nat_view, total, spacing, i as int) == 0);
        }
        assert(share_sum(ts, nat_view, total, spacing, i as int + 1)
            == share_sum(ts, nat_view, total, spacing, i as int) + share(ts, nat_view, total, spacing, i as int));
        i = i + 1;
    }
    let ghost after_shares = out@;
    let mut i: usize = 0;
    let mut given: u16 = 0;
    while i < len
        invariant
            len == ts.len(),
            ts == tracks@,
            hf == has_flex(ts),
            measured == (natural is Some),
            weights == weight_sum(ts, nat_view, len as int),
            weights > 0,
            nat_view == (match natural { Some(n) => Some(n@), None => None }),
            i <= len,
            out@.len() == len,
            after_shares.len() == len,
            remainder as int == leftover(ts, nat_view, total, spacing),
            given as int == min_int(weighted_count(ts, nat_view, i as int), remainder as int),
            forall|k: int| 0 <= k < len && weight(ts, nat_view, k) > 0 ==> after_shares[k] == share(ts, nat_view, total, spacing, k),
            forall|k: int| 0 <= k < len && weight(ts, nat_view, k) == 0 ==> after_shares[k] == give(ts, nat_view, total, spacing, k),
            forall|k: int| i <= k < len ==> out@[k] == after_shares[k],
            forall|k: int| 0 <= k < i ==> out@[k] == distributed(ts, nat_view, total, spacing, k),
        decreases len - i,
    {
        proof {
            lemma_sums_monotone(ts, nat_view, i as int, i as int + 1);
        }
        let w = exec_weight(tracks[i], hf, measured);
        assert(w == weight(ts, nat_view, i as int));
        if given < remainder && w != 0 {
            let v = out[i];
            out.set(i, v.saturating_add(1));
            given = given + 1;
        }
        assert(weighted_count(ts, nat_view, i as int + 1) == weighted_count(ts, nat_view, i as int)
            + if weight(ts, nat_view, i as int) > 0 { 1int } else { 0int });
        proof {
            if weight(ts, nat_view, i as int) > 0 {
                assert(after_shares[i as int] == share(ts, nat_view, total, spacing, i as int));
                if weighted_count(ts, nat_view, i as int) < leftover(ts, nat_view, total, spacing) {
                    assert(given == weighted_count(ts, nat_view, i as int) + 1);
                    assert(out@[i as int] == sat_add(after_shares[i as int] as int, 1));
                } else {
                    assert(out@[i as int] == after_shares[i as int]);
                }
            } else {
                assert(out@[i as int] == after_shares[i as int]);
                assert(after_shares[i as int] == give(ts, nat_view, total, spacing, i as int));
            }
        }
        assert(out@[i as int] == distributed(ts, nat_view, total, spacing, i as int));
        i = i + 1;
    }
    out
}

/// The distribution as a sequence of cell counts.
pub open spec fn distributed_seq(tracks: Seq<Track>, natural: Option<Seq<u16>>, total: u16, spacing: u16) -> Seq<u16> {
    Seq::new(tracks.len(), |i: int| distributed(tracks, natural, total, spacing, i) as u16)
}

/// [`distribute`] into a caller-supplied slice; tracks beyond `out.len()`
/// are ignored and the rest of `out` is left as it was.
pub fn distribute_into(total: u16, tracks: &[Track], spacing: u16, out: &mut [u16])
    requires
        weights_fit(tracks@.subrange(0, min_int(tracks@.len() as int, old(out)@.len() as int)), None),
    ensures
        final(out)@.len() == old(out)@.len(),
        forall|i: int| 0 <= i < min_int(tracks@.len() as int, old(out)@.len() as int) ==> final(out)@[i]
            == distributed(tracks@.subrange(0, min_int(tracks@.len() as int, old(out)@.len() as int)), None, total, spacing, i),
        forall|i: int| min_int(tracks@.len() as int, old(out)@.len() as int) <= i < old(out)@.len() ==> final(out)@[i] == old(out)@[i],
{
    let n = if tracks.len() < out.len() { tracks.len() } else { out.len() };
    let head = &tracks[0..n];
    let sizes = distribute(total, head, spacing, None);
    let ghost before = out@;
    let mut i: usize = 0;
    while i < n
        invariant
            n == min_int(tracks@.len() as int, before.len() as int),
            head@ == tracks@.subrange(0, n as int),
            sizes@.len() == n,
            out@.len() == before.len(),
            i <= n,
            forall|k: int| 0 <= k < n ==> sizes@[k] == distributed(head@, None, total, spacing, k),
            forall|k: int| 0 <= k < i ==> out@[k] == sizes@[k],
            forall|k: int| n <= k < before.len() ==> out@[k] == before[k],
        decreases n - i,
    {
        out[i] = sizes[i];
        i = i + 1;
    }
    assert forall|k: int| 0 <= k < n implies out@[k] == distributed(
        tracks@.subrange(0, min_int(tracks@.len() as int, before.len() as int)), None, total, spacing, k) by {
        assert(out@[k] == sizes@[k]);
    }
}

// ---------------------------------------------------------------------------
// What the distribution adds up to.
// ---------------------------------------------------------------------------

/// The sum of the sizes [`distribute`] gives tracks `0..i`.
pub open spec fn distributed_sum(tracks: Seq<Track>, natural: Option<Seq<u16>>, total: u16, spacing: u16, i: int) -> int
    decreases i,
{
    if i <= 0 {
        0
    } else {
        distributed_sum(tracks, natural, total, spacing, i - 1) + distributed(tracks, natural, total, spacing, i - 1)
    }
}

/// Sum of the first-pass gifts to tracks `0..i`.
spec fn give_sum(tracks: Seq<Track>, natural: Option<Seq<u16>>, total: u16, spacing: u16, i: int) -> int
    decreases i,
{
    if i <= 0 { 0 } else { give_sum(tracks, natural, total, spacing, i - 1) + give(tracks, natural, total, spacing, i - 1) }
}

/// Whether track `k` gets one of the leftover cells.
spec fn gets_extra(tracks: Seq<Track>, natural: Option<Seq<u16>>, total: u16, spacing: u16, k: int) -> bool {
    weight(tracks, natural, k) > 0 && weighted_count(tracks, natural, k) < leftover(tracks, natural, total, spacing)
}

/// How many of tracks `0..i` get a leftover cell.
spec fn extra_sum(tracks: Seq<Track>, natural: Option<Seq<u16>>, total: u16, spacing: u16, i: int) -> int
    decreases i,
{
    if i <= 0 {
        0
    } else {
        extra_sum(tracks, natural, total, spacing, i - 1) + if gets_extra(tracks, natural, total, spacing, i - 1) {
            1int
        } else {
            0int
        }
    }
}

/// The first pass hands out its wants until the space runs out.
proof fn lemma_give_sum(tracks: Seq<Track>, natural: Option<Seq<u16>>, total: u16, spacing: u16, i: int)
    requires
        0 <= i,
    ensures
        give_sum(tracks, natural, total, spacing, i) == min_int(
            want_sum(tracks, natural, i),
            avail0(total, tracks.len(), spacing),
        ),
    decreases i,
{
    lemma_sums_nonneg(tracks, natural, i);
    if i > 0 {
        lemma_give_sum(tracks, natural, total, spacing, i - 1);
        lemma_sums_nonneg(tracks, natural, i - 1);
        let w = want(tracks, natural, i - 1);
        assert(w >= 0) by {
            match tracks[i - 1] {
                Track::Fixed(_) => {},
                Track::Flex(_) => {},
                Track::Auto => {},
            }
        }
    }
}

/// The leftover cells go to the earliest weighted tracks, one each.
proof fn lemma_extra_sum(tracks: Seq<Track>, natural: Option<Seq<u16>>, total: u16, spacing: u16, i: int)
    requires
        0 <= i,
        leftover(tracks, natural, total, spacing) >= 0,
    ensures
        extra_sum(tracks, natural, total, spacing, i) == min_int(
            weighted_count(tracks, natural, i),
            leftover(tracks, natural, total, spacing),
        ),
    decreases i,
{
    if i > 0 {
        lemma_extra_sum(tracks, natural, total, spacing, i - 1);
    }
}

/// No weights, no weighted tracks, and the converse.
proof fn lemma_weighted_count_zero(tracks: Seq<Track>, natural: Option<Seq<u16>>, i: int)
    requires
        0 <= i,
    ensures
        weighted_count(tracks, natural, i) == 0 ==> weight_sum(tracks, natural, i) == 0,
    decreases i,
{
    lemma_sums_nonneg(tracks, natural, i);
    if i > 0 {
        lemma_weighted_count_zero(tracks, natural, i - 1);
        lemma_sums_nonneg(tracks, natural, i - 1);
        assert(weight(tracks, natural, i - 1) >= 0);
    }
}

/// The rounded-down shares, summed, lose less than one cell per weighted
/// track and never exceed the space they share.
proof fn lemma_share_sum_bounds(tracks: Seq<Track>, natural: Option<Seq<u16>>, total: u16, spacing: u16, i: int)
    requires
        0 <= i <= tracks.len(),
        weight_sum(tracks, natural, tracks.len() as int) > 0,
        avail1(tracks, natural, total, spacing) >= 0,
    ensures
        ({
            let w = weight_sum(tracks, natural, tracks.len() as int);
            let x = avail1(tracks, natural, total, spacing);
            let s = share_sum(tracks, natural, total, spacing, i);
            &&& w * s <= x * weight_sum(tracks, natural, i)
            &&& w * s + (w - 1) * weighted_count(tracks, natural, i) >= x * weight_sum(tracks, natural, i)
            &&& s >= 0
        }),
    decreases i,
{
    if i > 0 {
        lemma_share_sum_bounds(tracks, natural, total, spacing, i - 1);
        let w = weight_sum(tracks, natural, tracks.len() as int);
        let x = avail1(tracks, natural, total, spacing);
        let wk = weight(tracks, natural, i - 1);
        let sk = share(tracks, natural, total, spacing, i - 1);
        lemma_weight_le_sum(tracks, natural, i - 1);
        assert(sk == (x * wk) / w);
        assert(w * sk <= x * wk && x * wk - (w - 1) <= w * sk && sk >= 0) by (nonlinear_arith)
            requires
                w > 0,
                x >= 0,
                wk >= 0,
                sk == (x * wk) / w,
        {
            vstd::arithmetic::div_mod::lemma_fundamental_div_mod(x * wk, w);
        }
        if wk == 0 {
            assert(x * wk == 0) by (nonlinear_arith)
                requires
                    wk == 0,
            ;
            assert(sk == 0) by (nonlinear_arith)
                requires
                    w > 0,
                    sk == (x * wk) / w,
                    wk == 0,
            ;
        }
        let sp = share_sum(tracks, natural, total, spacing, i - 1);
        let wsp = weight_sum(tracks, natural, i - 1);
        assert(w * (sp + sk) == w * sp + w * sk) by (nonlinear_arith);
        assert(x * (wsp + wk) == x * wsp + x * wk) by (nonlinear_arith);
        assert((w - 1) * (weighted_count(tracks, natural, i - 1) + 1) == (w - 1) * weighted_count(tracks, natural, i - 1)
            + (w - 1)) by (nonlinear_arith);
    }
}

/// The sizes [`distribute`] gives never add up to more than the space the
/// gaps leave, and fill it exactly when some track has a weight.
pub proof fn law_distribute_fills_the_space(tracks: Seq<Track>, natural: Option<Seq<u16>>, total: u16, spacing: u16)
    ensures
        distributed_sum(tracks, natural, total, spacing, tracks.len() as int) <= avail0(total, tracks.len(), spacing),
        (exists|i: int| 0 <= i < tracks.len() && weight(tracks, natural, i) > 0) ==> distributed_sum(
            tracks,
            natural,
            total,
            spacing,
            tracks.len() as int,
        ) == avail0(total, tracks.len(), spacing),
{
    let n = tracks.len() as int;
    let a = avail0(total, tracks.len(), spacing);
    let w = weight_sum(tracks, natural, n);
    lemma_sums_nonneg(tracks, natural, n);
    lemma_give_sum(tracks, natural, total, spacing, n);
    if w == 0 {
        assert forall|i: int| 0 <= i < n implies weight(tracks, natural, i) <= 0 by {
            lemma_weight_le_sum(tracks, natural, i);
        }
        lemma_sum_when_unweighted(tracks, natural, total, spacing, n);
    } else {
        let x = avail1(tracks, natural, total, spacing);
        let wc = weighted_count(tracks, natural, n);
        lemma_share_sum_bounds(tracks, natural, total, spacing, n);
        lemma_weighted_count_zero(tracks, natural, n);
        let s = share_sum(tracks, natural, total, spacing, n);
        assert(s <= x) by (nonlinear_arith)
            requires
                w > 0,
                w * s <= x * w,
        ;
        assert(x - s <= wc) by (nonlinear_arith)
            requires
                w > 0,
                wc >= 1,
                w * s + (w - 1) * wc >= x * w,
        ;
        lemma_extra_sum(tracks, natural, total, spacing, n);
        lemma_sum_when_weighted(tracks, natural, total, spacing, n);
    }
}

/// Two tracks of equal positive weight get sizes at most one cell apart,
/// the earlier one the larger; a fixed track never gets more than it asks.
pub proof fn law_distribute_is_fair(
    tracks: Seq<Track>,
    natural: Option<Seq<u16>>,
    total: u16,
    spacing: u16,
    i: int,
    j: int,
)
    requires
        0 <= i < j < tracks.len(),
    ensures
        weight(tracks, natural, i) == weight(tracks, natural, j) > 0 ==> {
            let di = distributed(tracks, natural, total, spacing, i);
            let dj = distributed(tracks, natural, total, spacing, j);
            dj <= di <= dj + 1
        },
        tracks[i] matches Track::Fixed(w) ==> distributed(tracks, natural, total, spacing, i) <= w,
        tracks[j] matches Track::Fixed(w) ==> distributed(tracks, natural, total, spacing, j) <= w,
{
    lemma_weight_le_sum(tracks, natural, i);
    lemma_sums_monotone(tracks, natural, i + 1, j);
    lemma_sums_nonneg(tracks, natural, tracks.len() as int);
    let w = weight(tracks, natural, i);
    if w == weight(tracks, natural, j) && w > 0 {
        let big_w = weight_sum(tracks, natural, tracks.len() as int);
        let x = avail1(tracks, natural, total, spacing);
        assert(0 <= x <= 0xffff);
        let s = share(tracks, natural, total, spacing, i);
        assert(s == share(tracks, natural, total, spacing, j));
        assert(0 <= s <= x) by (nonlinear_arith)
            requires
                0 < w <= big_w,
                0 <= x,
                s == (x * w) / big_w,
        {
            assert(x * w <= x * big_w) by (nonlinear_arith)
                requires
                    0 < w <= big_w,
                    0 <= x,
            ;
            vstd::arithmetic::div_mod::lemma_div_is_ordered(x * w, x * big_w, big_w);
            vstd::arithmetic::div_mod::lemma_div_multiples_vanish(x, big_w);
        }
    }
}

/// Without weights every track keeps its first-pass gift.
proof fn lemma_sum_when_unweighted(tracks: Seq<Track>, natural: Option<Seq<u16>>, total: u16, spacing: u16, i: int)
    requires
        0 <= i <= tracks.len(),
        weight_sum(tracks, natural, tracks.len() as int) == 0,
    ensures
        distributed_sum(tracks, natural, total, spacing, i) == give_sum(tracks, natural, total, spacing, i),
    decreases i,
{
    if i > 0 {
        lemma_sum_when_unweighted(tracks, natural, total, spacing, i - 1);
    }
}

/// With weights, a track's size is its gift, its share and its leftover
/// cell, and weighted tracks get no gift.
proof fn lemma_sum_when_weighted(tracks: Seq<Track>, natural: Option<Seq<u16>>, total: u16, spacing: u16, i: int)
    requires
        0 <= i <= tracks.len(),
        weight_sum(tracks, natural, tracks.len() as int) > 0,
        0 <= share_sum(tracks, natural, total, spacing, tracks.len() as int) <= avail1(tracks, natural, total, spacing),
        avail1(tracks, natural, total, spacing) <= 0xffff,
        forall|k: int| 0 <= k < tracks.len() ==> share(tracks, natural, total, spacing, k) >= 0,
    ensures
        distributed_sum(tracks, natural, total, spacing, i) == give_sum(tracks, natural, total, spacing, i)
            + share_sum(tracks, natural, total, spacing, i) + extra_sum(tracks, natural, total, spacing, i),
    decreases i,
{
    if i > 0 {
        lemma_sum_when_weighted(tracks, natural, total, spacing, i - 1);
        let k = i - 1;
        lemma_share_prefix_le(tracks, natural, total, spacing, k);
        lemma_sums_nonneg(tracks, natural, k);
        lemma_weight_le_sum(tracks, natural, k);
        if weight(tracks, natural, k) > 0 {
            assert(want(tracks, natural, k) == 0);
            assert(give(tracks, natural, total, spacing, k) == 0);
            if gets_extra(tracks, natural, total, spacing, k) {
                assert(share(tracks, natural, total, spacing, k) + 1 <= 0xffff);
            }
        } else {
            assert(share(tracks, natural, total, spacing, k) == 0) by (nonlinear_arith)
                requires
                    weight(tracks, natural, k) == 0,
                    weight_sum(tracks, natural, tracks.len() as int) > 0,
                    share(tracks, natural, total, spacing, k) == (avail1(tracks, natural, total, spacing)
                        * weight(tracks, natural, k)) / weight_sum(tracks, natural, tracks.len() as int),
            ;
        }
    }
}

/// One track's share is no more than all the shares.
proof fn lemma_share_prefix_le(tracks: Seq<Track>, natural: Option<Seq<u16>>, total: u16, spacing: u16, k: int)
    requires
        0 <= k < tracks.len(),
        forall|j: int| 0 <= j < tracks.len() ==> share(tracks, natural, total, spacing, j) >= 0,
    ensures
        share(tracks, natural, total, spacing, k) <= share_sum(tracks, natural, total, spacing, tracks.len() as int),
{
    lemma_share_sum_monotone(tracks, natural, total, spacing, k + 1, tracks.len() as int);
    lemma_share_sum_monotone(tracks, natural, total, spacing, 0, k);
}

proof fn lemma_share_sum_monotone(tracks: Seq<Track>, natural: Option<Seq<u16>>, total: u16, spacing: u16, i: int, j: int)
    requires
        0 <= i <= j <= tracks.len(),
        forall|k: int| 0 <= k < tracks.len() ==> share(tracks, natural, total, spacing, k) >= 0,
    ensures
        share_sum(tracks, natural, total, spacing, i) <= share_sum(tracks, natural, total, spacing, j),
    decreases j - i,
{
    if i < j {
        lemma_share_sum_monotone(tracks, natural, total, spacing, i, j - 1);
    }
}

// ---------------------------------------------------------------------------
// Stacking.
// ---------------------------------------------------------------------------

/// The axis start of `area` (top for rows, left for columns).
pub open spec fn axis_start(area: Rect, vertical: bool) -> int {
    if vertical { area.y as int } else { area.x as int }
}

/// The axis end of `area` (bottom for rows, right for columns).
pub open spec fn axis_limit(area: Rect, vertical: bool) -> int {
    if vertical { area.spec_bottom() } else { area.spec_right() }
}

/// The stacking cursor before item `i`.
pub open spec fn stack_cursor(area: Rect, sizes: Seq<u16>, spacing: u16, vertical: bool, i: int) -> int
    decreases i, 0int,
{
    if i <= 0 {
        axis_start(area, vertical)
    } else {
        let start = stack_start(area, sizes, spacing, vertical, i - 1);
        let len = min_int(sizes[i - 1] as int, axis_limit(area, vertical) - start);
        sat_add(sat_add(start, len), spacing as int)
    }
}

/// Where item `i` starts along the axis: the cursor, clamped to the limit.
pub open spec fn stack_start(area: Rect, sizes: Seq<u16>, spacing: u16, vertical: bool, i: int) -> int
    decreases i, 1int,
{
    if i < 0 {
        axis_start(area, vertical)
    } else {
        min_int(stack_cursor(area, sizes, spacing, vertical, i), axis_limit(area, vertical))
    }
}

/// The rect of item `i` of a stack.
pub open spec fn stack_rect(area: Rect, sizes: Seq<u16>, spacing: u16, vertical: bool, i: int) -> Rect {
    let start = stack_start(area, sizes, spacing, vertical, i);
    let len = min_int(sizes[i] as int, axis_limit(area, vertical) - start);
    if vertical {
        Rect { x: area.x, y: start as u16, width: area.width, height: len as u16 }
    } else {
        Rect { x: start as u16, y: area.y, width: len as u16, height: area.height }
    }
}

proof fn lemma_stack_bounds(area: Rect, sizes: Seq<u16>, spacing: u16, vertical: bool, i: int)
    requires
        0 <= i,
    ensures
        axis_start(area, vertical) <= stack_cursor(area, sizes, spacing, vertical, i) <= 0xffff,
        axis_start(area, vertical) <= stack_start(area, sizes, spacing, vertical, i) <= axis_limit(area, vertical),
    decreases i,
{
    if i > 0 {
        lemma_stack_bounds(area, sizes, spacing, vertical, i - 1);
    }
}

/// Every rect of a stack lies inside the stacked area.
pub proof fn law_stack_stays_within_the_area(area: Rect, sizes: Seq<u16>, spacing: u16, vertical: bool, i: int)
    requires
        0 <= i < sizes.len(),
    ensures
        stack_rect(area, sizes, spacing, vertical, i).within(area),
{
    lemma_stack_bounds(area, sizes, spacing, vertical, i);
}

fn stack(area: Rect, sizes: &[u16], spacing: u16, vertical: bool) -> (out: Vec<Rect>)
    ensures
        out@.len() == sizes@.len(),
        forall|i: int| 0 <= i < sizes@.len() ==> out@[i] == stack_rect(area, sizes@, spacing, vertical, i),
{
    let mut cursor = if vertical { area.y } else { area.x };
    let limit = if vertical { area.bottom() } else { area.right() };
    let mut out: Vec<Rect> = Vec::new();
    let mut i: usize = 0;
    while i < sizes.len()
        invariant
            i <= sizes@.len(),
            out@.len() == i,
            limit == axis_limit(area, vertical),
            cursor == stack_cursor(area, sizes@, spacing, vertical, i as int),
            forall|k: int| 0 <= k < i ==> out@[k] == stack_rect(area, sizes@, spacing, vertical, k),
        decreases sizes@.len() - i,
    {
        proof {
            lemma_stack_bounds(area, sizes@, spacing, vertical, i as int);
        }
        let s = sizes[i];
        let start = if cursor < limit { cursor } else { limit };
        let room = limit - start;
        let len = if s < room { s } else { room };
        cursor = start.saturating_add(len).saturating_add(spacing);
        if vertical {
            out.push(Rect { x: area.x, y: start, width: area.width, height: len });
        } else {
            out.push(Rect { x: start, y: area.y, width: len, height: area.height });
        }
        i = i + 1;
    }
    out
}

/// The rows that [`rows`] lays out.
pub open spec fn spec_rows(area: Rect, heights: Seq<Track>, natural: Option<Seq<u16>>, i: int) -> Rect {
    stack_rect(area, distributed_seq(heights, natural, area.height, 0), 0, true, i)
}

/// The columns that [`columns`] lays out.
pub open spec fn spec_columns(area: Rect, widths: Seq<Track>, spacing: u16, natural: Option<Seq<u16>>, i: int) -> Rect {
    stack_rect(area, distributed_seq(widths, natural, area.width, spacing), spacing, false, i)
}

/// Stack rows top to bottom.
pub fn rows(area: Rect, heights: &[Track]) -> (out: Vec<Rect>)
    requires
        weights_fit(heights@, None),
    ensures
        out@.len() == heights@.len(),
        forall|i: int| 0 <= i < heights@.len() ==> out@[i] == spec_rows(area, heights@, None, i),
{
    let sizes = distribute(area.height, heights, 0, None);
    assert(sizes@ =~= distributed_seq(heights@, None, area.height, 0));
    stack(area, sizes.as_slice(), 0, true)
}

/// Stack rows with measured `Auto` heights.
pub fn rows_measured(area: Rect, heights: &[Track], natural: &[u16]) -> (out: Vec<Rect>)
    requires
        weights_fit(heights@, Some(natural@)),
    ensures
        out@.len() == heights@.len(),
        forall|i: int| 0 <= i < heights@.len() ==> out@[i] == spec_rows(area, heights@, Some(natural@), i),
{
    let sizes = distribute(area.height, heights, 0, Some(natural));
    assert(sizes@ =~= distributed_seq(heights@, Some(natural@), area.height, 0));
    stack(area, sizes.as_slice(), 0, true)
}

/// Lay columns left to right with `spacing` between them.
pub fn columns(area: Rect, widths: &[Track], spacing: u16) -> (out: Vec<Rect>)
    requires
        weights_fit(widths@, None),
    ensures
        out@.len() == widths@.len(),
        forall|i: int| 0 <= i < widths@.len() ==> out@[i] == spec_columns(area, widths@, spacing, None, i),
{
    let sizes = distribute(area.width, widths, spacing, None);
    assert(sizes@ =~= distributed_seq(widths@, None, area.width, spacing));
    stack(area, sizes.as_slice(), spacing, false)
}

/// Lay columns with measured `Auto` widths.
pub fn columns_measured(area: Rect, widths: &[Track], spacing: u16, natural: &[u16]) -> (out: Vec<Rect>)
    requires
        weights_fit(widths@, Some(natural@)),
    ensures
        out@.len() == widths@.len(),
        forall|i: int| 0 <= i < widths@.len() ==> out@[i] == spec_columns(area, widths@, spacing, Some(natural@), i),
{
    let sizes = distribute(area.width, widths, spacing, Some(natural));
    assert(sizes@ =~= distributed_seq(widths@, Some(natural@), area.width, spacing));
    stack(area, sizes.as_slice(), spacing, false)
}

/// Columns that stack into equal rows when `area.width < stack_below`.
pub fn responsive_columns(area: Rect, spec: &[Track], spacing: u16, stack_below: u16) -> (out: Vec<Rect>)
    requires
        spec@.len() <= 0xffff,
        weights_fit(spec@, None),
    ensures
        out@.len() == spec@.len(),
        area.width < stack_below ==> forall|i: int| 0 <= i < spec@.len() ==> out@[i] == spec_rows(
            area, Seq::new(spec@.len(), |k: int| Track::Flex(1)), None, i),
        area.width >= stack_below ==> forall|i: int| 0 <= i < spec@.len() ==> out@[i] == spec_columns(area, spec@, spacing, None, i),
{
    if area.width < stack_below {
        let mut tracks: Vec<Track> = Vec::new();
        let mut i: usize = 0;
        while i < spec.len()
            invariant
                i <= spec@.len(),
                spec@.len() <= 0xffff,
                tracks@ == Seq::new(i as nat, |k: int| Track::Flex(1)),
                weight_sum(tracks@, None, i as int) == i,
            decreases spec@.len() - i,
        {
            let ghost prev = tracks@;
            tracks.push(Track::Flex(1));
            proof {
                assert(tracks@ =~= Seq::new((i + 1) as nat, |k: int| Track::Flex(1)));
                lemma_weight_sum_prefix_ext(prev, tracks@, i as int);
            }
            i = i + 1;
        }
        rows(area, tracks.as_slice())
    } else {
        columns(area, spec, spacing)
    }
}

proof fn lemma_weight_sum_prefix_ext(a: Seq<Track>, b: Seq<Track>, n: int)
    requires
        0 <= n <= a.len(),
        n < b.len(),
        forall|k: int| 0 <= k < a.len() ==> a[k] == b[k],
        forall|k: int| 0 <= k < b.len() ==> b[k] is Flex,
        forall|k: int| 0 <= k < a.len() ==> a[k] is Flex,
    ensures
        weight_sum(a, None, n) == weight_sum(b, None, n),
    decreases n,
{
    if n > 0 {
        lemma_weight_sum_prefix_ext(a, b, n - 1);
    }
}

/// Saturating `u16` sum of `ws[0..i]`, as the action row folds it.
pub open spec fn sat_sum(ws: Seq<u16>, i: int) -> int
    decreases i,
{
    if i <= 0 { 0 } else { sat_add(sat_sum(ws, i - 1), ws[i - 1] as int) }
}

/// The strip [`action_row`] packs its buttons into.
pub open spec fn action_base(area: Rect, widths: Seq<u16>, spacing: u16, align: RowAlign) -> Rect {
    let used = min_int(sat_add(sat_sum(widths, widths.len() as int), gaps(widths.len(), spacing)), area.width as int);
    let start = match align {
        RowAlign::Start => area.x as int,
        RowAlign::End => sat_sub(area.spec_right(), used),
    };
    Rect { x: start as u16, y: area.y, width: used as u16, height: area.height }
}

proof fn lemma_sat_sum_bound(ws: Seq<u16>, i: int)
    ensures
        0 <= sat_sum(ws, i) <= 0xffff,
    decreases i,
{
    if i > 0 {
        lemma_sat_sum_bound(ws, i - 1);
    }
}

/// An action row: fixed-width buttons packed from the start or the end,
/// `spacing` apart, clipped to the area's width.
pub fn action_row(area: Rect, widths: &[u16], spacing: u16, align: RowAlign) -> (out: Vec<Rect>)
    ensures
        out@.len() == widths@.len(),
        forall|i: int| 0 <= i < widths@.len() ==> out@[i] == stack_rect(
            action_base(area, widths@, spacing, align), widths@, spacing, false, i),
{
    let mut total: u16 = 0;
    let mut i: usize = 0;
    while i < widths.len()
        invariant
            i <= widths@.len(),
            total == sat_sum(widths@, i as int),
        decreases widths@.len() - i,
    {
        proof { lemma_sat_sum_bound(widths@, i as int); }
        total = total.saturating_add(widths[i]);
        i = i + 1;
    }
    let n: u16 = (widths.len() % 0x10000) as u16;
    let m: u16 = n.saturating_sub(1);
    assert((spacing as int) * (m as int) <= 0xffff * 0xffff) by (nonlinear_arith)
        requires m <= 0xffff, spacing <= 0xffff;
    let wide: u32 = (spacing as u32) * (m as u32);
    let gaps: u16 = if wide > 0xffff { 0xffff } else { wide as u16 };
    let sum = total.saturating_add(gaps);
    let used = if sum < area.width { sum } else { area.width };
    let start = match align {
        RowAlign::Start => area.x,
        RowAlign::End => area.right().saturating_sub(used),
    };
    let base = Rect { x: start, y: area.y, width: used, height: area.height };
    assert(base == action_base(area, widths@, spacing, align));
    stack(base, widths, spacing, false)
}

/// `Rect::inner` with a symmetric margin: the empty rect at the screen
/// origin when the doubled margin does not fit.
pub open spec fn inner_rect(area: Rect, h: u16, v: u16) -> Rect {
    let dh = min_int(2 * h as int, 0xffff);
    let dv = min_int(2 * v as int, 0xffff);
    if (area.width as int) < dh || (area.height as int) < dv {
        Rect { x: 0, y: 0, width: 0, height: 0 }
    } else {
        Rect {
            x: sat_add(area.x as int, h as int) as u16,
            y: sat_add(area.y as int, v as int) as u16,
            width: (area.width - dh) as u16,
            height: (area.height - dv) as u16,
        }
    }
}

/// Asymmetric insets with every coordinate clamped into `area`.
pub open spec fn clamped_inset(area: Rect, i: Insets) -> Rect {
    Rect {
        x: min_int(sat_add(area.x as int, i.l as int), area.spec_right()) as u16,
        y: min_int(sat_add(area.y as int, i.t as int), area.spec_bottom()) as u16,
        width: sat_sub(sat_sub(area.width as int, i.l as int), i.r as int) as u16,
        height: sat_sub(sat_sub(area.height as int, i.t as int), i.b as int) as u16,
    }
}

/// What [`inset`] answers.
pub open spec fn spec_inset(area: Rect, i: Insets) -> Rect {
    let r = inner_rect(area, i.l, i.t);
    if i.l == i.r && i.t == i.b && !(r.width == 0 || r.height == 0) { r } else { clamped_inset(area, i) }
}

fn inner(area: Rect, h: u16, v: u16) -> (r: Rect)
    ensures
        r == inner_rect(area, h, v),
{
    let dh = h.saturating_add(h);
    let dv = v.saturating_add(v);
    if area.width < dh || area.height < dv {
        Rect::zero()
    } else {
        Rect {
            x: area.x.saturating_add(h),
            y: area.y.saturating_add(v),
            width: area.width - dh,
            height: area.height - dv,
        }
    }
}

/// Shrink by asymmetric insets, saturating. The result always lies inside
/// `area`, including when the insets do not fit: the empty answer is
/// anchored where the content would have started, clamped into `area`.
pub fn inset(area: Rect, i: Insets) -> (r: Rect)
    ensures
        r == spec_inset(area, i),
        r.within(area),
{
    if i.l == i.r && i.t == i.b {
        let r = inner(area, i.l, i.t);
        if !r.is_empty() {
            return r;
        }
    }
    let x1 = area.x.saturating_add(i.l);
    let right = area.right();
    let y1 = area.y.saturating_add(i.t);
    let bottom = area.bottom();
    Rect {
        x: if x1 < right { x1 } else { right },
        y: if y1 < bottom { y1 } else { bottom },
        width: area.width.saturating_sub(i.l).saturating_sub(i.r),
        height: area.height.saturating_sub(i.t).saturating_sub(i.b),
    }
}

/// What [`split_v`] answers.
pub open spec fn spec_split_v(area: Rect, at: u16) -> (Rect, Rect) {
    let a = min_int(at as int, area.height as int);
    (
        Rect { x: area.x, y: area.y, width: area.width, height: a as u16 },
        Rect { x: area.x, y: sat_add(area.y as int, a) as u16, width: area.width, height: (area.height - a) as u16 },
    )
}

/// What [`split_h`] answers.
pub open spec fn spec_split_h(area: Rect, at: u16) -> (Rect, Rect) {
    let a = min_int(at as int, area.width as int);
    (
        Rect { x: area.x, y: area.y, width: a as u16, height: area.height },
        Rect { x: sat_add(area.x as int, a) as u16, y: area.y, width: (area.width - a) as u16, height: area.height },
    )
}

/// Split into a top pane of height `at` and the rest.
pub fn split_v(area: Rect, at: u16) -> (r: (Rect, Rect))
    ensures
        r == spec_split_v(area, at),
        r.0.within(area),
        r.1.within(area),
{
    let at = if at < area.height { at } else { area.height };
    (
        Rect { x: area.x, y: area.y, width: area.width, height: at },
        Rect { x: area.x, y: area.y.saturating_add(at), width: area.width, height: area.height - at },
    )
}

/// Split into a left pane of width `at` and the rest.
pub fn split_h(area: Rect, at: u16) -> (r: (Rect, Rect))
    ensures
        r == spec_split_h(area, at),
        r.0.within(area),
        r.1.within(area),
{
    let at = if at < area.width { at } else { area.width };
    (
        Rect { x: area.x, y: area.y, width: at, height: area.height },
        Rect { x: area.x.saturating_add(at), y: area.y, width: area.width - at, height: area.height },
    )
}

/// Which pane a split maximises.
#[derive(Clone, Copy, PartialEq, Eq, Structural, Debug, Default)]
pub enum Maximized {
    /// Neither pane is maximised.
    #[default]
    Neither,
    /// The first pane fills the area.
    First,
    /// The second pane fills the area.
    Second,
}

/// The split axis.
#[derive(Clone, Copy, PartialEq, Eq, Structural, Debug)]
pub enum SplitAxis {
    /// First pane on top.
    Vertical,
    /// First pane on the left.
    Horizontal,
}

/// A two-pane split model: percent of the first pane, minima, maximise state
/// and axis. When both minima cannot fit, the first pane wins on both axes.
#[derive(Clone, Copy, PartialEq, Eq, Structural, Debug)]
pub struct SplitModel {
    /// Percent of the usable length given to the first pane, `5..=95`.
    pub percent: u8,
    /// Minimum length of the first pane.
    pub min_first: u16,
    /// Minimum length of the second pane.
    pub min_second: u16,
    /// Maximise state.
    pub maximized: Maximized,
    /// Axis.
    pub axis: SplitAxis,
}

/// `p` clamped to `5..=95`.
pub open spec fn spec_clamp_percent(p: int) -> int {
    if p < 5 { 5 } else if p > 95 { 95 } else { p }
}

fn clamp_percent(p: u8) -> (r: u8)
    ensures
        r == spec_clamp_percent(p as int),
{
    if p < 5 {
        5
    } else if p > 95 {
        95
    } else {
        p
    }
}

/// `v` clamped to `lo..=hi` (with `lo <= hi`).
pub open spec fn clamp_int(v: int, lo: int, hi: int) -> int {
    if v < lo { lo } else if v > hi { hi } else { v }
}

/// A split that is neither maximised nor collapsed tiles its area along
/// the axis: the first pane starts at the area's start and is `percent` of
/// the usable length (rounded down, held within the minima); the gap
/// follows; the second pane takes the rest up to the area's end.
pub proof fn law_split_panes_tile_the_area(m: SplitModel, area: Rect, gap: u16)
    requires
        area.fits(),
        m.maximized is Neither,
        m.minima_consistent(area, gap),
        m.usable(area, gap) >= m.min_first + m.min_second,
        m.percent <= 100,
    ensures
        ({
            let (a, b) = m.spec_layout(area, gap);
            let u = m.usable(area, gap);
            let share = u * m.percent / 100;
            let f = if share < m.min_first { m.min_first as int } else if share > u - m.min_second { u
                - m.min_second } else { share };
            &&& m.axis is Vertical ==> {
                &&& a == (Rect { x: area.x, y: area.y, width: area.width, height: f as u16 })
                &&& b.x == area.x && b.width == area.width
                &&& b.height == u - f
                &&& b.y + b.height == area.y + area.height
            }
            &&& m.axis is Horizontal ==> {
                &&& a == (Rect { x: area.x, y: area.y, width: f as u16, height: area.height })
                &&& b.y == area.y && b.height == area.height
                &&& b.width == u - f
                &&& b.x + b.width == area.x + area.width
            }
        }),
{
    let u = m.usable(area, gap);
    let share = u * m.percent / 100;
    assert(0 <= share <= u) by (nonlinear_arith)
        requires
            u >= 0,
            0 <= m.percent <= 100,
            share == u * m.percent / 100,
    {
        assert(u * m.percent <= u * 100);
    }
    assert(u <= 0xffff);
    assert(m.raw_first(area, gap) == share);
    assert(sat_add(m.min_first as int, m.min_second as int) == m.min_first + m.min_second);
}

/// Dragging puts the seam under the pointer: the percent set is the
/// pointer's distance from the start of the area, as a share of the usable
/// length, rounded to the nearest percent (within the minima and the
/// `5..=95` range); a pointer before the area counts as its start.
pub proof fn law_drag_follows_the_pointer(m: SplitModel, area: Rect, gap: u16, pos: Position)
    requires
        m.usable(area, gap) > 0,
        m.usable(area, gap) >= m.min_first + m.min_second,
    ensures
        ({
            let u = m.usable(area, gap);
            let d = match m.axis {
                SplitAxis::Vertical => if pos.y >= area.y { pos.y - area.y } else { 0 },
                SplitAxis::Horizontal => if pos.x >= area.x { pos.x - area.x } else { 0 },
            };
            let f = if d < m.min_first { m.min_first as int } else if d > u - m.min_second { u - m.min_second } else { d };
            m.dragged_percent(area, gap, pos) matches Some(p) && {
                &&& 5 <= p <= 95
                &&& 5 < p < 95 ==> p * u <= f * 100 + u / 2 < (p + 1) * u
                &&& p == 5 ==> f * 100 + u / 2 < 6 * u
                &&& p == 95 ==> 95 * u <= f * 100 + u / 2
            }
        }),
{
    let u = m.usable(area, gap);
    let d = match m.axis {
        SplitAxis::Vertical => if pos.y >= area.y { pos.y - area.y } else { 0 },
        SplitAxis::Horizontal => if pos.x >= area.x { pos.x - area.x } else { 0 },
    };
    let f = if d < m.min_first { m.min_first as int } else if d > u - m.min_second { u - m.min_second } else { d };
    assert(sat_add(m.min_first as int, m.min_second as int) == m.min_first + m.min_second);
    let n = f * 100 + u / 2;
    let q = n / u;
    assert(q * u <= n < (q + 1) * u) by (nonlinear_arith)
        requires
            u > 0,
            n >= 0,
            q == n / u,
    {
        vstd::arithmetic::div_mod::lemma_fundamental_div_mod(n, u);
    }
    if q < 5 {
        assert(n < 6 * u) by (nonlinear_arith)
            requires
                n < (q + 1) * u,
                q < 5,
                u > 0,
        ;
    }
    if q > 95 {
        assert(95 * u <= n) by (nonlinear_arith)
            requires
                q * u <= n,
                q > 95,
                u > 0,
        ;
    }
}

impl SplitModel {
    /// The length of `area` along the split axis.
    pub open spec fn spec_length(self, area: Rect) -> int {
        match self.axis {
            SplitAxis::Vertical => area.height as int,
            SplitAxis::Horizontal => area.width as int,
        }
    }

    /// The length both panes share once the gap is taken.
    pub open spec fn usable(self, area: Rect, gap: u16) -> int {
        sat_sub(self.spec_length(area), gap as int)
    }

    /// When the minima fit the usable length, the first pane's range
    /// `min_first..=usable - min_second` is not empty. (It can be empty only
    /// when `min_first + min_second` saturates `u16`.)
    pub open spec fn minima_consistent(self, area: Rect, gap: u16) -> bool {
        let usable = self.usable(area, gap);
        usable >= sat_add(self.min_first as int, self.min_second as int)
            ==> self.min_first <= sat_sub(usable, self.min_second as int)
    }

    /// The empty pane of a degenerate split, anchored inside `area`.
    pub open spec fn spec_collapsed(self, area: Rect, second: bool) -> Rect {
        match (self.axis, second) {
            (SplitAxis::Vertical, false) => Rect { x: area.x, y: area.y, width: area.width, height: 0 },
            (SplitAxis::Vertical, true) => Rect { x: area.x, y: area.spec_bottom() as u16, width: area.width, height: 0 },
            (SplitAxis::Horizontal, false) => Rect { x: area.x, y: area.y, width: 0, height: area.height },
            (SplitAxis::Horizontal, true) => Rect { x: area.spec_right() as u16, y: area.y, width: 0, height: area.height },
        }
    }

    /// The panes when the first one is `at` long and `gap` separates them.
    pub open spec fn spec_split(self, area: Rect, gap: u16, at: int) -> (Rect, Rect) {
        match self.axis {
            SplitAxis::Vertical => {
                let (a, rest) = spec_split_v(area, at as u16);
                (a, spec_split_v(rest, min_int(gap as int, rest.height as int) as u16).1)
            },
            SplitAxis::Horizontal => {
                let (a, rest) = spec_split_h(area, at as u16);
                (a, spec_split_h(rest, min_int(gap as int, rest.width as int) as u16).1)
            },
        }
    }

    /// The first pane's length before clamping: `percent` of the usable
    /// length, rounded down and truncated to `u16`.
    pub open spec fn raw_first(self, area: Rect, gap: u16) -> int {
        ((self.usable(area, gap) * self.percent as int) / 100) % 0x10000
    }

    /// What [`SplitModel::layout`] answers.
    pub open spec fn spec_layout(self, area: Rect, gap: u16) -> (Rect, Rect) {
        match self.maximized {
            Maximized::First => (area, self.spec_collapsed(area, true)),
            Maximized::Second => (self.spec_collapsed(area, false), area),
            Maximized::Neither => {
                let usable = self.usable(area, gap);
                if usable < sat_add(self.min_first as int, self.min_second as int) {
                    (area, self.spec_collapsed(area, true))
                } else {
                    self.spec_split(area, gap, clamp_int(self.raw_first(area, gap), self.min_first as int,
                        sat_sub(usable, self.min_second as int)))
                }
            },
        }
    }

    /// What [`SplitModel::handle`] answers.
    pub open spec fn spec_handle(self, area: Rect, gap: u16) -> Rect {
        let (a, b) = self.spec_layout(area, gap);
        let thickness = if a.width == 0 || a.height == 0 || b.width == 0 || b.height == 0 { 0 } else { gap };
        match self.axis {
            SplitAxis::Vertical => Rect { x: area.x, y: a.spec_bottom() as u16, width: area.width, height: thickness },
            SplitAxis::Horizontal => Rect { x: a.spec_right() as u16, y: area.y, width: thickness, height: area.height },
        }
    }

    /// The percent [`SplitModel::drag_to`] sets for a seam at `pos`, if it moves it.
    pub open spec fn dragged_percent(self, area: Rect, gap: u16, pos: Position) -> Option<int> {
        let usable = self.usable(area, gap);
        let offset = match self.axis {
            SplitAxis::Vertical => sat_sub(pos.y as int, area.y as int),
            SplitAxis::Horizontal => sat_sub(pos.x as int, area.x as int),
        };
        if usable == 0 || usable < sat_add(self.min_first as int, self.min_second as int) {
            None
        } else {
            let first = clamp_int(offset, self.min_first as int, sat_sub(usable, self.min_second as int));
            Some(spec_clamp_percent((first * 100 + usable / 2) / usable))
        }
    }

    /// A split with `percent` (clamped to `5..=95`) for the first pane.
    pub fn new(axis: SplitAxis, percent: u8, min_first: u16, min_second: u16) -> (m: SplitModel)
        ensures
            m == (SplitModel {
                percent: spec_clamp_percent(percent as int) as u8,
                min_first,
                min_second,
                maximized: Maximized::Neither,
                axis,
            }),
    {
        SplitModel { percent: clamp_percent(percent), min_first, min_second, maximized: Maximized::Neither, axis }
    }

    /// Toggle maximising `which`.
    pub fn toggle_max(&mut self, which: Maximized)
        ensures
            *final(self) == (SplitModel {
                maximized: if old(self).maximized == which { Maximized::Neither } else { which },
                ..*old(self)
            }),
    {
        self.maximized = if self.maximized == which { Maximized::Neither } else { which };
    }

    /// Grow the first pane by `delta` percent, clamped to `5..=95`.
    pub fn grow(&mut self, delta: i8)
        ensures
            *final(self) == (SplitModel {
                percent: spec_clamp_percent(clamp_int(old(self).percent as int + delta as int, 0, 100)) as u8,
                ..*old(self)
            }),
    {
        let p: i16 = (self.percent as i16) + (delta as i16);
        let c: i16 = if p < 0 { 0 } else if p > 100 { 100 } else { p };
        self.percent = clamp_percent(c as u8);
    }

    fn length(self, area: Rect) -> (r: u16)
        ensures
            r == self.spec_length(area),
    {
        match self.axis {
            SplitAxis::Vertical => area.height,
            SplitAxis::Horizontal => area.width,
        }
    }

    fn collapsed(self, area: Rect, second: bool) -> (r: Rect)
        ensures
            r == self.spec_collapsed(area, second),
    {
        match (self.axis, second) {
            (SplitAxis::Vertical, false) => Rect { x: area.x, y: area.y, width: area.width, height: 0 },
            (SplitAxis::Vertical, true) => Rect { x: area.x, y: area.bottom(), width: area.width, height: 0 },
            (SplitAxis::Horizontal, false) => Rect { x: area.x, y: area.y, width: 0, height: area.height },
            (SplitAxis::Horizontal, true) => Rect { x: area.right(), y: area.y, width: 0, height: area.height },
        }
    }

    fn split_at(self, area: Rect, gap: u16, at: u16) -> (r: (Rect, Rect))
        ensures
            r == self.spec_split(area, gap, at as int),
    {
        match self.axis {
            SplitAxis::Vertical => {
                let (a, rest) = split_v(area, at);
                let g = if gap < rest.height { gap } else { rest.height };
                let (_, b) = split_v(rest, g);
                (a, b)
            },
            SplitAxis::Horizontal => {
                let (a, rest) = split_h(area, at);
                let g = if gap < rest.width { gap } else { rest.width };
                let (_, b) = split_h(rest, g);
                (a, b)
            },
        }
    }

    /// The two pane rects with `gap` cells between them. Both always lie
    /// inside `area`, the empty one of a maximised or collapsed split too.
    pub fn layout(&self, area: Rect, gap: u16) -> (r: (Rect, Rect))
        requires
            self.maximized is Neither ==> self.minima_consistent(area, gap),
        ensures
            r == self.spec_layout(area, gap),
            r.0.within(area),
            r.1.within(area),
    {
        match self.maximized {
            Maximized::First => (area, self.collapsed(area, true)),
            Maximized::Second => (self.collapsed(area, false), area),
            Maximized::Neither => {
                let usable = self.length(area).saturating_sub(gap);
                if usable < self.min_first.saturating_add(self.min_second) {
                    return (area, self.collapsed(area, true));
                }
                assert(usable as int * self.percent as int <= 0xffff * 0xff) by (nonlinear_arith)
                    requires usable <= 0xffff, self.percent <= 0xff;
                let wide: u32 = (usable as u32) * (self.percent as u32) / 100;
                let first: u16 = (wide % 0x10000) as u16;
                let hi = usable - self.min_second;
                let first = if first < self.min_first { self.min_first } else if first > hi { hi } else { first };
                self.split_at(area, gap, first)
            },
        }
    }

    /// The seam strip between the panes; empty when maximised, when
    /// collapsed and when `gap == 0`, and always inside `area`.
    pub fn handle(&self, area: Rect, gap: u16) -> (r: Rect)
        requires
            self.maximized is Neither ==> self.minima_consistent(area, gap),
        ensures
            r == self.spec_handle(area, gap),
            r.within(area),
    {
        let (a, b) = self.layout(area, gap);
        let thickness = if a.is_empty() || b.is_empty() { 0 } else { gap };
        match self.axis {
            SplitAxis::Vertical => Rect { x: area.x, y: a.bottom(), width: area.width, height: thickness },
            SplitAxis::Horizontal => Rect { x: a.right(), y: area.y, width: thickness, height: area.height },
        }
    }

    /// Put the seam under `pos`, clamped by the minima. Returns whether the
    /// percent changed.
    pub fn drag_to(&mut self, area: Rect, gap: u16, pos: Position) -> (changed: bool)
        requires
            old(self).minima_consistent(area, gap),
        ensures
            match old(self).dragged_percent(area, gap, pos) {
                None => *final(self) == *old(self) && !changed,
                Some(p) => *final(self) == (SplitModel { percent: p as u8, ..*old(self) })
                    && changed == (p != old(self).percent),
            },
    {
        let usable = self.length(area).saturating_sub(gap);
        let offset = match self.axis {
            SplitAxis::Vertical => pos.y.saturating_sub(area.y),
            SplitAxis::Horizontal => pos.x.saturating_sub(area.x),
        };
        if usable == 0 || usable < self.min_first.saturating_add(self.min_second) {
            return false;
        }
        let hi = usable - self.min_second;
        let first = if offset < self.min_first { self.min_first } else if offset > hi { hi } else { offset };
        let num: u32 = (first as u32) * 100 + (usable as u32) / 2;
        let q: u32 = num / (usable as u32);
        assert(q <= 100) by (nonlinear_arith)
            requires
                q == num / (usable as u32),
                num == first as int * 100 + usable as int / 2,
                first <= usable, usable > 0,
        {
            assert(num <= 101 * usable as int);
            assert(num < 101 * usable as int);
        }
        let percent = clamp_percent(q as u8);
        let changed = percent != self.percent;
        self.percent = percent;
        changed
    }

    /// Resize the first pane by whole cells.
    pub fn nudge(&mut self, area: Rect, gap: u16, delta: i16)
        requires
            old(self).minima_consistent(area, gap),
        ensures
            ({
                let first = old(self).spec_layout(area, gap).0;
                let cur = old(self).spec_length(first);
                let target = max_int(cur + delta as int, 0) % 0x10000;
                let pos = match old(self).axis {
                    SplitAxis::Vertical => Position { x: area.x, y: sat_add(area.y as int, target) as u16 },
                    SplitAxis::Horizontal => Position { x: sat_add(area.x as int, target) as u16, y: area.y },
                };
                match old(self).dragged_percent(area, gap, pos) {
                    None => *final(self) == *old(self),
                    Some(p) => *final(self) == (SplitModel { percent: p as u8, ..*old(self) }),
                }
            }),
    {
        let (first, _) = self.layout(area, gap);
        let cur: i32 = self.length(first) as i32;
        let t: i32 = cur + delta as i32;
        let t: i32 = if t < 0 { 0 } else { t };
        let target: u16 = (t % 0x10000) as u16;
        let pos = match self.axis {
            SplitAxis::Vertical => Position::new(area.x, area.y.saturating_add(target)),
            SplitAxis::Horizontal => Position::new(area.x.saturating_add(target), area.y),
        };
        self.drag_to(area, gap, pos);
    }
}

} // verus!
