//! Half-open physical frame ranges and the subtraction of reserved ranges.
use vstd::prelude::*;
use vstd::assert_seqs_equal;
use vstd::assert_sets_equal;

verus! {

/// Size of a physical frame and of a virtual page, in bytes.
pub const PAGE_SIZE: u64 = 4096;

/// A half-open range `[start, end)` of physical addresses.
#[derive(Clone, Copy, Debug, PartialEq, Eq, Structural)]
pub struct FrameRange {
    pub start: u64,
    pub end: u64,
}

/// The set of addresses a range holds.
pub open spec fn span(r: FrameRange) -> Set<int> {
    Set::new(|a: int| r.start <= a && a < r.end)
}

/// The set of addresses held by some range of a list.
pub open spec fn covered(rs: Seq<FrameRange>) -> Set<int>
    decreases rs.len(),
{
    if rs.len() == 0 {
        Set::empty()
    } else {
        covered(rs.drop_last()).union(span(rs.last()))
    }
}

/// `x` lies inside `r`.
pub open spec fn within(x: FrameRange, r: FrameRange) -> bool {
    r.start <= x.start && x.end <= r.end
}

/// Two ranges share no address.
pub open spec fn disjoint(a: FrameRange, b: FrameRange) -> bool {
    a.end <= b.start || b.end <= a.start || a.end <= a.start || b.end <= b.start
}

pub open spec fn pairwise_disjoint(rs: Seq<FrameRange>) -> bool {
    forall|i: int, j: int| 0 <= i < j < rs.len() ==> disjoint(#[trigger] rs[i], #[trigger] rs[j])
}

pub open spec fn frame_aligned(r: FrameRange) -> bool {
    r.start % PAGE_SIZE == 0 && r.end % PAGE_SIZE == 0
}

pub open spec fn all_frame_aligned(rs: Seq<FrameRange>) -> bool {
    forall|i: int| 0 <= i < rs.len() ==> frame_aligned(#[trigger] rs[i])
}

pub open spec fn all_start_at_least(rs: Seq<FrameRange>, m: int) -> bool {
    forall|i: int| 0 <= i < rs.len() ==> (#[trigger] rs[i]).start >= m
}

/// What remains of one region `r` once `k` is reserved:
/// below or above `k` it stays whole; straddling the lower edge leaves the
/// part below; containing `k` leaves the parts below and above; straddling
/// the upper edge leaves the part above; inside `k` nothing is left.
pub open spec fn region_pieces(r: FrameRange, k: FrameRange) -> Seq<FrameRange> {
    if r.start < k.start && r.end >= k.start {
        if r.end <= k.end {
            seq![FrameRange { start: r.start, end: k.start }]
        } else {
            seq![FrameRange { start: r.start, end: k.start }, FrameRange { start: k.end, end: r.end }]
        }
    } else if r.start <= k.end && r.end >= k.start {
        if r.end <= k.end {
            seq![]
        } else {
            seq![FrameRange { start: k.end, end: r.end }]
        }
    } else {
        seq![r]
    }
}

/// `cut(regions, k)`: the pieces of every region, in the order of the regions.
pub open spec fn cut(rs: Seq<FrameRange>, k: FrameRange) -> Seq<FrameRange>
    decreases rs.len(),
{
    if rs.len() == 0 {
        seq![]
    } else {
        cut(rs.drop_last(), k) + region_pieces(rs.last(), k)
    }
}

/// Removes `reserved_region` from every region of `regions`.
pub fn cut_region(regions: Vec<FrameRange>, reserved_region: FrameRange) -> (r: Vec<FrameRange>)
    ensures
        r@ == cut(regions@, reserved_region),
{
    let mut new_regions: Vec<FrameRange> = Vec::new();
    let mut i: usize = 0;
    while i < regions.len()
        invariant
            i <= regions.len(),
            new_regions@ == cut(regions@.subrange(0, i as int), reserved_region),
        decreases regions.len() - i,
    {
        let region = regions[i];
        let k = reserved_region;
        let ghost before = new_regions@;
        if region.start < k.start && region.end >= k.start {
            if region.end <= k.end {
                new_regions.push(FrameRange { start: region.start, end: k.start });
            } else {
                new_regions.push(FrameRange { start: region.start, end: k.start });
                new_regions.push(FrameRange { start: k.end, end: region.end });
            }
        } else if region.start <= k.end && region.end >= k.start {
            if region.end > k.end {
                new_regions.push(FrameRange { start: k.end, end: region.end });
            }
        } else {
            new_regions.push(region);
        }
        proof {
            let s = regions@.subrange(0, i + 1);
            assert(s.drop_last() =~= regions@.subrange(0, i as int));
            assert(s.last() == region);
            assert(new_regions@ =~= before + region_pieces(region, k));
        }
        i += 1;
    }
    proof {
        assert(regions@.subrange(0, regions@.len() as int) =~= regions@);
    }
    new_regions
}


/// A reserved range is well formed: its start does not exceed its end.
pub open spec fn well_formed(r: FrameRange) -> bool {
    r.start <= r.end
}

proof fn lemma_covered_push(s: Seq<FrameRange>, x: FrameRange)
    ensures
        covered(s.push(x)) == covered(s).union(span(x)),
{
    assert(s.push(x).drop_last() =~= s);
}

proof fn lemma_covered_concat(a: Seq<FrameRange>, b: Seq<FrameRange>)
    ensures
        covered(a + b) == covered(a).union(covered(b)),
    decreases b.len(),
{
    if b.len() == 0 {
        assert(a + b =~= a);
        assert_sets_equal!(covered(a + b), covered(a).union(covered(b)));
    } else {
        assert((a + b).drop_last() =~= a + b.drop_last());
        lemma_covered_concat(a, b.drop_last());
        assert_sets_equal!(covered(a + b), covered(a).union(covered(b)));
    }
}

proof fn lemma_cut_append(a: Seq<FrameRange>, b: Seq<FrameRange>, k: FrameRange)
    ensures
        cut(a + b, k) == cut(a, k) + cut(b, k),
    decreases b.len(),
{
    if b.len() == 0 {
        assert(a + b =~= a);
        assert(cut(a, k) + cut(b, k) =~= cut(a, k));
    } else {
        assert((a + b).drop_last() =~= a + b.drop_last());
        lemma_cut_append(a, b.drop_last(), k);
        assert(cut(a + b, k) =~= cut(a, k) + cut(b, k));
    }
}

proof fn lemma_covered_pieces(r: FrameRange, k: FrameRange)
    requires
        well_formed(k),
    ensures
        covered(region_pieces(r, k)) == span(r).difference(span(k)),
{
    let e = Seq::<FrameRange>::empty();
    let lo = FrameRange { start: r.start, end: k.start };
    let hi = FrameRange { start: k.end, end: r.end };
    lemma_covered_push(e, lo);
    lemma_covered_push(e, hi);
    lemma_covered_push(e, r);
    lemma_covered_push(e.push(lo), hi);
    assert(covered(e) =~= Set::empty());
    assert(seq![lo] =~= e.push(lo));
    assert(seq![hi] =~= e.push(hi));
    assert(seq![r] =~= e.push(r));
    assert(seq![lo, hi] =~= e.push(lo).push(hi));
    assert_sets_equal!(covered(region_pieces(r, k)), span(r).difference(span(k)));
}

proof fn lemma_cut_covered(rs: Seq<FrameRange>, k: FrameRange)
    requires
        well_formed(k),
    ensures
        covered(cut(rs, k)) == covered(rs).difference(span(k)),
    decreases rs.len(),
{
    if rs.len() == 0 {
        assert_sets_equal!(covered(cut(rs, k)), covered(rs).difference(span(k)));
    } else {
        lemma_cut_covered(rs.drop_last(), k);
        lemma_covered_concat(cut(rs.drop_last(), k), region_pieces(rs.last(), k));
        lemma_covered_pieces(rs.last(), k);
        assert_sets_equal!(covered(cut(rs, k)), covered(rs).difference(span(k)));
    }
}

proof fn lemma_pieces_within(r: FrameRange, k: FrameRange)
    requires
        well_formed(k),
    ensures
        forall|j: int| 0 <= j < region_pieces(r, k).len() ==> within(#[trigger] region_pieces(r, k)[j], r),
{
}

proof fn lemma_cut_disjoint_from(rs: Seq<FrameRange>, k: FrameRange, d: FrameRange)
    requires
        well_formed(k),
        forall|i: int| 0 <= i < rs.len() ==> disjoint(#[trigger] rs[i], d),
    ensures
        forall|i: int| 0 <= i < cut(rs, k).len() ==> disjoint(#[trigger] cut(rs, k)[i], d),
    decreases rs.len(),
{
    if rs.len() > 0 {
        let init = rs.drop_last();
        assert forall|i: int| 0 <= i < init.len() implies disjoint(#[trigger] init[i], d) by {
            assert(init[i] == rs[i]);
        }
        lemma_cut_disjoint_from(init, k, d);
        assert(disjoint(rs[rs.len() - 1], d));
        lemma_pieces_within(rs.last(), k);
        let c = cut(rs, k);
        assert forall|i: int| 0 <= i < c.len() implies disjoint(#[trigger] c[i], d) by {
            if i < cut(init, k).len() {
                assert(c[i] == cut(init, k)[i]);
            } else {
                assert(c[i] == region_pieces(rs.last(), k)[i - cut(init, k).len()]);
            }
        }
    }
}

proof fn lemma_cut_pairwise_disjoint(rs: Seq<FrameRange>, k: FrameRange)
    requires
        well_formed(k),
        pairwise_disjoint(rs),
    ensures
        pairwise_disjoint(cut(rs, k)),
    decreases rs.len(),
{
    if rs.len() > 0 {
        let init = rs.drop_last();
        let last = rs.last();
        assert(pairwise_disjoint(init)) by {
            assert forall|i: int, j: int| 0 <= i < j < init.len() implies disjoint(
                #[trigger] init[i],
                #[trigger] init[j],
            ) by {
                assert(init[i] == rs[i] && init[j] == rs[j]);
            }
        }
        lemma_cut_pairwise_disjoint(init, k);
        assert forall|i: int| 0 <= i < init.len() implies disjoint(#[trigger] init[i], last) by {
            assert(init[i] == rs[i]);
            assert(last == rs[rs.len() - 1]);
        }
        lemma_cut_disjoint_from(init, k, last);
        let a = cut(init, k);
        let p = region_pieces(last, k);
        let c = cut(rs, k);
        assert(c == a + p);
        assert forall|i: int, j: int| 0 <= i < j < c.len() implies disjoint(
            #[trigger] c[i],
            #[trigger] c[j],
        ) by {
            if j < a.len() {
                assert(c[i] == a[i] && c[j] == a[j]);
            } else if i < a.len() {
                assert(c[i] == a[i]);
                assert(c[j] == p[j - a.len()]);
                assert(disjoint(a[i], last));
            } else {
                assert(c[i] == p[i - a.len()] && c[j] == p[j - a.len()]);
            }
        }
    }
}

/// Cutting a reserved range out of a list of regions leaves exactly the
/// addresses of the regions that lie outside the reserved range, and keeps
/// the regions pairwise disjoint when they were.
pub proof fn lemma_cut_union_minus_reserved(regions: Seq<FrameRange>, reserved: FrameRange)
    requires
        well_formed(reserved),
    ensures
        covered(cut(regions, reserved)) == covered(regions).difference(span(reserved)),
        pairwise_disjoint(regions) ==> pairwise_disjoint(cut(regions, reserved)),
{
    lemma_cut_covered(regions, reserved);
    if pairwise_disjoint(regions) {
        lemma_cut_pairwise_disjoint(regions, reserved);
    }
}

/// Every range that a cut leaves starts at or above the lowest start of the
/// regions; ranges stay frame aligned when the reserved range is.
pub proof fn lemma_cut_bounds(rs: Seq<FrameRange>, k: FrameRange, m: int)
    ensures
        well_formed(k) && all_start_at_least(rs, m) ==> all_start_at_least(cut(rs, k), m),
        all_frame_aligned(rs) && frame_aligned(k) ==> all_frame_aligned(cut(rs, k)),
    decreases rs.len(),
{
    if rs.len() > 0 {
        let init = rs.drop_last();
        lemma_cut_bounds(init, k, m);
        let a = cut(init, k);
        let p = region_pieces(rs.last(), k);
        let c = cut(rs, k);
        if well_formed(k) && all_start_at_least(rs, m) {
            lemma_pieces_within(rs.last(), k);
            assert(all_start_at_least(init, m)) by {
                assert forall|i: int| 0 <= i < init.len() implies (#[trigger] init[i]).start >= m by {
                    assert(init[i] == rs[i]);
                }
            }
            assert(rs.last() == rs[rs.len() - 1]);
            assert forall|i: int| 0 <= i < c.len() implies (#[trigger] c[i]).start >= m by {
                if i < a.len() {
                    assert(c[i] == a[i]);
                } else {
                    assert(c[i] == p[i - a.len()]);
                }
            }
        }
        if all_frame_aligned(rs) && frame_aligned(k) {
            assert(all_frame_aligned(init)) by {
                assert forall|i: int| 0 <= i < init.len() implies frame_aligned(#[trigger] init[i]) by {
                    assert(init[i] == rs[i]);
                }
            }
            assert(rs.last() == rs[rs.len() - 1]);
            assert forall|i: int| 0 <= i < c.len() implies frame_aligned(#[trigger] c[i]) by {
                if i < a.len() {
                    assert(c[i] == a[i]);
                } else {
                    assert(c[i] == p[i - a.len()]);
                }
            }
        }
    }
}

/// A reserved range that begins at address zero leaves only ranges that
/// start at or above its end.
pub proof fn lemma_cut_from_zero(rs: Seq<FrameRange>, k: FrameRange)
    requires
        k.start == 0,
    ensures
        all_start_at_least(cut(rs, k), k.end as int),
    decreases rs.len(),
{
    if rs.len() > 0 {
        let init = rs.drop_last();
        lemma_cut_from_zero(init, k);
        let a = cut(init, k);
        let p = region_pieces(rs.last(), k);
        let c = cut(rs, k);
        assert forall|i: int| 0 <= i < c.len() implies (#[trigger] c[i]).start >= k.end by {
            if i < a.len() {
                assert(c[i] == a[i]);
            } else {
                assert(c[i] == p[i - a.len()]);
            }
        }
    }
}


proof fn lemma_cut_small(s: Seq<FrameRange>, k: FrameRange)
    requires
        s.len() <= 2,
    ensures
        s.len() == 0 ==> cut(s, k) == Seq::<FrameRange>::empty(),
        s.len() == 1 ==> cut(s, k) == region_pieces(s[0], k),
        s.len() == 2 ==> cut(s, k) == region_pieces(s[0], k) + region_pieces(s[1], k),
{
    if s.len() == 1 {
        let e = s.drop_last();
        assert(e.len() == 0);
        assert(cut(e, k) == Seq::<FrameRange>::empty());
        assert(s.last() == s[0]);
        assert(cut(s, k) == cut(e, k) + region_pieces(s[0], k));
        assert(cut(s, k) =~= region_pieces(s[0], k));
    } else if s.len() == 2 {
        let t = s.drop_last();
        let e = t.drop_last();
        assert(e.len() == 0);
        assert(cut(e, k) == Seq::<FrameRange>::empty());
        assert(t.last() == s[0]);
        assert(s.last() == s[1]);
        assert(cut(t, k) == cut(e, k) + region_pieces(s[0], k));
        assert(cut(t, k) =~= region_pieces(s[0], k));
        assert(cut(s, k) == cut(t, k) + region_pieces(s[1], k));
    }
}

proof fn lemma_pieces_commute(r: FrameRange, a: FrameRange, b: FrameRange)
    requires
        well_formed(a),
        well_formed(b),
    ensures
        cut(region_pieces(r, a), b) == cut(region_pieces(r, b), a),
{
    let pa = region_pieces(r, a);
    let pb = region_pieces(r, b);
    lemma_cut_small(pa, b);
    lemma_cut_small(pb, a);
    assert(cut(pa, b) =~= cut(pb, a));
}

/// Cutting two well-formed reserved ranges out of a list of regions gives the
/// same list in either order; in particular for disjoint reserved ranges.
pub proof fn lemma_cut_commutes(regions: Seq<FrameRange>, a: FrameRange, b: FrameRange)
    requires
        well_formed(a),
        well_formed(b),
    ensures
        cut(cut(regions, a), b) == cut(cut(regions, b), a),
    decreases regions.len(),
{
    if regions.len() > 0 {
        let init = regions.drop_last();
        let last = regions.last();
        lemma_cut_commutes(init, a, b);
        lemma_cut_append(cut(init, a), region_pieces(last, a), b);
        lemma_cut_append(cut(init, b), region_pieces(last, b), a);
        lemma_pieces_commute(last, a, b);
    }
}

/// Cutting a region out of itself leaves nothing.
pub proof fn lemma_cut_self(r: FrameRange)
    requires
        well_formed(r),
    ensures
        cut(seq![r], r) == Seq::<FrameRange>::empty(),
{
    lemma_cut_small(seq![r], r);
    assert(cut(seq![r], r) =~= Seq::<FrameRange>::empty());
}

/// Cutting an empty range out of a list of regions removes no address; the
/// list itself is unchanged when its regions are non-empty and none of them
/// has the empty range strictly inside it.
pub proof fn lemma_cut_empty(regions: Seq<FrameRange>, k: FrameRange)
    requires
        k.start == k.end,
    ensures
        covered(cut(regions, k)) == covered(regions),
        (forall|i: int|
            0 <= i < regions.len() ==> (#[trigger] regions[i]).start < regions[i].end && !(
            regions[i].start < k.start && k.start < regions[i].end)) ==> cut(regions, k)
            == regions,
    decreases regions.len(),
{
    lemma_cut_covered(regions, k);
    assert_sets_equal!(covered(regions).difference(span(k)), covered(regions));
    if regions.len() > 0 {
        let init = regions.drop_last();
        lemma_cut_empty(init, k);
        if forall|i: int|
            0 <= i < regions.len() ==> (#[trigger] regions[i]).start < regions[i].end && !(
            regions[i].start < k.start && k.start < regions[i].end) {
            assert forall|i: int| 0 <= i < init.len() implies (#[trigger] init[i]).start
                < init[i].end && !(init[i].start < k.start && k.start < init[i].end) by {
                assert(init[i] == regions[i]);
            }
            let last = regions.last();
            assert(last == regions[regions.len() - 1]);
            assert(region_pieces(last, k) =~= seq![last]);
            assert(cut(regions, k) =~= regions);
        }
    }
}

} // verus!
