//! Flex layout: children laid out one after another along an axis, wrapped
//! into lines when allowed.
use crate::geometry::{Point, Rect};
use crate::layout::axis::{scross, smain, Axial, Axis};
use crate::layout::limits::{canon_size, Limits};
use crate::layout::model::{
    flex_children_laid_out, laid_out_in, lemma_laid_out_at_origin, lemma_laid_out_unique, moved_model, moved_rect, zero_model, origin, spec_min_size, align_offset, coord, corresponds, lemma_corresponds_moved, model_layout, sat_translate, to_coord, LayoutModel,
    spec_layout_id,
};
use crate::layout::size::{div_or_zero, rem_or_zero, sat_add, sat_sub, DeterministicLength, DivFactors, Length, Size, SubTake};
use crate::layout::tree::{effective_children, lemma_effective_children, spec_effective_children, ElId, LayoutArena, LayoutTree};
use crate::layout::{Align, FlexLayout};
use crate::layout::incremental::identical;
use vstd::prelude::*;

verus! {

/// A main-axis line of a flex.
#[derive(Clone, Copy)]
struct FlexLine {
    div_factors: DivFactors,
    /// Number of items in the line.
    items_count: u32,
    /// Main-axis space left.
    free_main: u32,
    /// The largest cross-axis size of an item in the line.
    max_cross: u32,
}

/// Where a child was put.
#[derive(Clone, Copy)]
struct FlexItem {
    /// Its line.
    line: usize,
    /// Whether it ends its line.
    last_in_line: bool,
}

/// How a line shares out its free space among its fluid items.
#[derive(Clone, Copy)]
struct ModelLine {
    base_divs: Size<u32>,
    line_div_remainder: Size<u32>,
    line_div_remainder_rem: Size<u32>,
    base_div_remainder_part: Size<u32>,
    used_main: u32,
    cross: u32,
}

/// `a + b` for division factors, saturating.
pub open spec fn sat_add16(a: u16, b: u16) -> u16 {
    if a + b > u16::MAX {
        u16::MAX
    } else {
        (a + b) as u16
    }
}

/// The division factors `a` and `b` together, saturating.
pub open spec fn add_divs(a: DivFactors, b: DivFactors) -> DivFactors {
    DivFactors { width: sat_add16(a.width, b.width), height: sat_add16(a.height, b.height) }
}

fn add_div_sat(a: DivFactors, b: DivFactors) -> (r: DivFactors)
    ensures
        r == add_divs(a, b),
{
    DivFactors::new(a.width.saturating_add(b.width), a.height.saturating_add(b.height))
}

fn max_of(a: u32, b: u32) -> (r: u32)
    ensures
        r >= a,
        r >= b,
        r == a || r == b,
{
    if a >= b {
        a
    } else {
        b
    }
}

fn div0(a: u32, b: u32) -> (r: u32)
    ensures
        r == (if b == 0 {
            0
        } else {
            a / b
        }),
{
    if b == 0 {
        0
    } else {
        a / b
    }
}

fn rem0(a: u32, b: u32) -> (r: u32)
    ensures
        r == (if b == 0 {
            0
        } else {
            a % b
        }),
{
    if b == 0 {
        0
    } else {
        a % b
    }
}

/// The fixed length `l` takes when one division is `base`: a shrinking
/// length takes one division, a fluid one its number of divisions
/// (saturating) and a fixed one its own length.
pub open spec fn fixed_share(l: Length, base: u32) -> u32 {
    let (div, shrink, fixed) = match l {
        Length::InfiniteWindow(d) => match d {
            DeterministicLength::Shrink => (0u16, true, 0u32),
            DeterministicLength::Div(div) => (div, false, 0u32),
            DeterministicLength::Fixed(f) => (0u16, false, f),
        },
        Length::Shrink => (0u16, true, 0u32),
        Length::Div(div) => (div, false, 0u32),
        Length::Fixed(f) => (0u16, false, f),
    };
    if shrink {
        base
    } else if div != 0 {
        if base * div > u32::MAX {
            u32::MAX
        } else {
            (base * div) as u32
        }
    } else {
        fixed
    }
}

/// The fixed length `l` takes when one division is `base`, saturating.
fn into_fixed_sat(l: Length, base: u32) -> (r: u32)
    ensures
        r == fixed_share(l, base),
{
    let (div, shrink, fixed) = match l {
        Length::InfiniteWindow(d) => match d {
            DeterministicLength::Shrink => (0u16, true, 0u32),
            DeterministicLength::Div(div) => (div, false, 0u32),
            DeterministicLength::Fixed(f) => (0u16, false, f),
        },
        Length::Shrink => (0u16, true, 0u32),
        Length::Div(div) => (div, false, 0u32),
        Length::Fixed(f) => (0u16, false, f),
    };
    if shrink {
        base
    } else if div != 0 {
        assert(base as u64 * div as u64 <= 0xffff_ffff * 0xffff) by (nonlinear_arith)
            requires
                base <= 0xffff_ffff,
                div <= 0xffff,
        ;
        let p = base as u64 * div as u64;
        if p > u32::MAX as u64 {
            u32::MAX
        } else {
            p as u32
        }
    } else {
        fixed
    }
}

/// The lengths of a child as the flex reads them (shrinking if it has no
/// layout).
pub open spec fn child_lengths(t: LayoutArena, c: ElId) -> Size<Length> {
    match t.data(c as int) {
        Some(d) => d.size,
        None => Size { width: Length::Shrink, height: Length::Shrink },
    }
}

/// A child whose length along `axis` is a share of the free space.
pub open spec fn is_fluid(t: LayoutArena, c: ElId, axis: Axis) -> bool {
    smain(&child_lengths(t, c), axis).spec_div_factor() != 0
}

/// The point with main component `main` and cross component `cross`.
pub open spec fn canon_point(axis: Axis, main: i32, cross: i32) -> Point {
    match axis {
        Axis::X => Point { x: main, y: cross },
        Axis::Y => Point { x: cross, y: main },
    }
}

/// The cross length of the single line of a flex of lengths `size`: its
/// fixed cross length, all the cross space there is for a fluid one, and
/// its tallest item (`max_cross`) otherwise.
pub open spec fn single_line_cross(size: Size<Length>, axis: Axis, max_cross: u32, max_possible_cross: u32) -> u32 {
    match scross(&size, axis) {
        Length::Div(_) => max_possible_cross,
        Length::Fixed(f) => f,
        _ => max_cross,
    }
}

/// How a line with main space `free` left, cross length `cross`, items of
/// division factors `divs` together and `count` items, in a flex of
/// `nlines` lines, shares out its space among its fluid items: the space of
/// one division, the even part of the remainder every item gets, and the
/// remainder left to hand out one unit per item in order. A flex of one
/// line gives its fluid items the whole cross length.
pub open spec fn line_shares(
    axis: Axis,
    free: u32,
    cross: u32,
    divs: DivFactors,
    count: u32,
    nlines: u32,
) -> (Size<u32>, Size<u32>, Size<u32>) {
    let dv = if nlines == 1 {
        match axis {
            Axis::X => DivFactors { width: divs.width, height: 1 },
            Axis::Y => DivFactors { width: 1, height: divs.height },
        }
    } else {
        divs
    };
    let space = canon_size(axis, free, cross);
    let base = Size {
        width: div_or_zero(space.width as int, dv.width as int) as u32,
        height: div_or_zero(space.height as int, dv.height as int) as u32,
    };
    let rem = Size {
        width: rem_or_zero(space.width as int, dv.width as int) as u32,
        height: rem_or_zero(space.height as int, dv.height as int) as u32,
    };
    let part = canon_size(
        axis,
        div_or_zero(smain(&rem, axis) as int, count as int) as u32,
        div_or_zero(scross(&rem, axis) as int, nlines as int) as u32,
    );
    let left = canon_size(
        axis,
        rem_or_zero(smain(&rem, axis) as int, count as int) as u32,
        rem_or_zero(scross(&rem, axis) as int, nlines as int) as u32,
    );
    (base, part, left)
}

/// The number of lines `n`, saturating at `u32::MAX`.
pub open spec fn lines_number(n: nat) -> u32 {
    if n > u32::MAX {
        u32::MAX
    } else {
        n as u32
    }
}

/// How many fluid items come before item `j` in its line.
pub open spec fn fluid_rank(t: LayoutArena, ids: Seq<ElId>, line_of: Seq<int>, axis: Axis, j: int) -> nat
    decreases j,
{
    if j <= 0 || line_of[j - 1] != line_of[j] {
        0
    } else {
        fluid_rank(t, ids, line_of, axis, j - 1) + if is_fluid(t, ids[j - 1], axis) {
            1nat
        } else {
            0nat
        }
    }
}

/// `r` after `k` units were handed out of each of its components, as long
/// as there were any.
pub open spec fn rem_after(r: Size<u32>, k: nat) -> Size<u32> {
    Size {
        width: if r.width >= k {
            (r.width - k) as u32
        } else {
            0u32
        },
        height: if r.height >= k {
            (r.height - k) as u32
        } else {
            0u32
        },
    }
}

/// The limits the fluid item `j` of a flex sized as `st`, with lines of
/// cross lengths `crosses`, is laid out in: at least its smallest size, and
/// at most its lengths in divisions of its line's share, plus the even part
/// of the remainder and one more unit while the remainder lasts.
#[verifier::opaque]
pub open spec fn fluid_item_limits(
    t: LayoutArena,
    ids: Seq<ElId>,
    st: FlexSizing,
    crosses: Seq<u32>,
    axis: Axis,
    j: int,
) -> Limits {
    let l = st.line_of[j];
    let sh = line_shares(
        axis,
        st.lines_free[l],
        crosses[l],
        st.lines_divs[l],
        st.lines_count[l],
        lines_number(st.lines_max.len()),
    );
    let k = fluid_rank(t, ids, st.line_of, axis, j);
    let lengths = child_lengths(t, ids[j]);
    let share = Size { width: fixed_share(lengths.width, sh.0.width), height: fixed_share(lengths.height, sh.0.height) };
    let taken = Size {
        width: if k < sh.2.width {
            1u32
        } else {
            0u32
        },
        height: if k < sh.2.height {
            1u32
        } else {
            0u32
        },
    };
    Limits { min: spec_min_size(t, ids[j]), max: share.spec_add(sh.1.spec_add(taken)) }
}

/// The main lengths of `ms` along `axis`.
pub open spec fn main_lens(ms: Seq<LayoutModel>, axis: Axis) -> Seq<u32> {
    ms.map_values(|m: LayoutModel| smain(&m.outer.size, axis))
}

/// How far alignment moves an item with free space `free` around it.
pub open spec fn align_shift(horizontal: Align, vertical: Align, free: Size<u32>) -> Point {
    Point { x: align_offset(horizontal, free.width), y: align_offset(vertical, free.height) }
}

/// The models of `ms` that stand for the children of `e` that the flex lays
/// out (`ms` holds one model per child of `e`).
pub open spec fn shown_models(t: LayoutArena, e: Seq<ElId>, ms: Seq<LayoutModel>) -> Seq<LayoutModel>
    decreases e.len(),
{
    if e.len() == 0 || ms.len() == 0 {
        Seq::empty()
    } else {
        shown_models(t, e.drop_last(), ms.drop_last()) + if takes_part(t, e.last()) {
            seq![ms.last()]
        } else {
            Seq::empty()
        }
    }
}

/// How tall (across the axis) an item counts for its line: a fluid one by
/// its smallest size, any other by its laid-out size.
pub open spec fn cross_measure(t: LayoutArena, c: ElId, m: LayoutModel, axis: Axis) -> u32 {
    if is_fluid(t, c, axis) {
        scross(&spec_min_size(t, c), axis)
    } else {
        scross(&m.outer.size, axis)
    }
}

/// The cross measures of the items `ids` laid out as `ms`.
pub open spec fn line_measures(t: LayoutArena, ids: Seq<ElId>, ms: Seq<LayoutModel>, axis: Axis) -> Seq<u32> {
    Seq::new(ms.len(), |j: int| cross_measure(t, ids[j], ms[j], axis))
}

/// `max(a, b)`.
pub open spec fn max_of_spec(a: u32, b: u32) -> u32 {
    if a >= b {
        a
    } else {
        b
    }
}

/// The main length item `c` needs on a line: its smallest length along
/// `axis` (its fixed length where it has one), plus the gap unless it is the
/// first item.
pub open spec fn item_need(t: LayoutArena, c: ElId, axis: Axis, gap_main: u32, first: bool) -> u32 {
    let need = smain(&child_lengths(t, c), axis).spec_max_fixed(smain(&spec_min_size(t, c), axis));
    if first {
        need
    } else {
        sat_add(need, gap_main)
    }
}

/// What the sizing pass knows after some items: the largest cross measure
/// of every line so far (the last one being filled), the main space left on
/// the last line, how many items it holds, the cross space left to the
/// flex, the line of every item, and for every line its main space left,
/// its number of items and the division factors of its items together.
pub struct FlexSizing {
    pub lines_max: Seq<u32>,
    pub free: u32,
    pub count: u32,
    pub cfc: u32,
    pub line_of: Seq<int>,
    pub lines_free: Seq<u32>,
    pub lines_count: Seq<u32>,
    pub lines_divs: Seq<DivFactors>,
}

/// The sizing pass over the first `k` items `ids` of main lengths `lens`
/// and cross measures `measures`: an item goes on a new line when the flex
/// wraps and the last line has less main space left than the item needs;
/// a fixed item takes its length (and every item but a line's first the
/// gap) from the line's space.
pub open spec fn flex_sizing(
    t: LayoutArena,
    ids: Seq<ElId>,
    lens: Seq<u32>,
    measures: Seq<u32>,
    f: FlexLayout,
    max_main: u32,
    max_cross: u32,
    k: int,
) -> FlexSizing
    decreases k,
{
    if k <= 0 {
        FlexSizing {
            lines_max: seq![0u32],
            free: max_main,
            count: 0,
            cfc: max_cross,
            line_of: Seq::empty(),
            lines_free: seq![max_main],
            lines_count: seq![0u32],
            lines_divs: seq![DivFactors { width: 0, height: 0 }],
        }
    } else {
        let st = flex_sizing(t, ids, lens, measures, f, max_main, max_cross, k - 1);
        let j = k - 1;
        let c = ids[j];
        let gap_main = smain(&f.gap, f.axis);
        let breaks = f.wrap && st.free < item_need(t, c, f.axis, gap_main, j == 0);
        sizing_step(
            st,
            breaks,
            is_fluid(t, c, f.axis),
            lens[j],
            measures[j],
            child_divs(t, c),
            gap_main,
            max_main,
        )
    }
}

/// The division factors of the lengths of child `c`.
pub open spec fn child_divs(t: LayoutArena, c: ElId) -> DivFactors {
    let l = child_lengths(t, c);
    DivFactors { width: l.width.spec_div_factor(), height: l.height.spec_div_factor() }
}

/// One step of the sizing pass: the next item, of main length `len`, cross
/// measure `measure` and division factors `divs`, goes on a new line
/// (`breaks`) or on the last one.
pub open spec fn sizing_step(
    st: FlexSizing,
    breaks: bool,
    fluid: bool,
    len: u32,
    measure: u32,
    divs: DivFactors,
    gap_main: u32,
    max_main: u32,
) -> FlexSizing {
    let lm = if breaks {
        st.lines_max.push(0u32)
    } else {
        st.lines_max
    };
    let free = if breaks {
        max_main
    } else if st.count != 0 {
        sat_sub(st.free, gap_main)
    } else {
        st.free
    };
    let count = if breaks {
        0u32
    } else {
        st.count
    };
    let free1 = if fluid {
        free
    } else {
        sat_sub(free, len)
    };
    let lf = if breaks {
        st.lines_free.push(max_main)
    } else {
        st.lines_free
    };
    let lc = if breaks {
        st.lines_count.push(0u32)
    } else {
        st.lines_count
    };
    let ld = if breaks {
        st.lines_divs.push(DivFactors { width: 0, height: 0 })
    } else {
        st.lines_divs
    };
    FlexSizing {
        lines_max: lm.update(lm.len() - 1, max_of_spec(lm.last(), measure)),
        free: free1,
        count: sat_add(count, 1),
        cfc: if breaks {
            sat_sub(st.cfc, st.lines_max.last())
        } else {
            st.cfc
        },
        line_of: st.line_of.push(lm.len() - 1),
        lines_free: lf.update(lf.len() - 1, free1),
        lines_count: lc.update(lc.len() - 1, sat_add(count, 1)),
        lines_divs: ld.update(ld.len() - 1, add_divs(ld.last(), divs)),
    }
}

/// The cross length of line `l` of the lines `lines_max`: the single line
/// of a flex takes its cross length as `single_line_cross` says; with more
/// lines, each takes its tallest item plus, in a fluid flex, an even share
/// of the cross space `cfc` left (the first lines one more for the rest).
pub open spec fn line_cross(size: Size<Length>, axis: Axis, lines_max: Seq<u32>, cfc: u32, max_cross: u32, l: int) -> u32 {
    let nl = lines_max.len();
    let lc: u32 = if nl > u32::MAX {
        u32::MAX
    } else {
        nl as u32
    };
    if lc == 1 {
        single_line_cross(size, axis, lines_max[0], max_cross)
    } else {
        let extra = if scross(&size, axis).spec_is_grow() {
            sat_add((cfc / lc) as u32, if l < cfc % lc {
                1u32
            } else {
                0u32
            })
        } else {
            0u32
        };
        sat_add(lines_max[l], extra)
    }
}

/// The limits a fixed item `j` is laid out in: all the main space left on
/// its line and all the cross space left to the flex.
pub open spec fn fixed_item_limits(
    t: LayoutArena,
    ids: Seq<ElId>,
    lens: Seq<u32>,
    measures: Seq<u32>,
    f: FlexLayout,
    max_main: u32,
    max_cross: u32,
    j: int,
) -> Limits {
    let st = flex_sizing(t, ids, lens, measures, f, max_main, max_cross, j);
    let gap_main = smain(&f.gap, f.axis);
    let breaks = f.wrap && st.free < item_need(t, ids[j], f.axis, gap_main, j == 0);
    let free = if breaks {
        max_main
    } else if st.count != 0 {
        sat_sub(st.free, gap_main)
    } else {
        st.free
    };
    let cfc = if breaks {
        sat_sub(st.cfc, st.lines_max.last())
    } else {
        st.cfc
    };
    Limits { min: Size::<u32>::zero_spec(), max: canon_size(f.axis, free, cfc) }
}

/// Item `j` is the last of its line.
pub open spec fn is_last_in_line(line_of: Seq<int>, j: int) -> bool {
    j + 1 == line_of.len() || line_of[j + 1] != line_of[j]
}

/// Where item `j` starts along the main axis: lines start at 0, and an item
/// starts where the one before it in its line ended, plus the gap.
pub open spec fn item_start(line_of: Seq<int>, lens: Seq<u32>, gap: u32, j: int) -> u32
    decreases j,
{
    if j <= 0 || line_of[j - 1] != line_of[j] {
        0
    } else {
        sat_add(sat_add(item_start(line_of, lens, gap, j - 1), lens[j - 1]), gap)
    }
}

/// Where the line of item `j` starts across the axis: after the lines of the
/// items before it, each `gap` apart from the next line.
pub open spec fn item_cross_start(line_of: Seq<int>, crosses: Seq<u32>, gap: u32, j: int) -> u32
    decreases j,
{
    if j <= 0 {
        0
    } else {
        let p = item_cross_start(line_of, crosses, gap, j - 1);
        if is_last_in_line(line_of, j - 1) {
            let l = line_of[j - 1];
            sat_add(p, sat_add(crosses[l], if l + 1 < crosses.len() {
                gap
            } else {
                0
            }))
        } else {
            p
        }
    }
}

/// Where the line of item `j` ends along the main axis.
pub open spec fn line_end_from(line_of: Seq<int>, lens: Seq<u32>, gap: u32, j: int) -> u32
    decreases line_of.len() - j,
{
    if j < 0 || j >= line_of.len() || is_last_in_line(line_of, j) {
        sat_add(item_start(line_of, lens, gap, j), lens[j])
    } else {
        line_end_from(line_of, lens, gap, j + 1)
    }
}

/// The longest of the lines of the first `k` items.
pub open spec fn longest_line_upto(line_of: Seq<int>, lens: Seq<u32>, gap: u32, k: int) -> u32
    decreases k,
{
    if k <= 0 {
        0
    } else {
        let p = longest_line_upto(line_of, lens, gap, k - 1);
        if is_last_in_line(line_of, k - 1) {
            max_of_spec(p, sat_add(item_start(line_of, lens, gap, k - 1), lens[k - 1]))
        } else {
            p
        }
    }
}

/// The sizing pass reads the main length of fixed items only, and the cross
/// measure of every item.
proof fn lemma_sizing_agree(
    t: LayoutArena,
    ids: Seq<ElId>,
    lens: Seq<u32>,
    measures: Seq<u32>,
    lens2: Seq<u32>,
    measures2: Seq<u32>,
    f: FlexLayout,
    max_main: u32,
    max_cross: u32,
    k: int,
)
    requires
        forall|j: int| 0 <= j < k ==> #[trigger] measures[j] == measures2[j],
        forall|j: int| 0 <= j < k && !is_fluid(t, ids[j], f.axis) ==> #[trigger] lens[j] == lens2[j],
    ensures
        flex_sizing(t, ids, lens, measures, f, max_main, max_cross, k) == flex_sizing(
            t,
            ids,
            lens2,
            measures2,
            f,
            max_main,
            max_cross,
            k,
        ),
    decreases k,
{
    if k > 0 {
        lemma_sizing_agree(t, ids, lens, measures, lens2, measures2, f, max_main, max_cross, k - 1);
        assert(measures[k - 1] == measures2[k - 1]);
        if !is_fluid(t, ids[k - 1], f.axis) {
            assert(lens[k - 1] == lens2[k - 1]);
        }
    }
}

/// True for a child the flex lays out: one with a layout that is shown.
pub open spec fn takes_part(t: LayoutArena, c: ElId) -> bool {
    t.data(c as int) is Some && t.data(c as int)->Some_0.shown
}

/// The children of `s` the flex lays out, in order.
pub open spec fn shown_of(t: LayoutArena, s: Seq<ElId>) -> Seq<ElId>
    decreases s.len(),
{
    if s.len() == 0 {
        Seq::empty()
    } else {
        shown_of(t, s.drop_last()) + if takes_part(t, s.last()) {
            seq![s.last()]
        } else {
            Seq::empty()
        }
    }
}

/// The children a prefix of `s` lays out are a prefix of those `s` lays
/// out.
proof fn lemma_shown_prefix(t: LayoutArena, s: Seq<ElId>, k: int)
    requires
        0 <= k <= s.len(),
    ensures
        shown_of(t, s.take(k)).len() <= shown_of(t, s).len(),
        shown_of(t, s.take(k)) == shown_of(t, s).take(shown_of(t, s.take(k)).len() as int),
    decreases s.len(),
{
    if k == s.len() {
        assert(s.take(k) == s);
    } else {
        lemma_shown_prefix(t, s.drop_last(), k);
        assert(s.drop_last().take(k) == s.take(k));
    }
}

/// Every child a list lays out is one of the list's.
proof fn lemma_shown_members(t: LayoutArena, s: Seq<ElId>)
    ensures
        forall|j: int| 0 <= j < shown_of(t, s).len() ==> s.contains(#[trigger] shown_of(t, s)[j]),
        forall|j: int| 0 <= j < shown_of(t, s).len() ==> takes_part(t, #[trigger] shown_of(t, s)[j]),
    decreases s.len(),
{
    if s.len() > 0 {
        lemma_shown_members(t, s.drop_last());
        let a = shown_of(t, s.drop_last());
        assert forall|j: int| 0 <= j < shown_of(t, s).len() implies s.contains(#[trigger] shown_of(t, s)[j])
            && takes_part(t, shown_of(t, s)[j]) by {
            if j < a.len() {
                assert(shown_of(t, s)[j] == a[j]);
                assert(s.drop_last().contains(a[j]));
                let w = choose|w: int| 0 <= w < s.drop_last().len() && s.drop_last()[w] == a[j];
                assert(s[w] == a[j]);
            } else {
                assert(shown_of(t, s)[j] == s.last());
                assert(s[s.len() - 1] == s.last());
            }
        }
    }
}

/// The sizing pass's lines, items and cross space left stand for `st`
/// after `i` of `m` items.
#[verifier::opaque]
spec fn sizing_matches(lines: Seq<FlexLine>, items: Seq<FlexItem>, cfc: u32, st: FlexSizing, i: int, m: int) -> bool {
    &&& st.lines_max.len() == lines.len()
    &&& st.lines_free.len() == lines.len()
    &&& st.lines_count.len() == lines.len()
    &&& st.lines_divs.len() == lines.len()
    &&& forall|l: int|
        0 <= l < lines.len() ==> (#[trigger] lines[l]).max_cross == st.lines_max[l] && lines[l].free_main
            == st.lines_free[l] && lines[l].items_count == st.lines_count[l] && lines[l].div_factors == st.lines_divs[l]
    &&& lines.last().free_main == st.free
    &&& lines.last().items_count == st.count
    &&& cfc == st.cfc
    &&& st.line_of.len() == i
    &&& forall|j: int| 0 <= j < i ==> (#[trigger] items[j]).line == st.line_of[j]
    &&& forall|j: int| 0 <= j && j + 1 < i ==> (#[trigger] items[j]).last_in_line == (st.line_of[j + 1] != st.line_of[j])
    &&& i > 0 ==> items[i - 1].last_in_line == (i == m)
    &&& i > 0 ==> st.line_of[i - 1] == st.lines_max.len() - 1
}

/// What the sizing pass's last line and cross space stand for.
proof fn lemma_sizing_last(lines: Seq<FlexLine>, items: Seq<FlexItem>, cfc: u32, st: FlexSizing, i: int, m: int)
    requires
        sizing_matches(lines, items, cfc, st, i, m),
        lines.len() >= 1,
    ensures
        lines.last().free_main == st.free,
        lines.last().items_count == st.count,
        lines.last().max_cross == st.lines_max.last(),
        cfc == st.cfc,
        st.lines_max.len() == lines.len(),
        st.line_of.len() == i,
        forall|j: int| 0 <= j < i ==> (#[trigger] items[j]).line == st.line_of[j],
        forall|l: int| 0 <= l < lines.len() ==> (#[trigger] lines[l]).max_cross == st.lines_max[l],
        st.lines_free.len() == lines.len(),
        st.lines_count.len() == lines.len(),
        st.lines_divs.len() == lines.len(),
        forall|l: int|
            0 <= l < lines.len() ==> (#[trigger] lines[l]).free_main == st.lines_free[l] && lines[l].items_count
                == st.lines_count[l] && lines[l].div_factors == st.lines_divs[l],
        i == m ==> forall|j: int| 0 <= j < i ==> (#[trigger] items[j]).last_in_line == is_last_in_line(st.line_of, j),
{
    reveal(sizing_matches);
}

/// One item of the sizing pass keeps its state standing for the spec.
proof fn lemma_sizing_step(
    lines0: Seq<FlexLine>,
    items0: Seq<FlexItem>,
    cfc0: u32,
    st: FlexSizing,
    mid: Seq<FlexLine>,
    line_final: FlexLine,
    lines1: Seq<FlexLine>,
    items1: Seq<FlexItem>,
    cfc1: u32,
    breaks: bool,
    fluid: bool,
    len: u32,
    measure: u32,
    divs: DivFactors,
    gap_main: u32,
    max_main: u32,
    i: int,
    m: int,
)
    requires
        sizing_matches(lines0, items0, cfc0, st, i, m),
        lines0.len() >= 1,
        items0.len() == i,
        0 <= i < m,
        breaks ==> mid.len() == lines0.len() + 1 && (forall|l: int| 0 <= l < lines0.len() ==> #[trigger] mid[l] == lines0[l])
            && mid.last().free_main == max_main && mid.last().items_count == 0 && mid.last().max_cross == 0
            && mid.last().div_factors == (DivFactors { width: 0, height: 0 }),
        !breaks ==> mid.len() == lines0.len() && (forall|l: int| 0 <= l < lines0.len() - 1 ==> #[trigger] mid[l] == lines0[l])
            && mid.last().max_cross == lines0.last().max_cross && mid.last().items_count == lines0.last().items_count
            && mid.last().div_factors == lines0.last().div_factors
            && mid.last().free_main == (if lines0.last().items_count != 0 {
            sat_sub(lines0.last().free_main, gap_main)
        } else {
            lines0.last().free_main
        }),
        line_final.max_cross == max_of_spec(mid.last().max_cross, measure),
        line_final.items_count == sat_add(mid.last().items_count, 1),
        line_final.div_factors == add_divs(mid.last().div_factors, divs),
        line_final.free_main == (if fluid {
            mid.last().free_main
        } else {
            sat_sub(mid.last().free_main, len)
        }),
        lines1 == mid.update(mid.len() - 1, line_final),
        cfc1 == (if breaks {
            sat_sub(cfc0, lines0.last().max_cross)
        } else {
            cfc0
        }),
        items1.len() == i + 1,
        forall|j: int| 0 <= j && j + 1 < i ==> #[trigger] items1[j] == items0[j],
        i > 0 ==> items1[i - 1].line == items0[i - 1].line && items1[i - 1].last_in_line == (breaks
            || items0[i - 1].last_in_line),
        items1[i].line == mid.len() - 1,
        items1[i].last_in_line == (i + 1 == m),
    ensures
        sizing_matches(
            lines1,
            items1,
            cfc1,
            sizing_step(st, breaks, fluid, len, measure, divs, gap_main, max_main),
            i + 1,
            m,
        ),
{
    reveal(sizing_matches);
    let st1 = sizing_step(st, breaks, fluid, len, measure, divs, gap_main, max_main);
    assert forall|l: int| 0 <= l < lines1.len() implies (#[trigger] lines1[l]).max_cross == st1.lines_max[l]
        && lines1[l].free_main == st1.lines_free[l] && lines1[l].items_count == st1.lines_count[l]
        && lines1[l].div_factors == st1.lines_divs[l] by {
        if l < lines1.len() - 1 {
            assert(lines1[l] == mid[l]);
        }
    }
    assert forall|j: int| 0 <= j < i + 1 implies (#[trigger] items1[j]).line == st1.line_of[j] by {
        if j + 1 < i {
            assert(items1[j] == items0[j]);
        }
    }
    assert forall|j: int| 0 <= j && j + 1 < i + 1 implies (#[trigger] items1[j]).last_in_line == (st1.line_of[j + 1]
        != st1.line_of[j]) by {
        if j + 1 < i {
            assert(items1[j] == items0[j]);
        }
    }
}

/// Items go on the lines in order, each on the line of the item before it
/// or on the next one.
proof fn lemma_sizing_lines(
    t: LayoutArena,
    ids: Seq<ElId>,
    lens: Seq<u32>,
    measures: Seq<u32>,
    f: FlexLayout,
    max_main: u32,
    max_cross: u32,
    k: int,
)
    requires
        k >= 0,
    ensures
        ({
            let st = flex_sizing(t, ids, lens, measures, f, max_main, max_cross, k);
            &&& st.line_of.len() == k
            &&& st.lines_max.len() >= 1
            &&& forall|j: int| 0 <= j < k ==> 0 <= #[trigger] st.line_of[j] < st.lines_max.len()
            &&& lines_ordered(st.line_of, st.lines_max.len() as int)
            &&& k > 0 ==> st.line_of[k - 1] == st.lines_max.len() - 1
            &&& !f.wrap ==> st.lines_max.len() == 1
        }),
    decreases k,
{
    if k > 0 {
        lemma_sizing_lines(t, ids, lens, measures, f, max_main, max_cross, k - 1);
        let st0 = flex_sizing(t, ids, lens, measures, f, max_main, max_cross, k - 1);
        let st = flex_sizing(t, ids, lens, measures, f, max_main, max_cross, k);
        assert forall|j: int| 0 <= j < k - 1 implies st.line_of[j] == st0.line_of[j] by {}
    }
}

/// A flex that does not wrap puts all its children on its one line.
pub proof fn lemma_no_wrap_one_line(
    t: LayoutArena,
    ids: Seq<ElId>,
    lens: Seq<u32>,
    measures: Seq<u32>,
    f: FlexLayout,
    max_main: u32,
    max_cross: u32,
    k: int,
)
    requires
        !f.wrap,
        k >= 0,
    ensures
        flex_sizing(t, ids, lens, measures, f, max_main, max_cross, k).lines_max.len() == 1,
        forall|j: int|
            0 <= j < k ==> #[trigger] flex_sizing(t, ids, lens, measures, f, max_main, max_cross, k).line_of[j] == 0,
{
    lemma_sizing_lines(t, ids, lens, measures, f, max_main, max_cross, k);
}

/// Where an item starts depends only on the items before it.
proof fn lemma_item_start_prefix(line_of: Seq<int>, lens: Seq<u32>, more: Seq<u32>, gap: u32, j: int)
    requires
        0 <= j <= lens.len(),
        lens.len() <= more.len(),
        forall|k: int| 0 <= k < lens.len() ==> lens[k] == more[k],
    ensures
        item_start(line_of, more, gap, j) == item_start(line_of, lens, gap, j),
    decreases j,
{
    if j > 0 {
        lemma_item_start_prefix(line_of, lens, more, gap, j - 1);
    }
}

/// The longest line so far depends only on the items so far.
proof fn lemma_longest_prefix(line_of: Seq<int>, lens: Seq<u32>, more: Seq<u32>, gap: u32, k: int)
    requires
        0 <= k <= lens.len(),
        lens.len() <= more.len(),
        forall|j: int| 0 <= j < lens.len() ==> lens[j] == more[j],
    ensures
        longest_line_upto(line_of, more, gap, k) == longest_line_upto(line_of, lens, gap, k),
    decreases k,
{
    if k > 0 {
        lemma_longest_prefix(line_of, lens, more, gap, k - 1);
        lemma_item_start_prefix(line_of, lens, more, gap, k - 1);
    }
}

/// The placement pass's lines, items placed so far, next position, longest
/// line and cross length used stand for the first `i` items.
spec fn placement_holds(
    model_lines: Seq<ModelLine>,
    placed: Seq<LayoutModel>,
    next_main: u32,
    next_cross: u32,
    longest: u32,
    used_cross: u32,
    line_of: Seq<int>,
    crosses: Seq<u32>,
    axis: Axis,
    gap_main: u32,
    gap_cross: u32,
    i: int,
) -> bool {
    let lens = main_lens(placed, axis);
    &&& placed.len() == i
    &&& model_lines.len() == crosses.len()
    &&& forall|l: int| 0 <= l < crosses.len() ==> (#[trigger] model_lines[l]).cross == crosses[l]
    &&& i < line_of.len() ==> model_lines[line_of[i]].used_main == item_start(line_of, lens, gap_main, i)
        && next_main == item_start(line_of, lens, gap_main, i)
    &&& forall|l: int|
        0 <= l < crosses.len() && (i == 0 || l > line_of[i - 1]) ==> (#[trigger] model_lines[l]).used_main == 0
    &&& forall|j: int|
        0 <= j < i && #[trigger] is_last_in_line(line_of, j) ==> model_lines[line_of[j]].used_main == sat_add(
            item_start(line_of, lens, gap_main, j),
            lens[j],
        )
    &&& next_cross == item_cross_start(line_of, crosses, gap_cross, i)
    &&& used_cross == item_cross_start(line_of, crosses, gap_cross, i)
    &&& longest == longest_line_upto(line_of, lens, gap_main, i)
    &&& forall|j: int|
        0 <= j < i ==> (#[trigger] placed[j]).outer.top_left == canon_point(
            axis,
            coord(item_start(line_of, lens, gap_main, j)),
            coord(item_cross_start(line_of, crosses, gap_cross, j)),
        )
}

/// `placement_holds`, hidden from the proofs that do not look inside.
#[verifier::opaque]
spec fn placement_matches(
    model_lines: Seq<ModelLine>,
    placed: Seq<LayoutModel>,
    next_main: u32,
    next_cross: u32,
    longest: u32,
    used_cross: u32,
    line_of: Seq<int>,
    crosses: Seq<u32>,
    axis: Axis,
    gap_main: u32,
    gap_cross: u32,
    i: int,
) -> bool {
    placement_holds(model_lines, placed, next_main, next_cross, longest, used_cross, line_of, crosses, axis, gap_main, gap_cross, i)
}

/// The line facts the placement pass relies on.
pub open spec fn lines_ordered(line_of: Seq<int>, nl: int) -> bool {
    &&& forall|j: int| 0 <= j < line_of.len() ==> 0 <= #[trigger] line_of[j] < nl
    &&& forall|j: int, k: int|
        #![trigger line_of[j], line_of[k]]
        0 <= j <= k < line_of.len() ==> line_of[j] <= line_of[k] && line_of[k] <= line_of[j] + (k - j)
}

/// Placing one item keeps the placement state standing for the spec.
#[verifier::rlimit(100)]
#[verifier::spinoff_prover]
proof fn lemma_place_step(
    ml0: Seq<ModelLine>,
    placed0: Seq<LayoutModel>,
    nm0: u32,
    nc0: u32,
    lg0: u32,
    uc0: u32,
    ml1: Seq<ModelLine>,
    placed1: Seq<LayoutModel>,
    nm1: u32,
    nc1: u32,
    lg1: u32,
    uc1: u32,
    child: LayoutModel,
    line_of: Seq<int>,
    crosses: Seq<u32>,
    axis: Axis,
    gap_main: u32,
    gap_cross: u32,
    i: int,
)
    requires
        placement_matches(ml0, placed0, nm0, nc0, lg0, uc0, line_of, crosses, axis, gap_main, gap_cross, i),
        0 <= i < line_of.len(),
        lines_ordered(line_of, crosses.len() as int),
        placed1 == placed0.push(child),
        child.outer.top_left == canon_point(axis, coord(nm0), coord(nc0)),
        ml1.len() == ml0.len(),
        forall|l: int| 0 <= l < ml0.len() && l != line_of[i] ==> #[trigger] ml1[l] == ml0[l],
        ml1[line_of[i]].cross == ml0[line_of[i]].cross,
        ({
            let l = line_of[i];
            let used = sat_add(ml0[l].used_main, smain(&child.outer.size, axis));
            if is_last_in_line(line_of, i) {
                &&& ml1[l].used_main == used
                &&& lg1 == max_of_spec(lg0, used)
                &&& uc1 == sat_add(uc0, sat_add(ml0[l].cross, if l + 1 < crosses.len() {
                    gap_cross
                } else {
                    0
                }))
                &&& nc1 == uc1
                &&& nm1 == 0
            } else {
                &&& ml1[l].used_main == sat_add(used, gap_main)
                &&& nm1 == ml1[l].used_main
                &&& nc1 == nc0
                &&& lg1 == lg0
                &&& uc1 == uc0
            }
        }),
    ensures
        placement_matches(ml1, placed1, nm1, nc1, lg1, uc1, line_of, crosses, axis, gap_main, gap_cross, i + 1),
{
    assert(placement_holds(ml0, placed0, nm0, nc0, lg0, uc0, line_of, crosses, axis, gap_main, gap_cross, i)) by {
        reveal(placement_matches);
    }
    let lens0 = main_lens(placed0, axis);
    let lens1 = main_lens(placed1, axis);
    assert(lens1 =~= lens0.push(smain(&child.outer.size, axis)));
    assert forall|j: int| 0 <= j <= i implies item_start(line_of, lens1, gap_main, j) == item_start(
        line_of,
        lens0,
        gap_main,
        j,
    ) by {
        lemma_item_start_prefix(line_of, lens0, lens1, gap_main, j);
    }
    lemma_longest_prefix(line_of, lens0, lens1, gap_main, i);
    let l = line_of[i];
    assert(ml0[l].used_main == item_start(line_of, lens0, gap_main, i));
    assert forall|j: int|
        0 <= j < i + 1 && #[trigger] is_last_in_line(line_of, j) implies ml1[line_of[j]].used_main == sat_add(
        item_start(line_of, lens1, gap_main, j),
        lens1[j],
    ) by {
        if j < i {
            assert(lens1[j] == lens0[j]);
            assert(line_of[j] <= line_of[i - 1]);
        }
    }
    assert forall|jj: int| 0 <= jj < i + 1 implies (#[trigger] placed1[jj]).outer.top_left == canon_point(
        axis,
        coord(item_start(line_of, lens1, gap_main, jj)),
        coord(item_cross_start(line_of, crosses, gap_cross, jj)),
    ) by {
        if jj < i {
            assert(placed1[jj] == placed0[jj]);
        }
    }
    if i + 1 < line_of.len() {
        if is_last_in_line(line_of, i) {
            assert(line_of[i + 1] == l + 1);
        } else {
            assert(line_of[i + 1] == l);
        }
        assert(ml1[line_of[i + 1]].used_main == item_start(line_of, lens1, gap_main, i + 1));
        assert(nm1 == item_start(line_of, lens1, gap_main, i + 1));
    }
    assert(placed1.len() == i + 1);
    assert forall|ll: int| 0 <= ll < crosses.len() implies (#[trigger] ml1[ll]).cross == crosses[ll] by {
        if ll != l {
            assert(ml1[ll] == ml0[ll]);
        }
    }
    assert forall|ll: int| 0 <= ll < crosses.len() && ll > line_of[i] implies (#[trigger] ml1[ll]).used_main == 0 by {
        assert(ml1[ll] == ml0[ll]);
        if i > 0 {
            assert(line_of[i - 1] <= line_of[i]);
        }
    }
    assert(nc1 == item_cross_start(line_of, crosses, gap_cross, i + 1));
    assert(uc1 == item_cross_start(line_of, crosses, gap_cross, i + 1));
    assert(lg1 == longest_line_upto(line_of, lens1, gap_main, i + 1));
    assert(placement_holds(ml1, placed1, nm1, nc1, lg1, uc1, line_of, crosses, axis, gap_main, gap_cross, i + 1));
    reveal(placement_matches);
}

/// How a flex lays out its children in lines: `r` is the layout of the flex
/// `id` with the layout `f` and lengths `size` in `parent_limits`. The
/// sizing pass (`flex_sizing`) puts every child on a line; every child
/// starts where the one before it in its line ended plus the gap, and every
/// line where the lines before it ended plus the cross gap; the content is
/// as long as the longest line and as tall as the lines together, and the
/// inner size is that content resolved in the limits; each child is then
/// moved by the alignment within its line.
pub open spec fn flex_laid_out(
    t: LayoutArena,
    id: ElId,
    parent_limits: Limits,
    f: FlexLayout,
    size: Size<Length>,
    r: LayoutModel,
) -> bool {
    let e = spec_effective_children(t, id);
    let s = shown_models(t, e, r.children@);
    let ids = shown_of(t, e);
    let axis = f.axis;
    let gap_main = smain(&f.gap, axis);
    let gap_cross = scross(&f.gap, axis);
    let lens = main_lens(s, axis);
    let limits = parent_limits.spec_self_limits(size).spec_shrink(f.block_model.spec_full_padding().spec_size());
    let max_main = smain(&limits.max, axis);
    let max_cross = scross(&limits.max, axis);
    let st = flex_sizing(t, ids, lens, line_measures(t, ids, s, axis), f, max_main, max_cross, s.len() as int);
    let cfc = sat_sub(st.cfc, st.lines_max.last());
    let crosses = Seq::new(st.lines_max.len(), |l: int| line_cross(size, axis, st.lines_max, cfc, max_cross, l));
    let line_of = st.line_of;
    &&& s.len() == ids.len()
    &&& r.inner.size == limits.spec_resolve_size(
        size,
        canon_size(
            axis,
            longest_line_upto(line_of, lens, gap_main, s.len() as int),
            item_cross_start(line_of, crosses, gap_cross, s.len() as int),
        ),
        None,
    )
    &&& forall|j: int|
        0 <= j < s.len() ==> (#[trigger] s[j]).outer.top_left == sat_translate(
            canon_point(
                axis,
                coord(item_start(line_of, lens, gap_main, j)),
                coord(item_cross_start(line_of, crosses, gap_cross, j)),
            ),
            align_shift(
                f.horizontal_align,
                f.vertical_align,
                canon_size(axis, smain(&r.inner.size, axis), crosses[line_of[j]]).spec_sub(
                    canon_size(axis, line_end_from(line_of, lens, gap_main, j), scross(&s[j].outer.size, axis)),
                ),
            ),
        )
}

/// `a` is `m` moved by `by`: the same identity, children and retained
/// inputs, both rectangles moved.
spec fn shifted(m: LayoutModel, a: LayoutModel, by: Point) -> bool {
    &&& a.id == m.id
    &&& a.children@ == m.children@
    &&& a.retained == m.retained
    &&& a.outer == moved_rect(m.outer, by)
    &&& a.inner == moved_rect(m.inner, by)
}

/// Placing a model and then shifting it moves it by both amounts.
proof fn lemma_place_then_shift(c0: LayoutModel, p: LayoutModel, a: LayoutModel, pos: Point, by: Point)
    requires
        moved_model(c0, p, pos, origin()),
        shifted(p, a, by),
    ensures
        moved_model(c0, a, pos, by),
{
    assert(moved_rect(moved_rect(c0.outer, pos), origin()) == moved_rect(c0.outer, pos));
    assert(moved_rect(moved_rect(c0.inner, pos), origin()) == moved_rect(c0.inner, pos));
}

/// What the flex pass knows of its children once they are placed: each
/// item `j` was laid out as `c0s[j]` in `lims[j]` (a fixed one in the limits
/// the sizing pass gave it from the lengths `lens_g` and cross measures
/// `measures_g` it saw) and then moved to its place.
spec fn flex_children_placed(
    t: LayoutArena,
    id: ElId,
    parent_limits: Limits,
    f: FlexLayout,
    size: Size<Length>,
    r: LayoutModel,
    c0s: Seq<LayoutModel>,
    lims: Seq<Limits>,
    lens_g: Seq<u32>,
    measures_g: Seq<u32>,
) -> bool {
    let e = spec_effective_children(t, id);
    let s = shown_models(t, e, r.children@);
    let ids = shown_of(t, e);
    let axis = f.axis;
    let gap_main = smain(&f.gap, axis);
    let gap_cross = scross(&f.gap, axis);
    let lens = main_lens(s, axis);
    let measures = line_measures(t, ids, s, axis);
    let limits = parent_limits.spec_self_limits(size).spec_shrink(f.block_model.spec_full_padding().spec_size());
    let max_main = smain(&limits.max, axis);
    let max_cross = scross(&limits.max, axis);
    let st = flex_sizing(t, ids, lens, measures, f, max_main, max_cross, s.len() as int);
    let cfc = sat_sub(st.cfc, st.lines_max.last());
    let crosses = Seq::new(st.lines_max.len(), |l: int| line_cross(size, axis, st.lines_max, cfc, max_cross, l));
    let line_of = st.line_of;
    &&& r.children@.len() == e.len()
    &&& forall|k: int| 0 <= k < e.len() && !takes_part(t, e[k]) ==> zero_model(#[trigger] r.children@[k], e[k])
    &&& s.len() == ids.len()
    &&& c0s.len() == s.len()
    &&& lims.len() == s.len()
    &&& lens_g.len() == s.len()
    &&& measures_g.len() == s.len()
    &&& forall|j: int| 0 <= j < s.len() ==> #[trigger] measures_g[j] == measures[j]
    &&& forall|j: int| 0 <= j < s.len() && !is_fluid(t, ids[j], axis) ==> #[trigger] lens_g[j] == lens[j]
    &&& forall|j: int| 0 <= j < s.len() ==> laid_out_in(t, ids[j], #[trigger] lims[j], size, c0s[j])
    &&& forall|j: int|
        0 <= j < s.len() && is_fluid(t, ids[j], axis) ==> #[trigger] lims[j] == fluid_item_limits(
            t,
            ids,
            st,
            crosses,
            axis,
            j,
        )
    &&& forall|j: int|
        0 <= j < s.len() && !is_fluid(t, ids[j], axis) ==> #[trigger] lims[j] == fixed_item_limits(
            t,
            ids,
            lens_g,
            measures_g,
            f,
            max_main,
            max_cross,
            j,
        )
    &&& forall|j: int|
        0 <= j < s.len() ==> moved_model(
            #[trigger] c0s[j],
            s[j],
            canon_point(
                axis,
                coord(item_start(line_of, lens, gap_main, j)),
                coord(item_cross_start(line_of, crosses, gap_cross, j)),
            ),
            align_shift(
                f.horizontal_align,
                f.vertical_align,
                canon_size(axis, smain(&r.inner.size, axis), crosses[line_of[j]]).spec_sub(
                    canon_size(axis, line_end_from(line_of, lens, gap_main, j), scross(&s[j].outer.size, axis)),
                ),
            ),
        )
}

/// Placed children are laid out as `flex_children_laid_out` says: the limits
/// a fixed item got from what the sizing pass saw are those its final
/// lengths give.
proof fn lemma_flex_children(
    t: LayoutArena,
    id: ElId,
    parent_limits: Limits,
    f: FlexLayout,
    size: Size<Length>,
    r: LayoutModel,
    c0s: Seq<LayoutModel>,
    lims: Seq<Limits>,
    lens_g: Seq<u32>,
    measures_g: Seq<u32>,
)
    requires
        flex_children_placed(t, id, parent_limits, f, size, r, c0s, lims, lens_g, measures_g),
    ensures
        flex_children_laid_out(t, id, parent_limits, f, size, r),
{
    let e = spec_effective_children(t, id);
    let s = shown_models(t, e, r.children@);
    let ids = shown_of(t, e);
    let axis = f.axis;
    let lens = main_lens(s, axis);
    let measures = line_measures(t, ids, s, axis);
    let limits = parent_limits.spec_self_limits(size).spec_shrink(f.block_model.spec_full_padding().spec_size());
    let max_main = smain(&limits.max, axis);
    let max_cross = scross(&limits.max, axis);
    assert forall|j: int| 0 <= j < s.len() && !is_fluid(t, ids[j], axis) implies #[trigger] lims[j] == fixed_item_limits(
        t,
        ids,
        lens,
        measures,
        f,
        max_main,
        max_cross,
        j,
    ) by {
        lemma_sizing_agree(t, ids, lens_g, measures_g, lens, measures, f, max_main, max_cross, j);
    }
    let gap_main = smain(&f.gap, axis);
    let gap_cross = scross(&f.gap, axis);
    let st = flex_sizing(t, ids, lens, measures, f, max_main, max_cross, s.len() as int);
    let cfc = sat_sub(st.cfc, st.lines_max.last());
    let crosses = Seq::new(st.lines_max.len(), |l: int| line_cross(size, axis, st.lines_max, cfc, max_cross, l));
    let line_of = st.line_of;
    assert forall|j: int| #![trigger s[j]] 0 <= j < s.len() && t.below(id, ids[j]) implies exists|c0: LayoutModel|
        {
            &&& (is_fluid(t, ids[j], axis) ==> laid_out_in(
                t,
                ids[j],
                fluid_item_limits(t, ids, st, crosses, axis, j),
                size,
                c0,
            ))
            &&& (!is_fluid(t, ids[j], axis) ==> laid_out_in(
                t,
                ids[j],
                fixed_item_limits(t, ids, lens, measures, f, max_main, max_cross, j),
                size,
                c0,
            ))
            &&& #[trigger] moved_model(
                c0,
                s[j],
                canon_point(
                    axis,
                    coord(item_start(line_of, lens, gap_main, j)),
                    coord(item_cross_start(line_of, crosses, gap_cross, j)),
                ),
                align_shift(
                    f.horizontal_align,
                    f.vertical_align,
                    canon_size(axis, smain(&r.inner.size, axis), crosses[line_of[j]]).spec_sub(
                        canon_size(axis, line_end_from(line_of, lens, gap_main, j), scross(&s[j].outer.size, axis)),
                    ),
                ),
            )
        } by {
        let c0 = c0s[j];
        assert(laid_out_in(t, ids[j], lims[j], size, c0));
        if !is_fluid(t, ids[j], axis) {
            assert(lims[j] == fixed_item_limits(t, ids, lens, measures, f, max_main, max_cross, j));
        } else {
            assert(lims[j] == fluid_item_limits(t, ids, st, crosses, axis, j));
        }
        assert(is_fluid(t, ids[j], axis) ==> laid_out_in(
            t,
            ids[j],
            fluid_item_limits(t, ids, st, crosses, axis, j),
            size,
            c0,
        ));
        assert(!is_fluid(t, ids[j], axis) ==> laid_out_in(
            t,
            ids[j],
            fixed_item_limits(t, ids, lens, measures, f, max_main, max_cross, j),
            size,
            c0,
        ));
        assert(moved_model(
            c0,
            s[j],
            canon_point(
                axis,
                coord(item_start(line_of, lens, gap_main, j)),
                coord(item_cross_start(line_of, crosses, gap_cross, j)),
            ),
            align_shift(
                f.horizontal_align,
                f.vertical_align,
                canon_size(axis, smain(&r.inner.size, axis), crosses[line_of[j]]).spec_sub(
                    canon_size(axis, line_end_from(line_of, lens, gap_main, j), scross(&s[j].outer.size, axis)),
                ),
            ),
        ));
    }
    reveal_with_fuel(flex_children_laid_out, 1);
}

/// Placing item `i` hands out one unit of its line's remainder if it is
/// fluid; the remainders then stand for the items before `i + 1`.
proof fn lemma_rem_step(
    t: LayoutArena,
    ids: Seq<ElId>,
    line_of: Seq<int>,
    axis: Axis,
    ml0: Seq<ModelLine>,
    ml1: Seq<ModelLine>,
    shares: Seq<(Size<u32>, Size<u32>, Size<u32>)>,
    i: int,
    m: int,
)
    requires
        lines_ordered(line_of, ml0.len() as int),
        line_of.len() == m,
        0 <= i < m,
        ml1.len() == ml0.len(),
        shares.len() == ml0.len(),
        forall|l: int| 0 <= l < ml0.len() && l != line_of[i] ==> #[trigger] ml1[l] == ml0[l],
        ml1[line_of[i]].line_div_remainder_rem == (if is_fluid(t, ids[i], axis) {
            rem_after(ml0[line_of[i]].line_div_remainder_rem, 1)
        } else {
            ml0[line_of[i]].line_div_remainder_rem
        }),
        forall|l: int|
            0 <= l < ml0.len() && (i == 0 || l > line_of[i - 1]) ==> (#[trigger] ml0[l]).line_div_remainder_rem
                == shares[l].2,
        ml0[line_of[i]].line_div_remainder_rem == rem_after(shares[line_of[i]].2, fluid_rank(t, ids, line_of, axis, i)),
    ensures
        forall|l: int| 0 <= l < ml1.len() && l > line_of[i] ==> (#[trigger] ml1[l]).line_div_remainder_rem == shares[l].2,
        i + 1 < m ==> ml1[line_of[i + 1]].line_div_remainder_rem == rem_after(
            shares[line_of[i + 1]].2,
            fluid_rank(t, ids, line_of, axis, i + 1),
        ),
{
    assert forall|l: int| 0 <= l < ml1.len() && l > line_of[i] implies (#[trigger] ml1[l]).line_div_remainder_rem
        == shares[l].2 by {
        if i > 0 {
            assert(line_of[i - 1] <= line_of[i]);
        }
        assert(ml1[l] == ml0[l]);
    }
    if i + 1 < m {
        assert(line_of[i] <= line_of[i + 1] <= line_of[i] + 1);
        if line_of[i + 1] != line_of[i] {
            assert(ml1[line_of[i + 1]] == ml0[line_of[i + 1]]);
            if i > 0 {
                assert(line_of[i - 1] <= line_of[i]);
            }
        }
    }
}

/// The used main length of a line is where its last item ends.
proof fn lemma_line_end(ml: Seq<ModelLine>, line_of: Seq<int>, lens: Seq<u32>, gap: u32, j: int)
    requires
        lines_ordered(line_of, ml.len() as int),
        0 <= j < line_of.len(),
        forall|k: int|
            0 <= k < line_of.len() && #[trigger] is_last_in_line(line_of, k) ==> ml[line_of[k]].used_main == sat_add(
                item_start(line_of, lens, gap, k),
                lens[k],
            ),
    ensures
        ml[line_of[j]].used_main == line_end_from(line_of, lens, gap, j),
    decreases line_of.len() - j,
{
    if !is_last_in_line(line_of, j) {
        lemma_line_end(ml, line_of, lens, gap, j + 1);
    } else {
        assert(is_last_in_line(line_of, j));
    }
}

/// The children a flex lays out are real nodes below it that take part.
proof fn lemma_shown_below(t: LayoutArena, id: ElId)
    requires
        t.wf(),
    ensures
        forall|j: int|
            0 <= j < shown_of(t, spec_effective_children(t, id)).len() ==> t.below(
                id,
                #[trigger] shown_of(t, spec_effective_children(t, id))[j],
            ) && !t.transparent(shown_of(t, spec_effective_children(t, id))[j] as int) && takes_part(
                t,
                shown_of(t, spec_effective_children(t, id))[j],
            ),
{
    let e = spec_effective_children(t, id);
    let shown = shown_of(t, e);
    lemma_effective_children(t, id);
    lemma_shown_members(t, e);
    assert forall|j: int| 0 <= j < shown.len() implies t.below(id, #[trigger] shown[j]) && !t.transparent(
        shown[j] as int,
    ) && takes_part(t, shown[j]) by {
        assert(e.contains(shown[j]));
        let w = choose|w: int| 0 <= w < e.len() && e[w] == shown[j];
        assert(t.below(id, e[w]));
    }
}

/// Lays out a flex node `id` with lengths `size` in `parent_limits`.
///
/// Every effective child gets one model, in order, carrying its identity;
/// hidden or missing children get an empty one and take no part in sizing
/// or gaps. The others are sized and placed as `flex_laid_out` says, each
/// laid out in the limits `flex_children_laid_out` gives it. Sums of
/// lengths saturate at `u32::MAX` and positions at `i32::MAX`.
#[verifier::rlimit(100)]
#[verifier::spinoff_prover]
pub fn model_flex(
    tree: &LayoutArena,
    id: ElId,
    parent_limits: Limits,
    flex_layout: &FlexLayout,
    size: Size<Length>,
) -> (r: LayoutModel)
    requires
        tree.wf(),
    ensures
        r.id == 0,
        r.outer.top_left == (Point { x: 0, y: 0 }),
        r.children@.len() == spec_effective_children(*tree, id).len(),
        forall|i: int|
            0 <= i < r.children@.len() ==> corresponds(
                *tree,
                #[trigger] r.children@[i],
                spec_effective_children(*tree, id)[i],
            ),
        forall|i: int|
            0 <= i < r.children@.len() ==> 0 <= (#[trigger] r.children@[i]).outer.top_left.x && 0
                <= r.children@[i].outer.top_left.y,
        r.outer.size == r.inner.size.spec_add(flex_layout.block_model.spec_full_padding().spec_size()),
        r.inner.top_left == sat_translate(
            origin(),
            Point {
                x: coord(flex_layout.block_model.spec_full_padding().left),
                y: coord(flex_layout.block_model.spec_full_padding().top),
            },
        ),
        exists|content: Size<u32>|
            r.inner.size == parent_limits.spec_self_limits(size).spec_shrink(
                flex_layout.block_model.spec_full_padding().spec_size(),
            ).spec_resolve_size(size, content, None),
        flex_laid_out(*tree, id, parent_limits, *flex_layout, size, r),
        flex_children_laid_out(*tree, id, parent_limits, *flex_layout, size, r),
    decreases tree.rank(id as int), 0nat,
{
    let axis = flex_layout.axis;
    let wrap = flex_layout.wrap;
    let gap = flex_layout.gap;
    let horizontal_align = flex_layout.horizontal_align;
    let vertical_align = flex_layout.vertical_align;
    let full_padding = flex_layout.block_model.full_padding();
    let limits = parent_limits.self_limits(size).shrink(full_padding.size());
    let max_possible_main = limits.max().main(axis);
    let max_possible_cross = limits.max().cross(axis);
    let gap_main = gap.main(axis);
    let gap_cross = gap.cross(axis);

    let children = effective_children(tree, id);
    proof {
        lemma_effective_children(*tree, id);
    }
    let n = children.len();

    // The children that take part, in order.
    let mut shown: Vec<ElId> = Vec::new();
    let mut k: usize = 0;
    while k < n
        invariant
            n == children@.len(),
            k <= n,
            shown@ == shown_of(*tree, children@.take(k as int)),
        decreases n - k,
    {
        let c = children[k];
        assert(children@.take(k + 1).drop_last() == children@.take(k as int));
        assert(children@.take(k + 1).last() == c);
        match tree.layout(c) {
            Some(d) => {
                if d.shown {
                    shown.push(c);
                }
            },
            None => {},
        }
        k = k + 1;
    }
    assert(children@.take(n as int) == children@);
    let m = shown.len();
    proof {
        lemma_shown_below(*tree, id);
    }

    // Sizing pass: split into lines, lay out fixed and shrinking items.
    let new_line = FlexLine {
        div_factors: DivFactors::zero(),
        items_count: 0,
        free_main: max_possible_main,
        max_cross: 0,
    };
    let mut lines: Vec<FlexLine> = Vec::new();
    lines.push(new_line);
    let mut items: Vec<FlexItem> = Vec::new();
    let mut fixed: Vec<Option<LayoutModel>> = Vec::new();
    let mut container_free_cross = max_possible_cross;
    let ghost mut measures: Seq<u32> = Seq::empty();
    let ghost mut lens_g: Seq<u32> = Seq::empty();
    assert(sizing_matches(
        lines@,
        items@,
        container_free_cross,
        flex_sizing(*tree, shown@, lens_g, measures, *flex_layout, max_possible_main, max_possible_cross, 0),
        0,
        m as int,
    )) by {
        reveal(sizing_matches);
    }
    let mut i: usize = 0;
    while i < m
        invariant
            tree.wf(),
            new_line.free_main == max_possible_main,
            new_line.items_count == 0,
            new_line.max_cross == 0,
            new_line.div_factors == (DivFactors { width: 0, height: 0 }),
            gap_main == smain(&flex_layout.gap, axis),
            lens_g.len() == i,
            forall|j: int|
                0 <= j < i ==> (#[trigger] fixed@[j] matches Some(mo) ==> lens_g[j] == smain(&mo.outer.size, axis)),
            forall|j: int|
                0 <= j < i ==> (#[trigger] fixed@[j] matches Some(mo) ==> laid_out_in(
                    *tree,
                    shown@[j],
                    fixed_item_limits(*tree, shown@, lens_g, measures, *flex_layout, max_possible_main, max_possible_cross, j),
                    size,
                    mo,
                )),
            sizing_matches(
                lines@,
                items@,
                container_free_cross,
                flex_sizing(*tree, shown@, lens_g, measures, *flex_layout, max_possible_main, max_possible_cross, i as int),
                i as int,
                m as int,
            ),
            wrap == flex_layout.wrap,
            axis == flex_layout.axis,
            gap == flex_layout.gap,
            m == shown@.len(),
            i <= m,
            measures.len() == i,
            forall|j: int| 0 <= j < i ==> (#[trigger] fixed@[j] is Some) == !is_fluid(*tree, shown@[j], axis),
            forall|j: int|
                0 <= j < i ==> match #[trigger] fixed@[j] {
                    Some(model) => measures[j] == scross(&model.outer.size, axis),
                    None => measures[j] == scross(&spec_min_size(*tree, shown@[j]), axis),
                },
            forall|j: int|
                0 <= j < shown@.len() ==> tree.below(id, #[trigger] shown@[j]) && !tree.transparent(
                    shown@[j] as int,
                ),
            lines@.len() >= 1,
            items@.len() == i,
            fixed@.len() == i,
            forall|j: int| 0 <= j < i ==> (#[trigger] items@[j]).line < lines@.len(),
            forall|j: int|
                0 <= j < i ==> match #[trigger] fixed@[j] {
                    Some(model) => corresponds(*tree, model, shown@[j]) && model.outer.top_left == (Point {
                        x: 0,
                        y: 0,
                    }),
                    None => true,
                },
        decreases m - i,
    {
        let c = shown[i];
        let child_size = match tree.layout(c) {
            Some(d) => d.size,
            None => Size::shrink(),
        };
        let child_min_size = crate::layout::model::min_size(tree, c);
        let min_item_size = child_size.max_fixed(child_min_size);
        let needed = if i != 0 {
            min_item_size + gap
        } else {
            min_item_size
        };
        let ghost st = flex_sizing(
            *tree,
            shown@,
            lens_g,
            measures,
            *flex_layout,
            max_possible_main,
            max_possible_cross,
            i as int,
        );
        let ghost lines0 = lines@;
        let ghost items0 = items@;
        let ghost cfc0 = container_free_cross;
        proof {
            lemma_sizing_last(lines@, items@, container_free_cross, st, i as int, m as int);
        }
        let last = lines[lines.len() - 1];
        let ghost breaks = wrap && last.free_main < smain(&needed, axis);
        proof {
            assert(smain(&needed, axis) == item_need(*tree, c, axis, gap_main, i == 0));
        }
        if wrap && last.free_main < needed.main(axis) {
            container_free_cross = container_free_cross.saturating_sub(last.max_cross);
            if items.len() > 0 {
                let li = items.len() - 1;
                let mut it = items[li];
                it.last_in_line = true;
                items.set(li, it);
            }
            lines.push(new_line);
        } else if last.items_count != 0 {
            let li = lines.len() - 1;
            let mut l = last;
            l.free_main = last.free_main.saturating_sub(gap_main);
            lines.set(li, l);
        }
        let ghost mid = lines@;
        let line_number = lines.len() - 1;
        let mut line = lines[line_number];
        let ghost line_free_before = line.free_main;
        let child_div_factors = child_size.div_factors();
        let ghost measure: u32;
        let ghost len_g: u32 = 0;
        let ghost mid_cfc = container_free_cross;
        if child_div_factors.main(axis) == 0 {
            let child_limits = Limits::only_max(axis.canon(line.free_main, container_free_cross));
            proof {
                assert(child_limits.max == canon_size(axis, line.free_main, container_free_cross));
            }
            let child_layout = model_layout(tree, c, child_limits, size);
            let child_layout_size = child_layout.outer_size();
            line.free_main = line.free_main.saturating_sub(child_layout_size.main(axis));
            line.max_cross = max_of(line.max_cross, child_layout_size.cross(axis));
            proof {
                measure = scross(&child_layout_size, axis);
                len_g = smain(&child_layout_size, axis);
            }
            fixed.push(Some(child_layout));
        } else {
            line.max_cross = max_of(line.max_cross, child_min_size.cross(axis));
            proof {
                measure = scross(&child_min_size, axis);
            }
            fixed.push(None);
        }
        let ghost measures0 = measures;
        let ghost lens0 = lens_g;
        proof {
            assert(measures.push(measure).drop_last() == measures);
            measures = measures.push(measure);
            lens_g = lens_g.push(len_g);
        }
        line.div_factors = add_div_sat(line.div_factors, child_div_factors);
        line.items_count = line.items_count.saturating_add(1);
        lines.set(line_number, line);
        items.push(FlexItem { line: line_number, last_in_line: i + 1 == m });
        proof {
            lemma_sizing_agree(
                *tree,
                shown@,
                lens0,
                measures0,
                lens_g,
                measures,
                *flex_layout,
                max_possible_main,
                max_possible_cross,
                i as int,
            );
            assert(is_fluid(*tree, c, axis) == (smain(&child_div_factors, axis) != 0));
            assert(child_div_factors == child_divs(*tree, c));
            assert(flex_sizing(
                *tree,
                shown@,
                lens_g,
                measures,
                *flex_layout,
                max_possible_main,
                max_possible_cross,
                i + 1,
            ) == sizing_step(
                st,
                breaks,
                is_fluid(*tree, c, axis),
                len_g,
                measure,
                child_divs(*tree, c),
                gap_main,
                max_possible_main,
            ));
            lemma_sizing_step(
                lines0,
                items0,
                cfc0,
                st,
                mid,
                line,
                lines@,
                items@,
                container_free_cross,
                breaks,
                is_fluid(*tree, c, axis),
                len_g,
                measure,
                child_divs(*tree, c),
                gap_main,
                max_possible_main,
                i as int,
                m as int,
            );
            assert forall|j: int| 0 <= j < i + 1 implies (#[trigger] fixed@[j] matches Some(mo) ==> laid_out_in(
                *tree,
                shown@[j],
                fixed_item_limits(*tree, shown@, lens_g, measures, *flex_layout, max_possible_main, max_possible_cross, j),
                size,
                mo,
            )) by {
                lemma_sizing_agree(
                    *tree,
                    shown@,
                    lens0,
                    measures0,
                    lens_g,
                    measures,
                    *flex_layout,
                    max_possible_main,
                    max_possible_cross,
                    j,
                );
                if j == i && fixed@[j] is Some {
                    assert(mid.last().free_main == line_free_before);
                    assert(fixed_item_limits(
                        *tree,
                        shown@,
                        lens_g,
                        measures,
                        *flex_layout,
                        max_possible_main,
                        max_possible_cross,
                        j,
                    ).max == canon_size(axis, line_free_before, mid_cfc));
                }
            }
        }
        i = i + 1;
    }
    let ghost st_final = flex_sizing(
        *tree,
        shown@,
        lens_g,
        measures,
        *flex_layout,
        max_possible_main,
        max_possible_cross,
        m as int,
    );
    proof {
        lemma_sizing_last(lines@, items@, container_free_cross, st_final, m as int, m as int);
    }
    let last_line = lines[lines.len() - 1];
    container_free_cross = container_free_cross.saturating_sub(last_line.max_cross);

    // Share the free space of every line among its fluid items.
    let nl = lines.len();
    let lines_count: u32 = if nl > u32::MAX as usize {
        u32::MAX
    } else {
        nl as u32
    };
    let container_free_cross_div = div0(container_free_cross, lines_count);
    let mut container_free_cross_rem = rem0(container_free_cross, lines_count);
    let mut model_lines: Vec<ModelLine> = Vec::new();
    let mut li: usize = 0;
    while li < nl
        invariant
            nl == lines@.len(),
            li <= nl,
            model_lines@.len() == li,
            nl <= u32::MAX ==> lines_count == nl,
            axis == flex_layout.axis,
            st_final.lines_max.len() == nl,
            forall|l: int| 0 <= l < nl ==> (#[trigger] lines@[l]).max_cross == st_final.lines_max[l],
            lines_count == (if nl > u32::MAX {
                u32::MAX
            } else {
                nl as u32
            }),
            lines_count > 0,
            container_free_cross_div == container_free_cross / lines_count,
            (lines_count != 1 && scross(&size, axis).spec_is_grow()) ==> container_free_cross_rem == (if li
                < container_free_cross % lines_count {
                (container_free_cross % lines_count - li) as u32
            } else {
                0u32
            }),
            forall|l: int|
                0 <= l < li ==> (#[trigger] model_lines@[l]).used_main == 0 && model_lines@[l].cross == line_cross(
                    size,
                    axis,
                    st_final.lines_max,
                    container_free_cross,
                    max_possible_cross,
                    l,
                ),
            st_final.lines_free.len() == nl,
            st_final.lines_count.len() == nl,
            st_final.lines_divs.len() == nl,
            forall|l: int|
                0 <= l < nl ==> (#[trigger] lines@[l]).free_main == st_final.lines_free[l] && lines@[l].items_count
                    == st_final.lines_count[l] && lines@[l].div_factors == st_final.lines_divs[l],
            forall|l: int|
                0 <= l < li ==> {
                    let sh = line_shares(
                        axis,
                        st_final.lines_free[l],
                        (#[trigger] model_lines@[l]).cross,
                        st_final.lines_divs[l],
                        st_final.lines_count[l],
                        lines_count,
                    );
                    &&& model_lines@[l].base_divs == sh.0
                    &&& model_lines@[l].base_div_remainder_part == sh.1
                    &&& model_lines@[l].line_div_remainder_rem == sh.2
                },
        decreases nl - li,
    {
        let line = lines[li];
        let mut div_factors = line.div_factors;
        let cross = if lines_count == 1 {
            if axis == Axis::X {
                div_factors.height = 1;
            } else {
                div_factors.width = 1;
            }
            match size.cross(axis) {
                Length::InfiniteWindow(_) | Length::Shrink => line.max_cross,
                Length::Div(_) => max_possible_cross,
                Length::Fixed(f) => f,
            }
        } else {
            let extra = if size.cross(axis).is_grow() {
                let bit: u32 = if container_free_cross_rem > 0 {
                    container_free_cross_rem = container_free_cross_rem - 1;
                    1
                } else {
                    0
                };
                container_free_cross_div.saturating_add(bit)
            } else {
                0
            };
            line.max_cross.saturating_add(extra)
        };
        let fluid_space: Size<u32> = axis.canon(line.free_main, cross);
        let base_divs = fluid_space / div_factors;
        let line_div_remainder = fluid_space % div_factors;
        let base_div_remainder_part: Size<u32> = axis.canon(
            div0(line_div_remainder.main(axis), line.items_count),
            div0(line_div_remainder.cross(axis), lines_count),
        );
        let line_div_remainder_rem: Size<u32> = axis.canon(
            rem0(line_div_remainder.main(axis), line.items_count),
            rem0(line_div_remainder.cross(axis), lines_count),
        );
        model_lines.push(
            ModelLine {
                base_divs,
                line_div_remainder,
                line_div_remainder_rem,
                base_div_remainder_part,
                used_main: 0,
                cross,
            },
        );
        li = li + 1;
    }

    // Placement pass: lay out fluid items and put every item in place.
    let mut longest_line: u32 = 0;
    let mut used_cross: u32 = 0;
    let mut next_main: u32 = 0;
    let mut next_cross: u32 = 0;
    let mut placed: Vec<LayoutModel> = Vec::new();
    let ghost fixed0 = fixed@;
    let ghost line_of = st_final.line_of;
    let ghost crosses = Seq::new(
        nl as nat,
        |l: int| line_cross(size, axis, st_final.lines_max, container_free_cross, max_possible_cross, l),
    );
    let ghost shares = Seq::new(
        nl as nat,
        |l: int|
            line_shares(
                axis,
                st_final.lines_free[l],
                crosses[l],
                st_final.lines_divs[l],
                st_final.lines_count[l],
                lines_count,
            ),
    );
    proof {
        lemma_sizing_lines(
            *tree,
            shown@,
            lens_g,
            measures,
            *flex_layout,
            max_possible_main,
            max_possible_cross,
            m as int,
        );
        assert(placement_matches(
            model_lines@,
            placed@,
            next_main,
            next_cross,
            longest_line,
            used_cross,
            line_of,
            crosses,
            axis,
            gap_main,
            gap_cross,
            0,
        )) by {
            reveal(placement_matches);
            assert(main_lens(placed@, axis) =~= Seq::<u32>::empty());
        }
    }
    let mut rest = fixed;
    let ghost mut c0s: Seq<LayoutModel> = Seq::empty();
    let ghost mut lims: Seq<Limits> = Seq::empty();
    let mut i: usize = 0;
    while i < m
        invariant
            tree.wf(),
            axis == flex_layout.axis,
            c0s.len() == i,
            forall|j: int|
                0 <= j < m ==> (#[trigger] fixed0[j] matches Some(mo) ==> laid_out_in(
                    *tree,
                    shown@[j],
                    fixed_item_limits(*tree, shown@, lens_g, measures, *flex_layout, max_possible_main, max_possible_cross, j),
                    size,
                    mo,
                )),
            forall|j: int|
                0 <= j < i ==> moved_model(#[trigger] c0s[j], placed@[j], placed@[j].outer.top_left, origin())
                    && c0s[j].outer.top_left == origin(),
            lims.len() == i,
            forall|j: int| 0 <= j < i ==> laid_out_in(*tree, shown@[j], #[trigger] lims[j], size, c0s[j]),
            forall|j: int|
                0 <= j < i && !is_fluid(*tree, shown@[j], axis) ==> #[trigger] lims[j] == fixed_item_limits(
                    *tree,
                    shown@,
                    lens_g,
                    measures,
                    *flex_layout,
                    max_possible_main,
                    max_possible_cross,
                    j,
                ),
            forall|j: int|
                0 <= j < i && is_fluid(*tree, shown@[j], axis) ==> #[trigger] lims[j] == fluid_item_limits(
                    *tree,
                    shown@,
                    st_final,
                    crosses,
                    axis,
                    j,
                ),
            line_of == st_final.line_of,
            lines_count == lines_number(nl as nat),
            st_final.lines_max.len() == nl,
            st_final.lines_free.len() == nl,
            st_final.lines_count.len() == nl,
            st_final.lines_divs.len() == nl,
            shares.len() == nl,
            forall|l: int|
                0 <= l < nl ==> #[trigger] shares[l] == line_shares(
                    axis,
                    st_final.lines_free[l],
                    crosses[l],
                    st_final.lines_divs[l],
                    st_final.lines_count[l],
                    lines_count,
                ),
            forall|l: int|
                0 <= l < nl ==> (#[trigger] model_lines@[l]).base_divs == shares[l].0
                    && model_lines@[l].base_div_remainder_part == shares[l].1,
            forall|l: int|
                0 <= l < nl && (i == 0 || l > line_of[i - 1]) ==> (#[trigger] model_lines@[l]).line_div_remainder_rem
                    == shares[l].2,
            i < m ==> model_lines@[line_of[i as int]].line_div_remainder_rem == rem_after(
                shares[line_of[i as int]].2,
                fluid_rank(*tree, shown@, line_of, axis, i as int),
            ),
            gap_main == smain(&flex_layout.gap, axis),
            fixed0.len() == m,
            measures.len() == m,
            forall|j: int| 0 <= j < m ==> (#[trigger] fixed0[j] is Some) == !is_fluid(*tree, shown@[j], axis),
            forall|j: int|
                0 <= j < m ==> match #[trigger] fixed0[j] {
                    Some(model) => measures[j] == scross(&model.outer.size, axis),
                    None => measures[j] == scross(&spec_min_size(*tree, shown@[j]), axis),
                },
            forall|j: int| 0 <= j < m - i ==> rest@[j] == fixed0[j + i],
            forall|j: int|
                0 <= j < i ==> (#[trigger] fixed0[j] matches Some(mo) ==> placed@[j].outer.size == mo.outer.size),
            i == 0 ==> longest_line == 0 && used_cross == 0,
            gap_cross == scross(&flex_layout.gap, axis),
            line_of.len() == m,
            crosses.len() == nl,
            lines_ordered(line_of, nl as int),
            forall|j: int|
                0 <= j < m ==> (#[trigger] items@[j]).line == line_of[j] && items@[j].last_in_line == is_last_in_line(
                    line_of,
                    j,
                ),
            placement_matches(
                model_lines@,
                placed@,
                next_main,
                next_cross,
                longest_line,
                used_cross,
                line_of,
                crosses,
                axis,
                gap_main,
                gap_cross,
                i as int,
            ),
            m == shown@.len(),
            m == items@.len(),
            nl == lines@.len(),
            nl == model_lines@.len(),
            i <= m,
            forall|j: int|
                0 <= j < shown@.len() ==> tree.below(id, #[trigger] shown@[j]) && !tree.transparent(
                    shown@[j] as int,
                ),
            forall|j: int| 0 <= j < m ==> (#[trigger] items@[j]).line < nl,
            placed@.len() == i,
            rest@.len() == m - i,
            forall|j: int|
                0 <= j < m - i ==> match #[trigger] rest@[j] {
                    Some(model) => corresponds(*tree, model, shown@[j + i]) && model.outer.top_left == (Point {
                        x: 0,
                        y: 0,
                    }),
                    None => true,
                },
            forall|j: int| 0 <= j < i ==> corresponds(*tree, #[trigger] placed@[j], shown@[j]),
            forall|j: int|
                0 <= j < i ==> 0 <= (#[trigger] placed@[j]).outer.top_left.x && 0 <= placed@[j].outer.top_left.y,
        decreases m - i,
    {
        let c = shown[i];
        let item = items[i];
        let ghost ml0 = model_lines@;
        let ghost placed_start = placed@;
        let ghost nm0 = next_main;
        let ghost nc0 = next_cross;
        let ghost lg0 = longest_line;
        let ghost uc0 = used_cross;
        let child_size = match tree.layout(c) {
            Some(d) => d.size,
            None => Size::shrink(),
        };
        let slot = rest.remove(0);
        let mut model_line = model_lines[item.line];
        let ghost line0 = model_line;
        let ghost mut lim_used: Limits = parent_limits;
        let mut child_layout = match slot {
            Some(model) => model,
            None => {
                let child_min_size = crate::layout::model::min_size(tree, c);
                let mut rem_rem = model_line.line_div_remainder_rem;
                let taken = rem_rem.sub_take(1);
                model_line.line_div_remainder_rem = rem_rem;
                let child_rem_part = model_line.base_div_remainder_part + taken;
                let base = Size::new(
                    into_fixed_sat(child_size.width, model_line.base_divs.width),
                    into_fixed_sat(child_size.height, model_line.base_divs.height),
                );
                let child_max_size = base + child_rem_part;
                model_line.line_div_remainder = model_line.line_div_remainder - child_rem_part;
                let child_limits = Limits::new(child_min_size, child_max_size);
                proof {
                    lim_used = child_limits;
                    let l = line_of[i as int];
                    assert(item.line == l);
                    assert(child_size == child_lengths(*tree, c));
                    assert(shares[l] == line_shares(
                        axis,
                        st_final.lines_free[l],
                        crosses[l],
                        st_final.lines_divs[l],
                        st_final.lines_count[l],
                        lines_count,
                    ));
                    assert(line0.base_divs == shares[l].0);
                    assert(line0.base_div_remainder_part == shares[l].1);
                    assert(rem_rem == rem_after(line0.line_div_remainder_rem, 1));
                    assert(child_limits == fluid_item_limits(*tree, shown@, st_final, crosses, axis, i as int)) by {
                        reveal(fluid_item_limits);
                    }
                }
                model_layout(tree, c, child_limits, size)
            },
        };
        let pos: Point = axis.canon(to_coord(next_main), to_coord(next_cross));
        let ghost before = child_layout;
        child_layout.translate_mut(pos);
        proof {
            lemma_corresponds_moved(*tree, before, child_layout, c);
        }
        let child_length = child_layout.outer_size().main(axis);
        model_line.used_main = model_line.used_main.saturating_add(child_length);
        if item.last_in_line {
            longest_line = max_of(longest_line, model_line.used_main);
            let g = if item.line + 1 < nl {
                gap_cross
            } else {
                0
            };
            used_cross = used_cross.saturating_add(model_line.cross.saturating_add(g));
            next_main = 0;
            next_cross = used_cross;
        } else {
            model_line.used_main = model_line.used_main.saturating_add(gap_main);
            next_main = model_line.used_main;
        }
        model_lines.set(item.line, model_line);
        placed.push(child_layout);
        proof {
            assert(before.outer.top_left == origin());
            assert(moved_model(before, child_layout, child_layout.outer.top_left, origin()));
            let c0s_old = c0s;
            c0s = c0s.push(before);
            assert forall|j: int| 0 <= j < i + 1 implies moved_model(#[trigger] c0s[j], placed@[j], placed@[j].outer.top_left, origin())
                && c0s[j].outer.top_left == origin() by {
                if j < i {
                    assert(c0s[j] == c0s_old[j]);
                    assert(placed@[j] == placed_start[j]);
                }
            }
            let lims_old = lims;
            let lim_i = if is_fluid(*tree, c, axis) {
                lim_used
            } else {
                fixed_item_limits(*tree, shown@, lens_g, measures, *flex_layout, max_possible_main, max_possible_cross, i as int)
            };
            assert(laid_out_in(*tree, c, lim_i, size, before));
            lims = lims.push(lim_i);
            assert forall|j: int| 0 <= j < i + 1 implies laid_out_in(*tree, shown@[j], #[trigger] lims[j], size, c0s[j]) by {
                if j < i {
                    assert(c0s[j] == c0s_old[j]);
                    assert(lims[j] == lims_old[j]);
                }
            }
            assert forall|j: int| 0 <= j < i + 1 && is_fluid(*tree, shown@[j], axis) implies #[trigger] lims[j]
                == fluid_item_limits(*tree, shown@, st_final, crosses, axis, j) by {
                if j < i {
                    assert(lims[j] == lims_old[j]);
                }
            }
            assert forall|l: int| 0 <= l < nl && l != line_of[i as int] implies #[trigger] model_lines@[l] == ml0[l] by {}
            assert(model_lines@[line_of[i as int]] == model_line);
            lemma_rem_step(*tree, shown@, line_of, axis, ml0, model_lines@, shares, i as int, m as int);
            assert forall|j: int| 0 <= j < i + 1 && !is_fluid(*tree, shown@[j], axis) implies #[trigger] lims[j]
                == fixed_item_limits(
                *tree,
                shown@,
                lens_g,
                measures,
                *flex_layout,
                max_possible_main,
                max_possible_cross,
                j,
            ) by {
                if j < i {
                    assert(lims[j] == lims_old[j]);
                }
            }
            assert(pos == canon_point(axis, coord(nm0), coord(nc0)));
            lemma_place_step(
                ml0,
                placed_start,
                nm0,
                nc0,
                lg0,
                uc0,
                model_lines@,
                placed@,
                next_main,
                next_cross,
                longest_line,
                used_cross,
                child_layout,
                line_of,
                crosses,
                axis,
                gap_main,
                gap_cross,
                i as int,
            );
        }
        i = i + 1;
    }

    let layout_size = limits.resolve_size(size, axis.canon(longest_line, used_cross), None);

    // Alignment pass.
    let mut aligned_children: Vec<LayoutModel> = Vec::new();
    let ghost placed0 = placed@;
    let ghost sh = Seq::new(
        m as nat,
        |j: int|
            align_shift(
                horizontal_align,
                vertical_align,
                canon_size(axis, smain(&layout_size, axis), model_lines@[items@[j].line as int].cross).spec_sub(
                    canon_size(axis, model_lines@[items@[j].line as int].used_main, scross(&placed0[j].outer.size, axis)),
                ),
            ),
    );
    if horizontal_align != Align::Start || vertical_align != Align::Start {
        let mut i: usize = 0;
        while i < m
            invariant
                axis == flex_layout.axis,
                placed0.len() == m,
                forall|j: int| 0 <= j < m - i ==> placed@[j] == placed0[j + i],
                sh == Seq::new(
                    m as nat,
                    |j: int|
                        align_shift(
                            horizontal_align,
                            vertical_align,
                            canon_size(axis, smain(&layout_size, axis), model_lines@[items@[j].line as int].cross).spec_sub(
                                canon_size(
                                    axis,
                                    model_lines@[items@[j].line as int].used_main,
                                    scross(&placed0[j].outer.size, axis),
                                ),
                            ),
                        ),
                ),
                forall|j: int| 0 <= j < i ==> shifted(placed0[j], #[trigger] aligned_children@[j], sh[j]),
                m == items@.len(),
                nl == model_lines@.len(),
                forall|j: int| 0 <= j < m ==> (#[trigger] items@[j]).line < nl,
                i <= m,
                aligned_children@.len() == i,
                placed@.len() == m - i,
                forall|j: int| 0 <= j < m - i ==> corresponds(*tree, #[trigger] placed@[j], shown@[j + i]),
                forall|j: int|
                    0 <= j < m - i ==> 0 <= (#[trigger] placed@[j]).outer.top_left.x && 0
                        <= placed@[j].outer.top_left.y,
                forall|j: int| 0 <= j < i ==> corresponds(*tree, #[trigger] aligned_children@[j], shown@[j]),
                forall|j: int|
                    0 <= j < i ==> 0 <= (#[trigger] aligned_children@[j]).outer.top_left.x && 0
                        <= aligned_children@[j].outer.top_left.y,
            decreases m - i,
        {
            let item = items[i];
            let line = model_lines[item.line];
            let mut child_layout = placed.remove(0);
            let a: Size<u32> = axis.canon(layout_size.main(axis), line.cross);
            let b: Size<u32> = axis.canon(line.used_main, child_layout.outer_size().cross(axis));
            let ghost before = child_layout;
            child_layout.align_mut(horizontal_align, vertical_align, a - b);
            proof {
                lemma_corresponds_moved(*tree, before, child_layout, shown@[i as int]);
                assert(before == placed0[i as int]);
                assert(shifted(placed0[i as int], child_layout, sh[i as int]));
            }
            let ghost aligned_before = aligned_children@;
            aligned_children.push(child_layout);
            proof {
                assert forall|j: int| 0 <= j < i implies #[trigger] aligned_children@[j] == aligned_before[j] by {}
            }
            i = i + 1;
        }
    } else {
        aligned_children = placed;
    }
    proof {
        assert forall|j: int| 0 <= j < m implies shifted(placed0[j], #[trigger] aligned_children@[j], sh[j]) by {
            if horizontal_align == Align::Start && vertical_align == Align::Start {
                assert(aligned_children@[j] == placed0[j]);
                assert(sh[j] == origin());
                assert(moved_rect(placed0[j].outer, origin()) == placed0[j].outer);
                assert(moved_rect(placed0[j].inner, origin()) == placed0[j].inner);
            }
        }
    }
    let ghost aligned0 = aligned_children@;

    // One model per effective child, hidden ones empty.
    let mut out: Vec<LayoutModel> = Vec::new();
    let ghost si: int = 0;
    let mut k: usize = 0;
    while k < n
        invariant
            tree.wf(),
            n == children@.len(),
            children@ == spec_effective_children(*tree, id),
            forall|j: int|
                0 <= j < n ==> tree.below(id, #[trigger] children@[j]) && !tree.transparent(
                    children@[j] as int,
                ),
            shown@ == shown_of(*tree, children@),
            m == shown@.len(),
            k <= n,
            out@.len() == k,
            si == shown_of(*tree, children@.take(k as int)).len(),
            si <= m,
            aligned0.len() == m,
            forall|j: int| 0 <= j < m - si ==> aligned_children@[j] == aligned0[j + si],
            shown_models(*tree, children@.take(k as int), out@) == aligned0.take(si),
            aligned_children@.len() == m - si,
            forall|j: int| 0 <= j < m - si ==> corresponds(*tree, #[trigger] aligned_children@[j], shown@[j + si]),
            forall|j: int|
                0 <= j < m - si ==> 0 <= (#[trigger] aligned_children@[j]).outer.top_left.x && 0
                    <= aligned_children@[j].outer.top_left.y,
            forall|j: int| 0 <= j < k ==> corresponds(*tree, #[trigger] out@[j], children@[j]),
            forall|j: int|
                0 <= j < k ==> 0 <= (#[trigger] out@[j]).outer.top_left.x && 0 <= out@[j].outer.top_left.y,
            forall|j: int| 0 <= j < k && !takes_part(*tree, children@[j]) ==> zero_model(#[trigger] out@[j], children@[j]),
        decreases n - k,
    {
        let c = children[k];
        proof {
            lemma_shown_prefix(*tree, children@, k + 1);
            lemma_shown_prefix(*tree, children@, k as int);
            assert(children@.take(k + 1).drop_last() == children@.take(k as int));
            assert(children@.take(k + 1).last() == c);
        }
        let takes = match tree.layout(c) {
            Some(d) => d.shown,
            None => false,
        };
        if takes && aligned_children.len() > 0 {
            proof {
                let pre = shown_of(*tree, children@.take(k + 1));
                assert(pre == shown_of(*tree, children@.take(k as int)).push(c));
                assert(pre.len() == si + 1);
                assert(pre[si] == c);
                assert(pre == shown@.take(si + 1));
                assert(shown@.take(si + 1)[si] == shown@[si]);
            }
            let ghost out0 = out@;
            let model = aligned_children.remove(0);
            out.push(model);
            proof {
                assert forall|j: int| 0 <= j < k implies #[trigger] out@[j] == out0[j] by {}
                assert(model == aligned0[si]);
                assert(out@.drop_last() == out0);
                assert(takes_part(*tree, c));
                assert(shown_models(*tree, children@.take(k + 1), out@) == shown_models(
                    *tree,
                    children@.take(k as int),
                    out0,
                ).push(model));
                assert(aligned0.take(si).push(aligned0[si]) == aligned0.take(si + 1));
                si = si + 1;
            }
        } else {
            proof {
                if takes {
                    assert(shown_of(*tree, children@.take(k + 1)).len() == si + 1);
                    assert(false);
                }
                assert(shown_of(*tree, children@.take(k + 1)) == shown_of(*tree, children@.take(k as int)));
            }
            let model = LayoutModel::zero().with_id(c);
            proof {
                reveal_with_fuel(corresponds, 1);
            }
            let ghost out0 = out@;
            out.push(model);
            proof {
                assert forall|j: int| 0 <= j < k implies #[trigger] out@[j] == out0[j] by {}
                assert(out@.drop_last() == out0);
                assert(!takes_part(*tree, c));
                assert(shown_models(*tree, children@.take(k + 1), out@) == shown_models(
                    *tree,
                    children@.take(k as int),
                    out0,
                ) + Seq::<LayoutModel>::empty());
            }
        }
        k = k + 1;
    }
    proof {
        assert(children@.take(n as int) == children@);
        assert(aligned0.take(m as int) == aligned0);
        assert(main_lens(aligned0, axis) =~= main_lens(placed0, axis));
        assert forall|j: int| 0 <= j < m implies #[trigger] measures[j] == cross_measure(
            *tree,
            shown@[j],
            aligned0[j],
            axis,
        ) by {
            assert(aligned0[j].outer.size == placed0[j].outer.size);
            if fixed0[j] is Some {
                assert(placed0[j].outer.size == fixed0[j]->Some_0.outer.size);
            }
        }
        assert(measures =~= line_measures(*tree, shown@, aligned0, axis));
        let lens = main_lens(aligned0, axis);
        assert forall|j: int| 0 <= j < m && !is_fluid(*tree, shown@[j], axis) implies #[trigger] lens_g[j] == lens[j] by {
            assert(fixed0[j] is Some);
            assert(placed0[j].outer.size == fixed0[j]->Some_0.outer.size);
        }
        lemma_sizing_agree(
            *tree,
            shown@,
            lens_g,
            measures,
            lens,
            line_measures(*tree, shown@, aligned0, axis),
            *flex_layout,
            max_possible_main,
            max_possible_cross,
            m as int,
        );
        assert(placement_holds(
            model_lines@,
            placed0,
            next_main,
            next_cross,
            longest_line,
            used_cross,
            line_of,
            crosses,
            axis,
            gap_main,
            gap_cross,
            m as int,
        )) by {
            reveal(placement_matches);
        }
        assert forall|j: int| 0 <= j < m implies model_lines@[line_of[j]].used_main == line_end_from(
            line_of,
            lens,
            gap_main,
            j,
        ) by {
            lemma_line_end(model_lines@, line_of, lens, gap_main, j);
        }
    }
    let r = LayoutModel::new(layout_size, out).with_full_padding(full_padding);
    proof {
        let lens = main_lens(aligned0, axis);
        assert(shown_models(*tree, children@, r.children@) == aligned0);
        assert forall|j: int| 0 <= j < m implies moved_model(
            #[trigger] c0s[j],
            aligned0[j],
            canon_point(
                axis,
                coord(item_start(line_of, lens, gap_main, j)),
                coord(item_cross_start(line_of, crosses, gap_cross, j)),
            ),
            align_shift(
                horizontal_align,
                vertical_align,
                canon_size(axis, smain(&r.inner.size, axis), crosses[line_of[j]]).spec_sub(
                    canon_size(axis, line_end_from(line_of, lens, gap_main, j), scross(&aligned0[j].outer.size, axis)),
                ),
            ),
        ) by {
            lemma_place_then_shift(c0s[j], placed0[j], aligned0[j], placed0[j].outer.top_left, sh[j]);
        }
        assert(flex_children_placed(*tree, id, parent_limits, *flex_layout, size, r, c0s, lims, lens_g, measures));
        lemma_flex_children(*tree, id, parent_limits, *flex_layout, size, r, c0s, lims, lens_g, measures);
    }
    r
}


/// Moving identical models by the same amounts gives identical models.
pub(crate) proof fn lemma_moved_identical(c0a: LayoutModel, c0b: LayoutModel, xa: LayoutModel, xb: LayoutModel, p1: Point, p2: Point)
    requires
        identical(c0a, c0b),
        moved_model(c0a, xa, p1, p2),
        moved_model(c0b, xb, p1, p2),
    ensures
        identical(xa, xb),
{
    assert forall|i: int| 0 <= i < xa.children@.len() implies identical(#[trigger] xa.children@[i], xb.children@[i]) by {
        assert(xa.children@[i] == c0a.children@[i]);
        assert(xb.children@[i] == c0b.children@[i]);
    }
}

/// Two empty models of one identity are identical.
pub(crate) proof fn lemma_zero_identical(a: LayoutModel, b: LayoutModel, id: ElId)
    requires
        zero_model(a, id),
        zero_model(b, id),
    ensures
        identical(a, b),
{
}

/// Where the item `j` of a flex laid out as `r` comes from: the model `c0`
/// it was laid out as before being moved to its place.
pub open spec fn item_fits(t: LayoutArena, id: ElId, parent_limits: Limits, f: FlexLayout, size: Size<Length>, r: LayoutModel, j: int, c0: LayoutModel) -> bool {
    let e = spec_effective_children(t, id);
    let s = shown_models(t, e, r.children@);
    let ids = shown_of(t, e);
    let axis = f.axis;
    let gap_main = smain(&f.gap, axis);
    let gap_cross = scross(&f.gap, axis);
    let lens = main_lens(s, axis);
    let measures = line_measures(t, ids, s, axis);
    let limits = parent_limits.spec_self_limits(size).spec_shrink(f.block_model.spec_full_padding().spec_size());
    let max_main = smain(&limits.max, axis);
    let max_cross = scross(&limits.max, axis);
    let st = flex_sizing(t, ids, lens, measures, f, max_main, max_cross, s.len() as int);
    let cfc = sat_sub(st.cfc, st.lines_max.last());
    let crosses = Seq::new(st.lines_max.len(), |l: int| line_cross(size, axis, st.lines_max, cfc, max_cross, l));
    let line_of = st.line_of;
    &&& (is_fluid(t, ids[j], axis) ==> laid_out_in(t, ids[j], fluid_item_limits(t, ids, st, crosses, axis, j), size, c0))
    &&& (!is_fluid(t, ids[j], axis) ==> laid_out_in(
        t,
        ids[j],
        fixed_item_limits(t, ids, lens, measures, f, max_main, max_cross, j),
        size,
        c0,
    ))
    &&& moved_model(
        c0,
        s[j],
        canon_point(axis, coord(item_start(line_of, lens, gap_main, j)), coord(item_cross_start(line_of, crosses, gap_cross, j))),
        align_shift(
            f.horizontal_align,
            f.vertical_align,
            canon_size(axis, smain(&r.inner.size, axis), crosses[line_of[j]]).spec_sub(
                canon_size(axis, line_end_from(line_of, lens, gap_main, j), scross(&s[j].outer.size, axis)),
            ),
        ),
    )
}

/// Every item of a flex laid out as `r` comes from some model.
proof fn lemma_item_fits(t: LayoutArena, id: ElId, parent_limits: Limits, f: FlexLayout, size: Size<Length>, r: LayoutModel, j: int)
    requires
        flex_children_laid_out(t, id, parent_limits, f, size, r),
        0 <= j < shown_models(t, spec_effective_children(t, id), r.children@).len(),
        t.below(id, shown_of(t, spec_effective_children(t, id))[j]),
    ensures
        item_fits(t, id, parent_limits, f, size, r, j, choose|c0: LayoutModel| item_fits(t, id, parent_limits, f, size, r, j, c0)),
{
    let e = spec_effective_children(t, id);
    let s = shown_models(t, e, r.children@);
    let ids = shown_of(t, e);
    let axis = f.axis;
    let gap_main = smain(&f.gap, axis);
    let gap_cross = scross(&f.gap, axis);
    let lens = main_lens(s, axis);
    let measures = line_measures(t, ids, s, axis);
    let limits = parent_limits.spec_self_limits(size).spec_shrink(f.block_model.spec_full_padding().spec_size());
    let max_main = smain(&limits.max, axis);
    let max_cross = scross(&limits.max, axis);
    let st = flex_sizing(t, ids, lens, measures, f, max_main, max_cross, s.len() as int);
    let cfc = sat_sub(st.cfc, st.lines_max.last());
    let crosses = Seq::new(st.lines_max.len(), |l: int| line_cross(size, axis, st.lines_max, cfc, max_cross, l));
    let line_of = st.line_of;
    assert(t.below(id, ids[j]));
    let s_j = s[j];
    let w = choose|c0: LayoutModel|
        {
            &&& (is_fluid(t, ids[j], axis) ==> laid_out_in(t, ids[j], fluid_item_limits(t, ids, st, crosses, axis, j), size, c0))
            &&& (!is_fluid(t, ids[j], axis) ==> laid_out_in(
                t,
                ids[j],
                fixed_item_limits(t, ids, lens, measures, f, max_main, max_cross, j),
                size,
                c0,
            ))
            &&& #[trigger] moved_model(
                c0,
                s[j],
                canon_point(
                    axis,
                    coord(item_start(line_of, lens, gap_main, j)),
                    coord(item_cross_start(line_of, crosses, gap_cross, j)),
                ),
                align_shift(
                    f.horizontal_align,
                    f.vertical_align,
                    canon_size(axis, smain(&r.inner.size, axis), crosses[line_of[j]]).spec_sub(
                        canon_size(axis, line_end_from(line_of, lens, gap_main, j), scross(&s[j].outer.size, axis)),
                    ),
                ),
            )
        };
    assert(item_fits(t, id, parent_limits, f, size, r, j, w));
}

/// The fixed items of two flex layouts of one node are laid out alike, item
/// by item, as long as the items before them are.
#[verifier::rlimit(60)]
#[verifier::spinoff_prover]
proof fn lemma_fixed_items_unique(
    t: LayoutArena,
    id: ElId,
    ids: Seq<ElId>,
    f: FlexLayout,
    mm: u32,
    mc: u32,
    size: Size<Length>,
    sa: Seq<LayoutModel>,
    sb: Seq<LayoutModel>,
    wa: Seq<LayoutModel>,
    wb: Seq<LayoutModel>,
    j: int,
)
    requires
        t.wf(),
        0 <= j <= ids.len(),
        sa.len() == ids.len(),
        sb.len() == ids.len(),
        wa.len() == ids.len(),
        wb.len() == ids.len(),
        forall|i: int| 0 <= i < ids.len() ==> t.below(id, #[trigger] ids[i]),
        forall|i: int| 0 <= i < ids.len() ==> (#[trigger] sa[i]).outer.size == wa[i].outer.size,
        forall|i: int| 0 <= i < ids.len() ==> (#[trigger] sb[i]).outer.size == wb[i].outer.size,
        forall|i: int|
            0 <= i < ids.len() && !is_fluid(t, ids[i], f.axis) ==> laid_out_in(
                t,
                ids[i],
                fixed_item_limits(t, ids, main_lens(sa, f.axis), line_measures(t, ids, sa, f.axis), f, mm, mc, i),
                size,
                #[trigger] wa[i],
            ),
        forall|i: int|
            0 <= i < ids.len() && !is_fluid(t, ids[i], f.axis) ==> laid_out_in(
                t,
                ids[i],
                fixed_item_limits(t, ids, main_lens(sb, f.axis), line_measures(t, ids, sb, f.axis), f, mm, mc, i),
                size,
                #[trigger] wb[i],
            ),
    ensures
        forall|i: int| 0 <= i < j && !is_fluid(t, ids[i], f.axis) ==> identical(#[trigger] wa[i], wb[i]),
    decreases t.rank(id as int), 0nat, j,
{
    if j > 0 {
        lemma_fixed_items_unique(t, id, ids, f, mm, mc, size, sa, sb, wa, wb, j - 1);
        let k = j - 1;
        if !is_fluid(t, ids[k], f.axis) {
            let la = main_lens(sa, f.axis);
            let lb = main_lens(sb, f.axis);
            let ma = line_measures(t, ids, sa, f.axis);
            let mb = line_measures(t, ids, sb, f.axis);
            assert forall|i: int| 0 <= i < k implies #[trigger] ma[i] == mb[i] by {
                if !is_fluid(t, ids[i], f.axis) {
                    assert(identical(wa[i], wb[i]));
                    assert(sa[i].outer.size == sb[i].outer.size);
                }
            }
            assert forall|i: int| 0 <= i < k && !is_fluid(t, ids[i], f.axis) implies #[trigger] la[i] == lb[i] by {
                assert(identical(wa[i], wb[i]));
                assert(sa[i].outer.size == sb[i].outer.size);
            }
            lemma_sizing_agree(t, ids, la, ma, lb, mb, f, mm, mc, k);
            assert(fixed_item_limits(t, ids, la, ma, f, mm, mc, k) == fixed_item_limits(t, ids, lb, mb, f, mm, mc, k));
            lemma_laid_out_unique(t, ids[k], fixed_item_limits(t, ids, la, ma, f, mm, mc, k), size, wa[k], wb[k]);
        }
    }
}

/// Children that agree where the flex lays them out, and are empty where it
/// does not, agree everywhere.
proof fn lemma_shown_identical(t: LayoutArena, e: Seq<ElId>, a: Seq<LayoutModel>, b: Seq<LayoutModel>)
    requires
        a.len() == e.len(),
        b.len() == e.len(),
        forall|k: int| 0 <= k < e.len() && !takes_part(t, e[k]) ==> zero_model(#[trigger] a[k], e[k]),
        forall|k: int| 0 <= k < e.len() && !takes_part(t, e[k]) ==> zero_model(#[trigger] b[k], e[k]),
        shown_models(t, e, a).len() == shown_models(t, e, b).len(),
        forall|j: int| 0 <= j < shown_models(t, e, a).len() ==> identical(#[trigger] shown_models(t, e, a)[j], shown_models(t, e, b)[j]),
    ensures
        forall|k: int| 0 <= k < e.len() ==> identical(#[trigger] a[k], b[k]),
    decreases e.len(),
{
    if e.len() > 0 {
        let n = e.len() - 1;
        let sa = shown_models(t, e.drop_last(), a.drop_last());
        let sb = shown_models(t, e.drop_last(), b.drop_last());
        lemma_shown_len(t, e.drop_last(), a.drop_last());
        lemma_shown_len(t, e.drop_last(), b.drop_last());
        assert forall|j: int| 0 <= j < sa.len() implies identical(#[trigger] sa[j], sb[j]) by {
            assert(sa[j] == shown_models(t, e, a)[j]);
            assert(sb[j] == shown_models(t, e, b)[j]);
        }
        lemma_shown_identical(t, e.drop_last(), a.drop_last(), b.drop_last());
        if takes_part(t, e.last()) {
            assert(shown_models(t, e, a)[sa.len() as int] == a[n]);
            assert(shown_models(t, e, b)[sb.len() as int] == b[n]);
        } else {
            lemma_zero_identical(a[n], b[n], e[n]);
        }
        assert forall|k: int| 0 <= k < e.len() implies identical(#[trigger] a[k], b[k]) by {
            if k < n {
                assert(a[k] == a.drop_last()[k]);
                assert(b[k] == b.drop_last()[k]);
            }
        }
    }
}

/// How many models stand for the children a flex lays out.
proof fn lemma_shown_len(t: LayoutArena, e: Seq<ElId>, a: Seq<LayoutModel>)
    requires
        a.len() == e.len(),
    ensures
        shown_models(t, e, a).len() == shown_of(t, e).len(),
    decreases e.len(),
{
    if e.len() > 0 {
        lemma_shown_len(t, e.drop_last(), a.drop_last());
    }
}

/// The models the items of a flex laid out as `r` come from.
proof fn flex_witnesses(t: LayoutArena, id: ElId, l: Limits, f: FlexLayout, size: Size<Length>, r: LayoutModel) -> (w: Seq<LayoutModel>)
    requires
        t.wf(),
        flex_children_laid_out(t, id, l, f, size, r),
    ensures
        w.len() == shown_of(t, spec_effective_children(t, id)).len(),
        shown_models(t, spec_effective_children(t, id), r.children@).len() == w.len(),
        forall|j: int| 0 <= j < w.len() ==> item_fits(t, id, l, f, size, r, j, #[trigger] w[j]),
{
    let e = spec_effective_children(t, id);
    lemma_effective_children(t, id);
    let ids = shown_of(t, e);
    lemma_shown_members(t, e);
    lemma_shown_len(t, e, r.children@);
    let n = ids.len() as int;
    let w = Seq::new(n as nat, |j: int| choose|c0: LayoutModel| item_fits(t, id, l, f, size, r, j, c0));
    assert forall|j: int| 0 <= j < n implies item_fits(t, id, l, f, size, r, j, #[trigger] w[j]) by {
        let k = choose|k: int| 0 <= k < e.len() && e[k] == ids[j];
        assert(t.below(id, e[k]));
        lemma_item_fits(t, id, l, f, size, r, j);
    }
    w
}

/// The items of two flex layouts of one node come from identical models,
/// and have the same main lengths and cross measures.
#[verifier::rlimit(60)]
#[verifier::spinoff_prover]
proof fn lemma_items_unique(
    t: LayoutArena,
    id: ElId,
    l: Limits,
    f: FlexLayout,
    size: Size<Length>,
    a: LayoutModel,
    b: LayoutModel,
    wa: Seq<LayoutModel>,
    wb: Seq<LayoutModel>,
)
    requires
        t.wf(),
        wa.len() == shown_of(t, spec_effective_children(t, id)).len(),
        wb.len() == wa.len(),
        shown_models(t, spec_effective_children(t, id), a.children@).len() == wa.len(),
        shown_models(t, spec_effective_children(t, id), b.children@).len() == wa.len(),
        forall|j: int| 0 <= j < wa.len() ==> item_fits(t, id, l, f, size, a, j, #[trigger] wa[j]),
        forall|j: int| 0 <= j < wb.len() ==> item_fits(t, id, l, f, size, b, j, #[trigger] wb[j]),
    ensures
        forall|i: int| 0 <= i < wa.len() ==> identical(#[trigger] wa[i], wb[i]),
        main_lens(shown_models(t, spec_effective_children(t, id), a.children@), f.axis) == main_lens(
            shown_models(t, spec_effective_children(t, id), b.children@),
            f.axis,
        ),
        line_measures(
            t,
            shown_of(t, spec_effective_children(t, id)),
            shown_models(t, spec_effective_children(t, id), a.children@),
            f.axis,
        ) == line_measures(
            t,
            shown_of(t, spec_effective_children(t, id)),
            shown_models(t, spec_effective_children(t, id), b.children@),
            f.axis,
        ),
    decreases t.rank(id as int), 1nat, 0int,
{
    let e = spec_effective_children(t, id);
    lemma_effective_children(t, id);
    let ids = shown_of(t, e);
    lemma_shown_members(t, e);
    assert forall|i: int| 0 <= i < ids.len() implies t.below(id, #[trigger] ids[i]) by {
        let k = choose|k: int| 0 <= k < e.len() && e[k] == ids[i];
        assert(t.below(id, e[k]));
    }
    let sa = shown_models(t, e, a.children@);
    let sb = shown_models(t, e, b.children@);
    let n = ids.len() as int;
    let axis = f.axis;
    let limits = l.spec_self_limits(size).spec_shrink(f.block_model.spec_full_padding().spec_size());
    let mm = smain(&limits.max, axis);
    let mc = scross(&limits.max, axis);
    let la = main_lens(sa, axis);
    let lb = main_lens(sb, axis);
    let ma = line_measures(t, ids, sa, axis);
    let mb = line_measures(t, ids, sb, axis);
    assert forall|i: int| 0 <= i < n implies (#[trigger] sa[i]).outer.size == wa[i].outer.size && sb[i].outer.size
        == wb[i].outer.size && (!is_fluid(t, ids[i], axis) ==> laid_out_in(
        t,
        ids[i],
        fixed_item_limits(t, ids, la, ma, f, mm, mc, i),
        size,
        wa[i],
    ) && laid_out_in(t, ids[i], fixed_item_limits(t, ids, lb, mb, f, mm, mc, i), size, wb[i])) by {
        assert(item_fits(t, id, l, f, size, a, i, wa[i]));
        assert(item_fits(t, id, l, f, size, b, i, wb[i]));
    }
    lemma_fixed_items_unique(t, id, ids, f, mm, mc, size, sa, sb, wa, wb, n);
    assert forall|i: int| 0 <= i < n implies #[trigger] ma[i] == mb[i] by {
        if !is_fluid(t, ids[i], axis) {
            assert(identical(wa[i], wb[i]));
        }
    }
    assert forall|i: int| 0 <= i < n && !is_fluid(t, ids[i], axis) implies #[trigger] la[i] == lb[i] by {
        assert(identical(wa[i], wb[i]));
    }
    lemma_sizing_agree(t, ids, la, ma, lb, mb, f, mm, mc, n);
    let sta = flex_sizing(t, ids, la, ma, f, mm, mc, n);
    let cfc = sat_sub(sta.cfc, sta.lines_max.last());
    let crosses = Seq::new(sta.lines_max.len(), |k: int| line_cross(size, axis, sta.lines_max, cfc, mc, k));
    assert forall|i: int| 0 <= i < n implies identical(#[trigger] wa[i], wb[i]) by {
        if is_fluid(t, ids[i], axis) {
            assert(item_fits(t, id, l, f, size, a, i, wa[i]));
            assert(item_fits(t, id, l, f, size, b, i, wb[i]));
            lemma_laid_out_unique(t, ids[i], fluid_item_limits(t, ids, sta, crosses, axis, i), size, wa[i], wb[i]);
        }
    }
    assert(la =~= lb);
    assert(ma =~= mb);
}

/// Two flex layouts of one node in the same limits agree: the same inner
/// size and identical children.
#[verifier::rlimit(60)]
#[verifier::spinoff_prover]
pub(crate) proof fn lemma_flex_unique(t: LayoutArena, id: ElId, l: Limits, f: FlexLayout, size: Size<Length>, a: LayoutModel, b: LayoutModel)
    requires
        t.wf(),
        flex_laid_out(t, id, l, f, size, a),
        flex_children_laid_out(t, id, l, f, size, a),
        flex_laid_out(t, id, l, f, size, b),
        flex_children_laid_out(t, id, l, f, size, b),
    ensures
        a.inner.size == b.inner.size,
        a.children@.len() == b.children@.len(),
        forall|k: int| 0 <= k < a.children@.len() ==> identical(#[trigger] a.children@[k], b.children@[k]),
    decreases t.rank(id as int), 1nat, 1int,
{
    let e = spec_effective_children(t, id);
    let ids = shown_of(t, e);
    let sa = shown_models(t, e, a.children@);
    let sb = shown_models(t, e, b.children@);
    let wa = flex_witnesses(t, id, l, f, size, a);
    let wb = flex_witnesses(t, id, l, f, size, b);
    lemma_items_unique(t, id, l, f, size, a, b, wa, wb);
    let n = ids.len() as int;
    let axis = f.axis;
    let limits = l.spec_self_limits(size).spec_shrink(f.block_model.spec_full_padding().spec_size());
    let mm = smain(&limits.max, axis);
    let mc = scross(&limits.max, axis);
    let la = main_lens(sa, axis);
    let ma = line_measures(t, ids, sa, axis);
    let sta = flex_sizing(t, ids, la, ma, f, mm, mc, n);
    let cfc = sat_sub(sta.cfc, sta.lines_max.last());
    let crosses = Seq::new(sta.lines_max.len(), |k: int| line_cross(size, axis, sta.lines_max, cfc, mc, k));
    assert(a.inner.size == b.inner.size);
    assert forall|j: int| 0 <= j < n implies identical(#[trigger] sa[j], sb[j]) by {
        assert(item_fits(t, id, l, f, size, a, j, wa[j]));
        assert(item_fits(t, id, l, f, size, b, j, wb[j]));
        assert(identical(wa[j], wb[j]));
        let gap_main = smain(&f.gap, axis);
        let gap_cross = scross(&f.gap, axis);
        let line_of = sta.line_of;
        lemma_moved_identical(
            wa[j],
            wb[j],
            sa[j],
            sb[j],
            canon_point(axis, coord(item_start(line_of, la, gap_main, j)), coord(item_cross_start(line_of, crosses, gap_cross, j))),
            align_shift(
                f.horizontal_align,
                f.vertical_align,
                canon_size(axis, smain(&a.inner.size, axis), crosses[line_of[j]]).spec_sub(
                    canon_size(axis, line_end_from(line_of, la, gap_main, j), scross(&sa[j].outer.size, axis)),
                ),
            ),
        );
    }
    lemma_shown_identical(t, e, a.children@, b.children@);
}

/// `a` and `b` put one after the other along `axis`: their main lengths
/// added (saturating), the larger of their cross lengths.
pub open spec fn stacked(axis: Axis, a: Size<u32>, b: Size<u32>) -> Size<u32> {
    canon_size(axis, sat_add(smain(&a, axis), smain(&b, axis)), max_of_spec(scross(&a, axis), scross(&b, axis)))
}

/// The content limits of a flex along `axis` whose children have the
/// content limits `cs`, from the unlimited limits on: the minimums stacked,
/// and the maximums stacked.
pub open spec fn spec_flex_content_size(axis: Axis, cs: Seq<Limits>) -> Limits
    decreases cs.len(),
{
    if cs.len() == 0 {
        Limits { min: Size { width: 0, height: 0 }, max: Size { width: u32::MAX, height: u32::MAX } }
    } else {
        let acc = spec_flex_content_size(axis, cs.drop_last());
        Limits { min: stacked(axis, acc.min, cs.last().min), max: stacked(axis, acc.max, cs.last().max) }
    }
}

fn stack(axis: Axis, a: Size<u32>, b: Size<u32>) -> (r: Size<u32>)
    ensures
        r == stacked(axis, a, b),
{
    let m = a.main(axis).saturating_add(b.main(axis));
    let ac = a.cross(axis);
    let bc = b.cross(axis);
    let c = if ac >= bc { ac } else { bc };
    axis.canon(m, c)
}

/// The content limits of a flex along `axis` whose children have the
/// content limits `children`: along the axis the minimums and the maximums
/// add up (saturating), across it the largest of each counts. Wrapping and
/// gaps are not taken into account.
pub fn flex_content_size(axis: Axis, children: &[Limits]) -> (r: Limits)
    ensures
        r == spec_flex_content_size(axis, children@),
{
    let mut limits = Limits::unlimited();
    let mut i: usize = 0;
    while i < children.len()
        invariant
            i <= children@.len(),
            limits == spec_flex_content_size(axis, children@.take(i as int)),
        decreases children@.len() - i,
    {
        proof {
            assert(children@.take(i + 1).drop_last() == children@.take(i as int));
            assert(children@.take(i + 1).last() == children@[i as int]);
        }
        let c = children[i];
        limits = Limits::new(stack(axis, limits.min, c.min), stack(axis, limits.max, c.max));
        i = i + 1;
    }
    proof {
        assert(children@.take(children@.len() as int) == children@);
    }
    limits
}

} // verus!
