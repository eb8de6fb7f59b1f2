//! Grouping and ordering modes for presentation.
//!
//! A listing shows only user-visible modes, each marked current or not, split
//! into two groups: HiDPI-or-Retina modes and standard modes, each group
//! sorted ascending by mode number. The whole procedure is a function of its
//! input alone, pinned by `categorized_group`, so re-running it on the same
//! collection yields the identical listing.

use vstd::prelude::*;

use crate::mode::{
    abs_diff, axis_match, expected_pixels, is_current_mode, mode_is_current, pixel_match,
    refresh_match, CgGeometry, CurrentModeContext, ModeDescriptor, Tolerances,
};

verus! {

/// One line of a listing: a mode and whether it is the current one.
#[derive(Clone, Copy, Debug, PartialEq, Eq, Structural)]
pub struct ModeEntry {
    /// The mode shown.
    pub mode: ModeDescriptor,
    /// Whether this entry is marked as the display's current mode.
    pub is_current: bool,
}

/// A categorized listing: HiDPI-or-Retina modes first, then standard modes,
/// each sorted ascending by mode number.
#[derive(Clone, Debug, PartialEq, Eq)]
pub struct ModeListing {
    /// The user-visible modes flagged HiDPI or Retina.
    pub hidpi: Vec<ModeEntry>,
    /// The remaining user-visible modes.
    pub standard: Vec<ModeEntry>,
}

/// The entry a mode becomes: the mode itself, marked current or not.
pub open spec fn entry_of(m: ModeDescriptor, ctx: CurrentModeContext, tol: Tolerances) -> ModeEntry {
    ModeEntry { mode: m, is_current: is_current_mode(m, ctx, tol) }
}

/// Whether a mode belongs to the given group of a listing: it must be
/// user-visible, and in the HiDPI group exactly when flagged HiDPI or Retina.
pub open spec fn in_group(m: ModeDescriptor, hidpi_group: bool) -> bool {
    m.is_user_visible && ((m.is_hidpi || m.is_retina) == hidpi_group)
}

/// One group's entries in input order: the user-visible modes that belong to
/// the group, each marked current or not.
pub open spec fn group_entries(
    s: Seq<ModeDescriptor>,
    hidpi_group: bool,
    ctx: CurrentModeContext,
    tol: Tolerances,
) -> Seq<ModeEntry>
    decreases s.len(),
{
    if s.len() == 0 {
        Seq::empty()
    } else {
        let rest = group_entries(s.drop_last(), hidpi_group, ctx, tol);
        if in_group(s.last(), hidpi_group) {
            rest.push(entry_of(s.last(), ctx, tol))
        } else {
            rest
        }
    }
}

/// An entry put into an already-sorted sequence, after any entries with the
/// same mode number, so equal numbers keep their arrival order.
pub open spec fn insert_sorted(s: Seq<ModeEntry>, e: ModeEntry) -> Seq<ModeEntry>
    decreases s.len(),
{
    if s.len() == 0 {
        seq![e]
    } else if s.last().mode.mode_number <= e.mode.mode_number {
        s.push(e)
    } else {
        insert_sorted(s.drop_last(), e).push(s.last())
    }
}

/// A sequence of entries sorted ascending by mode number, stably: entries
/// with equal numbers keep their input order.
pub open spec fn sort_entries(s: Seq<ModeEntry>) -> Seq<ModeEntry>
    decreases s.len(),
{
    if s.len() == 0 {
        Seq::empty()
    } else {
        insert_sorted(sort_entries(s.drop_last()), s.last())
    }
}

/// What one group of the finished listing is: the group's entries in input
/// order, sorted ascending by mode number.
pub open spec fn categorized_group(
    s: Seq<ModeDescriptor>,
    hidpi_group: bool,
    ctx: CurrentModeContext,
    tol: Tolerances,
) -> Seq<ModeEntry> {
    sort_entries(group_entries(s, hidpi_group, ctx, tol))
}

/// Ascending order by mode number.
pub open spec fn sorted_by_number(s: Seq<ModeEntry>) -> bool {
    forall|i: int, j: int| 0 <= i < j < s.len() ==> s[i].mode.mode_number <= s[j].mode.mode_number
}

/// How many entries are marked current.
pub open spec fn count_current(s: Seq<ModeEntry>) -> int
    decreases s.len(),
{
    if s.len() == 0 {
        0
    } else {
        count_current(s.drop_last()) + if s.last().is_current {
            1int
        } else {
            0int
        }
    }
}

/// How many modes would be presented and marked current: the user-visible
/// ones that the current-mode rule selects.
pub open spec fn count_marked(
    s: Seq<ModeDescriptor>,
    ctx: CurrentModeContext,
    tol: Tolerances,
) -> int
    decreases s.len(),
{
    if s.len() == 0 {
        0
    } else {
        count_marked(s.drop_last(), ctx, tol) + if s.last().is_user_visible && is_current_mode(
            s.last(),
            ctx,
            tol,
        ) {
            1int
        } else {
            0int
        }
    }
}

proof fn lemma_count_current_push(s: Seq<ModeEntry>, e: ModeEntry)
    ensures
        count_current(s.push(e)) == count_current(s) + if e.is_current {
            1int
        } else {
            0int
        },
{
    assert(s.push(e).drop_last() =~= s);
    assert(s.push(e).last() == e);
}

proof fn lemma_insert_sorted_count(s: Seq<ModeEntry>, e: ModeEntry)
    ensures
        count_current(insert_sorted(s, e)) == count_current(s) + if e.is_current {
            1int
        } else {
            0int
        },
    decreases s.len(),
{
    if s.len() == 0 {
        assert(insert_sorted(s, e) =~= Seq::empty().push(e));
        lemma_count_current_push(Seq::empty(), e);
        assert(count_current(Seq::<ModeEntry>::empty()) == 0);
    } else if s.last().mode.mode_number <= e.mode.mode_number {
        lemma_count_current_push(s, e);
    } else {
        lemma_insert_sorted_count(s.drop_last(), e);
        lemma_count_current_push(insert_sorted(s.drop_last(), e), s.last());
    }
}

proof fn lemma_sort_entries_count(s: Seq<ModeEntry>)
    ensures
        count_current(sort_entries(s)) == count_current(s),
    decreases s.len(),
{
    if s.len() != 0 {
        lemma_sort_entries_count(s.drop_last());
        lemma_insert_sorted_count(sort_entries(s.drop_last()), s.last());
    }
}

proof fn lemma_insert_sorted_contains(s: Seq<ModeEntry>, e: ModeEntry, x: ModeEntry)
    ensures
        insert_sorted(s, e).contains(x) <==> (s.contains(x) || x == e),
    decreases s.len(),
{
    if s.len() == 0 {
        assert(seq![e].contains(x) <==> x == e) by {
            if seq![e].contains(x) {
                let i = choose|i: int| 0 <= i < seq![e].len() && seq![e][i] == x;
                assert(i == 0);
            }
            if x == e {
                assert(seq![e][0] == x);
            }
        }
        assert(!s.contains(x));
    } else if s.last().mode.mode_number <= e.mode.mode_number {
        assert(s.push(e).contains(x) <==> (s.contains(x) || x == e)) by {
            if s.push(e).contains(x) {
                let i = choose|i: int| 0 <= i < s.push(e).len() && s.push(e)[i] == x;
                if i < s.len() {
                    assert(s[i] == x);
                }
            }
            if s.contains(x) {
                let i = choose|i: int| 0 <= i < s.len() && s[i] == x;
                assert(s.push(e)[i] == x);
            }
            if x == e {
                assert(s.push(e)[s.len() as int] == x);
            }
        }
    } else {
        lemma_insert_sorted_contains(s.drop_last(), e, x);
        let inner = insert_sorted(s.drop_last(), e);
        assert(inner.push(s.last()).contains(x) <==> (inner.contains(x) || x == s.last())) by {
            if inner.push(s.last()).contains(x) {
                let i = choose|i: int|
                    0 <= i < inner.push(s.last()).len() && inner.push(s.last())[i] == x;
                if i < inner.len() {
                    assert(inner[i] == x);
                }
            }
            if inner.contains(x) {
                let i = choose|i: int| 0 <= i < inner.len() && inner[i] == x;
                assert(inner.push(s.last())[i] == x);
            }
            if x == s.last() {
                assert(inner.push(s.last())[inner.len() as int] == x);
            }
        }
        assert(s.contains(x) <==> (s.drop_last().contains(x) || x == s.last())) by {
            if s.contains(x) {
                let i = choose|i: int| 0 <= i < s.len() && s[i] == x;
                if i < s.len() - 1 {
                    assert(s.drop_last()[i] == x);
                }
            }
            if s.drop_last().contains(x) {
                let i = choose|i: int| 0 <= i < s.drop_last().len() && s.drop_last()[i] == x;
                assert(s[i] == x);
            }
            if x == s.last() {
                assert(s[s.len() - 1] == x);
            }
        }
    }
}

proof fn lemma_sort_entries_contains(s: Seq<ModeEntry>, x: ModeEntry)
    ensures
        sort_entries(s).contains(x) <==> s.contains(x),
    decreases s.len(),
{
    if s.len() != 0 {
        lemma_sort_entries_contains(s.drop_last(), x);
        lemma_insert_sorted_contains(sort_entries(s.drop_last()), s.last(), x);
        assert(s.contains(x) <==> (s.drop_last().contains(x) || x == s.last())) by {
            if s.contains(x) {
                let i = choose|i: int| 0 <= i < s.len() && s[i] == x;
                if i < s.len() - 1 {
                    assert(s.drop_last()[i] == x);
                }
            }
            if s.drop_last().contains(x) {
                let i = choose|i: int| 0 <= i < s.drop_last().len() && s.drop_last()[i] == x;
                assert(s[i] == x);
            }
            if x == s.last() {
                assert(s[s.len() - 1] == x);
            }
        }
    }
}

proof fn lemma_insert_sorted_sorted(s: Seq<ModeEntry>, e: ModeEntry)
    requires
        sorted_by_number(s),
    ensures
        sorted_by_number(insert_sorted(s, e)),
        insert_sorted(s, e).len() == s.len() + 1,
    decreases s.len(),
{
    if s.len() == 0 {
    } else if s.last().mode.mode_number <= e.mode.mode_number {
        let r = s.push(e);
        assert forall|i: int, j: int| 0 <= i < j < r.len() implies r[i].mode.mode_number
            <= r[j].mode.mode_number by {
            if j < s.len() {
                assert(s[i].mode.mode_number <= s[j].mode.mode_number);
            } else {
                assert(r[j] == e);
                if i < s.len() - 1 {
                    assert(s[i].mode.mode_number <= s[s.len() - 1].mode.mode_number);
                }
            }
        }
    } else {
        assert(sorted_by_number(s.drop_last()));
        lemma_insert_sorted_sorted(s.drop_last(), e);
        let inner = insert_sorted(s.drop_last(), e);
        let r = inner.push(s.last());
        assert forall|k: int| 0 <= k < inner.len() implies inner[k].mode.mode_number
            <= s.last().mode.mode_number by {
            assert(inner.contains(inner[k]));
            lemma_insert_sorted_contains(s.drop_last(), e, inner[k]);
            if inner[k] == e {
            } else {
                let i = choose|i: int| 0 <= i < s.drop_last().len() && s.drop_last()[i] == inner[k];
                assert(s[i] == inner[k]);
                assert(s[i].mode.mode_number <= s[s.len() - 1].mode.mode_number);
            }
        }
        assert forall|i: int, j: int| 0 <= i < j < r.len() implies r[i].mode.mode_number
            <= r[j].mode.mode_number by {
            if j < inner.len() {
                assert(inner[i].mode.mode_number <= inner[j].mode.mode_number);
            } else {
                assert(r[j] == s.last());
            }
        }
    }
}

/// Sorting a group of entries keeps exactly its entries, in ascending order
/// by mode number, and does not change how many are marked current.
pub proof fn lemma_sort_entries_ensures(s: Seq<ModeEntry>)
    ensures
        sorted_by_number(sort_entries(s)),
        sort_entries(s).len() == s.len(),
        forall|x: ModeEntry| #[trigger] sort_entries(s).contains(x) <==> s.contains(x),
        count_current(sort_entries(s)) == count_current(s),
    decreases s.len(),
{
    lemma_sort_entries_count(s);
    assert forall|x: ModeEntry| #[trigger] sort_entries(s).contains(x) <==> s.contains(x) by {
        lemma_sort_entries_contains(s, x);
    }
    if s.len() != 0 {
        lemma_sort_entries_ensures(s.drop_last());
        lemma_insert_sorted_sorted(sort_entries(s.drop_last()), s.last());
    }
}

/// Every entry of a group comes from a mode of the input that belongs to the
/// group, marked exactly as the current-mode rule says.
pub proof fn lemma_group_entries_source(
    s: Seq<ModeDescriptor>,
    hidpi_group: bool,
    ctx: CurrentModeContext,
    tol: Tolerances,
)
    ensures
        forall|x: ModeEntry| #[trigger] group_entries(s, hidpi_group, ctx, tol).contains(x)
            ==> exists|i: int|
            0 <= i < s.len() && in_group(#[trigger] s[i], hidpi_group) && x == entry_of(
                s[i],
                ctx,
                tol,
            ),
    decreases s.len(),
{
    if s.len() != 0 {
        lemma_group_entries_source(s.drop_last(), hidpi_group, ctx, tol);
        let rest = group_entries(s.drop_last(), hidpi_group, ctx, tol);
        assert forall|x: ModeEntry| #[trigger] group_entries(s, hidpi_group, ctx, tol).contains(x)
            implies exists|i: int|
            0 <= i < s.len() && in_group(#[trigger] s[i], hidpi_group) && x == entry_of(
                s[i],
                ctx,
                tol,
            ) by {
            let g = group_entries(s, hidpi_group, ctx, tol);
            if in_group(s.last(), hidpi_group) {
                let k = choose|k: int| 0 <= k < g.len() && g[k] == x;
                if k < rest.len() {
                    assert(rest[k] == x);
                    assert(rest.contains(x));
                    let i = choose|i: int|
                        0 <= i < s.drop_last().len() && in_group(
                            #[trigger] s.drop_last()[i],
                            hidpi_group,
                        ) && x == entry_of(s.drop_last()[i], ctx, tol);
                    assert(s[i] == s.drop_last()[i]);
                } else {
                    assert(x == entry_of(s.last(), ctx, tol));
                    assert(s[s.len() - 1] == s.last());
                }
            } else {
                assert(rest.contains(x));
                let i = choose|i: int|
                    0 <= i < s.drop_last().len() && in_group(
                        #[trigger] s.drop_last()[i],
                        hidpi_group,
                    ) && x == entry_of(s.drop_last()[i], ctx, tol);
                assert(s[i] == s.drop_last()[i]);
            }
        }
    }
}

/// The two groups together mark exactly as many entries current as the
/// current-mode rule selects among the user-visible input modes.
pub proof fn lemma_group_count_sum(s: Seq<ModeDescriptor>, ctx: CurrentModeContext, tol: Tolerances)
    ensures
        count_current(group_entries(s, true, ctx, tol)) + count_current(
            group_entries(s, false, ctx, tol),
        ) == count_marked(s, ctx, tol),
    decreases s.len(),
{
    if s.len() != 0 {
        lemma_group_count_sum(s.drop_last(), ctx, tol);
        let m = s.last();
        if in_group(m, true) {
            lemma_count_current_push(group_entries(s.drop_last(), true, ctx, tol), entry_of(m, ctx, tol));
        } else if in_group(m, false) {
            lemma_count_current_push(group_entries(s.drop_last(), false, ctx, tol), entry_of(m, ctx, tol));
        }
    }
}

proof fn lemma_insert_sorted_position(s: Seq<ModeEntry>, e: ModeEntry, j: int)
    requires
        0 <= j <= s.len(),
        forall|k: int| j <= k < s.len() ==> s[k].mode.mode_number > e.mode.mode_number,
        j > 0 ==> s[j - 1].mode.mode_number <= e.mode.mode_number,
    ensures
        insert_sorted(s, e) == s.insert(j, e),
    decreases s.len(),
{
    if s.len() == 0 {
        assert(s.insert(0, e) =~= seq![e]);
    } else if j == s.len() {
        assert(s.last().mode.mode_number <= e.mode.mode_number);
        assert(s.insert(j, e) =~= s.push(e));
    } else {
        assert(s[s.len() - 1].mode.mode_number > e.mode.mode_number);
        lemma_insert_sorted_position(s.drop_last(), e, j);
        assert(s.drop_last().insert(j, e).push(s.last()) =~= s.insert(j, e));
    }
}

fn insert_entry(v: &mut Vec<ModeEntry>, e: ModeEntry)
    ensures
        final(v)@ == insert_sorted(old(v)@, e),
{
    let mut j: usize = v.len();
    while j > 0 && v[j - 1].mode.mode_number > e.mode.mode_number
        invariant
            j <= v@.len(),
            v@ == old(v)@,
            forall|k: int| j <= k < v@.len() ==> v@[k].mode.mode_number > e.mode.mode_number,
        decreases j,
    {
        j = j - 1;
    }
    proof {
        lemma_insert_sorted_position(v@, e, j as int);
    }
    v.insert(j, e);
}

fn sort_entries_exec(v: &Vec<ModeEntry>) -> (r: Vec<ModeEntry>)
    ensures
        r@ == sort_entries(v@),
{
    let mut out: Vec<ModeEntry> = Vec::new();
    let n = v.len();
    let mut i: usize = 0;
    while i < n
        invariant
            n == v@.len(),
            i <= n,
            out@ == sort_entries(v@.take(i as int)),
        decreases n - i,
    {
        insert_entry(&mut out, v[i]);
        proof {
            assert(v@.take(i + 1).drop_last() =~= v@.take(i as int));
            assert(v@.take(i + 1).last() == v@[i as int]);
        }
        i = i + 1;
    }
    proof {
        assert(v@.take(n as int) =~= v@);
    }
    out
}

/// Builds the categorized listing: only user-visible modes, each marked
/// current or not, split into the HiDPI-or-Retina group and the standard
/// group, each sorted ascending by mode number (stably, so the procedure is
/// a function of its input alone).
pub fn categorize_modes(
    modes: &Vec<ModeDescriptor>,
    ctx: &CurrentModeContext,
    tol: &Tolerances,
) -> (r: ModeListing)
    ensures
        r.hidpi@ == categorized_group(modes@, true, *ctx, *tol),
        r.standard@ == categorized_group(modes@, false, *ctx, *tol),
        sorted_by_number(r.hidpi@),
        sorted_by_number(r.standard@),
        forall|x: ModeEntry| #[trigger] r.hidpi@.contains(x) ==> in_group(x.mode, true)
            && x.is_current == is_current_mode(x.mode, *ctx, *tol),
        forall|x: ModeEntry| #[trigger] r.standard@.contains(x) ==> in_group(x.mode, false)
            && x.is_current == is_current_mode(x.mode, *ctx, *tol),
        count_current(r.hidpi@) + count_current(r.standard@) == count_marked(modes@, *ctx, *tol),
{
    let mut hidpi_group: Vec<ModeEntry> = Vec::new();
    let mut standard_group: Vec<ModeEntry> = Vec::new();
    let n = modes.len();
    let mut i: usize = 0;
    while i < n
        invariant
            n == modes@.len(),
            i <= n,
            hidpi_group@ == group_entries(modes@.take(i as int), true, *ctx, *tol),
            standard_group@ == group_entries(modes@.take(i as int), false, *ctx, *tol),
        decreases n - i,
    {
        let m = modes[i];
        if m.is_user_visible {
            let cur = mode_is_current(&m, ctx, tol);
            let entry = ModeEntry { mode: m, is_current: cur };
            if m.is_hidpi || m.is_retina {
                hidpi_group.push(entry);
            } else {
                standard_group.push(entry);
            }
        }
        proof {
            assert(modes@.take(i + 1).drop_last() =~= modes@.take(i as int));
            assert(modes@.take(i + 1).last() == modes@[i as int]);
        }
        i = i + 1;
    }
    proof {
        assert(modes@.take(n as int) =~= modes@);
    }
    let hidpi = sort_entries_exec(&hidpi_group);
    let standard = sort_entries_exec(&standard_group);
    proof {
        lemma_sort_entries_ensures(group_entries(modes@, true, *ctx, *tol));
        lemma_sort_entries_ensures(group_entries(modes@, false, *ctx, *tol));
        lemma_group_entries_source(modes@, true, *ctx, *tol);
        lemma_group_entries_source(modes@, false, *ctx, *tol);
        lemma_group_count_sum(modes@, *ctx, *tol);
    }
    ModeListing { hidpi, standard }
}

proof fn lemma_count_marked_zero(s: Seq<ModeDescriptor>, ctx: CurrentModeContext, tol: Tolerances)
    requires
        forall|i: int| 0 <= i < s.len() ==> !(#[trigger] s[i].is_user_visible && is_current_mode(
            s[i],
            ctx,
            tol,
        )),
    ensures
        count_marked(s, ctx, tol) == 0,
    decreases s.len(),
{
    if s.len() != 0 {
        assert forall|i: int| 0 <= i < s.drop_last().len() implies !(
        #[trigger] s.drop_last()[i].is_user_visible && is_current_mode(
            s.drop_last()[i],
            ctx,
            tol,
        )) by {
            assert(s.drop_last()[i] == s[i]);
        }
        lemma_count_marked_zero(s.drop_last(), ctx, tol);
        assert(s[s.len() - 1] == s.last());
    }
}

proof fn lemma_count_marked_single(
    s: Seq<ModeDescriptor>,
    ctx: CurrentModeContext,
    tol: Tolerances,
    n: i32,
)
    requires
        ctx.authoritative == Some(n),
        forall|i: int, j: int|
            0 <= i < s.len() && 0 <= j < s.len() && i != j && s[i].is_user_visible
                && s[j].is_user_visible ==> #[trigger] s[i].mode_number != #[trigger] s[j].mode_number,
        exists|i: int| 0 <= i < s.len() && #[trigger] s[i].is_user_visible && s[i].mode_number == n,
    ensures
        count_marked(s, ctx, tol) == 1,
    decreases s.len(),
{
    let last = s.last();
    assert(s[s.len() - 1] == last);
    if last.is_user_visible && last.mode_number == n {
        assert forall|i: int| 0 <= i < s.drop_last().len() implies !(
        #[trigger] s.drop_last()[i].is_user_visible && is_current_mode(
            s.drop_last()[i],
            ctx,
            tol,
        )) by {
            assert(s.drop_last()[i] == s[i]);
            if s[i].is_user_visible {
                assert(s[i].mode_number != s[s.len() - 1].mode_number);
            }
        }
        lemma_count_marked_zero(s.drop_last(), ctx, tol);
    } else {
        let w = choose|i: int|
            0 <= i < s.len() && #[trigger] s[i].is_user_visible && s[i].mode_number == n;
        assert(w != s.len() - 1);
        assert(s.drop_last()[w] == s[w]);
        assert forall|i: int, j: int|
            0 <= i < s.drop_last().len() && 0 <= j < s.drop_last().len() && i != j
                && s.drop_last()[i].is_user_visible && s.drop_last()[j].is_user_visible implies
        #[trigger] s.drop_last()[i].mode_number != #[trigger] s.drop_last()[j].mode_number by {
            assert(s.drop_last()[i] == s[i]);
            assert(s.drop_last()[j] == s[j]);
        }
        lemma_count_marked_single(s.drop_last(), ctx, tol, n);
        assert(!(last.is_user_visible && is_current_mode(last, ctx, tol)));
    }
}

proof fn lemma_count_marked_le_one(
    s: Seq<ModeDescriptor>,
    ctx: CurrentModeContext,
    tol: Tolerances,
)
    requires
        forall|i: int, j: int|
            0 <= i < s.len() && 0 <= j < s.len() && i != j ==> !((
            #[trigger] s[i].is_user_visible && is_current_mode(s[i], ctx, tol)) && (
            #[trigger] s[j].is_user_visible && is_current_mode(s[j], ctx, tol))),
    ensures
        count_marked(s, ctx, tol) <= 1,
    decreases s.len(),
{
    if s.len() != 0 {
        let last = s.last();
        assert(s[s.len() - 1] == last);
        if last.is_user_visible && is_current_mode(last, ctx, tol) {
            assert forall|i: int| 0 <= i < s.drop_last().len() implies !(
            #[trigger] s.drop_last()[i].is_user_visible && is_current_mode(
                s.drop_last()[i],
                ctx,
                tol,
            )) by {
                assert(s.drop_last()[i] == s[i]);
            }
            lemma_count_marked_zero(s.drop_last(), ctx, tol);
        } else {
            assert forall|i: int, j: int|
                0 <= i < s.drop_last().len() && 0 <= j < s.drop_last().len() && i != j implies !((
            #[trigger] s.drop_last()[i].is_user_visible && is_current_mode(
                s.drop_last()[i],
                ctx,
                tol,
            )) && (#[trigger] s.drop_last()[j].is_user_visible && is_current_mode(
                s.drop_last()[j],
                ctx,
                tol,
            ))) by {
                assert(s.drop_last()[i] == s[i]);
                assert(s.drop_last()[j] == s[j]);
            }
            lemma_count_marked_le_one(s.drop_last(), ctx, tol);
        }
    }
}

/// Re-running the grouping and sorting procedure on the same inputs yields
/// the identical categorized listing: the result is a function of the mode
/// collection, the current-mode signals, and the tolerances alone, with no
/// hidden state or randomness.
pub proof fn lemma_categorize_deterministic(
    s1: Seq<ModeDescriptor>,
    s2: Seq<ModeDescriptor>,
    ctx1: CurrentModeContext,
    ctx2: CurrentModeContext,
    tol1: Tolerances,
    tol2: Tolerances,
)
    requires
        s1 == s2,
        ctx1 == ctx2,
        tol1 == tol2,
    ensures
        categorized_group(s1, true, ctx1, tol1) == categorized_group(s2, true, ctx2, tol2),
        categorized_group(s1, false, ctx1, tol1) == categorized_group(s2, false, ctx2, tol2),
{
}

/// With an authoritative current-mode number that selects a unique
/// user-visible mode, the categorized listing marks exactly one entry
/// current across both groups, and that entry carries the given number.
pub proof fn lemma_authoritative_current_unique(
    s: Seq<ModeDescriptor>,
    ctx: CurrentModeContext,
    tol: Tolerances,
    n: i32,
)
    requires
        ctx.authoritative == Some(n),
        forall|i: int, j: int|
            0 <= i < s.len() && 0 <= j < s.len() && i != j && s[i].is_user_visible
                && s[j].is_user_visible ==> #[trigger] s[i].mode_number != #[trigger] s[j].mode_number,
        exists|i: int| 0 <= i < s.len() && #[trigger] s[i].is_user_visible && s[i].mode_number == n,
    ensures
        count_current(categorized_group(s, true, ctx, tol)) + count_current(
            categorized_group(s, false, ctx, tol),
        ) == 1,
        forall|x: ModeEntry| #[trigger] categorized_group(s, true, ctx, tol).contains(x)
            && x.is_current ==> x.mode.mode_number == n,
        forall|x: ModeEntry| #[trigger] categorized_group(s, false, ctx, tol).contains(x)
            && x.is_current ==> x.mode.mode_number == n,
{
    lemma_sort_entries_ensures(group_entries(s, true, ctx, tol));
    lemma_sort_entries_ensures(group_entries(s, false, ctx, tol));
    lemma_group_count_sum(s, ctx, tol);
    lemma_count_marked_single(s, ctx, tol, n);
    lemma_group_entries_source(s, true, ctx, tol);
    lemma_group_entries_source(s, false, ctx, tol);
}

/// Without an authoritative signal, at most one entry of the categorized
/// listing is marked current by the geometry fallback, provided any two
/// user-visible modes that agree with the public geometry in logical size
/// and refresh rate report the same scale factor but different pixel sizes
/// (two variants of one logical size, only one of them scale-correct), and
/// the pixel tolerance is at most one pixel.
pub proof fn lemma_heuristic_current_at_most_one(
    s: Seq<ModeDescriptor>,
    ctx: CurrentModeContext,
    tol: Tolerances,
    g: CgGeometry,
)
    requires
        ctx.authoritative is None,
        ctx.geometry == Some(g),
        tol.pixel_milli <= 1000,
        forall|i: int, j: int|
            0 <= i < s.len() && 0 <= j < s.len() && i != j && s[i].is_user_visible
                && s[j].is_user_visible && axis_match(
                g.width as int,
                #[trigger] s[i].width as int,
                tol.logical_milli as int,
            ) && axis_match(g.height as int, s[i].height as int, tol.logical_milli as int)
                && refresh_match(
                g.refresh_milli as int,
                s[i].refresh_rate as int,
                tol.refresh_milli as int,
            ) && axis_match(g.width as int, #[trigger] s[j].width as int, tol.logical_milli as int)
                && axis_match(g.height as int, s[j].height as int, tol.logical_milli as int)
                && refresh_match(
                g.refresh_milli as int,
                s[j].refresh_rate as int,
                tol.refresh_milli as int,
            ) ==> s[i].scale_milli == s[j].scale_milli && (s[i].pixels_wide != s[j].pixels_wide
                || s[i].pixels_high != s[j].pixels_high),
    ensures
        count_current(categorized_group(s, true, ctx, tol)) + count_current(
            categorized_group(s, false, ctx, tol),
        ) <= 1,
{
    lemma_sort_entries_ensures(group_entries(s, true, ctx, tol));
    lemma_sort_entries_ensures(group_entries(s, false, ctx, tol));
    lemma_group_count_sum(s, ctx, tol);
    assert forall|i: int, j: int|
        0 <= i < s.len() && 0 <= j < s.len() && i != j implies !((
    #[trigger] s[i].is_user_visible && is_current_mode(s[i], ctx, tol)) && (
    #[trigger] s[j].is_user_visible && is_current_mode(s[j], ctx, tol))) by {
        if s[i].is_user_visible && is_current_mode(s[i], ctx, tol) && s[j].is_user_visible
            && is_current_mode(s[j], ctx, tol) {
            let ew = expected_pixels(g.width as int, s[i].scale_milli as int);
            let eh = expected_pixels(g.height as int, s[i].scale_milli as int);
            assert(s[i].scale_milli == s[j].scale_milli);
            assert(abs_diff(ew * 1000, s[i].pixels_wide as int * 1000) < 1000);
            assert(s[i].pixels_wide as int == ew);
            assert(s[j].pixels_wide as int == ew);
            assert(s[i].pixels_high as int == eh);
            assert(s[j].pixels_high as int == eh);
        }
    }
    lemma_count_marked_le_one(s, ctx, tol);
}

} // verus!
