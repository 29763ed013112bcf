//! The first phase of a scan: which pages of the hall of fame are read, and
//! which of their guilds are kept.
use vstd::prelude::*;
use vstd::seq_lib::*;

use crate::attack::{attack_rule, is_attackable, HONOR_ABOVE, RANKS_ABOVE};
use crate::guild::{HofEntry, HofGuild, OwnGuild};
use crate::sorting::{filtered_is_contained, Ordered};

verus! {

/// How many guilds a page of the hall of fame lists.
pub const PAGE_SIZE: u32 = 51;

/// The page of the hall of fame that lists a rank, counted from 0.
pub open spec fn page_of(rank: int) -> int {
    if rank <= 1 {
        0
    } else {
        (rank - 1) / 51
    }
}

/// The ranks around our own that a scan always covers, and the pages that list
/// them.
#[derive(Clone, Copy, Debug, PartialEq, Eq, Structural)]
pub struct RankWindow {
    pub rank_up_start: u32,
    pub rank_down_end: u32,
    pub page_low: u32,
    pub page_high: u32,
}

impl RankWindow {
    /// The pages that list the ranks of the window, first to last.
    pub open spec fn well_formed(self) -> bool {
        self.page_low <= self.page_high && self.page_high <= u32::MAX / 51
    }

    /// The number of pages.
    pub fn page_count(&self) -> (n: u32)
        requires
            self.well_formed(),
        ensures
            n == self.page_high - self.page_low + 1,
    {
        self.page_high - self.page_low + 1
    }
}

/// The first rank of the window: 20 above our own, but not above rank 1.
pub open spec fn window_start(own_rank: u32) -> int {
    if own_rank <= 21 {
        1
    } else {
        own_rank - 20
    }
}

/// The last rank of the window: as many below our own as the settings say, as
/// far as ranks go.
pub open spec fn window_end(own_rank: u32, down_limit: u32) -> int {
    if own_rank + down_limit <= u32::MAX {
        own_rank + down_limit
    } else {
        u32::MAX as int
    }
}

/// The window of ranks and its pages.
pub fn rank_window(own_rank: u32, down_limit: u32) -> (w: RankWindow)
    ensures
        w.well_formed(),
        w.rank_up_start == window_start(own_rank),
        w.rank_down_end == window_end(own_rank, down_limit),
        w.page_low == page_of(window_start(own_rank)),
        w.page_high == page_of(window_end(own_rank, down_limit)),
{
    let rank_down_end: u32 = own_rank.saturating_add(down_limit);
    let above: u32 = own_rank.saturating_sub(RANKS_ABOVE);
    let rank_up_start: u32 = if above < 1 {
        1
    } else {
        above
    };
    let page_low: u32 = rank_up_start.saturating_sub(1) / PAGE_SIZE;
    let page_high: u32 = rank_down_end.saturating_sub(1) / PAGE_SIZE;
    RankWindow { rank_up_start, rank_down_end, page_low, page_high }
}

/// Every rank of the window is listed on one of its pages.
pub proof fn window_pages_cover_window(own_rank: u32, down_limit: u32, rank: int)
    requires
        window_start(own_rank) <= rank <= window_end(own_rank, down_limit),
    ensures
        page_of(window_start(own_rank)) <= page_of(rank) <= page_of(
            window_end(own_rank, down_limit),
        ),
{
}

// ── Keeping guilds ───────────────────────────────────────────────────────────

/// What the scan knows of our own guild: its name, rank and honor.
pub struct Standing {
    pub name: Seq<char>,
    pub rank: u32,
    pub honor: u32,
}

impl OwnGuild {
    /// The name, rank and honor of the guild.
    pub open spec fn standing(&self) -> Standing {
        Standing { name: self.name@, rank: self.rank, honor: self.honor }
    }
}

/// A guild of the hall of fame, with whether we may attack it.
pub open spec fn rated(own: Standing, e: HofEntry) -> HofGuild {
    HofGuild {
        name: e.name,
        rank: e.rank,
        leader: e.leader,
        member_count: e.member_count,
        honor: e.honor,
        is_attacked: e.is_attacked,
        attackable: attack_rule(own.rank, own.honor, e.rank, e.honor),
    }
}

/// Whether a guild on a page of the window is kept: it is not our own, and it
/// lies in the window but not on our rank.
pub open spec fn window_keeps(own: Standing, start: u32, end: u32, e: HofEntry) -> bool {
    &&& e.name@ != own.name
    &&& start <= e.rank <= end
    &&& e.rank != own.rank
}

/// The guilds of a page of the window that are kept.
pub open spec fn window_hits(own: Standing, start: u32, end: u32, page: Seq<HofEntry>) -> Seq<
    HofGuild,
> {
    page.filter(|e: HofEntry| window_keeps(own, start, end, e)).map_values(
        |e: HofEntry| rated(own, e),
    )
}

/// Whether a guild on a page above the window qualifies: it is not our own, it
/// stands above us and, unless the whole hall of fame is wanted, its honor is
/// at most 3000 above ours.
pub open spec fn upward_keeps(own: Standing, full: bool, e: HofEntry) -> bool {
    &&& e.name@ != own.name
    &&& e.rank < own.rank
    &&& full || e.honor <= own.honor + 3000
}

/// Whether a guild of that name is in the list.
pub open spec fn has_name(guilds: Seq<HofGuild>, name: Seq<char>) -> bool {
    exists|i: int| 0 <= i < guilds.len() && (#[trigger] guilds[i]).name@ == name
}

/// The list after a page above the window: guilds that qualify are added in
/// their order, unless the list has a guild of that name.
pub open spec fn upward_after(
    own: Standing,
    full: bool,
    guilds: Seq<HofGuild>,
    page: Seq<HofEntry>,
) -> Seq<HofGuild>
    decreases page.len(),
{
    if page.len() == 0 {
        guilds
    } else {
        let before = upward_after(own, full, guilds, page.drop_last());
        let e = page.last();
        if upward_keeps(own, full, e) && !has_name(before, e.name@) {
            before.push(rated(own, e))
        } else {
            before
        }
    }
}

/// The part of a page of the window that lies above the window, where guilds
/// above it are wanted.
pub open spec fn upper_part(wanted: bool, start: u32, page: Seq<HofEntry>) -> Seq<HofEntry> {
    if wanted {
        page.filter(|e: HofEntry| e.rank < start)
    } else {
        Seq::empty()
    }
}

/// Which guilds above the window are wanted: `any` of them, and if so, whether
/// in `full` or by the honor rule.
#[derive(Clone, Copy, Debug, PartialEq, Eq, Structural)]
pub struct Above {
    pub any: bool,
    pub full: bool,
}

/// The list after a page of the window: the guilds in the window are added in
/// their order, and after them, where they are wanted, those that the page lists
/// above the window.
pub open spec fn window_after(
    own: Standing,
    window: RankWindow,
    up: Above,
    guilds: Seq<HofGuild>,
    page: Seq<HofEntry>,
) -> Seq<HofGuild> {
    upward_after(
        own,
        up.full,
        guilds + window_hits(own, window.rank_up_start, window.rank_down_end, page),
        upper_part(up.any, window.rank_up_start, page),
    )
}

/// Whether a guild on a page of the window may be kept: it lies in the window,
/// or above it and such guilds are wanted.
pub open spec fn window_page_keeps(
    own: Standing,
    window: RankWindow,
    up: Above,
    e: HofEntry,
) -> bool {
    ||| window_keeps(own, window.rank_up_start, window.rank_down_end, e)
    ||| up.any && e.rank < window.rank_up_start && upward_keeps(own, up.full, e)
}

/// Rates a guild of the hall of fame.
fn rate(own: &OwnGuild, e: &HofEntry) -> (r: HofGuild)
    ensures
        r == rated(own.standing(), *e),
{
    HofGuild {
        name: e.name.clone(),
        rank: e.rank,
        leader: e.leader.clone(),
        member_count: e.member_count,
        honor: e.honor,
        is_attacked: e.is_attacked,
        attackable: is_attackable(own.rank, own.honor, e.rank, e.honor),
    }
}

/// Keeps the guilds of a page that lie in the window.
fn collect_hits(
    own: &OwnGuild,
    window: &RankWindow,
    page: &Vec<HofEntry>,
    guilds: &mut Vec<HofGuild>,
)
    requires
        window.rank_up_start == window_start(own.rank),
        own.rank <= window.rank_down_end,
    ensures
        final(guilds)@ == old(guilds)@ + window_hits(
            own.standing(),
            window.rank_up_start,
            window.rank_down_end,
            page@,
        ),
{
    let ghost keep = |e: HofEntry|
        window_keeps(own.standing(), window.rank_up_start, window.rank_down_end, e);
    let ghost rating = |e: HofEntry| rated(own.standing(), e);
    let ghost before = guilds@;
    let mut i: usize = 0;
    proof {
        reveal(Seq::filter);
        assert(page@.take(0).filter(keep).map_values(rating) =~= Seq::<HofGuild>::empty());
    }
    while i < page.len()
        invariant
            i <= page@.len(),
            window.rank_up_start == window_start(own.rank),
            own.rank <= window.rank_down_end,
            keep == (|e: HofEntry|
                window_keeps(own.standing(), window.rank_up_start, window.rank_down_end, e)),
            rating == (|e: HofEntry| rated(own.standing(), e)),
            guilds@ =~= before + page@.take(i as int).filter(keep).map_values(rating),
        decreases page@.len() - i,
    {
        proof {
            assert(page@.take(i + 1) =~= page@.take(i as int).push(page@[i as int]));
            page@.take(i as int).lemma_filter_push(page@[i as int], keep);
        }
        let e: &HofEntry = &page[i];
        let in_window: bool = (e.rank >= window.rank_up_start && e.rank < own.rank) || (e.rank
            > own.rank && e.rank <= window.rank_down_end);
        if e.name != own.name && in_window {
            guilds.push(rate(own, e));
            assert(keep(page@[i as int]));
        } else {
            assert(!keep(page@[i as int]));
        }
        i = i + 1;
    }
    assert(page@.take(i as int) =~= page@);
}

/// Whether a guild of that name is in the list.
fn contains_name(guilds: &Vec<HofGuild>, name: &String) -> (r: bool)
    ensures
        r == has_name(guilds@, name@),
{
    let mut i: usize = 0;
    while i < guilds.len()
        invariant
            i <= guilds@.len(),
            forall|k: int| 0 <= k < i ==> (#[trigger] guilds@[k]).name@ != name@,
        decreases guilds@.len() - i,
    {
        if guilds[i].name == *name {
            return true;
        }
        i = i + 1;
    }
    false
}

/// Keeps a guild above us that qualifies, unless there is one of its name.
fn consider(own: &OwnGuild, full: bool, e: &HofEntry, guilds: &mut Vec<HofGuild>)
    ensures
        final(guilds)@ == if upward_keeps(own.standing(), full, *e) && !has_name(
            old(guilds)@,
            e.name@,
        ) {
            old(guilds)@.push(rated(own.standing(), *e))
        } else {
            old(guilds)@
        },
{
    let honor_cap: u32 = own.honor.saturating_add(HONOR_ABOVE);
    if e.name != own.name && e.rank < own.rank && (full || e.honor <= honor_cap)
        && !contains_name(guilds, &e.name) {
        guilds.push(rate(own, e));
    }
}

/// Keeps the guilds of a page of the window.
pub fn collect_window_page(
    own: &OwnGuild,
    window: &RankWindow,
    up: Above,
    page: &Vec<HofEntry>,
    guilds: &mut Vec<HofGuild>,
)
    requires
        window.rank_up_start == window_start(own.rank),
        own.rank <= window.rank_down_end,
    ensures
        final(guilds)@ == window_after(own.standing(), *window, up, old(guilds)@, page@),
{
    collect_hits(own, window, page, guilds);
    if !up.any {
        return;
    }
    let ghost before = guilds@;
    let ghost above = |e: HofEntry| e.rank < window.rank_up_start;
    let mut i: usize = 0;
    proof {
        reveal(Seq::filter);
        assert(page@.take(0).filter(above) =~= Seq::<HofEntry>::empty());
    }
    while i < page.len()
        invariant
            i <= page@.len(),
            above == (|e: HofEntry| e.rank < window.rank_up_start),
            guilds@ == upward_after(
                own.standing(),
                up.full,
                before,
                page@.take(i as int).filter(above),
            ),
        decreases page@.len() - i,
    {
        let e: &HofEntry = &page[i];
        let ghost so_far = page@.take(i as int).filter(above);
        proof {
            assert(page@.take(i + 1) =~= page@.take(i as int).push(*e));
            page@.take(i as int).lemma_filter_push(*e, above);
            assert(so_far.push(*e).drop_last() =~= so_far);
        }
        if e.rank < window.rank_up_start {
            consider(own, up.full, e, guilds);
        }
        i = i + 1;
    }
    assert(page@.take(i as int) =~= page@);
}

/// Keeps the guilds of a page above the window.
pub fn collect_upward_page(
    own: &OwnGuild,
    full: bool,
    page: &Vec<HofEntry>,
    guilds: &mut Vec<HofGuild>,
)
    ensures
        final(guilds)@ == upward_after(own.standing(), full, old(guilds)@, page@),
{
    let ghost before = guilds@;
    let mut i: usize = 0;
    while i < page.len()
        invariant
            i <= page@.len(),
            guilds@ == upward_after(own.standing(), full, before, page@.take(i as int)),
        decreases page@.len() - i,
    {
        proof {
            assert(page@.take(i + 1).drop_last() =~= page@.take(i as int));
            assert(page@.take(i + 1).last() == page@[i as int]);
        }
        consider(own, full, &page[i], guilds);
        i = i + 1;
    }
    assert(page@.take(i as int) =~= page@);
}

// ── Laws ─────────────────────────────────────────────────────────────────────

/// A guild of the hall of fame comes from an entry of this page that was kept.
pub open spec fn from_page(
    own: Standing,
    keep: spec_fn(HofEntry) -> bool,
    page: Seq<HofEntry>,
    g: HofGuild,
) -> bool {
    exists|i: int|
        0 <= i < page.len() && keep(#[trigger] page[i]) && g == rated(own, page[i])
}

/// A page of the window adds exactly guilds that it lists and that lie in the
/// window, and all of them.
pub proof fn window_page_keeps_its_guilds(
    own: Standing,
    start: u32,
    end: u32,
    page: Seq<HofEntry>,
)
    ensures
        forall|k: int|
            0 <= k < window_hits(own, start, end, page).len() ==> from_page(
                own,
                |e: HofEntry| window_keeps(own, start, end, e),
                page,
                #[trigger] window_hits(own, start, end, page)[k],
            ),
        forall|i: int|
            0 <= i < page.len() && window_keeps(own, start, end, #[trigger] page[i])
                ==> window_hits(own, start, end, page).contains(rated(own, page[i])),
{
    broadcast use group_filter_ensures;

    let keep = |e: HofEntry| window_keeps(own, start, end, e);
    let kept = page.filter(keep);
    let hits = window_hits(own, start, end, page);
    assert forall|k: int| 0 <= k < hits.len() implies from_page(
        own,
        keep,
        page,
        #[trigger] hits[k],
    ) by {
        filtered_is_contained(page, keep, k);
        assert(keep(kept[k]));
        let i = choose|i: int| 0 <= i < page.len() && page[i] == kept[k];
        assert(keep(page[i]));
        assert(hits[k] == rated(own, page[i]));
    }
    assert forall|i: int|
        0 <= i < page.len() && window_keeps(
            own,
            start,
            end,
            #[trigger] page[i],
        ) implies hits.contains(rated(own, page[i])) by {
        assert(keep(page[i]));
        assert(page.contains(page[i]));
        assert(kept.contains(page[i]));
        let k = choose|k: int| 0 <= k < kept.len() && kept[k] == page[i];
        assert(hits[k] == rated(own, page[i]));
    }
}

/// A page above the window leaves the guilds that were there, and adds only
/// guilds that it lists and that qualify.
pub proof fn upward_page_only_adds(
    own: Standing,
    full: bool,
    guilds: Seq<HofGuild>,
    page: Seq<HofEntry>,
)
    ensures
        upward_after(own, full, guilds, page).len() >= guilds.len(),
        upward_after(own, full, guilds, page).len() <= guilds.len() + page.len(),
        upward_after(own, full, guilds, page).take(guilds.len() as int) == guilds,
        forall|k: int|
            guilds.len() <= k < upward_after(own, full, guilds, page).len() ==> from_page(
                own,
                |e: HofEntry| upward_keeps(own, full, e),
                page,
                #[trigger] upward_after(own, full, guilds, page)[k],
            ),
    decreases page.len(),
{
    let after = upward_after(own, full, guilds, page);
    if page.len() > 0 {
        let keep = |e: HofEntry| upward_keeps(own, full, e);
        let init = page.drop_last();
        let before = upward_after(own, full, guilds, init);
        upward_page_only_adds(own, full, guilds, init);
        assert(after.take(guilds.len() as int) =~= before.take(guilds.len() as int));
        assert forall|k: int| guilds.len() <= k < after.len() implies from_page(
            own,
            keep,
            page,
            #[trigger] after[k],
        ) by {
            if k < before.len() {
                assert(from_page(own, keep, init, before[k]));
                let i = choose|i: int|
                    0 <= i < init.len() && keep(#[trigger] init[i]) && before[k] == rated(
                        own,
                        init[i],
                    );
                assert(keep(page[i]));
            } else {
                assert(keep(page[page.len() - 1]));
            }
        }
    } else {
        assert(after.take(guilds.len() as int) =~= guilds);
    }
}

/// Whether no two guilds of the list have the same name.
pub open spec fn names_differ(guilds: Seq<HofGuild>) -> bool {
    forall|i: int, j: int|
        0 <= i < j < guilds.len() ==> (#[trigger] guilds[i]).name@ != (#[trigger] guilds[j]).name@
}

/// A page above the window brings no duplicates.
pub proof fn upward_page_brings_no_duplicates(
    own: Standing,
    full: bool,
    guilds: Seq<HofGuild>,
    page: Seq<HofEntry>,
)
    requires
        names_differ(guilds),
    ensures
        names_differ(upward_after(own, full, guilds, page)),
    decreases page.len(),
{
    if page.len() > 0 {
        upward_page_brings_no_duplicates(own, full, guilds, page.drop_last());
    }
}

/// After a page above the window, every guild on it that qualifies is in the
/// list.
pub proof fn upward_page_misses_nothing(
    own: Standing,
    full: bool,
    guilds: Seq<HofGuild>,
    page: Seq<HofEntry>,
    i: int,
)
    requires
        0 <= i < page.len(),
        upward_keeps(own, full, page[i]),
    ensures
        has_name(upward_after(own, full, guilds, page), page[i].name@),
    decreases page.len(),
{
    let before = upward_after(own, full, guilds, page.drop_last());
    let after = upward_after(own, full, guilds, page);
    if i < page.len() - 1 {
        upward_page_misses_nothing(own, full, guilds, page.drop_last(), i);
        let k = choose|k: int|
            0 <= k < before.len() && (#[trigger] before[k]).name@ == page[i].name@;
        assert(after[k] == before[k]);
    } else if !has_name(before, page[i].name@) {
        assert(after[before.len() as int].name@ == page[i].name@);
    }
}

/// Two filters that let nothing through together let through no more than there
/// is.
proof fn parts_fit<T>(s: Seq<T>, p: spec_fn(T) -> bool, q: spec_fn(T) -> bool)
    requires
        forall|x: T| !(#[trigger] p(x) && q(x)),
    ensures
        s.filter(p).len() + s.filter(q).len() <= s.len(),
    decreases s.len(),
{
    reveal(Seq::filter);
    if s.len() > 0 {
        parts_fit(s.drop_last(), p, q);
        assert(!(p(s.last()) && q(s.last())));
    }
}

/// A page of the window leaves the guilds that were there and adds only guilds
/// that it lists and that may be kept. Those in the window are then in the list,
/// and a guild of the name of every one above it that qualifies.
pub proof fn window_page_misses_nothing(
    own: Standing,
    window: RankWindow,
    up: Above,
    guilds: Seq<HofGuild>,
    page: Seq<HofEntry>,
)
    ensures
        window_after(own, window, up, guilds, page).len() >= guilds.len(),
        window_after(own, window, up, guilds, page).len() <= guilds.len() + page.len(),
        window_after(own, window, up, guilds, page).take(guilds.len() as int) == guilds,
        forall|k: int|
            guilds.len() <= k < window_after(own, window, up, guilds, page).len() ==> from_page(
                own,
                |e: HofEntry| window_page_keeps(own, window, up, e),
                page,
                #[trigger] window_after(own, window, up, guilds, page)[k],
            ),
        forall|i: int|
            0 <= i < page.len() && window_keeps(
                own,
                window.rank_up_start,
                window.rank_down_end,
                #[trigger] page[i],
            ) ==> window_after(own, window, up, guilds, page).contains(rated(own, page[i])),
        forall|i: int|
            0 <= i < page.len() && up.any && (#[trigger] page[i]).rank < window.rank_up_start
                && upward_keeps(own, up.full, page[i]) ==> has_name(
                window_after(own, window, up, guilds, page),
                page[i].name@,
            ),
{
    broadcast use group_filter_ensures;

    let start = window.rank_up_start;
    let end = window.rank_down_end;
    let in_window = |e: HofEntry| window_keeps(own, start, end, e);
    let above = |e: HofEntry| e.rank < start;
    let qualifies = |e: HofEntry| upward_keeps(own, up.full, e);
    let keep = |e: HofEntry| window_page_keeps(own, window, up, e);
    let hits = window_hits(own, start, end, page);
    let upper = upper_part(up.any, start, page);
    let mid = guilds + hits;
    let after = window_after(own, window, up, guilds, page);
    window_page_keeps_its_guilds(own, start, end, page);
    upward_page_only_adds(own, up.full, mid, upper);
    parts_fit(page, in_window, above);
    assert forall|k: int| 0 <= k < mid.len() implies #[trigger] after[k] == mid[k] by {
        assert(after.take(mid.len() as int)[k] == after[k]);
    }
    assert(after.take(guilds.len() as int) =~= guilds);
    assert forall|k: int| guilds.len() <= k < after.len() implies from_page(
        own,
        keep,
        page,
        #[trigger] after[k],
    ) by {
        if k < mid.len() {
            assert(from_page(own, in_window, page, hits[k - guilds.len()]));
            let i = choose|i: int|
                0 <= i < page.len() && in_window(#[trigger] page[i]) && hits[k - guilds.len()]
                    == rated(own, page[i]);
            assert(keep(page[i]));
        } else {
            assert(from_page(own, qualifies, upper, after[k]));
            let j = choose|j: int|
                0 <= j < upper.len() && qualifies(#[trigger] upper[j]) && after[k] == rated(
                    own,
                    upper[j],
                );
            filtered_is_contained(page, above, j);
            assert(above(page.filter(above)[j]));
            let i = choose|i: int| 0 <= i < page.len() && page[i] == upper[j];
            assert(keep(page[i]));
        }
    }
    assert forall|i: int|
        0 <= i < page.len() && window_keeps(own, start, end, #[trigger] page[i]) implies (
    after.contains(rated(own, page[i]))) by {
        assert(hits.contains(rated(own, page[i])));
        let k = choose|k: int| 0 <= k < hits.len() && hits[k] == rated(own, page[i]);
        assert(after[guilds.len() + k] == mid[guilds.len() + k]);
    }
    assert forall|i: int|
        0 <= i < page.len() && up.any && (#[trigger] page[i]).rank < start && upward_keeps(
            own,
            up.full,
            page[i],
        ) implies has_name(after, page[i].name@) by {
        assert(above(page[i]));
        assert(page.contains(page[i]));
        assert(upper.contains(page[i]));
        let j = choose|j: int| 0 <= j < upper.len() && upper[j] == page[i];
        upward_page_misses_nothing(own, up.full, mid, upper, j);
    }
}

/// Every guild of the window other than our own is attackable.
pub proof fn window_guilds_are_attackable(own: Standing, end: u32, e: HofEntry)
    requires
        window_keeps(own, window_start(own.rank) as u32, end, e),
    ensures
        rated(own, e).attackable,
{
}

/// Every guild that the honor rule brings is attackable.
pub proof fn honor_rule_guilds_are_attackable(own: Standing, e: HofEntry)
    requires
        upward_keeps(own, false, e),
    ensures
        rated(own, e).attackable,
{
}

// ── Sorting by rank ──────────────────────────────────────────────────────────

impl Ordered for HofGuild {
    open spec fn leq(a: HofGuild, b: HofGuild) -> bool {
        a.rank <= b.rank
    }

    proof fn leq_total(a: HofGuild, b: HofGuild) {
    }

    proof fn leq_transitive(a: HofGuild, b: HofGuild, c: HofGuild) {
    }

    fn at_most(&self, other: &HofGuild) -> (r: bool) {
        self.rank <= other.rank
    }
}

// ── Laws in numbers ──────────────────────────────────────────────────────────

/// Page `page` lists the ranks from `51 * page + 1` to `51 * page + 51`.
pub proof fn page_lists_its_ranks(rank: int, page: int)
    requires
        rank >= 1,
    ensures
        page_of(rank) == page <==> 51 * page + 1 <= rank <= 51 * page + 51,
{
}

/// The window reaches from 20 ranks above our own to as many below as the
/// settings say, and no further.
pub proof fn window_lies_around_own_rank(own_rank: u32, down_limit: u32, rank: u32)
    requires
        rank >= 1,
    ensures
        window_start(own_rank) <= rank <= window_end(own_rank, down_limit) <==> own_rank - 20
            <= rank <= own_rank + down_limit,
{
}

/// A guild is listed as the hall of fame has it, and marked by the attack rule.
pub proof fn listed_guild_is_the_entry(own: Standing, e: HofEntry)
    ensures
        rated(own, e).name@ == e.name@,
        rated(own, e).rank == e.rank,
        rated(own, e).leader@ == e.leader@,
        rated(own, e).member_count == e.member_count,
        rated(own, e).honor == e.honor,
        rated(own, e).is_attacked == e.is_attacked,
        rated(own, e).attackable <==> e.rank > own.rank || (e.rank < own.rank && (own.rank
            - e.rank <= 20 || e.honor <= own.honor + 3000)),
{
}

/// A guild above us qualifies by its honor, at most 3000 above ours, and by
/// nothing else; where the whole hall of fame is wanted, every one does.
pub proof fn guild_above_qualifies_by_honor(own: Standing, e: HofEntry)
    ensures
        upward_keeps(own, true, e) <==> e.name@ != own.name && e.rank < own.rank,
        upward_keeps(own, false, e) <==> e.name@ != own.name && e.rank < own.rank && e.honor
            <= own.honor + 3000,
{
}

/// A guild on a page of the window is kept by its rank, and by nothing else: up
/// to 20 above our own, up to as many below as the settings say, and not our own.
pub proof fn guild_in_window_is_kept_by_rank(own: Standing, down_limit: u32, e: HofEntry)
    requires
        e.rank >= 1,
    ensures
        window_keeps(
            own,
            window_start(own.rank) as u32,
            window_end(own.rank, down_limit) as u32,
            e,
        ) <==> e.name@ != own.name && e.rank != own.rank && own.rank - 20 <= e.rank <= own.rank
            + down_limit,
{
}

} // verus!
