//! Loaded fighters: how they are asked for, and how long they are kept.
use vstd::prelude::*;

use crate::battle::{Combatant, Contender};
use crate::clock::{at_most_hours_ago, Timestamp};
use crate::sorting::{
    same_names, same_sorted_names_same_names, sorted_names, sorted_names_ignore_order, texts,
};

verus! {

/// How long fighters are kept while the roster stays the same, in hours.
pub const FIGHTERS_TTL_HOURS: u32 = 6;

/// The largest number of enemy guilds whose fighters are kept.
pub const ENEMY_CACHE_MAX_ENTRIES: usize = 100;

/// The pause between two players that are looked up, in milliseconds.
pub const VIEW_PLAYER_PAUSE_MS: u64 = 700;

/// Whether fighters that were loaded at one point in time are fresh at another:
/// they are not older than six hours.
pub open spec fn fresh(loaded_at: Timestamp, now: Timestamp) -> bool {
    now.instant() - loaded_at.instant() <= 6 * 3_600_000_000_000
}

// ── Looking up a roster ──────────────────────────────────────────────────────

/// The next player to look up.
#[derive(Debug)]
pub struct RosterRequest {
    pub name: String,
    /// How long to wait before, in milliseconds.
    pub pause: u64,
}

/// A roster that is looked up player by player.
#[derive(Debug)]
pub struct RosterRun<F> {
    /// The players to look up, in order.
    pub ask: Vec<String>,
    /// How many were looked up.
    pub next: usize,
    /// Those that were found.
    pub found: Vec<F>,
}

impl<F> RosterRun<F> {
    /// Whether no more players were looked up than there are.
    pub open spec fn wf(&self) -> bool {
        self.next <= self.ask@.len()
    }

    /// Whether `after` is this roster with the next player looked up, who may
    /// not have been found.
    pub open spec fn steps_to(self, fighter: Option<F>, after: RosterRun<F>) -> bool {
        &&& after.ask == self.ask
        &&& after.next == self.next + 1
        &&& after.found@ == match fighter {
            Some(f) => self.found@.push(f),
            None => self.found@,
        }
    }

    /// The players to look up, and the fighters that are known before.
    pub fn new(ask: Vec<String>, found: Vec<F>) -> (r: RosterRun<F>)
        ensures
            r.wf(),
            r == (RosterRun { ask, next: 0, found }),
    {
        RosterRun { ask, next: 0, found }
    }

    /// The next player to look up, if any. The first one is looked up at once.
    pub fn next_request(&self) -> (r: Option<RosterRequest>)
        requires
            self.wf(),
        ensures
            match r {
                Some(q) => self.next < self.ask@.len() && q.name@ == self.ask@[self.next as int]@
                    && q.pause == if self.next == 0 {
                    0u64
                } else {
                    VIEW_PLAYER_PAUSE_MS
                },
                None => self.next == self.ask@.len(),
            },
    {
        if self.next < self.ask.len() {
            let pause: u64 = if self.next == 0 {
                0
            } else {
                VIEW_PLAYER_PAUSE_MS
            };
            Some(RosterRequest { name: self.ask[self.next].clone(), pause })
        } else {
            None
        }
    }

    /// Takes in the player that was asked for, if found.
    pub fn loaded(&mut self, fighter: Option<F>)
        requires
            old(self).wf(),
            old(self).next < old(self).ask@.len(),
        ensures
            final(self).wf(),
            old(self).steps_to(fighter, *final(self)),
            final(self).ask@ == old(self).ask@,
            final(self).next == old(self).next + 1,
            fighter matches Some(f) ==> final(self).found@ == old(self).found@.push(f),
            fighter is None ==> final(self).found@ == old(self).found@,
    {
        if let Some(f) = fighter {
            self.found.push(f);
        }
        if self.next < self.ask.len() {
            self.next = self.next + 1;
        }
    }
}

/// The fighters known before, followed by those found under the first `n` names,
/// in order. `lookup` gives the fighter of each name, if there is one.
pub open spec fn found_under<F>(
    known: Seq<F>,
    ask: Seq<String>,
    lookup: spec_fn(Seq<char>) -> Option<F>,
    n: int,
) -> Seq<F>
    decreases n,
{
    if n <= 0 {
        known
    } else {
        match lookup(ask[n - 1]@) {
            Some(f) => found_under(known, ask, lookup, n - 1).push(f),
            None => found_under(known, ask, lookup, n - 1),
        }
    }
}

/// Whether a roster holds what its names so far bring.
pub open spec fn has_found<F>(
    run: RosterRun<F>,
    known: Seq<F>,
    lookup: spec_fn(Seq<char>) -> Option<F>,
) -> bool {
    run.found@ == found_under(known, run.ask@, lookup, run.next as int)
}

/// A roster starts out with the fighters known before, and with each player
/// looked up it holds those found so far, in order.
pub proof fn roster_holds_what_was_found<F>(
    run: RosterRun<F>,
    known: Seq<F>,
    lookup: spec_fn(Seq<char>) -> Option<F>,
    after: RosterRun<F>,
)
    requires
        run.wf(),
    ensures
        run.next == 0 && run.found@ == known ==> has_found(run, known, lookup),
        has_found(run, known, lookup) && run.next < run.ask@.len() && run.steps_to(
            lookup(run.ask@[run.next as int]@),
            after,
        ) ==> has_found(after, known, lookup),
{
}

/// The names of a list other than one's own, in order.
pub open spec fn others(names: Seq<Seq<char>>, own: Seq<char>) -> Seq<Seq<char>> {
    names.filter(|n: Seq<char>| n != own)
}

/// The names of a list other than one's own.
pub fn without_name(names: &Vec<String>, own: &String) -> (r: Vec<String>)
    ensures
        texts(r@) == others(texts(names@), own@),
{
    let ghost pred = |n: Seq<char>| n != own@;
    let ghost all = texts(names@);
    let mut r: Vec<String> = Vec::new();
    let mut i: usize = 0;
    proof {
        reveal(Seq::filter);
        assert(all.take(0).filter(pred) =~= Seq::empty());
    }
    while i < names.len()
        invariant
            i <= names@.len(),
            all == texts(names@),
            pred == (|n: Seq<char>| n != own@),
            texts(r@) =~= all.take(i as int).filter(pred),
        decreases names@.len() - i,
    {
        proof {
            assert(all.take(i + 1) =~= all.take(i as int).push(all[i as int]));
            all.take(i as int).lemma_filter_push(all[i as int], pred);
        }
        if names[i] != *own {
            let ghost before = r@;
            r.push(names[i].clone());
            assert(texts(r@) =~= texts(before).push(all[i as int]));
        }
        i = i + 1;
    }
    assert(all.take(i as int) =~= all);
    r
}

// ── Our own fighters ─────────────────────────────────────────────────────────

/// The fighters of our active members, as they were loaded.
#[derive(Debug)]
pub struct OwnFightersCache {
    pub fetched_at: Timestamp,
    /// The guild that they belong to.
    pub guild_name: String,
    /// The names of the active members, sorted.
    pub active_names: Vec<String>,
    pub fighters: Vec<Contender>,
}

/// What an `OwnFightersCache` says.
pub struct OwnCacheModel {
    pub fetched_at: Timestamp,
    pub guild_name: Seq<char>,
    pub active_names: Seq<Seq<char>>,
    pub fighters: Seq<Contender>,
}

impl View for OwnFightersCache {
    type V = OwnCacheModel;

    open spec fn view(&self) -> OwnCacheModel {
        OwnCacheModel {
            fetched_at: self.fetched_at,
            guild_name: self.guild_name@,
            active_names: texts(self.active_names@),
            fighters: self.fighters@,
        }
    }
}

impl OwnCacheModel {
    /// Whether the fighters serve for a guild with these active members, given
    /// sorted, at a point in time.
    pub open spec fn serves(
        self,
        guild_name: Seq<char>,
        active_names: Seq<Seq<char>>,
        now: Timestamp,
    ) -> bool {
        &&& fresh(self.fetched_at, now)
        &&& self.guild_name == guild_name
        &&& self.active_names == active_names
    }
}

impl OwnFightersCache {
    /// Whether the fighters serve for a guild with these active members, given
    /// sorted, at a point in time.
    pub fn is_hit(&self, guild_name: &String, active_names: &Vec<String>, now: Timestamp) -> (r:
        bool)
        ensures
            r == self@.serves(guild_name@, texts(active_names@), now),
    {
        at_most_hours_ago(now, self.fetched_at, FIGHTERS_TTL_HOURS) && self.guild_name
            == *guild_name && same_names(&self.active_names, active_names)
    }
}

// ── Enemy fighters ───────────────────────────────────────────────────────────

/// The fighters of an enemy guild, as they were loaded.
#[derive(Debug)]
pub struct EnemyFightersCache {
    pub fetched_at: Timestamp,
    /// The names of the members, sorted.
    pub member_names: Vec<String>,
    pub fighters: Vec<Combatant>,
}

/// What an `EnemyFightersCache` says.
pub struct EnemyCacheModel {
    pub fetched_at: Timestamp,
    pub member_names: Seq<Seq<char>>,
    pub fighters: Seq<Combatant>,
}

impl View for EnemyFightersCache {
    type V = EnemyCacheModel;

    open spec fn view(&self) -> EnemyCacheModel {
        EnemyCacheModel {
            fetched_at: self.fetched_at,
            member_names: texts(self.member_names@),
            fighters: self.fighters@,
        }
    }
}

impl EnemyCacheModel {
    /// Whether the fighters serve for a guild with these members, given sorted,
    /// at a point in time.
    pub open spec fn serves(self, member_names: Seq<Seq<char>>, now: Timestamp) -> bool {
        fresh(self.fetched_at, now) && self.member_names == member_names
    }
}

impl EnemyFightersCache {
    /// Whether the fighters serve for a guild with these members, given sorted,
    /// at a point in time.
    pub fn is_hit(&self, member_names: &Vec<String>, now: Timestamp) -> (r: bool)
        ensures
            r == self@.serves(texts(member_names@), now),
    {
        at_most_hours_ago(now, self.fetched_at, FIGHTERS_TTL_HOURS) && same_names(
            &self.member_names,
            member_names,
        )
    }
}

/// The fighters of enemy guilds, by the name of the guild.
#[derive(Debug)]
pub struct EnemyCaches {
    pub entries: Vec<(String, EnemyFightersCache)>,
}

/// The map that a list of entries stands for.
pub open spec fn map_of(entries: Seq<(String, EnemyFightersCache)>) -> Map<
    Seq<char>,
    EnemyCacheModel,
>
    decreases entries.len(),
{
    if entries.len() == 0 {
        Map::empty()
    } else {
        map_of(entries.drop_last()).insert(entries.last().0@, entries.last().1@)
    }
}

impl View for EnemyCaches {
    type V = Map<Seq<char>, EnemyCacheModel>;

    open spec fn view(&self) -> Map<Seq<char>, EnemyCacheModel> {
        map_of(self.entries@)
    }
}

/// Whether no two entries have the same name.
pub open spec fn keys_differ(entries: Seq<(String, EnemyFightersCache)>) -> bool {
    forall|i: int, j: int|
        0 <= i < j < entries.len() ==> (#[trigger] entries[i]).0@ != (#[trigger] entries[j]).0@
}

/// The entries of a list and the map that it stands for hold the same.
proof fn map_holds_entries(entries: Seq<(String, EnemyFightersCache)>)
    requires
        keys_differ(entries),
    ensures
        map_of(entries).dom().finite(),
        map_of(entries).dom().len() == entries.len(),
        forall|i: int|
            0 <= i < entries.len() ==> map_of(entries).contains_key((#[trigger] entries[i]).0@)
                && map_of(entries)[entries[i].0@] == entries[i].1@,
        forall|name: Seq<char>| #[trigger]
            map_of(entries).contains_key(name) ==> exists|i: int|
                0 <= i < entries.len() && (#[trigger] entries[i]).0@ == name,
    decreases entries.len(),
{
    if entries.len() > 0 {
        let init = entries.drop_last();
        assert forall|i: int, j: int| 0 <= i < j < init.len() implies (#[trigger] init[i]).0@ != (
        #[trigger] init[j]).0@ by {
            assert(entries[i] == init[i]);
            assert(entries[j] == init[j]);
        }
        map_holds_entries(init);
        let last = entries.len() - 1;
        if map_of(init).contains_key(entries[last].0@) {
            let i = choose|i: int|
                0 <= i < init.len() && (#[trigger] init[i]).0@ == entries[last].0@;
            assert(entries[i] == init[i]);
        }
        assert forall|i: int| 0 <= i < entries.len() implies map_of(entries).contains_key(
            (#[trigger] entries[i]).0@,
        ) && map_of(entries)[entries[i].0@] == entries[i].1@ by {
            if i < last {
                assert(entries[i] == init[i]);
            }
        }
        assert forall|name: Seq<char>| #[trigger]
            map_of(entries).contains_key(name) implies exists|i: int|
            0 <= i < entries.len() && (#[trigger] entries[i]).0@ == name by {
            if name == entries[last].0@ {
            } else {
                assert(map_of(init).contains_key(name));
                let i = choose|i: int| 0 <= i < init.len() && (#[trigger] init[i]).0@ == name;
                assert(entries[i] == init[i]);
            }
        }
    }
}

/// Two lists of entries with different names in which the same entries occur
/// stand for the same map.
proof fn same_entries_same_map(
    entries: Seq<(String, EnemyFightersCache)>,
    map: Map<Seq<char>, EnemyCacheModel>,
)
    requires
        keys_differ(entries),
        forall|i: int|
            0 <= i < entries.len() ==> map.contains_key((#[trigger] entries[i]).0@)
                && map[entries[i].0@] == entries[i].1@,
        forall|name: Seq<char>| #[trigger]
            map.contains_key(name) ==> exists|i: int|
                0 <= i < entries.len() && (#[trigger] entries[i]).0@ == name,
    ensures
        map_of(entries) == map,
{
    map_holds_entries(entries);
    assert forall|name: Seq<char>| #[trigger] map_of(entries).contains_key(name) implies (
    map.contains_key(name) && map[name] == map_of(entries)[name]) by {
        let i = choose|i: int| 0 <= i < entries.len() && (#[trigger] entries[i]).0@ == name;
        assert(map.contains_key(entries[i].0@));
    }
    assert forall|name: Seq<char>| #[trigger] map.contains_key(name) implies map_of(
        entries,
    ).contains_key(name) by {
        let i = choose|i: int| 0 <= i < entries.len() && (#[trigger] entries[i]).0@ == name;
        assert(map_of(entries).contains_key(entries[i].0@));
    }
    assert(map_of(entries) =~= map);
}

impl EnemyCaches {
    /// Every guild has one entry, and there are not too many.
    pub open spec fn wf(&self) -> bool {
        keys_differ(self.entries@) && self.entries@.len() <= 100
    }

    /// No fighters.
    pub fn new() -> (r: EnemyCaches)
        ensures
            r.wf(),
            r@ == Map::<Seq<char>, EnemyCacheModel>::empty(),
    {
        EnemyCaches { entries: Vec::new() }
    }

    /// The position of the entry of a guild.
    fn position(&self, name: &String) -> (r: Option<usize>)
        requires
            self.wf(),
        ensures
            match r {
                Some(i) => i < self.entries@.len() && self.entries@[i as int].0@ == name@
                    && self@.contains_key(name@) && self@[name@] == self.entries@[i as int].1@,
                None => !self@.contains_key(name@),
            },
    {
        proof {
            map_holds_entries(self.entries@);
        }
        let mut i: usize = 0;
        while i < self.entries.len()
            invariant
                i <= self.entries@.len(),
                forall|k: int| 0 <= k < i ==> (#[trigger] self.entries@[k]).0@ != name@,
                forall|k: int|
                    0 <= k < self.entries@.len() ==> self@.contains_key(
                        (#[trigger] self.entries@[k]).0@,
                    ) && self@[self.entries@[k].0@] == self.entries@[k].1@,
            decreases self.entries@.len() - i,
        {
            if self.entries[i].0 == *name {
                return Some(i);
            }
            i = i + 1;
        }
        None
    }

    /// The fighters of a guild, if they are kept.
    pub fn get(&self, name: &String) -> (r: Option<&EnemyFightersCache>)
        requires
            self.wf(),
        ensures
            match r {
                Some(c) => self@.contains_key(name@) && self@[name@] == c@,
                None => !self@.contains_key(name@),
            },
    {
        match self.position(name) {
            Some(i) => Some(&self.entries[i].1),
            None => None,
        }
    }

    /// The position of an entry that was loaded no later than any other.
    fn oldest(&self) -> (r: usize)
        requires
            self.entries@.len() > 0,
        ensures
            r < self.entries@.len(),
            forall|k: int|
                0 <= k < self.entries@.len() ==> self.entries@[r as int].1.fetched_at.instant()
                    <= (#[trigger] self.entries@[k]).1.fetched_at.instant(),
    {
        let mut oldest: usize = 0;
        let mut i: usize = 1;
        while i < self.entries.len()
            invariant
                oldest < i <= self.entries@.len(),
                forall|k: int|
                    0 <= k < i ==> self.entries@[oldest as int].1.fetched_at.instant() <= (
                    #[trigger] self.entries@[k]).1.fetched_at.instant(),
            decreases self.entries@.len() - i,
        {
            if self.entries[i].1.fetched_at.before(&self.entries[oldest].1.fetched_at) {
                oldest = i;
            }
            i = i + 1;
        }
        oldest
    }

    /// Keeps the fighters of a guild, in place of those kept for it before. If
    /// there is no room, fighters that were loaded first make some.
    pub fn insert(&mut self, name: String, cache: EnemyFightersCache)
        requires
            old(self).wf(),
        ensures
            final(self).wf(),
            old(self)@.contains_key(name@) || old(self)@.dom().len() < 100 ==> final(self)@
                == old(self)@.insert(name@, cache@),
            !old(self)@.contains_key(name@) && old(self)@.dom().len() >= 100 ==> exists|
                oldest: Seq<char>,
            |
                is_oldest(old(self)@, oldest) && final(self)@ == #[trigger] old(self)@.remove(
                    oldest,
                ).insert(name@, cache@),
    {
        let ghost before = self.entries@;
        let ghost map = self@;
        proof {
            map_holds_entries(before);
        }
        match self.position(&name) {
            Some(i) => {
                self.entries.set(i, (name, cache));
                proof {
                    assert(self.entries@ =~= before.update(i as int, (name, cache)));
                    entry_replaced(before, i as int, (name, cache));
                }
            },
            None => {
                if self.entries.len() >= ENEMY_CACHE_MAX_ENTRIES {
                    let at: usize = self.oldest();
                    let ghost gone = before[at as int].0@;
                    let removed: (String, EnemyFightersCache) = self.entries.remove(at);
                    proof {
                        entry_removed(before, at as int);
                        assert(self.entries@ =~= before.remove(at as int));
                        assert(is_oldest(map, gone)) by {
                            assert forall|name: Seq<char>| #[trigger]
                                map.contains_key(name) implies map[gone].fetched_at.instant()
                                <= map[name].fetched_at.instant() by {
                                let k = choose|k: int|
                                    0 <= k < before.len() && (#[trigger] before[k]).0@ == name;
                                assert(map[before[k].0@] == before[k].1@);
                            }
                        }
                    }
                }
                let ghost shrunk = self.entries@;
                self.entries.push((name, cache));
                proof {
                    assert(self.entries@.drop_last() =~= shrunk);
                    entry_added(shrunk, (name, cache));
                }
            },
        }
    }

    /// Forgets all fighters.
    pub fn clear(&mut self)
        ensures
            final(self).wf(),
            final(self)@ == Map::<Seq<char>, EnemyCacheModel>::empty(),
    {
        self.entries = Vec::new();
    }
}

/// Whether no fighters were loaded before those of a guild.
pub open spec fn is_oldest(map: Map<Seq<char>, EnemyCacheModel>, oldest: Seq<char>) -> bool {
    &&& map.contains_key(oldest)
    &&& forall|name: Seq<char>| #[trigger]
        map.contains_key(name) ==> map[oldest].fetched_at.instant()
            <= map[name].fetched_at.instant()
}

/// An entry with new fighters of the same guild replaces the old ones.
proof fn entry_replaced(
    entries: Seq<(String, EnemyFightersCache)>,
    i: int,
    entry: (String, EnemyFightersCache),
)
    requires
        keys_differ(entries),
        0 <= i < entries.len(),
        entry.0@ == entries[i].0@,
    ensures
        keys_differ(entries.update(i, entry)),
        map_of(entries.update(i, entry)) == map_of(entries).insert(entry.0@, entry.1@),
{
    let after = entries.update(i, entry);
    let map = map_of(entries).insert(entry.0@, entry.1@);
    map_holds_entries(entries);
    assert forall|a: int, b: int| 0 <= a < b < after.len() implies (#[trigger] after[a]).0@ != (
    #[trigger] after[b]).0@ by {
        assert(entries[a].0@ != entries[b].0@);
    }
    assert forall|k: int| 0 <= k < after.len() implies map.contains_key((#[trigger] after[k]).0@)
        && map[after[k].0@] == after[k].1@ by {
        assert(map_of(entries).contains_key(entries[k].0@));
        if k != i {
            assert(after[k] == entries[k]);
            if k < i {
                assert(entries[k].0@ != entries[i].0@);
            } else {
                assert(entries[i].0@ != entries[k].0@);
            }
        }
    }
    assert forall|name: Seq<char>| #[trigger] map.contains_key(name) implies exists|k: int|
        0 <= k < after.len() && (#[trigger] after[k]).0@ == name by {
        if name == entry.0@ {
            assert(after[i].0@ == name);
        } else {
            assert(map_of(entries).contains_key(name));
            let k = choose|k: int| 0 <= k < entries.len() && (#[trigger] entries[k]).0@ == name;
            assert(after[k].0@ == name);
        }
    }
    same_entries_same_map(after, map);
}

/// Without an entry, the fighters of its guild are gone.
proof fn entry_removed(entries: Seq<(String, EnemyFightersCache)>, i: int)
    requires
        keys_differ(entries),
        0 <= i < entries.len(),
    ensures
        keys_differ(entries.remove(i)),
        map_of(entries.remove(i)) == map_of(entries).remove(entries[i].0@),
        map_of(entries).contains_key(entries[i].0@),
{
    let after = entries.remove(i);
    let map = map_of(entries).remove(entries[i].0@);
    map_holds_entries(entries);
    assert forall|a: int, b: int| 0 <= a < b < after.len() implies (#[trigger] after[a]).0@ != (
    #[trigger] after[b]).0@ by {
        let x = if a < i {
            a
        } else {
            a + 1
        };
        let y = if b < i {
            b
        } else {
            b + 1
        };
        assert(after[a] == entries[x]);
        assert(after[b] == entries[y]);
    }
    assert forall|k: int| 0 <= k < after.len() implies map.contains_key((#[trigger] after[k]).0@)
        && map[after[k].0@] == after[k].1@ by {
        let x = if k < i {
            k
        } else {
            k + 1
        };
        assert(after[k] == entries[x]);
        assert(map_of(entries).contains_key(entries[x].0@));
        if x < i {
            assert(entries[x].0@ != entries[i].0@);
        } else {
            assert(entries[i].0@ != entries[x].0@);
        }
    }
    assert forall|name: Seq<char>| #[trigger] map.contains_key(name) implies exists|k: int|
        0 <= k < after.len() && (#[trigger] after[k]).0@ == name by {
        assert(map_of(entries).contains_key(name));
        let x = choose|x: int| 0 <= x < entries.len() && (#[trigger] entries[x]).0@ == name;
        let k = if x < i {
            x
        } else {
            x - 1
        };
        assert(after[k] == entries[x]);
    }
    same_entries_same_map(after, map);
}

/// An entry for another guild adds its fighters.
proof fn entry_added(
    entries: Seq<(String, EnemyFightersCache)>,
    entry: (String, EnemyFightersCache),
)
    requires
        keys_differ(entries),
        !map_of(entries).contains_key(entry.0@),
    ensures
        keys_differ(entries.push(entry)),
        map_of(entries.push(entry)) == map_of(entries).insert(entry.0@, entry.1@),
{
    map_holds_entries(entries);
    let after = entries.push(entry);
    assert(after.drop_last() =~= entries);
    assert forall|a: int, b: int| 0 <= a < b < after.len() implies (#[trigger] after[a]).0@ != (
    #[trigger] after[b]).0@ by {
        assert(map_of(entries).contains_key(entries[a].0@));
    }
}

// ── Laws ─────────────────────────────────────────────────────────────────────

/// Our fighters serve again while they are fresh, as long as the same members
/// of the same guild are active, in whatever order they are listed.
pub proof fn own_fighters_serve_again(
    cache: OwnCacheModel,
    loaded: Seq<Seq<char>>,
    active: Seq<Seq<char>>,
    now: Timestamp,
)
    requires
        cache.active_names == sorted_names(loaded),
        active.to_multiset() == loaded.to_multiset(),
        fresh(cache.fetched_at, now),
    ensures
        cache.serves(cache.guild_name, sorted_names(active), now),
{
    sorted_names_ignore_order(active, loaded);
}

/// Our fighters serve only for the guild and the active members that they were
/// loaded for, and for no more than six hours.
pub proof fn own_fighters_are_dropped(
    cache: OwnCacheModel,
    loaded: Seq<Seq<char>>,
    guild_name: Seq<char>,
    active: Seq<Seq<char>>,
    now: Timestamp,
)
    requires
        cache.active_names == sorted_names(loaded),
        guild_name != cache.guild_name || active.to_multiset() != loaded.to_multiset()
            || now.instant() - cache.fetched_at.instant() > 6 * 3_600_000_000_000,
    ensures
        !cache.serves(guild_name, sorted_names(active), now),
{
    if sorted_names(active) == sorted_names(loaded) {
        same_sorted_names_same_names(active, loaded);
    }
}

/// The fighters of an enemy guild serve again while they are fresh, as long as
/// the guild has the same members, and not otherwise.
pub proof fn enemy_fighters_serve_again(
    cache: EnemyCacheModel,
    loaded: Seq<Seq<char>>,
    members: Seq<Seq<char>>,
    now: Timestamp,
)
    requires
        cache.member_names == sorted_names(loaded),
    ensures
        cache.serves(sorted_names(members), now) <==> (fresh(cache.fetched_at, now)
            && members.to_multiset() == loaded.to_multiset()),
{
    if sorted_names(members) == sorted_names(loaded) {
        same_sorted_names_same_names(members, loaded);
    }
    if members.to_multiset() == loaded.to_multiset() {
        sorted_names_ignore_order(members, loaded);
    }
}

/// There are never fighters of more than 100 enemy guilds.
pub proof fn enemy_caches_are_bounded(caches: EnemyCaches)
    requires
        caches.wf(),
    ensures
        caches@.dom().finite(),
        caches@.dom().len() <= 100,
{
    map_holds_entries(caches.entries@);
}

/// Fighters are fresh for six hours, to the nanosecond, and no longer; a clock
/// that was set back does not make them stale.
pub proof fn fighters_are_fresh_for_six_hours(loaded_at: Timestamp, now: Timestamp)
    ensures
        fresh(loaded_at, now) <==> now.instant() - loaded_at.instant() <= 21_600_000_000_000,
{
}

/// Our fighters serve exactly if they are not older than six hours and were loaded
/// for the same guild and the same sorted names of active members. Nothing else
/// about them counts.
pub proof fn own_fighters_serve_exactly(
    cache: OwnCacheModel,
    guild_name: Seq<char>,
    active_names: Seq<Seq<char>>,
    now: Timestamp,
)
    ensures
        cache.serves(guild_name, active_names, now) <==> now.instant()
            - cache.fetched_at.instant() <= 21_600_000_000_000 && cache.guild_name == guild_name
            && cache.active_names == active_names,
{
}

/// The fighters of an enemy guild serve exactly if they are not older than six
/// hours and were loaded for the same sorted names of members.
pub proof fn enemy_fighters_serve_exactly(
    cache: EnemyCacheModel,
    member_names: Seq<Seq<char>>,
    now: Timestamp,
)
    ensures
        cache.serves(member_names, now) <==> now.instant() - cache.fetched_at.instant()
            <= 21_600_000_000_000 && cache.member_names == member_names,
{
}

/// Of a list of names all but one's own are looked up, in their order, and no
/// other.
pub proof fn all_others_are_looked_up(names: Seq<Seq<char>>, next: Seq<char>, own: Seq<char>)
    ensures
        others(Seq::empty(), own).len() == 0,
        next != own ==> others(names.push(next), own) == others(names, own).push(next),
        next == own ==> others(names.push(next), own) == others(names, own),
{
    reveal(Seq::filter);
    assert(names.push(next).drop_last() =~= names);
}

/// With each name that is looked up, a roster gains the fighter of that name, if
/// there is one, at its end, and nothing else.
pub proof fn each_name_brings_its_fighter<F>(
    known: Seq<F>,
    ask: Seq<String>,
    lookup: spec_fn(Seq<char>) -> Option<F>,
    n: int,
)
    requires
        0 <= n < ask.len(),
    ensures
        found_under(known, ask, lookup, 0) == known,
        lookup(ask[n]@) matches Some(f) ==> found_under(known, ask, lookup, n + 1) == found_under(
            known,
            ask,
            lookup,
            n,
        ).push(f),
        lookup(ask[n]@) is None ==> found_under(known, ask, lookup, n + 1) == found_under(
            known,
            ask,
            lookup,
            n,
        ),
{
}

/// Fighters that make room are none that were loaded after others that stay.
pub proof fn oldest_was_loaded_first(
    map: Map<Seq<char>, EnemyCacheModel>,
    oldest: Seq<char>,
    name: Seq<char>,
)
    requires
        is_oldest(map, oldest),
        map.contains_key(name),
    ensures
        map.contains_key(oldest),
        map[oldest].fetched_at.instant() <= map[name].fetched_at.instant(),
{
}

} // verus!
