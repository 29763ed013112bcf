//! Simulated guild battles, with giant mushrooms shot at the enemy.
use sf_api::simulate::Fighter;
use vstd::prelude::*;

use crate::rounds::{added, got, play, shoot};

verus! {

/// A fighter of `sf_api`, with all that a battle simulation needs. The library
/// carries it, and looks inside only through `read`.
#[verifier::external_type_specification]
#[verifier::external_body]
pub struct ExFighter(sf_api::simulate::Fighter);

/// `Fighter::clone` is derived: it copies every field.
pub assume_specification[ <sf_api::simulate::Fighter as Clone>::clone ](
    f: &sf_api::simulate::Fighter,
) -> (r: sf_api::simulate::Fighter)
    ensures
        r == *f,
;

// ── Fighters that can be simulated ───────────────────────────────────────────

/// The numbers of a fighter that a battle can fail on: the bit patterns of its
/// health, its multiplier for critical hits and its damage bonus in percent; and
/// of each weapon the bit patterns of its least and its largest damage, and the
/// strength of its rune. The bit patterns are of IEEE double precision numbers.
#[derive(Clone, Copy, Debug)]
pub struct FighterReading {
    pub health: u64,
    pub crit: u64,
    pub portal: u64,
    pub first: Option<(u64, u64, i32)>,
    pub second: Option<(u64, u64, i32)>,
}

/// What stands in the fields of a fighter.
pub uninterp spec fn reading_of(f: Fighter) -> FighterReading;

/// Reads public fields of a `sf_api::simulate::Fighter`: `max_health`,
/// `crit_dmg_multi`, `portal_dmg_bonus`, and of both weapons `damage` and
/// `rune_value`. Floating point numbers are handed out as the bits that
/// `to_bits` gives. The reading depends on the fighter alone.
#[verifier::external_body]
fn read(f: &Fighter) -> (r: FighterReading)
    ensures
        r == reading_of(*f),
{
    let (crit, portal) = (f.crit_dmg_multi.to_bits(), f.portal_dmg_bonus.to_bits());
    let first = match &f.first_weapon {
        Some(w) => Some((w.damage.min.to_bits(), w.damage.max.to_bits(), w.rune_value)),
        None => None,
    };
    let second = match &f.second_weapon {
        Some(w) => Some((w.damage.min.to_bits(), w.damage.max.to_bits(), w.rune_value)),
        None => None,
    };
    FighterReading { health: f.max_health.to_bits(), crit, portal, first, second }
}

/// The bit pattern of the number 2 to the power of 100.
pub const LARGE: u64 = 0x4630_0000_0000_0000;

/// Whether a bit pattern is that of a number from 0 to below 2 to the power of
/// 100. Patterns of larger numbers, of negative ones and of no number at all are
/// larger.
pub open spec fn is_amount(bits: u64) -> bool {
    bits < 0x4630_0000_0000_0000
}

/// Whether a weapon, if there is one, does damage and not the opposite.
pub open spec fn sound_weapon(weapon: Option<(u64, u64, i32)>) -> bool {
    weapon matches Some((min, max, rune)) ==> is_amount(min) && is_amount(max) && rune >= 0
}

impl FighterReading {
    /// Whether a fighter does no negative damage, and none beyond measure.
    pub open spec fn sound(self) -> bool {
        &&& is_amount(self.health)
        &&& is_amount(self.crit)
        &&& is_amount(self.portal)
        &&& sound_weapon(self.first)
        &&& sound_weapon(self.second)
    }

    /// Decides whether a fighter does no negative damage, and none beyond
    /// measure.
    pub fn is_sound(&self) -> (r: bool)
        ensures
            r == self.sound(),
    {
        let first: bool = match self.first {
            Some((min, max, rune)) => min < LARGE && max < LARGE && rune >= 0,
            None => true,
        };
        let second: bool = match self.second {
            Some((min, max, rune)) => min < LARGE && max < LARGE && rune >= 0,
            None => true,
        };
        self.health < LARGE && self.crit < LARGE && self.portal < LARGE && first && second
    }
}

/// Whether all fighters of a side are sound.
pub open spec fn all_sound(side: Seq<Fighter>) -> bool {
    forall|i: int| 0 <= i < side.len() ==> reading_of(#[trigger] side[i]).sound()
}

/// A fighter that battles can be simulated with: it is sound.
#[derive(Debug)]
pub struct Contender {
    fighter: Fighter,
}

impl View for Contender {
    type V = Fighter;

    closed spec fn view(&self) -> Fighter {
        self.fighter
    }
}

impl Contender {
    #[verifier::type_invariant]
    spec fn valid(self) -> bool {
        reading_of(self.fighter).sound()
    }

    /// Takes a fighter, if it is sound.
    pub fn new(fighter: Fighter) -> (r: Option<Contender>)
        ensures
            r is Some <==> reading_of(fighter).sound(),
            r matches Some(c) ==> c@ == fighter,
    {
        if read(&fighter).is_sound() {
            Some(Contender { fighter })
        } else {
            None
        }
    }

    /// The fighter.
    pub fn fighter(&self) -> (r: &Fighter)
        ensures
            *r == self@,
            reading_of(*r).sound(),
    {
        proof {
            use_type_invariant(self);
        }
        &self.fighter
    }
}

impl Clone for Contender {
    fn clone(&self) -> (r: Contender)
        ensures
            r == *self,
    {
        proof {
            use_type_invariant(self);
        }
        Contender { fighter: self.fighter.clone() }
    }
}

/// The fighters of a side.
pub open spec fn fighters_of(side: Seq<Contender>) -> Seq<Fighter> {
    side.map_values(|c: Contender| c@)
}

/// The fighters of a side.
pub(crate) fn collect_fighters(side: &Vec<Contender>) -> (r: Vec<Fighter>)
    ensures
        r@ == fighters_of(side@),
        all_sound(r@),
{
    let mut r: Vec<Fighter> = Vec::new();
    let mut i: usize = 0;
    while i < side.len()
        invariant
            i <= side@.len(),
            r@ =~= fighters_of(side@).take(i as int),
            all_sound(r@),
        decreases side@.len() - i,
    {
        r.push(side[i].fighter().clone());
        i = i + 1;
    }
    assert(fighters_of(side@).take(i as int) =~= fighters_of(side@));
    r
}

/// Whether one bit pattern is that of half the number of another. A number is
/// halved by lowering its exponent, which stands above the low 52 bits.
pub open spec fn is_half(half: u64, whole: u64) -> bool {
    ||| whole == 0 && half == 0
    ||| whole >= 0x0020_0000_0000_0000 && half == whole - 0x0010_0000_0000_0000
}

/// The fighter that has all that another one has, but for its health: in every
/// field it is the same, except that `max_health` is the number with this bit
/// pattern.
pub uninterp spec fn with_health(base: Fighter, health: u64) -> Fighter;

/// Copies a `sf_api::simulate::Fighter` with `Fighter::clone` and puts the
/// `max_health` of another one into the copy. No other field of the copy changes,
/// so what is read of it is the same but for the health.
#[verifier::external_body]
fn lend_health(base: &Fighter, lender: &Fighter) -> (r: Fighter)
    ensures
        r == with_health(*base, reading_of(*lender).health),
        reading_of(r) == (FighterReading {
            health: reading_of(*lender).health,
            ..reading_of(*base)
        }),
{
    let mut copy = base.clone();
    copy.max_health = lender.max_health;
    copy
}

/// Whether a fighter is another one with this health, and otherwise the same.
pub open spec fn is_with_health(f: Fighter, base: Fighter, health: u64) -> bool {
    &&& f == with_health(base, health)
    &&& reading_of(f) == (FighterReading { health, ..reading_of(base) })
}

/// Whether two fighters are the weaker forms of a third: the same, but one with
/// half of its health and one with none.
pub open spec fn are_weaker(full: Fighter, halved: Fighter, felled: Fighter) -> bool {
    &&& is_half(reading_of(halved).health, reading_of(full).health)
    &&& is_with_health(halved, full, reading_of(halved).health)
    &&& is_with_health(felled, full, 0)
}

/// Whether a fighter is what so many hits leave of another: all of its health,
/// half of it, or none.
pub open spec fn is_left_of(f: Fighter, full: Fighter, hits: nat) -> bool {
    if hits == 0 {
        f == full
    } else if hits == 1 {
        is_half(reading_of(f).health, reading_of(full).health) && is_with_health(
            f,
            full,
            reading_of(f).health,
        )
    } else {
        is_with_health(f, full, 0)
    }
}

/// An enemy fighter: in full health, after one mushroom with half of it, and
/// after two or more with none.
#[derive(Debug)]
pub struct Combatant {
    full: Contender,
    halved: Contender,
    felled: Contender,
}

impl Combatant {
    #[verifier::type_invariant]
    spec fn valid(self) -> bool {
        are_weaker(self.full@, self.halved@, self.felled@)
    }

    /// The fighter in full health.
    pub closed spec fn full(self) -> Fighter {
        self.full@
    }

    /// The fighter with half of its health.
    pub closed spec fn halved(self) -> Fighter {
        self.halved@
    }

    /// The fighter with no health.
    pub closed spec fn felled(self) -> Fighter {
        self.felled@
    }

    /// The fighter after this many hits.
    pub open spec fn after(self, hits: nat) -> Fighter {
        if hits == 0 {
            self.full()
        } else if hits == 1 {
            self.halved()
        } else {
            self.felled()
        }
    }

    /// Makes the weaker forms of a fighter. Two others lend the health: one must
    /// have half of it, the other none.
    pub fn new(full: Contender, half: &Fighter, none: &Fighter) -> (r: Option<Combatant>)
        ensures
            r is Some <==> is_half(reading_of(*half).health, reading_of(full@).health)
                && reading_of(*none).health == 0,
            r matches Some(c) ==> {
                &&& c.full() == full@
                &&& c.halved() == with_health(full@, reading_of(*half).health)
                &&& c.felled() == with_health(full@, 0)
                &&& are_weaker(c.full(), c.halved(), c.felled())
            },
    {
        proof {
            use_type_invariant(&full);
        }
        let whole: u64 = read(full.fighter()).health;
        let left: u64 = read(half).health;
        let halves: bool = (whole == 0 && left == 0) || (whole >= 0x0020_0000_0000_0000 && left
            == whole - 0x0010_0000_0000_0000);
        if halves && read(none).health == 0 {
            let halved: Contender = Contender { fighter: lend_health(full.fighter(), half) };
            let felled: Contender = Contender { fighter: lend_health(full.fighter(), none) };
            Some(Combatant { full, halved, felled })
        } else {
            None
        }
    }

    /// The fighter after this many hits.
    fn fighter_after(&self, hits: usize) -> (r: Fighter)
        ensures
            r == self.after(hits as nat),
            is_left_of(r, self.full(), hits as nat),
            reading_of(r).sound(),
    {
        proof {
            use_type_invariant(self);
        }
        if hits == 0 {
            self.full.fighter().clone()
        } else if hits == 1 {
            self.halved.fighter().clone()
        } else {
            self.felled.fighter().clone()
        }
    }
}

impl Clone for Combatant {
    fn clone(&self) -> (r: Combatant)
        ensures
            r == *self,
    {
        proof {
            use_type_invariant(self);
        }
        Combatant {
            full: self.full.clone(),
            halved: self.halved.clone(),
            felled: self.felled.clone(),
        }
    }
}

// ── Mushrooms ────────────────────────────────────────────────────────────────

/// How many of the mushrooms hit fighter `i`.
pub open spec fn hits_on(targets: Seq<usize>, i: int) -> nat
    decreases targets.len(),
{
    if targets.len() == 0 {
        0
    } else {
        hits_on(targets.drop_last(), i) + if targets.last() == i {
            1nat
        } else {
            0nat
        }
    }
}

/// The enemy fighters after mushrooms have hit these targets.
pub open spec fn struck(base: Seq<Combatant>, targets: Seq<usize>) -> Seq<Fighter> {
    base.map(|i: int, c: Combatant| c.after(hits_on(targets, i)))
}

/// Whether these targets are possible for this many mushrooms and fighters.
pub open spec fn possible_targets(targets: Seq<usize>, mushrooms: u8, fighters: nat) -> bool {
    &&& targets.len() == mushrooms
    &&& forall|k: int| 0 <= k < targets.len() ==> #[trigger] targets[k] < fighters
}

// ── Chance ───────────────────────────────────────────────────────────────────

/// A number that was drawn below a limit.
pub struct Draw {
    pub below: usize,
    pub got: usize,
}

/// Fights that were played between two sides, and how many the left side won.
pub struct Fights {
    pub left: Seq<Fighter>,
    pub right: Seq<Fighter>,
    pub played: u32,
    pub won: u32,
}

/// What was left to chance so far, in order: every number that is drawn and every
/// fight that is played by it has an entry.
pub struct Chance {
    draws: Ghost<Seq<Draw>>,
    fights: Ghost<Seq<Fights>>,
}

impl Chance {
    /// The numbers that were drawn.
    pub closed spec fn draws(self) -> Seq<Draw> {
        self.draws@
    }

    /// The fights that were played.
    pub closed spec fn fights(self) -> Seq<Fights> {
        self.fights@
    }

    /// Nothing was left to chance.
    fn new() -> (r: Chance)
        ensures
            r.draws() == Seq::<Draw>::empty(),
            r.fights() == Seq::<Fights>::empty(),
    {
        Chance { draws: Ghost(Seq::empty()), fights: Ghost(Seq::empty()) }
    }

    /// Draws a number below `n` and notes it.
    pub(crate) fn draw(&mut self, n: usize) -> (r: usize)
        requires
            n > 0,
        ensures
            r < n,
            final(self).draws() == old(self).draws().push(Draw { below: n, got: r }),
            final(self).fights() == old(self).fights(),
    {
        let r: usize = draw_below(n);
        self.draws = Ghost(self.draws@.push(Draw { below: n, got: r }));
        r
    }

    /// Plays fights between two sides and notes them.
    pub(crate) fn fight(&mut self, left: &Vec<Fighter>, right: &Vec<Fighter>, iterations: u32) -> (
        won: u32)
        requires
            all_sound(left@),
            all_sound(right@),
        ensures
            can_win(left@, right@, iterations, won),
            won <= iterations,
            left@.len() == 0 || right@.len() == 0 ==> won == 0,
            final(self).draws() == old(self).draws(),
            final(self).fights() == old(self).fights().push(
                Fights { left: left@, right: right@, played: iterations, won },
            ),
    {
        let won: u32 = won_fights(left, right, iterations);
        self.fights = Ghost(
            self.fights@.push(Fights { left: left@, right: right@, played: iterations, won }),
        );
        won
    }
}

/// `fastrand::usize` draws a number from a range, by chance. Nothing is claimed
/// of which one; it panics where the range is empty.
#[verifier::external_body]
fn draw_below(n: usize) -> (r: usize)
    requires
        n > 0,
    ensures
        r < n,
{
    fastrand::usize(0..n)
}

/// Whether the left side can win this many of so many fights that
/// `sf_api::simulate::simulate_battle` plays. Which of the possible counts comes
/// out is left to chance.
pub uninterp spec fn can_win(
    left: Seq<Fighter>,
    right: Seq<Fighter>,
    iterations: u32,
    won: u32,
) -> bool;

/// `sf_api::simulate::simulate_battle` plays fights between two sides by
/// chance, outside the arena, and counts those that the left side wins. The
/// count is one of those that are possible for the two sides, at most the
/// number of fights, and 0 where a side is empty. Nothing is claimed of which
/// of them it is. Where a hit does negative damage, or damage that is no number,
/// the simulation panics; with sound fighters all damage is a number from 0 on.
#[verifier::external_body]
fn won_fights(left: &Vec<Fighter>, right: &Vec<Fighter>, iterations: u32) -> (won: u32)
    requires
        all_sound(left@),
        all_sound(right@),
    ensures
        can_win(left@, right@, iterations, won),
        won <= iterations,
        left@.len() == 0 || right@.len() == 0 ==> won == 0,
{
    sf_api::simulate::simulate_battle(left, right, iterations, false).won_fights
}

/// How many of the mushrooms hit fighter `i`.
fn count_hits(targets: &Vec<usize>, i: usize) -> (hits: usize)
    ensures
        hits == hits_on(targets@, i as int),
{
    let mut hits: usize = 0;
    let mut k: usize = 0;
    while k < targets.len()
        invariant
            k <= targets@.len(),
            hits <= k,
            hits == hits_on(targets@.take(k as int), i as int),
        decreases targets@.len() - k,
    {
        proof {
            assert(targets@.take(k + 1).drop_last() =~= targets@.take(k as int));
        }
        if targets[k] == i {
            hits = hits + 1;
        }
        k = k + 1;
    }
    assert(targets@.take(k as int) =~= targets@);
    hits
}

/// The enemy fighters after mushrooms have hit these targets: each loses half
/// of its health per hit.
pub fn strike(base: &Vec<Combatant>, targets: &Vec<usize>) -> (r: Vec<Fighter>)
    ensures
        r@ == struck(base@, targets@),
        all_sound(r@),
        forall|i: int|
            0 <= i < base@.len() ==> is_left_of(
                #[trigger] r@[i],
                base@[i].full(),
                hits_on(targets@, i),
            ),
{
    let mut r: Vec<Fighter> = Vec::new();
    let mut i: usize = 0;
    while i < base.len()
        invariant
            i <= base@.len(),
            r@.len() == i,
            forall|k: int|
                0 <= k < i ==> #[trigger] r@[k] == base@[k].after(hits_on(targets@, k)),
            all_sound(r@),
            forall|k: int|
                0 <= k < i ==> is_left_of(
                    #[trigger] r@[k],
                    base@[k].full(),
                    hits_on(targets@, k),
                ),
        decreases base@.len() - i,
    {
        r.push(base[i].fighter_after(count_hits(targets, i)));
        i = i + 1;
    }
    assert(r@ =~= struck(base@, targets@));
    r
}

/// Shoots mushrooms at the enemy, each at a target drawn by chance. The given
/// fighters stay as they are.
pub fn apply_mushrooms(base: &Vec<Combatant>, mushrooms: u8) -> (r: Vec<Fighter>)
    ensures
        all_sound(r@),
        base@.len() == 0 ==> r@.len() == 0,
        base@.len() > 0 ==> exists|targets: Seq<usize>|
            {
                &&& possible_targets(targets, mushrooms, base@.len())
                &&& r@ == #[trigger] struck(base@, targets)
                &&& forall|i: int|
                    0 <= i < base@.len() ==> is_left_of(
                        #[trigger] r@[i],
                        base@[i].full(),
                        hits_on(targets, i),
                    )
            },
{
    let mut chance: Chance = Chance::new();
    let right: Vec<Fighter> = shoot(base, mushrooms, &mut chance);
    if base.len() > 0 {
        proof {
            assert(added(Seq::<Draw>::empty(), chance.draws()) =~= chance.draws());
            let targets = got(chance.draws());
            assert(possible_targets(targets, mushrooms, base@.len()));
            assert(right@ == struck(base@, targets));
        }
    }
    right
}

/// A round: what the mushrooms hit, and the fights won, 0 or 1.
pub struct Round {
    pub targets: Seq<usize>,
    pub won: u32,
}

/// Whether a round can be played like this.
pub open spec fn possible_round(
    own: Seq<Fighter>,
    enemy: Seq<Combatant>,
    mushrooms: u8,
    round: Round,
) -> bool {
    &&& possible_targets(round.targets, mushrooms, enemy.len())
    &&& forall|i: int|
        0 <= i < enemy.len() ==> is_left_of(
            #[trigger] struck(enemy, round.targets)[i],
            enemy[i].full(),
            hits_on(round.targets, i),
        )
    &&& can_win(own, struck(enemy, round.targets), 1, round.won)
    &&& round.won <= 1
}

/// The fights won, round by round.
pub open spec fn wins(rounds: Seq<Round>) -> Seq<u32> {
    rounds.map_values(|r: Round| r.won)
}

/// The sum of fights won.
pub open spec fn sum(won: Seq<u32>) -> nat
    decreases won.len(),
{
    if won.len() == 0 {
        0
    } else {
        sum(won.drop_last()) + won.last() as nat
    }
}

/// Whether this many fights can be won in so many rounds, each with mushrooms
/// shot anew.
pub open spec fn possible_tally(
    own: Seq<Fighter>,
    enemy: Seq<Combatant>,
    mushrooms: u8,
    iterations: u32,
    won: u32,
) -> bool {
    exists|rounds: Seq<Round>|
        {
            &&& rounds.len() == iterations
            &&& forall|k: int|
                0 <= k < rounds.len() ==> possible_round(
                    own,
                    enemy,
                    mushrooms,
                    #[trigger] rounds[k],
                )
            &&& won == #[trigger] sum(wins(rounds))
        }
}

/// Adds up the fights won in rounds.
pub fn tally(won: &Vec<u32>) -> (total: u32)
    requires
        won@.len() <= u32::MAX,
        forall|k: int| 0 <= k < won@.len() ==> #[trigger] won@[k] <= 1,
    ensures
        total == sum(won@),
        total <= won@.len(),
{
    let mut total: u32 = 0;
    let mut k: usize = 0;
    while k < won.len()
        invariant
            k <= won@.len() <= u32::MAX,
            forall|j: int| 0 <= j < won@.len() ==> #[trigger] won@[j] <= 1,
            total <= k,
            total == sum(won@.take(k as int)),
        decreases won@.len() - k,
    {
        proof {
            assert(won@.take(k + 1).drop_last() =~= won@.take(k as int));
            assert(won@[k as int] <= 1);
        }
        total = total + won[k];
        k = k + 1;
    }
    assert(won@.take(k as int) =~= won@);
    total
}

/// Plays `iterations` rounds against an enemy guild, each with mushrooms shot
/// anew, and counts those that we win.
pub fn simulate_guild(
    own: &Vec<Contender>,
    enemy: &Vec<Combatant>,
    mushrooms: u8,
    iterations: u32,
) -> (r: Result<u32, String>)
    ensures
        r is Err <==> (own@.len() == 0 || enemy@.len() == 0),
        match r {
            Ok(won) => won <= iterations && possible_tally(
                fighters_of(own@),
                enemy@,
                mushrooms,
                iterations,
                won,
            ),
            Err(e) => e@ == "Keine Kämpfer auf einer Seite, Simulation nicht möglich"@,
        },
{
    if own.len() == 0 || enemy.len() == 0 {
        return Err("Keine Kämpfer auf einer Seite, Simulation nicht möglich".to_owned());
    }
    let mut chance: Chance = Chance::new();
    let won: u32 = play(own, enemy, mushrooms, iterations, &mut chance);
    Ok(won)
}

// ── Laws ─────────────────────────────────────────────────────────────────────

/// Mushrooms neither add nor remove fighters, and one that is not hit stays in
/// full health.
pub proof fn unhit_fighters_stay_unharmed(base: Seq<Combatant>, targets: Seq<usize>, i: int)
    requires
        0 <= i < base.len(),
        !targets.contains(i as usize),
        base.len() <= usize::MAX,
    ensures
        struck(base, targets).len() == base.len(),
        struck(base, targets)[i] == base[i].full(),
{
    no_hits_without_target(targets, i);
}

/// A fighter that is no target is not hit.
proof fn no_hits_without_target(targets: Seq<usize>, i: int)
    requires
        0 <= i <= usize::MAX,
        !targets.contains(i as usize),
    ensures
        hits_on(targets, i) == 0,
    decreases targets.len(),
{
    if targets.len() > 0 {
        let init = targets.drop_last();
        assert(targets[targets.len() - 1] == targets.last());
        assert forall|k: int| 0 <= k < init.len() implies init[k] != i as usize by {
            assert(targets[k] == init[k]);
        }
        no_hits_without_target(init, i);
    }
}

/// Hits add up: one mushroom leaves a fighter half of its health, two or more
/// leave nothing of it.
pub proof fn hits_add_up(base: Seq<Combatant>, targets: Seq<usize>, i: int)
    requires
        0 <= i < base.len(),
        are_weaker(base[i].full(), base[i].halved(), base[i].felled()),
    ensures
        hits_on(targets, i) == 1 ==> is_half(
            reading_of(struck(base, targets)[i]).health,
            reading_of(base[i].full()).health,
        ),
        hits_on(targets, i) >= 2 ==> reading_of(struck(base, targets)[i]).health == 0,
{
}

/// How many hits the first `n` fighters take together.
pub open spec fn hits_together(targets: Seq<usize>, n: int) -> nat
    decreases n,
{
    if n <= 0 {
        0
    } else {
        hits_together(targets, n - 1) + hits_on(targets, n - 1)
    }
}

/// Every mushroom hits exactly one fighter.
pub proof fn every_mushroom_hits(targets: Seq<usize>, mushrooms: u8, fighters: nat)
    requires
        possible_targets(targets, mushrooms, fighters),
    ensures
        hits_together(targets, fighters as int) == mushrooms,
{
    hits_together_count(targets, fighters as int);
}

/// All fighters together take as many hits as there are targets.
proof fn hits_together_count(targets: Seq<usize>, n: int)
    requires
        0 <= n,
        forall|k: int| 0 <= k < targets.len() ==> #[trigger] targets[k] < n,
    ensures
        hits_together(targets, n) == targets.len(),
    decreases targets.len(),
{
    if targets.len() == 0 {
        no_targets_no_hits(targets, n);
    } else {
        let init = targets.drop_last();
        assert(targets[targets.len() - 1] == targets.last());
        assert forall|k: int| 0 <= k < init.len() implies #[trigger] init[k] < n by {
            assert(init[k] == targets[k]);
        }
        hits_together_count(init, n);
        one_more_hit(targets, n);
    }
}

/// Without targets nobody is hit.
proof fn no_targets_no_hits(targets: Seq<usize>, n: int)
    requires
        targets.len() == 0,
    ensures
        hits_together(targets, n) == 0,
    decreases n,
{
    if n > 0 {
        no_targets_no_hits(targets, n - 1);
    }
}

/// The last target adds one hit, if it is one of the first `n` fighters.
proof fn one_more_hit(targets: Seq<usize>, n: int)
    requires
        targets.len() > 0,
    ensures
        hits_together(targets, n) == hits_together(targets.drop_last(), n) + if targets.last()
            < n {
            1nat
        } else {
            0nat
        },
    decreases n,
{
    if n > 0 {
        one_more_hit(targets, n - 1);
    }
}

/// Each mushroom hits its target, once, and no other fighter.
pub proof fn each_mushroom_hits_its_target(targets: Seq<usize>, next: usize, i: int)
    ensures
        hits_on(Seq::empty(), i) == 0,
        hits_on(targets.push(next), i) == hits_on(targets, i) + if next == i {
            1nat
        } else {
            0nat
        },
{
    assert(targets.push(next).drop_last() =~= targets);
}

/// A fighter that is not hit stays as it is. One that is hit keeps all but its
/// health: of that, one hit leaves half and more leave nothing.
pub proof fn hits_take_nothing_but_health(f: Fighter, full: Fighter, hits: nat)
    requires
        is_left_of(f, full, hits),
    ensures
        hits == 0 ==> f == full,
        f == full || f == with_health(full, reading_of(f).health),
        hits == 1 ==> (reading_of(full).health == 0 && reading_of(f).health == 0) || reading_of(
            full,
        ).health - reading_of(f).health == 0x0010_0000_0000_0000,
        hits >= 2 ==> reading_of(f).health == 0,
        reading_of(f).crit == reading_of(full).crit,
        reading_of(f).portal == reading_of(full).portal,
        reading_of(f).first == reading_of(full).first,
        reading_of(f).second == reading_of(full).second,
{
}

/// Every member of a side fights, in its order.
pub proof fn every_member_of_a_side_fights(side: Seq<Contender>, i: int)
    requires
        0 <= i < side.len(),
    ensures
        fighters_of(side).len() == side.len(),
        fighters_of(side)[i] == side[i]@,
{
}

} // verus!
