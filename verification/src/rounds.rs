//! The rounds of a simulated battle: what they leave to chance, and that all of it
//! counts.
use sf_api::simulate::Fighter;
use vstd::prelude::*;

use crate::battle::{
    all_sound, collect_fighters, fighters_of, hits_on, is_left_of, possible_round, possible_tally,
    possible_targets, strike, struck, sum, tally, wins, Chance, Combatant, Contender, Draw, Fights,
    Round,
};

verus! {

/// The numbers that were drawn, in order.
pub open spec fn got(draws: Seq<Draw>) -> Seq<usize> {
    draws.map_values(|d: Draw| d.got)
}

/// What has been added to the end of a list.
pub open spec fn added<T>(before: Seq<T>, after: Seq<T>) -> Seq<T> {
    after.skip(before.len() as int)
}

/// Whether a list has only been added to.
pub open spec fn grows<T>(before: Seq<T>, after: Seq<T>) -> bool {
    before.len() <= after.len() && after.take(before.len() as int) == before
}

/// Draws a target for each mushroom, once. The same fighter may be drawn again.
fn draw_targets(fighters: usize, mushrooms: u8, chance: &mut Chance) -> (targets: Vec<usize>)
    requires
        fighters > 0,
    ensures
        possible_targets(targets@, mushrooms, fighters as nat),
        final(chance).fights() == old(chance).fights(),
        grows(old(chance).draws(), final(chance).draws()),
        final(chance).draws().len() == old(chance).draws().len() + mushrooms,
        got(added(old(chance).draws(), final(chance).draws())) == targets@,
        forall|k: int|
            old(chance).draws().len() <= k < final(chance).draws().len() ==> (
            #[trigger] final(chance).draws()[k]).below == fighters,
{
    let ghost before = chance.draws();
    let ghost played = chance.fights();
    let mut targets: Vec<usize> = Vec::new();
    let mut k: u8 = 0;
    while k < mushrooms
        invariant
            fighters > 0,
            k <= mushrooms,
            targets@.len() == k,
            forall|j: int| 0 <= j < k ==> #[trigger] targets@[j] < fighters,
            chance.fights() == played,
            chance.draws().len() == before.len() + k,
            forall|j: int| 0 <= j < before.len() ==> #[trigger] chance.draws()[j] == before[j],
            forall|j: int|
                before.len() <= j < chance.draws().len() ==> {
                    &&& (#[trigger] chance.draws()[j]).below == fighters
                    &&& chance.draws()[j].got == targets@[j - before.len()]
                },
        decreases mushrooms - k,
    {
        targets.push(chance.draw(fighters));
        k = k + 1;
    }
    assert(chance.draws().take(before.len() as int) =~= before);
    assert(got(added(before, chance.draws())) =~= targets@);
    targets
}

/// Shoots mushrooms at the enemy. Each is drawn a target once, and these are the
/// targets that are hit.
pub(crate) fn shoot(base: &Vec<Combatant>, mushrooms: u8, chance: &mut Chance) -> (r: Vec<Fighter>)
    ensures
        all_sound(r@),
        final(chance).fights() == old(chance).fights(),
        grows(old(chance).draws(), final(chance).draws()),
        base@.len() == 0 ==> r@.len() == 0 && final(chance).draws() == old(chance).draws(),
        base@.len() > 0 ==> final(chance).draws().len() == old(chance).draws().len() + mushrooms,
        base@.len() > 0 ==> {
            let targets = got(added(old(chance).draws(), final(chance).draws()));
            &&& possible_targets(targets, mushrooms, base@.len())
            &&& r@ == struck(base@, targets)
            &&& forall|i: int|
                0 <= i < base@.len() ==> is_left_of(
                    #[trigger] r@[i],
                    base@[i].full(),
                    hits_on(targets, i),
                )
        },
{
    if mushrooms == 0 || base.len() == 0 {
        let none: Vec<usize> = Vec::new();
        proof {
            let d = chance.draws();
            assert(d.take(d.len() as int) =~= d);
            assert(got(added(d, d)) =~= none@);
        }
        return strike(base, &none);
    }
    let targets: Vec<usize> = draw_targets(base.len(), mushrooms, chance);
    strike(base, &targets)
}

/// The fights won in a list of fights.
pub open spec fn total_won(fights: Seq<Fights>) -> nat
    decreases fights.len(),
{
    if fights.len() == 0 {
        0
    } else {
        total_won(fights.drop_last()) + fights.last().won as nat
    }
}

/// The fights won in a list are the sum over its fights, each counted once.
pub proof fn every_fight_is_counted_once(fights: Seq<Fights>, next: Fights)
    ensures
        total_won(Seq::empty()) == 0,
        total_won(fights.push(next)) == total_won(fights) + next.won,
{
    assert(fights.push(next).drop_last() =~= fights);
}

/// Lists of fights one after the other are counted together.
pub proof fn counts_add_up(a: Seq<Fights>, b: Seq<Fights>)
    ensures
        total_won(a + b) == total_won(a) + total_won(b),
    decreases b.len(),
{
    if b.len() > 0 {
        assert((a + b).drop_last() =~= a + b.drop_last());
        counts_add_up(a, b.drop_last());
    } else {
        assert(a + b =~= a);
    }
}

/// A lost round stays lost: of fights that are played once each, those won and
/// those lost add up to all of them.
pub proof fn lost_rounds_stay_lost(fights: Seq<Fights>)
    requires
        forall|k: int| 0 <= k < fights.len() ==> (#[trigger] fights[k]).won <= 1,
    ensures
        total_won(fights) + fights.filter(|f: Fights| f.won == 0).len() == fights.len(),
    decreases fights.len(),
{
    reveal(Seq::filter);
    if fights.len() > 0 {
        assert forall|k: int| 0 <= k < fights.len() - 1 implies (
        #[trigger] fights.drop_last()[k]).won <= 1 by {
            assert(fights[k].won <= 1);
        }
        lost_rounds_stay_lost(fights.drop_last());
        assert(fights[fights.len() - 1].won <= 1);
    }
}

/// The fights won are the sum over the rounds.
proof fn rounds_are_fights(fights: Seq<Fights>, won: Seq<u32>)
    requires
        fights.len() == won.len(),
        forall|k: int| 0 <= k < won.len() ==> (#[trigger] fights[k]).won == won[k],
    ensures
        total_won(fights) == sum(won),
    decreases won.len(),
{
    if won.len() > 0 {
        assert forall|k: int| 0 <= k < won.len() - 1 implies (#[trigger] fights.drop_last()[k]).won
            == won.drop_last()[k] by {
            assert(fights[k].won == won[k]);
        }
        rounds_are_fights(fights.drop_last(), won.drop_last());
        assert(fights[won.len() - 1].won == won[won.len() - 1]);
    }
}

/// What was drawn in round `k`, where each round draws `mushrooms` numbers.
pub open spec fn drawn_in(draws: Seq<Draw>, mushrooms: u8, k: int) -> Seq<usize> {
    got(draws).subrange(k * mushrooms, k * mushrooms + mushrooms)
}

/// What was drawn in a round does not change with what is drawn later.
proof fn later_draws_change_nothing(
    before: Seq<Draw>,
    after: Seq<Draw>,
    mushrooms: u8,
    rounds: int,
    k: int,
)
    requires
        grows(before, after),
        0 <= k < rounds,
        before.len() == rounds * mushrooms,
    ensures
        drawn_in(before, mushrooms, k) == drawn_in(after, mushrooms, k),
{
    assert(k * mushrooms + mushrooms <= rounds * mushrooms && 0 <= k * mushrooms) by (nonlinear_arith)
        requires
            0 <= k < rounds,
            0 <= mushrooms,
    ;
    assert forall|i: int| 0 <= i < before.len() implies after[i] == before[i] by {
        assert(after.take(before.len() as int)[i] == after[i]);
    }
    assert(drawn_in(before, mushrooms, k) =~= drawn_in(after, mushrooms, k));
}

/// Plays `iterations` rounds against an enemy guild, each with mushrooms shot
/// anew, and counts those that we win. As many fights are played as there are
/// rounds, one in each, and every fight that is played counts.
pub(crate) fn play(
    own: &Vec<Contender>,
    enemy: &Vec<Combatant>,
    mushrooms: u8,
    iterations: u32,
    chance: &mut Chance,
) -> (won: u32)
    requires
        enemy@.len() > 0,
    ensures
        won <= iterations,
        possible_tally(fighters_of(own@), enemy@, mushrooms, iterations, won),
        grows(old(chance).fights(), final(chance).fights()),
        final(chance).fights().len() == old(chance).fights().len() + iterations,
        won == total_won(added(old(chance).fights(), final(chance).fights())),
        forall|k: int|
            old(chance).fights().len() <= k < final(chance).fights().len() ==> {
                let f = #[trigger] final(chance).fights()[k];
                let round = k - old(chance).fights().len();
                let draws = added(old(chance).draws(), final(chance).draws());
                &&& f.left == fighters_of(own@)
                &&& f.right == struck(enemy@, drawn_in(draws, mushrooms, round))
                &&& f.played == 1
                &&& f.won <= 1
            },
        grows(old(chance).draws(), final(chance).draws()),
        final(chance).draws().len() == old(chance).draws().len() + iterations * mushrooms,
{
    let ghost before = chance.fights();
    let ghost drawn = chance.draws();
    let left: Vec<Fighter> = collect_fighters(own);
    let mut won: Vec<u32> = Vec::new();
    let ghost mut rounds: Seq<Round> = Seq::empty();
    let mut k: u32 = 0;
    assert(drawn.take(drawn.len() as int) =~= drawn);
    while k < iterations
        invariant
            enemy@.len() > 0,
            left@ == fighters_of(own@),
            all_sound(left@),
            k <= iterations,
            won@.len() == k,
            rounds.len() == k,
            forall|j: int| 0 <= j < won@.len() ==> #[trigger] won@[j] <= 1,
            forall|j: int|
                0 <= j < rounds.len() ==> possible_round(
                    fighters_of(own@),
                    enemy@,
                    mushrooms,
                    #[trigger] rounds[j],
                ),
            won@ =~= wins(rounds),
            chance.fights().len() == before.len() + k,
            forall|j: int| 0 <= j < before.len() ==> #[trigger] chance.fights()[j] == before[j],
            forall|j: int|
                before.len() <= j < chance.fights().len() ==> {
                    let f = #[trigger] chance.fights()[j];
                    &&& f.left == left@
                    &&& f.right == struck(
                        enemy@,
                        drawn_in(added(drawn, chance.draws()), mushrooms, j - before.len()),
                    )
                    &&& f.played == 1
                    &&& f.won == won@[j - before.len()]
                },
            grows(drawn, chance.draws()),
            chance.draws().len() == drawn.len() + k * mushrooms,
        decreases iterations - k,
    {
        let ghost here = chance.draws();
        let ghost there = chance.fights();
        let right: Vec<Fighter> = shoot(enemy, mushrooms, chance);
        let ghost targets = got(added(here, chance.draws()));
        let outcome: u32 = chance.fight(&left, &right, 1);
        won.push(outcome);
        proof {
            rounds = rounds.push(Round { targets, won: outcome });
            assert(chance.draws().take(drawn.len() as int) =~= chance.draws().take(
                here.len() as int,
            ).take(drawn.len() as int));
            assert((k + 1) * mushrooms == k * mushrooms + mushrooms) by (nonlinear_arith);
            let old_draws = added(drawn, here);
            let new_draws = added(drawn, chance.draws());
            assert(new_draws.take(old_draws.len() as int) =~= old_draws) by {
                assert forall|i: int| 0 <= i < here.len() implies chance.draws()[i] == here[i] by {
                    assert(chance.draws().take(here.len() as int)[i] == chance.draws()[i]);
                }
            }
            assert(drawn_in(new_draws, mushrooms, k as int) =~= targets);
            assert forall|j: int| before.len() <= j < chance.fights().len() implies (
            #[trigger] chance.fights()[j]).right == struck(
                enemy@,
                drawn_in(new_draws, mushrooms, j - before.len()),
            ) by {
                if j < there.len() {
                    assert(chance.fights()[j] == there[j]);
                    later_draws_change_nothing(
                        old_draws,
                        new_draws,
                        mushrooms,
                        k as int,
                        j - before.len(),
                    );
                }
            }
        }
        k = k + 1;
    }
    proof {
        let new = added(before, chance.fights());
        assert(chance.fights().take(before.len() as int) =~= before);
        assert forall|j: int| 0 <= j < won@.len() implies (#[trigger] new[j]).won == won@[j] by {
            assert(new[j] == chance.fights()[before.len() + j]);
        }
        rounds_are_fights(new, won@);
    }
    tally(&won)
}

/// A round has draws of its own: as many as there are mushrooms, after those of the
/// rounds before it, and in the order in which they were drawn.
pub proof fn each_round_has_its_own_draws(
    before: Seq<Draw>,
    draws: Seq<Draw>,
    mushrooms: u8,
    round: int,
    i: int,
)
    requires
        0 <= round,
        (round + 1) * mushrooms <= draws.len(),
        0 <= i < mushrooms,
    ensures
        added(before, before + draws) == draws,
        drawn_in(draws, mushrooms, round).len() == mushrooms,
        drawn_in(draws, mushrooms, round)[i] == draws[round * mushrooms + i].got,
{
    assert((round + 1) * mushrooms == round * mushrooms + mushrooms) by (nonlinear_arith);
    assert(0 <= round * mushrooms) by (nonlinear_arith)
        requires
            0 <= round,
            0 <= mushrooms,
    ;
    assert(added(before, before + draws) =~= draws);
}

} // verus!
