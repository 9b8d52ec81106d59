//! Where each feature of the second-generation encoding stands, and what it says.
#[allow(unused_imports)]
use crate::matchup::TYPE_SLOTS;
#[allow(unused_imports)]
use crate::policy::chart::{charted_pair, physical_type};
#[allow(unused_imports)]
use crate::policy::moves::MoveTable;
#[allow(unused_imports)]
use crate::policy::v2::{
    boosted, extras_code, global_code, inflicts, item_code, item_order,
    law_encoding_has_fixed_length, lemma_moves_length, lemma_team_length, may_inflict, move_code,
    moves_code, pokemon_code, stages_of, stat_code, state_code, stats_code, status_flags, team_code,
    type_flags, Stages,
};
#[allow(unused_imports)]
use crate::policy::v3_places::{between, lemma_flags, side_at, yes};
#[allow(unused_imports)]
use crate::state::{fainted_among, Choice, Effect, Pokemon, Side, State, StatusEffect, TypePair};
#[allow(unused_imports)]
use crate::types::{
    Choices, Items, MoveCategory, PokemonStatus, PokemonType, PokemonVolatileStatus, Weather,
};
use vstd::prelude::*;

verus! {

/// The stages of a team member count while it is out.
pub open spec fn stages_at(s: Side, k: int) -> Option<Stages> {
    if k == s.active_index {
        Some(stages_of(s))
    } else {
        None
    }
}

proof fn lemma_team_place(s: Side, gen2: bool, n: int, k: int, j: int)
    requires
        0 <= k < n,
        0 <= j < 38,
    ensures
        team_code(s, gen2, n).len() == n * 38,
        team_code(s, gen2, n)[k * 38 + j] == pokemon_code(
            s.pokemon@[k],
            stages_at(s, k),
            gen2,
        )[j],
    decreases n,
{
    lemma_team_length(s, gen2, n);
    lemma_team_length(s, gen2, n - 1);
    if k < n - 1 {
        lemma_team_place(s, gen2, n - 1, k, j);
    }
}

proof fn lemma_parts(state: State, table: MoveTable, gen2: bool)
    ensures
        state_code(state, table, gen2).len() == 609,
        moves_code(state.side_one.active(), state.side_two.active().types, table, 4).len() == 124,
        team_code(state.side_one, gen2, 6).len() == 228,
        team_code(state.side_two, gen2, 6).len() == 228,
        extras_code(state.side_one, state.side_two).len() == 12,
        extras_code(state.side_two, state.side_one).len() == 12,
        global_code(state).len() == 5,
{
    law_encoding_has_fixed_length(state, table, gen2);
    lemma_moves_length(state.side_one.active(), state.side_two.active().types, table, 4);
    lemma_team_length(state.side_one, gen2, 6);
    lemma_team_length(state.side_two, gen2, 6);
}

/// The features of a team member stand together.
proof fn lemma_member_place(
    state: State,
    table: MoveTable,
    gen2: bool,
    s: int,
    k: int,
    j: int,
)
    requires
        s == 0 || s == 1,
        0 <= k < 6,
        0 <= j < 38,
    ensures
        state_code(state, table, gen2)[124 + s * 228 + k * 38 + j] == pokemon_code(
            side_at(state, s).pokemon@[k],
            stages_at(side_at(state, s), k),
            gen2,
        )[j],
{
    lemma_parts(state, table, gen2);
    lemma_team_place(side_at(state, s), gen2, 6, k, j);
}

/// The parts of a team member's features.
proof fn lemma_member_part(p: Pokemon, g: Option<Stages>, gen2: bool, j: int)
    requires
        0 <= j < 38,
    ensures
        2 <= j < 19 ==> pokemon_code(p, g, gen2)[j] == type_flags(p.types.0, p.types.1, 17)[j - 2],
        19 <= j < 24 ==> pokemon_code(p, g, gen2)[j] == stats_code(p, g)[j - 19],
        24 <= j < 31 ==> pokemon_code(p, g, gen2)[j] == status_flags(p.status)[j - 24],
        31 <= j < 38 ==> pokemon_code(p, g, gen2)[j] == item_code(p.item, gen2)[j - 31],
{
    assert(stats_code(p, g).len() == 5);
    assert(status_flags(p.status).len() == 7);
    assert(item_code(p.item, gen2).len() == 7);
}

proof fn lemma_move_place(p: Pokemon, foe: TypePair, table: MoveTable, n: int, i: int, j: int)
    requires
        0 <= i < n,
        0 <= j < 31,
    ensures
        moves_code(p, foe, table, n)[i * 31 + j] == move_code(
            p.moves@[i],
            table.lookup(p.moves@[i].id),
            p.types,
            foe,
        )[j],
    decreases n,
{
    lemma_moves_length(p, foe, table, n);
    lemma_moves_length(p, foe, table, n - 1);
    if i < n - 1 {
        lemma_move_place(p, foe, table, n - 1, i, j);
    }
}

/// The features of the active Pokemon's moves come first.
proof fn lemma_move_feature(state: State, table: MoveTable, gen2: bool, i: int, j: int)
    requires
        0 <= i < 4,
        0 <= j < 31,
    ensures
        state_code(state, table, gen2)[i * 31 + j] == move_code(
            state.side_one.active().moves@[i],
            table.lookup(state.side_one.active().moves@[i].id),
            state.side_one.active().types,
            state.side_two.active().types,
        )[j],
{
    lemma_parts(state, table, gen2);
    lemma_move_place(
        state.side_one.active(),
        state.side_two.active().types,
        table,
        4,
        i,
        j,
    );
}

/// The features of a side as a whole stand behind the teams.
proof fn lemma_extras_place(state: State, table: MoveTable, gen2: bool, s: int, j: int)
    requires
        s == 0 || s == 1,
        0 <= j < 12,
    ensures
        state_code(state, table, gen2)[580 + s * 12 + j] == extras_code(
            side_at(state, s),
            side_at(state, 1 - s),
        )[j],
{
    lemma_parts(state, table, gen2);
}

proof fn lemma_stage_range(stat: i16, g: i8)
    ensures
        g >= 0 ==> -0x100_0000 <= stat * (2 + g) <= 0x100_0000,
{
    if g >= 0 {
        assert(-0x100_0000 <= stat * (2 + g) <= 0x100_0000) by (nonlinear_arith)
            requires
                0 <= g <= 127,
                -32768 <= stat <= 32767,
        ;
    }
}

/// A stat as a part of 500: raised by half of it for every stage above zero, and
/// divided accordingly for those below.
pub open spec fn staged(stat: i16, g: i8) -> real {
    if g >= 0 {
        (stat * (2 + g)) as real / 1000 as real
    } else {
        (stat * 2) as real / (500 * (2 - g)) as real
    }
}

proof fn lemma_staged(stat: i16, g: i8)
    ensures
        stat_code(stat, Some(g))@ == staged(stat, g),
{
    lemma_stage_range(stat, g);
}

proof fn lemma_listed(item: Items, gen2: bool)
    ensures
        gen2 ==> ((exists|k: int| 0 <= k < 5 && #[trigger] item_order(gen2)[k] == item) <==> (item
            == Items::LEFTOVERS || item == Items::THICKCLUB || item == Items::LIGHTBALL || item
            == Items::MIRACLEBERRY || item == Items::MINTBERRY)),
        !gen2 ==> ((exists|k: int| 0 <= k < 5 && #[trigger] item_order(gen2)[k] == item) <==> (item
            == Items::LEFTOVERS || item == Items::CHOICEBAND || item == Items::CHOICESCARF || item
            == Items::CHOICESPECS || item == Items::LIFEORB)),
{
    let order = item_order(gen2);
    if exists|k: int| 0 <= k < 5 && #[trigger] order[k] == item {
        let k = choose|k: int| 0 <= k < 5 && #[trigger] order[k] == item;
        assert(k == 0 || k == 1 || k == 2 || k == 3 || k == 4);
    }
    assert(order[0] == order[0] && order[1] == order[1] && order[2] == order[2] && order[3]
        == order[3] && order[4] == order[4]);
}

proof fn lemma_standing_range(team: Seq<Pokemon>, n: int)
    requires
        0 <= n,
    ensures
        0 <= fainted_among(team, n) <= n,
    decreases n,
{
    if n > 0 {
        lemma_standing_range(team, n - 1);
    }
}

proof fn lemma_staged_speed(stat: i16, g: i8)
    ensures
        boosted(stat as int, g as int)@ == 500 as real * staged(stat, g),
{
    lemma_stage_range(stat, g);
    if g >= 0 {
        let x: real = (stat * (2 + g)) as real;
        assert(boosted(stat as int, g as int)@ == x / 2 as real);
        assert(500 as real * (x / 1000 as real) == x / 2 as real) by (nonlinear_arith);
    } else {
        let (x, y): (real, real) = ((stat * 2) as real, (2 - g) as real);
        assert((500 * (2 - g)) as real == 500 as real * y);
        assert(x / y == 500 as real * (x / (500 as real * y))) by (nonlinear_arith)
            requires
                y > 0 as real,
        ;
        assert(boosted(stat as int, g as int)@ == x / y);
    }
}

proof fn lemma_pair_range(t: PokemonType, foe: TypePair)
    ensures
        0 <= charted_pair(t, foe.0, foe.1) <= 0x1_0000,
{
    let (x, y): (int, int) = (
        crate::policy::chart::charted(t, foe.0),
        crate::policy::chart::charted(t, foe.1),
    );
    assert(0 <= x * y <= 0x1_0000) by (nonlinear_arith)
        requires
            0 <= x <= 255,
            0 <= y <= 255,
    ;
}

proof fn lemma_trifles()
    ensures
        0 as real / 250 as real == 0 as real,
        100 as real / 100 as real == 1 as real,
        32 as real / 32 as real == 1 as real,
{
}

/// For every team member the features tell the share of its hit points, whether it
/// stands, and its status condition.
#[verifier::rlimit(60)]
pub proof fn law_vitals_have_their_places(
    state: State,
    table: MoveTable,
    gen2: bool,
    s: int,
    k: int,
)
    requires
        s == 0 || s == 1,
        0 <= k < 6,
    ensures
        ({
            let code = state_code(state, table, gen2);
            let m = side_at(state, s).pokemon@[k];
            let at = 124 + s * 228 + k * 38;
            &&& m.maxhp > 0 ==> code[at]@ == m.hp as real / m.maxhp as real
            &&& code[at + 1]@ == yes(m.hp > 0)
            &&& code[at + 24]@ == yes(m.status == PokemonStatus::NONE)
            &&& code[at + 25]@ == yes(m.status == PokemonStatus::BURN)
            &&& code[at + 26]@ == yes(m.status == PokemonStatus::SLEEP)
            &&& code[at + 27]@ == yes(m.status == PokemonStatus::FREEZE)
            &&& code[at + 28]@ == yes(m.status == PokemonStatus::PARALYZE)
            &&& code[at + 29]@ == yes(m.status == PokemonStatus::POISON)
            &&& code[at + 30]@ == yes(m.status == PokemonStatus::TOXIC)
        }),
{
    lemma_flags();
    let code = state_code(state, table, gen2);
    let m = side_at(state, s).pokemon@[k];
    let at = 124 + s * 228 + k * 38;
    assert(m.maxhp > 0 ==> code[at]@ == m.hp as real / m.maxhp as real) by {
        lemma_member_place(state, table, gen2, s, k, 0);
        lemma_member_part(side_at(state, s).pokemon@[k], stages_at(side_at(state, s), k), gen2, 0);
    }
    assert(code[at + 1]@ == yes(m.hp > 0)) by {
        lemma_member_place(state, table, gen2, s, k, 1);
        lemma_member_part(side_at(state, s).pokemon@[k], stages_at(side_at(state, s), k), gen2, 1);
    }
    assert(code[at + 24]@ == yes(m.status == PokemonStatus::NONE)) by {
        lemma_member_place(state, table, gen2, s, k, 24);
        lemma_member_part(side_at(state, s).pokemon@[k], stages_at(side_at(state, s), k), gen2, 24);
    }
    assert(code[at + 25]@ == yes(m.status == PokemonStatus::BURN)) by {
        lemma_member_place(state, table, gen2, s, k, 25);
        lemma_member_part(side_at(state, s).pokemon@[k], stages_at(side_at(state, s), k), gen2, 25);
    }
    assert(code[at + 26]@ == yes(m.status == PokemonStatus::SLEEP)) by {
        lemma_member_place(state, table, gen2, s, k, 26);
        lemma_member_part(side_at(state, s).pokemon@[k], stages_at(side_at(state, s), k), gen2, 26);
    }
    assert(code[at + 27]@ == yes(m.status == PokemonStatus::FREEZE)) by {
        lemma_member_place(state, table, gen2, s, k, 27);
        lemma_member_part(side_at(state, s).pokemon@[k], stages_at(side_at(state, s), k), gen2, 27);
    }
    assert(code[at + 28]@ == yes(m.status == PokemonStatus::PARALYZE)) by {
        lemma_member_place(state, table, gen2, s, k, 28);
        lemma_member_part(side_at(state, s).pokemon@[k], stages_at(side_at(state, s), k), gen2, 28);
    }
    assert(code[at + 29]@ == yes(m.status == PokemonStatus::POISON)) by {
        lemma_member_place(state, table, gen2, s, k, 29);
        lemma_member_part(side_at(state, s).pokemon@[k], stages_at(side_at(state, s), k), gen2, 29);
    }
    assert(code[at + 30]@ == yes(m.status == PokemonStatus::TOXIC)) by {
        lemma_member_place(state, table, gen2, s, k, 30);
        lemma_member_part(side_at(state, s).pokemon@[k], stages_at(side_at(state, s), k), gen2, 30);
    }
}

/// On the bench the five stats are told as parts of 500.
#[verifier::rlimit(60)]
pub proof fn law_benched_stats_have_their_places(
    state: State,
    table: MoveTable,
    gen2: bool,
    s: int,
    k: int,
)
    requires
        s == 0 || s == 1,
        0 <= k < 6,
        k != side_at(state, s).active_index,
    ensures
        ({
            let code = state_code(state, table, gen2);
            let m = side_at(state, s).pokemon@[k];
            let at = 124 + s * 228 + k * 38;
            &&& code[at + 19]@ == m.attack as real / 500 as real
            &&& code[at + 20]@ == m.defense as real / 500 as real
            &&& code[at + 21]@ == m.special_attack as real / 500 as real
            &&& code[at + 22]@ == m.special_defense as real / 500 as real
            &&& code[at + 23]@ == m.speed as real / 500 as real
        }),
{
    lemma_flags();
    let code = state_code(state, table, gen2);
    let m = side_at(state, s).pokemon@[k];
    let at = 124 + s * 228 + k * 38;
    assert(code[at + 19]@ == m.attack as real / 500 as real) by {
        lemma_member_place(state, table, gen2, s, k, 19);
        lemma_member_part(side_at(state, s).pokemon@[k], stages_at(side_at(state, s), k), gen2, 19);
    }
    assert(code[at + 20]@ == m.defense as real / 500 as real) by {
        lemma_member_place(state, table, gen2, s, k, 20);
        lemma_member_part(side_at(state, s).pokemon@[k], stages_at(side_at(state, s), k), gen2, 20);
    }
    assert(code[at + 21]@ == m.special_attack as real / 500 as real) by {
        lemma_member_place(state, table, gen2, s, k, 21);
        lemma_member_part(side_at(state, s).pokemon@[k], stages_at(side_at(state, s), k), gen2, 21);
    }
    assert(code[at + 22]@ == m.special_defense as real / 500 as real) by {
        lemma_member_place(state, table, gen2, s, k, 22);
        lemma_member_part(side_at(state, s).pokemon@[k], stages_at(side_at(state, s), k), gen2, 22);
    }
    assert(code[at + 23]@ == m.speed as real / 500 as real) by {
        lemma_member_place(state, table, gen2, s, k, 23);
        lemma_member_part(side_at(state, s).pokemon@[k], stages_at(side_at(state, s), k), gen2, 23);
    }
}

/// The stats of the Pokemon that is out are told with their stages.
#[verifier::rlimit(60)]
pub proof fn law_staged_stats_have_their_places(
    state: State,
    table: MoveTable,
    gen2: bool,
    s: int,
    k: int,
)
    requires
        s == 0 || s == 1,
        0 <= k < 6,
        k == side_at(state, s).active_index,
    ensures
        ({
            let code = state_code(state, table, gen2);
            let m = side_at(state, s).pokemon@[k];
            let at = 124 + s * 228 + k * 38;
            let side = side_at(state, s);
            &&& code[at + 19]@ == staged(m.attack, side.attack_boost)
            &&& code[at + 20]@ == staged(m.defense, side.defense_boost)
            &&& code[at + 21]@ == staged(m.special_attack, side.special_attack_boost)
            &&& code[at + 22]@ == staged(m.special_defense, side.special_defense_boost)
            &&& code[at + 23]@ == staged(m.speed, side.speed_boost)
        }),
{
    lemma_flags();
    let code = state_code(state, table, gen2);
    let m = side_at(state, s).pokemon@[k];
    let at = 124 + s * 228 + k * 38;
    let side = side_at(state, s);
    assert(code[at + 19]@ == staged(m.attack, side.attack_boost)) by {
        lemma_member_place(state, table, gen2, s, k, 19);
        lemma_member_part(side_at(state, s).pokemon@[k], stages_at(side_at(state, s), k), gen2, 19);
        lemma_staged(side_at(state, s).pokemon@[k].attack, side_at(state, s).attack_boost);
    }
    assert(code[at + 20]@ == staged(m.defense, side.defense_boost)) by {
        lemma_member_place(state, table, gen2, s, k, 20);
        lemma_member_part(side_at(state, s).pokemon@[k], stages_at(side_at(state, s), k), gen2, 20);
        lemma_staged(side_at(state, s).pokemon@[k].defense, side_at(state, s).defense_boost);
    }
    assert(code[at + 21]@ == staged(m.special_attack, side.special_attack_boost)) by {
        lemma_member_place(state, table, gen2, s, k, 21);
        lemma_member_part(side_at(state, s).pokemon@[k], stages_at(side_at(state, s), k), gen2, 21);
        lemma_staged(side_at(state, s).pokemon@[k].special_attack, side_at(state,
            s).special_attack_boost);
    }
    assert(code[at + 22]@ == staged(m.special_defense, side.special_defense_boost)) by {
        lemma_member_place(state, table, gen2, s, k, 22);
        lemma_member_part(side_at(state, s).pokemon@[k], stages_at(side_at(state, s), k), gen2, 22);
        lemma_staged(side_at(state, s).pokemon@[k].special_defense, side_at(state,
            s).special_defense_boost);
    }
    assert(code[at + 23]@ == staged(m.speed, side.speed_boost)) by {
        lemma_member_place(state, table, gen2, s, k, 23);
        lemma_member_part(side_at(state, s).pokemon@[k], stages_at(side_at(state, s), k), gen2, 23);
        lemma_staged(side_at(state, s).pokemon@[k].speed, side_at(state, s).speed_boost);
    }
}

/// Seven features tell the item in the second generation. Five items have one of
/// their own, the sixth is for any other, the last for none.
#[verifier::rlimit(60)]
pub proof fn law_items_have_their_places(
    state: State,
    table: MoveTable,
    gen2: bool,
    s: int,
    k: int,
)
    requires
        s == 0 || s == 1,
        0 <= k < 6,
        gen2,
    ensures
        ({
            let code = state_code(state, table, gen2);
            let m = side_at(state, s).pokemon@[k];
            let at = 124 + s * 228 + k * 38;
            &&& code[at + 31]@ == yes(m.item == Items::LEFTOVERS)
            &&& code[at + 32]@ == yes(m.item == Items::THICKCLUB)
            &&& code[at + 33]@ == yes(m.item == Items::LIGHTBALL)
            &&& code[at + 34]@ == yes(m.item == Items::MIRACLEBERRY)
            &&& code[at + 35]@ == yes(m.item == Items::MINTBERRY)
            &&& code[at + 36]@ == yes(m.item != Items::LEFTOVERS && m.item != Items::THICKCLUB
                    && m.item != Items::LIGHTBALL && m.item != Items::MIRACLEBERRY
                    && m.item != Items::MINTBERRY && m.item != Items::NONE)
            &&& code[at + 37]@ == yes(m.item == Items::NONE)
        }),
{
    lemma_flags();
    let code = state_code(state, table, gen2);
    let m = side_at(state, s).pokemon@[k];
    let at = 124 + s * 228 + k * 38;
    assert(code[at + 31]@ == yes(m.item == Items::LEFTOVERS)) by {
        lemma_member_place(state, table, gen2, s, k, 31);
        lemma_member_part(side_at(state, s).pokemon@[k], stages_at(side_at(state, s), k), gen2, 31);
        lemma_listed(side_at(state, s).pokemon@[k].item, gen2);
    }
    assert(code[at + 32]@ == yes(m.item == Items::THICKCLUB)) by {
        lemma_member_place(state, table, gen2, s, k, 32);
        lemma_member_part(side_at(state, s).pokemon@[k], stages_at(side_at(state, s), k), gen2, 32);
        lemma_listed(side_at(state, s).pokemon@[k].item, gen2);
    }
    assert(code[at + 33]@ == yes(m.item == Items::LIGHTBALL)) by {
        lemma_member_place(state, table, gen2, s, k, 33);
        lemma_member_part(side_at(state, s).pokemon@[k], stages_at(side_at(state, s), k), gen2, 33);
        lemma_listed(side_at(state, s).pokemon@[k].item, gen2);
    }
    assert(code[at + 34]@ == yes(m.item == Items::MIRACLEBERRY)) by {
        lemma_member_place(state, table, gen2, s, k, 34);
        lemma_member_part(side_at(state, s).pokemon@[k], stages_at(side_at(state, s), k), gen2, 34);
        lemma_listed(side_at(state, s).pokemon@[k].item, gen2);
    }
    assert(code[at + 35]@ == yes(m.item == Items::MINTBERRY)) by {
        lemma_member_place(state, table, gen2, s, k, 35);
        lemma_member_part(side_at(state, s).pokemon@[k], stages_at(side_at(state, s), k), gen2, 35);
        lemma_listed(side_at(state, s).pokemon@[k].item, gen2);
    }
    assert(code[at + 36]@ == yes(m.item != Items::LEFTOVERS && m.item != Items::THICKCLUB
        && m.item != Items::LIGHTBALL && m.item != Items::MIRACLEBERRY
        && m.item != Items::MINTBERRY && m.item != Items::NONE)) by {
        lemma_member_place(state, table, gen2, s, k, 36);
        lemma_member_part(side_at(state, s).pokemon@[k], stages_at(side_at(state, s), k), gen2, 36);
        lemma_listed(side_at(state, s).pokemon@[k].item, gen2);
    }
    assert(code[at + 37]@ == yes(m.item == Items::NONE)) by {
        lemma_member_place(state, table, gen2, s, k, 37);
        lemma_member_part(side_at(state, s).pokemon@[k], stages_at(side_at(state, s), k), gen2, 37);
        lemma_listed(side_at(state, s).pokemon@[k].item, gen2);
    }
}

/// Seven features tell the item in later generations. Five items have one of
/// their own, the sixth is for any other, the last for none.
#[verifier::rlimit(60)]
pub proof fn law_modern_items_have_their_places(
    state: State,
    table: MoveTable,
    gen2: bool,
    s: int,
    k: int,
)
    requires
        s == 0 || s == 1,
        0 <= k < 6,
        !gen2,
    ensures
        ({
            let code = state_code(state, table, gen2);
            let m = side_at(state, s).pokemon@[k];
            let at = 124 + s * 228 + k * 38;
            &&& code[at + 31]@ == yes(m.item == Items::LEFTOVERS)
            &&& code[at + 32]@ == yes(m.item == Items::CHOICEBAND)
            &&& code[at + 33]@ == yes(m.item == Items::CHOICESCARF)
            &&& code[at + 34]@ == yes(m.item == Items::CHOICESPECS)
            &&& code[at + 35]@ == yes(m.item == Items::LIFEORB)
            &&& code[at + 36]@ == yes(m.item != Items::LEFTOVERS && m.item != Items::CHOICEBAND
                    && m.item != Items::CHOICESCARF && m.item != Items::CHOICESPECS
                    && m.item != Items::LIFEORB && m.item != Items::NONE)
            &&& code[at + 37]@ == yes(m.item == Items::NONE)
        }),
{
    lemma_flags();
    let code = state_code(state, table, gen2);
    let m = side_at(state, s).pokemon@[k];
    let at = 124 + s * 228 + k * 38;
    assert(code[at + 31]@ == yes(m.item == Items::LEFTOVERS)) by {
        lemma_member_place(state, table, gen2, s, k, 31);
        lemma_member_part(side_at(state, s).pokemon@[k], stages_at(side_at(state, s), k), gen2, 31);
        lemma_listed(side_at(state, s).pokemon@[k].item, gen2);
    }
    assert(code[at + 32]@ == yes(m.item == Items::CHOICEBAND)) by {
        lemma_member_place(state, table, gen2, s, k, 32);
        lemma_member_part(side_at(state, s).pokemon@[k], stages_at(side_at(state, s), k), gen2, 32);
        lemma_listed(side_at(state, s).pokemon@[k].item, gen2);
    }
    assert(code[at + 33]@ == yes(m.item == Items::CHOICESCARF)) by {
        lemma_member_place(state, table, gen2, s, k, 33);
        lemma_member_part(side_at(state, s).pokemon@[k], stages_at(side_at(state, s), k), gen2, 33);
        lemma_listed(side_at(state, s).pokemon@[k].item, gen2);
    }
    assert(code[at + 34]@ == yes(m.item == Items::CHOICESPECS)) by {
        lemma_member_place(state, table, gen2, s, k, 34);
        lemma_member_part(side_at(state, s).pokemon@[k], stages_at(side_at(state, s), k), gen2, 34);
        lemma_listed(side_at(state, s).pokemon@[k].item, gen2);
    }
    assert(code[at + 35]@ == yes(m.item == Items::LIFEORB)) by {
        lemma_member_place(state, table, gen2, s, k, 35);
        lemma_member_part(side_at(state, s).pokemon@[k], stages_at(side_at(state, s), k), gen2, 35);
        lemma_listed(side_at(state, s).pokemon@[k].item, gen2);
    }
    assert(code[at + 36]@ == yes(m.item != Items::LEFTOVERS && m.item != Items::CHOICEBAND
        && m.item != Items::CHOICESCARF && m.item != Items::CHOICESPECS
        && m.item != Items::LIFEORB && m.item != Items::NONE)) by {
        lemma_member_place(state, table, gen2, s, k, 36);
        lemma_member_part(side_at(state, s).pokemon@[k], stages_at(side_at(state, s), k), gen2, 36);
        lemma_listed(side_at(state, s).pokemon@[k].item, gen2);
    }
    assert(code[at + 37]@ == yes(m.item == Items::NONE)) by {
        lemma_member_place(state, table, gen2, s, k, 37);
        lemma_member_part(side_at(state, s).pokemon@[k], stages_at(side_at(state, s), k), gen2, 37);
        lemma_listed(side_at(state, s).pokemon@[k].item, gen2);
    }
}

/// The types of a team member stand in the order of their slots.
#[verifier::rlimit(60)]
pub proof fn law_types_have_their_places(
    state: State,
    table: MoveTable,
    gen2: bool,
    s: int,
    k: int,
    i: int,
)
    requires
        s == 0 || s == 1,
        0 <= k < 6,
        0 <= i < 17,
    ensures
        ({
            let code = state_code(state, table, gen2);
            let m = side_at(state, s).pokemon@[k];
            let at = 124 + s * 228 + k * 38;
            &&& code[at + 2 + i]@ == yes(m.types.0 == TYPE_SLOTS[i] || m.types.1 == TYPE_SLOTS[i])
        }),
{
    lemma_flags();
    let code = state_code(state, table, gen2);
    let m = side_at(state, s).pokemon@[k];
    let at = 124 + s * 228 + k * 38;
    assert(code[at + 2 + i]@ == yes(m.types.0 == TYPE_SLOTS[i] || m.types.1 == TYPE_SLOTS[i])) by {
        lemma_member_place(state, table, gen2, s, k, 2 + i);
        lemma_member_part(side_at(state, s).pokemon@[k], stages_at(side_at(state, s), k), gen2,
            2 + i);
    }
}

/// For each side the features tell its spikes and screens, whether somebody of the other
/// team sleeps, how many still stand, five volatile statuses, and how long the Pokemon
/// that is out has slept and rested.
#[verifier::rlimit(60)]
pub proof fn law_sides_have_their_places(
    state: State,
    table: MoveTable,
    gen2: bool,
    s: int,
)
    requires
        s == 0 || s == 1,
    ensures
        ({
            let code = state_code(state, table, gen2);
            let own = side_at(state, s);
            let foe = side_at(state, 1 - s);
            let at = 580 + s * 12;
            &&& code[at]@ == own.side_conditions.spikes as real / 3 as real
            &&& code[at + 1]@ == yes(own.side_conditions.reflect > 0)
            &&& code[at + 2]@ == yes(own.side_conditions.light_screen > 0)
            &&& code[at + 3]@ == yes(exists|k: int| 0 <= k < 6
                    && (#[trigger] foe.pokemon@[k]).status == PokemonStatus::SLEEP)
            &&& code[at + 4]@ == (6 - fainted_among(own.pokemon@, 6)) as real / 6 as real
            &&& code[at + 5]@ == yes(own.volatile_statuses@.contains(PokemonVolatileStatus::SUBSTITUTE))
            &&& code[at + 6]@ == yes(own.volatile_statuses@.contains(PokemonVolatileStatus::ENCORE))
            &&& code[at + 7]@ == yes(own.volatile_statuses@.contains(PokemonVolatileStatus::DISABLE))
            &&& code[at + 8]@ == yes(own.volatile_statuses@.contains(PokemonVolatileStatus::MUSTRECHARGE))
            &&& code[at + 9]@ == yes(own.volatile_statuses@.contains(PokemonVolatileStatus::PARTIALLYTRAPPED))
            &&& code[at + 10]@ == between(own.active().sleep_turns as int, 0, 7) as real / 7 as real
            &&& code[at + 11]@ == between(own.active().rest_turns as int, 0, 2) as real / 2 as real
        }),
{
    lemma_flags();
    let code = state_code(state, table, gen2);
    let own = side_at(state, s);
    let foe = side_at(state, 1 - s);
    let at = 580 + s * 12;
    assert(code[at]@ == own.side_conditions.spikes as real / 3 as real) by {
        lemma_extras_place(state, table, gen2, s, 0);
    }
    assert(code[at + 1]@ == yes(own.side_conditions.reflect > 0)) by {
        lemma_extras_place(state, table, gen2, s, 1);
    }
    assert(code[at + 2]@ == yes(own.side_conditions.light_screen > 0)) by {
        lemma_extras_place(state, table, gen2, s, 2);
    }
    assert(code[at + 3]@ == yes(exists|k: int| 0 <= k < 6
        && (#[trigger] foe.pokemon@[k]).status == PokemonStatus::SLEEP)) by {
        lemma_extras_place(state, table, gen2, s, 3);
    }
    assert(code[at + 4]@ == (6 - fainted_among(own.pokemon@, 6)) as real / 6 as real) by {
        lemma_extras_place(state, table, gen2, s, 4);
        lemma_standing_range(side_at(state, s).pokemon@, 6);
    }
    assert(code[at + 5]@
        == yes(own.volatile_statuses@.contains(PokemonVolatileStatus::SUBSTITUTE))) by {
        lemma_extras_place(state, table, gen2, s, 5);
    }
    assert(code[at + 6]@
        == yes(own.volatile_statuses@.contains(PokemonVolatileStatus::ENCORE))) by {
        lemma_extras_place(state, table, gen2, s, 6);
    }
    assert(code[at + 7]@
        == yes(own.volatile_statuses@.contains(PokemonVolatileStatus::DISABLE))) by {
        lemma_extras_place(state, table, gen2, s, 7);
    }
    assert(code[at + 8]@
        == yes(own.volatile_statuses@.contains(PokemonVolatileStatus::MUSTRECHARGE))) by {
        lemma_extras_place(state, table, gen2, s, 8);
    }
    assert(code[at + 9]@
        == yes(own.volatile_statuses@.contains(PokemonVolatileStatus::PARTIALLYTRAPPED))) by {
        lemma_extras_place(state, table, gen2, s, 9);
    }
    assert(code[at + 10]@ == between(own.active().sleep_turns as int, 0,
        7) as real / 7 as real) by {
        lemma_extras_place(state, table, gen2, s, 10);
    }
    assert(code[at + 11]@ == between(own.active().rest_turns as int, 0, 2) as real / 2 as real) by {
        lemma_extras_place(state, table, gen2, s, 11);
    }
}

/// The last features tell the weather and whether the first player is the faster one;
/// the very last is kept free.
#[verifier::rlimit(60)]
pub proof fn law_field_has_its_places(
    state: State,
    table: MoveTable,
    gen2: bool,
)
    ensures
        ({
            let code = state_code(state, table, gen2);
            let w = state.field.weather;
            let one = state.side_one;
            let two = state.side_two;
            &&& code[604]@ == yes(w == Weather::SUN || w == Weather::HARSHSUN)
            &&& code[605]@ == yes(w == Weather::RAIN || w == Weather::HEAVYRAIN)
            &&& code[606]@ == yes(w == Weather::SAND)
            &&& code[607]@ == yes(staged(one.active().speed,
                    one.speed_boost) > staged(two.active().speed, two.speed_boost))
            &&& code[608]@ == 0 as real
        }),
{
    lemma_flags();
    let code = state_code(state, table, gen2);
    let w = state.field.weather;
    let one = state.side_one;
    let two = state.side_two;
    assert(code[604]@ == yes(w == Weather::SUN || w == Weather::HARSHSUN)) by {
        lemma_parts(state, table, gen2);
        assert(state_code(state, table, gen2)[604] == global_code(state)[0]);
    }
    assert(code[605]@ == yes(w == Weather::RAIN || w == Weather::HEAVYRAIN)) by {
        lemma_parts(state, table, gen2);
        assert(state_code(state, table, gen2)[605] == global_code(state)[1]);
    }
    assert(code[606]@ == yes(w == Weather::SAND)) by {
        lemma_parts(state, table, gen2);
        assert(state_code(state, table, gen2)[606] == global_code(state)[2]);
    }
    assert(code[607]@ == yes(staged(one.active().speed,
        one.speed_boost) > staged(two.active().speed, two.speed_boost))) by {
        lemma_parts(state, table, gen2);
        assert(state_code(state, table, gen2)[607] == global_code(state)[3]);
        lemma_staged_speed(state.side_one.active().speed, state.side_one.speed_boost);
        lemma_staged_speed(state.side_two.active().speed, state.side_two.speed_boost);
    }
    assert(code[608]@ == 0 as real) by {
        lemma_parts(state, table, gen2);
        assert(state_code(state, table, gen2)[608] == global_code(state)[4]);
    }
}

/// For each move of the first player's active Pokemon the features tell its power as a
/// part of 250, its accuracy as a part of 100, whether it is physical, whether it is a
/// status move, whether it is of the user's type, how much of it is left, and how well
/// it hits.
#[verifier::rlimit(60)]
pub proof fn law_moves_have_their_places(
    state: State,
    table: MoveTable,
    gen2: bool,
    i: int,
    c: Choice,
)
    requires
        0 <= i < 4,
        table.lookup(state.side_one.active().moves@[i].id) == Some(c),
    ensures
        ({
            let code = state_code(state, table, gen2);
            let m = state.side_one.active().moves@[i];
            let user = state.side_one.active().types;
            let foe = state.side_two.active().types;
            let at = i * 31;
            &&& code[at + 17]@ == c.base_power as real / 250 as real
            &&& code[at + 18]@ == c.accuracy as real / 100 as real
            &&& code[at + 19]@ == yes(c.category != MoveCategory::Status
                    && physical_type(c.move_type))
            &&& code[at + 20]@ == yes(c.category == MoveCategory::Status)
            &&& code[at + 21]@ == yes(c.move_type == user.0 || c.move_type == user.1)
            &&& m.id == Choices::NONE ==> code[at + 22]@ == 0 as real
            &&& m.id != Choices::NONE && m.pp <= 32 ==> code[at + 22]@ == m.pp as real / 32 as real
            &&& m.id != Choices::NONE && m.pp > 32 ==> code[at + 22]@ == 1 as real
            &&& code[at + 23]@ == charted_pair(c.move_type, foe.0, foe.1) as real / 16 as real
        }),
{
    lemma_flags();
    let code = state_code(state, table, gen2);
    let m = state.side_one.active().moves@[i];
    let user = state.side_one.active().types;
    let foe = state.side_two.active().types;
    let at = i * 31;
    assert(code[at + 17]@ == c.base_power as real / 250 as real) by {
        lemma_move_feature(state, table, gen2, i, 17);
    }
    assert(code[at + 18]@ == c.accuracy as real / 100 as real) by {
        lemma_move_feature(state, table, gen2, i, 18);
    }
    assert(code[at + 19]@ == yes(c.category != MoveCategory::Status
        && physical_type(c.move_type))) by {
        lemma_move_feature(state, table, gen2, i, 19);
    }
    assert(code[at + 20]@ == yes(c.category == MoveCategory::Status)) by {
        lemma_move_feature(state, table, gen2, i, 20);
    }
    assert(code[at + 21]@ == yes(c.move_type == user.0 || c.move_type == user.1)) by {
        lemma_move_feature(state, table, gen2, i, 21);
    }
    assert(m.id == Choices::NONE ==> code[at + 22]@ == 0 as real) by {
        lemma_move_feature(state, table, gen2, i, 22);
        lemma_trifles();
    }
    assert(m.id != Choices::NONE && m.pp <= 32 ==> code[at + 22]@ == m.pp as real / 32 as real) by {
        lemma_move_feature(state, table, gen2, i, 22);
        lemma_trifles();
    }
    assert(m.id != Choices::NONE && m.pp > 32 ==> code[at + 22]@ == 1 as real) by {
        lemma_move_feature(state, table, gen2, i, 22);
        lemma_trifles();
    }
    assert(code[at + 23]@ == charted_pair(c.move_type, foe.0, foe.1) as real / 16 as real) by {
        lemma_move_feature(state, table, gen2, i, 23);
        lemma_pair_range(c.move_type, state.side_two.active().types);
    }
}

/// Seven features of a move tell whether it puts to sleep, paralyzes, poisons or burns,
/// changes stages, heals, or drives out.
#[verifier::rlimit(60)]
pub proof fn law_effects_have_their_places(
    state: State,
    table: MoveTable,
    gen2: bool,
    i: int,
    c: Choice,
)
    requires
        0 <= i < 4,
        table.lookup(state.side_one.active().moves@[i].id) == Some(c),
    ensures
        ({
            let code = state_code(state, table, gen2);
            let m = state.side_one.active().moves@[i];
            let user = state.side_one.active().types;
            let foe = state.side_two.active().types;
            let at = i * 31;
            &&& code[at + 24]@ == yes(inflicts(c, PokemonStatus::SLEEP))
            &&& code[at + 25]@ == yes(inflicts(c, PokemonStatus::PARALYZE)
                    || may_inflict(c, PokemonStatus::PARALYZE))
            &&& code[at + 26]@ == yes(inflicts(c, PokemonStatus::POISON)
                    || inflicts(c, PokemonStatus::TOXIC) || may_inflict(c, PokemonStatus::POISON)
                    || may_inflict(c, PokemonStatus::TOXIC))
            &&& code[at + 27]@ == yes(inflicts(c, PokemonStatus::BURN)
                    || may_inflict(c, PokemonStatus::BURN))
            &&& code[at + 28]@ == yes(c.boost)
            &&& code[at + 29]@ == yes(c.heal is Some || c.drain || m.id == Choices::REST
                    || m.id == Choices::RECOVER || m.id == Choices::MORNINGSUN
                    || m.id == Choices::SOFTBOILED || m.id == Choices::MOONLIGHT)
            &&& code[at + 30]@ == yes(m.id == Choices::ROAR || m.id == Choices::WHIRLWIND)
        }),
{
    lemma_flags();
    let code = state_code(state, table, gen2);
    let m = state.side_one.active().moves@[i];
    let user = state.side_one.active().types;
    let foe = state.side_two.active().types;
    let at = i * 31;
    assert(code[at + 24]@ == yes(inflicts(c, PokemonStatus::SLEEP))) by {
        lemma_move_feature(state, table, gen2, i, 24);
    }
    assert(code[at + 25]@ == yes(inflicts(c, PokemonStatus::PARALYZE)
        || may_inflict(c, PokemonStatus::PARALYZE))) by {
        lemma_move_feature(state, table, gen2, i, 25);
    }
    assert(code[at + 26]@ == yes(inflicts(c, PokemonStatus::POISON)
        || inflicts(c, PokemonStatus::TOXIC) || may_inflict(c, PokemonStatus::POISON)
        || may_inflict(c, PokemonStatus::TOXIC))) by {
        lemma_move_feature(state, table, gen2, i, 26);
    }
    assert(code[at + 27]@ == yes(inflicts(c, PokemonStatus::BURN)
        || may_inflict(c, PokemonStatus::BURN))) by {
        lemma_move_feature(state, table, gen2, i, 27);
    }
    assert(code[at + 28]@ == yes(c.boost)) by {
        lemma_move_feature(state, table, gen2, i, 28);
    }
    assert(code[at + 29]@ == yes(c.heal is Some || c.drain || m.id == Choices::REST
        || m.id == Choices::RECOVER || m.id == Choices::MORNINGSUN || m.id == Choices::SOFTBOILED
        || m.id == Choices::MOONLIGHT)) by {
        lemma_move_feature(state, table, gen2, i, 29);
    }
    assert(code[at + 30]@ == yes(m.id == Choices::ROAR || m.id == Choices::WHIRLWIND)) by {
        lemma_move_feature(state, table, gen2, i, 30);
    }
}

/// The type of a move stands in the order of the slots.
#[verifier::rlimit(60)]
pub proof fn law_move_types_have_their_places(
    state: State,
    table: MoveTable,
    gen2: bool,
    i: int,
    c: Choice,
    j: int,
)
    requires
        0 <= i < 4,
        table.lookup(state.side_one.active().moves@[i].id) == Some(c),
        0 <= j < 17,
    ensures
        ({
            let code = state_code(state, table, gen2);
            &&& code[i * 31 + j]@ == yes(c.move_type == TYPE_SLOTS[j])
        }),
{
    lemma_flags();
    let code = state_code(state, table, gen2);
    assert(code[i * 31 + j]@ == yes(c.move_type == TYPE_SLOTS[j])) by {
        lemma_move_feature(state, table, gen2, i, j);
    }
}

/// A move that the table does not know counts as a harmless status move of the Normal
/// type that never misses.
#[verifier::rlimit(60)]
pub proof fn law_unknown_moves_are_harmless(
    state: State,
    table: MoveTable,
    gen2: bool,
    i: int,
)
    requires
        0 <= i < 4,
        table.lookup(state.side_one.active().moves@[i].id) is None,
    ensures
        ({
            let code = state_code(state, table, gen2);
            let at = i * 31;
            &&& code[at]@ == 1 as real
            &&& code[at + 1]@ == 0 as real
            &&& code[at + 17]@ == 0 as real
            &&& code[at + 18]@ == 1 as real
            &&& code[at + 19]@ == 0 as real
            &&& code[at + 20]@ == 1 as real
        }),
{
    lemma_flags();
    let code = state_code(state, table, gen2);
    let at = i * 31;
    assert(code[at]@ == 1 as real) by {
        lemma_move_feature(state, table, gen2, i, 0);
        lemma_trifles();
    }
    assert(code[at + 1]@ == 0 as real) by {
        lemma_move_feature(state, table, gen2, i, 1);
        lemma_trifles();
    }
    assert(code[at + 17]@ == 0 as real) by {
        lemma_move_feature(state, table, gen2, i, 17);
        lemma_trifles();
    }
    assert(code[at + 18]@ == 1 as real) by {
        lemma_move_feature(state, table, gen2, i, 18);
        lemma_trifles();
    }
    assert(code[at + 19]@ == 0 as real) by {
        lemma_move_feature(state, table, gen2, i, 19);
        lemma_trifles();
    }
    assert(code[at + 20]@ == 1 as real) by {
        lemma_move_feature(state, table, gen2, i, 20);
        lemma_trifles();
    }
}
/// A move inflicts the status that it names outright, and may inflict those that its side
/// effects name.
pub proof fn law_moves_inflict_what_they_name(c: Choice, status: PokemonStatus)
    ensures
        inflicts(c, status) <==> c.status == Some(StatusEffect { status }),
        c.secondaries is None ==> !may_inflict(c, status),
        c.secondaries matches Some(l) ==> (may_inflict(c, status) <==> exists|k: int|
            0 <= k < l@.len() && (#[trigger] l@[k]).effect == Effect::Status(status)),
{
}

} // verus!
