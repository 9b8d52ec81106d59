//! Where each feature of the modern encoding stands, and what it says.
#[allow(unused_imports)]
use crate::matchup::TYPE_SLOTS;
#[allow(unused_imports)]
use crate::numbers::{lemma_over_one, ratio_flag};
#[allow(unused_imports)]
use crate::policy::moves::MoveTable;
#[allow(unused_imports)]
use crate::policy::v2::{hp_share, share, status_flags, type_flags, STATUS_ORDER};
#[allow(unused_imports)]
use crate::policy::v3::{
    ability_code, active_code, conditions_code, core_code, extras_code, force_code, global_code,
    hit_stages_code, item_code, known_move_code, law_encoding_has_fixed_length, lemma_moves_length,
    lemma_team_length, move_code, moves_code, plain_stats, pokemon_code, purpose_code,
    stat_stages_code, state_code, strength_code, team_code, types_code,
};
#[allow(unused_imports)]
use crate::state::{Choice, Pokemon, Side, State};
#[allow(unused_imports)]
use crate::types::{
    Abilities, Choices, Items, MoveCategory, PokemonSideCondition, PokemonStatus, Terrain, Weather,
};
use vstd::prelude::*;

verus! {

/// One for yes and zero for no.
pub open spec fn yes(b: bool) -> real {
    if b {
        1 as real
    } else {
        0 as real
    }
}

/// `x`, or the end of the range that it lies beyond.
pub open spec fn between(x: int, low: int, high: int) -> int {
    if x < low {
        low
    } else if x > high {
        high
    } else {
        x
    }
}

/// The first player's side is the side 0, the second player's the side 1.
pub open spec fn side_at(state: State, s: int) -> Side {
    if s == 0 {
        state.side_one
    } else {
        state.side_two
    }
}

/// A yes-or-no feature is one or zero.
pub proof fn lemma_flags()
    ensures
        forall|b: bool| (#[trigger] ratio_flag(b))@ == yes(b),
{
    lemma_over_one(0);
    lemma_over_one(1);
}

proof fn lemma_team_place(s: Side, table: MoveTable, n: int, k: int, j: int)
    requires
        0 <= k < n,
        0 <= j < 223,
    ensures
        team_code(s, table, n).len() == n * 223,
        team_code(s, table, n)[k * 223 + j] == pokemon_code(s.pokemon@[k], table)[j],
    decreases n,
{
    lemma_team_length(s, table, n);
    lemma_team_length(s, table, n - 1);
    if k < n - 1 {
        lemma_team_place(s, table, n - 1, k, j);
    }
}

/// The features of a team member stand together.
proof fn lemma_member_place(state: State, table: MoveTable, s: int, k: int, j: int)
    requires
        s == 0 || s == 1,
        0 <= k < 6,
        0 <= j < 223,
    ensures
        state_code(state, table).len() == 2738,
        state_code(state, table)[s * 1364 + k * 223 + j] == pokemon_code(
            side_at(state, s).pokemon@[k],
            table,
        )[j],
{
    law_encoding_has_fixed_length(state, table);
    lemma_team_place(side_at(state, s), table, 6, k, j);
}

/// The features of a side as a whole stand behind its team.
proof fn lemma_extras_place(state: State, table: MoveTable, s: int, j: int)
    requires
        s == 0 || s == 1,
        0 <= j < 26,
    ensures
        state_code(state, table).len() == 2738,
        state_code(state, table)[s * 1364 + 1338 + j] == extras_code(side_at(state, s))[j],
{
    law_encoding_has_fixed_length(state, table);
    lemma_team_length(side_at(state, s), table, 6);
}

/// The parts of a team member's features.
proof fn lemma_core_part(p: Pokemon, table: MoveTable, j: int)
    requires
        0 <= j < 95,
    ensures
        pokemon_code(p, table)[j] == core_code(p)[j],
        2 <= j < 63 ==> core_code(p)[j] == types_code(p)[j - 2],
        63 <= j < 68 ==> core_code(p)[j] == plain_stats(p)[j - 63],
        68 <= j < 75 ==> core_code(p)[j] == status_flags(p.status)[j - 68],
        j == 75 ==> core_code(p)[j] == share(p.sleep_turns as int, 0, 4, 4),
        76 <= j < 84 ==> core_code(p)[j] == ability_code(p.ability)[j - 76],
        84 <= j < 95 ==> core_code(p)[j] == item_code(p.item)[j - 84],
{
    assert(types_code(p).len() == 61);
    assert(plain_stats(p).len() == 5);
    assert(status_flags(p.status).len() == 7);
    assert(ability_code(p.ability).len() == 8);
    assert(item_code(p.item).len() == 11);
    assert(core_code(p).len() == 95);
}

/// The parts of the features of a side as a whole.
proof fn lemma_extras_part(s: Side, j: int)
    requires
        0 <= j < 26,
    ensures
        j < 6 ==> extras_code(s)[j] == active_code(s)[j],
        6 <= j < 11 ==> extras_code(s)[j] == stat_stages_code(s)[j - 6],
        11 <= j < 13 ==> extras_code(s)[j] == hit_stages_code(s)[j - 11],
        13 <= j < 22 ==> extras_code(s)[j] == conditions_code(s)[j - 13],
        22 <= j < 26 ==> extras_code(s)[j] == force_code(s)[j - 22],
{
    assert(active_code(s).len() == 6);
    assert(stat_stages_code(s).len() == 5);
    assert(hit_stages_code(s).len() == 2);
    assert(conditions_code(s).len() == 9);
    assert(force_code(s).len() == 4);
}

/// The parts of a move's features.
proof fn lemma_move_part(id: Choices, c: Choice, j: int)
    requires
        0 <= j < 31,
    ensures
        j < 18 ==> known_move_code(id, c)[j] == type_flags(c.move_type, c.move_type, 18)[j],
        18 <= j < 22 ==> known_move_code(id, c)[j] == strength_code(c)[j - 18],
        22 <= j < 31 ==> known_move_code(id, c)[j] == purpose_code(id, c)[j - 22],
{
    assert(strength_code(c).len() == 4);
    assert(purpose_code(id, c).len() == 9);
}

/// A feature of a team member, by the part that it belongs to.
proof fn lemma_member_feature(state: State, table: MoveTable, s: int, k: int, j: int)
    requires
        s == 0 || s == 1,
        0 <= k < 6,
        0 <= j < 95,
    ensures
        ({
            let p = side_at(state, s).pokemon@[k];
            let f = state_code(state, table)[s * 1364 + k * 223 + j];
            &&& j == 0 ==> f == hp_share(p)
            &&& j == 1 ==> f == ratio_flag(p.hp > 0)
            &&& 2 <= j < 22 ==> f == ratio_flag(
                TYPE_SLOTS[j - 2] == p.types.0 || TYPE_SLOTS[j - 2] == p.types.1,
            )
            &&& 22 <= j < 42 ==> f == ratio_flag(
                TYPE_SLOTS[j - 22] == p.base_types.0 || TYPE_SLOTS[j - 22] == p.base_types.1,
            )
            &&& 42 <= j < 62 ==> f == ratio_flag(
                TYPE_SLOTS[j - 42] == p.tera_type || TYPE_SLOTS[j - 42] == p.tera_type,
            )
            &&& j == 62 ==> f == ratio_flag(p.terastallized)
            &&& 63 <= j < 68 ==> f == plain_stats(p)[j - 63]
            &&& 68 <= j < 75 ==> f == ratio_flag(STATUS_ORDER[j - 68] == p.status)
            &&& j == 75 ==> f == share(p.sleep_turns as int, 0, 4, 4)
            &&& 76 <= j < 84 ==> f == ability_code(p.ability)[j - 76]
            &&& 84 <= j < 95 ==> f == item_code(p.item)[j - 84]
        }),
{
    lemma_member_place(state, table, s, k, j);
    lemma_core_part(side_at(state, s).pokemon@[k], table, j);
}

/// A feature of a side as a whole, by the part that it belongs to.
proof fn lemma_side_feature(state: State, table: MoveTable, s: int, j: int)
    requires
        s == 0 || s == 1,
        0 <= j < 26,
    ensures
        ({
            let side = side_at(state, s);
            let f = state_code(state, table)[s * 1364 + 1338 + j];
            &&& j < 6 ==> f == ratio_flag(j == side.active_index)
            &&& 6 <= j < 11 ==> f == stat_stages_code(side)[j - 6]
            &&& 11 <= j < 13 ==> f == hit_stages_code(side)[j - 11]
            &&& 13 <= j < 22 ==> f == conditions_code(side)[j - 13]
            &&& 22 <= j < 26 ==> f == force_code(side)[j - 22]
        }),
{
    lemma_extras_place(state, table, s, j);
    lemma_extras_part(side_at(state, s), j);
}

/// A feature of a known move, by the part that it belongs to.
proof fn lemma_known_feature(
    state: State,
    table: MoveTable,
    s: int,
    k: int,
    i: int,
    c: Choice,
    j: int,
)
    requires
        s == 0 || s == 1,
        0 <= k < 6,
        0 <= i < 4,
        0 <= j < 31,
        side_at(state, s).pokemon@[k].moves@[i].id != Choices::NONE,
        table.lookup(side_at(state, s).pokemon@[k].moves@[i].id) == Some(c),
    ensures
        ({
            let id = side_at(state, s).pokemon@[k].moves@[i].id;
            let f = state_code(state, table)[s * 1364 + k * 223 + 99 + i * 31 + j];
            &&& j < 18 ==> f == ratio_flag(
                TYPE_SLOTS[j] == c.move_type || TYPE_SLOTS[j] == c.move_type,
            )
            &&& 18 <= j < 22 ==> f == strength_code(c)[j - 18]
            &&& 22 <= j < 31 ==> f == purpose_code(id, c)[j - 22]
        }),
{
    let id = side_at(state, s).pokemon@[k].moves@[i].id;
    lemma_move_feature(state, table, s, k, i, j);
    assert(move_code(id, table) == known_move_code(id, c));
    lemma_move_part(id, c, j);
}

/// For every team member the features tell the share of its hit points, whether it
/// stands, whether it has terastallized, and its five stats as parts of 500.
#[verifier::rlimit(60)]
pub proof fn law_stats_have_their_places(state: State, table: MoveTable, s: int, k: int)
    requires
        s == 0 || s == 1,
        0 <= k < 6,
    ensures
        ({
            let code = state_code(state, table);
            let m = side_at(state, s).pokemon@[k];
            let at = s * 1364 + k * 223;
            &&& code.len() == 2738
            &&& m.maxhp > 0 ==> code[at]@ == m.hp as real / m.maxhp as real
            &&& m.maxhp <= 0 ==> code[at]@ == m.hp as real
            &&& code[at + 1]@ == yes(m.hp > 0)
            &&& code[at + 62]@ == yes(m.terastallized)
            &&& code[at + 63]@ == m.attack as real / 500 as real
            &&& code[at + 64]@ == m.defense as real / 500 as real
            &&& code[at + 65]@ == m.special_attack as real / 500 as real
            &&& code[at + 66]@ == m.special_defense as real / 500 as real
            &&& code[at + 67]@ == m.speed as real / 500 as real
        }),
{
    lemma_flags();
    let code = state_code(state, table);
    let m = side_at(state, s).pokemon@[k];
    let at = s * 1364 + k * 223;
    law_encoding_has_fixed_length(state, table);
    assert(m.maxhp > 0 ==> code[at]@ == m.hp as real / m.maxhp as real) by {
        lemma_member_feature(state, table, s, k, 0);
    }
    assert(m.maxhp <= 0 ==> code[at]@ == m.hp as real) by {
        lemma_over_one(m.hp as int);
        lemma_member_feature(state, table, s, k, 0);
    }
    assert(code[at + 1]@ == yes(m.hp > 0)) by {
        lemma_member_feature(state, table, s, k, 1);
    }
    assert(code[at + 62]@ == yes(m.terastallized)) by {
        lemma_member_feature(state, table, s, k, 62);
    }
    assert(code[at + 63]@ == m.attack as real / 500 as real) by {
        lemma_member_feature(state, table, s, k, 63);
    }
    assert(code[at + 64]@ == m.defense as real / 500 as real) by {
        lemma_member_feature(state, table, s, k, 64);
    }
    assert(code[at + 65]@ == m.special_attack as real / 500 as real) by {
        lemma_member_feature(state, table, s, k, 65);
    }
    assert(code[at + 66]@ == m.special_defense as real / 500 as real) by {
        lemma_member_feature(state, table, s, k, 66);
    }
    assert(code[at + 67]@ == m.speed as real / 500 as real) by {
        lemma_member_feature(state, table, s, k, 67);
    }
}

/// Positions in which some team member has another stat are told apart.
pub proof fn law_stats_tell_positions_apart(
    a: State,
    b: State,
    table: MoveTable,
    s: int,
    k: int,
)
    requires
        s == 0 || s == 1,
        0 <= k < 6,
        ({
            let m = side_at(a, s).pokemon@[k];
            let n = side_at(b, s).pokemon@[k];
            ||| m.attack != n.attack
            ||| m.defense != n.defense
            ||| m.special_attack != n.special_attack
            ||| m.special_defense != n.special_defense
            ||| m.speed != n.speed
        }),
    ensures
        state_code(a, table) != state_code(b, table),
{
    lemma_flags();
    law_stats_have_their_places(a, table, s, k);
    law_stats_have_their_places(b, table, s, k);
}

/// The first sixty features behind the hit points are the types in their order: those
/// that the team member has, those that it was born with, and the one that it can
/// change to.
#[verifier::rlimit(60)]
pub proof fn law_types_have_their_places(state: State, table: MoveTable, s: int, k: int, i: int)
    requires
        s == 0 || s == 1,
        0 <= k < 6,
        0 <= i < 20,
    ensures
        ({
            let code = state_code(state, table);
            let m = side_at(state, s).pokemon@[k];
            let at = s * 1364 + k * 223;
            let t = TYPE_SLOTS[i];
            &&& code[at + 2 + i]@ == yes(m.types.0 == t || m.types.1 == t)
            &&& code[at + 22 + i]@ == yes(m.base_types.0 == t || m.base_types.1 == t)
            &&& code[at + 42 + i]@ == yes(m.tera_type == t)
        }),
{
    lemma_flags();
    let code = state_code(state, table);
    let m = side_at(state, s).pokemon@[k];
    let at = s * 1364 + k * 223;
    let t = TYPE_SLOTS[i];
    assert(code[at + 2 + i]@ == yes(m.types.0 == t || m.types.1 == t)) by {
        lemma_member_feature(state, table, s, k, 2 + i);
    }
    assert(code[at + 22 + i]@ == yes(m.base_types.0 == t || m.base_types.1 == t)) by {
        lemma_member_feature(state, table, s, k, 22 + i);
    }
    assert(code[at + 42 + i]@ == yes(m.tera_type == t)) by {
        lemma_member_feature(state, table, s, k, 42 + i);
    }
}

/// Seven features tell the status condition of a team member, and one how long it has
/// slept, as a part of four turns.
#[verifier::rlimit(60)]
pub proof fn law_status_has_its_place(state: State, table: MoveTable, s: int, k: int)
    requires
        s == 0 || s == 1,
        0 <= k < 6,
    ensures
        ({
            let code = state_code(state, table);
            let m = side_at(state, s).pokemon@[k];
            let at = s * 1364 + k * 223;
            &&& code[at + 68]@ == yes(m.status == PokemonStatus::NONE)
            &&& code[at + 69]@ == yes(m.status == PokemonStatus::BURN)
            &&& code[at + 70]@ == yes(m.status == PokemonStatus::SLEEP)
            &&& code[at + 71]@ == yes(m.status == PokemonStatus::FREEZE)
            &&& code[at + 72]@ == yes(m.status == PokemonStatus::PARALYZE)
            &&& code[at + 73]@ == yes(m.status == PokemonStatus::POISON)
            &&& code[at + 74]@ == yes(m.status == PokemonStatus::TOXIC)
            &&& code[at + 75]@ == between(m.sleep_turns as int, 0, 4) as real / 4 as real
        }),
{
    lemma_flags();
    let code = state_code(state, table);
    let m = side_at(state, s).pokemon@[k];
    let at = s * 1364 + k * 223;
    assert(code[at + 68]@ == yes(m.status == PokemonStatus::NONE)) by {
        lemma_member_feature(state, table, s, k, 68);
    }
    assert(code[at + 69]@ == yes(m.status == PokemonStatus::BURN)) by {
        lemma_member_feature(state, table, s, k, 69);
    }
    assert(code[at + 70]@ == yes(m.status == PokemonStatus::SLEEP)) by {
        lemma_member_feature(state, table, s, k, 70);
    }
    assert(code[at + 71]@ == yes(m.status == PokemonStatus::FREEZE)) by {
        lemma_member_feature(state, table, s, k, 71);
    }
    assert(code[at + 72]@ == yes(m.status == PokemonStatus::PARALYZE)) by {
        lemma_member_feature(state, table, s, k, 72);
    }
    assert(code[at + 73]@ == yes(m.status == PokemonStatus::POISON)) by {
        lemma_member_feature(state, table, s, k, 73);
    }
    assert(code[at + 74]@ == yes(m.status == PokemonStatus::TOXIC)) by {
        lemma_member_feature(state, table, s, k, 74);
    }
    assert(code[at + 75]@ == between(m.sleep_turns as int, 0, 4) as real / 4 as real) by {
        lemma_member_feature(state, table, s, k, 75);
    }
}

/// Eight features tell what the ability of a team member stands for.
#[verifier::rlimit(60)]
pub proof fn law_abilities_have_their_places(state: State, table: MoveTable, s: int, k: int)
    requires
        s == 0 || s == 1,
        0 <= k < 6,
    ensures
        ({
            let code = state_code(state, table);
            let a = side_at(state, s).pokemon@[k].ability;
            let at = s * 1364 + k * 223;
            &&& code[at + 76]@ == yes(a == Abilities::MULTISCALE || a == Abilities::SHADOWSHIELD)
            &&& code[at + 77]@ == yes(a == Abilities::PROTOSYNTHESIS || a == Abilities::QUARKDRIVE)
            &&& code[at + 78]@ == yes(a == Abilities::REGENERATOR)
            &&& code[at + 79]@ == yes(a == Abilities::MAGICGUARD || a == Abilities::LEVITATE)
            &&& code[at + 80]@ == yes(a == Abilities::INTIMIDATE)
            &&& code[at + 81]@ == yes(a == Abilities::UNAWARE)
            &&& code[at + 82]@ == yes(
                a == Abilities::MAGICBOUNCE || a == Abilities::GOODASGOLD || a
                    == Abilities::PURIFYINGSALT,
            )
            &&& code[at + 83]@ == yes(a == Abilities::SUPREMEOVERLORD)
        }),
{
    lemma_flags();
    let code = state_code(state, table);
    let a = side_at(state, s).pokemon@[k].ability;
    let at = s * 1364 + k * 223;
    assert(code[at + 76]@ == yes(a == Abilities::MULTISCALE || a == Abilities::SHADOWSHIELD)) by {
        lemma_member_feature(state, table, s, k, 76);
    }
    assert(code[at + 77]@ == yes(a == Abilities::PROTOSYNTHESIS || a == Abilities::QUARKDRIVE)) by {
        lemma_member_feature(state, table, s, k, 77);
    }
    assert(code[at + 78]@ == yes(a == Abilities::REGENERATOR)) by {
        lemma_member_feature(state, table, s, k, 78);
    }
    assert(code[at + 79]@ == yes(a == Abilities::MAGICGUARD || a == Abilities::LEVITATE)) by {
        lemma_member_feature(state, table, s, k, 79);
    }
    assert(code[at + 80]@ == yes(a == Abilities::INTIMIDATE)) by {
        lemma_member_feature(state, table, s, k, 80);
    }
    assert(code[at + 81]@ == yes(a == Abilities::UNAWARE)) by {
        lemma_member_feature(state, table, s, k, 81);
    }
    assert(code[at + 82]@ == yes(
        a == Abilities::MAGICBOUNCE || a == Abilities::GOODASGOLD || a
            == Abilities::PURIFYINGSALT,
    )) by {
        lemma_member_feature(state, table, s, k, 82);
    }
    assert(code[at + 83]@ == yes(a == Abilities::SUPREMEOVERLORD)) by {
        lemma_member_feature(state, table, s, k, 83);
    }
}

/// Eleven features tell what the item of a team member stands for.
#[verifier::rlimit(60)]
pub proof fn law_items_have_their_places(state: State, table: MoveTable, s: int, k: int)
    requires
        s == 0 || s == 1,
        0 <= k < 6,
    ensures
        ({
            let code = state_code(state, table);
            let i = side_at(state, s).pokemon@[k].item;
            let at = s * 1364 + k * 223;
            &&& code[at + 84]@ == yes(i == Items::HEAVYDUTYBOOTS)
            &&& code[at + 85]@ == yes(
                i == Items::CHOICEBAND || i == Items::CHOICESPECS || i == Items::CHOICESCARF,
            )
            &&& code[at + 86]@ == yes(i == Items::CHOICESCARF)
            &&& code[at + 87]@ == yes(i == Items::LIFEORB)
            &&& code[at + 88]@ == yes(i == Items::FOCUSSASH)
            &&& code[at + 89]@ == yes(i == Items::AIRBALLOON)
            &&& code[at + 90]@ == yes(
                i == Items::LEFTOVERS || i == Items::BLACKSLUDGE || i == Items::SITRUSBERRY,
            )
            &&& code[at + 91]@ == yes(i == Items::ROCKYHELMET)
            &&& code[at + 92]@ == yes(i == Items::BOOSTERENERGY)
            &&& code[at + 93]@ == 0 as real
            &&& code[at + 94]@ == yes(i == Items::TOXICORB || i == Items::FLAMEORB)
        }),
{
    lemma_flags();
    let code = state_code(state, table);
    let i = side_at(state, s).pokemon@[k].item;
    let at = s * 1364 + k * 223;
    assert(code[at + 84]@ == yes(i == Items::HEAVYDUTYBOOTS)) by {
        lemma_member_feature(state, table, s, k, 84);
    }
    assert(code[at + 85]@ == yes(
        i == Items::CHOICEBAND || i == Items::CHOICESPECS || i == Items::CHOICESCARF,
    )) by {
        lemma_member_feature(state, table, s, k, 85);
    }
    assert(code[at + 86]@ == yes(i == Items::CHOICESCARF)) by {
        lemma_member_feature(state, table, s, k, 86);
    }
    assert(code[at + 87]@ == yes(i == Items::LIFEORB)) by {
        lemma_member_feature(state, table, s, k, 87);
    }
    assert(code[at + 88]@ == yes(i == Items::FOCUSSASH)) by {
        lemma_member_feature(state, table, s, k, 88);
    }
    assert(code[at + 89]@ == yes(i == Items::AIRBALLOON)) by {
        lemma_member_feature(state, table, s, k, 89);
    }
    assert(code[at + 90]@ == yes(
        i == Items::LEFTOVERS || i == Items::BLACKSLUDGE || i == Items::SITRUSBERRY,
    )) by {
        lemma_member_feature(state, table, s, k, 90);
    }
    assert(code[at + 91]@ == yes(i == Items::ROCKYHELMET)) by {
        lemma_member_feature(state, table, s, k, 91);
    }
    assert(code[at + 92]@ == yes(i == Items::BOOSTERENERGY)) by {
        lemma_member_feature(state, table, s, k, 92);
    }
    assert(code[at + 93]@ == 0 as real) by {
        lemma_member_feature(state, table, s, k, 93);
    }
    assert(code[at + 94]@ == yes(i == Items::TOXICORB || i == Items::FLAMEORB)) by {
        lemma_member_feature(state, table, s, k, 94);
    }
}

proof fn lemma_move_place(p: Pokemon, table: MoveTable, n: int, i: int, j: int)
    requires
        0 <= i < n,
        0 <= j < 31,
    ensures
        moves_code(p, table, n)[i * 31 + j] == move_code(p.moves@[i].id, table)[j],
    decreases n,
{
    lemma_moves_length(p, table, n);
    lemma_moves_length(p, table, n - 1);
    if i < n - 1 {
        lemma_move_place(p, table, n - 1, i, j);
    }
}

proof fn lemma_move_feature(
    state: State,
    table: MoveTable,
    s: int,
    k: int,
    i: int,
    j: int,
)
    requires
        s == 0 || s == 1,
        0 <= k < 6,
        0 <= i < 4,
        0 <= j < 31,
    ensures
        state_code(state, table)[s * 1364 + k * 223 + 99 + i * 31 + j] == move_code(
            side_at(state, s).pokemon@[k].moves@[i].id,
            table,
        )[j],
{
    let p = side_at(state, s).pokemon@[k];
    lemma_member_place(state, table, s, k, 99 + i * 31 + j);
    lemma_move_place(p, table, 4, i, j);
    lemma_moves_length(p, table, 4);
    assert(core_code(p).len() == 95);
}

/// Four features tell how much of each move is left, as parts of 32 uses.
pub proof fn law_uses_have_their_places(state: State, table: MoveTable, s: int, k: int, i: int)
    requires
        s == 0 || s == 1,
        0 <= k < 6,
        0 <= i < 4,
    ensures
        state_code(state, table)[s * 1364 + k * 223 + 95 + i]@ == between(
            side_at(state, s).pokemon@[k].moves@[i].pp as int,
            0,
            32,
        ) as real / 32 as real,
{
    lemma_flags();
    lemma_member_place(state, table, s, k, 95 + i);
    assert(core_code(side_at(state, s).pokemon@[k]).len() == 95);
}

/// What the table tells of a move stands in the 31 features of its slot: its type,
/// its power as a part of 200, its accuracy as a part of 100 or one where it cannot
/// miss, whether it is a status or a special move, and what it is good for.
#[verifier::rlimit(60)]
pub proof fn law_moves_have_their_places(
    state: State,
    table: MoveTable,
    s: int,
    k: int,
    i: int,
    c: Choice,
)
    requires
        s == 0 || s == 1,
        0 <= k < 6,
        0 <= i < 4,
        side_at(state, s).pokemon@[k].moves@[i].id != Choices::NONE,
        table.lookup(side_at(state, s).pokemon@[k].moves@[i].id) == Some(c),
    ensures
        ({
            let code = state_code(state, table);
            let at = s * 1364 + k * 223 + 99 + i * 31;
            &&& forall|j: int| 0 <= j < 18
                    ==> code[at + j]@ == yes(c.move_type == #[trigger] TYPE_SLOTS[j])
            &&& code[at + 18]@ == between(c.base_power as int, 0, 200) as real / 200 as real
            &&& c.accuracy <= 0 ==> code[at + 19]@ == 1 as real
            &&& c.accuracy > 0 ==> code[at + 19]@ == between(c.accuracy as int, 0, 100) as real
                / 100 as real
            &&& code[at + 20]@ == yes(c.category == MoveCategory::Status)
            &&& code[at + 21]@ == yes(c.category == MoveCategory::Special)
        }),
{
    lemma_flags();
    let code = state_code(state, table);
    let at = s * 1364 + k * 223 + 99 + i * 31;
    assert forall|j: int| 0 <= j < 18 implies code[at + j]@ == yes(
        c.move_type == #[trigger] TYPE_SLOTS[j],
    ) by {
        lemma_known_feature(state, table, s, k, i, c, j);
    }
    assert(code[at + 18]@ == between(c.base_power as int, 0, 200) as real / 200 as real) by {
        lemma_known_feature(state, table, s, k, i, c, 18);
    }
    assert(c.accuracy <= 0 ==> code[at + 19]@ == 1 as real) by {
        lemma_known_feature(state, table, s, k, i, c, 19);
    }
    assert(c.accuracy > 0 ==> code[at + 19]@ == between(c.accuracy as int, 0, 100) as real
        / 100 as real) by {
        lemma_known_feature(state, table, s, k, i, c, 19);
    }
    assert(code[at + 20]@ == yes(c.category == MoveCategory::Status)) by {
        lemma_known_feature(state, table, s, k, i, c, 20);
    }
    assert(code[at + 21]@ == yes(c.category == MoveCategory::Special)) by {
        lemma_known_feature(state, table, s, k, i, c, 21);
    }
}

/// What a move is good for: leaving, setting up, recovering, inflicting a status,
/// striking first, setting hazards, clearing them, screens, driving out.
#[verifier::rlimit(60)]
pub proof fn law_purposes_have_their_places(
    state: State,
    table: MoveTable,
    s: int,
    k: int,
    i: int,
    c: Choice,
)
    requires
        s == 0 || s == 1,
        0 <= k < 6,
        0 <= i < 4,
        side_at(state, s).pokemon@[k].moves@[i].id != Choices::NONE,
        table.lookup(side_at(state, s).pokemon@[k].moves@[i].id) == Some(c),
    ensures
        ({
            let code = state_code(state, table);
            let id = side_at(state, s).pokemon@[k].moves@[i].id;
            let at = s * 1364 + k * 223 + 99 + i * 31;
            let status = c.category == MoveCategory::Status;
            &&& code[at + 22]@ == yes(c.flags.pivot)
            &&& code[at + 23]@ == yes(status && c.boost)
            &&& code[at + 24]@ == yes(c.heal is Some)
            &&& code[at + 25]@ == yes(status && c.status is Some)
            &&& code[at + 26]@ == yes(!status && c.priority > 0)
            &&& code[at + 27]@ == yes(
                c.side_condition matches Some(e) && (e.condition == PokemonSideCondition::Spikes
                    || e.condition == PokemonSideCondition::Stealthrock || e.condition
                    == PokemonSideCondition::StickyWeb || e.condition
                    == PokemonSideCondition::ToxicSpikes),
            )
            &&& code[at + 28]@ == yes(
                id == Choices::RAPIDSPIN || id == Choices::DEFOG || id == Choices::TIDYUP || id
                    == Choices::COURTCHANGE || id == Choices::MORTALSPIN,
            )
            &&& code[at + 29]@ == yes(
                c.side_condition matches Some(e) && (e.condition == PokemonSideCondition::Reflect
                    || e.condition == PokemonSideCondition::LightScreen || e.condition
                    == PokemonSideCondition::AuroraVeil),
            )
            &&& code[at + 30]@ == yes(c.flags.drag)
        }),
{
    lemma_flags();
    let code = state_code(state, table);
    let id = side_at(state, s).pokemon@[k].moves@[i].id;
    let at = s * 1364 + k * 223 + 99 + i * 31;
    let status = c.category == MoveCategory::Status;
    assert(code[at + 22]@ == yes(c.flags.pivot)) by {
        lemma_known_feature(state, table, s, k, i, c, 22);
    }
    assert(code[at + 23]@ == yes(status && c.boost)) by {
        lemma_known_feature(state, table, s, k, i, c, 23);
    }
    assert(code[at + 24]@ == yes(c.heal is Some)) by {
        lemma_known_feature(state, table, s, k, i, c, 24);
    }
    assert(code[at + 25]@ == yes(status && c.status is Some)) by {
        lemma_known_feature(state, table, s, k, i, c, 25);
    }
    assert(code[at + 26]@ == yes(!status && c.priority > 0)) by {
        lemma_known_feature(state, table, s, k, i, c, 26);
    }
    assert(code[at + 27]@ == yes(
        c.side_condition matches Some(e) && (e.condition == PokemonSideCondition::Spikes
            || e.condition == PokemonSideCondition::Stealthrock || e.condition
            == PokemonSideCondition::StickyWeb || e.condition
            == PokemonSideCondition::ToxicSpikes),
    )) by {
        lemma_known_feature(state, table, s, k, i, c, 27);
    }
    assert(code[at + 28]@ == yes(
        id == Choices::RAPIDSPIN || id == Choices::DEFOG || id == Choices::TIDYUP || id
            == Choices::COURTCHANGE || id == Choices::MORTALSPIN,
    )) by {
        lemma_known_feature(state, table, s, k, i, c, 28);
    }
    assert(code[at + 29]@ == yes(
        c.side_condition matches Some(e) && (e.condition == PokemonSideCondition::Reflect
            || e.condition == PokemonSideCondition::LightScreen || e.condition
            == PokemonSideCondition::AuroraVeil),
    )) by {
        lemma_known_feature(state, table, s, k, i, c, 29);
    }
    assert(code[at + 30]@ == yes(c.flags.drag)) by {
        lemma_known_feature(state, table, s, k, i, c, 30);
    }
}

/// An empty slot, and one whose move the table does not know, say nothing.
pub proof fn law_unknown_moves_say_nothing(
    state: State,
    table: MoveTable,
    s: int,
    k: int,
    i: int,
    j: int,
)
    requires
        s == 0 || s == 1,
        0 <= k < 6,
        0 <= i < 4,
        0 <= j < 31,
        side_at(state, s).pokemon@[k].moves@[i].id == Choices::NONE || table.lookup(
            side_at(state, s).pokemon@[k].moves@[i].id,
        ) is None,
    ensures
        state_code(state, table)[s * 1364 + k * 223 + 99 + i * 31 + j]@ == 0 as real,
{
    lemma_flags();
    lemma_move_feature(state, table, s, k, i, j);
}

/// Behind the team come who of it is out, and the seven stages as parts of six.
#[verifier::rlimit(60)]
pub proof fn law_stages_have_their_places(state: State, table: MoveTable, s: int)
    requires
        s == 0 || s == 1,
    ensures
        ({
            let code = state_code(state, table);
            let side = side_at(state, s);
            let at = s * 1364 + 1338;
            &&& code[at]@ == yes(side.active_index == 0)
            &&& code[at + 1]@ == yes(side.active_index == 1)
            &&& code[at + 2]@ == yes(side.active_index == 2)
            &&& code[at + 3]@ == yes(side.active_index == 3)
            &&& code[at + 4]@ == yes(side.active_index == 4)
            &&& code[at + 5]@ == yes(side.active_index == 5)
            &&& code[at + 6]@ == between(side.attack_boost as int, -6, 6) as real / 6 as real
            &&& code[at + 7]@ == between(side.defense_boost as int, -6, 6) as real / 6 as real
            &&& code[at + 8]@ == between(side.special_attack_boost as int, -6,
                    6) as real / 6 as real
            &&& code[at + 9]@ == between(side.special_defense_boost as int, -6, 6) as real
                / 6 as real
            &&& code[at + 10]@ == between(side.speed_boost as int, -6, 6) as real / 6 as real
            &&& code[at + 11]@ == between(side.accuracy_boost as int, -6, 6) as real / 6 as real
            &&& code[at + 12]@ == between(side.evasion_boost as int, -6, 6) as real / 6 as real
        }),
{
    lemma_flags();
    let code = state_code(state, table);
    let side = side_at(state, s);
    let at = s * 1364 + 1338;
    assert(code[at]@ == yes(side.active_index == 0)) by {
        lemma_side_feature(state, table, s, 0);
    }
    assert(code[at + 1]@ == yes(side.active_index == 1)) by {
        lemma_side_feature(state, table, s, 1);
    }
    assert(code[at + 2]@ == yes(side.active_index == 2)) by {
        lemma_side_feature(state, table, s, 2);
    }
    assert(code[at + 3]@ == yes(side.active_index == 3)) by {
        lemma_side_feature(state, table, s, 3);
    }
    assert(code[at + 4]@ == yes(side.active_index == 4)) by {
        lemma_side_feature(state, table, s, 4);
    }
    assert(code[at + 5]@ == yes(side.active_index == 5)) by {
        lemma_side_feature(state, table, s, 5);
    }
    assert(code[at + 6]@ == between(side.attack_boost as int, -6, 6) as real / 6 as real) by {
        lemma_side_feature(state, table, s, 6);
    }
    assert(code[at + 7]@ == between(side.defense_boost as int, -6, 6) as real / 6 as real) by {
        lemma_side_feature(state, table, s, 7);
    }
    assert(code[at + 8]@ == between(side.special_attack_boost as int, -6,
        6) as real / 6 as real) by {
        lemma_side_feature(state, table, s, 8);
    }
    assert(code[at + 9]@ == between(side.special_defense_boost as int, -6, 6) as real
        / 6 as real) by {
        lemma_side_feature(state, table, s, 9);
    }
    assert(code[at + 10]@ == between(side.speed_boost as int, -6, 6) as real / 6 as real) by {
        lemma_side_feature(state, table, s, 10);
    }
    assert(code[at + 11]@ == between(side.accuracy_boost as int, -6, 6) as real / 6 as real) by {
        lemma_side_feature(state, table, s, 11);
    }
    assert(code[at + 12]@ == between(side.evasion_boost as int, -6, 6) as real / 6 as real) by {
        lemma_side_feature(state, table, s, 12);
    }
}

/// Then come the conditions of the side, and what its player is forced to.
#[verifier::rlimit(60)]
pub proof fn law_conditions_have_their_places(state: State, table: MoveTable, s: int)
    requires
        s == 0 || s == 1,
    ensures
        ({
            let code = state_code(state, table);
            let side = side_at(state, s);
            let c = side.side_conditions;
            let at = s * 1364 + 1338;
            &&& code[at + 13]@ == between(c.spikes as int, 0, 3) as real / 3 as real
            &&& code[at + 14]@ == yes(c.stealth_rock > 0)
            &&& code[at + 15]@ == yes(c.sticky_web > 0)
            &&& code[at + 16]@ == between(c.toxic_spikes as int, 0, 2) as real / 2 as real
            &&& code[at + 17]@ == yes(c.reflect > 0)
            &&& code[at + 18]@ == yes(c.light_screen > 0)
            &&& code[at + 19]@ == yes(c.aurora_veil > 0)
            &&& code[at + 20]@ == yes(c.tailwind > 0)
            &&& code[at + 21]@ == yes(c.safeguard > 0)
            &&& code[at + 22]@ == yes(side.force_switch)
            &&& code[at + 23]@ == yes(side.force_trapped)
            &&& code[at + 24]@ == yes(side.slow_uturn_move)
            &&& code[at + 25]@ == yes(side.baton_passing)
        }),
{
    lemma_flags();
    let code = state_code(state, table);
    let side = side_at(state, s);
    let c = side.side_conditions;
    let at = s * 1364 + 1338;
    assert(code[at + 13]@ == between(c.spikes as int, 0, 3) as real / 3 as real) by {
        lemma_side_feature(state, table, s, 13);
    }
    assert(code[at + 14]@ == yes(c.stealth_rock > 0)) by {
        lemma_side_feature(state, table, s, 14);
    }
    assert(code[at + 15]@ == yes(c.sticky_web > 0)) by {
        lemma_side_feature(state, table, s, 15);
    }
    assert(code[at + 16]@ == between(c.toxic_spikes as int, 0, 2) as real / 2 as real) by {
        lemma_side_feature(state, table, s, 16);
    }
    assert(code[at + 17]@ == yes(c.reflect > 0)) by {
        lemma_side_feature(state, table, s, 17);
    }
    assert(code[at + 18]@ == yes(c.light_screen > 0)) by {
        lemma_side_feature(state, table, s, 18);
    }
    assert(code[at + 19]@ == yes(c.aurora_veil > 0)) by {
        lemma_side_feature(state, table, s, 19);
    }
    assert(code[at + 20]@ == yes(c.tailwind > 0)) by {
        lemma_side_feature(state, table, s, 20);
    }
    assert(code[at + 21]@ == yes(c.safeguard > 0)) by {
        lemma_side_feature(state, table, s, 21);
    }
    assert(code[at + 22]@ == yes(side.force_switch)) by {
        lemma_side_feature(state, table, s, 22);
    }
    assert(code[at + 23]@ == yes(side.force_trapped)) by {
        lemma_side_feature(state, table, s, 23);
    }
    assert(code[at + 24]@ == yes(side.slow_uturn_move)) by {
        lemma_side_feature(state, table, s, 24);
    }
    assert(code[at + 25]@ == yes(side.baton_passing)) by {
        lemma_side_feature(state, table, s, 25);
    }
}

/// The last ten features tell the weather, the terrain that is in effect, and whether
/// there is a Trick Room.
pub proof fn law_field_has_its_places(state: State, table: MoveTable)
    ensures
        ({
            let code = state_code(state, table);
            let w = state.field.weather;
            let t = state.field.active_terrain;
            &&& code[2728]@ == yes(w == Weather::SUN || w == Weather::HARSHSUN)
            &&& code[2729]@ == yes(w == Weather::RAIN || w == Weather::HEAVYRAIN)
            &&& code[2730]@ == yes(w == Weather::SAND)
            &&& code[2731]@ == yes(w == Weather::SNOW)
            &&& code[2732]@ == yes(w == Weather::HAIL)
            &&& code[2733]@ == yes(t == Terrain::ELECTRICTERRAIN)
            &&& code[2734]@ == yes(t == Terrain::GRASSYTERRAIN)
            &&& code[2735]@ == yes(t == Terrain::MISTYTERRAIN)
            &&& code[2736]@ == yes(t == Terrain::PSYCHICTERRAIN)
            &&& code[2737]@ == yes(state.field.trick_room)
        }),
{
    lemma_flags();
    law_encoding_has_fixed_length(state, table);
    let code = state_code(state, table);
    let g = global_code(state);
    assert(g.len() == 10);
    assert(code[2728] == g[0]);
    assert(code[2729] == g[1]);
    assert(code[2730] == g[2]);
    assert(code[2731] == g[3]);
    assert(code[2732] == g[4]);
    assert(code[2733] == g[5]);
    assert(code[2734] == g[6]);
    assert(code[2735] == g[7]);
    assert(code[2736] == g[8]);
    assert(code[2737] == g[9]);
}

} // verus!
