//! Where each feature of the Bulky Offense encoding stands, and what it says.
#[allow(unused_imports)]
use crate::matchup::TYPE_SLOTS;
#[allow(unused_imports)]
use crate::numbers::ratio_flag;
#[allow(unused_imports)]
use crate::policy::bulky::{
    bench_roles, bench_slot, bo_side_code, dangers_code, disabled_code, facing_side, field_code,
    hazard_code, holder, item_place, law_encoding_has_fixed_length, lemma_bench_length,
    lemma_lengths, matchup_code, members_among, one_hot, opp_side_code, place_is_out, place_of,
    role_of, slot_vitals, slot_with, state_code, team_side, team_vitals, vitals,
};
#[allow(unused_imports)]
use crate::policy::v2::type_flags;
#[allow(unused_imports)]
use crate::policy::v3::{active_code, sky_code, stat_stages_code};
#[allow(unused_imports)]
use crate::policy::v3_places::{between, lemma_flags, yes};
#[allow(unused_imports)]
use crate::state::{Pokemon, Side, State};
#[allow(unused_imports)]
use crate::types::{Items, PokemonName, PokemonStatus, PokemonType, Terrain, Weather};
use vstd::prelude::*;

verus! {

proof fn lemma_own_place(state: State, j: int)
    requires
        0 <= j < 30,
    ensures
        state_code(state)[j] == bo_side_code(team_side(state))[j],
{
    lemma_halves(state);
}

proof fn lemma_foe_place(state: State, j: int)
    requires
        0 <= j < 126,
    ensures
        state_code(state)[30 + j] == opp_side_code(facing_side(state))[j],
{
    lemma_halves(state);
}

proof fn lemma_field_place(state: State, j: int)
    requires
        0 <= j < 18,
    ensures
        state_code(state)[156 + j] == field_code(state, team_side(state), facing_side(state))[j],
{
    lemma_halves(state);
}

proof fn lemma_matchup_place(state: State, j: int)
    requires
        0 <= j < 10,
    ensures
        state_code(state)[174 + j] == matchup_code(team_side(state), facing_side(state))[j],
{
    lemma_halves(state);
}

proof fn lemma_halves(state: State)
    ensures
        bo_side_code(team_side(state)).len() == 30,
        opp_side_code(facing_side(state)).len() == 126,
        field_code(state, team_side(state), facing_side(state)).len() == 18,
        matchup_code(team_side(state), facing_side(state)).len() == 10,
        state_code(state).len() == 184,
{
    lemma_lengths(team_side(state), facing_side(state), 6);
    lemma_bench_length(facing_side(state), 5);
    law_encoding_has_fixed_length(state);
}

proof fn lemma_own_part(s: Side, j: int)
    requires
        0 <= j < 30,
    ensures
        j < 18 ==> bo_side_code(s)[j] == team_vitals(s, 6)[j],
        18 <= j < 24 ==> bo_side_code(s)[j] == ratio_flag(place_of(s.active().id) == Some(j - 18)),
        24 <= j < 29 ==> bo_side_code(s)[j] == stat_stages_code(s)[j - 24],
        j == 29 ==> bo_side_code(s)[j] == ratio_flag(
            holder(s, 2) matches Some(p) && p.hp > 0 && p.item != Items::BOOSTERENERGY,
        ),
{
    lemma_lengths(s, s, 6);
    assert(stat_stages_code(s).len() == 5);
}

proof fn lemma_foe_part(s: Side, j: int)
    requires
        0 <= j < 126,
    ensures
        j < 18 ==> opp_side_code(s)[j] == slot_vitals(s, 6)[j],
        18 <= j < 36 ==> opp_side_code(s)[j] == type_flags(
            s.active().types.0,
            s.active().types.0,
            18,
        )[j - 18],
        36 <= j < 54 ==> opp_side_code(s)[j] == type_flags(
            s.active().types.1,
            s.active().types.1,
            18,
        )[j - 36],
        54 <= j < 104 ==> opp_side_code(s)[j] == bench_roles(s, 5)[j - 54],
        104 <= j < 110 ==> opp_side_code(s)[j] == active_code(s)[j - 104],
        110 <= j < 115 ==> opp_side_code(s)[j] == stat_stages_code(s)[j - 110],
        115 <= j < 122 ==> opp_side_code(s)[j] == one_hot(item_place(s.active().item), 7)[j - 115],
        122 <= j < 126 ==> opp_side_code(s)[j] == disabled_code(s.active())[j - 122],
{
    lemma_lengths(s, s, 6);
    lemma_bench_length(s, 5);
    assert(stat_stages_code(s).len() == 5);
    assert(active_code(s).len() == 6);
}

proof fn lemma_field_part(state: State, own: Side, foe: Side, j: int)
    requires
        0 <= j < 18,
    ensures
        j < 9 ==> field_code(state, own, foe)[j] == sky_code(
            state.field.weather,
            state.field.active_terrain,
        )[j],
        j == 9 ==> field_code(state, own, foe)[j] == ratio_flag(state.field.trick_room),
        10 <= j < 13 ==> field_code(state, own, foe)[j] == hazard_code(own)[j - 10],
        13 <= j < 16 ==> field_code(state, own, foe)[j] == hazard_code(foe)[j - 13],
{
    assert(sky_code(state.field.weather, state.field.active_terrain).len() == 9);
    assert(hazard_code(own).len() == 3);
    assert(hazard_code(foe).len() == 3);
}

proof fn lemma_team_vitals_place(s: Side, n: int, c: int, j: int)
    requires
        0 <= c < n,
        0 <= j < 3,
    ensures
        holder(s, c) matches Some(p) ==> team_vitals(s, n)[c * 3 + j] == vitals(p)[j],
        holder(s, c) is None ==> team_vitals(s, n)[c * 3 + j] == ratio_flag(false),
    decreases n,
{
    lemma_lengths(s, s, n);
    lemma_lengths(s, s, n - 1);
    if c < n - 1 {
        lemma_team_vitals_place(s, n - 1, c, j);
    }
}

proof fn lemma_slot_vitals_place(s: Side, n: int, k: int, j: int)
    requires
        0 <= k < n,
        0 <= j < 3,
    ensures
        slot_vitals(s, n)[k * 3 + j] == vitals(s.pokemon@[k])[j],
    decreases n,
{
    lemma_lengths(s, s, n);
    lemma_lengths(s, s, n - 1);
    if k < n - 1 {
        lemma_slot_vitals_place(s, n - 1, k, j);
    }
}

proof fn lemma_bench_place(s: Side, n: int, b: int, r: int)
    requires
        0 <= b < n,
        0 <= r < 10,
    ensures
        bench_roles(s, n)[b * 10 + r] == ratio_flag(
            r == role_of(s.pokemon@[bench_slot(s, b)].id),
        ),
    decreases n,
{
    lemma_bench_length(s, n);
    lemma_bench_length(s, n - 1);
    if b < n - 1 {
        lemma_bench_place(s, n - 1, b, r);
    }
}

/// The first eighteen features tell, for each of the six places on the team, the share of
/// its hit points, whether it has a status and whether it stands; a missing Pokemon leaves
/// its three features at zero.
#[verifier::rlimit(60)]
pub proof fn law_team_vitals_have_their_places(
    state: State,
    c: int,
)
    requires
        0 <= c < 6,
    ensures
        ({
            let code = state_code(state);
            let at = c * 3;
            let who = holder(team_side(state), c);
            &&& who matches Some(p) ==> p.maxhp > 0 ==> code[at]@ == p.hp as real / p.maxhp as real
            &&& who matches Some(p) ==> code[at + 1]@ == yes(p.status != PokemonStatus::NONE)
            &&& who matches Some(p) ==> code[at + 2]@ == yes(p.hp > 0)
            &&& who is None ==> code[at]@ == 0 as real
            &&& who is None ==> code[at + 1]@ == 0 as real
            &&& who is None ==> code[at + 2]@ == 0 as real
        }),
{
    lemma_flags();
    let code = state_code(state);
    let at = c * 3;
    let who = holder(team_side(state), c);
    assert(who matches Some(p) ==> p.maxhp > 0 ==> code[at]@ == p.hp as real / p.maxhp as real) by {
        lemma_own_place(state, c * 3 + 0);
        lemma_own_part(team_side(state), c * 3 + 0);
        lemma_team_vitals_place(team_side(state), 6, c, 0);
    }
    assert(who matches Some(p) ==> code[at + 1]@ == yes(p.status != PokemonStatus::NONE)) by {
        lemma_own_place(state, c * 3 + 1);
        lemma_own_part(team_side(state), c * 3 + 1);
        lemma_team_vitals_place(team_side(state), 6, c, 1);
    }
    assert(who matches Some(p) ==> code[at + 2]@ == yes(p.hp > 0)) by {
        lemma_own_place(state, c * 3 + 2);
        lemma_own_part(team_side(state), c * 3 + 2);
        lemma_team_vitals_place(team_side(state), 6, c, 2);
    }
    assert(who is None ==> code[at]@ == 0 as real) by {
        lemma_own_place(state, c * 3 + 0);
        lemma_own_part(team_side(state), c * 3 + 0);
        lemma_team_vitals_place(team_side(state), 6, c, 0);
    }
    assert(who is None ==> code[at + 1]@ == 0 as real) by {
        lemma_own_place(state, c * 3 + 1);
        lemma_own_part(team_side(state), c * 3 + 1);
        lemma_team_vitals_place(team_side(state), 6, c, 1);
    }
    assert(who is None ==> code[at + 2]@ == 0 as real) by {
        lemma_own_place(state, c * 3 + 2);
        lemma_own_part(team_side(state), c * 3 + 2);
        lemma_team_vitals_place(team_side(state), 6, c, 2);
    }
}

/// Then come which place is out, the five stages as parts of six, and whether Great Tusk
/// stands without its Booster Energy.
#[verifier::rlimit(60)]
pub proof fn law_team_side_has_its_places(
    state: State,
)
    ensures
        ({
            let code = state_code(state);
            let own = team_side(state);
            &&& code[18]@ == yes(own.active().id == PokemonName::GARGANACL)
            &&& code[19]@ == yes(own.active().id == PokemonName::DARKRAI)
            &&& code[20]@ == yes(own.active().id == PokemonName::GREATTUSK)
            &&& code[21]@ == yes(own.active().id == PokemonName::HATTERENE)
            &&& code[22]@ == yes(own.active().id == PokemonName::TORNADUSTHERIAN)
            &&& code[23]@ == yes(own.active().id == PokemonName::DRAGONITE)
            &&& code[24]@ == between(own.attack_boost as int, -6, 6) as real / 6 as real
            &&& code[25]@ == between(own.defense_boost as int, -6, 6) as real / 6 as real
            &&& code[26]@ == between(own.special_attack_boost as int, -6, 6) as real / 6 as real
            &&& code[27]@ == between(own.special_defense_boost as int, -6, 6) as real / 6 as real
            &&& code[28]@ == between(own.speed_boost as int, -6, 6) as real / 6 as real
            &&& code[29]@ == yes(holder(own, 2) matches Some(p) && p.hp > 0
                    && p.item != Items::BOOSTERENERGY)
        }),
{
    lemma_flags();
    let code = state_code(state);
    let own = team_side(state);
    assert(code[18]@ == yes(own.active().id == PokemonName::GARGANACL)) by {
        lemma_own_place(state, 18);
        lemma_own_part(team_side(state), 18);
    }
    assert(code[19]@ == yes(own.active().id == PokemonName::DARKRAI)) by {
        lemma_own_place(state, 19);
        lemma_own_part(team_side(state), 19);
    }
    assert(code[20]@ == yes(own.active().id == PokemonName::GREATTUSK)) by {
        lemma_own_place(state, 20);
        lemma_own_part(team_side(state), 20);
    }
    assert(code[21]@ == yes(own.active().id == PokemonName::HATTERENE)) by {
        lemma_own_place(state, 21);
        lemma_own_part(team_side(state), 21);
    }
    assert(code[22]@ == yes(own.active().id == PokemonName::TORNADUSTHERIAN)) by {
        lemma_own_place(state, 22);
        lemma_own_part(team_side(state), 22);
    }
    assert(code[23]@ == yes(own.active().id == PokemonName::DRAGONITE)) by {
        lemma_own_place(state, 23);
        lemma_own_part(team_side(state), 23);
    }
    assert(code[24]@ == between(own.attack_boost as int, -6, 6) as real / 6 as real) by {
        lemma_own_place(state, 24);
        lemma_own_part(team_side(state), 24);
    }
    assert(code[25]@ == between(own.defense_boost as int, -6, 6) as real / 6 as real) by {
        lemma_own_place(state, 25);
        lemma_own_part(team_side(state), 25);
    }
    assert(code[26]@ == between(own.special_attack_boost as int, -6, 6) as real / 6 as real) by {
        lemma_own_place(state, 26);
        lemma_own_part(team_side(state), 26);
    }
    assert(code[27]@ == between(own.special_defense_boost as int, -6, 6) as real / 6 as real) by {
        lemma_own_place(state, 27);
        lemma_own_part(team_side(state), 27);
    }
    assert(code[28]@ == between(own.speed_boost as int, -6, 6) as real / 6 as real) by {
        lemma_own_place(state, 28);
        lemma_own_part(team_side(state), 28);
    }
    assert(code[29]@ == yes(holder(own, 2) matches Some(p) && p.hp > 0
        && p.item != Items::BOOSTERENERGY)) by {
        lemma_own_place(state, 29);
        lemma_own_part(team_side(state), 29);
    }
}

/// For each slot of the other team the features tell hit points, status and standing.
#[verifier::rlimit(60)]
pub proof fn law_foe_vitals_have_their_places(
    state: State,
    k: int,
)
    requires
        0 <= k < 6,
    ensures
        ({
            let code = state_code(state);
            let at = 30 + k * 3;
            let p = facing_side(state).pokemon@[k];
            &&& p.maxhp > 0 ==> code[at]@ == p.hp as real / p.maxhp as real
            &&& code[at + 1]@ == yes(p.status != PokemonStatus::NONE)
            &&& code[at + 2]@ == yes(p.hp > 0)
        }),
{
    lemma_flags();
    let code = state_code(state);
    let at = 30 + k * 3;
    let p = facing_side(state).pokemon@[k];
    assert(p.maxhp > 0 ==> code[at]@ == p.hp as real / p.maxhp as real) by {
        lemma_foe_place(state, k * 3 + 0);
        lemma_foe_part(facing_side(state), k * 3 + 0);
        lemma_slot_vitals_place(facing_side(state), 6, k, 0);
    }
    assert(code[at + 1]@ == yes(p.status != PokemonStatus::NONE)) by {
        lemma_foe_place(state, k * 3 + 1);
        lemma_foe_part(facing_side(state), k * 3 + 1);
        lemma_slot_vitals_place(facing_side(state), 6, k, 1);
    }
    assert(code[at + 2]@ == yes(p.hp > 0)) by {
        lemma_foe_place(state, k * 3 + 2);
        lemma_foe_part(facing_side(state), k * 3 + 2);
        lemma_slot_vitals_place(facing_side(state), 6, k, 2);
    }
}

/// The two types of the opposing Pokemon that is out stand in the order of their slots.
#[verifier::rlimit(60)]
pub proof fn law_foe_types_have_their_places(
    state: State,
    i: int,
)
    requires
        0 <= i < 18,
    ensures
        ({
            let code = state_code(state);
            let a = facing_side(state).active();
            &&& code[48 + i]@ == yes(a.types.0 == TYPE_SLOTS[i])
            &&& code[66 + i]@ == yes(a.types.1 == TYPE_SLOTS[i])
        }),
{
    lemma_flags();
    let code = state_code(state);
    let a = facing_side(state).active();
    assert(code[48 + i]@ == yes(a.types.0 == TYPE_SLOTS[i])) by {
        lemma_foe_place(state, 18 + i);
        lemma_foe_part(facing_side(state), 18 + i);
    }
    assert(code[66 + i]@ == yes(a.types.1 == TYPE_SLOTS[i])) by {
        lemma_foe_place(state, 36 + i);
        lemma_foe_part(facing_side(state), 36 + i);
    }
}

/// For each of the five opposing Pokemon on the bench, in the order of their slots, ten
/// features tell its role.
#[verifier::rlimit(60)]
pub proof fn law_bench_roles_have_their_places(
    state: State,
    b: int,
    r: int,
)
    requires
        0 <= b < 5,
        0 <= r < 10,
    ensures
        ({
            let code = state_code(state);
            let foe = facing_side(state);
            &&& b < foe.active_index
                    ==> code[84 + b * 10 + r]@ == yes(role_of(foe.pokemon@[b].id) == r)
            &&& b >= foe.active_index
                    ==> code[84 + b * 10 + r]@ == yes(role_of(foe.pokemon@[b + 1].id) == r)
        }),
{
    lemma_flags();
    let code = state_code(state);
    let foe = facing_side(state);
    assert(b < foe.active_index
        ==> code[84 + b * 10 + r]@ == yes(role_of(foe.pokemon@[b].id) == r)) by {
        lemma_foe_place(state, 54 + b * 10 + r);
        lemma_foe_part(facing_side(state), 54 + b * 10 + r);
        lemma_bench_place(facing_side(state), 5, b, r);
    }
    assert(b >= foe.active_index
        ==> code[84 + b * 10 + r]@ == yes(role_of(foe.pokemon@[b + 1].id) == r)) by {
        lemma_foe_place(state, 54 + b * 10 + r);
        lemma_foe_part(facing_side(state), 54 + b * 10 + r);
        lemma_bench_place(facing_side(state), 5, b, r);
    }
}

/// Then come which opposing slot is out, the five stages, the item of the Pokemon that is
/// out, and which of its moves are disabled.
#[verifier::rlimit(60)]
pub proof fn law_foe_side_has_its_places(
    state: State,
)
    ensures
        ({
            let code = state_code(state);
            let foe = facing_side(state);
            let a = facing_side(state).active();
            &&& code[134]@ == yes(foe.active_index == 0)
            &&& code[135]@ == yes(foe.active_index == 1)
            &&& code[136]@ == yes(foe.active_index == 2)
            &&& code[137]@ == yes(foe.active_index == 3)
            &&& code[138]@ == yes(foe.active_index == 4)
            &&& code[139]@ == yes(foe.active_index == 5)
            &&& code[140]@ == between(foe.attack_boost as int, -6, 6) as real / 6 as real
            &&& code[141]@ == between(foe.defense_boost as int, -6, 6) as real / 6 as real
            &&& code[142]@ == between(foe.special_attack_boost as int, -6, 6) as real / 6 as real
            &&& code[143]@ == between(foe.special_defense_boost as int, -6, 6) as real / 6 as real
            &&& code[144]@ == between(foe.speed_boost as int, -6, 6) as real / 6 as real
            &&& code[145]@ == yes(a.item == Items::HEAVYDUTYBOOTS)
            &&& code[146]@ == yes(a.item == Items::CHOICESCARF)
            &&& code[147]@ == yes(a.item == Items::CHOICESPECS)
            &&& code[148]@ == yes(a.item == Items::CHOICEBAND)
            &&& code[149]@ == yes(a.item == Items::LIFEORB)
            &&& code[150]@ == yes(a.item == Items::BOOSTERENERGY)
            &&& code[151]@ == yes(a.item != Items::HEAVYDUTYBOOTS && a.item != Items::CHOICESCARF
                    && a.item != Items::CHOICESPECS && a.item != Items::CHOICEBAND
                    && a.item != Items::LIFEORB && a.item != Items::BOOSTERENERGY)
            &&& code[152]@ == yes(a.moves@[0].disabled)
            &&& code[153]@ == yes(a.moves@[1].disabled)
            &&& code[154]@ == yes(a.moves@[2].disabled)
            &&& code[155]@ == yes(a.moves@[3].disabled)
        }),
{
    lemma_flags();
    let code = state_code(state);
    let foe = facing_side(state);
    let a = facing_side(state).active();
    assert(code[134]@ == yes(foe.active_index == 0)) by {
        lemma_foe_place(state, 104);
        lemma_foe_part(facing_side(state), 104);
    }
    assert(code[135]@ == yes(foe.active_index == 1)) by {
        lemma_foe_place(state, 105);
        lemma_foe_part(facing_side(state), 105);
    }
    assert(code[136]@ == yes(foe.active_index == 2)) by {
        lemma_foe_place(state, 106);
        lemma_foe_part(facing_side(state), 106);
    }
    assert(code[137]@ == yes(foe.active_index == 3)) by {
        lemma_foe_place(state, 107);
        lemma_foe_part(facing_side(state), 107);
    }
    assert(code[138]@ == yes(foe.active_index == 4)) by {
        lemma_foe_place(state, 108);
        lemma_foe_part(facing_side(state), 108);
    }
    assert(code[139]@ == yes(foe.active_index == 5)) by {
        lemma_foe_place(state, 109);
        lemma_foe_part(facing_side(state), 109);
    }
    assert(code[140]@ == between(foe.attack_boost as int, -6, 6) as real / 6 as real) by {
        lemma_foe_place(state, 110);
        lemma_foe_part(facing_side(state), 110);
    }
    assert(code[141]@ == between(foe.defense_boost as int, -6, 6) as real / 6 as real) by {
        lemma_foe_place(state, 111);
        lemma_foe_part(facing_side(state), 111);
    }
    assert(code[142]@ == between(foe.special_attack_boost as int, -6, 6) as real / 6 as real) by {
        lemma_foe_place(state, 112);
        lemma_foe_part(facing_side(state), 112);
    }
    assert(code[143]@ == between(foe.special_defense_boost as int, -6, 6) as real / 6 as real) by {
        lemma_foe_place(state, 113);
        lemma_foe_part(facing_side(state), 113);
    }
    assert(code[144]@ == between(foe.speed_boost as int, -6, 6) as real / 6 as real) by {
        lemma_foe_place(state, 114);
        lemma_foe_part(facing_side(state), 114);
    }
    assert(code[145]@ == yes(a.item == Items::HEAVYDUTYBOOTS)) by {
        lemma_foe_place(state, 115);
        lemma_foe_part(facing_side(state), 115);
    }
    assert(code[146]@ == yes(a.item == Items::CHOICESCARF)) by {
        lemma_foe_place(state, 116);
        lemma_foe_part(facing_side(state), 116);
    }
    assert(code[147]@ == yes(a.item == Items::CHOICESPECS)) by {
        lemma_foe_place(state, 117);
        lemma_foe_part(facing_side(state), 117);
    }
    assert(code[148]@ == yes(a.item == Items::CHOICEBAND)) by {
        lemma_foe_place(state, 118);
        lemma_foe_part(facing_side(state), 118);
    }
    assert(code[149]@ == yes(a.item == Items::LIFEORB)) by {
        lemma_foe_place(state, 119);
        lemma_foe_part(facing_side(state), 119);
    }
    assert(code[150]@ == yes(a.item == Items::BOOSTERENERGY)) by {
        lemma_foe_place(state, 120);
        lemma_foe_part(facing_side(state), 120);
    }
    assert(code[151]@ == yes(a.item != Items::HEAVYDUTYBOOTS && a.item != Items::CHOICESCARF
        && a.item != Items::CHOICESPECS && a.item != Items::CHOICEBAND && a.item != Items::LIFEORB
        && a.item != Items::BOOSTERENERGY)) by {
        lemma_foe_place(state, 121);
        lemma_foe_part(facing_side(state), 121);
    }
    assert(code[152]@ == yes(a.moves@[0].disabled)) by {
        lemma_foe_place(state, 122);
        lemma_foe_part(facing_side(state), 122);
    }
    assert(code[153]@ == yes(a.moves@[1].disabled)) by {
        lemma_foe_place(state, 123);
        lemma_foe_part(facing_side(state), 123);
    }
    assert(code[154]@ == yes(a.moves@[2].disabled)) by {
        lemma_foe_place(state, 124);
        lemma_foe_part(facing_side(state), 124);
    }
    assert(code[155]@ == yes(a.moves@[3].disabled)) by {
        lemma_foe_place(state, 125);
        lemma_foe_part(facing_side(state), 125);
    }
}

/// The field tells the weather, the terrain in effect, whether there is a Trick Room, and
/// for each side its hazards and whether a screen is up.
#[verifier::rlimit(60)]
pub proof fn law_field_has_its_places(
    state: State,
)
    ensures
        ({
            let code = state_code(state);
            let w = state.field.weather;
            let t = state.field.active_terrain;
            let own = team_side(state);
            let foe = facing_side(state);
            &&& code[156]@ == yes(w == Weather::SUN || w == Weather::HARSHSUN)
            &&& code[157]@ == yes(w == Weather::RAIN || w == Weather::HEAVYRAIN)
            &&& code[158]@ == yes(w == Weather::SAND)
            &&& code[159]@ == yes(w == Weather::SNOW)
            &&& code[160]@ == yes(w == Weather::HAIL)
            &&& code[161]@ == yes(t == Terrain::ELECTRICTERRAIN)
            &&& code[162]@ == yes(t == Terrain::GRASSYTERRAIN)
            &&& code[163]@ == yes(t == Terrain::MISTYTERRAIN)
            &&& code[164]@ == yes(t == Terrain::PSYCHICTERRAIN)
            &&& code[165]@ == yes(state.field.trick_room)
            &&& code[166]@ == yes(own.side_conditions.stealth_rock > 0)
            &&& code[167]@ == between(own.side_conditions.spikes as int, 0, 3) as real / 3 as real
            &&& code[168]@ == between(own.side_conditions.toxic_spikes as int, 0,
                    2) as real / 2 as real
            &&& code[169]@ == yes(foe.side_conditions.stealth_rock > 0)
            &&& code[170]@ == between(foe.side_conditions.spikes as int, 0, 3) as real / 3 as real
            &&& code[171]@ == between(foe.side_conditions.toxic_spikes as int, 0,
                    2) as real / 2 as real
            &&& code[172]@ == yes(own.side_conditions.reflect > 0
                    || own.side_conditions.light_screen > 0 || own.side_conditions.aurora_veil > 0)
            &&& code[173]@ == yes(foe.side_conditions.reflect > 0
                    || foe.side_conditions.light_screen > 0 || foe.side_conditions.aurora_veil > 0)
        }),
{
    lemma_flags();
    let code = state_code(state);
    let w = state.field.weather;
    let t = state.field.active_terrain;
    let own = team_side(state);
    let foe = facing_side(state);
    assert(code[156]@ == yes(w == Weather::SUN || w == Weather::HARSHSUN)) by {
        lemma_field_place(state, 0);
        lemma_field_part(state, team_side(state), facing_side(state), 0);
    }
    assert(code[157]@ == yes(w == Weather::RAIN || w == Weather::HEAVYRAIN)) by {
        lemma_field_place(state, 1);
        lemma_field_part(state, team_side(state), facing_side(state), 1);
    }
    assert(code[158]@ == yes(w == Weather::SAND)) by {
        lemma_field_place(state, 2);
        lemma_field_part(state, team_side(state), facing_side(state), 2);
    }
    assert(code[159]@ == yes(w == Weather::SNOW)) by {
        lemma_field_place(state, 3);
        lemma_field_part(state, team_side(state), facing_side(state), 3);
    }
    assert(code[160]@ == yes(w == Weather::HAIL)) by {
        lemma_field_place(state, 4);
        lemma_field_part(state, team_side(state), facing_side(state), 4);
    }
    assert(code[161]@ == yes(t == Terrain::ELECTRICTERRAIN)) by {
        lemma_field_place(state, 5);
        lemma_field_part(state, team_side(state), facing_side(state), 5);
    }
    assert(code[162]@ == yes(t == Terrain::GRASSYTERRAIN)) by {
        lemma_field_place(state, 6);
        lemma_field_part(state, team_side(state), facing_side(state), 6);
    }
    assert(code[163]@ == yes(t == Terrain::MISTYTERRAIN)) by {
        lemma_field_place(state, 7);
        lemma_field_part(state, team_side(state), facing_side(state), 7);
    }
    assert(code[164]@ == yes(t == Terrain::PSYCHICTERRAIN)) by {
        lemma_field_place(state, 8);
        lemma_field_part(state, team_side(state), facing_side(state), 8);
    }
    assert(code[165]@ == yes(state.field.trick_room)) by {
        lemma_field_place(state, 9);
        lemma_field_part(state, team_side(state), facing_side(state), 9);
    }
    assert(code[166]@ == yes(own.side_conditions.stealth_rock > 0)) by {
        lemma_field_place(state, 10);
        lemma_field_part(state, team_side(state), facing_side(state), 10);
    }
    assert(code[167]@ == between(own.side_conditions.spikes as int, 0, 3) as real / 3 as real) by {
        lemma_field_place(state, 11);
        lemma_field_part(state, team_side(state), facing_side(state), 11);
    }
    assert(code[168]@ == between(own.side_conditions.toxic_spikes as int, 0,
        2) as real / 2 as real) by {
        lemma_field_place(state, 12);
        lemma_field_part(state, team_side(state), facing_side(state), 12);
    }
    assert(code[169]@ == yes(foe.side_conditions.stealth_rock > 0)) by {
        lemma_field_place(state, 13);
        lemma_field_part(state, team_side(state), facing_side(state), 13);
    }
    assert(code[170]@ == between(foe.side_conditions.spikes as int, 0, 3) as real / 3 as real) by {
        lemma_field_place(state, 14);
        lemma_field_part(state, team_side(state), facing_side(state), 14);
    }
    assert(code[171]@ == between(foe.side_conditions.toxic_spikes as int, 0,
        2) as real / 2 as real) by {
        lemma_field_place(state, 15);
        lemma_field_part(state, team_side(state), facing_side(state), 15);
    }
    assert(code[172]@ == yes(own.side_conditions.reflect > 0
        || own.side_conditions.light_screen > 0 || own.side_conditions.aurora_veil > 0)) by {
        lemma_field_place(state, 16);
        lemma_field_part(state, team_side(state), facing_side(state), 16);
    }
    assert(code[173]@ == yes(foe.side_conditions.reflect > 0
        || foe.side_conditions.light_screen > 0 || foe.side_conditions.aurora_veil > 0)) by {
        lemma_field_place(state, 17);
        lemma_field_part(state, team_side(state), facing_side(state), 17);
    }
}

/// The chances of the team: the attack stages of a Dragonite that is out, whether Hatterene
/// is out, whether Great Tusk is out without its Booster Energy, whether Garganacl is out
/// against somebody whom Salt Cure hurts, and whether Dragonite is outsped by half.
#[verifier::rlimit(60)]
pub proof fn law_chances_have_their_places(
    state: State,
)
    ensures
        ({
            let code = state_code(state);
            let own = team_side(state);
            let foe = facing_side(state);
            let a = facing_side(state).active();
            &&& place_is_out(own, 5)
                    ==> code[174]@ == between(own.attack_boost as int, 0, 6) as real / 6 as real
            &&& !place_is_out(own, 5) ==> code[174]@ == 0 as real
            &&& code[175]@ == yes(place_is_out(own, 3))
            &&& code[176]@ == yes(place_is_out(own, 2) && own.active().item != Items::BOOSTERENERGY)
            &&& code[177]@ == yes(place_is_out(own, 0) && a.types.0 != PokemonType::STEEL
                    && a.types.0 != PokemonType::GHOST && a.types.1 != PokemonType::STEEL
                    && a.types.1 != PokemonType::GHOST)
            &&& code[178]@ == yes(holder(own, 5) matches Some(d) && d.speed > 0
                    && 2 * a.speed > 3 * d.speed)
        }),
{
    lemma_flags();
    let code = state_code(state);
    let own = team_side(state);
    let foe = facing_side(state);
    let a = facing_side(state).active();
    assert(place_is_out(own, 5)
        ==> code[174]@ == between(own.attack_boost as int, 0, 6) as real / 6 as real) by {
        lemma_matchup_place(state, 0);
    }
    assert(!place_is_out(own, 5) ==> code[174]@ == 0 as real) by {
        lemma_matchup_place(state, 0);
    }
    assert(code[175]@ == yes(place_is_out(own, 3))) by {
        lemma_matchup_place(state, 1);
    }
    assert(code[176]@ == yes(place_is_out(own, 2)
        && own.active().item != Items::BOOSTERENERGY)) by {
        lemma_matchup_place(state, 2);
    }
    assert(code[177]@ == yes(place_is_out(own, 0) && a.types.0 != PokemonType::STEEL
        && a.types.0 != PokemonType::GHOST && a.types.1 != PokemonType::STEEL
        && a.types.1 != PokemonType::GHOST)) by {
        lemma_matchup_place(state, 3);
    }
    assert(code[178]@ == yes(holder(own, 5) matches Some(d) && d.speed > 0
        && 2 * a.speed > 3 * d.speed)) by {
        lemma_matchup_place(state, 4);
    }
}

/// The dangers for the team: somebody of the other team still stands who walls it, who
/// strikes first, who wears a Rocky Helmet, or who swaps items; and the stages that the
/// other side has gained.
#[verifier::rlimit(60)]
pub proof fn law_dangers_have_their_places(
    state: State,
)
    ensures
        ({
            let code = state_code(state);
            let foe = facing_side(state);
            &&& code[179]@ == yes(exists|k: int| 0 <= k < 6 && (#[trigger] foe.pokemon@[k]).hp > 0
                    && (foe.pokemon@[k].id == PokemonName::HEATRAN
                    || foe.pokemon@[k].id == PokemonName::SKARMORY
                    || foe.pokemon@[k].id == PokemonName::CORVIKNIGHT
                    || foe.pokemon@[k].id == PokemonName::GHOLDENGO))
            &&& code[180]@ == yes(exists|k: int| 0 <= k < 6 && (#[trigger] foe.pokemon@[k]).hp > 0
                    && (foe.pokemon@[k].id == PokemonName::KINGAMBIT
                    || foe.pokemon@[k].id == PokemonName::MAMOSWINE
                    || foe.pokemon@[k].id == PokemonName::RILLABOOM
                    || foe.pokemon@[k].id == PokemonName::DRAGONITE
                    || foe.pokemon@[k].id == PokemonName::BISHARP
                    || foe.pokemon@[k].id == PokemonName::RAGINGBOLT))
            &&& code[181]@ == yes(exists|k: int| 0 <= k < 6 && (#[trigger] foe.pokemon@[k]).hp > 0
                    && (foe.pokemon@[k].item == Items::ROCKYHELMET))
            &&& code[182]@ == yes(exists|k: int| 0 <= k < 6 && (#[trigger] foe.pokemon@[k]).hp > 0
                    && ((foe.pokemon@[k].id == PokemonName::GHOLDENGO
                    || foe.pokemon@[k].id == PokemonName::IRONBOULDER
                    || foe.pokemon@[k].id == PokemonName::HOOPAUNBOUND
                    || foe.pokemon@[k].id == PokemonName::ALAKAZAM
                    || foe.pokemon@[k].id == PokemonName::GENGAR
                    || foe.pokemon@[k].id == PokemonName::LATIOS
                    || foe.pokemon@[k].id == PokemonName::LATIAS)
                    && (foe.pokemon@[k].item == Items::CHOICEBAND
                    || foe.pokemon@[k].item == Items::CHOICESPECS
                    || foe.pokemon@[k].item == Items::CHOICESCARF)))
            &&& code[183]@ == between(between(foe.attack_boost as int, 0,
                    127) + between(foe.defense_boost as int, 0,
                    127) + between(foe.special_attack_boost as int, 0,
                    127) + between(foe.special_defense_boost as int, 0,
                    127) + between(foe.speed_boost as int, 0, 127), 0, 6) as real / 6 as real
        }),
{
    lemma_flags();
    let code = state_code(state);
    let foe = facing_side(state);
    assert(code[179]@ == yes(exists|k: int| 0 <= k < 6 && (#[trigger] foe.pokemon@[k]).hp > 0
        && (foe.pokemon@[k].id == PokemonName::HEATRAN
        || foe.pokemon@[k].id == PokemonName::SKARMORY
        || foe.pokemon@[k].id == PokemonName::CORVIKNIGHT
        || foe.pokemon@[k].id == PokemonName::GHOLDENGO))) by {
        lemma_matchup_place(state, 5);
        assert(code[179] == dangers_code(foe)[0]);
    }
    assert(code[180]@ == yes(exists|k: int| 0 <= k < 6 && (#[trigger] foe.pokemon@[k]).hp > 0
        && (foe.pokemon@[k].id == PokemonName::KINGAMBIT
        || foe.pokemon@[k].id == PokemonName::MAMOSWINE
        || foe.pokemon@[k].id == PokemonName::RILLABOOM
        || foe.pokemon@[k].id == PokemonName::DRAGONITE
        || foe.pokemon@[k].id == PokemonName::BISHARP
        || foe.pokemon@[k].id == PokemonName::RAGINGBOLT))) by {
        lemma_matchup_place(state, 6);
        assert(code[180] == dangers_code(foe)[1]);
    }
    assert(code[181]@ == yes(exists|k: int| 0 <= k < 6 && (#[trigger] foe.pokemon@[k]).hp > 0
        && (foe.pokemon@[k].item == Items::ROCKYHELMET))) by {
        lemma_matchup_place(state, 7);
        assert(code[181] == dangers_code(foe)[2]);
    }
    assert(code[182]@ == yes(exists|k: int| 0 <= k < 6 && (#[trigger] foe.pokemon@[k]).hp > 0
        && ((foe.pokemon@[k].id == PokemonName::GHOLDENGO
        || foe.pokemon@[k].id == PokemonName::IRONBOULDER
        || foe.pokemon@[k].id == PokemonName::HOOPAUNBOUND
        || foe.pokemon@[k].id == PokemonName::ALAKAZAM
        || foe.pokemon@[k].id == PokemonName::GENGAR || foe.pokemon@[k].id == PokemonName::LATIOS
        || foe.pokemon@[k].id == PokemonName::LATIAS)
        && (foe.pokemon@[k].item == Items::CHOICEBAND
        || foe.pokemon@[k].item == Items::CHOICESPECS
        || foe.pokemon@[k].item == Items::CHOICESCARF)))) by {
        lemma_matchup_place(state, 8);
        assert(code[182] == dangers_code(foe)[3]);
    }
    assert(code[183]@ == between(between(foe.attack_boost as int, 0,
        127) + between(foe.defense_boost as int, 0,
        127) + between(foe.special_attack_boost as int, 0,
        127) + between(foe.special_defense_boost as int, 0, 127) + between(foe.speed_boost as int,
        0, 127), 0, 6) as real / 6 as real) by {
        lemma_matchup_place(state, 9);
        assert(code[183] == dangers_code(foe)[4]);
    }
}

/// Ten roles: walls have the number 0, those who break through by striking first 1, those
/// who bring weather 3, who set hazards 4, who remove them 5, physical sweepers 6, special
/// ones 7, wallbreakers 8, and all others 9; nobody has the number 2.
pub proof fn law_roles_are_told_by_name(name: PokemonName)
    ensures
        role_of(name) != 2,
        0 <= role_of(name) < 10,
        role_of(name) == 0 <==> (name == PokemonName::HEATRAN || name == PokemonName::SKARMORY
            || name == PokemonName::CORVIKNIGHT || name == PokemonName::GHOLDENGO
            || name == PokemonName::CLODSIRE || name == PokemonName::TOXAPEX
            || name == PokemonName::BLISSEY || name == PokemonName::CLEFABLE
            || name == PokemonName::DONDOZO),
        role_of(name) == 1 <==> (name == PokemonName::KINGAMBIT || name == PokemonName::MAMOSWINE
            || name == PokemonName::RILLABOOM || name == PokemonName::BISHARP),
        role_of(name) == 3 <==> (name == PokemonName::PELIPPER || name == PokemonName::TORKOAL
            || name == PokemonName::TYRANITAR || name == PokemonName::NINETALES),
        role_of(name) == 4 <==> (name == PokemonName::TINGLU || name == PokemonName::GLIMMORA
            || name == PokemonName::LANDORUSTHERIAN),
        role_of(name) == 5 <==> (name == PokemonName::IRONTREADS),
        role_of(name) == 6 <==> (name == PokemonName::ROARINGMOON
            || name == PokemonName::DRAGONITE || name == PokemonName::VOLCARONA
            || name == PokemonName::BAXCALIBUR || name == PokemonName::BARRASKEWDA
            || name == PokemonName::EXCADRILL || name == PokemonName::GREATTUSK),
        role_of(name) == 7 <==> (name == PokemonName::WALKINGWAKE
            || name == PokemonName::IRONVALIANT || name == PokemonName::IRONMOTH
            || name == PokemonName::RAGINGBOLT || name == PokemonName::MANAPHY
            || name == PokemonName::ARCHALUDON),
        role_of(name) == 8 <==> (name == PokemonName::DARKRAI || name == PokemonName::PECHARUNT
            || name == PokemonName::HOOPAUNBOUND || name == PokemonName::KYUREM
            || name == PokemonName::URSALUNA),
{
}

/// The Pokemon that takes a place on the team has the name that belongs there.
pub proof fn law_places_belong_to_names(s: Side, p: Pokemon)
    ensures
        holder(s, 0) == Some(p) ==> p.id == PokemonName::GARGANACL,
        holder(s, 1) == Some(p) ==> p.id == PokemonName::DARKRAI,
        holder(s, 2) == Some(p) ==> p.id == PokemonName::GREATTUSK,
        holder(s, 3) == Some(p) ==> p.id == PokemonName::HATTERENE,
        holder(s, 4) == Some(p) ==> p.id == PokemonName::TORNADUSTHERIAN,
        holder(s, 5) == Some(p) ==> p.id == PokemonName::DRAGONITE,
{
    lemma_holder(s, 0, 6);
    lemma_holder(s, 1, 6);
    lemma_holder(s, 2, 6);
    lemma_holder(s, 3, 6);
    lemma_holder(s, 4, 6);
    lemma_holder(s, 5, 6);
}

proof fn lemma_holder(s: Side, place: int, n: int)
    ensures
        slot_with(s, place, n) matches Some(k) ==> 0 <= k < n && place_of(s.pokemon@[k].id) == Some(
            place,
        ),
        slot_with(s, place, n) is None ==> forall|k: int|
            0 <= k < n ==> place_of(#[trigger] s.pokemon@[k].id) != Some(place),
    decreases n,
{
    if n > 0 {
        lemma_holder(s, place, n - 1);
    }
}

/// A place on the team is empty if and only if nobody of that name is there.
pub proof fn law_missing_names_leave_their_place_empty(s: Side)
    ensures
        holder(s, 0) is None <==> forall|k: int| 0 <= k < 6
            ==> (#[trigger] s.pokemon@[k]).id != PokemonName::GARGANACL,
        holder(s, 1) is None <==> forall|k: int| 0 <= k < 6
            ==> (#[trigger] s.pokemon@[k]).id != PokemonName::DARKRAI,
        holder(s, 2) is None <==> forall|k: int| 0 <= k < 6
            ==> (#[trigger] s.pokemon@[k]).id != PokemonName::GREATTUSK,
        holder(s, 3) is None <==> forall|k: int| 0 <= k < 6
            ==> (#[trigger] s.pokemon@[k]).id != PokemonName::HATTERENE,
        holder(s, 4) is None <==> forall|k: int| 0 <= k < 6
            ==> (#[trigger] s.pokemon@[k]).id != PokemonName::TORNADUSTHERIAN,
        holder(s, 5) is None <==> forall|k: int| 0 <= k < 6
            ==> (#[trigger] s.pokemon@[k]).id != PokemonName::DRAGONITE,
{
    lemma_holder(s, 0, 6);
    if holder(s, 0) is None {
        assert forall|k: int| 0 <= k < 6 implies (#[trigger] s.pokemon@[k]).id != PokemonName::GARGANACL by {
            assert(place_of(s.pokemon@[k].id) != Some(0int));
        }
    }
    lemma_holder(s, 1, 6);
    if holder(s, 1) is None {
        assert forall|k: int| 0 <= k < 6 implies (#[trigger] s.pokemon@[k]).id != PokemonName::DARKRAI by {
            assert(place_of(s.pokemon@[k].id) != Some(1int));
        }
    }
    lemma_holder(s, 2, 6);
    if holder(s, 2) is None {
        assert forall|k: int| 0 <= k < 6 implies (#[trigger] s.pokemon@[k]).id != PokemonName::GREATTUSK by {
            assert(place_of(s.pokemon@[k].id) != Some(2int));
        }
    }
    lemma_holder(s, 3, 6);
    if holder(s, 3) is None {
        assert forall|k: int| 0 <= k < 6 implies (#[trigger] s.pokemon@[k]).id != PokemonName::HATTERENE by {
            assert(place_of(s.pokemon@[k].id) != Some(3int));
        }
    }
    lemma_holder(s, 4, 6);
    if holder(s, 4) is None {
        assert forall|k: int| 0 <= k < 6 implies (#[trigger] s.pokemon@[k]).id != PokemonName::TORNADUSTHERIAN by {
            assert(place_of(s.pokemon@[k].id) != Some(4int));
        }
    }
    lemma_holder(s, 5, 6);
    if holder(s, 5) is None {
        assert forall|k: int| 0 <= k < 6 implies (#[trigger] s.pokemon@[k]).id != PokemonName::DRAGONITE by {
            assert(place_of(s.pokemon@[k].id) != Some(5int));
        }
    }
}

/// A Pokemon counts as one of the team's by its name alone: where one slot changes, so does
/// the number of them, by that name.
pub proof fn law_names_count_for_the_team(s: Side, t: Side, k: int)
    requires
        0 <= k < 6,
        s.pokemon@.len() == 6,
        t.pokemon@ == s.pokemon@.update(k, t.pokemon@[k]),
    ensures
        ({
            let before = s.pokemon@[k].id;
            let after = t.pokemon@[k].id;
            let listed = |n: PokemonName| n == PokemonName::GARGANACL || n == PokemonName::DARKRAI
                || n == PokemonName::GREATTUSK || n == PokemonName::HATTERENE
                || n == PokemonName::TORNADUSTHERIAN || n == PokemonName::DRAGONITE;
            members_among(t, 6) - members_among(s, 6) == (if listed(after) {
                1int
            } else {
                0int
            }) - (if listed(before) {
                1int
            } else {
                0int
            })
        }),
{
    lemma_members_change(s, t, k, 6);
}

proof fn lemma_members_change(s: Side, t: Side, k: int, n: int)
    requires
        0 <= k < 6,
        0 <= n <= 6,
        s.pokemon@.len() == 6,
        t.pokemon@ == s.pokemon@.update(k, t.pokemon@[k]),
    ensures
        n <= k ==> members_among(t, n) == members_among(s, n),
        n > k ==> members_among(t, n) - members_among(s,
            n) == (if place_of(t.pokemon@[k].id) is Some {
            1int
        } else {
            0int
        }) - (if place_of(s.pokemon@[k].id) is Some {
            1int
        } else {
            0int
        }),
    decreases n,
{
    if n > 0 {
        lemma_members_change(s, t, k, n - 1);
    }
}

/// The first player is taken to hold the team unless more of it stand on the second
/// player's side.
pub proof fn law_the_team_is_held_where_most_of_it_is(state: State)
    ensures
        members_among(state.side_two, 6) > members_among(state.side_one, 6) ==> team_side(state)
            == state.side_two && facing_side(state) == state.side_one,
        members_among(state.side_two, 6) <= members_among(state.side_one, 6) ==> team_side(state)
            == state.side_one && facing_side(state) == state.side_two,
{
}

/// A place on the team is out when the Pokemon of that name is, and no later slot holds
/// another one of the same name.
pub proof fn law_places_are_out_by_name(s: Side)
    requires
        s.active_index < 6,
    ensures
        place_is_out(s, 0) <==> s.active().id == PokemonName::GARGANACL && forall|k: int|
            s.active_index < k < 6 ==> (#[trigger] s.pokemon@[k]).id != PokemonName::GARGANACL,
        place_is_out(s, 1) <==> s.active().id == PokemonName::DARKRAI && forall|k: int|
            s.active_index < k < 6 ==> (#[trigger] s.pokemon@[k]).id != PokemonName::DARKRAI,
        place_is_out(s, 2) <==> s.active().id == PokemonName::GREATTUSK && forall|k: int|
            s.active_index < k < 6 ==> (#[trigger] s.pokemon@[k]).id != PokemonName::GREATTUSK,
        place_is_out(s, 3) <==> s.active().id == PokemonName::HATTERENE && forall|k: int|
            s.active_index < k < 6 ==> (#[trigger] s.pokemon@[k]).id != PokemonName::HATTERENE,
        place_is_out(s, 4) <==> s.active().id == PokemonName::TORNADUSTHERIAN && forall|k: int|
            s.active_index < k < 6
                ==> (#[trigger] s.pokemon@[k]).id != PokemonName::TORNADUSTHERIAN,
        place_is_out(s, 5) <==> s.active().id == PokemonName::DRAGONITE && forall|k: int|
            s.active_index < k < 6 ==> (#[trigger] s.pokemon@[k]).id != PokemonName::DRAGONITE,
{
    lemma_last_holder(s, 0, PokemonName::GARGANACL, 6);
    lemma_last_holder(s, 1, PokemonName::DARKRAI, 6);
    lemma_last_holder(s, 2, PokemonName::GREATTUSK, 6);
    lemma_last_holder(s, 3, PokemonName::HATTERENE, 6);
    lemma_last_holder(s, 4, PokemonName::TORNADUSTHERIAN, 6);
    lemma_last_holder(s, 5, PokemonName::DRAGONITE, 6);
}

proof fn lemma_last_holder(s: Side, place: int, name: PokemonName, n: int)
    requires
        forall|x: PokemonName| place_of(x) == Some(place) <==> x == name,
    ensures
        slot_with(s, place, n) matches Some(k) ==> 0 <= k < n && s.pokemon@[k].id == name && forall|
            j: int,
        | k < j < n ==> (#[trigger] s.pokemon@[j]).id != name,
        slot_with(s, place, n) is None ==> forall|j: int|
            0 <= j < n ==> (#[trigger] s.pokemon@[j]).id != name,
    decreases n,
{
    if n > 0 {
        lemma_last_holder(s, place, name, n - 1);
    }
}

} // verus!
