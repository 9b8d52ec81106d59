//! A choice lock costs what it is priced at, and nothing else.
#[allow(unused_imports)]
use crate::genx::active::{tera_points, volatiles_total};
#[allow(unused_imports)]
use crate::genx::evaluate::{
    active_value, bench_value, boost_value, boosts_ignored, position_value, pressure, seat_value,
    speed_value, used_tera, Pressure, CHOICE_LOCKED_STATUS,
};
#[allow(unused_imports)]
use crate::genx::pokemon::{
    burn_points, can_recover, locked_into_status, missing_recovery, pokemon_value,
    recovery_move, recovery_tax, sleep_talk_points, status_move, status_points, wall_points,
    wall_with_choice_item,
};
#[allow(unused_imports)]
use crate::genx::switches::EvalOff;
#[allow(unused_imports)]
use crate::genx::threat::{best_threat, damage, has_status_option, hit_threat};
#[allow(unused_imports)]
use crate::matchup::TypeProfile;
#[allow(unused_imports)]
use crate::state::{fainted_among, physical_count, Field, Pokemon, Side, State, TEAM_SIZE};
#[allow(unused_imports)]
use crate::types::{Choices, MoveCategory, PokemonVolatileStatus};
use vstd::prelude::*;

verus! {

/// Two Pokemon that differ in which moves are disabled, at most.
pub open spec fn same_but_for_locks(a: Pokemon, b: Pokemon) -> bool {
    &&& b == (Pokemon { moves: b.moves, ..a })
    &&& a.moves@.len() == b.moves@.len()
    &&& forall|i: int|
        #![trigger a.moves@[i]]
        #![trigger b.moves@[i]]
        0 <= i < a.moves@.len() ==> a.moves@[i].id == b.moves@[i].id && a.moves@[i].pp
            == b.moves@[i].pp && a.moves@[i].choice == b.moves@[i].choice
}

/// Two sides that differ in which moves of the active Pokemon are disabled, at most.
pub open spec fn sides_same_but_for_locks(s: Side, t: Side) -> bool {
    &&& t == (Side { pokemon: t.pokemon, ..s })
    &&& s.pokemon@.len() == t.pokemon@.len()
    &&& forall|k: int|
        #![trigger s.pokemon@[k]]
        #![trigger t.pokemon@[k]]
        0 <= k < s.pokemon@.len() ==> same_but_for_locks(s.pokemon@[k], t.pokemon@[k])
}

proof fn lemma_counts(a: Pokemon, b: Pokemon, n: int)
    requires
        same_but_for_locks(a, b),
        0 <= n <= a.moves@.len(),
    ensures
        physical_count(a.moves@, n) == physical_count(b.moves@, n),
        missing_recovery(a.moves@, n) == missing_recovery(b.moves@, n),
    decreases n,
{
    if n > 0 {
        lemma_counts(a, b, n - 1);
        assert(a.moves@[n - 1].id == b.moves@[n - 1].id);
    }
}

/// What holds of a move of the one holds of the same move of the other.
proof fn lemma_traits(a: Pokemon, b: Pokemon)
    requires
        same_but_for_locks(a, b),
    ensures
        can_recover(a) ==> can_recover(b),
        wall_with_choice_item(a) ==> wall_with_choice_item(b),
        sleep_talk_points(a) == sleep_talk_points(b),
        has_status_option(a) ==> has_status_option(b),
{
    if can_recover(a) {
        let i = choose|i: int| 0 <= i < a.moves@.len() && recovery_move(#[trigger] a.moves@[i]);
        assert(recovery_move(b.moves@[i]));
    }
    if wall_with_choice_item(a) {
        let (i, j) = choose|i: int, j: int|
            0 <= i < j < a.moves@.len() && status_move(#[trigger] a.moves@[i]) && status_move(
                #[trigger] a.moves@[j],
            );
        assert(status_move(b.moves@[i]) && status_move(b.moves@[j]));
    }
    if has_status_option(a) {
        let i = choose|i: int|
            0 <= i < a.moves@.len() && (#[trigger] a.moves@[i]).id != Choices::NONE
                && a.moves@[i].choice.category == MoveCategory::Status;
        assert(b.moves@[i].id != Choices::NONE);
    }
    if exists|i: int|
        0 <= i < a.moves@.len() && (#[trigger] a.moves@[i]).id == Choices::SLEEPTALK
            && a.moves@[i].pp > 0 {
        let i = choose|i: int|
            0 <= i < a.moves@.len() && (#[trigger] a.moves@[i]).id == Choices::SLEEPTALK
                && a.moves@[i].pp > 0;
        assert(b.moves@[i].id == Choices::SLEEPTALK && b.moves@[i].pp > 0);
    }
    if exists|i: int|
        0 <= i < b.moves@.len() && (#[trigger] b.moves@[i]).id == Choices::SLEEPTALK
            && b.moves@[i].pp > 0 {
        let i = choose|i: int|
            0 <= i < b.moves@.len() && (#[trigger] b.moves@[i]).id == Choices::SLEEPTALK
                && b.moves@[i].pp > 0;
        assert(a.moves@[i].id == Choices::SLEEPTALK && a.moves@[i].pp > 0);
    }
}

proof fn lemma_symmetric(a: Pokemon, b: Pokemon)
    requires
        same_but_for_locks(a, b),
    ensures
        same_but_for_locks(b, a),
{
}

proof fn lemma_pokemon_value(a: Pokemon, b: Pokemon, off: EvalOff, stall: bool)
    requires
        same_but_for_locks(a, b),
    ensures
        pokemon_value(a, off, stall) == pokemon_value(b, off, stall),
{
    lemma_symmetric(a, b);
    lemma_traits(a, b);
    lemma_traits(b, a);
    lemma_counts(a, b, a.moves@.len() as int);
    assert(burn_points(a, off) == burn_points(b, off));
    assert(status_points(a, off, stall) == status_points(b, off, stall));
    assert(recovery_tax(a, off, stall) == recovery_tax(b, off, stall));
    assert(wall_points(a, off) == wall_points(b, off));
}

proof fn lemma_best_threat(
    a: Pokemon,
    b: Pokemon,
    d: Pokemon,
    profile: TypeProfile,
    fainted: int,
    off: EvalOff,
    category: MoveCategory,
    n: int,
)
    requires
        same_but_for_locks(a, b),
        0 <= n <= a.moves@.len(),
    ensures
        best_threat(a, d, profile, fainted, off, category, n) == best_threat(
            b,
            d,
            profile,
            fainted,
            off,
            category,
            n,
        ),
    decreases n,
{
    if n > 0 {
        lemma_best_threat(a, b, d, profile, fainted, off, category, n - 1);
        let m = a.moves@[n - 1];
        let w = b.moves@[n - 1];
        assert(m.id == w.id && m.choice == w.choice);
        let q = profile.against(m.choice.move_type);
        assert(damage(a, d, m, q, fainted, off) == damage(b, d, w, q, fainted, off));
        assert(hit_threat(a, d, m, q, fainted, off) == hit_threat(b, d, w, q, fainted, off));
    }
}

/// A defender's own moves do not matter to the attacker.
proof fn lemma_defender(
    a: Pokemon,
    d: Pokemon,
    e: Pokemon,
    profile: TypeProfile,
    fainted: int,
    off: EvalOff,
    category: MoveCategory,
    n: int,
)
    requires
        same_but_for_locks(d, e),
    ensures
        best_threat(a, d, profile, fainted, off, category, n) == best_threat(
            a,
            e,
            profile,
            fainted,
            off,
            category,
            n,
        ),
    decreases n,
{
    if n > 0 {
        lemma_defender(a, d, e, profile, fainted, off, category, n - 1);
        let m = a.moves@[n - 1];
        let q = profile.against(m.choice.move_type);
        assert(damage(a, d, m, q, fainted, off) == damage(a, e, m, q, fainted, off));
        assert(hit_threat(a, d, m, q, fainted, off) == hit_threat(a, e, m, q, fainted, off));
    }
}

proof fn lemma_fainted(s: Side, t: Side, n: int)
    requires
        sides_same_but_for_locks(s, t),
        0 <= n <= s.pokemon@.len(),
    ensures
        fainted_among(s.pokemon@, n) == fainted_among(t.pokemon@, n),
    decreases n,
{
    if n > 0 {
        lemma_fainted(s, t, n - 1);
        assert(same_but_for_locks(s.pokemon@[n - 1], t.pokemon@[n - 1]));
    }
}

proof fn lemma_bench(s: Side, t: Side, off: EvalOff, stall: bool, n: int)
    requires
        sides_same_but_for_locks(s, t),
        0 <= n <= s.pokemon@.len(),
    ensures
        bench_value(s, off, stall, n) == bench_value(t, off, stall, n),
    decreases n,
{
    if n > 0 {
        lemma_bench(s, t, off, stall, n - 1);
        let a = s.pokemon@[n - 1];
        let b = t.pokemon@[n - 1];
        assert(same_but_for_locks(a, b));
        lemma_pokemon_value(a, b, off, stall);
    }
}

proof fn lemma_volatiles(
    list: Seq<PokemonVolatileStatus>,
    a: Pokemon,
    b: Pokemon,
    off: EvalOff,
)
    requires
        same_but_for_locks(a, b),
    ensures
        volatiles_total(list, a, off) == volatiles_total(list, b, off),
    decreases list.len(),
{
    if list.len() > 0 {
        lemma_volatiles(list.drop_last(), a, b, off);
    }
}

proof fn lemma_tera(a: Pokemon, b: Pokemon, profile: TypeProfile)
    requires
        same_but_for_locks(a, b),
    ensures
        tera_points(a, profile) == tera_points(b, profile),
{
    let strong = |p: Pokemon|
        exists|i: int|
            0 <= i < p.moves@.len() && (#[trigger] p.moves@[i]).choice.move_type == p.tera_type
                && p.moves@[i].choice.category != MoveCategory::Status;
    if strong(a) {
        let i = choose|i: int|
            0 <= i < a.moves@.len() && (#[trigger] a.moves@[i]).choice.move_type == a.tera_type
                && a.moves@[i].choice.category != MoveCategory::Status;
        assert(b.moves@[i].choice.move_type == b.tera_type);
    }
    if strong(b) {
        let i = choose|i: int|
            0 <= i < b.moves@.len() && (#[trigger] b.moves@[i]).choice.move_type == b.tera_type
                && b.moves@[i].choice.category != MoveCategory::Status;
        assert(a.moves@[i].choice.move_type == a.tera_type);
    }
}

proof fn lemma_used_tera(s: Side, t: Side)
    requires
        sides_same_but_for_locks(s, t),
        s.pokemon@.len() == TEAM_SIZE,
    ensures
        used_tera(s) == used_tera(t),
{
    if used_tera(s) {
        let i = choose|i: int| 0 <= i < TEAM_SIZE && (#[trigger] s.pokemon@[i]).terastallized;
        assert(same_but_for_locks(s.pokemon@[i], t.pokemon@[i]));
        assert(t.pokemon@[i].terastallized);
    }
    if used_tera(t) {
        let i = choose|i: int| 0 <= i < TEAM_SIZE && (#[trigger] t.pokemon@[i]).terastallized;
        assert(same_but_for_locks(s.pokemon@[i], t.pokemon@[i]));
        assert(s.pokemon@[i].terastallized);
    }
}

proof fn lemma_pressure(s: Side, t: Side, foe: Side, profile: TypeProfile, off: EvalOff)
    requires
        s.wf(),
        sides_same_but_for_locks(s, t),
    ensures
        pressure(s, foe, profile, off) == pressure(t, foe, profile, off),
        forall|p: TypeProfile| #[trigger] pressure(foe, s, p, off) == pressure(foe, t, p, off),
{
    let a = s.active();
    let b = t.active();
    assert(same_but_for_locks(a, b));
    lemma_symmetric(a, b);
    lemma_traits(a, b);
    lemma_traits(b, a);
    lemma_fainted(s, t, TEAM_SIZE as int);
    let f = fainted_among(s.pokemon@, TEAM_SIZE as int);
    let n = a.moves@.len() as int;
    lemma_best_threat(a, b, foe.active(), profile, f, off, MoveCategory::Physical, n);
    lemma_best_threat(a, b, foe.active(), profile, f, off, MoveCategory::Special, n);
    let c = foe.active();
    let g = fainted_among(foe.pokemon@, TEAM_SIZE as int);
    assert forall|p: TypeProfile| #[trigger]
        pressure(foe, s, p, off) == pressure(foe, t, p, off) by {
        let m = c.moves@.len() as int;
        lemma_defender(c, a, b, p, g, off, MoveCategory::Physical, m);
        lemma_defender(c, a, b, p, g, off, MoveCategory::Special, m);
    }
}

/// What the lock costs its own player.
proof fn lemma_own_seat(
    s: Side,
    t: Side,
    foe: Side,
    one: TypeProfile,
    two: TypeProfile,
    field: Field,
    off: EvalOff,
    stall: bool,
)
    requires
        s.wf(),
        sides_same_but_for_locks(s, t),
        s.active().hp > 0,
        locked_into_status(s.active()),
        !locked_into_status(t.active()),
    ensures
        seat_value(s, foe, one, two, field, off, stall) == seat_value(
            t,
            foe,
            one,
            two,
            field,
            off,
            stall,
        ) + if off.locks {
            0 as real
        } else {
            CHOICE_LOCKED_STATUS as real
        },
{
    let a = s.active();
    let b = t.active();
    let tr = field.trick_room;
    assert(same_but_for_locks(a, b));
    lemma_pressure(s, t, foe, two, off);
    let p = pressure(s, foe, two, off);
    lemma_bench(s, t, off, stall, TEAM_SIZE as int);
    lemma_used_tera(s, t);
    lemma_active(s, t, foe, one, p, tr, off);
    assert(speed_value(s, foe, p, tr, off) == speed_value(t, foe, p, tr, off));
}

proof fn lemma_active(
    s: Side,
    t: Side,
    foe: Side,
    one: TypeProfile,
    p: Pressure,
    tr: bool,
    off: EvalOff,
)
    requires
        s.wf(),
        sides_same_but_for_locks(s, t),
        locked_into_status(s.active()),
        !locked_into_status(t.active()),
    ensures
        active_value(s, foe, one, p, tr, off) == active_value(t, foe, one, p, tr, off)
            + if off.locks {
            0 as real
        } else {
            CHOICE_LOCKED_STATUS as real
        },
{
    let a = s.active();
    let b = t.active();
    assert(same_but_for_locks(a, b));
    lemma_volatiles(s.volatile_statuses@, a, b, off);
    lemma_tera(a, b, one);
    let ignored = boosts_ignored(s, foe, off);
    assert(boosts_ignored(t, foe, off) == ignored);
    assert(boost_value(s, p, ignored, tr) == boost_value(t, p, ignored, tr));
}

/// The lock is nothing to the other player.
proof fn lemma_foe_seat(
    s: Side,
    t: Side,
    foe: Side,
    one: TypeProfile,
    two: TypeProfile,
    field: Field,
    off: EvalOff,
    stall: bool,
)
    requires
        s.wf(),
        sides_same_but_for_locks(s, t),
    ensures
        seat_value(foe, s, two, one, field, off, stall) == seat_value(
            foe,
            t,
            two,
            one,
            field,
            off,
            stall,
        ),
{
    let tr = field.trick_room;
    assert(same_but_for_locks(s.active(), t.active()));
    lemma_pressure(s, t, foe, two, off);
    let r = pressure(foe, s, one, off);
    assert(pressure(foe, t, one, off) == r);
    assert(boosts_ignored(foe, s, off) == boosts_ignored(foe, t, off));
    assert(active_value(foe, s, two, r, tr, off) == active_value(foe, t, two, r, tr, off));
    assert(speed_value(foe, s, r, tr, off) == speed_value(foe, t, r, tr, off));
}

/// A choice lock into status moves costs the active Pokemon's player exactly its
/// price of 35 points: the same position without the lock is worth that much more.
pub proof fn law_choice_lock_costs_its_price(
    state: State,
    free: State,
    one: TypeProfile,
    two: TypeProfile,
    off: EvalOff,
    stall: bool,
)
    requires
        state.side_one.wf(),
        sides_same_but_for_locks(state.side_one, free.side_one),
        free.side_two == state.side_two,
        free.field == state.field,
        state.side_one.active().hp > 0,
        locked_into_status(state.side_one.active()),
        !locked_into_status(free.side_one.active()),
    ensures
        !off.locks ==> position_value(state, one, two, off, stall) == position_value(
            free,
            one,
            two,
            off,
            stall,
        ) - 35 as real,
        off.locks ==> position_value(state, one, two, off, stall) == position_value(
            free,
            one,
            two,
            off,
            stall,
        ),
{
    let field = state.field;
    lemma_own_seat(state.side_one, free.side_one, state.side_two, one, two, field, off, stall);
    lemma_foe_seat(state.side_one, free.side_one, state.side_two, one, two, field, off, stall);
}

} // verus!
