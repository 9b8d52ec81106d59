//! The second-generation evaluation.
use battle_search::gen2::evaluate::{
    evaluate, evaluate_burned, evaluate_pokemon, has_recovery_move, has_sleep_talk, threat_vs,
};
use battle_search::matchup::TypeProfile;
use battle_search::numbers::{Ratio, Score};
use battle_search::types::PokemonVolatileStatus;
use battle_search::state::{
    Choice, Field, FutureSight, Move, MoveFlags, Pokemon, Side, SideConditions, State, TypePair, Wish,
};
use battle_search::types::{
    Abilities, Choices, Items, MoveCategory, PokemonName, PokemonStatus, PokemonType, Terrain,
    Weather,
};

fn plain_choice() -> Choice {
    Choice {
        move_type: PokemonType::TYPELESS,
        category: MoveCategory::Status,
        base_power: 0,
        accuracy: 100,
        priority: 0,
        flags: MoveFlags {
            contact: false,
            slicing: false,
            bite: false,
            punch: false,
            pivot: false,
            drag: false,
        },
        status: None,
        secondaries: None,
        side_condition: None,
        heal: None,
        boost: false,
        drain: false,
    }
}

fn attack(move_type: PokemonType, category: MoveCategory, base_power: i32) -> Choice {
    Choice { move_type, category, base_power, ..plain_choice() }
}

fn slot(id: Choices, choice: Choice) -> Move {
    Move { id, disabled: false, pp: 32, choice }
}

fn empty_slot() -> Move {
    slot(Choices::NONE, plain_choice())
}

fn mon() -> Pokemon {
    Pokemon {
        id: PokemonName::OTHER,
        types: TypePair(PokemonType::NORMAL, PokemonType::TYPELESS),
        base_types: TypePair(PokemonType::NORMAL, PokemonType::TYPELESS),
        tera_type: PokemonType::NORMAL,
        terastallized: false,
        hp: 100,
        maxhp: 100,
        attack: 100,
        defense: 100,
        special_attack: 100,
        special_defense: 100,
        speed: 100,
        ability: Abilities::NONE,
        item: Items::NONE,
        status: PokemonStatus::NONE,
        sleep_turns: 0,
        rest_turns: 0,
        moves: vec![empty_slot(), empty_slot(), empty_slot(), empty_slot()],
        grounded: true,
        current_types: vec![PokemonType::NORMAL],
    }
}

fn side() -> Side {
    Side {
        active_index: 0,
        pokemon: vec![mon(), mon(), mon(), mon(), mon(), mon()],
        side_conditions: SideConditions {
            aurora_veil: 0,
            healing_wish: 0,
            light_screen: 0,
            reflect: 0,
            safeguard: 0,
            spikes: 0,
            stealth_rock: 0,
            sticky_web: 0,
            tailwind: 0,
            toxic_spikes: 0,
        },
        volatile_statuses: vec![],
        attack_boost: 0,
        defense_boost: 0,
        special_attack_boost: 0,
        special_defense_boost: 0,
        speed_boost: 0,
        accuracy_boost: 0,
        evasion_boost: 0,
        wish: Wish(0, 0),
        future_sight: FutureSight(0, 0),
        force_switch: false,
        force_trapped: false,
        slow_uturn_move: false,
        baton_passing: false,
    }
}

fn state() -> State {
    State {
        side_one: side(),
        side_two: side(),
        field: Field {
            weather: Weather::NONE,
            terrain: Terrain::NONE,
            active_terrain: Terrain::NONE,
            trick_room: false,
        },
    }
}

fn even() -> TypeProfile {
    TypeProfile { quarters: vec![4; 20] }
}

fn fraction(r: Ratio) -> f64 {
    r.num as f64 / r.den as f64
}

fn points(s: &Score) -> f64 {
    s.parts.iter().map(|r| fraction(*r)).sum()
}

fn value(s: &State) -> f64 {
    points(&evaluate(s, &even(), &even()))
}

fn near(a: f64, b: f64) -> bool {
    (a - b).abs() < 1e-6
}

fn tackle() -> Move {
    slot(Choices::TACKLE, attack(PokemonType::NORMAL, MoveCategory::Physical, 40))
}

#[test]
fn pokemon_are_worth_health_status_item_and_recovery() {
    assert!(near(fraction(evaluate_pokemon(&mon())), 160.0));
    let mut p = mon();
    p.item = Items::LEFTOVERS;
    assert!(near(fraction(evaluate_pokemon(&p)), 170.0));
    p.moves[0] = slot(Choices::REST, plain_choice());
    assert!(has_recovery_move(&p));
    assert!(near(fraction(evaluate_pokemon(&p)), 178.0));
    p.status = PokemonStatus::SLEEP;
    assert!(near(fraction(evaluate_pokemon(&p)), 153.0));
    p.moves[1] = slot(Choices::SLEEPTALK, plain_choice());
    assert!(has_sleep_talk(&p));
    assert!(near(fraction(evaluate_pokemon(&p)), 168.0));
    let mut wreck = mon();
    wreck.hp = 1;
    wreck.status = PokemonStatus::TOXIC;
    assert!(near(fraction(evaluate_pokemon(&wreck)), 60.0));
}

#[test]
fn burns_hurt_physical_attackers() {
    let mut p = mon();
    p.moves[0] = tackle();
    assert!(near(fraction(evaluate_burned(&p)), -25.0));
    p.special_attack = 120;
    assert!(near(fraction(evaluate_burned(&p)), -12.5));
}

#[test]
fn threats_are_full_when_super_effective() {
    let mut p = mon();
    p.moves[0] = tackle();
    let against = |q: u8| {
        let mut quarters = vec![4; 20];
        quarters[0] = q;
        threat_vs(&p, &TypeProfile { quarters })
    };
    let t = against(4);
    assert!(near(fraction(t.physical), 0.5) && near(fraction(t.special), 0.0));
    assert!(near(fraction(against(0).physical), 0.0));
    assert!(near(fraction(against(1).physical), 0.25));
    assert!(near(fraction(against(2).physical), 0.5));
    assert!(near(fraction(against(8).physical), 1.0));
    assert!(near(fraction(against(16).physical), 1.0));
}

#[test]
fn hopeless_matchups_and_boosts_count() {
    let mut s = state();
    assert!(near(value(&s), 0.0));
    s.side_one.pokemon[0].moves[0] = tackle();
    assert!(near(value(&s), 50.0));
    s.side_one.attack_boost = 2;
    assert!(near(value(&s), 80.0));
    s.side_one.pokemon[0].speed = 120;
    assert!(near(value(&s), 90.0));
    s.side_one.future_sight = FutureSight(1, 0);
    assert!(near(value(&s), 65.0));
    s.side_one.side_conditions.spikes = 1;
    assert!(near(value(&s), -7.0));
    s.side_one.volatile_statuses = vec![PokemonVolatileStatus::PERISH1];
    assert!(near(value(&s), -87.0));
    let mirrored = State { side_one: s.side_two.clone(), side_two: s.side_one.clone(), field: s.field };
    assert!(near(value(&mirrored), 87.0));
    let mut weak = even();
    weak.quarters[0] = 8;
    assert!(near(points(&evaluate(&s, &even(), &weak)), -47.0));
}
