//! The modern evaluation.
use battle_search::genx::active::{
    evaluate_active_volatiles, evaluate_hazards, evaluate_pending_effects, evaluate_tera_active,
    evaluate_terrain_for_active, evaluate_weather_for_active,
};
use battle_search::genx::evaluate::evaluate;
use battle_search::genx::pokemon::{
    choice_locked_into_status, choice_on_wall, evaluate_burned, evaluate_item, evaluate_poison,
    evaluate_pokemon, has_self_recovery, is_choice_item,
};
use battle_search::genx::switches::{set_stall_mode, stall_mode, EvalOff, StallMode};
use battle_search::genx::threat::{threat_ability_bp_mult, threat_eff_adjust, threat_vs};
use battle_search::matchup::TypeProfile;
use battle_search::numbers::{Ratio, Score};
use battle_search::state::{Effect, Heal, Secondary};
use battle_search::types::{MoveTarget, PokemonVolatileStatus};
use battle_search::state::{
    Choice, Field, FutureSight, Move, MoveFlags, Pokemon, Side, SideConditions, State, TypePair, Wish,
};
use battle_search::types::{
    Abilities, Choices, Items, MoveCategory, PokemonName, PokemonStatus, PokemonType, Terrain,
    Weather,
};

fn plain_choice() -> Choice {
    Choice {
        move_type: PokemonType::TYPELESS,
        category: MoveCategory::Status,
        base_power: 0,
        accuracy: 100,
        priority: 0,
        flags: MoveFlags {
            contact: false,
            slicing: false,
            bite: false,
            punch: false,
            pivot: false,
            drag: false,
        },
        status: None,
        secondaries: None,
        side_condition: None,
        heal: None,
        boost: false,
        drain: false,
    }
}

fn attack(move_type: PokemonType, category: MoveCategory, base_power: i32) -> Choice {
    Choice { move_type, category, base_power, ..plain_choice() }
}

fn slot(id: Choices, choice: Choice) -> Move {
    Move { id, disabled: false, pp: 32, choice }
}

fn empty_slot() -> Move {
    slot(Choices::NONE, plain_choice())
}

fn mon() -> Pokemon {
    Pokemon {
        id: PokemonName::OTHER,
        types: TypePair(PokemonType::NORMAL, PokemonType::TYPELESS),
        base_types: TypePair(PokemonType::NORMAL, PokemonType::TYPELESS),
        tera_type: PokemonType::NORMAL,
        terastallized: false,
        hp: 100,
        maxhp: 100,
        attack: 100,
        defense: 100,
        special_attack: 100,
        special_defense: 100,
        speed: 100,
        ability: Abilities::NONE,
        item: Items::NONE,
        status: PokemonStatus::NONE,
        sleep_turns: 0,
        rest_turns: 0,
        moves: vec![empty_slot(), empty_slot(), empty_slot(), empty_slot()],
        grounded: true,
        current_types: vec![PokemonType::NORMAL],
    }
}

fn side() -> Side {
    Side {
        active_index: 0,
        pokemon: vec![mon(), mon(), mon(), mon(), mon(), mon()],
        side_conditions: SideConditions {
            aurora_veil: 0,
            healing_wish: 0,
            light_screen: 0,
            reflect: 0,
            safeguard: 0,
            spikes: 0,
            stealth_rock: 0,
            sticky_web: 0,
            tailwind: 0,
            toxic_spikes: 0,
        },
        volatile_statuses: vec![],
        attack_boost: 0,
        defense_boost: 0,
        special_attack_boost: 0,
        special_defense_boost: 0,
        speed_boost: 0,
        accuracy_boost: 0,
        evasion_boost: 0,
        wish: Wish(0, 0),
        future_sight: FutureSight(0, 0),
        force_switch: false,
        force_trapped: false,
        slow_uturn_move: false,
        baton_passing: false,
    }
}

fn state() -> State {
    State {
        side_one: side(),
        side_two: side(),
        field: Field {
            weather: Weather::NONE,
            terrain: Terrain::NONE,
            active_terrain: Terrain::NONE,
            trick_room: false,
        },
    }
}

fn even() -> TypeProfile {
    TypeProfile { quarters: vec![4; 20] }
}

fn fraction(r: Ratio) -> f64 {
    r.num as f64 / r.den as f64
}

fn points(s: &Score) -> f64 {
    s.parts.iter().map(|r| fraction(*r)).sum()
}

fn normal() -> EvalOff {
    EvalOff::from_spec(false, "", "")
}

fn value(s: &State) -> f64 {
    points(&evaluate(s, &even(), &even(), &normal(), &StallMode::new()))
}

fn near(a: f64, b: f64) -> bool {
    (a - b).abs() < 1e-6
}

#[test]
fn threat_ability_mults_match_real_pipeline() {
    let contact = |mut c: Choice| {
        c.flags.contact = true;
        c
    };
    let bullet_punch = contact(attack(PokemonType::STEEL, MoveCategory::Physical, 40));
    let close_combat = contact(attack(PokemonType::FIGHTING, MoveCategory::Physical, 120));
    let shadow_ball = attack(PokemonType::GHOST, MoveCategory::Special, 80);
    let mut leaf_blade = attack(PokemonType::GRASS, MoveCategory::Physical, 90);
    leaf_blade.flags.slicing = true;
    let mut crunch = attack(PokemonType::DARK, MoveCategory::Physical, 80);
    crunch.flags.bite = true;
    let mut drain_punch = attack(PokemonType::FIGHTING, MoveCategory::Physical, 75);
    drain_punch.flags.punch = true;
    let mut iron_head = attack(PokemonType::STEEL, MoveCategory::Physical, 80);
    iron_head.secondaries = Some(vec![Secondary { effect: Effect::Other }]);
    let cases = [
        (Abilities::TECHNICIAN, &bullet_punch, 15),
        (Abilities::TECHNICIAN, &close_combat, 10),
        (Abilities::TOUGHCLAWS, &close_combat, 13),
        (Abilities::TOUGHCLAWS, &shadow_ball, 10),
        (Abilities::SHARPNESS, &leaf_blade, 15),
        (Abilities::STRONGJAW, &crunch, 15),
        (Abilities::IRONFIST, &drain_punch, 12),
        (Abilities::SHEERFORCE, &iron_head, 13),
        (Abilities::HUGEPOWER, &close_combat, 20),
        (Abilities::PUREPOWER, &shadow_ball, 10),
    ];
    for (ability, choice, tenths) in cases {
        assert_eq!(threat_ability_bp_mult(ability, choice), tenths, "{:?}", ability);
    }
    let eff_cases = [
        (Abilities::TINTEDLENS, 2, 8),
        (Abilities::TINTEDLENS, 8, 4),
        (Abilities::NEUROFORCE, 8, 5),
        (Abilities::NEUROFORCE, 2, 4),
    ];
    for (ability, quarters, expected) in eff_cases {
        assert_eq!(threat_eff_adjust(ability, quarters), expected, "{:?}", ability);
    }
}

#[test]
fn from_spec_parses_list_and_all() {
    let off = EvalOff::from_spec(false, "hazards, HOPELESS", "");
    assert!(off.hazards && off.hopeless);
    assert!(!off.threat && !off.items && !off.tera && !off.speedtier);
    assert!(!off.poisonheal && !off.pp);
    let all = EvalOff::from_spec(true, "", "threatv2");
    assert!(
        all.hazards && all.items && all.volatiles && all.threat && all.tera && all.pending
            && all.weather && all.terrain && all.hopeless && all.speedtier && all.poisonheal
            && all.pp
    );
    assert!(all.synergy && all.threatv2);
    let none = EvalOff::from_spec(false, "", "");
    assert!(!none.synergy && !none.locks && none.threatv2);
    assert!(!none.hazards && !none.hopeless && !none.volatiles);
    let sy_off = EvalOff::from_spec(false, "synergy,locks", "THREATV2");
    assert!(sy_off.synergy && sy_off.locks && !sy_off.threatv2 && !sy_off.hazards);
    let ph = EvalOff::from_spec(false, "poisonheal,pp", "");
    assert!(ph.poisonheal && ph.pp && !ph.hazards && !ph.synergy);
    assert!(!ph.baseline && EvalOff::from_spec(true, "", "").baseline);
}

#[test]
fn choice_lock_into_status_is_penalized() {
    let mut s = state();
    {
        let active = &mut s.side_one.pokemon[0];
        active.item = Items::CHOICESCARF;
        active.moves[0] = slot(Choices::THUNDERWAVE, plain_choice());
        active.moves[0].pp = 10;
        active.moves[1] = slot(
            Choices::SLUDGEBOMB,
            attack(PokemonType::POISON, MoveCategory::Special, 90),
        );
        active.moves[1].pp = 10;
        active.moves[1].disabled = true;
    }
    assert!(choice_locked_into_status(&s.side_one.pokemon[0]));
    s.side_one.pokemon[0].moves[1].disabled = false;
    assert!(!choice_locked_into_status(&s.side_one.pokemon[0]));
}

#[test]
fn unaware_active_zeroes_damage_boost_credit() {
    let mut s = state();
    s.side_one.defense_boost = 2;
    s.side_one.pokemon[0].ability = Abilities::TORRENT;
    s.side_two.pokemon[0].ability = Abilities::TORRENT;
    let credited = value(&s);
    s.side_two.pokemon[0].ability = Abilities::UNAWARE;
    let negated = value(&s);
    assert!(credited > negated, "{} !> {}", credited, negated);
    s.side_one.pokemon[0].ability = Abilities::MOLDBREAKER;
    let moldbroken = value(&s);
    assert!((moldbroken - credited).abs() < 0.5, "{} vs {}", moldbroken, credited);
}

#[test]
fn supreme_overlord_scales_threat_with_fallen_allies() {
    let eval_with = |ability: Abilities, faint_two: bool| -> f64 {
        let mut s = state();
        s.side_one.attack_boost = 2;
        s.side_one.pokemon[0].ability = ability;
        s.side_one.pokemon[0].moves[0] = slot(
            Choices::TACKLE,
            attack(PokemonType::NORMAL, MoveCategory::Physical, 40),
        );
        s.side_two.pokemon[0].maxhp = 400;
        s.side_two.pokemon[0].hp = 400;
        s.side_two.pokemon[0].defense = 300;
        if faint_two {
            s.side_one.pokemon[1].hp = 0;
            s.side_one.pokemon[2].hp = 0;
        }
        value(&s)
    };
    let d_fresh = eval_with(Abilities::SUPREMEOVERLORD, false) - eval_with(Abilities::TORRENT, false);
    let d_loaded = eval_with(Abilities::SUPREMEOVERLORD, true) - eval_with(Abilities::TORRENT, true);
    assert!(d_loaded > d_fresh + 0.5, "loaded {} fresh {}", d_loaded, d_fresh);
}

#[test]
fn trick_room_flips_speed_boost_credit() {
    let mut s = state();
    s.side_one.speed_boost = 2;
    let normal = value(&s);
    s.field.trick_room = true;
    let under_tr = value(&s);
    assert!(normal > under_tr, "{} vs {}", normal, under_tr);
}

#[test]
fn choice_item_on_wall_is_a_liability_unless_trick() {
    let mut s = state();
    {
        let active = &mut s.side_one.pokemon[0];
        active.moves[0] = slot(Choices::THUNDERWAVE, plain_choice());
        active.moves[1] = slot(Choices::STEALTHROCK, plain_choice());
        active.moves[2] = slot(
            Choices::SLUDGEBOMB,
            attack(PokemonType::POISON, MoveCategory::Special, 90),
        );
        for m in active.moves.iter_mut().take(3) {
            m.pp = 10;
        }
        active.item = Items::CHOICESCARF;
    }
    assert!(choice_on_wall(&s.side_one.pokemon[0]));
    s.side_one.pokemon[0].item = Items::LEFTOVERS;
    assert!(!choice_on_wall(&s.side_one.pokemon[0]));
    s.side_one.pokemon[0].item = Items::CHOICESCARF;
    s.side_one.pokemon[0].moves[3] = slot(Choices::TRICK, plain_choice());
    s.side_one.pokemon[0].moves[3].pp = 10;
    assert!(!choice_on_wall(&s.side_one.pokemon[0]));
}

#[test]
fn stall_mode_flag_round_trips() {
    let mut mode = StallMode::new();
    assert!(!stall_mode(&mode));
    set_stall_mode(&mut mode, true);
    assert!(stall_mode(&mode));
    set_stall_mode(&mut mode, false);
    assert!(!stall_mode(&mode));
}

#[test]
fn baseline_is_asked_for_by_one_or_true() {
    assert!(EvalOff::asks_for_baseline("1"));
    assert!(EvalOff::asks_for_baseline("TRUE"));
    assert!(EvalOff::asks_for_baseline("true"));
    assert!(!EvalOff::asks_for_baseline("0"));
    assert!(!EvalOff::asks_for_baseline(""));
}

#[test]
fn equal_sides_are_worth_nothing() {
    assert!(near(value(&state()), 0.0));
}

#[test]
fn mirrored_position_has_the_opposite_value() {
    let mut s = state();
    s.side_one.pokemon[1].hp = 40;
    s.side_one.attack_boost = 3;
    s.side_two.side_conditions.stealth_rock = 1;
    s.side_two.pokemon[0].status = PokemonStatus::TOXIC;
    let seen = value(&s);
    let mirrored = State { side_one: s.side_two.clone(), side_two: s.side_one.clone(), field: s.field };
    assert!(!near(seen, 0.0));
    assert!(near(seen, -value(&mirrored)));
}

#[test]
fn standing_pokemon_is_worth_its_health_and_being_alive() {
    assert!(near(fraction(evaluate_pokemon(&mon(), &normal(), false)), 130.0));
    let mut half = mon();
    half.hp = 50;
    assert!(near(fraction(evaluate_pokemon(&half, &normal(), false)), 80.0));
    let mut wreck = mon();
    wreck.hp = 1;
    wreck.status = PokemonStatus::FREEZE;
    assert!(near(fraction(evaluate_pokemon(&wreck, &normal(), false)), 30.0));
}

#[test]
fn burn_costs_by_physical_moves() {
    let mut p = mon();
    p.moves[0] = slot(Choices::TACKLE, attack(PokemonType::NORMAL, MoveCategory::Physical, 40));
    p.moves[1] = slot(Choices::TACKLE, attack(PokemonType::NORMAL, MoveCategory::Physical, 40));
    assert!(near(fraction(evaluate_burned(&p, &normal())), -50.0));
    p.special_attack = 101;
    assert!(near(fraction(evaluate_burned(&p, &normal())), -25.0));
}

#[test]
fn poison_is_priced_by_ability() {
    let mut p = mon();
    assert_eq!(evaluate_poison(&p, -30, &normal()), -30);
    p.ability = Abilities::POISONHEAL;
    assert_eq!(evaluate_poison(&p, -30, &normal()), 35);
    assert_eq!(evaluate_poison(&p, -30, &EvalOff::from_spec(false, "poisonheal", "")), 15);
}

#[test]
fn items_have_prices() {
    assert_eq!(evaluate_item(Items::NONE), 0);
    assert_eq!(evaluate_item(Items::CHOICESCARF), 13);
    assert!(is_choice_item(Items::CHOICEBAND));
    assert!(!is_choice_item(Items::LIFEORB));
}

#[test]
fn recovery_moves_are_recognized() {
    let mut p = mon();
    assert!(!has_self_recovery(&p));
    let mut heal = plain_choice();
    heal.heal = Some(Heal { target: MoveTarget::User });
    p.moves[2] = slot(Choices::RECOVER, heal);
    assert!(has_self_recovery(&p));
}

#[test]
fn hazards_spare_boots() {
    let mut s = side();
    s.side_conditions.stealth_rock = 1;
    s.side_conditions.spikes = 2;
    let barefoot = evaluate_hazards(&mon(), &s, &normal());
    assert!(barefoot < 0);
    let mut booted = mon();
    booted.item = Items::HEAVYDUTYBOOTS;
    assert_eq!(evaluate_hazards(&booted, &s, &normal()), 0);
}

#[test]
fn volatiles_and_pending_effects_add_up() {
    let mut s = side();
    s.volatile_statuses = vec![PokemonVolatileStatus::SUBSTITUTE, PokemonVolatileStatus::LEECHSEED];
    assert_eq!(evaluate_active_volatiles(&mon(), &s, &normal()), 10);
    assert_eq!(evaluate_pending_effects(&s), 0);
    s.future_sight = FutureSight(2, 0);
    assert!(evaluate_pending_effects(&s) > 0);
}

#[test]
fn sky_matters_to_those_it_suits() {
    let mut p = mon();
    assert_eq!(evaluate_weather_for_active(&p, Weather::NONE, false), 0);
    p.ability = Abilities::CHLOROPHYLL;
    let sunny = evaluate_weather_for_active(&p, Weather::SUN, false);
    assert!(sunny > evaluate_weather_for_active(&p, Weather::SUN, true));
    p.grounded = false;
    assert_eq!(evaluate_terrain_for_active(&p, Terrain::GRASSYTERRAIN, false), 0);
}

#[test]
fn tera_counts_only_when_used() {
    assert_eq!(evaluate_tera_active(&mon(), &even()), 0);
}

#[test]
fn threat_of_a_plain_attack() {
    let mut attacker = mon();
    attacker.types = TypePair(PokemonType::FIRE, PokemonType::TYPELESS);
    attacker.moves[0] = slot(
        Choices::TACKLE,
        attack(PokemonType::NORMAL, MoveCategory::Physical, 40),
    );
    let mut wall = mon();
    wall.hp = 400;
    wall.maxhp = 400;
    wall.defense = 300;
    let t = threat_vs(&attacker, &wall, &even(), 0, &normal());
    assert_eq!(t.special.num, 0);
    assert!(t.physical.num > 0 && t.physical.num <= t.physical.den);
    let loaded = threat_vs(&attacker, &wall, &even(), 2, &normal());
    assert_eq!(fraction(t.physical), fraction(loaded.physical));
    attacker.ability = Abilities::SUPREMEOVERLORD;
    let loaded = threat_vs(&attacker, &wall, &even(), 2, &normal());
    assert!(near(fraction(loaded.physical), 1.2 * fraction(t.physical)));
}

#[test]
fn immune_target_is_no_target() {
    let mut attacker = mon();
    attacker.moves[0] = slot(
        Choices::TACKLE,
        attack(PokemonType::NORMAL, MoveCategory::Physical, 40),
    );
    let immune = TypeProfile { quarters: vec![0; 20] };
    let t = threat_vs(&attacker, &mon(), &immune, 0, &normal());
    assert_eq!(t.physical.num, 0);
    assert_eq!(t.special.num, 0);
}

#[test]
fn baseline_ignores_the_stall_mode() {
    let mut s = state();
    s.side_one.pokemon[0].status = PokemonStatus::POISON;
    s.side_two.side_conditions.spikes = 3;
    let all = EvalOff::from_spec(true, "", "");
    let mut mode = StallMode::new();
    let calm = points(&evaluate(&s, &even(), &even(), &all, &mode));
    set_stall_mode(&mut mode, true);
    let stalled = points(&evaluate(&s, &even(), &even(), &all, &mode));
    assert!(near(calm, stalled));
}

#[test]
fn choice_lock_costs_thirty_five_points() {
    let mut s = state();
    {
        let active = &mut s.side_one.pokemon[0];
        active.item = Items::CHOICESCARF;
        active.moves[0] = slot(Choices::THUNDERWAVE, plain_choice());
        active.moves[1] = slot(
            Choices::SLUDGEBOMB,
            attack(PokemonType::POISON, MoveCategory::Special, 90),
        );
    }
    let free = value(&s);
    s.side_one.pokemon[0].moves[1].disabled = true;
    assert!(near(value(&s), free - 35.0));
    let off = EvalOff::from_spec(false, "locks", "");
    let unpriced = points(&evaluate(&s, &even(), &even(), &off, &StallMode::new()));
    assert!(near(unpriced, free));
}

#[test]
fn stall_mode_doubles_the_recovery_tax() {
    let mut heal = plain_choice();
    heal.heal = Some(Heal { target: MoveTarget::User });
    let mut p = mon();
    p.moves[0] = slot(Choices::RECOVER, heal);
    p.moves[0].pp = 5;
    assert!(near(fraction(evaluate_pokemon(&p, &normal(), false)), 124.0));
    assert!(near(fraction(evaluate_pokemon(&p, &normal(), true)), 118.0));
    p.moves[0].pp = 8;
    assert!(near(fraction(evaluate_pokemon(&p, &normal(), true)), 130.0));
}

#[test]
fn boosts_count_in_full_without_the_threat_group() {
    let mut s = state();
    s.side_one.attack_boost = 1;
    assert!(near(value(&s), 0.0));
    let off = EvalOff::from_spec(false, "threat", "");
    let seen = points(&evaluate(&s, &even(), &even(), &off, &StallMode::new()));
    assert!(near(seen, 30.0));
}

#[test]
fn stages_of_the_fainted_do_not_matter() {
    let mut s = state();
    s.side_one.pokemon[0].hp = 0;
    let plain = value(&s);
    s.side_one.attack_boost = 9;
    s.side_one.speed_boost = -9;
    assert!(near(value(&s), plain));
}

#[test]
fn every_counted_recovery_use_has_its_price() {
    let mut heal = plain_choice();
    heal.heal = Some(Heal { target: MoveTarget::User });
    let mut p = mon();
    p.moves[1] = slot(Choices::RECOVER, heal);
    for (pp, gone) in [(32, 0.0), (8, 0.0), (7, 1.0), (3, 5.0), (0, 8.0)] {
        p.moves[1].pp = pp;
        let calm = fraction(evaluate_pokemon(&p, &normal(), false));
        let stall = fraction(evaluate_pokemon(&p, &normal(), true));
        assert!(near(calm, 130.0 - 2.0 * gone) && near(stall, 130.0 - 4.0 * gone));
    }
}
