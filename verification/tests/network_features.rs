//! What the networks read, and what becomes of their answers.
use battle_search::numbers::Ratio;
use battle_search::policy::bulky::{
    bo_type_index_18, count_bo_mons, defensive_blocks_salt_cure, detect_bo_side,
    extract_features_bo, is_fire_steel_wall, is_strong_priority_user, is_trick_item_user,
    item_flag_idx, opp_role_of, STATE_BO_FEATURES,
};
use battle_search::policy::chart::{
    atk_type_index, is_physical_type, type_effectiveness, type_index,
};
use battle_search::policy::material::{is_material, LoadError, MaterialNet};
use battle_search::policy::moves::{MoveEntry, MoveTable};
use battle_search::policy::priors::{map_priors_to_options, shares_of, UNRATED};
use battle_search::policy::v2::{apply_boost, extract_features, STATE_FEATURES};
use battle_search::policy::v3::{
    extract_features_v3, extract_move_features_v3, is_hazard_remover, name_of_move,
    pokemon_features_v3, pokemon_features_v3_core, N_MOVE_FEATURES, STATE_V3_FEATURES,
};
use battle_search::policy::value::{batch_features, features_for, input_dim};
use battle_search::state::{Effect, MoveChoice, Secondary, SideConditionEffect, StatusEffect};
use battle_search::types::{PokemonSideCondition, PokemonVolatileStatus};
use battle_search::state::{
    Choice, Field, FutureSight, Move, MoveFlags, Pokemon, Side, SideConditions, State, TypePair, Wish,
};
use battle_search::types::{
    Abilities, Choices, Items, MoveCategory, PokemonName, PokemonStatus, PokemonType, Terrain,
    Weather,
};

fn plain_choice() -> Choice {
    Choice {
        move_type: PokemonType::TYPELESS,
        category: MoveCategory::Status,
        base_power: 0,
        accuracy: 100,
        priority: 0,
        flags: MoveFlags {
            contact: false,
            slicing: false,
            bite: false,
            punch: false,
            pivot: false,
            drag: false,
        },
        status: None,
        secondaries: None,
        side_condition: None,
        heal: None,
        boost: false,
        drain: false,
    }
}

fn attack(move_type: PokemonType, category: MoveCategory, base_power: i32) -> Choice {
    Choice { move_type, category, base_power, ..plain_choice() }
}

fn slot(id: Choices, choice: Choice) -> Move {
    Move { id, disabled: false, pp: 32, choice }
}

fn empty_slot() -> Move {
    slot(Choices::NONE, plain_choice())
}

fn mon() -> Pokemon {
    Pokemon {
        id: PokemonName::OTHER,
        types: TypePair(PokemonType::NORMAL, PokemonType::TYPELESS),
        base_types: TypePair(PokemonType::NORMAL, PokemonType::TYPELESS),
        tera_type: PokemonType::NORMAL,
        terastallized: false,
        hp: 100,
        maxhp: 100,
        attack: 100,
        defense: 100,
        special_attack: 100,
        special_defense: 100,
        speed: 100,
        ability: Abilities::NONE,
        item: Items::NONE,
        status: PokemonStatus::NONE,
        sleep_turns: 0,
        rest_turns: 0,
        moves: vec![empty_slot(), empty_slot(), empty_slot(), empty_slot()],
        grounded: true,
        current_types: vec![PokemonType::NORMAL],
    }
}

fn side() -> Side {
    Side {
        active_index: 0,
        pokemon: vec![mon(), mon(), mon(), mon(), mon(), mon()],
        side_conditions: SideConditions {
            aurora_veil: 0,
            healing_wish: 0,
            light_screen: 0,
            reflect: 0,
            safeguard: 0,
            spikes: 0,
            stealth_rock: 0,
            sticky_web: 0,
            tailwind: 0,
            toxic_spikes: 0,
        },
        volatile_statuses: vec![],
        attack_boost: 0,
        defense_boost: 0,
        special_attack_boost: 0,
        special_defense_boost: 0,
        speed_boost: 0,
        accuracy_boost: 0,
        evasion_boost: 0,
        wish: Wish(0, 0),
        future_sight: FutureSight(0, 0),
        force_switch: false,
        force_trapped: false,
        slow_uturn_move: false,
        baton_passing: false,
    }
}

fn state() -> State {
    State {
        side_one: side(),
        side_two: side(),
        field: Field {
            weather: Weather::NONE,
            terrain: Terrain::NONE,
            active_terrain: Terrain::NONE,
            trick_room: false,
        },
    }
}

fn table() -> MoveTable {
    let mut wave = plain_choice();
    wave.move_type = PokemonType::ELECTRIC;
    wave.accuracy = 90;
    wave.status = Some(StatusEffect { status: PokemonStatus::PARALYZE });
    let mut bomb = attack(PokemonType::POISON, MoveCategory::Special, 90);
    bomb.secondaries = Some(vec![Secondary { effect: Effect::Status(PokemonStatus::POISON) }]);
    let mut rocks = plain_choice();
    rocks.accuracy = 0;
    rocks.move_type = PokemonType::ROCK;
    rocks.side_condition = Some(SideConditionEffect {
        condition: PokemonSideCondition::Stealthrock,
    });
    MoveTable {
        entries: vec![
            MoveEntry { id: Choices::THUNDERWAVE, choice: wave },
            MoveEntry { id: Choices::SLUDGEBOMB, choice: bomb },
            MoveEntry { id: Choices::STEALTHROCK, choice: rocks },
            MoveEntry {
                id: Choices::TACKLE,
                choice: attack(PokemonType::NORMAL, MoveCategory::Physical, 40),
            },
        ],
    }
}

fn fraction(r: Ratio) -> f64 {
    r.num as f64 / r.den as f64
}

fn numbers(v: &[Ratio]) -> Vec<f64> {
    v.iter().map(|r| fraction(*r)).collect()
}

#[test]
fn test_feature_dimensions() {
    let features = extract_features(&state(), &table(), true);
    assert_eq!(features.len(), STATE_FEATURES);
    assert_eq!(STATE_FEATURES, 609);
}

#[test]
fn test_softmax() {
    let logits = vec![1.0f64, 2.0, 3.0];
    let exps: Vec<u64> = logits.iter().map(|x| ((x - 3.0).exp() * 1e9) as u64).collect();
    let probs = numbers(&shares_of(&exps));
    let sum: f64 = probs.iter().sum();
    assert!((sum - 1.0).abs() < 1e-5);
    assert!(probs[2] > probs[1]);
    assert!(probs[1] > probs[0]);
}

#[test]
fn test_type_effectiveness_basic() {
    let eff = |a, d1, d2| fraction(type_effectiveness(a, d1, d2));
    assert_eq!(eff(PokemonType::FIRE, PokemonType::GRASS, PokemonType::TYPELESS), 2.0);
    assert_eq!(eff(PokemonType::ELECTRIC, PokemonType::GROUND, PokemonType::TYPELESS), 0.0);
    assert_eq!(eff(PokemonType::ICE, PokemonType::GRASS, PokemonType::FLYING), 4.0);
}

#[test]
fn effectiveness_of_doubled_and_unknown_types() {
    let eff = |a, d1, d2| fraction(type_effectiveness(a, d1, d2));
    assert_eq!(eff(PokemonType::WATER, PokemonType::FIRE, PokemonType::FIRE), 2.0);
    assert_eq!(eff(PokemonType::FAIRY, PokemonType::DRAGON, PokemonType::DARK), 1.0);
    assert_eq!(eff(PokemonType::GHOST, PokemonType::FAIRY, PokemonType::PSYCHIC), 2.0);
    assert_eq!(eff(PokemonType::POISON, PokemonType::STEEL, PokemonType::GRASS), 0.0);
    assert!(is_physical_type(PokemonType::STEEL) && !is_physical_type(PokemonType::DARK));
    assert_eq!(type_index(PokemonType::STEEL), Some(16));
    assert_eq!(type_index(PokemonType::FAIRY), None);
    assert_eq!(atk_type_index(PokemonType::FAIRY), Some(17));
    assert_eq!(bo_type_index_18(PokemonType::STELLAR), None);
}

#[test]
fn boosted_stats_are_exact() {
    assert_eq!(fraction(apply_boost(100, 0)), 100.0);
    assert_eq!(fraction(apply_boost(100, 2)), 200.0);
    assert_eq!(fraction(apply_boost(100, -2)), 50.0);
    assert_eq!(apply_boost(100, -1), Ratio { num: 200, den: 3 });
}

#[test]
fn classic_features_stand_in_their_places() {
    let mut s = state();
    s.side_one.pokemon[0].types = TypePair(PokemonType::ELECTRIC, PokemonType::STEEL);
    s.side_one.pokemon[0].moves[0] = slot(Choices::THUNDERWAVE, plain_choice());
    s.side_one.pokemon[0].moves[0].pp = 16;
    s.side_one.pokemon[0].moves[1] = slot(Choices::SLUDGEBOMB, plain_choice());
    s.side_two.pokemon[0].types = TypePair(PokemonType::WATER, PokemonType::FLYING);
    s.side_one.speed_boost = 1;
    s.side_one.side_conditions.spikes = 3;
    s.side_two.pokemon[4].status = PokemonStatus::SLEEP;
    s.side_two.pokemon[5].hp = 0;
    s.side_two.volatile_statuses = vec![PokemonVolatileStatus::SUBSTITUTE];
    s.field.weather = Weather::SAND;
    let f = numbers(&extract_features(&s, &table(), true));
    // the first move: Thunder Wave
    assert_eq!(f[3], 1.0);
    assert_eq!(f[17], 0.0);
    assert_eq!(f[18], 0.9);
    assert_eq!((f[19], f[20], f[21]), (0.0, 1.0, 1.0));
    assert_eq!(f[22], 0.5);
    assert_eq!(f[23], 1.0);
    assert_eq!(f[25], 1.0);
    // the second move: Sludge Bomb, which may poison
    assert_eq!(f[31 + 7], 1.0);
    assert_eq!(f[31 + 17], 0.36);
    assert_eq!(f[31 + 26], 1.0);
    // an empty slot reads as a harmless move
    assert_eq!((f[62], f[62 + 18], f[62 + 20], f[62 + 22]), (1.0, 1.0, 1.0, 0.0));
    // the first team member
    let team = 124;
    assert_eq!((f[team], f[team + 1]), (1.0, 1.0));
    assert_eq!((f[team + 2 + 3], f[team + 2 + 16], f[team + 2]), (1.0, 1.0, 0.0));
    assert_eq!(f[team + 19], 0.2);
    assert_eq!(f[team + 23], 0.3);
    assert_eq!(f[team + 37], 1.0);
    // sides and field
    let extras = 124 + 456;
    assert_eq!(f[extras], 1.0);
    assert_eq!(f[extras + 3], 1.0);
    assert_eq!(f[extras + 4], 1.0);
    assert_eq!(f[extras + 12 + 4], 5.0 / 6.0);
    assert_eq!(f[extras + 12 + 5], 1.0);
    assert_eq!(&f[604..], &[0.0, 0.0, 1.0, 1.0, 0.0]);
}

#[test]
fn items_have_places_by_generation() {
    let mut s = state();
    s.side_one.pokemon[0].item = Items::THICKCLUB;
    let old = numbers(&extract_features(&s, &table(), true));
    let new = numbers(&extract_features(&s, &table(), false));
    assert_eq!(&old[124 + 31..124 + 38], &[0.0, 1.0, 0.0, 0.0, 0.0, 0.0, 0.0]);
    assert_eq!(&new[124 + 31..124 + 38], &[0.0, 0.0, 0.0, 0.0, 0.0, 1.0, 0.0]);
}

#[test]
fn modern_features_stand_in_their_places() {
    let mut s = state();
    s.side_one.active_index = 2;
    s.side_one.pokemon[0].hp = 25;
    s.side_one.pokemon[0].tera_type = PokemonType::FAIRY;
    s.side_one.pokemon[0].ability = Abilities::LEVITATE;
    s.side_one.pokemon[0].item = Items::CHOICESCARF;
    s.side_one.pokemon[0].moves[1] = slot(Choices::STEALTHROCK, plain_choice());
    s.side_one.pokemon[0].moves[1].pp = 8;
    s.side_one.attack_boost = -3;
    s.side_two.side_conditions.toxic_spikes = 1;
    s.field.weather = Weather::HAIL;
    s.field.active_terrain = Terrain::MISTYTERRAIN;
    s.field.trick_room = true;
    let f = numbers(&extract_features_v3(&s, &table()));
    assert_eq!(f.len(), STATE_V3_FEATURES);
    assert_eq!(f.len(), 2738);
    assert_eq!((f[0], f[1]), (0.25, 1.0));
    assert_eq!((f[2], f[2 + 19]), (1.0, 1.0));
    assert_eq!(f[42 + 17], 1.0);
    assert_eq!(f[63], 0.2);
    assert_eq!(f[68], 1.0);
    assert_eq!(f[76 + 3], 1.0);
    assert_eq!((f[84 + 1], f[84 + 2]), (1.0, 1.0));
    assert_eq!(&f[95..99], &[1.0, 0.25, 1.0, 1.0]);
    let rocks = 99 + 31;
    assert_eq!(f[rocks + 12], 1.0);
    assert_eq!(f[rocks + 19], 1.0);
    assert_eq!(f[rocks + 22 + 5], 1.0);
    assert_eq!(f[1338 + 2], 1.0);
    assert_eq!(f[1338 + 6], -0.5);
    assert_eq!(f[1364 + 1338 + 16], 0.5);
    assert_eq!(&f[2728..], &[0.0, 0.0, 0.0, 0.0, 1.0, 0.0, 0.0, 1.0, 0.0, 1.0]);
    let mirrored = State { side_one: s.side_two.clone(), side_two: s.side_one.clone(), field: s.field };
    let g = numbers(&extract_features_v3(&mirrored, &table()));
    assert_eq!(&g[..1364], &f[1364..2728]);
    assert_eq!(&g[1364..2728], &f[..1364]);
}

#[test]
fn core_features_are_the_head_of_the_full_ones() {
    let mut p = mon();
    p.status = PokemonStatus::BURN;
    p.item = Items::LIFEORB;
    let mut core = vec![];
    pokemon_features_v3_core(&p, &mut core);
    let mut full = vec![];
    pokemon_features_v3(&p, &table(), &mut full);
    assert_eq!(core.len(), 95);
    assert_eq!(full.len(), 223);
    assert_eq!(&full[..95], &core[..]);
}

#[test]
fn mirrored_positions_swap_the_halves() {
    let mut s = state();
    s.side_one.pokemon[1].hp = 40;
    s.side_two.side_conditions.spikes = 2;
    let f = numbers(&extract_features_v3(&s, &table()));
    let mirrored = State { side_one: s.side_two.clone(), side_two: s.side_one.clone(), field: s.field };
    let g = numbers(&extract_features_v3(&mirrored, &table()));
    assert_ne!(f[..1364], f[1364..2728]);
    assert_eq!(g[..1364], f[1364..2728]);
    assert_eq!(g[1364..2728], f[..1364]);
    assert_eq!(g[2728..], f[2728..]);
}

#[test]
fn move_names_lose_their_tera_mark() {
    assert_eq!(name_of_move("earthquake"), Some("earthquake"));
    assert_eq!(name_of_move("earthquake-tera"), Some("earthquake"));
    assert_eq!(name_of_move("a-tera-tera"), Some("a-tera"));
    assert_eq!(name_of_move(""), None);
    assert_eq!(name_of_move("-tera"), None);
    assert_eq!(name_of_move("None"), None);
    assert_eq!(name_of_move("NONE-tera"), None);
    assert_eq!(name_of_move("-Tera"), Some("-Tera"));
    assert_eq!(name_of_move("pokémon-tera"), Some("pokémon"));
}

#[test]
fn move_features_are_zero_for_the_unknown() {
    let zero = vec![0.0; N_MOVE_FEATURES];
    assert_eq!(numbers(&extract_move_features_v3("earthquake", None, &table())), zero);
    assert_eq!(numbers(&extract_move_features_v3("earthquake", Some(Choices::NONE), &table())), zero);
    assert_eq!(numbers(&extract_move_features_v3("defog", Some(Choices::DEFOG), &table())), zero);
    let f = numbers(&extract_move_features_v3("thunderwave", Some(Choices::THUNDERWAVE), &table()));
    assert_eq!((f[3], f[18], f[19], f[20], f[21]), (1.0, 0.0, 0.9, 1.0, 0.0));
    assert_eq!(f[25], 1.0);
    let f = numbers(&extract_move_features_v3("sludgebomb-tera", Some(Choices::SLUDGEBOMB), &table()));
    assert_eq!((f[7], f[18], f[19], f[20], f[21]), (1.0, 0.45, 1.0, 0.0, 1.0));
    let none = extract_move_features_v3("None", Some(Choices::SLUDGEBOMB), &table());
    assert_eq!(numbers(&none), zero);
    assert!(is_hazard_remover(Choices::RAPIDSPIN) && !is_hazard_remover(Choices::TACKLE));
}

fn bulky_side() -> Side {
    let mut s = side();
    let names = [
        PokemonName::DRAGONITE,
        PokemonName::GARGANACL,
        PokemonName::DARKRAI,
        PokemonName::HATTERENE,
        PokemonName::GREATTUSK,
        PokemonName::TORNADUSTHERIAN,
    ];
    for (p, name) in s.pokemon.iter_mut().zip(names) {
        p.id = name;
    }
    s
}

#[test]
fn bulky_features_do_not_depend_on_the_seat() {
    let mut s = state();
    s.side_one = bulky_side();
    s.side_one.pokemon[4].item = Items::BOOSTERENERGY;
    s.side_one.pokemon[0].hp = 75;
    s.side_one.attack_boost = 3;
    s.side_two.active_index = 1;
    s.side_two.pokemon[1].speed = 151;
    s.side_two.pokemon[1].item = Items::LIFEORB;
    s.side_two.pokemon[1].types = TypePair(PokemonType::STEEL, PokemonType::FAIRY);
    s.side_two.pokemon[1].moves[2].disabled = true;
    s.side_two.pokemon[2].id = PokemonName::HEATRAN;
    s.side_two.pokemon[3].id = PokemonName::KINGAMBIT;
    s.side_two.pokemon[3].item = Items::ROCKYHELMET;
    s.side_two.speed_boost = 2;
    s.side_two.defense_boost = -1;
    s.side_two.side_conditions.reflect = 4;
    assert_eq!(count_bo_mons(&s.side_one), 6);
    assert_eq!(detect_bo_side(&s), 0);
    let f = numbers(&extract_features_bo(&s));
    assert_eq!(f.len(), STATE_BO_FEATURES);
    assert_eq!(f.len(), 184);
    assert_eq!(&f[15..18], &[0.75, 0.0, 1.0]);
    assert_eq!(&f[18..24], &[0.0, 0.0, 0.0, 0.0, 0.0, 1.0]);
    assert_eq!(f[24], 0.5);
    assert_eq!(f[29], 0.0);
    assert_eq!(f[30 + 18 + 16], 1.0);
    assert_eq!(f[30 + 36 + 17], 1.0);
    assert_eq!(f[30 + 54 + 10], 1.0);
    assert_eq!(f[30 + 54 + 20 + 1], 1.0);
    assert_eq!(f[30 + 104 + 1], 1.0);
    assert_eq!(f[30 + 115 + 4], 1.0);
    assert_eq!(&f[30 + 122..30 + 126], &[0.0, 0.0, 1.0, 0.0]);
    assert_eq!(f[156 + 17], 1.0);
    assert_eq!(&f[174..], &[0.5, 0.0, 0.0, 0.0, 1.0, 1.0, 1.0, 1.0, 0.0, 2.0 / 6.0]);
    let mirrored = State { side_one: s.side_two.clone(), side_two: s.side_one.clone(), field: s.field };
    assert_eq!(detect_bo_side(&mirrored), 1);
    assert_eq!(numbers(&extract_features_bo(&mirrored)), f);
}

#[test]
fn doubtful_teams_belong_to_the_first_player() {
    assert_eq!(detect_bo_side(&state()), 0);
    let mirror = State { side_one: bulky_side(), side_two: bulky_side(), field: state().field };
    assert_eq!(detect_bo_side(&mirror), 0);
}

#[test]
fn opponents_have_roles() {
    assert_eq!(opp_role_of(PokemonName::TOXAPEX), 0);
    assert_eq!(opp_role_of(PokemonName::BISHARP), 1);
    assert_eq!(opp_role_of(PokemonName::PELIPPER), 3);
    assert_eq!(opp_role_of(PokemonName::GLIMMORA), 4);
    assert_eq!(opp_role_of(PokemonName::IRONTREADS), 5);
    assert_eq!(opp_role_of(PokemonName::VOLCARONA), 6);
    assert_eq!(opp_role_of(PokemonName::MANAPHY), 7);
    assert_eq!(opp_role_of(PokemonName::KYUREM), 8);
    assert_eq!(opp_role_of(PokemonName::GENGAR), 9);
    assert!(is_fire_steel_wall(PokemonName::SKARMORY) && !is_fire_steel_wall(PokemonName::BLISSEY));
    assert!(is_strong_priority_user(PokemonName::RAGINGBOLT));
    assert!(is_trick_item_user(PokemonName::LATIOS) && !is_trick_item_user(PokemonName::HEATRAN));
    assert_eq!(item_flag_idx(Items::BOOSTERENERGY), 5);
    assert_eq!(item_flag_idx(Items::LEFTOVERS), 6);
    assert!(defensive_blocks_salt_cure(PokemonType::WATER, PokemonType::GHOST));
    assert!(!defensive_blocks_salt_cure(PokemonType::WATER, PokemonType::TYPELESS));
}

#[test]
fn networks_choose_their_encoding() {
    assert_eq!(input_dim(None), 609);
    assert_eq!(input_dim(Some(&[1])), 609);
    assert_eq!(input_dim(Some(&[-1, -1])), 609);
    assert_eq!(input_dim(Some(&[-1, 184])), 184);
    let s = state();
    assert_eq!(features_for(184, &s, &table(), false).len(), 184);
    assert_eq!(features_for(2738, &s, &table(), false).len(), 2738);
    assert_eq!(features_for(609, &s, &table(), false).len(), 609);
    assert_eq!(features_for(7, &s, &table(), false).len(), 609);
    let mut t = state();
    t.field.trick_room = true;
    let states = vec![s, t];
    let rows = batch_features(184, &states, &table(), false);
    assert_eq!(rows.len(), 368);
    assert_eq!(&rows[184..], &features_for(184, &states[1], &table(), false)[..]);
    assert_ne!(&rows[184..], &rows[..184]);
}

#[test]
fn priors_follow_the_rated_actions() {
    let probs = [100, 200, 300, 400, 50, 60, 70, 80, 90];
    let options = [
        MoveChoice::Move(1),
        MoveChoice::MoveTera(1),
        MoveChoice::Switch(0),
        MoveChoice::Switch(5),
        MoveChoice::NoMove,
    ];
    let p = map_priors_to_options(&probs, &options, 2);
    let sum = 200 + 200 + 50 + 90 + 100;
    let nums: Vec<i128> = p.iter().map(|r| r.num).collect();
    assert_eq!(nums, vec![200, 200, 50, 90, 100]);
    assert!(p.iter().all(|r| r.den == sum));
    let p = map_priors_to_options(&probs[..3], &[MoveChoice::Move(3), MoveChoice::Move(0)], 0);
    assert_eq!(p[0], Ratio { num: UNRATED as i128, den: UNRATED as i128 + 100 });
    let p = map_priors_to_options(&[0, 0], &[MoveChoice::Move(0), MoveChoice::Move(1)], 0);
    assert_eq!(numbers(&p), vec![0.0, 0.0]);
}

fn word(n: u32) -> Vec<u8> {
    n.to_le_bytes().to_vec()
}

fn layer(out_dim: u32, in_dim: u32, first: u32) -> Vec<u8> {
    let mut b = word(out_dim);
    b.extend(word(in_dim));
    for k in 0..out_dim * in_dim + out_dim {
        b.extend(word(first + k));
    }
    b
}

/// A file of a network with one hidden unit everywhere.
fn small_file() -> Vec<u8> {
    let mut b = b"MAT1".to_vec();
    for n in [1, 1, 1, 95, 26, 10] {
        b.extend(word(n));
    }
    b.extend(layer(1, 96, 1000));
    b.extend(layer(1, 1, 2000));
    b.extend(layer(1, 1, 3000));
    b.extend(layer(1, 66, 4000));
    b.extend(layer(1, 1, 5000));
    b.extend(layer(2, 1, 0xff00_0000));
    b
}

#[test]
fn material_files_give_back_their_network() {
    let mut file = small_file();
    file.extend([1, 2, 3]);
    assert!(is_material(&file));
    let net = MaterialNet::load(&file).unwrap();
    assert_eq!((net.mon_hidden, net.d_emb, net.hidden, net.n_outputs), (1, 1, 1, 2));
    assert_eq!(net.layers.len(), 6);
    assert_eq!(net.layers[0].weights.len(), 96);
    assert_eq!(net.layers[0].weights[95], 1095);
    assert_eq!(net.layers[0].bias, vec![1096]);
    assert_eq!(net.layers[3].in_dim, 66);
    assert_eq!(net.layers[5].weights, vec![0xff00_0000, 0xff00_0001]);
    assert_eq!(net.layers[5].bias, vec![0xff00_0002, 0xff00_0003]);
}

#[test]
fn broken_material_files_are_refused() {
    let file = small_file();
    let err = |b: &[u8]| MaterialNet::load(b).err().unwrap();
    assert_eq!(err(b"MA"), LoadError::Truncated);
    assert_eq!(err(b"ONNX-file"), LoadError::Magic);
    assert!(!is_material(b"MA") && !is_material(b"ONNX-file"));
    assert_eq!(err(&file[..27]), LoadError::Truncated);
    assert_eq!(err(&file[..100]), LoadError::Truncated);
    assert_eq!(err(&file[..file.len() - 1]), LoadError::Truncated);
    let mut dims = file.clone();
    dims[16] = 94;
    assert_eq!(err(&dims), LoadError::Dims { core: 94, extras: 26, global: 10 });
    let mut head = file.clone();
    head[8] = 2;
    assert_eq!(err(&head), LoadError::HeadInput { weights: 66, hidden: 1, d_emb: 2 });
    let mut huge = file.clone();
    huge[28..36].copy_from_slice(&[0xff; 8]);
    assert_eq!(err(&huge), LoadError::Truncated);
}
