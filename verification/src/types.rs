//! The vocabulary of a battle: types, abilities, items, moves and species.
//!
//! Abilities, items, moves and species that no rule of this library singles out
//! are all represented by `OTHER`.
use vstd::prelude::*;

verus! {

/// Elemental types.
#[derive(Clone, Copy, Debug, PartialEq, Eq, Structural)]
pub enum PokemonType {
    NORMAL,
    FIRE,
    WATER,
    ELECTRIC,
    GRASS,
    ICE,
    FIGHTING,
    POISON,
    GROUND,
    FLYING,
    PSYCHIC,
    BUG,
    ROCK,
    GHOST,
    DRAGON,
    DARK,
    STEEL,
    FAIRY,
    STELLAR,
    TYPELESS,
}

/// Non-volatile status conditions.
#[derive(Clone, Copy, Debug, PartialEq, Eq, Structural)]
pub enum PokemonStatus {
    NONE,
    BURN,
    SLEEP,
    FREEZE,
    PARALYZE,
    POISON,
    TOXIC,
}

/// Weather conditions.
#[derive(Clone, Copy, Debug, PartialEq, Eq, Structural)]
pub enum Weather {
    NONE,
    SUN,
    RAIN,
    SAND,
    HAIL,
    SNOW,
    HARSHSUN,
    HEAVYRAIN,
}

/// Terrains.
#[derive(Clone, Copy, Debug, PartialEq, Eq, Structural)]
pub enum Terrain {
    NONE,
    ELECTRICTERRAIN,
    GRASSYTERRAIN,
    MISTYTERRAIN,
    PSYCHICTERRAIN,
}

/// How a move does its work.
#[derive(Clone, Copy, Debug, PartialEq, Eq, Structural)]
pub enum MoveCategory {
    Physical,
    Special,
    Switch,
    Status,
}

/// Whom a move acts on.
#[derive(Clone, Copy, Debug, PartialEq, Eq, Structural)]
pub enum MoveTarget {
    User,
    Opponent,
}

/// Conditions that a move can set up on a side of the field.
#[derive(Clone, Copy, Debug, PartialEq, Eq, Structural)]
pub enum PokemonSideCondition {
    AuroraVeil,
    CraftyShield,
    HealingWish,
    LightScreen,
    LuckyChant,
    LunarDance,
    MatBlock,
    Mist,
    Protect,
    QuickGuard,
    Reflect,
    Safeguard,
    Spikes,
    Stealthrock,
    StickyWeb,
    Tailwind,
    ToxicCount,
    ToxicSpikes,
    WideGuard,
}

/// Volatile statuses of an active Pokemon.
#[derive(Clone, Copy, Debug, PartialEq, Eq, Structural)]
pub enum PokemonVolatileStatus {
    LEECHSEED,
    SUBSTITUTE,
    CONFUSION,
    PERISH1,
    PERISH2,
    PERISH3,
    PERISH4,
    ENCORE,
    TAUNT,
    DISABLE,
    TORMENT,
    HEALBLOCK,
    OCTOLOCK,
    YAWN,
    SALTCURE,
    PARTIALLYTRAPPED,
    TARSHOT,
    GLAIVERUSH,
    SLOWSTART,
    NIGHTMARE,
    CURSE,
    INGRAIN,
    AQUARING,
    MAGNETRISE,
    DESTINYBOND,
    FOCUSENERGY,
    LASERFOCUS,
    PROTOSYNTHESISATK,
    PROTOSYNTHESISDEF,
    PROTOSYNTHESISSPA,
    PROTOSYNTHESISSPD,
    PROTOSYNTHESISSPE,
    QUARKDRIVEATK,
    QUARKDRIVEDEF,
    QUARKDRIVESPA,
    QUARKDRIVESPD,
    QUARKDRIVESPE,
    MUSTRECHARGE,
    FORESIGHT,
    OTHER,
}

/// Abilities.
#[derive(Clone, Copy, Debug, PartialEq, Eq, Structural)]
pub enum Abilities {
    NONE,
    POISONHEAL,
    GUTS,
    MARVELSCALE,
    QUICKFEET,
    TOXICBOOST,
    MAGICGUARD,
    FLAREBOOST,
    TINTEDLENS,
    NEUROFORCE,
    TECHNICIAN,
    TOUGHCLAWS,
    SHARPNESS,
    STRONGJAW,
    IRONFIST,
    SHEERFORCE,
    HUGEPOWER,
    PUREPOWER,
    SUPREMEOVERLORD,
    ADAPTABILITY,
    THICKFAT,
    MULTISCALE,
    SHADOWSHIELD,
    FILTER,
    SOLIDROCK,
    PRISMARMOR,
    ICESCALES,
    CHLOROPHYLL,
    SOLARPOWER,
    FLOWERGIFT,
    LEAFGUARD,
    DRYSKIN,
    SWIFTSWIM,
    RAINDISH,
    HYDRATION,
    OVERCOAT,
    SANDVEIL,
    SANDFORCE,
    SANDRUSH,
    ICEBODY,
    SNOWCLOAK,
    SLUSHRUSH,
    SURGESURFER,
    GRASSPELT,
    REGENERATOR,
    UNAWARE,
    MOLDBREAKER,
    TORRENT,
    PROTOSYNTHESIS,
    QUARKDRIVE,
    LEVITATE,
    INTIMIDATE,
    MAGICBOUNCE,
    GOODASGOLD,
    PURIFYINGSALT,
    OTHER,
}

/// Held items.
#[derive(Clone, Copy, Debug, PartialEq, Eq, Structural)]
pub enum Items {
    NONE,
    CHOICEBAND,
    CHOICESPECS,
    CHOICESCARF,
    LIFEORB,
    HEAVYDUTYBOOTS,
    LEFTOVERS,
    BLACKSLUDGE,
    ASSAULTVEST,
    EVIOLITE,
    ROCKYHELMET,
    AIRBALLOON,
    FOCUSSASH,
    BOOSTERENERGY,
    SITRUSBERRY,
    TOXICORB,
    FLAMEORB,
    STICKYBARB,
    EXPERTBELT,
    MUSCLEBAND,
    WISEGLASSES,
    PUNCHINGGLOVE,
    LOADEDDICE,
    COVERTCLOAK,
    CLEARAMULET,
    POWERHERB,
    WEAKNESSPOLICY,
    SHELLBELL,
    THICKCLUB,
    LIGHTBALL,
    MIRACLEBERRY,
    MINTBERRY,
    OTHER,
}

/// Moves by name. A move without a rule of its own is told apart by a number.
#[derive(Clone, Copy, Debug, PartialEq, Eq, Structural)]
pub enum Choices {
    NONE,
    REST,
    RECOVER,
    SOFTBOILED,
    MILKDRINK,
    MOONLIGHT,
    MORNINGSUN,
    SYNTHESIS,
    SLEEPTALK,
    TRICK,
    SWITCHEROO,
    FACADE,
    ROAR,
    WHIRLWIND,
    RAPIDSPIN,
    DEFOG,
    TIDYUP,
    COURTCHANGE,
    MORTALSPIN,
    THUNDERWAVE,
    STEALTHROCK,
    SLUDGEBOMB,
    TACKLE,
    OTHER(u16),
}

/// Species.
#[derive(Clone, Copy, Debug, PartialEq, Eq, Structural)]
pub enum PokemonName {
    GARGANACL,
    DARKRAI,
    GREATTUSK,
    HATTERENE,
    TORNADUSTHERIAN,
    DRAGONITE,
    HEATRAN,
    SKARMORY,
    CORVIKNIGHT,
    GHOLDENGO,
    CLODSIRE,
    TOXAPEX,
    BLISSEY,
    CLEFABLE,
    DONDOZO,
    TINGLU,
    GLIMMORA,
    LANDORUSTHERIAN,
    IRONTREADS,
    KINGAMBIT,
    MAMOSWINE,
    RILLABOOM,
    BISHARP,
    PELIPPER,
    TORKOAL,
    TYRANITAR,
    NINETALES,
    ROARINGMOON,
    VOLCARONA,
    BAXCALIBUR,
    BARRASKEWDA,
    EXCADRILL,
    WALKINGWAKE,
    IRONVALIANT,
    IRONMOTH,
    RAGINGBOLT,
    MANAPHY,
    ARCHALUDON,
    PECHARUNT,
    HOOPAUNBOUND,
    KYUREM,
    URSALUNA,
    IRONBOULDER,
    ALAKAZAM,
    GENGAR,
    LATIOS,
    LATIAS,
    OTHER,
}

} // verus!
