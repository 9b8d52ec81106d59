//! Switches that turn groups of evaluation terms off, and the stall mode.
use crate::text::lists;
#[allow(unused_imports)]
use crate::text::lists_word;
use vstd::prelude::*;

verus! {

/// Which groups of evaluation terms are turned off. With a group off, the
/// evaluation behaves as the plain baseline does in that respect.
#[derive(Clone, Copy, Debug, PartialEq, Eq, Structural)]
pub struct EvalOff {
    pub hazards: bool,
    pub items: bool,
    pub volatiles: bool,
    pub threat: bool,
    pub tera: bool,
    pub pending: bool,
    pub weather: bool,
    pub terrain: bool,
    pub hopeless: bool,
    pub speedtier: bool,
    pub poisonheal: bool,
    pub pp: bool,
    pub synergy: bool,
    pub threatv2: bool,
    pub locks: bool,
    pub unaware: bool,
    pub supremeoverlord: bool,
    pub baseline: bool,
}

/// The switches that settings ask for: every group whose word stands in
/// the list `off` is off. The group `threatv2` is off unless its word stands in
/// the list `on`. With `all`, everything is off whatever the lists say.
pub open spec fn switches(all: bool, off: Seq<char>, on: Seq<char>) -> EvalOff {
    EvalOff {
        hazards: all || lists_word(off, "hazards"@),
        items: all || lists_word(off, "items"@),
        volatiles: all || lists_word(off, "volatiles"@),
        threat: all || lists_word(off, "threat"@),
        tera: all || lists_word(off, "tera"@),
        pending: all || lists_word(off, "pending"@),
        weather: all || lists_word(off, "weather"@),
        terrain: all || lists_word(off, "terrain"@),
        hopeless: all || lists_word(off, "hopeless"@),
        speedtier: all || lists_word(off, "speedtier"@),
        poisonheal: all || lists_word(off, "poisonheal"@),
        pp: all || lists_word(off, "pp"@),
        synergy: all || lists_word(off, "synergy"@),
        threatv2: all || !lists_word(on, "threatv2"@),
        locks: all || lists_word(off, "locks"@),
        unaware: all || lists_word(off, "unaware"@),
        supremeoverlord: all || lists_word(off, "supremeoverlord"@),
        baseline: all,
    }
}

impl EvalOff {
    /// Reads the switches from settings: `list` names the groups to turn
    /// off, `on_list` the experimental groups to turn on, and `all` asks for the
    /// baseline, in which everything is off.
    pub fn from_spec(all: bool, list: &str, on_list: &str) -> (r: EvalOff)
        ensures
            r == switches(all, list@, on_list@),
    {
        EvalOff {
            hazards: all || lists(list, "hazards"),
            items: all || lists(list, "items"),
            volatiles: all || lists(list, "volatiles"),
            threat: all || lists(list, "threat"),
            tera: all || lists(list, "tera"),
            pending: all || lists(list, "pending"),
            weather: all || lists(list, "weather"),
            terrain: all || lists(list, "terrain"),
            hopeless: all || lists(list, "hopeless"),
            speedtier: all || lists(list, "speedtier"),
            poisonheal: all || lists(list, "poisonheal"),
            pp: all || lists(list, "pp"),
            synergy: all || lists(list, "synergy"),
            threatv2: all || !lists(on_list, "threatv2"),
            locks: all || lists(list, "locks"),
            unaware: all || lists(list, "unaware"),
            supremeoverlord: all || lists(list, "supremeoverlord"),
            baseline: all,
        }
    }

    /// Whether `value`, the setting that asks for the baseline, says yes.
    pub fn asks_for_baseline(value: &str) -> (r: bool)
        ensures
            r == (value@ == "1"@ || crate::text::same_ignoring_case(value@, "true"@)),
    {
        crate::text::same_text(value, "1") || crate::text::same_word(value, "true")
    }
}

/// A mode of play for one battle, in which two teams that both wear the other
/// down by recovering make the evaluation weigh recovery and poison harder.
#[derive(Clone, Copy, Debug, PartialEq, Eq, Structural)]
pub struct StallMode {
    pub on: bool,
}

impl StallMode {
    /// The mode in which every battle starts.
    pub fn new() -> (r: StallMode)
        ensures
            !r.on,
    {
        StallMode { on: false }
    }
}

/// Turns the stall mode on or off.
pub fn set_stall_mode(mode: &mut StallMode, on: bool)
    ensures
        final(mode).on == on,
{
    mode.on = on;
}

/// Whether the stall mode is on.
pub fn stall_mode(mode: &StallMode) -> (r: bool)
    ensures
        r == mode.on,
{
    mode.on
}

/// The baseline turns every group off, even those that the lists would turn on.
pub proof fn law_baseline_turns_everything_off(off: Seq<char>, on: Seq<char>)
    ensures
        ({
            let s = switches(true, off, on);
            &&& s.hazards && s.items && s.volatiles && s.threat && s.tera && s.pending
            &&& s.weather && s.terrain && s.hopeless && s.speedtier && s.poisonheal && s.pp
            &&& s.synergy && s.threatv2 && s.locks && s.unaware && s.supremeoverlord
            &&& s.baseline
        }),
{
}

/// Each group goes by its own word: it is off when the list of what is off names it. The
/// refined threats alone are off unless the list of what is on names them.
pub proof fn law_groups_go_by_their_words(off: Seq<char>, on: Seq<char>)
    ensures
        ({
            let s = switches(false, off, on);
            &&& s.hazards <==> lists_word(off, "hazards"@)
            &&& s.items <==> lists_word(off, "items"@)
            &&& s.volatiles <==> lists_word(off, "volatiles"@)
            &&& s.threat <==> lists_word(off, "threat"@)
            &&& s.tera <==> lists_word(off, "tera"@)
            &&& s.pending <==> lists_word(off, "pending"@)
            &&& s.weather <==> lists_word(off, "weather"@)
            &&& s.terrain <==> lists_word(off, "terrain"@)
            &&& s.hopeless <==> lists_word(off, "hopeless"@)
            &&& s.speedtier <==> lists_word(off, "speedtier"@)
            &&& s.poisonheal <==> lists_word(off, "poisonheal"@)
            &&& s.pp <==> lists_word(off, "pp"@)
            &&& s.synergy <==> lists_word(off, "synergy"@)
            &&& s.locks <==> lists_word(off, "locks"@)
            &&& s.unaware <==> lists_word(off, "unaware"@)
            &&& s.supremeoverlord <==> lists_word(off, "supremeoverlord"@)
            &&& s.threatv2 <==> !lists_word(on, "threatv2"@)
            &&& !s.baseline
        }),
{
}

} // verus!
