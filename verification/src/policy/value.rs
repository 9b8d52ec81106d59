//! Which encoding a value network reads, and the features of several positions at
//! once.
use crate::numbers::Ratio;
use crate::policy::bulky::{extract_features_bo, STATE_BO_FEATURES};
use crate::policy::moves::MoveTable;
use crate::policy::v2::{extract_features, STATE_FEATURES};
use crate::policy::v3::{extract_features_v3, STATE_V3_FEATURES};
#[allow(unused_imports)]
use crate::policy::{bulky, v2, v3};
#[allow(unused_imports)]
use crate::state::MOVE_SLOTS;
use crate::state::State;
use vstd::prelude::*;

verus! {

/// The number of features that a network reads, by the shape of its input: the
/// second dimension where it is fixed, else that of the second-generation encoding.
pub open spec fn declared_dim(shape: Option<Seq<i64>>) -> usize {
    match shape {
        Some(s) => if s.len() > 1 && s[1] > 0 {
            s[1] as usize
        } else {
            STATE_FEATURES
        },
        None => STATE_FEATURES,
    }
}

/// The number of features that a network reads, by the shape of its input. A
/// network without an input of numbers has no shape.
pub fn input_dim(shape: Option<&[i64]>) -> (r: usize)
    ensures
        r == declared_dim(
            match shape {
                Some(s) => Some(s@),
                None => None,
            },
        ),
{
    match shape {
        Some(s) => if s.len() > 1 && s[1] > 0 {
            #[verifier::truncate]
            (s[1] as usize)
        } else {
            STATE_FEATURES
        },
        None => STATE_FEATURES,
    }
}

/// The features that a network with `dim` inputs reads.
pub open spec fn features_of(dim: int, state: State, table: MoveTable, gen2: bool) -> Seq<Ratio> {
    if dim == STATE_BO_FEATURES {
        bulky::state_code(state)
    } else if dim == STATE_V3_FEATURES {
        v3::state_code(state, table)
    } else {
        v2::state_code(state, table, gen2)
    }
}

/// The position can be encoded.
pub open spec fn encodable(state: State) -> bool {
    &&& state.wf()
    &&& v3::slots_filled(state.side_one)
    &&& v3::slots_filled(state.side_two)
}

/// The features that a network with `dim` inputs reads.
pub fn features_for(dim: usize, state: &State, table: &MoveTable, gen2: bool) -> (r: Vec<Ratio>)
    requires
        encodable(*state),
    ensures
        r@ == features_of(dim as int, *state, *table, gen2),
{
    proof {
        let foe = bulky::facing_side(*state);
        assert(foe.pokemon@[foe.active_index as int].moves@.len() >= MOVE_SLOTS);
        let own = state.side_one;
        assert(own.pokemon@[own.active_index as int].moves@.len() >= MOVE_SLOTS);
    }
    if dim == STATE_BO_FEATURES {
        extract_features_bo(state)
    } else if dim == STATE_V3_FEATURES {
        extract_features_v3(state, table)
    } else {
        extract_features(state, table, gen2)
    }
}

/// The features of the first `n` positions, one after the other.
pub open spec fn batch_of(
    dim: int,
    states: Seq<State>,
    table: MoveTable,
    gen2: bool,
    n: int,
) -> Seq<Ratio>
    decreases n,
{
    if n <= 0 {
        Seq::empty()
    } else {
        batch_of(dim, states, table, gen2, n - 1) + features_of(dim, states[n - 1], table, gen2)
    }
}

/// The features of several positions, one after the other.
pub fn batch_features(dim: usize, states: &Vec<State>, table: &MoveTable, gen2: bool) -> (r: Vec<
    Ratio,
>)
    requires
        forall|k: int| 0 <= k < states@.len() ==> encodable(#[trigger] states@[k]),
    ensures
        r@ == batch_of(dim as int, states@, *table, gen2, states@.len() as int),
{
    let mut buf: Vec<Ratio> = Vec::new();
    let mut k: usize = 0;
    while k < states.len()
        invariant
            k <= states@.len(),
            forall|q: int| 0 <= q < states@.len() ==> encodable(#[trigger] states@[q]),
            buf@ =~= batch_of(dim as int, states@, *table, gen2, k as int),
        decreases states@.len() - k,
    {
        let mut features = features_for(dim, &states[k], table, gen2);
        buf.append(&mut features);
        k += 1;
    }
    buf
}

/// A network whose inputs fit one of the encodings is fed `dim` features for each
/// position, and those of each position stand in its own row.
pub proof fn law_batch_keeps_positions_apart(
    dim: int,
    states: Seq<State>,
    table: MoveTable,
    gen2: bool,
    n: int,
    k: int,
)
    requires
        dim == STATE_BO_FEATURES || dim == STATE_V3_FEATURES || dim == STATE_FEATURES,
        0 <= k < n <= states.len(),
    ensures
        batch_of(dim, states, table, gen2, n).len() == n * dim,
        batch_of(dim, states, table, gen2, n).subrange(k * dim, k * dim + dim) == features_of(
            dim,
            states[k],
            table,
            gen2,
        ),
    decreases n,
{
    lemma_batch_length(dim, states, table, gen2, n);
    lemma_batch_length(dim, states, table, gen2, n - 1);
    lemma_features_length(dim, states[n - 1], table, gen2);
    let whole = batch_of(dim, states, table, gen2, n);
    let rest = batch_of(dim, states, table, gen2, n - 1);
    assert((n - 1) * dim + dim == n * dim) by (nonlinear_arith);
    if k == n - 1 {
        assert(whole.subrange(k * dim, k * dim + dim) =~= features_of(
            dim,
            states[k],
            table,
            gen2,
        ));
    } else {
        law_batch_keeps_positions_apart(dim, states, table, gen2, n - 1, k);
        assert(0 <= k * dim && k * dim + dim <= (n - 1) * dim) by (nonlinear_arith)
            requires
                0 <= k < n - 1,
                dim >= 0,
        ;
        assert(whole.subrange(k * dim, k * dim + dim) =~= rest.subrange(k * dim, k * dim + dim));
    }
}

/// The answers of a network that reads its input row by row, `dim` features each.
pub open spec fn answers_by_row(
    network: spec_fn(Seq<Ratio>) -> real,
    rows: Seq<Ratio>,
    dim: int,
    n: int,
) -> Seq<real> {
    Seq::new(n as nat, |k: int| network(rows.subrange(k * dim, k * dim + dim)))
}

/// Asking about several positions at once is asking about each of them: a network
/// that reads its input row by row gives as many answers as there are positions, in
/// their order, and each is the one that it gives of the position alone.
pub proof fn law_batch_is_answered_position_by_position(
    network: spec_fn(Seq<Ratio>) -> real,
    dim: int,
    states: Seq<State>,
    table: MoveTable,
    gen2: bool,
)
    requires
        dim == STATE_BO_FEATURES || dim == STATE_V3_FEATURES || dim == STATE_FEATURES,
    ensures
        ({
            let n = states.len() as int;
            let rows = batch_of(dim, states, table, gen2, n);
            let answers = answers_by_row(network, rows, dim, n);
            &&& rows.len() == n * dim
            &&& answers.len() == n
            &&& forall|k: int|
                0 <= k < n ==> #[trigger] answers[k] == network(
                    features_of(dim, states[k], table, gen2),
                )
            &&& forall|k: int|
                0 <= k < n ==> #[trigger] answers[k] == answers_by_row(
                    network,
                    batch_of(dim, seq![states[k]], table, gen2, 1),
                    dim,
                    1,
                )[0]
        }),
{
    let n = states.len() as int;
    let rows = batch_of(dim, states, table, gen2, n);
    let answers = answers_by_row(network, rows, dim, n);
    lemma_batch_length(dim, states, table, gen2, n);
    assert forall|k: int| 0 <= k < n implies #[trigger] answers[k] == network(
        features_of(dim, states[k], table, gen2),
    ) && answers[k] == answers_by_row(
        network,
        batch_of(dim, seq![states[k]], table, gen2, 1),
        dim,
        1,
    )[0] by {
        law_batch_keeps_positions_apart(dim, states, table, gen2, n, k);
        law_batch_keeps_positions_apart(dim, seq![states[k]], table, gen2, 1, 0);
        assert(0 * dim == 0);
    }
}

proof fn lemma_features_length(dim: int, state: State, table: MoveTable, gen2: bool)
    requires
        dim == STATE_BO_FEATURES || dim == STATE_V3_FEATURES || dim == STATE_FEATURES,
    ensures
        features_of(dim, state, table, gen2).len() == dim,
{
    bulky::law_encoding_has_fixed_length(state);
    v3::law_encoding_has_fixed_length(state, table);
    v2::law_encoding_has_fixed_length(state, table, gen2);
}

proof fn lemma_batch_length(
    dim: int,
    states: Seq<State>,
    table: MoveTable,
    gen2: bool,
    n: int,
)
    requires
        dim == STATE_BO_FEATURES || dim == STATE_V3_FEATURES || dim == STATE_FEATURES,
        0 <= n,
    ensures
        batch_of(dim, states, table, gen2, n).len() == n * dim,
    decreases n,
{
    if n > 0 {
        lemma_batch_length(dim, states, table, gen2, n - 1);
        lemma_features_length(dim, states[n - 1], table, gen2);
        assert((n - 1) * dim + dim == n * dim) by (nonlinear_arith);
    } else {
        assert(0 * dim == 0);
    }
}

/// A network of 184 inputs reads the Bulky Offense encoding, one of 2738 the modern one,
/// and any other that of the second generation, which has 609 features and stands in for
/// an input whose size is not fixed.
pub proof fn law_inputs_tell_the_encoding(
    dim: int,
    state: State,
    table: MoveTable,
    gen2: bool,
    shape: Option<Seq<i64>>,
)
    ensures
        features_of(184, state, table, gen2) == bulky::state_code(state),
        features_of(2738, state, table, gen2) == v3::state_code(state, table),
        dim != 184 && dim != 2738 ==> features_of(dim, state, table, gen2) == v2::state_code(
            state,
            table,
            gen2,
        ),
        v2::state_code(state, table, gen2).len() == 609,
        shape is None ==> declared_dim(shape) == 609,
        shape matches Some(s) ==> (s.len() < 2 || s[1] <= 0) ==> declared_dim(shape) == 609,
        shape matches Some(s) ==> s.len() >= 2 && 0 < s[1] <= 0xffff_ffff ==> declared_dim(shape)
            == s[1],
{
    v2::law_encoding_has_fixed_length(state, table, gen2);
}

} // verus!
