//! The file format of material networks: a magic word, six dimensions, and six
//! layers of weights. All numbers are little-endian words of four bytes; weights
//! are kept as the bit patterns of single-precision numbers.
use crate::policy::v3::{GLOBAL_V3_FEATURES, N_MON_CORE, SIDE_V3_EXTRAS};
use vstd::prelude::*;

verus! {

/// Number of layers: three that encode a team member, three that judge the whole.
pub const N_LAYERS: usize = 6;

/// A layer of a network. The weights go row by row, one row for each output.
#[derive(Clone, Debug)]
pub struct Layer {
    pub out_dim: u32,
    pub in_dim: u32,
    pub weights: Vec<u32>,
    pub bias: Vec<u32>,
}

/// A layer, in mathematical terms.
#[verifier::ext_equal]
pub struct LayerModel {
    pub out_dim: u32,
    pub in_dim: u32,
    pub weights: Seq<u32>,
    pub bias: Seq<u32>,
}

impl View for Layer {
    type V = LayerModel;

    open spec fn view(&self) -> LayerModel {
        LayerModel {
            out_dim: self.out_dim,
            in_dim: self.in_dim,
            weights: self.weights@,
            bias: self.bias@,
        }
    }
}

/// A material network.
#[derive(Clone, Debug)]
pub struct MaterialNet {
    pub mon_hidden: u32,
    pub d_emb: u32,
    pub hidden: u32,
    /// One for a network that rates positions, more for one that rates actions.
    pub n_outputs: usize,
    pub layers: Vec<Layer>,
}

/// A material network, in mathematical terms.
#[verifier::ext_equal]
pub struct NetModel {
    pub mon_hidden: u32,
    pub d_emb: u32,
    pub hidden: u32,
    pub n_outputs: int,
    pub layers: Seq<LayerModel>,
}

impl View for MaterialNet {
    type V = NetModel;

    open spec fn view(&self) -> NetModel {
        NetModel {
            mon_hidden: self.mon_hidden,
            d_emb: self.d_emb,
            hidden: self.hidden,
            n_outputs: self.n_outputs as int,
            layers: self.layers@.map_values(|l: Layer| l@),
        }
    }
}

/// Why a file is not a material network.
#[derive(Clone, Copy, Debug, PartialEq, Eq, Structural)]
pub enum LoadError {
    /// The file ends too early.
    Truncated,
    /// The file does not start with the magic word.
    Magic,
    /// The network was made for other features.
    Dims { core: u32, extras: u32, global: u32 },
    /// The first layer of the head does not fit what it is fed.
    HeadInput { weights: usize, hidden: u32, d_emb: u32 },
}

/// The number that four bytes from `i` on stand for.
pub open spec fn word(b: Seq<u8>, i: int) -> u32 {
    (b[i] + 0x100 * b[i + 1] + 0x1_0000 * b[i + 2] + 0x100_0000 * b[i + 3]) as u32
}

/// The numbers that `n` words from `i` on stand for.
pub open spec fn words(b: Seq<u8>, i: int, n: int) -> Seq<u32> {
    Seq::new(n as nat, |k: int| word(b, i + 4 * k))
}

/// How many bytes a layer takes.
pub open spec fn layer_size(out_dim: int, in_dim: int) -> int {
    8 + 4 * (out_dim * in_dim) + 4 * out_dim
}

/// The layer whose bytes start at `i`, if the file holds all of it.
pub open spec fn layer_at(b: Seq<u8>, i: int) -> Option<LayerModel> {
    if i + 8 > b.len() {
        None
    } else {
        let out_dim = word(b, i);
        let in_dim = word(b, i + 4);
        let n = out_dim * in_dim;
        if i + layer_size(out_dim as int, in_dim as int) > b.len() {
            None
        } else {
            Some(
                LayerModel {
                    out_dim,
                    in_dim,
                    weights: words(b, i + 8, n),
                    bias: words(b, i + 8 + 4 * n, out_dim as int),
                },
            )
        }
    }
}

/// The `n` layers whose bytes start at `i`, if the file holds all of them.
pub open spec fn layers_at(b: Seq<u8>, i: int, n: int) -> Option<Seq<LayerModel>>
    decreases n,
{
    if n <= 0 {
        Some(Seq::empty())
    } else {
        match layers_at(b, i, n - 1) {
            Some(list) => match layer_at(b, i + sizes(list)) {
                Some(l) => Some(list.push(l)),
                None => None,
            },
            None => None,
        }
    }
}

/// How many bytes the layers take together.
pub open spec fn sizes(list: Seq<LayerModel>) -> int
    decreases list.len(),
{
    if list.len() == 0 {
        0
    } else {
        sizes(list.drop_last()) + layer_size(list.last().out_dim as int, list.last().in_dim as int)
    }
}

/// The file starts with the magic word "MAT1".
pub open spec fn has_magic(b: Seq<u8>) -> bool {
    b.len() >= 4 && b[0] == 0x4d && b[1] == 0x41 && b[2] == 0x54 && b[3] == 0x31
}

/// What the head is fed: two pools for each side, what concerns the sides, and the
/// field.
pub open spec fn head_inputs(d_emb: int) -> int {
    4 * d_emb + 2 * SIDE_V3_EXTRAS + GLOBAL_V3_FEATURES
}

/// The network that a file holds, or what is wrong with it.
pub open spec fn parsed(b: Seq<u8>) -> Result<NetModel, LoadError> {
    if b.len() < 4 {
        Err(LoadError::Truncated)
    } else if !has_magic(b) {
        Err(LoadError::Magic)
    } else if b.len() < 28 {
        Err(LoadError::Truncated)
    } else if word(b, 16) != N_MON_CORE || word(b, 20) != SIDE_V3_EXTRAS || word(b, 24)
        != GLOBAL_V3_FEATURES {
        Err(
            LoadError::Dims { core: word(b, 16), extras: word(b, 20), global: word(b, 24) },
        )
    } else {
        match layers_at(b, 28, N_LAYERS as int) {
            None => Err(LoadError::Truncated),
            Some(layers) => if layers[3].weights.len() != word(b, 12) * head_inputs(
                word(b, 8) as int,
            ) {
                Err(
                    LoadError::HeadInput {
                        weights: layers[3].weights.len() as usize,
                        hidden: word(b, 12),
                        d_emb: word(b, 8),
                    },
                )
            } else {
                Ok(
                    NetModel {
                        mon_hidden: word(b, 4),
                        d_emb: word(b, 8),
                        hidden: word(b, 12),
                        n_outputs: layers[5].bias.len() as int,
                        layers,
                    },
                )
            },
        }
    }
}

/// Whether a file starts with the magic word of material networks. Anything else
/// is taken for another format.
pub fn is_material(bytes: &[u8]) -> (r: bool)
    ensures
        r == has_magic(bytes@),
{
    bytes.len() >= 4 && bytes[0] == 0x4d && bytes[1] == 0x41 && bytes[2] == 0x54 && bytes[3] == 0x31
}

/// Reads a word.
fn read_u32(b: &[u8], i: usize) -> (r: u32)
    requires
        i + 4 <= b@.len(),
    ensures
        r == word(b@, i as int),
{
    b[i] as u32 + 0x100 * b[i + 1] as u32 + 0x1_0000 * b[i + 2] as u32 + 0x100_0000
        * b[i + 3] as u32
}

/// Reads words.
fn read_words(b: &[u8], i: usize, n: usize) -> (r: Vec<u32>)
    requires
        i + 4 * n <= b@.len(),
    ensures
        r@ == words(b@, i as int, n as int),
{
    let mut r: Vec<u32> = Vec::new();
    let len: usize = b.len();
    let mut k: usize = 0;
    while k < n
        invariant
            k <= n,
            len == b@.len(),
            i + 4 * n <= len,
            r@ =~= words(b@, i as int, k as int),
        decreases n - k,
    {
        assert(i + 4 * k + 4 <= b@.len());
        r.push(read_u32(b, i + 4 * k));
        k += 1;
    }
    r
}

/// Reads a layer; none when the file ends before it does.
fn read_layer(b: &[u8], i: usize) -> (r: Option<Layer>)
    requires
        i <= b@.len(),
    ensures
        r is Some <==> layer_at(b@, i as int) is Some,
        r matches Some(l) ==> layer_at(b@, i as int) == Some(l@) && i + layer_size(
            l.out_dim as int,
            l.in_dim as int,
        ) <= b@.len(),
{
    if b.len() - i < 8 {
        return None;
    }
    let out_dim: u32 = read_u32(b, i);
    let in_dim: u32 = read_u32(b, i + 4);
    assert(0 <= out_dim * in_dim <= 0xffff_ffff * 0xffff_ffff) by (nonlinear_arith)
        requires
            0 <= out_dim <= 0xffff_ffff,
            0 <= in_dim <= 0xffff_ffff,
    ;
    let n: u128 = out_dim as u128 * in_dim as u128;
    let size: u128 = 8 + 4 * n + 4 * out_dim as u128;
    if size > (b.len() - i) as u128 {
        return None;
    }
    let weights = read_words(b, i + 8, n as usize);
    let bias = read_words(b, i + 8 + 4 * n as usize, out_dim as usize);
    let l = Layer { out_dim, in_dim, weights, bias };
    assert(layer_at(b@, i as int)->0 =~= l@);
    Some(l)
}

/// How many bytes a layer took.
fn size_of_layer(l: &Layer, limit: usize) -> (r: usize)
    requires
        layer_size(l.out_dim as int, l.in_dim as int) <= limit,
    ensures
        r == layer_size(l.out_dim as int, l.in_dim as int),
{
    assert(l.out_dim * l.in_dim >= 0) by (nonlinear_arith);
    let n: usize = l.out_dim as usize * l.in_dim as usize;
    8 + 4 * n + 4 * l.out_dim as usize
}

impl MaterialNet {
    /// The network has its six layers, and the number of its outputs is that of the
    /// last one.
    pub open spec fn wf(self) -> bool {
        &&& self.layers@.len() == N_LAYERS
        &&& self.n_outputs == self.layers@[5].bias@.len()
    }

    /// Reads a network from the bytes of a file. What follows the last layer is
    /// ignored.
    pub fn load(bytes: &[u8]) -> (r: Result<MaterialNet, LoadError>)
        ensures
            match r {
                Ok(net) => parsed(bytes@) == Ok::<NetModel, LoadError>(net@) && net.wf(),
                Err(e) => parsed(bytes@) == Err::<NetModel, LoadError>(e),
            },
    {
        if bytes.len() < 4 {
            return Err(LoadError::Truncated);
        }
        if !is_material(bytes) {
            return Err(LoadError::Magic);
        }
        if bytes.len() < 28 {
            return Err(LoadError::Truncated);
        }
        let mon_hidden: u32 = read_u32(bytes, 4);
        let d_emb: u32 = read_u32(bytes, 8);
        let hidden: u32 = read_u32(bytes, 12);
        let core: u32 = read_u32(bytes, 16);
        let extras: u32 = read_u32(bytes, 20);
        let global: u32 = read_u32(bytes, 24);
        if core != 95 || extras != 26 || global != 10 {
            return Err(LoadError::Dims { core, extras, global });
        }
        let mut layers: Vec<Layer> = Vec::new();
        let mut i: usize = 28;
        let ghost models: Seq<LayerModel> = Seq::empty();
        while layers.len() < N_LAYERS
            invariant
                layers@.len() <= N_LAYERS,
                bytes@.len() >= 28,
                has_magic(bytes@),
                word(bytes@, 16) == N_MON_CORE,
                word(bytes@, 20) == SIDE_V3_EXTRAS,
                word(bytes@, 24) == GLOBAL_V3_FEATURES,
                models =~= layers@.map_values(|l: Layer| l@),
                layers_at(bytes@, 28, layers@.len() as int) == Some(models),
                i == 28 + sizes(models),
                i <= bytes@.len(),
            decreases N_LAYERS - layers@.len(),
        {
            let ghost n = layers@.len() as int;
            match read_layer(bytes, i) {
                None => {
                    proof {
                        lemma_layers_missing(bytes@, 28, n + 1, N_LAYERS as int);
                    }
                    return Err(LoadError::Truncated);
                },
                Some(l) => {
                    proof {
                        models = models.push(l@);
                        assert(models.drop_last() =~= layers@.map_values(|l: Layer| l@));
                    }
                    i = i + size_of_layer(&l, bytes.len());
                    layers.push(l);
                },
            }
        }
        let expected: u128 = 4 * d_emb as u128 + 62;
        let got: usize = layers[3].weights.len();
        assert(hidden * expected <= 0xffff_ffff * 0x4_0000_0100) by (nonlinear_arith)
            requires
                hidden <= 0xffff_ffff,
                expected <= 0x4_0000_0100,
        ;
        assert(models[3] == layers@[3]@);
        if got as u128 != hidden as u128 * expected {
            return Err(LoadError::HeadInput { weights: got, hidden, d_emb });
        }
        assert(models[5] == layers@[5]@);
        let n_outputs: usize = layers[5].bias.len();
        let net = MaterialNet { mon_hidden, d_emb, hidden, n_outputs, layers };
        assert(net@.layers =~= models);
        Ok(net)
    }
}

proof fn lemma_layers_missing(b: Seq<u8>, i: int, m: int, n: int)
    requires
        m <= n,
        layers_at(b, i, m) is None,
    ensures
        layers_at(b, i, n) is None,
    decreases n,
{
    if m < n {
        lemma_layers_missing(b, i, m, n - 1);
    }
}

/// The four bytes of a word.
pub open spec fn word_bytes(n: u32) -> Seq<u8> {
    seq![
        (n % 256) as u8,
        (n / 256 % 256) as u8,
        (n / 65536 % 256) as u8,
        (n / 16777216 % 256) as u8,
    ]
}

/// The bytes of several words.
pub open spec fn words_bytes(ws: Seq<u32>) -> Seq<u8> {
    Seq::new(4 * ws.len(), |j: int| word_bytes(ws[j / 4])[j % 4])
}

/// The bytes of a layer.
pub open spec fn layer_bytes(l: LayerModel) -> Seq<u8> {
    word_bytes(l.out_dim) + word_bytes(l.in_dim) + words_bytes(l.weights) + words_bytes(l.bias)
}

/// The bytes of several layers.
pub open spec fn layers_bytes(list: Seq<LayerModel>) -> Seq<u8>
    decreases list.len(),
{
    if list.len() == 0 {
        Seq::empty()
    } else {
        layers_bytes(list.drop_last()) + layer_bytes(list.last())
    }
}

/// What stands before the layers.
pub open spec fn header_bytes(net: NetModel) -> Seq<u8> {
    seq![0x4du8, 0x41u8, 0x54u8, 0x31u8] + word_bytes(net.mon_hidden) + word_bytes(net.d_emb)
        + word_bytes(net.hidden) + word_bytes(95) + word_bytes(26) + word_bytes(10)
}

/// The bytes of a file that holds a network.
pub open spec fn file_bytes(net: NetModel) -> Seq<u8> {
    header_bytes(net) + layers_bytes(net.layers)
}

/// The layer has as many weights as its dimensions say.
pub open spec fn layer_ok(l: LayerModel) -> bool {
    &&& l.weights.len() == l.out_dim * l.in_dim
    &&& l.bias.len() == l.out_dim
}

/// The network has six sound layers, the head fits what it is fed, and the last
/// layer has as many outputs as the network.
pub open spec fn net_ok(net: NetModel) -> bool {
    &&& net.layers.len() == N_LAYERS
    &&& net.n_outputs == net.layers[5].bias.len()
    &&& forall|k: int| 0 <= k < net.layers.len() ==> layer_ok(#[trigger] net.layers[k])
    &&& net.layers[3].weights.len() == net.hidden * head_inputs(net.d_emb as int)
}

proof fn lemma_word(b: Seq<u8>, i: int, n: u32)
    requires
        0 <= i,
        i + 4 <= b.len(),
        b.subrange(i, i + 4) == word_bytes(n),
    ensures
        word(b, i) == n,
{
    let w = word_bytes(n);
    let s = b.subrange(i, i + 4);
    assert(s[0] == b[i] && s[1] == b[i + 1] && s[2] == b[i + 2] && s[3] == b[i + 3]);
    assert(n == n % 256 + 0x100 * (n / 256 % 256) + 0x1_0000 * (n / 65536 % 256) + 0x100_0000 * (n
        / 16777216 % 256)) by (nonlinear_arith)
        requires
            n <= 0xffff_ffff,
    ;
}

proof fn lemma_words(b: Seq<u8>, i: int, ws: Seq<u32>)
    requires
        0 <= i,
        i + 4 * ws.len() <= b.len(),
        b.subrange(i, i + 4 * ws.len()) == words_bytes(ws),
    ensures
        words(b, i, ws.len() as int) == ws,
{
    let part = b.subrange(i, i + 4 * ws.len());
    assert forall|k: int| 0 <= k < ws.len() implies words(b, i, ws.len() as int)[k]
        == #[trigger] ws[k] by {
        let at = i + 4 * k;
        assert forall|j: int| 0 <= j < 4 implies #[trigger] b.subrange(at, at + 4)[j] == word_bytes(
            ws[k],
        )[j] by {
            assert(part[4 * k + j] == b[at + j]);
            assert((4 * k + j) / 4 == k && (4 * k + j) % 4 == j);
        }
        assert(b.subrange(at, at + 4) =~= word_bytes(ws[k]));
        lemma_word(b, at, ws[k]);
    }
    assert(words(b, i, ws.len() as int) =~= ws);
}

proof fn lemma_layer(b: Seq<u8>, i: int, l: LayerModel)
    requires
        0 <= i,
        layer_ok(l),
        i + layer_bytes(l).len() <= b.len(),
        b.subrange(i, i + layer_bytes(l).len()) == layer_bytes(l),
    ensures
        layer_bytes(l).len() == layer_size(l.out_dim as int, l.in_dim as int),
        layer_at(b, i) == Some(l),
{
    let bytes = layer_bytes(l);
    let part = b.subrange(i, i + bytes.len());
    let n = l.weights.len() as int;
    assert(bytes.len() == 8 + 4 * n + 4 * l.out_dim);
    assert(b.subrange(i, i + 4) =~= part.subrange(0, 4));
    assert(part.subrange(0, 4) =~= word_bytes(l.out_dim));
    lemma_word(b, i, l.out_dim);
    assert(b.subrange(i + 4, i + 8) =~= part.subrange(4, 8));
    assert(part.subrange(4, 8) =~= word_bytes(l.in_dim));
    lemma_word(b, i + 4, l.in_dim);
    assert(b.subrange(i + 8, i + 8 + 4 * n) =~= part.subrange(8, 8 + 4 * n));
    assert(part.subrange(8, 8 + 4 * n) =~= words_bytes(l.weights));
    lemma_words(b, i + 8, l.weights);
    let e = 8 + 4 * n;
    assert(b.subrange(i + e, i + e + 4 * l.out_dim) =~= part.subrange(e, e + 4 * l.out_dim));
    assert(part.subrange(e, e + 4 * l.out_dim) =~= words_bytes(l.bias));
    lemma_words(b, i + e, l.bias);
    assert(layer_at(b, i)->0 =~= l);
}

proof fn lemma_layers(b: Seq<u8>, i: int, list: Seq<LayerModel>)
    requires
        0 <= i,
        forall|k: int| 0 <= k < list.len() ==> layer_ok(#[trigger] list[k]),
        i + layers_bytes(list).len() <= b.len(),
        b.subrange(i, i + layers_bytes(list).len()) == layers_bytes(list),
    ensures
        layers_bytes(list).len() == sizes(list),
        layers_at(b, i, list.len() as int) == Some(list),
    decreases list.len(),
{
    if list.len() > 0 {
        let rest = list.drop_last();
        let l = list.last();
        let whole = b.subrange(i, i + layers_bytes(list).len());
        let cut = layers_bytes(rest).len() as int;
        assert forall|k: int| 0 <= k < rest.len() implies layer_ok(#[trigger] rest[k]) by {
            assert(rest[k] == list[k]);
        }
        assert(layer_ok(list[list.len() - 1]));
        assert(b.subrange(i, i + cut) =~= whole.subrange(0, cut));
        assert(whole.subrange(0, cut) =~= layers_bytes(rest));
        lemma_layers(b, i, rest);
        let at = i + cut;
        let size = layer_bytes(l).len() as int;
        assert(b.subrange(at, at + size) =~= whole.subrange(cut, cut + size));
        assert(whole.subrange(cut, cut + size) =~= layer_bytes(l));
        lemma_layer(b, at, l);
        assert(rest.push(l) =~= list);
    } else {
        assert(list =~= Seq::empty());
    }
}

/// A file that holds a network gives it back, whatever follows in the file.
pub proof fn law_file_gives_back_the_network(net: NetModel, tail: Seq<u8>)
    requires
        net_ok(net),
    ensures
        parsed(file_bytes(net) + tail) == Ok::<NetModel, LoadError>(net),
{
    let b = file_bytes(net) + tail;
    let h = header_bytes(net);
    assert(h.len() == 28);
    assert(b.subrange(0, 28) =~= h);
    assert(b[0] == h[0] && b[1] == h[1] && b[2] == h[2] && b[3] == h[3]);
    assert(b.subrange(4, 8) =~= word_bytes(net.mon_hidden));
    lemma_word(b, 4, net.mon_hidden);
    assert(b.subrange(8, 12) =~= word_bytes(net.d_emb));
    lemma_word(b, 8, net.d_emb);
    assert(b.subrange(12, 16) =~= word_bytes(net.hidden));
    lemma_word(b, 12, net.hidden);
    assert(b.subrange(16, 20) =~= word_bytes(95));
    lemma_word(b, 16, 95);
    assert(b.subrange(20, 24) =~= word_bytes(26));
    lemma_word(b, 20, 26);
    assert(b.subrange(24, 28) =~= word_bytes(10));
    lemma_word(b, 24, 10);
    let size = layers_bytes(net.layers).len() as int;
    assert(b.subrange(28, 28 + size) =~= layers_bytes(net.layers));
    lemma_layers(b, 28, net.layers);
}

proof fn lemma_bytes_of_word(b: Seq<u8>, i: int)
    requires
        0 <= i,
        i + 4 <= b.len(),
    ensures
        word_bytes(word(b, i)) == b.subrange(i, i + 4),
{
    let (b0, b1, b2, b3) = (b[i] as int, b[i + 1] as int, b[i + 2] as int, b[i + 3] as int);
    let n = b0 + 0x100 * b1 + 0x1_0000 * b2 + 0x100_0000 * b3;
    assert(n % 256 == b0 && n / 256 % 256 == b1 && n / 65536 % 256 == b2 && n / 16777216 % 256
        == b3) by (nonlinear_arith)
        requires
            0 <= b0 < 256,
            0 <= b1 < 256,
            0 <= b2 < 256,
            0 <= b3 < 256,
            n == b0 + 0x100 * b1 + 0x1_0000 * b2 + 0x100_0000 * b3,
    ;
    assert(word_bytes(word(b, i)) =~= b.subrange(i, i + 4));
}

proof fn lemma_bytes_of_words(b: Seq<u8>, i: int, n: int)
    requires
        0 <= i,
        0 <= n,
        i + 4 * n <= b.len(),
    ensures
        words_bytes(words(b, i, n)) == b.subrange(i, i + 4 * n),
{
    let ws = words(b, i, n);
    assert forall|j: int| 0 <= j < 4 * n implies #[trigger] words_bytes(ws)[j] == b.subrange(
        i,
        i + 4 * n,
    )[j] by {
        let k = j / 4;
        lemma_bytes_of_word(b, i + 4 * k);
        assert(b.subrange(i + 4 * k, i + 4 * k + 4)[j % 4] == b[i + j]);
    }
    assert(words_bytes(ws) =~= b.subrange(i, i + 4 * n));
}

proof fn lemma_bytes_of_layer(b: Seq<u8>, i: int)
    requires
        0 <= i,
        layer_at(b, i) is Some,
    ensures
        ({
            let l = layer_at(b, i)->0;
            &&& layer_ok(l)
            &&& i + layer_size(l.out_dim as int, l.in_dim as int) <= b.len()
            &&& layer_bytes(l) == b.subrange(
                i,
                i + layer_size(l.out_dim as int, l.in_dim as int),
            )
        }),
{
    let l = layer_at(b, i)->0;
    let n = l.out_dim * l.in_dim;
    assert(n >= 0) by (nonlinear_arith)
        requires
            n == l.out_dim * l.in_dim,
    ;
    lemma_bytes_of_word(b, i);
    lemma_bytes_of_word(b, i + 4);
    lemma_bytes_of_words(b, i + 8, n);
    lemma_bytes_of_words(b, i + 8 + 4 * n, l.out_dim as int);
    assert(layer_bytes(l) =~= b.subrange(i, i + layer_size(l.out_dim as int, l.in_dim as int)));
}

proof fn lemma_bytes_of_layers(b: Seq<u8>, i: int, n: int)
    requires
        0 <= i <= b.len(),
        0 <= n,
        layers_at(b, i, n) is Some,
    ensures
        ({
            let list = layers_at(b, i, n)->0;
            &&& list.len() == n
            &&& forall|k: int| 0 <= k < n ==> layer_ok(#[trigger] list[k])
            &&& sizes(list) >= 0
            &&& i + sizes(list) <= b.len()
            &&& layers_bytes(list) == b.subrange(i, i + sizes(list))
        }),
    decreases n,
{
    let list = layers_at(b, i, n)->0;
    if n > 0 {
        lemma_bytes_of_layers(b, i, n - 1);
        let rest = layers_at(b, i, n - 1)->0;
        let at = i + sizes(rest);
        lemma_bytes_of_layer(b, at);
        let l = layer_at(b, at)->0;
        assert(list.drop_last() =~= rest);
        assert(l.out_dim * l.in_dim >= 0) by (nonlinear_arith);
        assert(layers_bytes(list) =~= b.subrange(i, i + sizes(list)));
    } else {
        assert(layers_bytes(list) =~= b.subrange(i, i));
    }
}

/// A network that was read is sound, and the file starts with exactly its bytes.
pub proof fn law_network_tells_what_the_file_holds(b: Seq<u8>, net: NetModel)
    requires
        parsed(b) == Ok::<NetModel, LoadError>(net),
    ensures
        net_ok(net),
        file_bytes(net).len() <= b.len(),
        b.take(file_bytes(net).len() as int) == file_bytes(net),
{
    lemma_bytes_of_layers(b, 28, N_LAYERS as int);
    lemma_bytes_of_word(b, 4);
    lemma_bytes_of_word(b, 8);
    lemma_bytes_of_word(b, 12);
    lemma_bytes_of_word(b, 16);
    lemma_bytes_of_word(b, 20);
    lemma_bytes_of_word(b, 24);
    let h = header_bytes(net);
    assert(h =~= b.subrange(0, 28));
    assert(b.take(28 + sizes(net.layers)) =~= h + layers_bytes(net.layers));
}

/// A file that is taken for a network starts with the four characters MAT1; then come six
/// numbers of four bytes, the lowest byte first. The last three of them are 95, 26 and 10,
/// and the first layer follows right behind.
pub proof fn law_networks_begin_with_their_numbers(b: Seq<u8>, net: NetModel)
    requires
        parsed(b) == Ok::<NetModel, LoadError>(net),
    ensures
        b.len() >= 36,
        b[0] == 77 && b[1] == 65 && b[2] == 84 && b[3] == 49,
        net.mon_hidden == b[4] + 256 * b[5] + 65536 * b[6] + 16777216 * b[7],
        net.d_emb == b[8] + 256 * b[9] + 65536 * b[10] + 16777216 * b[11],
        net.hidden == b[12] + 256 * b[13] + 65536 * b[14] + 16777216 * b[15],
        b[16] + 256 * b[17] + 65536 * b[18] + 16777216 * b[19] == 95,
        b[20] + 256 * b[21] + 65536 * b[22] + 16777216 * b[23] == 26,
        b[24] + 256 * b[25] + 65536 * b[26] + 16777216 * b[27] == 10,
        net.layers.len() == 6,
        net.layers[0].out_dim == b[28] + 256 * b[29] + 65536 * b[30] + 16777216 * b[31],
        net.layers[0].in_dim == b[32] + 256 * b[33] + 65536 * b[34] + 16777216 * b[35],
        net.n_outputs == net.layers[5].bias.len(),
        net.layers[3].weights.len() == net.hidden * (4 * net.d_emb + 62),
{
    let list = layers_at(b, 28, 6)->0;
    lemma_first_layer(b, 28, 6);
}

proof fn lemma_first_layer(b: Seq<u8>, i: int, n: int)
    requires
        n >= 1,
        layers_at(b, i, n) is Some,
    ensures
        (layers_at(b, i, n)->0).len() == n,
        layer_at(b, i) == Some((layers_at(b, i, n)->0)[0]),
    decreases n,
{
    if n > 1 {
        lemma_first_layer(b, i, n - 1);
    } else {
        assert(layers_at(b, i, 0) == Some(Seq::<LayerModel>::empty()));
        assert(sizes(Seq::<LayerModel>::empty()) == 0);
    }
}

/// A file is refused for what is wrong with it first: fewer than four bytes or an end
/// before the last layer, another beginning, numbers other than 95, 26 and 10, or a fourth
/// layer that does not fit.
pub proof fn law_files_are_refused_for_a_reason(b: Seq<u8>)
    ensures
        b.len() < 4 ==> parsed(b) == Err::<NetModel, LoadError>(LoadError::Truncated),
        b.len() >= 4 && !(b[0] == 77 && b[1] == 65 && b[2] == 84 && b[3] == 49) ==> parsed(b) == Err::<
            NetModel,
            LoadError,
        >(LoadError::Magic),
        4 <= b.len() < 28 && b[0] == 77 && b[1] == 65 && b[2] == 84 && b[3] == 49 ==> parsed(b)
            == Err::<NetModel, LoadError>(LoadError::Truncated),
{
}

/// The weights of the first layer stand behind its two numbers, and its biases behind
/// them, four bytes each with the lowest byte first.
pub proof fn law_weights_stand_in_their_order(b: Seq<u8>, net: NetModel, k: int)
    requires
        parsed(b) == Ok::<NetModel, LoadError>(net),
    ensures
        ({
            let l = net.layers[0];
            let n = l.out_dim * l.in_dim;
            &&& l.weights.len() == n
            &&& l.bias.len() == l.out_dim
            &&& 0 <= k < n ==> l.weights[k] == b[36 + 4 * k] + 256 * b[37 + 4 * k] + 65536 * b[38 + 4
                * k] + 16777216 * b[39 + 4 * k]
            &&& 0 <= k < l.out_dim ==> l.bias[k] == b[36 + 4 * n + 4 * k] + 256 * b[37 + 4 * n + 4
                * k] + 65536 * b[38 + 4 * n + 4 * k] + 16777216 * b[39 + 4 * n + 4 * k]
        }),
{
    lemma_first_layer(b, 28, 6);
    let l = net.layers[0];
    let n: int = l.out_dim * l.in_dim;
    assert(n >= 0) by (nonlinear_arith)
        requires
            n == l.out_dim * l.in_dim,
    ;
}

} // verus!
