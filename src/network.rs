use vstd::prelude::*;
use vstd::bytes::{spec_u64_from_le_bytes, spec_u64_to_le_bytes, u64_from_le_bytes, u64_to_le_bytes};
use vstd::slice::slice_subrange;

verus! {

/// Widest layer a network may have.
pub const MAX_LAYER_WIDTH: u32 = 4096;

/// Bytes per stored parameter.
pub const PARAM_BYTES: usize = 8;

/// A usable shape: at least an input and an output size, each in `1..=MAX_LAYER_WIDTH`.
pub open spec fn valid_shape(shape: Seq<u32>) -> bool {
    &&& shape.len() >= 2
    &&& forall|i: int| 0 <= i < shape.len() ==> 1 <= #[trigger] shape[i] <= MAX_LAYER_WIDTH
}

/// Parameters of layer `i` of a shape: a weight per input and output, a bias per output.
pub open spec fn layer_param_count(shape: Seq<u32>, i: int) -> int {
    shape[i] * shape[i + 1] + shape[i + 1]
}

/// Parameters of the first `i` layers of a shape.
pub open spec fn param_count_upto(shape: Seq<u32>, i: int) -> int
    decreases i,
{
    if i <= 0 {
        0
    } else {
        param_count_upto(shape, i - 1) + layer_param_count(shape, i - 1)
    }
}

/// Parameters of a network of the given shape.
pub open spec fn param_count(shape: Seq<u32>) -> int {
    param_count_upto(shape, shape.len() - 1)
}

/// The little-endian bytes of each parameter in turn.
pub open spec fn encode_params(p: Seq<u64>) -> Seq<u8>
    decreases p.len(),
{
    if p.len() == 0 {
        Seq::empty()
    } else {
        encode_params(p.drop_last()) + spec_u64_to_le_bytes(p.last())
    }
}

/// The first `count` parameters read from consecutive groups of eight bytes.
pub open spec fn decode_params(b: Seq<u8>, count: int) -> Seq<u64> {
    Seq::new(count as nat, |i: int| spec_u64_from_le_bytes(b.subrange(8 * i, 8 * i + 8)))
}

/// One dense layer. Each weight and bias is kept as the bit pattern of an
/// IEEE-754 double; weights are row-major, one row per output.
pub struct Layer {
    pub(crate) input_size: u32,
    pub(crate) output_size: u32,
    pub(crate) weights: Vec<u64>,
    pub(crate) biases: Vec<u64>,
}

impl Layer {
    pub open(crate) spec fn wf(&self) -> bool {
        &&& 1 <= self.input_size <= MAX_LAYER_WIDTH
        &&& 1 <= self.output_size <= MAX_LAYER_WIDTH
        &&& self.weights@.len() == self.input_size * self.output_size
        &&& self.biases@.len() == self.output_size
    }

    /// Every weight, then every bias.
    pub open(crate) spec fn params(&self) -> Seq<u64> {
        self.weights@ + self.biases@
    }

    pub open(crate) spec fn weight_bits(&self) -> Seq<u64> {
        self.weights@
    }

    pub open(crate) spec fn bias_bits(&self) -> Seq<u64> {
        self.biases@
    }

    pub open(crate) spec fn inputs(&self) -> int {
        self.input_size as int
    }

    pub open(crate) spec fn outputs(&self) -> int {
        self.output_size as int
    }

    pub fn input_size(&self) -> (r: u32)
        ensures
            r as int == self.inputs(),
    {
        self.input_size
    }

    pub fn output_size(&self) -> (r: u32)
        ensures
            r as int == self.outputs(),
    {
        self.output_size
    }

    /// The weights, row-major with one row per output.
    pub fn weights(&self) -> (r: &Vec<u64>)
        ensures
            r@ == self.weight_bits(),
    {
        &self.weights
    }

    pub fn biases(&self) -> (r: &Vec<u64>)
        ensures
            r@ == self.bias_bits(),
    {
        &self.biases
    }

    /// Deep copy.
    pub fn duplicate(&self) -> (r: Layer)
        ensures
            r.inputs() == self.inputs(),
            r.outputs() == self.outputs(),
            r.weight_bits() == self.weight_bits(),
            r.bias_bits() == self.bias_bits(),
    {
        Layer {
            input_size: self.input_size,
            output_size: self.output_size,
            weights: copy_params(&self.weights),
            biases: copy_params(&self.biases),
        }
    }
}

/// Every parameter of a sequence of layers, layer after layer.
pub open(crate) spec fn params_of(ls: Seq<Layer>) -> Seq<u64>
    decreases ls.len(),
{
    if ls.len() == 0 {
        Seq::empty()
    } else {
        params_of(ls.drop_last()) + ls.last().params()
    }
}

/// Input size of the first layer, then the output size of each layer.
pub open(crate) spec fn shape_of(ls: Seq<Layer>) -> Seq<u32> {
    Seq::new(ls.len() + 1, |i: int| if i == 0 { ls[0].input_size } else { ls[i - 1].output_size })
}

fn copy_params(v: &Vec<u64>) -> (r: Vec<u64>)
    ensures
        r@ == v@,
{
    let mut r: Vec<u64> = Vec::new();
    append_params(&mut r, v);
    r
}

fn append_params(out: &mut Vec<u64>, src: &Vec<u64>)
    ensures
        final(out)@ == old(out)@ + src@,
{
    let ghost start = out@;
    let mut k: usize = 0;
    while k < src.len()
        invariant
            k <= src@.len(),
            out@ == start + src@.take(k as int),
        decreases src@.len() - k,
    {
        out.push(src[k]);
        k = k + 1;
        assert(out@ =~= start + src@.take(k as int));
    }
    assert(src@.take(src@.len() as int) =~= src@);
}

/// A stack of dense layers, each feeding the next.
pub struct NeuralNetwork {
    pub(crate) layers: Vec<Layer>,
}

impl NeuralNetwork {
    /// Well-formed: at least one layer, each well-formed, each output size
    /// equal to the next layer's input size.
    pub open(crate) spec fn wf(&self) -> bool {
        &&& self.layers@.len() >= 1
        &&& forall|i: int| 0 <= i < self.layers@.len() ==> (#[trigger] self.layers@[i]).wf()
        &&& forall|i: int|
            0 <= i < self.layers@.len() - 1 ==> (#[trigger] self.layers@[i]).output_size
                == self.layers@[i + 1].input_size
    }

    /// Sizes from the input through each layer's output.
    pub open(crate) spec fn shape(&self) -> Seq<u32> {
        shape_of(self.layers@)
    }

    /// Every weight then every bias of each layer, in layer order.
    pub open(crate) spec fn params(&self) -> Seq<u64> {
        params_of(self.layers@)
    }

    pub open(crate) spec fn layer_view(&self) -> Seq<Layer> {
        self.layers@
    }

    pub fn layers(&self) -> (r: &Vec<Layer>)
        ensures
            r@ == self.layer_view(),
    {
        &self.layers
    }

    /// Builds a network of the given shape from its parameters in storage
    /// order; `None` when the shape is unusable or the count does not match.
    pub fn from_parameters(shape: &Vec<u32>, params: &Vec<u64>) -> (r: Option<NeuralNetwork>)
        ensures
            r is Some <==> valid_shape(shape@) && params@.len() == param_count(shape@),
            r matches Some(net) ==> net.wf() && net.shape() == shape@ && net.params() == params@,
    {
        if !check_shape(shape) {
            return None;
        }
        let nlayers = shape.len() - 1;
        let mut layers: Vec<Layer> = Vec::new();
        let mut off: usize = 0;
        let mut i: usize = 0;
        while i < nlayers
            invariant
                valid_shape(shape@),
                nlayers == shape@.len() - 1,
                i <= nlayers,
                off <= params@.len(),
                off as int == param_count_upto(shape@, i as int),
                layers@.len() == i,
                params_of(layers@) == params@.take(off as int),
                forall|j: int| 0 <= j < i ==> (#[trigger] layers@[j]).wf(),
                forall|j: int|
                    0 <= j < i ==> (#[trigger] layers@[j]).input_size == shape@[j]
                        && layers@[j].output_size == shape@[j + 1],
            decreases nlayers - i,
        {
            let a = shape[i];
            let b = shape[i + 1];
            proof {
                lemma_layer_count_bound(a as int, b as int);
            }
            let nw: usize = (a as usize) * (b as usize);
            let nb: usize = b as usize;
            if nw + nb > params.len() - off {
                proof {
                    lemma_count_monotone(shape@, i as int + 1, nlayers as int);
                }
                return None;
            }
            let weights = take_params(params, off, nw);
            let biases = take_params(params, off + nw, nb);
            let layer = Layer { input_size: a, output_size: b, weights, biases };
            let ghost old_layers = layers@;
            layers.push(layer);
            proof {
                assert(layers@.drop_last() =~= old_layers);
                assert(params@.take((off + nw + nb) as int) =~= params@.take(off as int)
                    + params@.subrange(off as int, (off + nw) as int) + params@.subrange(
                    (off + nw) as int,
                    (off + nw + nb) as int,
                ));
            }
            off = off + nw + nb;
            i = i + 1;
        }
        if off != params.len() {
            return None;
        }
        proof {
            assert(params@.take(off as int) =~= params@);
        }
        let net = NeuralNetwork { layers };
        assert(net.shape() =~= shape@);
        Some(net)
    }

    /// The parameters in storage order.
    pub fn parameters(&self) -> (r: Vec<u64>)
        requires
            self.wf(),
        ensures
            r@ == self.params(),
    {
        let mut out: Vec<u64> = Vec::new();
        let mut i: usize = 0;
        while i < self.layers.len()
            invariant
                i <= self.layers@.len(),
                out@ == params_of(self.layers@.take(i as int)),
            decreases self.layers@.len() - i,
        {
            let layer = &self.layers[i];
            append_params(&mut out, &layer.weights);
            append_params(&mut out, &layer.biases);
            proof {
                assert(self.layers@.take(i + 1).drop_last() =~= self.layers@.take(i as int));
            }
            i = i + 1;
        }
        assert(self.layers@.take(self.layers@.len() as int) =~= self.layers@);
        out
    }

    /// The weight file: each parameter as eight little-endian bytes, in storage order.
    pub fn serialize(&self) -> (r: Vec<u8>)
        requires
            self.wf(),
        ensures
            r@ == encode_params(self.params()),
    {
        let p = self.parameters();
        let mut out: Vec<u8> = Vec::new();
        let mut i: usize = 0;
        while i < p.len()
            invariant
                i <= p@.len(),
                out@ == encode_params(p@.take(i as int)),
            decreases p@.len() - i,
        {
            let mut bytes = u64_to_le_bytes(p[i]);
            out.append(&mut bytes);
            proof {
                assert(p@.take(i + 1).drop_last() =~= p@.take(i as int));
            }
            i = i + 1;
        }
        assert(p@.take(p@.len() as int) =~= p@);
        out
    }

    /// Reads a weight file written for `shape`. `None` when the shape is
    /// unusable or the file holds fewer bytes than the shape needs; bytes past
    /// those are ignored.
    pub fn deserialize(shape: &Vec<u32>, bytes: &Vec<u8>) -> (r: Option<NeuralNetwork>)
        ensures
            r is Some <==> valid_shape(shape@) && 8 * param_count(shape@) <= bytes@.len(),
            r matches Some(net) ==> net.wf() && net.shape() == shape@ && net.params()
                == decode_params(bytes@, param_count(shape@)),
    {
        if !check_shape(shape) {
            return None;
        }
        let count = match count_params_within(shape, bytes.len() / PARAM_BYTES) {
            Some(c) => c,
            None => {
                return None;
            },
        };
        let params = decode_prefix(bytes, count);
        NeuralNetwork::from_parameters(shape, &params)
    }

    /// Deep copy.
    pub fn duplicate(&self) -> (r: NeuralNetwork)
        requires
            self.wf(),
        ensures
            r.wf(),
            r.shape() == self.shape(),
            r.params() == self.params(),
            r.layer_view().len() == self.layer_view().len(),
    {
        let mut layers: Vec<Layer> = Vec::new();
        let mut i: usize = 0;
        while i < self.layers.len()
            invariant
                self.wf(),
                i <= self.layers@.len(),
                layers@.len() == i,
                forall|j: int|
                    0 <= j < i ==> (#[trigger] layers@[j]).input_size == self.layers@[j].input_size
                        && layers@[j].output_size == self.layers@[j].output_size
                        && layers@[j].weights@ == self.layers@[j].weights@
                        && layers@[j].biases@ == self.layers@[j].biases@,
                params_of(layers@) == params_of(self.layers@.take(i as int)),
            decreases self.layers@.len() - i,
        {
            let l = self.layers[i].duplicate();
            let ghost before = layers@;
            layers.push(l);
            proof {
                assert(layers@.drop_last() =~= before);
                assert(self.layers@.take(i + 1).drop_last() =~= self.layers@.take(i as int));
            }
            i = i + 1;
        }
        assert(self.layers@.take(self.layers@.len() as int) =~= self.layers@);
        let r = NeuralNetwork { layers };
        assert(r.shape() =~= self.shape());
        r
    }
}

proof fn lemma_layer_count_bound(a: int, b: int)
    requires
        1 <= a <= MAX_LAYER_WIDTH,
        1 <= b <= MAX_LAYER_WIDTH,
    ensures
        0 <= a * b <= MAX_LAYER_WIDTH * MAX_LAYER_WIDTH,
{
    assert(0 <= a * b <= MAX_LAYER_WIDTH * MAX_LAYER_WIDTH) by (nonlinear_arith)
        requires
            1 <= a <= MAX_LAYER_WIDTH,
            1 <= b <= MAX_LAYER_WIDTH,
    ;
}

proof fn lemma_count_monotone(shape: Seq<u32>, i: int, j: int)
    requires
        valid_shape(shape),
        0 <= i <= j <= shape.len() - 1,
    ensures
        param_count_upto(shape, i) <= param_count_upto(shape, j),
    decreases j - i,
{
    if i < j {
        lemma_count_monotone(shape, i, j - 1);
        lemma_layer_count_bound(shape[j - 1] as int, shape[j] as int);
    }
}

/// Whether the shape is usable.
fn check_shape(shape: &Vec<u32>) -> (r: bool)
    ensures
        r == valid_shape(shape@),
{
    if shape.len() < 2 {
        return false;
    }
    let mut i: usize = 0;
    while i < shape.len()
        invariant
            i <= shape@.len(),
            forall|k: int| 0 <= k < i ==> 1 <= #[trigger] shape@[k] <= MAX_LAYER_WIDTH,
        decreases shape@.len() - i,
    {
        if shape[i] < 1 || shape[i] > MAX_LAYER_WIDTH {
            return false;
        }
        i = i + 1;
    }
    true
}

/// The parameter count of a usable shape, when it is at most `limit`.
fn count_params_within(shape: &Vec<u32>, limit: usize) -> (r: Option<usize>)
    requires
        valid_shape(shape@),
    ensures
        r is Some <==> param_count(shape@) <= limit,
        r matches Some(c) ==> c as int == param_count(shape@),
{
    let nlayers = shape.len() - 1;
    let mut total: usize = 0;
    let mut i: usize = 0;
    while i < nlayers
        invariant
            valid_shape(shape@),
            nlayers == shape@.len() - 1,
            i <= nlayers,
            total <= limit,
            total as int == param_count_upto(shape@, i as int),
        decreases nlayers - i,
    {
        let a = shape[i];
        let b = shape[i + 1];
        proof {
            lemma_layer_count_bound(a as int, b as int);
        }
        let c: usize = (a as usize) * (b as usize) + (b as usize);
        if c > limit - total {
            proof {
                lemma_count_monotone(shape@, i as int + 1, nlayers as int);
            }
            return None;
        }
        total = total + c;
        i = i + 1;
    }
    Some(total)
}

/// `params[off .. off + len]` as a vector.
fn take_params(params: &Vec<u64>, off: usize, len: usize) -> (r: Vec<u64>)
    requires
        off + len <= params@.len(),
    ensures
        r@ == params@.subrange(off as int, off + len),
{
    let plen = params.len();
    let mut r: Vec<u64> = Vec::new();
    let mut k: usize = 0;
    while k < len
        invariant
            plen == params@.len(),
            off + len <= params@.len(),
            k <= len,
            r@ == params@.subrange(off as int, off + k),
        decreases len - k,
    {
        r.push(params[off + k]);
        k = k + 1;
        assert(r@ =~= params@.subrange(off as int, off + k));
    }
    r
}

/// The first `count` parameters stored in `bytes`.
fn decode_prefix(bytes: &Vec<u8>, count: usize) -> (r: Vec<u64>)
    requires
        count <= bytes@.len() / 8,
    ensures
        r@ == decode_params(bytes@, count as int),
{
    let blen = bytes.len();
    let mut r: Vec<u64> = Vec::new();
    let mut i: usize = 0;
    while i < count
        invariant
            blen == bytes@.len(),
            count <= bytes@.len() / 8,
            i <= count,
            r@ == decode_params(bytes@, i as int),
        decreases count - i,
    {
        let chunk = slice_subrange(bytes.as_slice(), 8 * i, 8 * i + 8);
        let x = u64_from_le_bytes(chunk);
        r.push(x);
        i = i + 1;
        assert(r@ =~= decode_params(bytes@, i as int));
    }
    r
}

proof fn lemma_encode_len(p: Seq<u64>)
    ensures
        encode_params(p).len() == 8 * p.len(),
    decreases p.len(),
{
    vstd::bytes::lemma_auto_spec_u64_to_from_le_bytes();
    if p.len() > 0 {
        lemma_encode_len(p.drop_last());
    }
}

proof fn lemma_encode_chunk(p: Seq<u64>, i: int)
    requires
        0 <= i < p.len(),
    ensures
        encode_params(p).subrange(8 * i, 8 * i + 8) == spec_u64_to_le_bytes(p[i]),
    decreases p.len(),
{
    vstd::bytes::lemma_auto_spec_u64_to_from_le_bytes();
    let front = encode_params(p.drop_last());
    lemma_encode_len(p.drop_last());
    if i == p.len() - 1 {
        assert(encode_params(p).subrange(8 * i, 8 * i + 8) =~= spec_u64_to_le_bytes(p[i]));
    } else {
        lemma_encode_chunk(p.drop_last(), i);
        assert(encode_params(p).subrange(8 * i, 8 * i + 8) =~= front.subrange(8 * i, 8 * i + 8));
    }
}

/// Reading back what was written gives every parameter bit for bit.
pub proof fn lemma_round_trip(p: Seq<u64>)
    ensures
        encode_params(p).len() == 8 * p.len(),
        decode_params(encode_params(p), p.len() as int) == p,
{
    vstd::bytes::lemma_auto_spec_u64_to_from_le_bytes();
    lemma_encode_len(p);
    assert forall|i: int| 0 <= i < p.len() implies #[trigger] decode_params(
        encode_params(p),
        p.len() as int,
    )[i] == p[i] by {
        lemma_encode_chunk(p, i);
    }
    assert(decode_params(encode_params(p), p.len() as int) =~= p);
}

/// A network written out and read back with its own shape is the same
/// network: same shape and every weight and bias bit for bit.
pub proof fn lemma_network_round_trip(net: NeuralNetwork)
    requires
        net.wf(),
    ensures
        valid_shape(net.shape()),
        net.params().len() == param_count(net.shape()),
        8 * param_count(net.shape()) <= encode_params(net.params()).len(),
        decode_params(encode_params(net.params()), param_count(net.shape())) == net.params(),
{
    lemma_params_len(net.layers@);
    lemma_round_trip(net.params());
}

proof fn lemma_params_len(ls: Seq<Layer>)
    requires
        ls.len() >= 1,
        forall|i: int| 0 <= i < ls.len() ==> (#[trigger] ls[i]).wf(),
        forall|i: int| 0 <= i < ls.len() - 1 ==> (#[trigger] ls[i]).output_size == ls[i + 1].input_size,
    ensures
        valid_shape(shape_of(ls)),
        params_of(ls).len() == param_count(shape_of(ls)),
    decreases ls.len(),
{
    let s = shape_of(ls);
    assert forall|i: int| 0 <= i < s.len() implies 1 <= #[trigger] s[i] <= MAX_LAYER_WIDTH by {
        if i > 0 {
            assert(ls[i - 1].wf());
        } else {
            assert(ls[0].wf());
        }
    }
    if ls.len() > 1 {
        let front = ls.drop_last();
        lemma_params_len(front);
        let fs = shape_of(front);
        assert(fs =~= s.take(ls.len() as int));
        lemma_count_prefix(fs, s, ls.len() - 1);
    } else {
        assert(param_count_upto(s, 0) == 0);
        assert(params_of(ls.drop_last()) =~= Seq::<u64>::empty());
    }
}

proof fn lemma_count_prefix(a: Seq<u32>, b: Seq<u32>, i: int)
    requires
        0 <= i,
        i + 1 <= a.len() <= b.len(),
        forall|k: int| 0 <= k < a.len() ==> a[k] == b[k],
    ensures
        param_count_upto(a, i) == param_count_upto(b, i),
    decreases i,
{
    if i > 0 {
        lemma_count_prefix(a, b, i - 1);
    }
}

} // verus!
