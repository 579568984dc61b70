//! The feed-forward neural network.
//!
//! A network is an ordered sequence of layers; a layer an ordered sequence
//! of neurons; a neuron one bias and one weight per input from the previous
//! layer. Inference applies, layer by layer, `relu(bias + dot(weights, in))`
//! in fixed point. The flat wire order — for each layer in order, for each
//! neuron in order: bias, then weights in index order — is the binding
//! contract between this module and the genetic algorithm, and
//! [`Network::from_weights`] consumes exactly that order back.

use vstd::prelude::*;
use crate::fixed::{
    SCALE, VAL_MAX, in_range, all_in_range, clip_sp, div_scale_sp, div_scale128, clip128,
};
use crate::rng::rand_i64_range;
use rand_chacha::ChaCha8Rng;

verus! {

pub struct Neuron {
    pub bias: i64,
    pub weights: Vec<i64>,
}

pub struct Layer {
    pub neurons: Vec<Neuron>,
}

pub struct Network {
    pub layers: Vec<Layer>,
    pub topology: Ghost<Seq<usize>>,
}

/// One layer width of a topology.
pub struct LayerTopology {
    pub neurons: usize,
}

/// The widths named by a topology slice.
pub open spec fn widths_of(ts: Seq<LayerTopology>) -> Seq<usize> {
    Seq::new(ts.len(), |i: int| ts[i].neurons)
}

/// Every scalar of the neuron lies in the half-open unit interval the
/// random construction draws from.
pub open spec fn neuron_in_unit(n: Neuron) -> bool {
    &&& -SCALE <= n.bias < SCALE
    &&& forall|k: int|
        0 <= k < n.weights@.len() ==> -SCALE <= #[trigger] n.weights@[k] < SCALE
}

/// Every bias and weight of the network lies in the half-open unit interval
/// the random construction draws from.
pub open spec fn net_in_unit(net: Network) -> bool {
    forall|i: int, j: int|
        0 <= i < net.layers@.len() && 0 <= j < net.layers@[i].neurons@.len()
            ==> neuron_in_unit(#[trigger] net.layers@[i].neurons@[j])
}

pub open spec fn neuron_wf(n: Neuron, n_in: int) -> bool {
    &&& n.weights@.len() == n_in
    &&& in_range(n.bias as int)
    &&& all_in_range(n.weights@)
}

pub open spec fn layer_wf(l: Layer, n_in: int, n_out: int) -> bool {
    &&& l.neurons@.len() == n_out
    &&& forall|j: int| 0 <= j < l.neurons@.len() ==> neuron_wf(#[trigger] l.neurons@[j], n_in)
}

impl Network {
    /// The layer widths this network was built for.
    pub open spec fn topology_sp(&self) -> Seq<usize> {
        self.topology@
    }

    pub open spec fn layers_sp(&self) -> Seq<Layer> {
        self.layers@
    }

    /// Shape invariant: the layers match the topology, and every stored
    /// scalar is in range.
    pub open spec fn wf(&self) -> bool {
        &&& self.topology_sp().len() == self.layers_sp().len() + 1
        &&& self.topology_sp().len() >= 2
        &&& forall|i: int|
            0 <= i < self.layers_sp().len() ==> layer_wf(
                #[trigger] self.layers_sp()[i],
                self.topology_sp()[i] as int,
                self.topology_sp()[i + 1] as int,
            )
    }
}

/// Dot product of the first `k` weight/input pairs.
pub open spec fn dot_sp(ws: Seq<i64>, xs: Seq<i64>, k: int) -> int
    decreases k,
{
    if k <= 0 {
        0
    } else {
        dot_sp(ws, xs, k - 1) + ws[k - 1] * xs[k - 1]
    }
}

pub open spec fn relu_sp(x: int) -> int {
    if x < 0 {
        0
    } else {
        x
    }
}

/// A neuron's response: rectified, clipped `bias + dot(weights, inputs)`.
pub open spec fn neuron_out_sp(n: Neuron, xs: Seq<i64>) -> int {
    clip_sp(relu_sp(n.bias + div_scale_sp(dot_sp(n.weights@, xs, n.weights@.len() as int))))
}

/// A layer's response: each neuron applied to the same inputs, in order.
pub open spec fn layer_out_sp(l: Layer, xs: Seq<i64>) -> Seq<i64> {
    Seq::new(l.neurons@.len(), |j: int| neuron_out_sp(l.neurons@[j], xs) as i64)
}

/// The network's response: the layers folded over the input in order.
pub open spec fn net_out_sp(layers: Seq<Layer>, xs: Seq<i64>) -> Seq<i64>
    decreases layers.len(),
{
    if layers.len() == 0 {
        xs
    } else {
        net_out_sp(layers.drop_first(), layer_out_sp(layers[0], xs))
    }
}

/// The flat wire order of one neuron: bias, then weights in index order.
pub open spec fn neuron_weights_sp(n: Neuron) -> Seq<i64> {
    seq![n.bias].add(n.weights@)
}

/// The flat wire order of the first `k` neurons of a layer.
pub open spec fn neurons_flat_sp(ns: Seq<Neuron>, k: int) -> Seq<i64>
    decreases k,
{
    if k <= 0 {
        Seq::empty()
    } else {
        neurons_flat_sp(ns, k - 1).add(neuron_weights_sp(ns[k - 1]))
    }
}

/// The flat wire order of the first `k` layers of a network.
pub open spec fn layers_flat_sp(ls: Seq<Layer>, k: int) -> Seq<i64>
    decreases k,
{
    if k <= 0 {
        Seq::empty()
    } else {
        layers_flat_sp(ls, k - 1).add(
            neurons_flat_sp(ls[k - 1].neurons@, ls[k - 1].neurons@.len() as int),
        )
    }
}

/// The full flat wire order of a network.
pub open spec fn net_weights_sp(net: Network) -> Seq<i64> {
    layers_flat_sp(net.layers@, net.layers@.len() as int)
}

/// The number of scalars the first `k` layer transitions of a topology call
/// for: each of the `widths[i+1]` neurons takes one bias and `widths[i]`
/// weights.
pub open spec fn weight_count_upto(widths: Seq<usize>, k: int) -> int
    decreases k,
{
    if k <= 0 {
        0
    } else {
        weight_count_upto(widths, k - 1) + (1 + widths[k - 1] as int) * (widths[k] as int)
    }
}

/// The number of scalars a whole topology calls for.
pub open spec fn weight_count_sp(widths: Seq<usize>) -> int {
    weight_count_upto(widths, widths.len() - 1)
}

impl Neuron {
    pub fn new(bias: i64, weights: Vec<i64>) -> (r: Neuron)
        ensures
            r == (Neuron { bias, weights }),
    {
        Neuron { bias, weights }
    }

    pub open spec fn bias_sp(&self) -> i64 {
        self.bias
    }

    pub open spec fn weights_sp(&self) -> Seq<i64> {
        self.weights@
    }

    /// The rectified, clipped response to `inputs`.
    ///
    /// Any neuron whose bias plus weighted input sum is negative responds
    /// with exactly zero.
    pub fn propagate(&self, inputs: &Vec<i64>) -> (r: i64)
        requires
            neuron_wf(*self, inputs@.len() as int),
            all_in_range(inputs@),
        ensures
            r as int == neuron_out_sp(*self, inputs@),
            0 <= r <= VAL_MAX,
            self.bias_sp() + div_scale_sp(
                dot_sp(self.weights_sp(), inputs@, inputs@.len() as int),
            ) < 0 ==> r == 0,
    {
        let n: usize = self.weights.len();
        let mut acc: i128 = 0;
        let mut k: usize = 0;
        while k < n
            invariant
                n == self.weights@.len(),
                n == inputs@.len(),
                k <= n,
                neuron_wf(*self, inputs@.len() as int),
                all_in_range(inputs@),
                acc as int == dot_sp(self.weights@, inputs@, k as int),
                -(k as int) * 0x1000000000000000 <= acc as int <= (k as int)
                    * 0x1000000000000000,
            decreases n - k,
        {
            let w: i64 = self.weights[k];
            let x: i64 = inputs[k];
            proof {
                // |w * x| <= VAL_MAX^2 == 2^60
                assert(-0x1000000000000000 <= (w as int) * (x as int)
                    <= 0x1000000000000000) by (nonlinear_arith)
                    requires
                        -(VAL_MAX as int) <= w as int <= VAL_MAX as int,
                        -(VAL_MAX as int) <= x as int <= VAL_MAX as int,
                ;
            }
            acc = acc + (w as i128) * (x as i128);
            k = k + 1;
        }
        let scaled: i128 = div_scale128(acc);
        let v: i128 = (self.bias as i128) + scaled;
        if v < 0 {
            0
        } else {
            clip128(v)
        }
    }
}

impl Layer {
    pub open spec fn neurons_sp(&self) -> Seq<Neuron> {
        self.neurons@
    }

    /// Each neuron's response to the same inputs, in neuron order.
    pub fn propagate(&self, inputs: &Vec<i64>) -> (r: Vec<i64>)
        requires
            layer_wf(*self, inputs@.len() as int, self.neurons_sp().len() as int),
            all_in_range(inputs@),
        ensures
            r@ == layer_out_sp(*self, inputs@),
            r@.len() == self.neurons_sp().len(),
            all_in_range(r@),
    {
        let n: usize = self.neurons.len();
        let mut out: Vec<i64> = Vec::new();
        let mut j: usize = 0;
        while j < n
            invariant
                n == self.neurons@.len(),
                j <= n,
                layer_wf(*self, inputs@.len() as int, self.neurons_sp().len() as int),
                all_in_range(inputs@),
                out@.len() == j,
                forall|t: int|
                    0 <= t < j ==> out@[t] as int == neuron_out_sp(
                        #[trigger] self.neurons@[t],
                        inputs@,
                    ),
            decreases n - j,
        {
            let v: i64 = self.neurons[j].propagate(inputs);
            out.push(v);
            j = j + 1;
        }
        proof {
            assert(out@ =~= layer_out_sp(*self, inputs@));
        }
        out
    }
}

impl Network {
    /// A network matching the topology, with every bias and weight drawn
    /// uniformly from `[-SCALE, SCALE)`; fewer than two widths is a
    /// misconfiguration and is ruled out.
    pub fn random(rng: &mut ChaCha8Rng, topology: &Vec<LayerTopology>) -> (r: Network)
        requires
            topology@.len() >= 2,
        ensures
            r.wf(),
            r.topology_sp() == widths_of(topology@),
            net_in_unit(r),
    {
        let depth: usize = topology.len();
        let mut layers: Vec<Layer> = Vec::new();
        let mut i: usize = 0;
        while i + 1 < depth
            invariant
                depth == topology@.len(),
                depth >= 2,
                i + 1 <= depth,
                layers@.len() == i,
                forall|t: int|
                    0 <= t < i ==> layer_wf(
                        #[trigger] layers@[t],
                        topology@[t].neurons as int,
                        topology@[t + 1].neurons as int,
                    ),
                forall|t: int, u: int|
                    0 <= t < i && 0 <= u < layers@[t].neurons@.len() ==> neuron_in_unit(
                        #[trigger] layers@[t].neurons@[u],
                    ),
            decreases depth - i,
        {
            let n_in: usize = topology[i].neurons;
            let n_out: usize = topology[i + 1].neurons;
            let mut neurons: Vec<Neuron> = Vec::new();
            let mut j: usize = 0;
            while j < n_out
                invariant
                    neurons@.len() == j,
                    j <= n_out,
                    forall|t: int|
                        0 <= t < j ==> neuron_wf(#[trigger] neurons@[t], n_in as int),
                    forall|t: int| 0 <= t < j ==> neuron_in_unit(#[trigger] neurons@[t]),
                decreases n_out - j,
            {
                neurons.push(Neuron::random(rng, n_in));
                j = j + 1;
            }
            layers.push(Layer { neurons });
            i = i + 1;
        }
        let r = Network { layers, topology: Ghost(widths_of(topology@)) };
        proof {
            assert(r.wf());
            assert(net_in_unit(r));
        }
        r
    }

    /// Feed the input through every layer in order and return the last
    /// layer's response. The input length must equal the first topology
    /// width; the output length equals the last.
    pub fn propagate(&self, input: Vec<i64>) -> (r: Vec<i64>)
        requires
            self.wf(),
            input@.len() == self.topology_sp()[0] as int,
            all_in_range(input@),
        ensures
            r@ == net_out_sp(self.layers_sp(), input@),
            r@.len() == self.topology_sp().last() as int,
            all_in_range(r@),
    {
        let depth: usize = self.layers.len();
        let mut acc: Vec<i64> = input;
        let mut i: usize = 0;
        proof {
            assert(self.layers_sp().skip(0) =~= self.layers_sp());
        }
        while i < depth
            invariant
                depth == self.layers@.len(),
                i <= depth,
                self.wf(),
                all_in_range(acc@),
                acc@.len() == self.topology_sp()[i as int] as int,
                net_out_sp(self.layers_sp().skip(i as int), acc@) == net_out_sp(
                    self.layers_sp(),
                    input@,
                ),
            decreases depth - i,
        {
            proof {
                assert(self.layers_sp().skip(i as int)[0] == self.layers_sp()[i as int]);
                assert(self.layers_sp().skip(i as int).drop_first() =~= self.layers_sp().skip(
                    i as int + 1,
                ));
            }
            acc = self.layers[i].propagate(&acc);
            i = i + 1;
        }
        proof {
            assert(self.layers_sp().skip(depth as int) =~= Seq::<Layer>::empty());
        }
        acc
    }
}

impl Neuron {
    /// A neuron with `n_in` weights, bias and weights drawn uniformly from
    /// `[-SCALE, SCALE)`.
    pub fn random(rng: &mut ChaCha8Rng, n_in: usize) -> (r: Neuron)
        ensures
            neuron_wf(r, n_in as int),
            neuron_in_unit(r),
    {
        let mut weights: Vec<i64> = Vec::new();
        let mut k: usize = 0;
        while k < n_in
            invariant
                weights@.len() == k,
                k <= n_in,
                all_in_range(weights@),
                forall|t: int| 0 <= t < k ==> -SCALE <= #[trigger] weights@[t] < SCALE,
            decreases n_in - k,
        {
            weights.push(rand_i64_range(rng, -SCALE, SCALE));
            k = k + 1;
        }
        let bias: i64 = rand_i64_range(rng, -SCALE, SCALE);
        Neuron { bias, weights }
    }
}

/// Why a flat weight sequence cannot be consumed by a topology.
#[derive(Clone, Copy, Debug, PartialEq, Eq, Structural)]
pub enum WeightsError {
    /// The sequence ran out before every neuron was filled.
    NotEnough,
    /// Elements were left over after every neuron was filled.
    TooMany,
}

impl Neuron {
    /// Consume one bias and `n_in` weights from `weights`, starting at `pos`.
    pub fn from_weights(n_in: usize, weights: &Vec<i64>, pos: &mut usize) -> (r: Option<
        Neuron,
    >)
        requires
            *old(pos) <= weights@.len(),
            all_in_range(weights@),
        ensures
            r is Some <==> weights@.len() - *old(pos) >= 1 + n_in as int,
            r is None ==> *final(pos) == *old(pos),
            r matches Some(nr) ==> {
                &&& *final(pos) == *old(pos) + 1 + n_in
                &&& neuron_wf(nr, n_in as int)
                &&& neuron_weights_sp(nr) == weights@.subrange(
                    *old(pos) as int,
                    *final(pos) as int,
                )
            },
    {
        let len: usize = weights.len();
        let avail: usize = len - *pos;
        if avail < 1 || avail - 1 < n_in {
            return None;
        }
        let bias: i64 = weights[*pos];
        let start: usize = *pos + 1;
        let mut ws: Vec<i64> = Vec::new();
        let mut k: usize = 0;
        while k < n_in
            invariant
                len == weights@.len(),
                start + n_in <= len,
                all_in_range(weights@),
                k <= n_in,
                ws@.len() == k,
                forall|t: int| 0 <= t < k ==> ws@[t] == weights@[start + t],
            decreases n_in - k,
        {
            ws.push(weights[start + k]);
            k = k + 1;
        }
        *pos = start + n_in;
        let nr = Neuron { bias, weights: ws };
        proof {
            assert(neuron_weights_sp(nr) =~= weights@.subrange(
                start - 1,
                start + n_in as int,
            ));
        }
        Some(nr)
    }
}

impl Layer {
    /// Consume `n_out` neurons of `n_in` weights each from `weights`,
    /// starting at `pos`.
    pub fn from_weights(n_in: usize, n_out: usize, weights: &Vec<i64>, pos: &mut usize) -> (r:
        Option<Layer>)
        requires
            *old(pos) <= weights@.len(),
            all_in_range(weights@),
        ensures
            r is None ==> *final(pos) == *old(pos),
            r is None ==> weights@.len() < *old(pos) + (1 + n_in as int) * (n_out as int),
            r matches Some(l) ==> {
                &&& layer_wf(l, n_in as int, n_out as int)
                &&& *final(pos) as int == *old(pos) + (1 + n_in as int) * (n_out as int)
                &&& *final(pos) <= weights@.len()
                &&& neurons_flat_sp(l.neurons@, n_out as int) == weights@.subrange(
                    *old(pos) as int,
                    *final(pos) as int,
                )
            },
    {
        let start: usize = *pos;
        let mut neurons: Vec<Neuron> = Vec::new();
        let mut j: usize = 0;
        while j < n_out
            invariant
                start == *old(pos),
                start <= *pos <= weights@.len(),
                all_in_range(weights@),
                j <= n_out,
                neurons@.len() == j,
                *pos as int == start + (1 + n_in as int) * (j as int),
                forall|t: int| 0 <= t < j ==> neuron_wf(#[trigger] neurons@[t], n_in as int),
                neurons_flat_sp(neurons@, j as int) == weights@.subrange(
                    start as int,
                    *pos as int,
                ),
            decreases n_out - j,
        {
            let ghost mid = *pos as int;
            let ghost before = neurons@;
            let nr_opt = Neuron::from_weights(n_in, weights, pos);
            match nr_opt {
                None => {
                    proof {
                        // the deficit at neuron `j` already bounds the whole
                        // layer's demand
                        assert((1 + n_in as int) * (j as int) + (1 + n_in as int) <= (1
                            + n_in as int) * (n_out as int)) by (nonlinear_arith)
                            requires
                                0 <= j as int,
                                (j as int) < (n_out as int),
                                0 <= n_in as int,
                        ;
                    }
                    *pos = start;
                    return None;
                },
                Some(nr) => {
                    neurons.push(nr);
                    j = j + 1;
                    proof {
                        assert((1 + n_in as int) * (j as int) == (1 + n_in as int) * (
                        j as int - 1) + (1 + n_in as int)) by (nonlinear_arith);
                        assert(neurons_flat_sp(neurons@, j as int - 1) == neurons_flat_sp(
                            before,
                            j as int - 1,
                        )) by {
                            lemma_neurons_flat_prefix(before, neurons@, j as int - 1);
                        }
                        assert(neurons_flat_sp(neurons@, j as int) =~= weights@.subrange(
                            start as int,
                            *pos as int,
                        ));
                    }
                },
            }
        }
        let l = Layer { neurons };
        Some(l)
    }
}

/// A flat prefix depends only on the neurons it covers.
proof fn lemma_neurons_flat_prefix(a: Seq<Neuron>, b: Seq<Neuron>, k: int)
    requires
        0 <= k <= a.len(),
        k <= b.len(),
        forall|j: int| 0 <= j < k ==> a[j] == b[j],
    ensures
        neurons_flat_sp(a, k) == neurons_flat_sp(b, k),
    decreases k,
{
    if k > 0 {
        lemma_neurons_flat_prefix(a, b, k - 1);
    }
}

/// A flat prefix depends only on the layers it covers.
proof fn lemma_layers_flat_prefix(a: Seq<Layer>, b: Seq<Layer>, k: int)
    requires
        0 <= k <= a.len(),
        k <= b.len(),
        forall|j: int| 0 <= j < k ==> a[j] == b[j],
    ensures
        layers_flat_sp(a, k) == layers_flat_sp(b, k),
    decreases k,
{
    if k > 0 {
        lemma_layers_flat_prefix(a, b, k - 1);
    }
}

/// Each width term of a topology demands a non-negative number of scalars,
/// so the demanded count grows with the number of layers covered.
pub proof fn lemma_weight_count_mono(widths: Seq<usize>, a: int, b: int)
    requires
        0 <= a <= b <= widths.len() - 1,
    ensures
        weight_count_upto(widths, a) <= weight_count_upto(widths, b),
    decreases b,
{
    if a < b {
        lemma_weight_count_mono(widths, a, b - 1);
        assert((1 + widths[b - 1] as int) * (widths[b] as int) >= 0) by (nonlinear_arith)
            requires
                widths[b - 1] as int >= 0,
                widths[b] as int >= 0,
        ;
    }
}

impl Network {
    /// Rebuild a network from a flat weight sequence in the canonical wire
    /// order. The sequence must hold exactly the element count the topology
    /// implies: a shortfall is `NotEnough`, a leftover is `TooMany`.
    pub fn from_weights(weights: &Vec<i64>, topology: &Vec<LayerTopology>) -> (r: Result<
        Network,
        WeightsError,
    >)
        requires
            topology@.len() >= 2,
            all_in_range(weights@),
        ensures
            r is Ok <==> weights@.len() as int == weight_count_sp(widths_of(topology@)),
            (weights@.len() as int) < weight_count_sp(widths_of(topology@)) ==> (r matches Err(
                e,
            ) && e == WeightsError::NotEnough),
            (weights@.len() as int) > weight_count_sp(widths_of(topology@)) ==> (r matches Err(
                e,
            ) && e == WeightsError::TooMany),
            r matches Ok(net) ==> {
                &&& net.wf()
                &&& net.topology_sp() == widths_of(topology@)
                &&& net_weights_sp(net) == weights@
            },
    {
        let ghost widths = widths_of(topology@);
        let depth: usize = topology.len();
        let mut layers: Vec<Layer> = Vec::new();
        let mut pos: usize = 0;
        let mut i: usize = 0;
        while i + 1 < depth
            invariant
                depth == topology@.len(),
                depth >= 2,
                widths == widths_of(topology@),
                i + 1 <= depth,
                layers@.len() == i,
                pos <= weights@.len(),
                all_in_range(weights@),
                pos as int == weight_count_upto(widths, i as int),
                forall|t: int|
                    0 <= t < i ==> layer_wf(
                        #[trigger] layers@[t],
                        widths[t] as int,
                        widths[t + 1] as int,
                    ),
                layers_flat_sp(layers@, i as int) == weights@.subrange(0, pos as int),
            decreases depth - i,
        {
            let n_in: usize = topology[i].neurons;
            let n_out: usize = topology[i + 1].neurons;
            let ghost mid = pos as int;
            let ghost before = layers@;
            let l_opt = Layer::from_weights(n_in, n_out, weights, &mut pos);
            match l_opt {
                None => {
                    proof {
                        lemma_weight_count_mono(widths, i as int + 1, widths.len() - 1);
                    }
                    return Err(WeightsError::NotEnough);
                },
                Some(l) => {
                    layers.push(l);
                    i = i + 1;
                    proof {
                        assert(layers_flat_sp(layers@, i as int - 1) == layers_flat_sp(
                            before,
                            i as int - 1,
                        )) by {
                            lemma_layers_flat_prefix(before, layers@, i as int - 1);
                        }
                        assert(layers_flat_sp(layers@, i as int) =~= weights@.subrange(
                            0,
                            pos as int,
                        ));
                    }
                },
            }
        }
        if pos < weights.len() {
            return Err(WeightsError::TooMany);
        }
        let net = Network { layers, topology: Ghost(widths) };
        proof {
            assert(net_weights_sp(net) =~= weights@);
            assert(net.wf());
        }
        Ok(net)
    }

    /// Flatten the network into the canonical wire order: for each layer in
    /// order, for each neuron in order, its bias and then its weights.
    pub fn weights(&self) -> (r: Vec<i64>)
        requires
            self.wf(),
        ensures
            r@ == net_weights_sp(*self),
            all_in_range(r@),
            r@.len() as int == weight_count_sp(self.topology_sp()),
    {
        let depth: usize = self.layers.len();
        let mut out: Vec<i64> = Vec::new();
        let mut i: usize = 0;
        while i < depth
            invariant
                depth == self.layers@.len(),
                i <= depth,
                self.wf(),
                all_in_range(out@),
                out@ == layers_flat_sp(self.layers@, i as int),
                out@.len() as int == weight_count_upto(self.topology_sp(), i as int),
            decreases depth - i,
        {
            let n_out: usize = self.layers[i].neurons.len();
            let mut j: usize = 0;
            while j < n_out
                invariant
                    depth == self.layers@.len(),
                    0 <= i < depth,
                    self.wf(),
                    n_out == self.layers@[i as int].neurons@.len(),
                    j <= n_out,
                    all_in_range(out@),
                    out@ == layers_flat_sp(self.layers@, i as int).add(
                        neurons_flat_sp(self.layers@[i as int].neurons@, j as int),
                    ),
                decreases n_out - j,
            {
                let bias: i64 = self.layers[i].neurons[j].bias;
                let n_in: usize = self.layers[i].neurons[j].weights.len();
                out.push(bias);
                let mut k: usize = 0;
                while k < n_in
                    invariant
                        depth == self.layers@.len(),
                        0 <= i < depth,
                        0 <= j < self.layers@[i as int].neurons@.len(),
                        self.wf(),
                        n_in == self.layers@[i as int].neurons@[j as int].weights@.len(),
                        k <= n_in,
                        all_in_range(out@),
                        out@ == layers_flat_sp(self.layers@, i as int).add(
                            neurons_flat_sp(self.layers@[i as int].neurons@, j as int),
                        ).add(seq![self.layers@[i as int].neurons@[j as int].bias]).add(
                            self.layers@[i as int].neurons@[j as int].weights@.subrange(
                                0,
                                k as int,
                            ),
                        ),
                    decreases n_in - k,
                {
                    out.push(self.layers[i].neurons[j].weights[k]);
                    proof {
                        assert(out@ =~= layers_flat_sp(self.layers@, i as int).add(
                            neurons_flat_sp(self.layers@[i as int].neurons@, j as int),
                        ).add(seq![self.layers@[i as int].neurons@[j as int].bias]).add(
                            self.layers@[i as int].neurons@[j as int].weights@.subrange(
                                0,
                                k as int + 1,
                            ),
                        ));
                    }
                    k = k + 1;
                }
                j = j + 1;
                proof {
                    assert(self.layers@[i as int].neurons@[j as int - 1].weights@.subrange(
                        0,
                        n_in as int,
                    ) =~= self.layers@[i as int].neurons@[j as int - 1].weights@);
                    assert(out@ =~= layers_flat_sp(self.layers@, i as int).add(
                        neurons_flat_sp(self.layers@[i as int].neurons@, j as int),
                    ));
                }
            }
            i = i + 1;
            proof {
                assert(out@ =~= layers_flat_sp(self.layers@, i as int));
                lemma_count_step(*self, i as int);
            }
        }
        out
    }
}

/// One layer's contribution to the flat count matches the topology's demand.
proof fn lemma_count_step(net: Network, i: int)
    requires
        net.wf(),
        0 < i <= net.layers@.len(),
        layers_flat_sp(net.layers@, i - 1).len() as int == weight_count_upto(
            net.topology_sp(),
            i - 1,
        ),
    ensures
        layers_flat_sp(net.layers@, i).len() as int == weight_count_upto(
            net.topology_sp(),
            i,
        ),
{
    assert(layer_wf(
        net.layers@[i - 1],
        net.topology_sp()[i - 1] as int,
        net.topology_sp()[i] as int,
    ));
    lemma_neurons_flat_len(
        net.layers@[i - 1].neurons@,
        net.topology_sp()[i - 1] as int,
        net.layers@[i - 1].neurons@.len() as int,
    );
    assert((net.topology_sp()[i] as int) * (1 + net.topology_sp()[i - 1] as int) == (1
        + net.topology_sp()[i - 1] as int) * (net.topology_sp()[i] as int))
        by (nonlinear_arith);
}

/// The flat form of `k` uniform neurons holds `k * (1 + n_in)` scalars.
pub proof fn lemma_neurons_flat_len(ns: Seq<Neuron>, n_in: int, k: int)
    requires
        0 <= k <= ns.len(),
        forall|j: int| 0 <= j < k ==> neuron_wf(#[trigger] ns[j], n_in),
    ensures
        neurons_flat_sp(ns, k).len() == k * (1 + n_in),
    decreases k,
{
    if k > 0 {
        lemma_neurons_flat_len(ns, n_in, k - 1);
        assert(neuron_wf(ns[k - 1], n_in));
        assert(neuron_weights_sp(ns[k - 1]).len() == 1 + n_in);
        assert(k * (1 + n_in) == (k - 1) * (1 + n_in) + (1 + n_in)) by (nonlinear_arith);
    } else {
        assert(k * (1 + n_in) == 0) by (nonlinear_arith)
            requires
                k == 0,
        ;
    }
}

/// The flat form of `k` aligned layers holds exactly the count the topology
/// demands.
pub proof fn lemma_layers_flat_len(ls: Seq<Layer>, widths: Seq<usize>, k: int)
    requires
        0 <= k <= ls.len(),
        widths.len() >= k + 1,
        forall|t: int|
            0 <= t < k ==> layer_wf(#[trigger] ls[t], widths[t] as int, widths[t + 1] as int),
    ensures
        layers_flat_sp(ls, k).len() == weight_count_upto(widths, k),
    decreases k,
{
    if k > 0 {
        lemma_layers_flat_len(ls, widths, k - 1);
        assert(layer_wf(ls[k - 1], widths[k - 1] as int, widths[k] as int));
        lemma_neurons_flat_len(
            ls[k - 1].neurons@,
            widths[k - 1] as int,
            ls[k - 1].neurons@.len() as int,
        );
        assert((widths[k] as int) * (1 + widths[k - 1] as int) == (1 + widths[k - 1] as int)
            * (widths[k] as int)) by (nonlinear_arith);
    }
}

/// Within the flat form of a layer, neuron `j` occupies exactly the window
/// `[j * (1 + n_in), (j + 1) * (1 + n_in))`.
proof fn lemma_neuron_chunk(ns: Seq<Neuron>, n_in: int, k: int, j: int)
    requires
        0 <= j < k <= ns.len(),
        forall|t: int| 0 <= t < k ==> neuron_wf(#[trigger] ns[t], n_in),
    ensures
        neurons_flat_sp(ns, k).subrange(j * (1 + n_in), (j + 1) * (1 + n_in))
            == neuron_weights_sp(ns[j]),
    decreases k,
{
    lemma_neurons_flat_len(ns, n_in, k);
    lemma_neurons_flat_len(ns, n_in, k - 1);
    assert((k - 1) * (1 + n_in) + (1 + n_in) == k * (1 + n_in)) by (nonlinear_arith);
    if j == k - 1 {
        assert(neurons_flat_sp(ns, k).subrange(j * (1 + n_in), (j + 1) * (1 + n_in))
            =~= neuron_weights_sp(ns[j]));
    } else {
        lemma_neuron_chunk(ns, n_in, k - 1, j);
        assert((j + 1) * (1 + n_in) <= (k - 1) * (1 + n_in)) by (nonlinear_arith)
            requires
                j + 1 <= k - 1,
                n_in >= 0,
        ;
        assert(0 <= j * (1 + n_in)) by (nonlinear_arith)
            requires
                j >= 0,
                n_in >= 0,
        ;
        assert(j * (1 + n_in) <= (j + 1) * (1 + n_in)) by (nonlinear_arith)
            requires
                n_in >= 0,
        ;
        assert(neurons_flat_sp(ns, k).subrange(j * (1 + n_in), (j + 1) * (1 + n_in))
            =~= neurons_flat_sp(ns, k - 1).subrange(j * (1 + n_in), (j + 1) * (1 + n_in)));
    }
}

/// Within the flat form of a network, layer `i` occupies exactly the window
/// between the topology's counts for `i` and `i + 1` layers.
proof fn lemma_layer_chunk(ls: Seq<Layer>, widths: Seq<usize>, k: int, i: int)
    requires
        0 <= i < k <= ls.len(),
        widths.len() >= k + 1,
        forall|t: int|
            0 <= t < k ==> layer_wf(#[trigger] ls[t], widths[t] as int, widths[t + 1] as int),
    ensures
        layers_flat_sp(ls, k).subrange(
            weight_count_upto(widths, i),
            weight_count_upto(widths, i + 1),
        ) == neurons_flat_sp(ls[i].neurons@, ls[i].neurons@.len() as int),
    decreases k,
{
    lemma_layers_flat_len(ls, widths, k);
    lemma_layers_flat_len(ls, widths, k - 1);
    if i == k - 1 {
        assert(layers_flat_sp(ls, k).subrange(
            weight_count_upto(widths, i),
            weight_count_upto(widths, i + 1),
        ) =~= neurons_flat_sp(ls[i].neurons@, ls[i].neurons@.len() as int));
    } else {
        lemma_layer_chunk(ls, widths, k - 1, i);
        lemma_weight_count_mono(widths, 0, i);
        lemma_weight_count_mono(widths, i, i + 1);
        lemma_weight_count_mono(widths, i + 1, k - 1);
        assert(layers_flat_sp(ls, k).subrange(
            weight_count_upto(widths, i),
            weight_count_upto(widths, i + 1),
        ) =~= layers_flat_sp(ls, k - 1).subrange(
            weight_count_upto(widths, i),
            weight_count_upto(widths, i + 1),
        ));
    }
}

/// The flatten/reconstruct round trip: flattening is injective on
/// well-formed networks of one topology. Two such networks with the same
/// flat wire sequence carry identical per-neuron bias and weight
/// assignments, so rebuilding a network from its own flattened weights
/// reproduces it exactly.
pub proof fn lemma_weights_roundtrip(a: Network, b: Network)
    requires
        a.wf(),
        b.wf(),
        a.topology_sp() == b.topology_sp(),
        net_weights_sp(a) == net_weights_sp(b),
    ensures
        a.layers@.len() == b.layers@.len(),
        forall|i: int|
            0 <= i < a.layers@.len() ==> (#[trigger] a.layers@[i]).neurons@.len()
                == b.layers@[i].neurons@.len(),
        forall|i: int, j: int|
            0 <= i < a.layers@.len() && 0 <= j < a.layers@[i].neurons@.len() ==> {
                &&& (#[trigger] a.layers@[i].neurons@[j]).bias == b.layers@[i].neurons@[j].bias
                &&& a.layers@[i].neurons@[j].weights@ == b.layers@[i].neurons@[j].weights@
            },
{
    let widths = a.topology_sp();
    let n = a.layers@.len() as int;
    assert forall|i: int, j: int|
        0 <= i < a.layers@.len() && 0 <= j < a.layers@[i].neurons@.len() implies {
        &&& (#[trigger] a.layers@[i].neurons@[j]).bias == b.layers@[i].neurons@[j].bias
        &&& a.layers@[i].neurons@[j].weights@ == b.layers@[i].neurons@[j].weights@
    } by {
        assert(layer_wf(a.layers@[i], widths[i] as int, widths[i + 1] as int));
        assert(layer_wf(b.layers@[i], widths[i] as int, widths[i + 1] as int));
        lemma_layer_chunk(a.layers@, widths, n, i);
        lemma_layer_chunk(b.layers@, widths, n, i);
        let n_in = widths[i] as int;
        let ns_a = a.layers@[i].neurons@;
        let ns_b = b.layers@[i].neurons@;
        assert(neurons_flat_sp(ns_a, ns_a.len() as int) == neurons_flat_sp(
            ns_b,
            ns_b.len() as int,
        ));
        lemma_neuron_chunk(ns_a, n_in, ns_a.len() as int, j);
        lemma_neuron_chunk(ns_b, n_in, ns_b.len() as int, j);
        assert(neuron_weights_sp(ns_a[j]) == neuron_weights_sp(ns_b[j]));
        assert(ns_a[j].bias == neuron_weights_sp(ns_a[j])[0]);
        assert(ns_b[j].bias == neuron_weights_sp(ns_b[j])[0]);
        assert(ns_a[j].weights@ =~= neuron_weights_sp(ns_a[j]).subrange(
            1,
            neuron_weights_sp(ns_a[j]).len() as int,
        ));
        assert(ns_b[j].weights@ =~= neuron_weights_sp(ns_b[j]).subrange(
            1,
            neuron_weights_sp(ns_b[j]).len() as int,
        ));
    }
}

} // verus!
