//! The agent's brain: a neural network shaped by its eye.

use vstd::prelude::*;
use crate::network::{
    Network, LayerTopology, WeightsError, widths_of, net_weights_sp, weight_count_sp,
};
use crate::fixed::all_in_range;
use crate::genetics::Chromosome;
use crate::eye::{Eye, eye_wf};
use rand_chacha::ChaCha8Rng;

verus! {

pub struct Brain {
    pub nn: Network,
}

/// The fixed brain shape for an eye: one input per bin, twice the bins in
/// the hidden layer, and two steering outputs.
pub open spec fn brain_widths_sp(cells: usize) -> Seq<usize>
    recommends
        cells <= 16384,
{
    seq![cells, (2 * cells) as usize, 2usize]
}

pub open spec fn brain_wf(b: Brain, e: Eye) -> bool {
    &&& b.nn.wf()
    &&& b.nn.topology_sp() == brain_widths_sp(e.cells)
}

impl Brain {
    /// The topology an eye calls for.
    pub fn topology(eye: &Eye) -> (r: Vec<LayerTopology>)
        requires
            eye_wf(*eye),
        ensures
            widths_of(r@) == brain_widths_sp(eye.cells),
            r@.len() == 3,
    {
        let mut v: Vec<LayerTopology> = Vec::new();
        v.push(LayerTopology { neurons: eye.cells });
        v.push(LayerTopology { neurons: 2 * eye.cells });
        v.push(LayerTopology { neurons: 2 });
        proof {
            assert(widths_of(v@) =~= brain_widths_sp(eye.cells));
        }
        v
    }

    /// A brain of random weights shaped for the eye.
    pub fn random(rng: &mut ChaCha8Rng, eye: &Eye) -> (r: Brain)
        requires
            eye_wf(*eye),
        ensures
            brain_wf(r, *eye),
    {
        let topology = Brain::topology(eye);
        Brain { nn: Network::random(rng, &topology) }
    }

    /// Flatten the brain into a chromosome, in the canonical wire order.
    pub fn as_chromosome(&self) -> (r: Chromosome)
        requires
            self.nn.wf(),
        ensures
            r@ == net_weights_sp(self.nn),
            all_in_range(r@),
            r@.len() as int == weight_count_sp(self.nn.topology_sp()),
    {
        Chromosome::new(self.nn.weights())
    }

    /// Rebuild a brain from a chromosome; the gene count must be exactly
    /// what the eye's topology implies.
    pub fn from_chromosome(chromosome: &Chromosome, eye: &Eye) -> (r: Result<
        Brain,
        WeightsError,
    >)
        requires
            eye_wf(*eye),
            all_in_range(chromosome@),
        ensures
            r is Ok <==> chromosome@.len() as int == weight_count_sp(
                brain_widths_sp(eye.cells),
            ),
            r matches Ok(b) ==> {
                &&& brain_wf(b, *eye)
                &&& net_weights_sp(b.nn) == chromosome@
            },
    {
        let topology = Brain::topology(eye);
        match Network::from_weights(chromosome.genes(), &topology) {
            Ok(nn) => Ok(Brain { nn }),
            Err(e) => Err(e),
        }
    }
}

} // verus!
