//! Layout of a cell's neural state vector.
//!
//! The vector has one entry per neuron.  Its leading entries belong to the
//! eyes and are overwritten with their activations before each think step;
//! its trailing entries belong to the flagella and are read out after each
//! think step; whatever lies between is hidden state.  The weight matrix is
//! square over the same neurons, the bias vector as long as the state.
//!
//! The numbers in the vector are real and are computed elsewhere.  Where
//! each slice begins and ends is decided here.

use vstd::prelude::*;

verus! {

/// What a neuron of the state vector is wired to.
#[derive(Clone, Copy, Debug, PartialEq, Eq, Structural)]
pub enum NeuronRole {
    /// Input: takes the activation of the eye with this number.
    Eye(usize),
    /// Neither input nor output.
    Hidden,
    /// Output: drives the flagellum with this number.
    Flagellum(usize),
}

/// The role of neuron `neuron` in a vector of `neurons` entries that serves
/// `eyes` eyes and `flagella` flagella.
pub open spec fn role_of(eyes: nat, flagella: nat, neurons: nat, neuron: nat) -> NeuronRole {
    if neuron < eyes {
        NeuronRole::Eye(neuron as usize)
    } else if neuron < neurons - flagella {
        NeuronRole::Hidden
    } else {
        NeuronRole::Flagellum((neuron - (neurons - flagella)) as usize)
    }
}

/// Sizes of the three slices of a state vector.
#[derive(Clone, Copy, Debug)]
pub struct StateLayout {
    eyes: usize,
    flagella: usize,
    neurons: usize,
}

impl StateLayout {
    #[verifier::type_invariant]
    spec fn fits(self) -> bool {
        self.eyes + self.flagella <= self.neurons
    }

    /// Number of eyes served: the length of the leading slice.
    pub closed spec fn eyes(self) -> nat {
        self.eyes as nat
    }

    /// Number of flagella served: the length of the trailing slice.
    pub closed spec fn flagella(self) -> nat {
        self.flagella as nat
    }

    /// Number of neurons: the length of the whole vector.
    pub closed spec fn neurons(self) -> nat {
        self.neurons as nat
    }

    /// The layout of a vector of `neurons` entries for a cell with `eyes`
    /// eyes and `flagella` flagella, if the vector has room for both slices.
    pub fn new(eyes: usize, flagella: usize, neurons: usize) -> (layout: Option<Self>)
        ensures
            layout is Some <==> eyes + flagella <= neurons,
            layout matches Some(l) ==> l.eyes() == eyes && l.flagella() == flagella && l.neurons()
                == neurons,
    {
        if eyes <= neurons && flagella <= neurons - eyes {
            Some(StateLayout { eyes, flagella, neurons })
        } else {
            None
        }
    }

    /// Bounds of the slice that the eyes write: start and end, end excluded.
    pub fn eye_range(&self) -> (range: (usize, usize))
        ensures
            range.0 == 0,
            range.1 == self.eyes(),
            range.1 <= self.neurons(),
    {
        proof {
            use_type_invariant(self);
        }
        (0, self.eyes)
    }

    /// Bounds of the hidden slice: start and end, end excluded.
    pub fn hidden_range(&self) -> (range: (usize, usize))
        ensures
            range.0 == self.eyes(),
            range.1 == self.neurons() - self.flagella(),
            range.0 <= range.1 <= self.neurons(),
    {
        proof {
            use_type_invariant(self);
        }
        (self.eyes, self.neurons - self.flagella)
    }

    /// Bounds of the slice that drives the flagella: start and end, end
    /// excluded.
    pub fn flagellum_range(&self) -> (range: (usize, usize))
        ensures
            range.0 == self.neurons() - self.flagella(),
            range.1 == self.neurons(),
            range.0 <= range.1,
    {
        proof {
            use_type_invariant(self);
        }
        (self.neurons - self.flagella, self.neurons)
    }

    /// The neuron whose value drives flagellum number `flagellum`, or `None`
    /// if the cell has no such flagellum.
    pub fn flagellum_neuron(&self, flagellum: usize) -> (neuron: Option<usize>)
        ensures
            neuron is Some <==> flagellum < self.flagella(),
            neuron matches Some(n) ==> n == self.neurons() - self.flagella() + flagellum && role_of(
                self.eyes(),
                self.flagella(),
                self.neurons(),
                n as nat,
            ) == NeuronRole::Flagellum(flagellum),
    {
        proof {
            use_type_invariant(self);
        }
        if flagellum < self.flagella {
            Some(self.neurons - self.flagella + flagellum)
        } else {
            None
        }
    }

    /// Whether a brain of the given shape belongs to this layout: a weight
    /// matrix of `weight_rows` by `weight_columns` entries, `biases` biases
    /// and `state` state entries go together only if all four equal the
    /// number of neurons.
    pub fn matches_brain(
        &self,
        weight_rows: usize,
        weight_columns: usize,
        biases: usize,
        state: usize,
    ) -> (consistent: bool)
        ensures
            consistent == (weight_rows == self.neurons() && weight_columns == self.neurons()
                && biases == self.neurons() && state == self.neurons()),
    {
        weight_rows == self.neurons && weight_columns == self.neurons && biases == self.neurons
            && state == self.neurons
    }
}

/// The three slices partition the vector: in a vector that has room for its
/// eyes and flagella, every neuron is wired to exactly one thing, each eye
/// and each flagellum has exactly one neuron, and the slices follow one
/// another without gap or overlap.
pub proof fn lemma_slices_partition_the_vector(eyes: nat, flagella: nat, neurons: nat, neuron: nat)
    requires
        eyes + flagella <= neurons,
        neurons <= usize::MAX,
        neuron < neurons,
    ensures
        role_of(eyes, flagella, neurons, neuron) matches NeuronRole::Eye(i) ==> i == neuron && neuron
            < eyes,
        role_of(eyes, flagella, neurons, neuron) is Hidden ==> eyes <= neuron < neurons - flagella,
        role_of(eyes, flagella, neurons, neuron) matches NeuronRole::Flagellum(i) ==> i < flagella
            && neuron == neurons - flagella + i,
        neuron < eyes ==> role_of(eyes, flagella, neurons, neuron) is Eye,
        neuron >= neurons - flagella ==> role_of(eyes, flagella, neurons, neuron) is Flagellum,
{
}

} // verus!
