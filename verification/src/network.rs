//! The network type: node counts, learning rate, weight matrices and the
//! configured activation, together with the shape and configuration checks
//! that inference and training depend on.
//!
//! Weight matrices are stored row-major as flat vectors of IEEE-754
//! single-precision bit patterns: `w_ih` has `hidden_nodes * input_nodes`
//! entries (input-to-hidden), `w_ho` has `output_nodes * hidden_nodes`
//! entries (hidden-to-output). The arithmetic that consumes the weights as
//! real numbers lives with the caller; everything here is exact.

use vstd::prelude::*;

verus! {

/// IEEE-754 single-precision bit pattern of 0.3, the default learning rate.
pub const DEFAULT_LEARNING_RATE_BITS: u32 = 0x3E99999A;

/// The activation functions a network can be configured with. The variant
/// only names the function; evaluating it on real numbers is the caller's
/// business.
#[derive(Clone, Copy, Debug, PartialEq, Eq, Structural)]
pub enum Activation {
    /// The logistic sigmoid, 1 / (1 + e^-x).
    Sigmoid,
    /// The hyperbolic tangent.
    Tanh,
}

/// Why an operation on a network failed.
#[derive(Clone, Copy, Debug, PartialEq, Eq, Structural)]
pub enum ErrorKind {
    /// An inference or training operation was invoked with no activation
    /// function configured.
    Configuration,
    /// A vector or matrix length does not match the declared node counts.
    ShapeMismatch,
    /// A byte stream is too short to hold the network it declares.
    Decode,
}

/// An error reported by a network operation.
#[derive(Debug)]
pub struct NetworkErr {
    /// Which failure condition was hit.
    pub kind: ErrorKind,
    /// A human-readable description of the failure.
    pub message: String,
}

impl NetworkErr {
    /// The error for an operation attempted with no activation configured.
    pub(crate) fn configuration() -> (r: NetworkErr)
        ensures
            r.kind == ErrorKind::Configuration,
    {
        NetworkErr { kind: ErrorKind::Configuration, message: "Activation function not set".to_owned() }
    }

    /// The error for a vector or matrix of the wrong length.
    pub(crate) fn shape_mismatch() -> (r: NetworkErr)
        ensures
            r.kind == ErrorKind::ShapeMismatch,
    {
        NetworkErr { kind: ErrorKind::ShapeMismatch, message: "Shape does not match node counts".to_owned() }
    }

    /// The error for a byte stream too short to decode.
    pub(crate) fn decode() -> (r: NetworkErr)
        ensures
            r.kind == ErrorKind::Decode,
    {
        NetworkErr { kind: ErrorKind::Decode, message: "Byte stream too short".to_owned() }
    }
}

/// The mathematical model of a [`Network`]: the same data with the node
/// counts as unbounded naturals and the weight stores as sequences.
#[verifier::ext_equal]
pub struct NetworkView {
    /// Width of the input layer.
    pub input_nodes: nat,
    /// Width of the hidden layer.
    pub hidden_nodes: nat,
    /// Width of the output layer.
    pub output_nodes: nat,
    /// Bit pattern of the learning rate.
    pub learning_rate: u32,
    /// Input-to-hidden weights, row-major, `hidden_nodes * input_nodes` long.
    pub w_ih: Seq<u32>,
    /// Hidden-to-output weights, row-major, `output_nodes * hidden_nodes` long.
    pub w_ho: Seq<u32>,
    /// The configured activation, if any.
    pub activation: Option<Activation>,
}

impl NetworkView {
    /// Well-formedness: the node counts fit the 16-bit fields of the
    /// serialized form, and each weight store is exactly as long as its
    /// matrix shape demands.
    pub open spec fn wf(self) -> bool {
        &&& self.input_nodes <= 0xFFFF
        &&& self.hidden_nodes <= 0xFFFF
        &&& self.output_nodes <= 0xFFFF
        &&& self.w_ih.len() == self.hidden_nodes * self.input_nodes
        &&& self.w_ho.len() == self.output_nodes * self.hidden_nodes
    }
}

/// A single-hidden-layer feed-forward network: fixed shape, one weight
/// matrix per layer transition, a learning rate, and an optional activation.
#[derive(Debug)]
pub struct Network {
    input_nodes: usize,
    hidden_nodes: usize,
    output_nodes: usize,
    learning_rate: u32,
    w_ih: Vec<u32>,
    w_ho: Vec<u32>,
    activation: Option<Activation>,
}

impl View for Network {
    type V = NetworkView;

    closed spec fn view(&self) -> NetworkView {
        NetworkView {
            input_nodes: self.input_nodes as nat,
            hidden_nodes: self.hidden_nodes as nat,
            output_nodes: self.output_nodes as nat,
            learning_rate: self.learning_rate,
            w_ih: self.w_ih@,
            w_ho: self.w_ho@,
            activation: self.activation,
        }
    }
}

impl Default for Network {
    /// An unconfigured placeholder network: zero-sized matrices, the default
    /// learning rate, and no activation. Useful only as the target of a
    /// later bulk weight replacement or as a stand-in before decoding.
    fn default() -> (r: Network)
        ensures
            r@ == (NetworkView {
                input_nodes: 0,
                hidden_nodes: 0,
                output_nodes: 0,
                learning_rate: DEFAULT_LEARNING_RATE_BITS,
                w_ih: Seq::empty(),
                w_ho: Seq::empty(),
                activation: None,
            }),
            r@.wf(),
    {
        Network {
            input_nodes: 0,
            hidden_nodes: 0,
            output_nodes: 0,
            learning_rate: DEFAULT_LEARNING_RATE_BITS,
            w_ih: Vec::new(),
            w_ho: Vec::new(),
            activation: None,
        }
    }
}

/// Whether a flat weight store of length `len` fills a `rows` by `cols`
/// matrix exactly.
fn len_matches(len: usize, rows: usize, cols: usize) -> (r: bool)
    ensures
        r == (len == rows * cols),
{
    match (rows as u64).checked_mul(cols as u64) {
        Some(p) => len as u64 == p,
        None => false,
    }
}

impl Network {
    /// Builds a network from its parts. Succeeds exactly when the node
    /// counts fit 16 bits and each weight vector has the length its matrix
    /// shape demands; otherwise nothing is built and a shape-mismatch error
    /// comes back. `w_ih` and `w_ho` carry the weights row-major as IEEE-754
    /// bit patterns.
    pub fn new(
        input_nodes: usize,
        hidden_nodes: usize,
        output_nodes: usize,
        learning_rate: u32,
        activation: Activation,
        w_ih: Vec<u32>,
        w_ho: Vec<u32>,
    ) -> (r: Result<Network, NetworkErr>)
        ensures
            r is Ok <==> ({
                &&& input_nodes <= 0xFFFF
                &&& hidden_nodes <= 0xFFFF
                &&& output_nodes <= 0xFFFF
                &&& w_ih@.len() == hidden_nodes * input_nodes
                &&& w_ho@.len() == output_nodes * hidden_nodes
            }),
            r matches Ok(n) ==> n@ == (NetworkView {
                input_nodes: input_nodes as nat,
                hidden_nodes: hidden_nodes as nat,
                output_nodes: output_nodes as nat,
                learning_rate: learning_rate,
                w_ih: w_ih@,
                w_ho: w_ho@,
                activation: Some(activation),
            }),
            r matches Ok(n) ==> n@.wf(),
            r matches Err(e) ==> e.kind == ErrorKind::ShapeMismatch,
    {
        if input_nodes > 0xFFFF || hidden_nodes > 0xFFFF || output_nodes > 0xFFFF {
            return Err(NetworkErr::shape_mismatch());
        }
        if !len_matches(w_ih.len(), hidden_nodes, input_nodes) || !len_matches(
            w_ho.len(),
            output_nodes,
            hidden_nodes,
        ) {
            return Err(NetworkErr::shape_mismatch());
        }
        Ok(Network {
            input_nodes,
            hidden_nodes,
            output_nodes,
            learning_rate,
            w_ih,
            w_ho,
            activation: Some(activation),
        })
    }

    /// Assembles a network with no activation attached, for the decoder:
    /// the counts come from 16-bit fields, so well-formedness only needs
    /// the weight lengths.
    pub(crate) fn assemble(
        input_nodes: u16,
        hidden_nodes: u16,
        output_nodes: u16,
        learning_rate: u32,
        w_ih: Vec<u32>,
        w_ho: Vec<u32>,
    ) -> (r: Network)
        requires
            w_ih@.len() == hidden_nodes * input_nodes,
            w_ho@.len() == output_nodes * hidden_nodes,
        ensures
            r@ == (NetworkView {
                input_nodes: input_nodes as nat,
                hidden_nodes: hidden_nodes as nat,
                output_nodes: output_nodes as nat,
                learning_rate: learning_rate,
                w_ih: w_ih@,
                w_ho: w_ho@,
                activation: None,
            }),
            r@.wf(),
    {
        Network {
            input_nodes: input_nodes as usize,
            hidden_nodes: hidden_nodes as usize,
            output_nodes: output_nodes as usize,
            learning_rate,
            w_ih,
            w_ho,
            activation: None,
        }
    }

    /// Replaces one weight matrix wholesale: layer 0 is input-to-hidden,
    /// layer 1 is hidden-to-output. Succeeds exactly when the new vector has
    /// the length the layer's shape demands; on failure the network is
    /// untouched.
    pub fn set_weights(&mut self, weights: Vec<u32>, layer: usize) -> (r: Result<(), NetworkErr>)
        requires
            layer < 2,
        ensures
            r is Ok <==> weights@.len() == (if layer == 0 {
                old(self)@.hidden_nodes * old(self)@.input_nodes
            } else {
                old(self)@.output_nodes * old(self)@.hidden_nodes
            }),
            r is Ok && layer == 0 ==> final(self)@ == (NetworkView { w_ih: weights@, ..old(self)@ }),
            r is Ok && layer == 1 ==> final(self)@ == (NetworkView { w_ho: weights@, ..old(self)@ }),
            r matches Err(e) ==> final(self)@ == old(self)@ && e.kind == ErrorKind::ShapeMismatch,
            old(self)@.wf() ==> final(self)@.wf(),
    {
        let fits: bool = if layer == 0 {
            len_matches(weights.len(), self.hidden_nodes, self.input_nodes)
        } else {
            len_matches(weights.len(), self.output_nodes, self.hidden_nodes)
        };
        if !fits {
            return Err(NetworkErr::shape_mismatch());
        }
        if layer == 0 {
            self.w_ih = weights;
        } else {
            self.w_ho = weights;
        }
        Ok(())
    }

    /// Attaches or removes the activation function; nothing else changes.
    pub fn set_activation_fn(&mut self, activation: Option<Activation>)
        ensures
            final(self)@ == (NetworkView { activation, ..old(self)@ }),
    {
        self.activation = activation;
    }

    /// Decides whether a forward pass may run on an input vector of length
    /// `input_len`: the activation must be configured and the length must
    /// equal the input width. A missing activation is reported first, as a
    /// configuration error; a bad length as a shape mismatch.
    pub fn validate_query(&self, input_len: usize) -> (r: Result<(), NetworkErr>)
        ensures
            r is Ok <==> self@.activation is Some && input_len == self@.input_nodes,
            self@.activation is None ==> (r matches Err(e) && e.kind == ErrorKind::Configuration),
            self@.activation is Some && input_len != self@.input_nodes ==> (r matches Err(e)
                && e.kind == ErrorKind::ShapeMismatch),
    {
        if self.activation.is_none() {
            return Err(NetworkErr::configuration());
        }
        if input_len != self.input_nodes {
            return Err(NetworkErr::shape_mismatch());
        }
        Ok(())
    }

    /// Decides whether a training step may run: the activation must be
    /// configured, the input vector must match the input width and the
    /// target vector the output width. A missing activation is reported
    /// first, as a configuration error; a bad length as a shape mismatch.
    pub fn validate_train(&self, input_len: usize, target_len: usize) -> (r: Result<
        (),
        NetworkErr,
    >)
        ensures
            r is Ok <==> ({
                &&& self@.activation is Some
                &&& input_len == self@.input_nodes
                &&& target_len == self@.output_nodes
            }),
            self@.activation is None ==> (r matches Err(e) && e.kind == ErrorKind::Configuration),
            self@.activation is Some && (input_len != self@.input_nodes || target_len
                != self@.output_nodes) ==> (r matches Err(e) && e.kind == ErrorKind::ShapeMismatch),
    {
        if self.activation.is_none() {
            return Err(NetworkErr::configuration());
        }
        if input_len != self.input_nodes || target_len != self.output_nodes {
            return Err(NetworkErr::shape_mismatch());
        }
        Ok(())
    }

    /// Width of the input layer.
    pub fn input_nodes(&self) -> (r: usize)
        ensures
            r == self@.input_nodes,
    {
        self.input_nodes
    }

    /// Width of the hidden layer.
    pub fn hidden_nodes(&self) -> (r: usize)
        ensures
            r == self@.hidden_nodes,
    {
        self.hidden_nodes
    }

    /// Width of the output layer.
    pub fn output_nodes(&self) -> (r: usize)
        ensures
            r == self@.output_nodes,
    {
        self.output_nodes
    }

    /// Bit pattern of the learning rate.
    pub fn learning_rate_bits(&self) -> (r: u32)
        ensures
            r == self@.learning_rate,
    {
        self.learning_rate
    }

    /// The configured activation, if any.
    pub fn activation(&self) -> (r: Option<Activation>)
        ensures
            r == self@.activation,
    {
        self.activation
    }

    /// The weight store of one layer, row-major: layer 0 is input-to-hidden,
    /// layer 1 is hidden-to-output.
    pub fn weights(&self, layer: usize) -> (r: &Vec<u32>)
        requires
            layer < 2,
        ensures
            r@ == (if layer == 0 {
                self@.w_ih
            } else {
                self@.w_ho
            }),
    {
        if layer == 0 {
            &self.w_ih
        } else {
            &self.w_ho
        }
    }

    /// Whether the network is well formed in the sense of
    /// [`NetworkView::wf`]. Every network built by this library is; the
    /// check is for callers that need the fact as a run-time value.
    pub fn well_formed(&self) -> (r: bool)
        ensures
            r == self@.wf(),
    {
        let ih_ok: bool = len_matches(self.w_ih.len(), self.hidden_nodes, self.input_nodes);
        let ho_ok: bool = len_matches(self.w_ho.len(), self.output_nodes, self.hidden_nodes);
        self.input_nodes <= 0xFFFF && self.hidden_nodes <= 0xFFFF && self.output_nodes <= 0xFFFF
            && ih_ok && ho_ok
    }
}

} // verus!
