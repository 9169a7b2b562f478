//! A single-hidden-layer feed-forward neural network: the network's
//! configuration and weight store, shape and configuration checking for
//! inference and training, and a fixed big-endian binary format for
//! persisting trained weights.
//!
//! Weights and the learning rate are IEEE-754 single-precision values; the
//! library holds and transports them as their 32-bit bit patterns, so that
//! the serialized format and all bookkeeping are exact. The floating-point
//! linear algebra itself (forward pass, gradient steps) is left to callers.

pub mod bytes;
pub mod codec;
pub mod network;

pub use codec::BytesDeserialize;
pub use codec::BytesSerialize;
pub use network::Activation;
pub use network::ErrorKind;
pub use network::Network;
pub use network::NetworkErr;
pub use network::NetworkView;
pub use network::DEFAULT_LEARNING_RATE_BITS;
