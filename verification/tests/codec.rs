use venturi::{Activation, BytesDeserialize, BytesSerialize, ErrorKind, Network};

fn bits(xs: &[f32]) -> Vec<u32> {
    xs.iter().map(|x| x.to_bits()).collect()
}

fn sample_network() -> Network {
    let w_ih = bits(&[0.9, 0.3, 0.4, 0.2, 0.8, 0.2]);
    let w_ho = bits(&[-0.5, 0.25, 1.5]);
    Network::new(2, 3, 1, 0.3f32.to_bits(), Activation::Sigmoid, w_ih, w_ho).unwrap()
}

#[test]
fn round_trip_preserves_network() {
    let n = sample_network();
    let bytes = n.to_bytes();
    let m = Network::from_bytes(&bytes).unwrap();
    assert_eq!(m.input_nodes(), n.input_nodes());
    assert_eq!(m.hidden_nodes(), n.hidden_nodes());
    assert_eq!(m.output_nodes(), n.output_nodes());
    assert_eq!(m.learning_rate_bits(), n.learning_rate_bits());
    assert_eq!(m.weights(0), n.weights(0));
    assert_eq!(m.weights(1), n.weights(1));
    assert_eq!(m.activation(), None);
}

#[test]
fn round_trip_of_default_network() {
    let n = Network::default();
    let bytes = n.to_bytes();
    assert_eq!(bytes.len(), 10);
    let m = Network::from_bytes(&bytes).unwrap();
    assert_eq!(m.input_nodes(), 0);
    assert_eq!(m.hidden_nodes(), 0);
    assert_eq!(m.output_nodes(), 0);
    assert_eq!(m.learning_rate_bits(), 0.3f32.to_bits());
    assert_eq!(m.activation(), None);
}

#[test]
fn serialized_size_matches_formula() {
    let n = sample_network();
    let (i, h, o) = (2usize, 3usize, 1usize);
    assert_eq!(n.to_bytes().len(), 6 + 4 + 4 * (h * i + o * h));
}

#[test]
fn serialized_layout_is_big_endian() {
    let w_ih = bits(&[2.0]);
    let w_ho = bits(&[-1.5]);
    let n = Network::new(1, 1, 1, 0.5f32.to_bits(), Activation::Sigmoid, w_ih, w_ho).unwrap();
    let bytes = n.to_bytes();
    assert_eq!(bytes.len(), 18);
    assert_eq!(&bytes[0..6], &[0, 1, 0, 1, 0, 1]);
    assert_eq!(&bytes[6..10], &0.5f32.to_be_bytes());
    assert_eq!(&bytes[10..14], &2.0f32.to_be_bytes());
    assert_eq!(&bytes[14..18], &(-1.5f32).to_be_bytes());
}

#[test]
fn decode_known_bytes() {
    let mut bytes: Vec<u8> = vec![0, 1, 0, 2, 0, 1];
    bytes.extend_from_slice(&0.25f32.to_be_bytes());
    // w_ih: 2 x 1 matrix
    bytes.extend_from_slice(&4.0f32.to_be_bytes());
    bytes.extend_from_slice(&(-0.125f32).to_be_bytes());
    // w_ho: 1 x 2 matrix
    bytes.extend_from_slice(&1.0f32.to_be_bytes());
    bytes.extend_from_slice(&0.5f32.to_be_bytes());
    let n = Network::from_bytes(&bytes).unwrap();
    assert_eq!(n.input_nodes(), 1);
    assert_eq!(n.hidden_nodes(), 2);
    assert_eq!(n.output_nodes(), 1);
    assert_eq!(f32::from_bits(n.learning_rate_bits()), 0.25);
    let w_ih: Vec<f32> = n.weights(0).iter().map(|w| f32::from_bits(*w)).collect();
    let w_ho: Vec<f32> = n.weights(1).iter().map(|w| f32::from_bits(*w)).collect();
    assert_eq!(w_ih, vec![4.0, -0.125]);
    assert_eq!(w_ho, vec![1.0, 0.5]);
    assert_eq!(n.activation(), None);
}

#[test]
fn decode_fails_on_short_header() {
    let bytes: Vec<u8> = vec![0, 1, 0, 1, 0];
    let e = Network::from_bytes(&bytes).unwrap_err();
    assert_eq!(e.kind, ErrorKind::Decode);
}

#[test]
fn decode_fails_on_truncated_weights() {
    let n = sample_network();
    let mut bytes = n.to_bytes();
    bytes.pop();
    let e = Network::from_bytes(&bytes).unwrap_err();
    assert_eq!(e.kind, ErrorKind::Decode);
}

#[test]
fn decode_ignores_trailing_bytes() {
    let n = sample_network();
    let mut bytes = n.to_bytes();
    bytes.push(0xAB);
    let m = Network::from_bytes(&bytes).unwrap();
    assert_eq!(m.weights(0), n.weights(0));
    assert_eq!(m.weights(1), n.weights(1));
}
