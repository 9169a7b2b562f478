use venturi::{Activation, ErrorKind, Network, DEFAULT_LEARNING_RATE_BITS};

fn bits(xs: &[f32]) -> Vec<u32> {
    xs.iter().map(|x| x.to_bits()).collect()
}

fn sigmoid_network(i: usize, h: usize, o: usize) -> Network {
    let w_ih = vec![1.0f32.to_bits(); h * i];
    let w_ho = vec![1.0f32.to_bits(); o * h];
    Network::new(i, h, o, 0.3f32.to_bits(), Activation::Sigmoid, w_ih, w_ho).unwrap()
}

#[test]
fn new_has_consistent_shape() {
    let n = sigmoid_network(4, 3, 2);
    assert_eq!(n.input_nodes(), 4);
    assert_eq!(n.hidden_nodes(), 3);
    assert_eq!(n.output_nodes(), 2);
    assert_eq!(n.weights(0).len(), 3 * 4);
    assert_eq!(n.weights(1).len(), 2 * 3);
    assert_eq!(n.activation(), Some(Activation::Sigmoid));
    assert!(n.well_formed());
}

#[test]
fn new_rejects_wrong_weight_lengths() {
    let e = Network::new(2, 2, 2, 0.3f32.to_bits(), Activation::Sigmoid, vec![0; 3], vec![0; 4])
        .unwrap_err();
    assert_eq!(e.kind, ErrorKind::ShapeMismatch);
    let e = Network::new(2, 2, 2, 0.3f32.to_bits(), Activation::Sigmoid, vec![0; 4], vec![0; 5])
        .unwrap_err();
    assert_eq!(e.kind, ErrorKind::ShapeMismatch);
}

#[test]
fn new_rejects_oversized_counts() {
    let e = Network::new(
        0x1_0000,
        0,
        0,
        0.3f32.to_bits(),
        Activation::Sigmoid,
        Vec::new(),
        Vec::new(),
    )
    .unwrap_err();
    assert_eq!(e.kind, ErrorKind::ShapeMismatch);
}

#[test]
fn default_network_is_unconfigured() {
    let n = Network::default();
    assert_eq!(n.input_nodes(), 0);
    assert_eq!(n.hidden_nodes(), 0);
    assert_eq!(n.output_nodes(), 0);
    assert_eq!(n.learning_rate_bits(), DEFAULT_LEARNING_RATE_BITS);
    assert_eq!(f32::from_bits(n.learning_rate_bits()), 0.3);
    assert_eq!(n.weights(0).len(), 0);
    assert_eq!(n.weights(1).len(), 0);
    assert_eq!(n.activation(), None);
    assert!(n.well_formed());
}

#[test]
fn missing_activation_is_a_configuration_error() {
    let d = Network::default();
    assert_eq!(d.validate_query(0).unwrap_err().kind, ErrorKind::Configuration);
    assert_eq!(d.validate_train(0, 0).unwrap_err().kind, ErrorKind::Configuration);

    let mut n = sigmoid_network(2, 2, 2);
    let w_ih_before = n.weights(0).clone();
    let w_ho_before = n.weights(1).clone();
    n.set_activation_fn(None);
    assert_eq!(n.validate_query(2).unwrap_err().kind, ErrorKind::Configuration);
    assert_eq!(n.validate_train(2, 2).unwrap_err().kind, ErrorKind::Configuration);
    assert_eq!(n.weights(0), &w_ih_before);
    assert_eq!(n.weights(1), &w_ho_before);
}

#[test]
fn wrong_vector_lengths_are_shape_errors() {
    let n = sigmoid_network(3, 2, 1);
    assert!(n.validate_query(3).is_ok());
    assert_eq!(n.validate_query(2).unwrap_err().kind, ErrorKind::ShapeMismatch);
    assert!(n.validate_train(3, 1).is_ok());
    assert_eq!(n.validate_train(2, 1).unwrap_err().kind, ErrorKind::ShapeMismatch);
    assert_eq!(n.validate_train(3, 2).unwrap_err().kind, ErrorKind::ShapeMismatch);
}

#[test]
fn missing_activation_is_reported_before_shape() {
    let mut n = sigmoid_network(3, 2, 1);
    n.set_activation_fn(None);
    assert_eq!(n.validate_query(99).unwrap_err().kind, ErrorKind::Configuration);
    assert_eq!(n.validate_train(99, 99).unwrap_err().kind, ErrorKind::Configuration);
}

#[test]
fn set_weights_replaces_one_layer() {
    let mut n = sigmoid_network(2, 2, 1);
    let fresh = bits(&[0.9, 0.3, 0.4, 0.2]);
    let w_ho_before = n.weights(1).clone();
    assert!(n.set_weights(fresh.clone(), 0).is_ok());
    assert_eq!(n.weights(0), &fresh);
    assert_eq!(n.weights(1), &w_ho_before);
}

#[test]
fn set_weights_rejects_wrong_length() {
    let mut n = sigmoid_network(2, 2, 1);
    let before = n.weights(0).clone();
    let e = n.set_weights(bits(&[1.0, 2.0, 3.0]), 0).unwrap_err();
    assert_eq!(e.kind, ErrorKind::ShapeMismatch);
    assert_eq!(n.weights(0), &before);
}

#[test]
fn set_activation_fn_changes_only_the_activation() {
    let mut n = sigmoid_network(2, 2, 1);
    let w_ih_before = n.weights(0).clone();
    n.set_activation_fn(Some(Activation::Tanh));
    assert_eq!(n.activation(), Some(Activation::Tanh));
    assert_eq!(n.weights(0), &w_ih_before);
    n.set_activation_fn(None);
    assert_eq!(n.activation(), None);
}

#[test]
fn error_messages_name_the_failure() {
    let d = Network::default();
    let e = d.validate_query(0).unwrap_err();
    assert_eq!(e.message, "Activation function not set");
}
