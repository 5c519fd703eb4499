use lore_engine::activation::ActivationType;
use lore_engine::error::LoreError;
use lore_engine::neural::{
    check_layer_sizes, ensemble_outputs, feedforward_layout, NeuralLayer, NeuralNetwork,
};

fn relu_neuron(row: &Vec<f64>, input: &Vec<f64>, bias: f64, act: ActivationType) -> f64 {
    let mut sum = bias;
    for (w, x) in row.iter().zip(input.iter()) {
        sum += w * x;
    }
    match act {
        ActivationType::ReLU => sum.max(0.0),
        _ => sum,
    }
}

fn layer(input: usize, output: usize, w: f64) -> NeuralLayer<f64> {
    NeuralLayer::new(
        input,
        output,
        ActivationType::ReLU,
        vec![vec![w; input]; output],
        vec![0.0; output],
    )
    .unwrap()
}

fn network(sizes: &[usize], w: f64) -> NeuralNetwork<f64> {
    let layers = sizes.windows(2).map(|p| layer(p[0], p[1], w)).collect();
    NeuralNetwork::new(layers).unwrap()
}

#[test]
fn activation_names_ignore_case() {
    assert!(matches!(ActivationType::new("ReLU".to_string()), Ok(ActivationType::ReLU)));
    assert!(matches!(ActivationType::new("SIGMOID".to_string()), Ok(ActivationType::Sigmoid)));
    assert!(matches!(ActivationType::new("tanh".to_string()), Ok(ActivationType::Tanh)));
    assert!(matches!(ActivationType::new("LeakyReLU".to_string()), Ok(ActivationType::LeakyReLU)));
    assert!(matches!(ActivationType::new("Elu".to_string()), Ok(ActivationType::ELU)));
    assert!(matches!(ActivationType::new("swish".to_string()), Ok(ActivationType::Swish)));
}

#[test]
fn unknown_activation_is_validation_error() {
    assert!(matches!(ActivationType::new("softmax".to_string()), Err(LoreError::Validation(_))));
    assert_eq!(ActivationType::from_lowercase(&"RELU".to_string()), None);
    assert_eq!(ActivationType::from_lowercase(&"relu".to_string()), Some(ActivationType::ReLU));
}

#[test]
fn activation_name_is_variant_spelling() {
    assert_eq!(ActivationType::LeakyReLU.name(), "LeakyReLU");
    assert_eq!(ActivationType::ELU.name(), "ELU");
}

#[test]
fn layer_sizes_are_validated() {
    assert!(check_layer_sizes(3, 4).is_ok());
    assert!(matches!(check_layer_sizes(0, 4), Err(LoreError::Validation(_))));
    assert!(matches!(check_layer_sizes(4, 0), Err(LoreError::Validation(_))));
    assert!(matches!(check_layer_sizes(10001, 4), Err(LoreError::Validation(_))));
    assert!(check_layer_sizes(10000, 10000).is_ok());
    let r = NeuralLayer::<f64>::new(0, 2, ActivationType::ReLU, vec![], vec![0.0; 2]);
    assert!(matches!(r, Err(LoreError::Validation(_))));
}

#[test]
fn layer_parameters_must_have_declared_shape() {
    let r = NeuralLayer::new(2, 2, ActivationType::ReLU, vec![vec![1.0; 3]; 2], vec![0.0; 2]);
    assert!(matches!(r, Err(LoreError::DimensionMismatch(_))));
    let r = NeuralLayer::new(2, 2, ActivationType::ReLU, vec![vec![1.0; 2]; 2], vec![0.0; 1]);
    assert!(matches!(r, Err(LoreError::DimensionMismatch(_))));
}

#[test]
fn layer_forward_output_has_output_size() {
    let l = layer(3, 4, 0.5);
    let out = l.forward(&vec![1.0, 2.0, 3.0], &relu_neuron).unwrap();
    assert_eq!(out.len(), 4);
    assert_eq!(out, vec![3.0; 4]);
}

#[test]
fn layer_forward_rejects_wrong_input_size() {
    let l = layer(3, 4, 0.5);
    let r = l.forward(&vec![1.0, 2.0], &relu_neuron);
    assert!(matches!(r, Err(LoreError::DimensionMismatch(_))));
}

#[test]
fn update_weights_checks_shape() {
    let mut l = layer(2, 3, 1.0);
    assert!(matches!(l.update_weights(vec![vec![1.0; 2]; 2]), Err(LoreError::DimensionMismatch(_))));
    assert!(matches!(l.update_weights(vec![vec![1.0; 1]; 3]), Err(LoreError::DimensionMismatch(_))));
    assert_eq!(l.get_weights(), &vec![vec![1.0; 2]; 3]);
    assert!(l.update_weights(vec![vec![2.0; 2]; 3]).is_ok());
    assert_eq!(l.get_weights(), &vec![vec![2.0; 2]; 3]);
    assert_eq!(l.get_biases(), &vec![0.0; 3]);
    assert_eq!(l.get_input_size(), 2);
    assert_eq!(l.get_output_size(), 3);
}

#[test]
fn network_layout_is_checked() {
    let relu = ActivationType::ReLU;
    assert!(matches!(NeuralNetwork::<f64>::check_layout(&vec![3], &vec![]), Err(LoreError::Validation(_))));
    assert!(matches!(NeuralNetwork::<f64>::check_layout(&vec![3, 2], &vec![]), Err(LoreError::Validation(_))));
    assert!(matches!(NeuralNetwork::<f64>::check_layout(&vec![3, 0, 2], &vec![relu, relu]), Err(LoreError::Validation(_))));
    assert!(NeuralNetwork::<f64>::check_layout(&vec![3, 5, 2], &vec![relu, relu]).is_ok());
}

#[test]
fn network_layers_must_chain() {
    assert!(matches!(NeuralNetwork::<f64>::new(vec![]), Err(LoreError::Validation(_))));
    let r = NeuralNetwork::new(vec![layer(2, 3, 1.0), layer(2, 1, 1.0)]);
    assert!(matches!(r, Err(LoreError::DimensionMismatch(_))));
}

#[test]
fn architecture_lists_sizes() {
    let n = network(&[2, 3, 1], 1.0);
    let arch = n.get_architecture();
    assert_eq!(arch, vec![2, 3, 1]);
    assert_eq!(arch.len(), n.get_layers().len() + 1);
}

#[test]
fn parameter_count_of_small_network() {
    assert_eq!(network(&[2, 3, 1], 1.0).get_parameter_count(), 13);
    assert_eq!(network(&[4, 1], 1.0).get_parameter_count(), 5);
}

#[test]
fn relu_network_scenario_output_length() {
    let n = network(&[2, 2, 1], 0.5);
    let out = n.forward(&vec![1.0, 1.0], &relu_neuron).unwrap();
    assert_eq!(out.len(), 1);
    assert_eq!(out, vec![1.0]);
}

#[test]
fn network_forward_rejects_wrong_input_size() {
    let n = network(&[2, 2, 1], 0.5);
    assert!(matches!(n.forward(&vec![1.0], &relu_neuron), Err(LoreError::DimensionMismatch(_))));
}

#[test]
fn batch_forward_empty_and_failing_rows() {
    let n = network(&[2, 3], 1.0);
    assert_eq!(n.batch_forward(vec![], &relu_neuron).unwrap().len(), 0);
    let outs = n.batch_forward(vec![vec![1.0, 1.0], vec![2.0, 0.0]], &relu_neuron).unwrap();
    assert_eq!(outs, vec![vec![2.0; 3], vec![2.0; 3]]);
    let r = n.batch_forward(vec![vec![1.0, 1.0], vec![2.0]], &relu_neuron);
    assert!(matches!(r, Err(LoreError::DimensionMismatch(_))));
}

#[test]
fn ensemble_outputs_checks() {
    let empty: Vec<NeuralNetwork<f64>> = vec![];
    assert!(matches!(ensemble_outputs(&empty, &vec![1.0], &relu_neuron), Err(LoreError::Validation(_))));
    let nets = vec![network(&[2, 2], 1.0), network(&[2, 2], 1.0)];
    let outs = ensemble_outputs(&nets, &vec![1.0, 2.0], &relu_neuron).unwrap();
    let single = nets[0].forward(&vec![1.0, 2.0], &relu_neuron).unwrap();
    assert_eq!(outs, vec![single.clone(), single]);
    let mixed = vec![network(&[2, 2], 1.0), network(&[2, 3], 1.0)];
    assert!(matches!(ensemble_outputs(&mixed, &vec![1.0, 2.0], &relu_neuron), Err(LoreError::DimensionMismatch(_))));
}

#[test]
fn feedforward_layout_joins_sizes() {
    let (sizes, acts) = feedforward_layout(4, &vec![8, 6], 2, ActivationType::Tanh);
    assert_eq!(sizes, vec![4, 8, 6, 2]);
    assert_eq!(acts, vec![ActivationType::Tanh; 3]);
    let (sizes, acts) = feedforward_layout(4, &vec![], 2, ActivationType::ReLU);
    assert_eq!(sizes, vec![4, 2]);
    assert_eq!(acts.len(), 1);
}
