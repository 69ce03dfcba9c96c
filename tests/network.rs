use rust_neuralnet::activation::{Identity, Sigmoid};
use rust_neuralnet::builder::NeuralNetworkBuilder;
use rust_neuralnet::error::NetworkError;
use rust_neuralnet::layer::{Backprop, LayerShape};
use rust_neuralnet::network::Topology;
use rust_neuralnet::sample::{prepare_dataset, Sample};
use rust_neuralnet::shape::Shape;

fn two_layers() -> Topology {
    Topology::new(vec![
        LayerShape::TwoStage { inputs: 2, neurons: 3, outputs: 3 },
        LayerShape::TwoStage { inputs: 3, neurons: 2, outputs: 1 },
    ])
}

#[test]
fn empty_network_is_refused() {
    let mut network = Topology::new(Vec::new());
    assert_eq!(network.len(), 0);
    assert_eq!(network.forward(Shape::new(1, 2)), Err(NetworkError::EmptyTopology));
    assert_eq!(network.cost(Shape::new(1, 1)), Err(NetworkError::EmptyTopology));
    assert_eq!(
        network.backward(Shape::new(1, 2), Shape::new(1, 1)),
        Err(NetworkError::EmptyTopology)
    );
}

#[test]
fn forward_threads_each_layer_into_the_next() {
    let mut network = two_layers();
    assert_eq!(network.forward(Shape::new(7, 2)), Ok(Shape::new(7, 1)));
    for i in 0..network.len() {
        assert_eq!(network.layer(i).cached_samples(), Some(7));
    }
    assert_eq!(network.cost(Shape::new(7, 1)), Ok(1));
}

#[test]
fn forward_stops_at_first_rejecting_layer() {
    let mut network = two_layers();
    assert_eq!(
        network.forward(Shape::new(7, 3)),
        Err(NetworkError::ShapeMismatch { found: 3, expected: 2 })
    );
    let mut broken = Topology::new(vec![
        LayerShape::SingleStage { inputs: 2, outputs: 4 },
        LayerShape::SingleStage { inputs: 3, outputs: 1 },
    ]);
    assert_eq!(
        broken.forward(Shape::new(1, 2)),
        Err(NetworkError::ShapeMismatch { found: 4, expected: 3 })
    );
    assert_eq!(broken.layer(0).cached_samples(), None);
    assert_eq!(broken.layer(1).cached_samples(), None);
    assert!(broken.forward(Shape::new(1, 5)).is_err());
    let mut network = two_layers();
    network.forward(Shape::new(2, 2)).unwrap();
    assert!(network.forward(Shape::new(6, 1)).is_err());
    assert_eq!(network.layer(0).cached_samples(), Some(2));
    assert_eq!(network.layer(1).cached_samples(), Some(2));
}

#[test]
fn backward_runs_from_last_layer_to_first() {
    let mut network = two_layers();
    assert_eq!(
        network.backward(Shape::new(7, 2), Shape::new(7, 1)),
        Err(NetworkError::StaleState { cached: None, requested: 7 })
    );
    network.forward(Shape::new(7, 2)).unwrap();
    let plan = network.backward(Shape::new(7, 2), Shape::new(7, 1)).unwrap();
    assert_eq!(
        plan,
        vec![
            Backprop {
                input_gradient: Shape::new(3, 2),
                output_gradient: Some(Shape::new(2, 1)),
                downstream: Shape::new(7, 3),
            },
            Backprop {
                input_gradient: Shape::new(2, 3),
                output_gradient: Some(Shape::new(3, 3)),
                downstream: Shape::new(7, 2),
            },
        ]
    );
    assert_eq!(
        network.backward(Shape::new(7, 2), Shape::new(7, 4)),
        Err(NetworkError::ShapeMismatch { found: 4, expected: 1 })
    );
    assert_eq!(
        network.backward(Shape::new(2, 2), Shape::new(2, 1)),
        Err(NetworkError::StaleState { cached: Some(7), requested: 2 })
    );
}

#[test]
fn builder_chains_layers() {
    let (layers, activations) = NeuralNetworkBuilder::with_inputs(3)
        .layer(4, Identity)
        .layer(2, Identity)
        .output(5, 1, Identity);
    assert_eq!(
        layers,
        vec![
            LayerShape::TwoStage { inputs: 3, neurons: 4, outputs: 4 },
            LayerShape::TwoStage { inputs: 4, neurons: 2, outputs: 2 },
            LayerShape::TwoStage { inputs: 2, neurons: 5, outputs: 1 },
        ]
    );
    assert_eq!(activations.len(), 3);
    let mut network = Topology::new(layers);
    assert_eq!(network.forward(Shape::new(9, 3)), Ok(Shape::new(9, 1)));
}

#[test]
fn output_layer_alone() {
    let (layers, _) = NeuralNetworkBuilder::with_inputs(2).output(3, 1, Sigmoid);
    assert_eq!(layers, vec![LayerShape::TwoStage { inputs: 2, neurons: 3, outputs: 1 }]);
}

#[test]
fn xor() {
    let (t, f) = (1.0, 0.0);
    let dataset = vec![
        Sample::dataset(vec![f, f], vec![f]),
        Sample::dataset(vec![f, t], vec![t]),
        Sample::dataset(vec![t, f], vec![t]),
        Sample::dataset(vec![t, t], vec![f]),
    ];
    let (inputs, outputs) = prepare_dataset(&dataset).unwrap();
    assert_eq!(inputs.shape(), Shape::new(4, 2));
    assert_eq!(outputs.shape(), Shape::new(4, 1));

    let (layers, _) = NeuralNetworkBuilder::with_inputs(2)
        .layer(2, Sigmoid)
        .output(1, 1, Sigmoid);
    let mut neural_network = Topology::new(layers);
    // one sample, [1, 0]
    let result = neural_network.forward(Shape::new(1, 2));
    assert!(result.is_ok());
    assert_eq!(result, Ok(Shape::new(1, 1)));
}

#[test]
fn builder_accepts_zero_neuron_layer() {
    let (layers, _) = NeuralNetworkBuilder::with_inputs(2)
        .layer(0, Identity)
        .output(3, 1, Identity);
    assert_eq!(
        layers,
        vec![
            LayerShape::TwoStage { inputs: 2, neurons: 0, outputs: 0 },
            LayerShape::TwoStage { inputs: 0, neurons: 3, outputs: 1 },
        ]
    );
    let mut network = Topology::new(layers);
    assert_eq!(network.forward(Shape::new(4, 2)), Ok(Shape::new(4, 1)));
}
