use rust_neuralnet::error::NetworkError;
use rust_neuralnet::layer::{Backprop, LayerShape, LayerState};
use rust_neuralnet::shape::Shape;

#[test]
fn product_shape_and_mismatch() {
    let a = Shape::new(4, 2);
    assert_eq!(a.product(&Shape::new(2, 3)), Ok(Shape::new(4, 3)));
    assert_eq!(
        a.product(&Shape::new(3, 3)),
        Err(NetworkError::ShapeMismatch { found: 2, expected: 3 })
    );
    assert_eq!(a.transposed(), Shape::new(2, 4));
}

#[test]
fn two_stage_requires_matching_weights() {
    assert_eq!(
        LayerShape::two_stage(Shape::new(2, 3), Shape::new(3, 1)),
        Ok(LayerShape::TwoStage { inputs: 2, neurons: 3, outputs: 1 })
    );
    assert_eq!(
        LayerShape::two_stage(Shape::new(2, 3), Shape::new(4, 1)),
        Err(NetworkError::ShapeMismatch { found: 3, expected: 4 })
    );
    assert_eq!(
        LayerShape::single_stage(Shape::new(5, 2)),
        LayerShape::SingleStage { inputs: 5, outputs: 2 }
    );
}

#[test]
fn forward_yields_samples_by_outputs() {
    let mut layer = LayerState::new(LayerShape::TwoStage { inputs: 2, neurons: 3, outputs: 1 });
    assert_eq!(layer.cached_samples(), None);
    assert_eq!(layer.forward(Shape::new(4, 2)), Ok(Shape::new(4, 1)));
    assert_eq!(layer.cached_samples(), Some(4));
}

#[test]
fn forward_rejects_every_mismatched_width() {
    for inputs in 1..6usize {
        for cols in 0..8usize {
            if cols == inputs {
                continue;
            }
            let mut layer =
                LayerState::new(LayerShape::TwoStage { inputs, neurons: 2, outputs: 1 });
            assert_eq!(
                layer.forward(Shape::new(3, cols)),
                Err(NetworkError::ShapeMismatch { found: cols, expected: inputs })
            );
            assert_eq!(layer.cached_samples(), None);
            let mut single = LayerState::new(LayerShape::SingleStage { inputs, outputs: 2 });
            assert_eq!(
                single.forward(Shape::new(3, cols)),
                Err(NetworkError::ShapeMismatch { found: cols, expected: inputs })
            );
        }
    }
}

#[test]
fn failed_forward_keeps_previous_cache() {
    let mut layer = LayerState::new(LayerShape::SingleStage { inputs: 2, outputs: 2 });
    assert_eq!(layer.forward(Shape::new(3, 2)), Ok(Shape::new(3, 2)));
    assert!(layer.forward(Shape::new(5, 7)).is_err());
    assert_eq!(layer.cached_samples(), Some(3));
}

#[test]
fn cost_needs_matching_forward() {
    let mut layer = LayerState::new(LayerShape::TwoStage { inputs: 2, neurons: 2, outputs: 1 });
    assert_eq!(
        layer.cost(Shape::new(4, 1)),
        Err(NetworkError::StaleState { cached: None, requested: 4 })
    );
    layer.forward(Shape::new(4, 2)).unwrap();
    assert_eq!(layer.cost(Shape::new(4, 1)), Ok(1));
    assert_eq!(
        layer.cost(Shape::new(3, 1)),
        Err(NetworkError::StaleState { cached: Some(4), requested: 3 })
    );
    assert_eq!(
        layer.cost(Shape::new(4, 2)),
        Err(NetworkError::ShapeMismatch { found: 2, expected: 1 })
    );
}

#[test]
fn gradients_have_the_weights_shapes() {
    let mut layer = LayerState::new(LayerShape::TwoStage { inputs: 3, neurons: 4, outputs: 2 });
    layer.forward(Shape::new(5, 3)).unwrap();
    assert_eq!(
        layer.backward(Shape::new(5, 3), Shape::new(5, 2)),
        Ok(Backprop {
            input_gradient: Shape::new(3, 4),
            output_gradient: Some(Shape::new(4, 2)),
            downstream: Shape::new(5, 3),
        })
    );
    let mut single = LayerState::new(LayerShape::SingleStage { inputs: 3, outputs: 2 });
    single.forward(Shape::new(5, 3)).unwrap();
    assert_eq!(
        single.backward(Shape::new(5, 3), Shape::new(5, 2)),
        Ok(Backprop {
            input_gradient: Shape::new(3, 2),
            output_gradient: None,
            downstream: Shape::new(5, 3),
        })
    );
}

#[test]
fn backward_checks_samples_then_widths() {
    let mut layer = LayerState::new(LayerShape::TwoStage { inputs: 3, neurons: 4, outputs: 2 });
    assert_eq!(
        layer.backward(Shape::new(5, 3), Shape::new(5, 2)),
        Err(NetworkError::StaleState { cached: None, requested: 5 })
    );
    layer.forward(Shape::new(5, 3)).unwrap();
    assert_eq!(
        layer.backward(Shape::new(5, 3), Shape::new(6, 2)),
        Err(NetworkError::StaleState { cached: Some(5), requested: 6 })
    );
    assert_eq!(
        layer.backward(Shape::new(5, 1), Shape::new(5, 2)),
        Err(NetworkError::ShapeMismatch { found: 1, expected: 3 })
    );
    assert_eq!(
        layer.backward(Shape::new(5, 3), Shape::new(5, 7)),
        Err(NetworkError::ShapeMismatch { found: 7, expected: 2 })
    );
}
