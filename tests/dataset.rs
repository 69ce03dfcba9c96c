use rust_neuralnet::matrix::Matrix;
use rust_neuralnet::sample::{prepare_dataset, DatasetError, Sample};
use rust_neuralnet::shape::Shape;
use rust_neuralnet::trainer::{Trainer, TrainerHaltCondition};

#[test]
fn prepare_lays_samples_out_row_by_row() {
    let dataset = vec![
        Sample::dataset(vec![3.0, 5.0], vec![75.0]),
        Sample::dataset(vec![5.0, 1.0], vec![82.0]),
        Sample::dataset(vec![10.0, 2.0], vec![93.0]),
    ];
    let (inputs, outputs) = prepare_dataset(&dataset).unwrap();
    assert_eq!(inputs.shape(), Shape::new(3, 2));
    assert_eq!(outputs.shape(), Shape::new(3, 1));
    assert_eq!(inputs.get(0, 1), 5.0);
    assert_eq!(inputs.get(2, 0), 10.0);
    assert_eq!(outputs.get(1, 0), 82.0);
    let (shape, data) = inputs.into_parts();
    assert_eq!(shape, Shape::new(3, 2));
    assert_eq!(data, vec![3.0, 5.0, 5.0, 1.0, 10.0, 2.0]);
    assert_eq!(outputs.into_parts().1, vec![75.0, 82.0, 93.0]);
}

#[test]
fn prepare_refuses_empty_dataset() {
    let dataset: Vec<Sample<f64>> = Vec::new();
    assert_eq!(prepare_dataset(&dataset).err(), Some(DatasetError::Empty));
}

#[test]
fn prepare_refuses_missing_outputs() {
    let first = vec![Sample::predict(vec![1.0, 2.0]), Sample::dataset(vec![1.0, 2.0], vec![0.5])];
    assert_eq!(
        prepare_dataset(&first).err(),
        Some(DatasetError::MissingOutputs { index: 0 })
    );
    let later = vec![Sample::dataset(vec![1.0, 2.0], vec![0.5]), Sample::predict(vec![1.0, 2.0])];
    assert_eq!(
        prepare_dataset(&later).err(),
        Some(DatasetError::MissingOutputs { index: 1 })
    );
}

#[test]
fn prepare_refuses_width_mismatches() {
    let inputs = vec![
        Sample::dataset(vec![1, 2], vec![3]),
        Sample::dataset(vec![1, 2], vec![3]),
        Sample::dataset(vec![1, 2, 4], vec![3, 3]),
    ];
    assert_eq!(
        prepare_dataset(&inputs).err(),
        Some(DatasetError::InputsCountMismatch { index: 2, found: 3, expected: 2 })
    );
    let outputs = vec![Sample::dataset(vec![1, 2], vec![3]), Sample::dataset(vec![1, 2], vec![])];
    assert_eq!(
        prepare_dataset(&outputs).err(),
        Some(DatasetError::OutputsCountMismatch { index: 1, found: 0, expected: 1 })
    );
}

#[test]
fn matrix_from_rows() {
    let m = Matrix::from_rows(&vec![vec![1u8, 2, 3], vec![4, 5, 6]], 3);
    assert_eq!(m.shape(), Shape::new(2, 3));
    assert_eq!(m.get(1, 0), 4);
    assert_eq!(m.get(0, 2), 3);
    let empty: Matrix<u8> = Matrix::from_rows(&Vec::new(), 4);
    assert_eq!(empty.shape(), Shape::new(0, 4));
}

#[test]
fn halt_condition_counts_epochs() {
    let three = TrainerHaltCondition::Epochs(3);
    assert!(!three.reached(0));
    assert!(!three.reached(2));
    assert!(three.reached(3));
    assert!(three.reached(4));
    assert!(TrainerHaltCondition::Epochs(0).reached(0));
}

#[test]
fn trainer_takes_dataset_and_halt_condition() {
    let dataset = vec![
        Sample::dataset(vec![0.0, 1.0], vec![1.0]),
        Sample::dataset(vec![1.0, 1.0], vec![0.0]),
    ];
    let trainer = Trainer::with_dataset("network", &dataset).unwrap();
    assert!(!trainer.should_halt(0));
    assert!(trainer.should_halt(1));
    let trainer = trainer.halt_condition(TrainerHaltCondition::Epochs(10)).unwrap();
    assert!(!trainer.should_halt(9));
    assert!(trainer.should_halt(10));
    let (inputs, outputs, network, halt) = trainer.into_parts();
    assert_eq!(inputs.shape(), Shape::new(2, 2));
    assert_eq!(outputs.get(0, 0), 1.0);
    assert_eq!(network, "network");
    assert_eq!(halt, TrainerHaltCondition::Epochs(10));
}

#[test]
fn trainer_refuses_zero_epochs_and_bad_datasets() {
    let dataset = vec![Sample::dataset(vec![0.0], vec![1.0])];
    let trainer = Trainer::with_dataset((), &dataset).unwrap();
    assert!(trainer.halt_condition(TrainerHaltCondition::Epochs(0)).is_none());
    let bad: Vec<Sample<f64>> = vec![Sample::predict(vec![0.0])];
    match Trainer::with_dataset((), &bad) {
        Err(e) => assert_eq!(e, DatasetError::MissingOutputs { index: 0 }),
        Ok(_) => panic!("a sample without outputs was accepted"),
    }
}
