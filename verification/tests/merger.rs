use moe_scheduler::config::ModelInfo;
use moe_scheduler::error::Error;
use moe_scheduler::result_merger::ResultMerger;
use moe_scheduler::task::TaskPriority;
use moe_scheduler::task_splitter::{SplitStrategy, TaskSplitter};
use moe_scheduler::types::GateWeights;

fn model(num_experts: usize, hidden: usize, inter: usize, layers: usize) -> ModelInfo {
    ModelInfo {
        model_type: "switch_transformer".to_string(),
        num_experts,
        hidden_size: hidden,
        intermediate_size: inter,
        num_layers: layers,
    }
}

fn f32s_to_bytes(vals: &[f32]) -> Vec<u8> {
    let mut out = Vec::new();
    for v in vals {
        out.extend_from_slice(&v.to_le_bytes());
    }
    out
}

fn bytes_to_f32s(bytes: &[u8]) -> Vec<f32> {
    bytes
        .chunks_exact(4)
        .map(|c| f32::from_le_bytes([c[0], c[1], c[2], c[3]]))
        .collect()
}

#[test]
fn test_result_merger() {
    let model_info = ModelInfo {
        model_type: "switch_transformer".to_string(),
        num_experts: 2,
        hidden_size: 128,
        intermediate_size: 512,
        num_layers: 4,
    };

    let merger = ResultMerger::new(model_info);

    let mut results = Vec::new();
    for i in 0..2 {
        let mut result = Vec::new();
        for j in 0..32 {
            let value = (i * 10 + j) as f32;
            result.extend_from_slice(&value.to_le_bytes());
        }
        results.push(result);
    }

    let gate_weights = GateWeights {
        weights: vec![0.7f32.to_bits(), 0.3f32.to_bits()],
        top_k: 2,
    };

    let merged = merger.merge_expert_results(&results, &gate_weights).unwrap();
    assert!(!merged.is_empty());
}

#[test]
fn weighted_expert_merge_is_the_weighted_sum() {
    let merger = ResultMerger::new(model(2, 1, 1, 1));
    let results = vec![f32s_to_bytes(&[1.0, 2.0]), f32s_to_bytes(&[3.0, 4.0])];
    let gw = GateWeights { weights: vec![0.5f32.to_bits(), 0.25f32.to_bits()], top_k: 2 };
    let merged = merger.merge_expert_results(&results, &gw).unwrap();
    // 1.0 * 0.5 + 3.0 * 0.25 = 1.25;  2.0 * 0.5 + 4.0 * 0.25 = 2.0.
    assert_eq!(bytes_to_f32s(&merged), vec![1.25, 2.0]);
}

#[test]
fn every_weight_enters_the_sum() {
    // The accumulation is unconditional: zero and negative weights
    // contribute their products too.
    let merger = ResultMerger::new(model(3, 1, 1, 1));
    let results = vec![
        f32s_to_bytes(&[1.0]),
        f32s_to_bytes(&[100.0]),
        f32s_to_bytes(&[1000.0]),
    ];
    let gw = GateWeights {
        weights: vec![1.0f32.to_bits(), 0.0f32.to_bits(), (-1.0f32).to_bits()],
        top_k: 1,
    };
    let merged = merger.merge_expert_results(&results, &gw).unwrap();
    // 1*1 + 0*100 + (-1)*1000 = -999.
    assert_eq!(bytes_to_f32s(&merged), vec![-999.0]);
}

#[test]
fn round_trip_uniform_weights_keep_a_constant_vector() {
    // Four identical expert partials under uniform weights 1/4: the
    // weighted sum of identical vectors with weights summing to 1 gives
    // the vector back unchanged.
    let merger = ResultMerger::new(model(4, 1, 1, 1));
    let v = f32s_to_bytes(&[1.5, -2.0, 0.25]);
    let results = vec![v.clone(), v.clone(), v.clone(), v.clone()];
    let w = (1.0f32 / 4.0).to_bits();
    let gw = GateWeights { weights: vec![w; 4], top_k: 4 };
    let merged = merger
        .merge_results(&results, Some(gw), &SplitStrategy::ByExpert)
        .unwrap();
    assert_eq!(merged, v);
}

#[test]
fn expert_merge_without_weights_concatenates() {
    let merger = ResultMerger::new(model(2, 1, 1, 1));
    let results = vec![vec![1u8, 2], vec![3u8, 4]];
    let merged = merger
        .merge_results(&results, None, &SplitStrategy::ByExpert)
        .unwrap();
    assert_eq!(merged, vec![1, 2, 3, 4]);
}

#[test]
fn layer_merge_accumulates_residuals() {
    let merger = ResultMerger::new(model(1, 1, 1, 3));
    let results = vec![
        f32s_to_bytes(&[1.0, 10.0]),
        f32s_to_bytes(&[2.0, 20.0]),
        f32s_to_bytes(&[3.0, 30.0]),
    ];
    let merged = merger
        .merge_results(&results, None, &SplitStrategy::ByLayer)
        .unwrap();
    assert_eq!(bytes_to_f32s(&merged), vec![6.0, 60.0]);
}

#[test]
fn batch_merge_concatenates_and_keeps_padding() {
    let merger = ResultMerger::new(model(1, 1, 1, 1));
    let results = vec![vec![1u8, 2, 3, 4], vec![9u8, 10, 0, 0]];
    let merged = merger
        .merge_results(&results, None, &SplitStrategy::ByBatch { batch_size: 4 })
        .unwrap();
    // The documented degraded mode: trailing zero padding is not stripped.
    assert_eq!(merged, vec![1, 2, 3, 4, 9, 10, 0, 0]);
}

#[test]
fn remove_padding_is_the_identity() {
    let merger = ResultMerger::new(model(1, 1, 1, 1));
    let data = vec![5u8, 6, 0, 0];
    assert_eq!(merger.remove_padding(&data).unwrap(), data);
}

#[test]
fn empty_partials_always_fail_with_a_merge_error() {
    let merger = ResultMerger::new(model(2, 1, 1, 2));
    let empty: Vec<Vec<u8>> = Vec::new();
    let strategies = vec![
        SplitStrategy::ByExpert,
        SplitStrategy::ByLayer,
        SplitStrategy::ByBatch { batch_size: 4 },
        SplitStrategy::Hybrid {
            expert_split: true,
            layer_split: true,
            batch_size: 1,
            expert_ratio: 100,
            layer_ratio: 100,
        },
        SplitStrategy::Hybrid {
            expert_split: false,
            layer_split: false,
            batch_size: 1,
            expert_ratio: 100,
            layer_ratio: 100,
        },
    ];
    for s in &strategies {
        let r = merger.merge_results(&empty, None, s);
        assert!(matches!(r, Err(Error::MergeError(_))));
    }
}

#[test]
fn weight_count_mismatch_is_a_shape_error() {
    let merger = ResultMerger::new(model(2, 1, 1, 1));
    let results = vec![f32s_to_bytes(&[1.0]), f32s_to_bytes(&[2.0])];
    let gw = GateWeights { weights: vec![1.0f32.to_bits()], top_k: 1 };
    let r = merger.merge_expert_results(&results, &gw);
    match r {
        Err(Error::ShapeMismatch { index, expected, actual }) => {
            assert_eq!(index, 0);
            assert_eq!(expected, 2);
            assert_eq!(actual, 1);
        },
        other => panic!("expected a shape mismatch, got {:?}", other),
    }
}

#[test]
fn partial_length_mismatch_is_a_shape_error() {
    let merger = ResultMerger::new(model(2, 1, 1, 2));
    let results = vec![vec![0u8; 8], vec![0u8; 4]];
    let r = merger.merge_results(&results, None, &SplitStrategy::ByLayer);
    match r {
        Err(Error::ShapeMismatch { index, expected, actual }) => {
            assert_eq!(index, 1);
            assert_eq!(expected, 8);
            assert_eq!(actual, 4);
        },
        other => panic!("expected a shape mismatch, got {:?}", other),
    }
}

#[test]
fn hybrid_two_axis_merge_groups_by_layer() {
    // 2 layers x 2 experts, no gate weights: each layer merges its two
    // partials under uniform weights 1/2, then the layers accumulate.
    let merger = ResultMerger::new(model(2, 1, 1, 2));
    let results = vec![
        f32s_to_bytes(&[2.0]),
        f32s_to_bytes(&[4.0]),
        f32s_to_bytes(&[10.0]),
        f32s_to_bytes(&[20.0]),
    ];
    let s = SplitStrategy::Hybrid {
        expert_split: true,
        layer_split: true,
        batch_size: 1,
        expert_ratio: 100,
        layer_ratio: 100,
    };
    let merged = merger.merge_results(&results, None, &s).unwrap();
    // Layer 0: 2*0.5 + 4*0.5 = 3;  layer 1: 10*0.5 + 20*0.5 = 15;  sum 18.
    assert_eq!(bytes_to_f32s(&merged), vec![18.0]);
}

#[test]
fn hybrid_count_mismatch_is_a_shape_error() {
    let merger = ResultMerger::new(model(2, 1, 1, 2));
    let results = vec![f32s_to_bytes(&[1.0]); 3];
    let s = SplitStrategy::Hybrid {
        expert_split: true,
        layer_split: true,
        batch_size: 1,
        expert_ratio: 100,
        layer_ratio: 100,
    };
    let r = merger.merge_results(&results, None, &s);
    match r {
        Err(Error::ShapeMismatch { index, expected, actual }) => {
            assert_eq!(index, 0);
            assert_eq!(expected, 4);
            assert_eq!(actual, 3);
        },
        other => panic!("expected a shape mismatch, got {:?}", other),
    }
}

#[test]
fn hybrid_expert_only_merge_uses_uniform_weights() {
    let merger = ResultMerger::new(model(2, 1, 1, 1));
    let results = vec![f32s_to_bytes(&[2.0]), f32s_to_bytes(&[2.0])];
    let s = SplitStrategy::Hybrid {
        expert_split: true,
        layer_split: false,
        batch_size: 1,
        expert_ratio: 100,
        layer_ratio: 100,
    };
    let merged = merger.merge_results(&results, None, &s).unwrap();
    assert_eq!(bytes_to_f32s(&merged), vec![2.0]);
}

#[test]
fn split_then_merge_through_the_splitter() {
    // A full round through the splitter's own merger: identical partials
    // under uniform weights come back unchanged.
    let splitter = TaskSplitter::new(model(2, 1, 1, 1), SplitStrategy::ByExpert);
    let input = f32s_to_bytes(&[3.5]);
    let tasks = splitter.split_task(&input, "rt", TaskPriority::Normal).unwrap();
    assert_eq!(tasks.len(), 2);
    let partials = vec![input.clone(), input.clone()];
    let gw = GateWeights { weights: vec![0.5f32.to_bits(); 2], top_k: 2 };
    let merged = splitter.merge_results(&partials, Some(gw)).unwrap();
    assert_eq!(merged, input);
}
