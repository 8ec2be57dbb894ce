use moe_scheduler::config::ModelInfo;
use moe_scheduler::data_preparator::DataPreparator;
use moe_scheduler::error::Error;
use moe_scheduler::task::TaskPriority;
use moe_scheduler::task_splitter::{SplitStrategy, TaskSplitter};

fn model(num_experts: usize, hidden: usize, inter: usize, layers: usize) -> ModelInfo {
    ModelInfo {
        model_type: "switch_transformer".to_string(),
        num_experts,
        hidden_size: hidden,
        intermediate_size: inter,
        num_layers: layers,
    }
}

#[test]
fn test_task_splitter_creation() {
    let model_info = ModelInfo {
        model_type: "switch_transformer".to_string(),
        num_experts: 8,
        hidden_size: 512,
        intermediate_size: 2048,
        num_layers: 12,
    };

    let strategy = SplitStrategy::ByExpert;
    let splitter = TaskSplitter::new(model_info, strategy);

    assert_eq!(splitter.data_preparator.model_info.num_experts, 8);
}

#[test]
fn test_data_preparator() {
    let model_info = ModelInfo {
        model_type: "switch_transformer".to_string(),
        num_experts: 4,
        hidden_size: 256,
        intermediate_size: 1024,
        num_layers: 6,
    };

    let preparator = DataPreparator::new(model_info);
    let input_data = vec![1u8, 2, 3, 4, 5, 6, 7, 8];

    let expert_data = preparator.prepare_expert_data(&input_data, 1).unwrap();
    assert!(expert_data.len() > input_data.len());

    let layer_data = preparator.prepare_layer_data(&input_data, 2).unwrap();
    assert!(layer_data.len() > input_data.len());
}

#[test]
fn expert_split_counts_and_payload_lengths() {
    // Two experts over an 8-byte input: payload = 4 + 4 * 2 + 8 bytes.
    let splitter = TaskSplitter::new(model(2, 1, 1, 1), SplitStrategy::ByExpert);
    let input = vec![9u8, 8, 7, 6, 5, 4, 3, 2];
    let tasks = splitter.split_task(&input, "req", TaskPriority::Normal).unwrap();
    assert_eq!(tasks.len(), 2);
    for t in &tasks {
        assert_eq!(t.input_data.len(), 4 + 4 * 2 + 8);
        assert_eq!(t.parent_task_id.as_deref(), Some("req"));
        assert!(t.result.is_none());
    }
    assert_eq!(tasks[0].task_id, "req_expert_0");
    assert_eq!(tasks[1].task_id, "req_expert_1");
    assert_eq!(tasks[0].stream_id, Some(0));
    assert_eq!(tasks[1].stream_id, Some(1));
    // Expert 1's header: id 1 LE, then the one-hot gate vector (0.0, 1.0).
    let mut expected = vec![1u8, 0, 0, 0];
    expected.extend_from_slice(&0.0f32.to_le_bytes());
    expected.extend_from_slice(&1.0f32.to_le_bytes());
    expected.extend_from_slice(&input);
    assert_eq!(tasks[1].input_data, expected);
}

#[test]
fn layer_split_counts_and_header() {
    let splitter = TaskSplitter::new(model(2, 1, 3, 3), SplitStrategy::ByLayer);
    let input = vec![1u8, 2, 3, 4];
    let tasks = splitter.split_task(&input, "req", TaskPriority::High).unwrap();
    assert_eq!(tasks.len(), 3);
    assert_eq!(tasks[2].task_id, "req_layer_2");
    // Layer header: layer id, hidden size, intermediate size, expert count.
    let mut expected = Vec::new();
    for v in [2u32, 1, 3, 2] {
        expected.extend_from_slice(&v.to_le_bytes());
    }
    expected.extend_from_slice(&input);
    assert_eq!(tasks[2].input_data, expected);
}

#[test]
fn layer_dependencies_are_the_two_predecessors() {
    let splitter = TaskSplitter::new(model(2, 1, 1, 4), SplitStrategy::ByLayer);
    let input = vec![0u8; 8];
    let tasks = splitter.split_task(&input, "r", TaskPriority::Normal).unwrap();
    let deps = splitter.get_task_dependencies(&tasks).unwrap();
    assert_eq!(deps.len(), 4);
    assert_eq!(deps[0].0, "r_layer_0");
    assert!(deps[0].1.is_empty());
    assert_eq!(deps[1].1, vec!["r_layer_0".to_string()]);
    for i in 2..4 {
        assert_eq!(
            deps[i].1,
            vec![tasks[i - 1].task_id.clone(), tasks[i - 2].task_id.clone()]
        );
    }
}

#[test]
fn batch_split_pads_the_last_chunk() {
    // A 10-byte input under batch size 4: three chunks of exactly 4
    // bytes, the third zero-padded with 2 bytes.
    let splitter = TaskSplitter::new(model(1, 1, 1, 1), SplitStrategy::ByBatch { batch_size: 4 });
    let input: Vec<u8> = (1..=10).collect();
    let tasks = splitter.split_task(&input, "b", TaskPriority::Low).unwrap();
    assert_eq!(tasks.len(), 3);
    assert_eq!(tasks[0].input_data, vec![1, 2, 3, 4]);
    assert_eq!(tasks[1].input_data, vec![5, 6, 7, 8]);
    assert_eq!(tasks[2].input_data, vec![9, 10, 0, 0]);
    assert_eq!(tasks[2].task_id, "b_batch_2");
}

#[test]
fn empty_input_is_a_validation_error() {
    let splitter = TaskSplitter::new(model(2, 1, 1, 1), SplitStrategy::ByExpert);
    let r = splitter.split_task(&Vec::new(), "x", TaskPriority::Normal);
    assert!(matches!(r, Err(Error::ValidationError(_))));
}

#[test]
fn undersized_input_is_a_validation_error() {
    // hidden_size 2 demands at least 8 bytes.
    let splitter = TaskSplitter::new(model(2, 2, 1, 1), SplitStrategy::ByExpert);
    let r = splitter.split_task(&vec![1u8, 2, 3], "x", TaskPriority::Normal);
    assert!(matches!(r, Err(Error::ValidationError(_))));
}

#[test]
fn zero_batch_size_is_a_config_error() {
    let splitter = TaskSplitter::new(model(2, 1, 1, 1), SplitStrategy::ByBatch { batch_size: 0 });
    let r = splitter.split_task(&vec![1u8, 2, 3, 4], "x", TaskPriority::Normal);
    assert!(matches!(r, Err(Error::ConfigError(_))));
}

#[test]
fn out_of_range_ratio_is_a_config_error() {
    let strategy = SplitStrategy::Hybrid {
        expert_split: true,
        layer_split: false,
        batch_size: 4,
        expert_ratio: 101,
        layer_ratio: 100,
    };
    let splitter = TaskSplitter::new(model(2, 1, 1, 1), strategy);
    let r = splitter.split_task(&vec![1u8, 2, 3, 4], "x", TaskPriority::Normal);
    assert!(matches!(r, Err(Error::ConfigError(_))));
}

#[test]
fn expert_id_out_of_range() {
    let preparator = DataPreparator::new(model(2, 1, 1, 1));
    let r = preparator.prepare_expert_data(&vec![1u8, 2, 3, 4], 2);
    assert!(matches!(r, Err(Error::OutOfRange(_))));
    let r = preparator.prepare_layer_data(&vec![1u8, 2, 3, 4], 5);
    assert!(matches!(r, Err(Error::OutOfRange(_))));
}

#[test]
fn hybrid_two_axis_split_and_dependencies() {
    // Full ratios over 2 experts and 2 layers: 4 sub-tasks, and every
    // sub-task of layer 1 depends on both sub-tasks of layer 0.
    let strategy = SplitStrategy::Hybrid {
        expert_split: true,
        layer_split: true,
        batch_size: 1,
        expert_ratio: 100,
        layer_ratio: 100,
    };
    let splitter = TaskSplitter::new(model(2, 1, 1, 2), strategy);
    let input = vec![1u8, 2, 3, 4];
    let tasks = splitter.split_task(&input, "h", TaskPriority::Normal).unwrap();
    assert_eq!(tasks.len(), 4);
    assert_eq!(tasks[0].task_id, "h_layer_0_expert_0");
    assert_eq!(tasks[3].task_id, "h_layer_1_expert_1");
    let deps = splitter.get_task_dependencies(&tasks).unwrap();
    assert_eq!(deps.len(), 4);
    assert!(deps[0].1.is_empty());
    assert!(deps[1].1.is_empty());
    let layer0: Vec<String> = vec![tasks[0].task_id.clone(), tasks[1].task_id.clone()];
    assert_eq!(deps[2].1, layer0);
    assert_eq!(deps[3].1, layer0);
}

#[test]
fn hybrid_half_ratio_uses_a_prefix_of_experts() {
    // Ratio one half over 4 experts selects 2; with batch size 40 each
    // 28-byte expert payload is one padded chunk.
    let strategy = SplitStrategy::Hybrid {
        expert_split: true,
        layer_split: false,
        batch_size: 40,
        expert_ratio: 50,
        layer_ratio: 100,
    };
    let splitter = TaskSplitter::new(model(4, 1, 1, 1), strategy);
    let input = vec![7u8; 8];
    let tasks = splitter.split_task(&input, "h", TaskPriority::Normal).unwrap();
    // Expert payload: 4 + 16 + 8 = 28 bytes; one 40-byte chunk each.
    assert_eq!(tasks.len(), 2);
    assert_eq!(tasks[0].task_id, "h_expert_0_batch_0");
    assert_eq!(tasks[1].task_id, "h_expert_1_batch_0");
    assert_eq!(tasks[0].input_data.len(), 40);
    assert_eq!(tasks[0].parent_task_id.as_deref(), Some("h_expert_0"));
}

#[test]
fn generate_task_id_concatenates() {
    let splitter = TaskSplitter::new(model(1, 1, 1, 1), SplitStrategy::ByExpert);
    assert_eq!(splitter.generate_task_id("p", "expert", 12), "p_expert_12");
    assert_eq!(splitter.generate_task_id("", "batch", 0), "_batch_0");
}
