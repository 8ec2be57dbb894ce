use moe_scheduler::config::{ModelInfo, MoeConfig, SchedulerConfig};
use moe_scheduler::error::Error;
use moe_scheduler::json::{checked_count, model_info_from_config_json};
use moe_scheduler::model_downloader::ModelDownloader;
use moe_scheduler::scheduler::TaskScheduler;
use moe_scheduler::task::{MoeTask, TaskPriority, TaskStatus};
use moe_scheduler::types::ExpertGpuMapping;

fn task(id: &str) -> MoeTask {
    MoeTask {
        task_id: id.to_string(),
        input_data: vec![1, 2, 3, 4],
        status: TaskStatus::Pending,
        result: None,
        priority: TaskPriority::Normal,
        stream_id: None,
        parent_task_id: None,
    }
}

#[test]
fn queue_is_first_in_first_out() {
    let mut scheduler = TaskScheduler::new(SchedulerConfig::default());
    assert!(scheduler.fetch_next_task().is_none());
    scheduler.submit_task(task("one"));
    scheduler.submit_task(task("two"));
    let first = scheduler.fetch_next_task().unwrap();
    let second = scheduler.fetch_next_task().unwrap();
    assert_eq!(first.task_id, "one");
    assert_eq!(second.task_id, "two");
    assert!(scheduler.fetch_next_task().is_none());
}

#[test]
fn default_scheduler_config() {
    let c = SchedulerConfig::default();
    assert_eq!(c.max_concurrent_tasks, 4);
    assert_eq!(c.default_batch_size, 1);
    assert_eq!(c.gpu_ids, vec![0]);
}

#[test]
fn config_json_is_parsed_into_a_descriptor() {
    let text = r#"{
        "model_type": "switch_transformer",
        "num_experts": 8,
        "d_model": 512,
        "d_ff": 2048,
        "num_layers": 12
    }"#;
    let m: ModelInfo = model_info_from_config_json(text).unwrap();
    assert_eq!(m.model_type, "switch_transformer");
    assert_eq!(m.num_experts, 8);
    assert_eq!(m.hidden_size, 512);
    assert_eq!(m.intermediate_size, 2048);
    assert_eq!(m.num_layers, 12);
}

#[test]
fn malformed_config_json_is_rejected() {
    assert!(matches!(
        model_info_from_config_json("this is not json"),
        Err(Error::ConfigError(_))
    ));
    // A zero count violates the positivity invariant.
    let zero = r#"{"model_type": "t", "num_experts": 0, "d_model": 1, "d_ff": 1, "num_layers": 1}"#;
    assert!(matches!(model_info_from_config_json(zero), Err(Error::ConfigError(_))));
    // A missing field is rejected too.
    let missing = r#"{"model_type": "t", "num_experts": 2}"#;
    assert!(matches!(model_info_from_config_json(missing), Err(Error::ConfigError(_))));
}

#[test]
fn download_script_carries_source_name_and_directory() {
    let mut downloader = ModelDownloader::new("/tmp/models".to_string());
    let script = downloader
        .generate_download_script("google/switch-base-8", "/tmp/models/switch-base-8")
        .unwrap();
    assert!(script.contains("https://huggingface.co"));
    assert!(script.contains("google/switch-base-8"));
    assert!(script.contains("/tmp/models/switch-base-8"));
    downloader.use_mirror(true);
    let mirrored = downloader
        .generate_download_script("google/switch-base-8", "/tmp/models/switch-base-8")
        .unwrap();
    assert!(mirrored.contains("https://hf-mirror.com"));
    assert!(!mirrored.contains("https://huggingface.co"));
}

#[test]
fn verify_model_demands_all_artefacts() {
    let d = ModelDownloader::new("cache".to_string());
    assert_eq!(d.verify_model(true, true, true, false).unwrap(), true);
    assert_eq!(d.verify_model(true, true, false, true).unwrap(), true);
    assert!(matches!(
        d.verify_model(false, true, true, true),
        Err(Error::ModelLoadError(_))
    ));
    assert!(matches!(
        d.verify_model(true, false, true, true),
        Err(Error::ModelLoadError(_))
    ));
    assert!(matches!(
        d.verify_model(true, true, false, false),
        Err(Error::ModelLoadError(_))
    ));
}

#[test]
fn auxiliary_types_hold_their_fields() {
    let mapping = ExpertGpuMapping { expert_id: 3, gpu_id: 1, memory_required: 2048 };
    assert_eq!(mapping.expert_id, 3);
    assert_eq!(mapping.gpu_id, 1);
    assert_eq!(mapping.memory_required, 2048);
    let cfg = MoeConfig {
        model_path: "m".to_string(),
        batch_size: 2,
        input_dim: 8,
        output_dim: 8,
        hidden_dim: 16,
        num_experts: 4,
        top_k: 2,
        device_type: "cpu".to_string(),
        device_id: 0,
        use_quantization: false,
        quantization_bits: 8,
    };
    assert_eq!(cfg.num_experts, 4);
    assert!(TaskPriority::Critical > TaskPriority::Low);
}

#[test]
fn count_validation_bounds() {
    assert_eq!(checked_count(Some(8)).unwrap(), 8);
    assert!(matches!(checked_count(Some(0)), Err(Error::ConfigError(_))));
    assert!(matches!(checked_count(None), Err(Error::ConfigError(_))));
}

#[test]
fn error_descriptions_name_the_kind() {
    assert_eq!(Error::Timeout.describe(), "timed out");
    assert_eq!(
        Error::ShapeMismatch { index: 1, expected: 2, actual: 3 }.describe(),
        "shape mismatch"
    );
    assert_eq!(Error::MergeError("x".to_string()).describe(), "nothing to merge");
}
