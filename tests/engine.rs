use tabby_completions::completions::{completion, CompletionRequest};
use tabby_completions::engine::{model_dir, ConfigError, EngineConfig, ModelMetadata};

fn metadata(auto_model: &str) -> ModelMetadata {
    ModelMetadata::new(auto_model.to_string())
}

#[test]
fn model_dir_is_under_tabby_home() {
    assert_eq!(model_dir("/home/u", "TabbyML/J-350M"), "/home/u/.tabby/models/TabbyML/J-350M");
}

#[test]
fn config_from_gpt_bigcode_metadata() {
    let c = EngineConfig::new("/home/u", "m", "cuda", &metadata("gpt_bigcode"), vec![0, 1], 2).unwrap();
    assert_eq!(c.model_path, "/home/u/.tabby/models/m/ctranslate2");
    assert_eq!(c.tokenizer_path, "/home/u/.tabby/models/m/tokenizer.json");
    assert_eq!(c.device, "cuda");
    assert_eq!(c.model_type, "gpt_bigcode");
    assert_eq!(c.device_indices, vec![0, 1]);
    assert_eq!(c.num_replicas_per_device, 2);
}

#[test]
fn config_errors() {
    let m = metadata("gpt_bigcode");
    assert_eq!(EngineConfig::new("/h", "", "cpu", &m, vec![0], 1).err(), Some(ConfigError::MissingModel));
    assert_eq!(EngineConfig::new("/h", "m", "", &m, vec![0], 1).err(), Some(ConfigError::MissingDevice));
    assert_eq!(
        EngineConfig::new("/h", "m", "cpu", &metadata(""), vec![0], 1).err(),
        Some(ConfigError::MissingModelType)
    );
    assert_eq!(EngineConfig::new("/h", "m", "cpu", &m, vec![0], 0).err(), Some(ConfigError::NoReplicas));
}

#[test]
fn gpt_bigcode_startup_then_python_request() {
    let c = EngineConfig::new("/home/u", "m", "cpu", &metadata("gpt_bigcode"), vec![0], 1).unwrap();
    assert_eq!(c.model_type, "gpt_bigcode");
    let req = CompletionRequest::new(Some("python".to_string()), "def fib(n):".to_string());
    let raw = "\n    return n if n < 2 else fib(n - 1) + fib(n - 2)\ndef main():\n    pass";
    let r = completion(&req, raw);
    assert!(!r.choices[0].text.contains("\ndef "));
    assert_eq!(r.choices[0].text, "\n    return n if n < 2 else fib(n - 1) + fib(n - 2)");
}
