use vstd::prelude::*;

verus! {

/// What the model's `metadata.json` declares: the architecture the engine
/// must be configured for (its `transformersInfo.autoModel` field).
pub struct ModelMetadata {
    pub auto_model: String,
}

/// Everything the inference engine is created from.
pub struct EngineConfig {
    pub model_path: String,
    pub tokenizer_path: String,
    pub device: String,
    pub model_type: String,
    pub device_indices: Vec<i32>,
    pub num_replicas_per_device: usize,
}

/// Why an engine configuration could not be assembled.
#[derive(Clone, Copy, Debug, PartialEq, Eq, Structural)]
pub enum ConfigError {
    MissingModel,
    MissingDevice,
    MissingModelType,
    NoReplicas,
}

/// `<home>/.tabby/models/<model>`.
pub open spec fn model_dir_of(home: Seq<char>, model: Seq<char>) -> Seq<char> {
    home + "/.tabby/models/"@ + model
}

/// The first missing or invalid setting, in the order the settings are checked.
pub open spec fn config_error(
    model: Seq<char>,
    device: Seq<char>,
    model_type: Seq<char>,
    replicas: usize,
) -> Option<ConfigError> {
    if model.len() == 0 {
        Some(ConfigError::MissingModel)
    } else if device.len() == 0 {
        Some(ConfigError::MissingDevice)
    } else if model_type.len() == 0 {
        Some(ConfigError::MissingModelType)
    } else if replicas == 0 {
        Some(ConfigError::NoReplicas)
    } else {
        None
    }
}

/// `c` runs `model` from its directory under `home`, with the given settings.
pub open spec fn configures(
    c: EngineConfig,
    home: Seq<char>,
    model: Seq<char>,
    device: Seq<char>,
    model_type: Seq<char>,
    device_indices: Seq<i32>,
    replicas: usize,
) -> bool {
    &&& c.model_path@ == model_dir_of(home, model) + "/ctranslate2"@
    &&& c.tokenizer_path@ == model_dir_of(home, model) + "/tokenizer.json"@
    &&& c.device@ == device
    &&& c.model_type@ == model_type
    &&& c.device_indices@ == device_indices
    &&& c.num_replicas_per_device == replicas
}

impl ModelMetadata {
    pub fn new(auto_model: String) -> (r: ModelMetadata)
        ensures
            r.auto_model == auto_model,
    {
        ModelMetadata { auto_model }
    }
}

/// The directory that holds the files of `model` under the home directory `home`.
pub fn model_dir(home: &str, model: &str) -> (r: String)
    ensures
        r@ == model_dir_of(home@, model@),
{
    let r = String::from_str(home);
    let r = r.concat("/.tabby/models/");
    r.concat(model)
}

impl EngineConfig {
    /// The configuration for `model`, stored under `home`, run on `device` at
    /// the given indices with `num_replicas_per_device` replicas on each. The
    /// weights are read from `<model dir>/ctranslate2` and the tokenizer from
    /// `<model dir>/tokenizer.json`; the model type is the one `metadata`
    /// declares. An empty model name, device or model type, or zero replicas,
    /// is refused.
    pub fn new(
        home: &str,
        model: &str,
        device: &str,
        metadata: &ModelMetadata,
        device_indices: Vec<i32>,
        num_replicas_per_device: usize,
    ) -> (r: Result<EngineConfig, ConfigError>)
        ensures
            match r {
                Ok(c) => config_error(model@, device@, metadata.auto_model@, num_replicas_per_device)
                    is None && configures(
                    c,
                    home@,
                    model@,
                    device@,
                    metadata.auto_model@,
                    device_indices@,
                    num_replicas_per_device,
                ),
                Err(e) => config_error(model@, device@, metadata.auto_model@, num_replicas_per_device)
                    == Some(e),
            },
    {
        if model.unicode_len() == 0 {
            return Err(ConfigError::MissingModel);
        }
        if device.unicode_len() == 0 {
            return Err(ConfigError::MissingDevice);
        }
        if metadata.auto_model.as_str().unicode_len() == 0 {
            return Err(ConfigError::MissingModelType);
        }
        if num_replicas_per_device == 0 {
            return Err(ConfigError::NoReplicas);
        }
        let dir = model_dir(home, model);
        let model_path = dir.clone().concat("/ctranslate2");
        let tokenizer_path = dir.concat("/tokenizer.json");
        Ok(EngineConfig {
            model_path,
            tokenizer_path,
            device: String::from_str(device),
            model_type: metadata.auto_model.clone(),
            device_indices,
            num_replicas_per_device,
        })
    }
}

} // verus!
