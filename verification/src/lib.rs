//! Resolution of the model presets an agent client may use.
//!
//! A fixed built-in catalog of presets is combined with an optional
//! remote-derived overlay, cached per provider, and filtered by the
//! caller's authentication mode.  The resolver itself is synchronous:
//! the one operation that may block (the remote fetch) is performed by
//! the caller between `list_models` and `finish_fetch`.

pub mod catalog;
pub mod policy;
pub mod resolve;
pub mod resolver;

pub use catalog::all_model_presets;
pub use catalog::builtin_model_presets;
pub use catalog::default_reasoning_efforts;
pub use catalog::validate_catalog;
pub use catalog::CatalogError;
pub use catalog::ModelPreset;
pub use catalog::ReasoningEffort;
pub use catalog::ReasoningEffortPreset;
pub use policy::AuthMode;
pub use policy::FetchDecision;
pub use policy::RefreshStrategy;
pub use resolver::CacheEntry;
pub use resolver::ListModelsStep;
pub use resolver::ModelsManager;
