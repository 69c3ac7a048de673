//! What the script thread needs from this crate: the commands behind the
//! operations that the script calls, and the wire encoding of events.

pub mod event_serializer;
pub mod ipc_ops;
pub mod json;
pub mod module_loader;

use vstd::prelude::*;

verus! {

/// Configuration of the script runtime.
#[derive(Debug, Clone, PartialEq, Eq)]
pub struct JsRuntimeConfig {
    /// Path of the bundled script to execute.
    pub script_path: String,
}

impl Default for JsRuntimeConfig {
    fn default() -> (config: JsRuntimeConfig)
        ensures
            config.script_path@ == "./main.js"@,
    {
        JsRuntimeConfig { script_path: "./main.js".to_owned() }
    }
}

} // verus!
