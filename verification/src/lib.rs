//! A plugin host: manifests name plugins, an instance table owns live plugin
//! instances behind integer handles, a registry maps plugin names to their
//! handles, and a FIFO command queue serializes every load and unload against
//! that registry.

pub mod commands;
pub mod console;
pub mod errors;
pub mod example_plugin;
pub mod hello_world;
pub mod interface;
pub mod manifest;
pub mod registry;
pub mod text;

pub use interface::Plugin;
pub use interface::PluginWrapper;
pub use interface::InstanceTable;
pub use interface::NULL_HANDLE;
pub use interface::create_plugin_instance;
pub use interface::destroy_plugin_instance;
pub use interface::plugin_name;
pub use interface::execute_plugin;
