//! What the plugin's entities declare of themselves.
use vstd::prelude::*;

verus! {

/// What an entity plugs into.
#[derive(Debug, Clone, Copy, PartialEq, Eq, Structural)]
pub enum PluginClass {
    Backend,
    WatchStrategy,
}

/// An entity's declaration.
#[derive(Debug)]
pub struct PluginManifest {
    pub id: String,
    pub name: String,
    pub plugin_class: PluginClass,
}

/// The id that all entities of the plugin share.
pub const PLUGIN_ID: &'static str = "dev.mcpg.backend.ftp";

} // verus!
