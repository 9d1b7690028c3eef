//! Configuration and plain components of the rendering layer.

use vstd::prelude::*;

use crate::window::WindowConfig;

verus! {

/// The rendering plugin's settings: how to open the window.
#[derive(Debug, Clone)]
pub struct RenderPlugin {
    window_config: WindowConfig,
}

impl RenderPlugin {
    pub closed spec fn spec_window_config(&self) -> WindowConfig {
        self.window_config
    }

    /// A plugin with the default window configuration.
    pub fn new() -> (r: RenderPlugin)
        ensures
            r.spec_window_config().is_default(),
    {
        RenderPlugin::default()
    }

    pub fn with_window_config(self, config: WindowConfig) -> (r: RenderPlugin)
        ensures
            r.spec_window_config() == config,
    {
        RenderPlugin { window_config: config }
    }

    pub fn window_config(&self) -> (r: &WindowConfig)
        ensures
            *r == self.spec_window_config(),
    {
        &self.window_config
    }
}

impl Default for RenderPlugin {
    fn default() -> (r: RenderPlugin)
        ensures
            r.spec_window_config().is_default(),
    {
        RenderPlugin { window_config: WindowConfig::default() }
    }
}

/// Rendering settings shared with the render systems.
#[derive(Debug, Clone)]
pub struct RenderConfig {
    pub window_config: WindowConfig,
}

/// Whether and on which layer an entity is drawn.
#[derive(Debug, Clone, Copy, PartialEq, Eq, Structural)]
pub struct RenderComponent {
    pub visible: bool,
    pub layer: u32,
}

impl Default for RenderComponent {
    /// Visible, on layer zero.
    fn default() -> (r: RenderComponent)
        ensures
            r.visible,
            r.layer == 0,
    {
        RenderComponent { visible: true, layer: 0 }
    }
}

/// The mesh an entity draws, by name, with its vertex and index counts.
#[derive(Debug, Clone)]
pub struct MeshComponent {
    pub mesh_id: String,
    pub vertex_count: u32,
    pub index_count: u32,
}

/// Groups of render systems, run in this order of concern.
#[derive(Debug, Clone, Copy, PartialEq, Eq, Hash, Structural)]
pub enum RenderSystemSet {
    Render,
    Camera,
    Mesh,
    Material,
}

} // verus!
