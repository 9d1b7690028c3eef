//! Transform hierarchy core of a small entity-component game engine: the
//! parent/children relation over an entity arena, change-driven propagation of
//! world transforms, and the value types around it (errors, timers, frame
//! time, window and render configuration).

pub mod component;
pub mod duration;
pub mod error;
pub mod hierarchy;
pub mod plugin;
pub mod propagation;
pub mod render;
pub mod time;
pub mod timer;
pub mod window;

pub use component::{Layer, Name, Tag, Visibility};
pub use duration::Duration;
pub use error::{AnvilKitError, ErrorCategory, Result};
pub use hierarchy::{Children, Entity, Hierarchy, Parent, TransformHierarchy};
pub use plugin::PluginGroup;
pub use propagation::propagate_transforms;
pub use render::{MeshComponent, RenderComponent, RenderConfig, RenderPlugin, RenderSystemSet};
pub use time::Time;
pub use timer::{Timer, TimerState};
pub use window::WindowConfig;
