use anvilkit::render::{RenderComponent, RenderPlugin};
use anvilkit::window::WindowConfig;

#[test]
fn test_window_config_default() {
    let config = WindowConfig::default();
    assert_eq!(config.title, "AnvilKit Application");
    assert_eq!(config.width, 1280);
    assert_eq!(config.height, 720);
    assert!(!config.fullscreen);
    assert!(config.resizable);
    assert!(config.visible);
}

#[test]
fn test_window_config_builder() {
    let config = WindowConfig::new()
        .with_title("Test Window")
        .with_size(800, 600)
        .with_fullscreen(true);

    assert_eq!(config.title, "Test Window");
    assert_eq!(config.width, 800);
    assert_eq!(config.height, 600);
    assert!(config.fullscreen);
}

#[test]
fn test_window_config_creation() {
    let config = WindowConfig::new()
        .with_title("Test")
        .with_size(800, 600)
        .with_fullscreen(true)
        .with_resizable(false)
        .with_vsync(false);

    assert_eq!(config.title, "Test");
    assert_eq!(config.width, 800);
    assert_eq!(config.height, 600);
    assert!(config.fullscreen);
    assert!(!config.resizable);
    assert!(!config.vsync);
}

#[test]
fn window_size_bounds() {
    let config = WindowConfig::new();
    assert_eq!(config.min_size, Some((320, 240)));
    assert_eq!(config.max_size, None);
    let config = config.with_min_size(None).with_max_size(Some((1920, 1080)));
    assert_eq!(config.min_size, None);
    assert_eq!(config.max_size, Some((1920, 1080)));
    assert!(config.vsync);
}

#[test]
fn test_render_plugin_creation() {
    let plugin = RenderPlugin::new();
    assert_eq!(plugin.window_config().title, "AnvilKit Application");
}

#[test]
fn test_render_plugin_with_config() {
    let config = WindowConfig::new()
        .with_title("Test Game")
        .with_size(800, 600);

    let plugin = RenderPlugin::new().with_window_config(config);
    assert_eq!(plugin.window_config().title, "Test Game");
    assert_eq!(plugin.window_config().width, 800);
    assert_eq!(plugin.window_config().height, 600);
}

#[test]
fn test_render_component_default() {
    let component = RenderComponent::default();
    assert!(component.visible);
    assert_eq!(component.layer, 0);
}
