use anvilkit::error::{AnvilKitError, ErrorCategory, Result};

#[test]
fn error_test_error_creation() {
    let error = AnvilKitError::render("测试渲染错误");
    assert_eq!(error.category(), ErrorCategory::Render);
    assert_eq!(error.message(), "测试渲染错误");
    assert!(error.is_category(ErrorCategory::Render));
}

#[test]
fn test_error_with_path() {
    let error = AnvilKitError::asset_with_path("加载失败", "texture.png");
    if let AnvilKitError::Asset { path, .. } = &error {
        assert_eq!(path.as_ref().unwrap(), "texture.png");
    } else {
        panic!("Expected Asset error");
    }
}

#[test]
fn test_error_with_context() {
    let base = AnvilKitError::render("着色器编译失败");
    let with_context = base.with_context("初始化渲染器时");

    assert!(with_context.to_string().contains("初始化渲染器时"));
    assert!(with_context.to_string().contains("着色器编译失败"));
}

#[test]
fn test_io_error_conversion() {
    let io_error = std::io::Error::new(std::io::ErrorKind::NotFound, "文件未找到");
    let anvilkit_error: AnvilKitError = io_error.into();

    assert_eq!(anvilkit_error.category(), ErrorCategory::Io);
}

#[test]
fn test_error_category_display() {
    assert_eq!(ErrorCategory::Render.to_string(), "渲染");
    assert_eq!(ErrorCategory::Physics.to_string(), "物理");
    assert_eq!(ErrorCategory::Asset.to_string(), "资源");
}

#[test]
fn test_error_with_source() {
    let source_error = std::io::Error::new(std::io::ErrorKind::PermissionDenied, "权限不足");
    let error = AnvilKitError::render_with_source("渲染初始化失败", source_error.into());

    assert!(error.source().is_some());
    assert_eq!(error.category(), ErrorCategory::Render);
}

#[test]
fn mod_test_error_creation() {
    let error = AnvilKitError::render("测试渲染错误");
    assert_eq!(error.category(), ErrorCategory::Render);
    assert!(error.to_string().contains("测试渲染错误"));
}

#[test]
fn test_result_type() {
    fn test_function() -> Result<i32> {
        Err(AnvilKitError::generic("测试错误"))
    }

    assert!(test_function().is_err());
}

#[test]
fn display_puts_prefix_before_message() {
    assert_eq!(AnvilKitError::render("x").to_string(), "渲染错误: x");
    assert_eq!(AnvilKitError::generic("y").to_string(), "AnvilKit 错误: y");
    assert_eq!(AnvilKitError::ecs("z").to_string(), "ECS 错误: z");
}

#[test]
fn context_on_generic_keeps_kind_and_prefixes_message() {
    let e = AnvilKitError::generic("inner").with_context("outer");
    assert_eq!(e.category(), ErrorCategory::Generic);
    assert_eq!(e.message(), "outer: inner");
    assert!(e.source().is_none());
}

#[test]
fn context_on_other_kind_wraps_it_as_source() {
    let e = AnvilKitError::physics("boom").with_context("step");
    assert_eq!(e.category(), ErrorCategory::Generic);
    assert_eq!(e.message(), "step: 物理错误: boom");
    let src = e.source().unwrap();
    assert_eq!(src.category(), ErrorCategory::Physics);
    assert_eq!(src.message(), "boom");
}

#[test]
fn every_constructor_gives_its_category() {
    assert_eq!(AnvilKitError::physics("m").category(), ErrorCategory::Physics);
    assert_eq!(AnvilKitError::asset("m").category(), ErrorCategory::Asset);
    assert_eq!(AnvilKitError::audio("m").category(), ErrorCategory::Audio);
    assert_eq!(AnvilKitError::input("m").category(), ErrorCategory::Input);
    assert_eq!(AnvilKitError::ecs("m").category(), ErrorCategory::Ecs);
    assert_eq!(AnvilKitError::window("m").category(), ErrorCategory::Window);
    assert_eq!(AnvilKitError::config("m").category(), ErrorCategory::Config);
    assert_eq!(AnvilKitError::network("m").category(), ErrorCategory::Network);
    assert_eq!(AnvilKitError::serialization("m").category(), ErrorCategory::Serialization);
    assert_eq!(AnvilKitError::generic("m").category(), ErrorCategory::Generic);
    assert!(!AnvilKitError::audio("m").is_category(ErrorCategory::Render));
}

#[test]
fn config_with_key_keeps_key() {
    let e = AnvilKitError::config_with_key("bad value", "window.width");
    if let AnvilKitError::Config { key, message, .. } = &e {
        assert_eq!(key.as_ref().unwrap(), "window.width");
        assert_eq!(message, "bad value");
    } else {
        panic!("expected a config error");
    }
}

#[test]
fn io_error_message_is_its_text() {
    let e: AnvilKitError = std::io::Error::new(std::io::ErrorKind::Other, "disk gone").into();
    assert_eq!(e.message(), "disk gone");
    assert_eq!(e.to_string(), "I/O 错误: disk gone");
    assert!(e.source().is_none());
}

#[test]
fn category_names() {
    assert_eq!(ErrorCategory::Io.to_string(), "I/O");
    assert_eq!(ErrorCategory::Ecs.to_string(), "ECS");
    assert_eq!(ErrorCategory::Generic.to_string(), "通用");
}
