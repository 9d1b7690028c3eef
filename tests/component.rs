use anvilkit::component::{Layer, Name, Tag, Visibility};

#[test]
fn test_name_component() {
    let name = Name::new("测试实体");
    assert_eq!(name.as_str(), "测试实体");
    assert!(!name.is_empty());
    assert_eq!(name.len(), "测试实体".len());

    let mut name = Name::new("旧名称");
    name.set("新名称");
    assert_eq!(name.as_str(), "新名称");
}

#[test]
fn test_tag_component() {
    let tag = Tag::new("player");
    assert_eq!(tag.as_str(), "player");
    assert!(tag.matches("player"));
    assert!(!tag.matches("enemy"));

    let mut tag = Tag::new("old_tag");
    tag.set("new_tag");
    assert_eq!(tag.as_str(), "new_tag");
}

#[test]
fn test_visibility_component() {
    let mut visibility = Visibility::Visible;
    assert!(visibility.is_visible());
    assert!(!visibility.is_hidden());

    visibility.toggle();
    assert!(visibility.is_hidden());
    assert!(!visibility.is_visible());

    visibility.toggle();
    assert!(visibility.is_visible());

    let inherited = Visibility::Inherited;
    assert!(inherited.is_inherited());
}

#[test]
fn inherited_visibility_does_not_toggle() {
    let mut v = Visibility::Inherited;
    v.toggle();
    assert_eq!(v, Visibility::Inherited);
    assert_eq!(Visibility::default(), Visibility::Visible);
}

#[test]
fn test_layer_component() {
    let mut layer = Layer::new(5);
    assert_eq!(layer.value(), 5);

    layer.increase(3);
    assert_eq!(layer.value(), 8);

    layer.decrease(2);
    assert_eq!(layer.value(), 6);

    layer.set(10);
    assert_eq!(layer.value(), 10);
}

#[test]
fn test_layer_ordering() {
    let layer1 = Layer::new(1);
    let layer2 = Layer::new(2);
    let layer3 = Layer::new(1);

    assert!(layer1 < layer2);
    assert!(layer2 > layer1);
    assert_eq!(layer1, layer3);
    assert_eq!(Layer::default().value(), 0);
}

#[test]
fn test_component_conversions() {
    let name = Name::new("测试");
    assert_eq!(name.as_str(), "测试");
    let tag = Tag::new("player");
    assert_eq!(tag.as_str(), "player");
    let layer = Layer::new(5);
    assert_eq!(layer.value(), 5);
}

#[test]
fn test_component_display() {
    let name = Name::new("显示测试");
    assert_eq!(name.to_string(), "显示测试");
    let tag = Tag::new("test_tag");
    assert_eq!(tag.to_string(), "test_tag");
    assert!(Name::new("").is_empty());
}
