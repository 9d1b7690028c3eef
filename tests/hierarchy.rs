use anvilkit::hierarchy::{Children, Entity, Hierarchy, Parent, TransformHierarchy};
use anvilkit::error::ErrorCategory;
use anvilkit::propagation::propagate_transforms;
use glam::{Mat4, Quat, Vec3};

fn local_matrix(translation: Vec3) -> Mat4 {
    Mat4::from_scale_rotation_translation(Vec3::ONE, Quat::IDENTITY, translation)
}

fn run_pass(h: &mut Hierarchy, locals: &[Mat4], globals: &mut Vec<Mat4>) {
    propagate_transforms(h, globals, |parent: Option<Mat4>, e: Entity| match parent {
        None => locals[e.index],
        Some(p) => p * locals[e.index],
    });
}

fn translation_of(m: &Mat4) -> Vec3 {
    m.w_axis.truncate()
}

#[test]
fn test_parent_component() {
    let mut h = Hierarchy::new();
    let parent_entity = h.spawn();

    let parent = Parent::new(parent_entity);
    assert_eq!(parent.get(), parent_entity);

    let mut parent = Parent::new(parent_entity);
    let new_parent = h.spawn();
    parent.set(new_parent);
    assert_eq!(parent.get(), new_parent);
}

#[test]
fn test_children_component() {
    let mut h = Hierarchy::new();
    let child1 = h.spawn();
    let child2 = h.spawn();

    let mut children = Children::empty();
    assert!(children.is_empty());
    assert_eq!(children.len(), 0);

    children.push(child1);
    children.push(child2);
    assert_eq!(children.len(), 2);
    assert!(children.contains(child1));
    assert!(children.contains(child2));

    children.remove(child1);
    assert_eq!(children.len(), 1);
    assert!(!children.contains(child1));
    assert!(children.contains(child2));

    children.clear();
    assert!(children.is_empty());
}

#[test]
fn test_transform_hierarchy() {
    let mut h = Hierarchy::new();
    let parent = h.spawn();
    let child = h.spawn();
    TransformHierarchy::set_parent(&mut h, child, parent).unwrap();

    let ancestors = TransformHierarchy::get_ancestors(&h, child);
    assert_eq!(ancestors.len(), 1);
    assert_eq!(ancestors[0], parent);

    let root_ancestors = TransformHierarchy::get_ancestors(&h, parent);
    assert!(root_ancestors.is_empty());
}

#[test]
fn test_sync_simple_transforms() {
    let mut h = Hierarchy::new();
    let entity = h.spawn();
    let locals = vec![local_matrix(Vec3::new(1.0, 2.0, 3.0))];
    let mut globals = vec![Mat4::IDENTITY];

    run_pass(&mut h, &locals, &mut globals);

    assert_eq!(translation_of(&globals[entity.index()]), Vec3::new(1.0, 2.0, 3.0));
}

#[test]
fn test_children_from_vec() {
    let mut h = Hierarchy::new();
    let child1 = h.spawn();
    let child2 = h.spawn();

    let children: Children = vec![child1, child2].into();
    assert_eq!(children.len(), 2);
    assert!(children.contains(child1));
    assert!(children.contains(child2));
}

#[test]
fn test_children_first_last() {
    let mut h = Hierarchy::new();
    let child1 = h.spawn();
    let child2 = h.spawn();
    let child3 = h.spawn();

    let children = Children::new(vec![child1, child2, child3]);
    assert_eq!(children.first(), Some(child1));
    assert_eq!(children.last(), Some(child3));

    let empty_children = Children::empty();
    assert_eq!(empty_children.first(), None);
    assert_eq!(empty_children.last(), None);
}

#[test]
fn children_reject_duplicates_and_keep_order() {
    let a = Entity::from_index(0);
    let b = Entity::from_index(1);
    let c = Entity::from_index(2);
    let mut children = Children::new(vec![a, b, a, c, b]);
    assert_eq!(children.as_slice(), &[a, b, c]);
    children.push(b);
    assert_eq!(children.len(), 3);
    children.remove(b);
    assert_eq!(children.as_slice(), &[a, c]);
    children.remove(b);
    assert_eq!(children.as_slice(), &[a, c]);
    let d: Children = Children::default();
    assert!(d.is_empty());
}

#[test]
fn child_follows_root_translation() {
    let mut h = Hierarchy::new();
    let root = h.spawn();
    let child = h.spawn();
    TransformHierarchy::set_parent(&mut h, child, root).unwrap();
    let locals = vec![local_matrix(Vec3::new(1.0, 0.0, 0.0)), local_matrix(Vec3::new(0.0, 1.0, 0.0))];
    let mut globals = vec![Mat4::IDENTITY; 2];

    run_pass(&mut h, &locals, &mut globals);

    assert_eq!(translation_of(&globals[child.index()]), Vec3::new(1.0, 1.0, 0.0));
    assert_eq!(translation_of(&globals[root.index()]), Vec3::new(1.0, 0.0, 0.0));
}

#[test]
fn child_follows_moved_root_without_own_change() {
    let mut h = Hierarchy::new();
    let root = h.spawn();
    let child = h.spawn();
    TransformHierarchy::set_parent(&mut h, child, root).unwrap();
    let mut locals = vec![local_matrix(Vec3::new(1.0, 0.0, 0.0)), local_matrix(Vec3::new(0.0, 1.0, 0.0))];
    let mut globals = vec![Mat4::IDENTITY; 2];
    run_pass(&mut h, &locals, &mut globals);
    assert!(!h.is_changed(child));

    locals[root.index()] = local_matrix(Vec3::new(2.0, 0.0, 0.0));
    h.mark_changed(root);
    run_pass(&mut h, &locals, &mut globals);

    assert_eq!(translation_of(&globals[child.index()]), Vec3::new(2.0, 1.0, 0.0));
}

#[test]
fn root_gets_its_own_transform() {
    let mut h = Hierarchy::new();
    let root = h.spawn();
    let local = Mat4::from_scale_rotation_translation(
        Vec3::new(2.0, 3.0, 4.0),
        Quat::from_rotation_y(0.5),
        Vec3::new(-1.0, 5.0, 2.0),
    );
    let locals = vec![local];
    let mut globals = vec![Mat4::IDENTITY];
    run_pass(&mut h, &locals, &mut globals);
    assert_eq!(globals[root.index()], local);
}

#[test]
fn second_pass_keeps_values() {
    let mut h = Hierarchy::new();
    let a = h.spawn();
    let b = h.spawn();
    let c = h.spawn();
    TransformHierarchy::set_parent(&mut h, b, a).unwrap();
    TransformHierarchy::set_parent(&mut h, c, b).unwrap();
    let locals = vec![
        local_matrix(Vec3::new(1.0, 0.0, 0.0)),
        local_matrix(Vec3::new(0.0, 2.0, 0.0)),
        local_matrix(Vec3::new(0.0, 0.0, 3.0)),
    ];
    let mut globals = vec![Mat4::IDENTITY; 3];
    run_pass(&mut h, &locals, &mut globals);
    let first = globals.clone();
    assert_eq!(translation_of(&first[c.index()]), Vec3::new(1.0, 2.0, 3.0));

    // A pass that would write zeros shows whether anything is recomputed.
    propagate_transforms(&mut h, &mut globals, |_p: Option<Mat4>, _e: Entity| Mat4::ZERO);
    assert_eq!(globals, first);
}

#[test]
fn only_changed_subtree_is_recomputed() {
    let mut h = Hierarchy::new();
    let a = h.spawn();
    let b = h.spawn();
    let c = h.spawn();
    let d = h.spawn();
    TransformHierarchy::set_parent(&mut h, b, a).unwrap();
    TransformHierarchy::set_parent(&mut h, c, b).unwrap();
    let locals = vec![Mat4::IDENTITY; 4];
    let mut globals = vec![Mat4::IDENTITY; 4];
    run_pass(&mut h, &locals, &mut globals);

    h.mark_changed(b);
    let mut visited = Vec::new();
    let mut out = globals.clone();
    {
        let visited_cell = std::cell::RefCell::new(&mut visited);
        propagate_transforms(&mut h, &mut out, |_p: Option<Mat4>, e: Entity| {
            visited_cell.borrow_mut().push(e);
            Mat4::IDENTITY
        });
    }
    assert_eq!(visited, vec![b, c]);
    assert!(!visited.contains(&a));
    assert!(!visited.contains(&d));
}

#[test]
fn cycles_are_rejected() {
    let mut h = Hierarchy::new();
    let a = h.spawn();
    let b = h.spawn();
    let c = h.spawn();
    TransformHierarchy::set_parent(&mut h, b, a).unwrap();
    TransformHierarchy::set_parent(&mut h, c, b).unwrap();

    let err = TransformHierarchy::set_parent(&mut h, a, c).unwrap_err();
    assert_eq!(err.category(), ErrorCategory::Ecs);
    let err = TransformHierarchy::set_parent(&mut h, a, a).unwrap_err();
    assert_eq!(err.category(), ErrorCategory::Ecs);
    assert_eq!(h.parent(a), None);
}

#[test]
fn reparenting_updates_both_sides() {
    let mut h = Hierarchy::new();
    let first_parent = h.spawn();
    let second_parent = h.spawn();
    let child = h.spawn();
    TransformHierarchy::set_parent(&mut h, child, first_parent).unwrap();
    assert!(h.children(first_parent).contains(child));

    TransformHierarchy::set_parent(&mut h, child, second_parent).unwrap();
    assert_eq!(h.parent(child), Some(second_parent));
    assert!(!h.children(first_parent).contains(child));
    assert_eq!(h.children(second_parent).as_slice(), &[child]);

    TransformHierarchy::remove_parent(&mut h, child);
    assert_eq!(h.parent(child), None);
    assert!(h.children(second_parent).is_empty());
    assert!(h.is_changed(child));
}

#[test]
fn removed_child_becomes_root_on_next_pass() {
    let mut h = Hierarchy::new();
    let root = h.spawn();
    let child = h.spawn();
    TransformHierarchy::set_parent(&mut h, child, root).unwrap();
    let locals = vec![local_matrix(Vec3::new(5.0, 0.0, 0.0)), local_matrix(Vec3::new(0.0, 1.0, 0.0))];
    let mut globals = vec![Mat4::IDENTITY; 2];
    run_pass(&mut h, &locals, &mut globals);
    assert_eq!(translation_of(&globals[child.index()]), Vec3::new(5.0, 1.0, 0.0));

    TransformHierarchy::remove_parent(&mut h, child);
    run_pass(&mut h, &locals, &mut globals);
    assert_eq!(translation_of(&globals[child.index()]), Vec3::new(0.0, 1.0, 0.0));
}

#[test]
fn ancestors_and_descendants() {
    let mut h = Hierarchy::new();
    let a = h.spawn();
    let b = h.spawn();
    let c = h.spawn();
    let d = h.spawn();
    let e = h.spawn();
    TransformHierarchy::set_parent(&mut h, b, a).unwrap();
    TransformHierarchy::set_parent(&mut h, c, b).unwrap();
    TransformHierarchy::set_parent(&mut h, d, a).unwrap();

    assert_eq!(TransformHierarchy::get_ancestors(&h, c), vec![b, a]);
    let desc = TransformHierarchy::get_descendants(&h, a);
    assert_eq!(desc.len(), 3);
    assert!(desc.contains(&b) && desc.contains(&c) && desc.contains(&d));
    let pos = |x: Entity| desc.iter().position(|y| *y == x).unwrap();
    assert!(pos(b) < pos(c));
    assert!(TransformHierarchy::get_descendants(&h, e).is_empty());
    assert_eq!(TransformHierarchy::get_descendants(&h, b), vec![c]);
}

#[test]
fn topological_order_puts_parents_first() {
    let mut h = Hierarchy::new();
    let a = h.spawn();
    let b = h.spawn();
    let c = h.spawn();
    TransformHierarchy::set_parent(&mut h, a, c).unwrap();
    TransformHierarchy::set_parent(&mut h, c, b).unwrap();
    assert_eq!(h.topological_order(), vec![b, c, a]);
    assert!(h.is_ancestor_or_self_of(b, a));
    assert!(!h.is_ancestor_or_self_of(a, b));
    assert_eq!(h.len(), 3);
}

#[test]
fn children_iterate_in_insertion_order() {
    let a = Entity::from_index(4);
    let b = Entity::from_index(1);
    let mut children = Children::empty();
    children.push(a);
    children.push(b);
    let seen: Vec<Entity> = children.iter().copied().collect();
    assert_eq!(seen, vec![a, b]);
}

#[test]
fn detached_entity_orphans_its_children() {
    let mut h = Hierarchy::new();
    let root = h.spawn();
    let mid = h.spawn();
    let leaf1 = h.spawn();
    let leaf2 = h.spawn();
    TransformHierarchy::set_parent(&mut h, mid, root).unwrap();
    TransformHierarchy::set_parent(&mut h, leaf1, mid).unwrap();
    TransformHierarchy::set_parent(&mut h, leaf2, mid).unwrap();

    TransformHierarchy::detach(&mut h, mid);
    assert_eq!(h.parent(mid), None);
    assert!(h.children(mid).is_empty());
    assert!(h.children(root).is_empty());
    assert_eq!(h.parent(leaf1), None);
    assert_eq!(h.parent(leaf2), None);
    assert!(h.is_changed(leaf1) && h.is_changed(leaf2));
    assert!(TransformHierarchy::get_descendants(&h, root).is_empty());
}

#[test]
fn descendants_come_in_pre_order() {
    let mut h = Hierarchy::new();
    let r = h.spawn();
    let a = h.spawn();
    let b = h.spawn();
    let a1 = h.spawn();
    let a2 = h.spawn();
    let b1 = h.spawn();
    TransformHierarchy::set_parent(&mut h, a, r).unwrap();
    TransformHierarchy::set_parent(&mut h, b, r).unwrap();
    TransformHierarchy::set_parent(&mut h, a1, a).unwrap();
    TransformHierarchy::set_parent(&mut h, b1, b).unwrap();
    TransformHierarchy::set_parent(&mut h, a2, a).unwrap();
    assert_eq!(TransformHierarchy::get_descendants(&h, r), vec![a, a1, a2, b, b1]);
    assert!(TransformHierarchy::get_descendants(&h, a1).is_empty());
}

#[test]
fn reparenting_keeps_sibling_order() {
    let mut h = Hierarchy::new();
    let p = h.spawn();
    let q = h.spawn();
    let x = h.spawn();
    let y = h.spawn();
    let z = h.spawn();
    for c in [x, y, z] {
        TransformHierarchy::set_parent(&mut h, c, p).unwrap();
    }
    TransformHierarchy::set_parent(&mut h, y, q).unwrap();
    assert_eq!(h.children(p).as_slice(), &[x, z]);
    TransformHierarchy::set_parent(&mut h, x, p).unwrap();
    assert_eq!(h.children(p).as_slice(), &[x, z]);
    TransformHierarchy::remove_parent(&mut h, x);
    assert_eq!(h.children(p).as_slice(), &[z]);
}
