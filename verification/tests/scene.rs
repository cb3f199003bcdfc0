use rotating_terminal::scene::{
    configure_scene_node, is_hidden_node_name, terminal_instances, MaterialAction,
    SceneNodeActions,
};

#[test]
fn four_terminals_face_outward() {
    let terminals = terminal_instances();
    let summary: Vec<(&str, i8, i8, i8)> = terminals
        .iter()
        .map(|t| (t.name.as_str(), t.offset_x, t.offset_z, t.quarter_turns))
        .collect();
    assert_eq!(
        summary,
        vec![
            ("Vintage Terminal North", 0, 1, 0),
            ("Vintage Terminal East", 1, 0, 1),
            ("Vintage Terminal South", 0, -1, 2),
            ("Vintage Terminal West", -1, 0, -1),
        ]
    );
    for t in &terminals {
        let forward = match t.quarter_turns.rem_euclid(4) {
            0 => (0, 1),
            1 => (1, 0),
            2 => (0, -1),
            _ => (-1, 0),
        };
        assert_eq!((t.offset_x, t.offset_z), forward);
    }
}

#[test]
fn scene_nodes() {
    assert!(!is_hidden_node_name(&"Terminal".to_string()));
    assert_eq!(
        configure_scene_node(Some("Screen".to_string()), Some("Material.002".to_string())),
        SceneNodeActions { despawn: false, material: MaterialAction::UseScreen }
    );
    assert_eq!(
        configure_scene_node(None, Some("Material.001".to_string())),
        SceneNodeActions { despawn: false, material: MaterialAction::Matte }
    );
    assert_eq!(
        configure_scene_node(Some("Root".to_string()), None),
        SceneNodeActions { despawn: false, material: MaterialAction::Keep }
    );
}
