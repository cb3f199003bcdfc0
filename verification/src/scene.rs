//! Arrangement of the terminals in the scene and the handling of the nodes of each loaded
//! terminal model.

use vstd::prelude::*;

verus! {

/// Where one terminal stands: its name, the direction of its offset from the centre of the
/// cluster (in units of the cluster offset, along x and z), and how many quarter turns about
/// the vertical axis it is turned.
#[derive(Debug, PartialEq, Eq)]
pub struct TerminalPlacement {
    pub name: String,
    pub offset_x: i8,
    pub offset_z: i8,
    pub quarter_turns: i8,
}

impl View for TerminalPlacement {
    type V = (Seq<char>, int, int, int);

    open spec fn view(&self) -> (Seq<char>, int, int, int) {
        (self.name@, self.offset_x as int, self.offset_z as int, self.quarter_turns as int)
    }
}

/// The four terminals: north, east, south and west of the centre, each turned to face away
/// from it.
pub open spec fn terminal_layout() -> Seq<(Seq<char>, int, int, int)> {
    seq![
        ("Vintage Terminal North"@, 0int, 1int, 0int),
        ("Vintage Terminal East"@, 1int, 0int, 1int),
        ("Vintage Terminal South"@, 0int, -1int, 2int),
        ("Vintage Terminal West"@, -1int, 0int, -1int),
    ]
}

/// The terminals of the scene (see `terminal_layout`).
pub fn terminal_instances() -> (terminals: Vec<TerminalPlacement>)
    ensures
        terminals@.map_values(|t: TerminalPlacement| t@) == terminal_layout(),
{
    let terminals = vec![
        TerminalPlacement {
            name: String::from_str("Vintage Terminal North"),
            offset_x: 0,
            offset_z: 1,
            quarter_turns: 0,
        },
        TerminalPlacement {
            name: String::from_str("Vintage Terminal East"),
            offset_x: 1,
            offset_z: 0,
            quarter_turns: 1,
        },
        TerminalPlacement {
            name: String::from_str("Vintage Terminal South"),
            offset_x: 0,
            offset_z: -1,
            quarter_turns: 2,
        },
        TerminalPlacement {
            name: String::from_str("Vintage Terminal West"),
            offset_x: -1,
            offset_z: 0,
            quarter_turns: -1,
        },
    ];
    assert(terminals@.map_values(|t: TerminalPlacement| t@) =~= terminal_layout());
    terminals
}

/// The direction, along x and z, that a quarter turns about the vertical axis takes the
/// +z axis to.
pub open spec fn turned_forward(quarter_turns: int) -> (int, int) {
    let q = quarter_turns % 4;
    if q == 0 {
        (0, 1)
    } else if q == 1 {
        (1, 0)
    } else if q == 2 {
        (0, -1)
    } else {
        (-1, 0)
    }
}

/// Each terminal stands in the direction its turn points it, and no two terminals share a
/// direction: the four face outward from the centre, one on each side.
pub proof fn lemma_terminals_face_outward()
    ensures
        terminal_layout().len() == 4,
        forall|k: int|
            0 <= k < 4 ==> turned_forward(#[trigger] terminal_layout()[k].3) == (
                terminal_layout()[k].1,
                terminal_layout()[k].2,
            ),
        forall|j: int, k: int|
            0 <= j < k < 4 ==> (#[trigger] terminal_layout()[j].1, terminal_layout()[j].2) != (
                #[trigger] terminal_layout()[k].1,
                terminal_layout()[k].2,
            ),
{
    assert(-1int % 4 == 3);
}

/// Name of the material of the model's screen, which shows the rendered terminal.
pub open spec fn screen_material_name() -> Seq<char> {
    "Material.002"@
}

/// Names of model nodes to leave out of the scene.
pub open spec fn hidden_node_names() -> Seq<Seq<char>> {
    Seq::empty()
}

/// What to do with a mesh's material.
#[derive(Clone, Copy, Debug, PartialEq, Eq, Structural)]
pub enum MaterialAction {
    /// The node has no mesh material: leave it.
    Keep,
    /// The screen: show the rendered terminal on it.
    UseScreen,
    /// Any other surface: make it matte and non-metallic, without emission.
    Matte,
}

/// What to do with one node of a loaded terminal model.
#[derive(Clone, Copy, Debug, PartialEq, Eq, Structural)]
pub struct SceneNodeActions {
    pub despawn: bool,
    pub material: MaterialAction,
}

/// What happens to a node with the given name and mesh material name.
pub open spec fn node_actions(
    node_name: Option<Seq<char>>,
    material_name: Option<Seq<char>>,
) -> SceneNodeActions {
    SceneNodeActions {
        despawn: match node_name {
            Some(name) => hidden_node_names().contains(name),
            None => false,
        },
        material: match material_name {
            None => MaterialAction::Keep,
            Some(material) => if material == screen_material_name() {
                MaterialAction::UseScreen
            } else {
                MaterialAction::Matte
            },
        },
    }
}

/// The view of an optional string.
pub open spec fn opt_chars(s: Option<String>) -> Option<Seq<char>> {
    match s {
        Some(t) => Some(t@),
        None => None,
    }
}

/// Whether a node name is one of the hidden names.
pub fn is_hidden_node_name(name: &String) -> (hidden: bool)
    ensures
        hidden == hidden_node_names().contains(name@),
{
    let hidden_names: Vec<String> = Vec::new();
    let mut idx: usize = 0;
    while idx < hidden_names.len()
        invariant
            hidden_names@.len() == 0,
        decreases hidden_names.len() - idx,
    {
        if hidden_names[idx] == *name {
            return true;
        }
        idx = idx + 1;
    }
    false
}

/// Decides what to do with a node of a loaded terminal model: despawn it when its name is
/// hidden, and give its mesh the rendered screen when the mesh's material is the screen
/// material, or make the mesh matte otherwise.
pub fn configure_scene_node(node_name: Option<String>, material_name: Option<String>) -> (actions:
    SceneNodeActions)
    ensures
        actions == node_actions(opt_chars(node_name), opt_chars(material_name)),
{
    let despawn = match &node_name {
        Some(name) => is_hidden_node_name(name),
        None => false,
    };
    let material = match &material_name {
        None => MaterialAction::Keep,
        Some(material) => {
            let screen = String::from_str("Material.002");
            if *material == screen {
                MaterialAction::UseScreen
            } else {
                MaterialAction::Matte
            }
        },
    };
    SceneNodeActions { despawn, material }
}

/// What happens to a node's material depends on the material's name alone, never on the
/// node's name: the screen material `Material.002` gets the rendered screen, every other mesh
/// material is made matte, and a node without a mesh material is left as it is.
pub proof fn lemma_material_by_material_name(
    node_name: Option<Seq<char>>,
    other_node_name: Option<Seq<char>>,
    material_name: Seq<char>,
)
    ensures
        node_actions(node_name, Some(material_name)).material == node_actions(
            other_node_name,
            Some(material_name),
        ).material,
        material_name != "Material.002"@ ==> node_actions(node_name, Some(material_name)).material
            == MaterialAction::Matte,
        node_actions(node_name, Some("Material.002"@)).material == MaterialAction::UseScreen,
        node_actions(node_name, None).material == MaterialAction::Keep,
{
}

/// No node of the terminal model is taken out of the scene, whatever its name or material.
pub proof fn lemma_no_node_despawned(
    node_name: Option<Seq<char>>,
    material_name: Option<Seq<char>>,
)
    ensures
        !node_actions(node_name, material_name).despawn,
{
}

} // verus!
