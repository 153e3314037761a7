use sourcemods_builder::assets::UniqueAssets;
use sourcemods_builder::entity::{Entity, Solid};
use sourcemods_builder::parsers::bsp::{self, BspDocument};
use sourcemods_builder::parsers::vmf::{self, VmfDocument};

fn entity(props: &[(&str, &str)]) -> Entity {
    Entity {
        properties: props.iter().map(|(k, v)| (k.to_string(), v.to_string())).collect(),
        solids: Vec::new(),
    }
}

fn sorted(v: &Vec<String>) -> Vec<String> {
    let mut v = v.clone();
    v.sort();
    v
}

#[test]
fn same_normal_form_gives_one_entry() {
    let mut u = UniqueAssets::new();
    assert!(u.insert_material("Brick\\Wall01"));
    assert!(!u.insert_material("brick/wall01"));
    assert!(!u.insert_material("BRICK/WALL01"));
    assert_eq!(u.materials_name(), &vec!["brick/wall01".to_string()]);
    assert_eq!(u.len(), 1);
}

#[test]
fn buckets_are_separate_and_counted() {
    let mut u = UniqueAssets::default();
    assert!(u.is_empty());
    u.insert_model("Models/Props/Crate.mdl");
    u.insert_material("concrete/floor");
    u.insert_sound("ambient/wind.wav");
    u.insert_sound("Ambient/Wind.wav");
    assert_eq!(u.models_name(), &vec!["models/props/crate.mdl".to_string()]);
    assert_eq!(u.len(), 3);
    assert!(!u.is_empty());
}

#[test]
fn tool_sides_are_left_out_whatever_their_case() {
    let doc = VmfDocument {
        world_solids: vec![Solid {
            sides: vec![
                "TOOLS/TOOLSNODRAW".to_string(),
                "tools/toolsclip".to_string(),
                "Brick/Wall".to_string(),
            ],
        }],
        entities: Vec::new(),
    };
    let mut u = UniqueAssets::new();
    vmf::get_uniques(&doc, &mut u);
    assert_eq!(u.materials_name(), &vec!["brick/wall".to_string()]);
    assert!(u.models_name().is_empty());
}

#[test]
fn text_map_entity_rules() {
    let mut e = entity(&[
        ("classname", "prop_static"),
        ("model", "models/props/crate.mdl"),
        ("material", "Dev/Dev_Measure"),
        ("message", "Ambient/Wind.WAV"),
    ]);
    e.solids = vec![Solid { sides: vec!["Metal/Floor01".to_string()] }];
    let doc = VmfDocument {
        world_solids: Vec::new(),
        entities: vec![
            e,
            entity(&[("model", "sprites/glow.vmt")]),
            entity(&[("model", "sprites/light.spr"), ("texture", "decals/blood1")]),
        ],
    };
    let mut u = UniqueAssets::new();
    vmf::get_uniques(&doc, &mut u);
    assert_eq!(u.models_name(), &vec!["models/props/crate.mdl".to_string()]);
    assert_eq!(
        sorted(u.materials_name()),
        vec![
            "decals/blood1".to_string(),
            "dev/dev_measure".to_string(),
            "metal/floor01".to_string(),
            "sprites/glow".to_string(),
            "sprites/light".to_string(),
        ]
    );
    assert_eq!(u.sounds_name(), &vec!["ambient/wind.wav".to_string()]);
}

#[test]
fn patch_names_lose_prefix_and_coordinates() {
    assert_eq!(bsp::patch_material_name("maps/mymap/mymap_wall_001_002_003"), "mymap_wall");
    assert_eq!(
        bsp::patch_material_name("maps/mymap/mymap_wall_abc_002_003"),
        "mymap_wall_abc_002_003"
    );
    assert_eq!(bsp::patch_material_name("maps/mymap/water_-12_3_4"), "water");
    assert_eq!(bsp::patch_material_name("maps/nodir"), "maps/nodir");
    assert_eq!(bsp::patch_material_name("brick/wall_1_2_3"), "brick/wall_1_2_3");
}

#[test]
fn compiled_map_rules() {
    let doc = BspDocument {
        textures: vec![
            "TOOLS/TOOLSNODRAW".to_string(),
            "".to_string(),
            "maps/mymap/mymap_wall_001_002_003".to_string(),
            "Concrete/Floor".to_string(),
        ],
        static_props: vec!["models/props/barrel.mdl".to_string()],
        entities: vec![
            entity(&[("model", "models/props/lamp.mdl"), ("materials", "glass/window")]),
            entity(&[("model", "effects/flare.vmt"), ("noise", "doors/creak.OGG")]),
        ],
    };
    let mut u = UniqueAssets::new();
    bsp::get_uniques(&doc, &mut u);
    assert_eq!(
        sorted(u.models_name()),
        vec!["models/props/barrel.mdl".to_string(), "models/props/lamp.mdl".to_string()]
    );
    assert_eq!(
        sorted(u.materials_name()),
        vec![
            "concrete/floor".to_string(),
            "effects/flare".to_string(),
            "glass/window".to_string(),
            "mymap_wall".to_string(),
        ]
    );
    assert_eq!(u.sounds_name(), &vec!["doors/creak.ogg".to_string()]);
}
