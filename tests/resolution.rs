use sourcemods_builder::asset_processor::models::{self, TextureDef};
use sourcemods_builder::asset_processor::{materials, replace_extension, sounds};
use sourcemods_builder::assets::UniqueAssets;
use sourcemods_builder::copy::{dedup_nodes, destination_of};
use sourcemods_builder::entity::Entity;
use sourcemods_builder::parsers::vmf::{self, VmfDocument};
use sourcemods_builder::tree::GameTree;

/// Adds a file, creating the directories on its way.
fn add_file(t: &mut GameTree, path: &str) -> usize {
    let parts: Vec<&str> = path.split('/').collect();
    let mut cur = 0;
    for (i, p) in parts.iter().enumerate() {
        cur = t.add_entry(cur, p, i + 1 < parts.len()).unwrap();
    }
    cur
}

#[test]
fn resolves_with_wrong_case() {
    let mut t = GameTree::new();
    let barrel = add_file(&mut t, "game/models/Props/Barrel.mdl");
    let game = t.find_asset_case_insensitive(0, "game").unwrap();
    assert_eq!(t.find_asset_case_insensitive(game, "models/props/barrel.mdl"), Some(barrel));
    assert_eq!(t.find_asset_case_insensitive(game, "models/Props/Barrel.mdl"), Some(barrel));
    assert_eq!(t.path_of(barrel), "game/models/Props/Barrel.mdl");
    assert_eq!(t.find_asset_case_insensitive(game, "models/props/crate.mdl"), None);
    assert_eq!(t.find_asset_case_insensitive(game, "models/props/barrel.mdl/x"), None);
}

#[test]
fn tie_break_prefers_exact_then_smallest_name() {
    let mut t = GameTree::new();
    let lower = add_file(&mut t, "barrel.MDL");
    let upper = add_file(&mut t, "Barrel.mdl");
    assert_eq!(t.find_asset_case_insensitive(0, "BARREL.mdl"), Some(upper));
    assert_eq!(t.find_asset_case_insensitive(0, "barrel.MDL"), Some(lower));
    assert!(GameTree::name_less("Barrel.mdl", "barrel.MDL"));
    assert!(!GameTree::name_less("barrel.MDL", "Barrel.mdl"));
}

#[test]
fn entries_are_not_added_twice() {
    let mut t = GameTree::new();
    let a = t.add_entry(0, "sound", true).unwrap();
    assert_eq!(t.add_entry(0, "sound", true), Some(a));
    assert_eq!(t.add_entry(0, "a/b", false), None);
    assert_eq!(t.add_entry(0, "..", true), None);
    let f = t.add_entry(a, "x.wav", false).unwrap();
    assert_eq!(t.add_entry(f, "y", false), None);
    assert_eq!(t.node_count(), 3);
}

#[test]
fn asset_roots_are_found_case_insensitively() {
    let mut t = GameTree::new();
    add_file(&mut t, "hl2/Materials/a.vmt");
    add_file(&mut t, "hl2/models/a.mdl");
    add_file(&mut t, "mod/sound/a.wav");
    let roots = t.find_asset_directories();
    let hl2 = t.find_asset_case_insensitive(0, "hl2").unwrap();
    assert_eq!(roots.models, vec![hl2]);
    assert_eq!(roots.materials, vec![t.find_asset_case_insensitive(0, "hl2/materials").unwrap()]);
    assert_eq!(roots.sounds, vec![t.find_asset_case_insensitive(0, "mod/sound").unwrap()]);
}

#[test]
fn extensions_are_replaced() {
    assert_eq!(replace_extension("brick/wall01", "vmt"), "brick/wall01.vmt");
    assert_eq!(replace_extension("props/crate.mdl", "dx90.vtx"), "props/crate.dx90.vtx");
    assert_eq!(replace_extension("a.b/c", "vtf"), "a.b/c.vtf");
    assert_eq!(replace_extension(".hidden", "vmt"), ".hidden.vmt");
}

#[test]
fn destinations_start_at_the_base_folder() {
    assert_eq!(
        destination_of("hl2/materials/brick/wall.vmt", "materials"),
        Some("materials/brick/wall.vmt".to_string())
    );
    assert_eq!(destination_of("hl2/Materials/brick/wall.vmt", "materials"), None);
    assert_eq!(destination_of("a/sound/b/sound/c.wav", "sound"), Some("sound/b/sound/c.wav".to_string()));
}

#[test]
fn duplicates_are_dropped_in_order() {
    assert_eq!(dedup_nodes(&vec![3, 1, 3, 2, 1]), vec![3, 1, 2]);
}

#[test]
fn shader_parameters_name_textures() {
    let vmt = "\"LightmappedGeneric\"\n{\n\"$basetexture\" \"Brick\\Wall01\"\n$bumpmap \"brick/wall01_normal.vtf\"\n$surfaceprop 2\n}\n";
    assert_eq!(
        materials::texture_names(vmt),
        vec!["brick/wall01.vtf".to_string(), "brick/wall01_normal.vtf".to_string()]
    );
    assert_eq!(
        materials::texture_files(&vec!["Metal\\Plate".to_string()]),
        vec!["metal/plate.vtf".to_string()]
    );
}

#[test]
fn texture_definitions_add_materials() {
    let mut u = UniqueAssets::new();
    let defs = vec![TextureDef {
        name: "Crate_Tex".to_string(),
        search_paths: vec!["models\\props\\".to_string(), "".to_string(), "materials".to_string()],
    }];
    models::add_texture_materials(&mut u, &defs);
    let mut got = u.materials_name().clone();
    got.sort();
    assert_eq!(
        got,
        vec!["crate_tex".to_string(), "materials/crate_tex".to_string(), "models/props/crate_tex".to_string()]
    );
    assert_eq!(models::join_material("a", "b"), "a/b");
}

#[test]
fn sounds_resolve_as_they_are() {
    let mut t = GameTree::new();
    let wav = add_file(&mut t, "hl2/sound/Ambient/Wind.wav");
    let roots = t.find_asset_directories();
    let mut u = UniqueAssets::new();
    u.insert_sound("ambient/wind.wav");
    u.insert_sound("ambient/rain.wav");
    assert_eq!(sounds::process(&u, &t, &roots.sounds), vec![wav]);
    // A reference that names a directory gives no file.
    u.insert_sound("ambient");
    assert_eq!(sounds::process(&u, &t, &roots.sounds), vec![wav]);
}

#[test]
fn missing_material_is_left_out_and_the_run_goes_on() {
    let mut t = GameTree::new();
    let vmt = add_file(&mut t, "hl2/materials/brick/wall.vmt");
    let roots = t.find_asset_directories();
    let mut u = UniqueAssets::new();
    u.insert_material("brick/wall");
    u.insert_material("brick/missing");
    let found = materials::locate(&u, &t, &roots.materials);
    assert_eq!(found, vec![vmt]);
    assert!(!found.is_empty());
}

#[test]
fn end_to_end_text_map() {
    let mut t = GameTree::new();
    let mdl = add_file(&mut t, "game/models/props/crate.mdl");
    let phy = add_file(&mut t, "game/models/props/crate.phy");
    let vmt = add_file(&mut t, "game/materials/crate_tex.vmt");
    let vtf = add_file(&mut t, "game/materials/crate_tex_basecolor.vtf");
    add_file(&mut t, "game/materials/unused.vmt");

    let doc = VmfDocument {
        world_solids: Vec::new(),
        entities: vec![Entity {
            properties: vec![("model".to_string(), "models/props/crate.mdl".to_string())],
            solids: Vec::new(),
        }],
    };
    let mut u = UniqueAssets::new();
    vmf::get_uniques(&doc, &mut u);
    let roots = t.find_asset_directories();

    let mut files = Vec::new();
    for k in models::locate(&u, &t, &roots.models) {
        // Search folders are relative to the materials roots: the empty one
        // names the root itself.
        let defs = vec![TextureDef {
            name: "crate_tex".to_string(),
            search_paths: vec!["".to_string()],
        }];
        files.extend(models::process(&mut u, &t, k, &defs));
    }
    let vmts = materials::locate(&u, &t, &roots.materials);
    let contents: Vec<String> = vmts.iter().map(|_| "$basetexture \"crate_tex_basecolor\"".to_string()).collect();
    files.extend(vmts.iter().copied());
    files.extend(materials::process(&t, &roots.materials, &contents));
    files.extend(sounds::process(&u, &t, &roots.sounds));
    let files = dedup_nodes(&files);

    let mut out: Vec<String> = files
        .iter()
        .map(|&k| {
            let base = if k == mdl || k == phy { "models" } else { "materials" };
            destination_of(&t.path_of(k), base).unwrap()
        })
        .collect();
    out.sort();
    assert_eq!(
        out,
        vec![
            "materials/crate_tex.vmt".to_string(),
            "materials/crate_tex_basecolor.vtf".to_string(),
            "models/props/crate.mdl".to_string(),
            "models/props/crate.phy".to_string(),
        ]
    );
    assert!(files.contains(&vmt) && files.contains(&vtf));
}

#[test]
fn differently_written_definitions_give_one_material() {
    let mut u = UniqueAssets::new();
    let defs = vec![
        TextureDef { name: "Crate".to_string(), search_paths: vec!["models\\Props".to_string()] },
        TextureDef { name: "crate".to_string(), search_paths: vec!["models/props".to_string()] },
    ];
    models::add_texture_materials(&mut u, &defs);
    assert_eq!(u.materials_name(), &vec!["models/props/crate".to_string()]);
    assert_eq!(u.len(), 1);
}
