use sourcemods_builder::parsers::{map_format, MapFormat};
use sourcemods_builder::state::{
    extension_of, file_name_of, scan_outcome, BuilderGui, InternalData, MapFile, MapStatus, ProcessingMessage, ProcessingStatus,
    StorageSettings, WarningReason,
};

fn gui() -> BuilderGui {
    BuilderGui::new(StorageSettings {
        game_dir: "/games/hl2".to_string(),
        output_dir: "/tmp/out".to_string(),
        maps: Vec::new(),
    })
}

#[test]
fn maps_are_added_once_by_extension() {
    let mut g = gui();
    g.add_map("/maps/de_dust.vmf");
    g.add_map("/maps/de_dust.vmf");
    g.add_map("/maps/cs_office.bsp");
    g.add_map("/maps/readme.txt");
    g.add_map("/maps/noext");
    assert_eq!(g.config.maps.len(), 2);
    assert_eq!(g.config.maps[0].name, "de_dust.vmf");
    assert!(g.config.maps[0].is_vmf);
    assert!(!g.config.maps[1].is_vmf);
    g.add_maps(&vec!["/m/a.bsp".to_string(), "/m/b.txt".to_string()]);
    assert_eq!(g.config.maps.len(), 3);
    g.remove_map(0);
    assert_eq!(g.config.maps[0].name, "cs_office.bsp");
    g.internal.unique_assets = 5;
    g.clear_maps();
    assert!(g.config.maps.is_empty());
    assert_eq!(g.internal.unique_assets, 0);
}

#[test]
fn map_file_is_named_by_its_file_name() {
    let m = MapFile::new("/a/b/c.vmf", true);
    assert_eq!(m.name, "c.vmf");
    assert!(matches!(m.status, MapStatus::Pending));
}

#[test]
fn hover_texts() {
    assert_eq!(MapStatus::Pending.get_hover_text(), "Pending");
    assert_eq!(
        MapStatus::Warning(WarningReason::NotFoundAssets).get_hover_text(),
        "New unique Assets not found in this map"
    );
    assert_eq!(MapStatus::Warning(WarningReason::Unknown).get_hover_text(), "Unknown warning");
    assert_eq!(MapStatus::Error("bad".to_string()).get_hover_text(), "bad");
    assert_eq!(MapStatus::Completed.get_hover_text(), "Completed");
    assert_eq!(MapStatus::Processing.get_hover_text(), "");
    assert_eq!(ProcessingStatus::ScanMap(1).label(), "Scanning Maps...");
    assert_eq!(ProcessingStatus::Idle.label(), "");
}

#[test]
fn cancel_resets_processing_maps() {
    let mut g = gui();
    g.add_map("/m/a.vmf");
    g.add_map("/m/b.vmf");
    g.add_map("/m/c.vmf");
    g.config.maps[0].status = MapStatus::Processing;
    g.config.maps[1].status = MapStatus::Completed;
    g.processing = true;
    g.cancel_compile();
    assert!(!g.processing);
    assert!(matches!(g.process_status, ProcessingStatus::Cancelled));
    assert!(matches!(g.config.maps[0].status, MapStatus::Pending));
    assert!(matches!(g.config.maps[1].status, MapStatus::Completed));
    assert!(!g.all_maps_completed());
}

#[test]
fn messages_update_the_state() {
    let mut g = gui();
    g.add_map("/m/a.vmf");
    g.processing = true;
    assert!(!g.apply_message(ProcessingMessage::MapStatus { index: 0, status: MapStatus::Completed }));
    assert!(!g.apply_message(ProcessingMessage::MapStatus { index: 7, status: MapStatus::Completed }));
    assert!(g.all_maps_completed());
    g.apply_message(ProcessingMessage::AssetsFoundCount(3));
    g.apply_message(ProcessingMessage::AssetsFoundCount(u32::MAX));
    assert_eq!(g.internal.assets_found, u32::MAX);
    g.apply_message(ProcessingMessage::UniqueAssetsCount(9));
    assert_eq!(g.internal.unique_assets, 9);
    g.apply_message(ProcessingMessage::SetProcessingStatus(ProcessingStatus::CopyAssets));
    assert!(matches!(g.process_status, ProcessingStatus::CopyAssets));
    g.apply_message(ProcessingMessage::Complete);
    assert!(!g.processing);
    assert!(g.apply_message(ProcessingMessage::Error("disk full".to_string())));
}

#[test]
fn scan_outcomes() {
    assert!(matches!(scan_outcome(Err("broken".to_string()), 1, 1), MapStatus::Error(m) if m == "broken"));
    assert!(matches!(
        scan_outcome(Ok(()), 4, 4),
        MapStatus::Warning(WarningReason::NotFoundAssets)
    ));
    assert!(matches!(scan_outcome(Ok(()), 4, 6), MapStatus::Completed));
    let _ = InternalData {
        unique_assets: 0,
        assets_found: 0,
        unique_assets_ui: 0,
        assets_found_ui: 0,
        theme_was_changed: false,
    };
}

#[test]
fn completed_maps_are_not_scanned_again() {
    let mut g = gui();
    g.add_map("/m/a.vmf");
    g.add_map("/m/b.bsp");
    g.add_map("/m/c.vmf");
    g.config.maps[1].status = MapStatus::Completed;
    assert_eq!(g.maps_to_scan(), vec![0, 2]);
}

#[test]
fn file_names_follow_path_components() {
    assert_eq!(file_name_of("a/b/"), Some("b".to_string()));
    assert_eq!(file_name_of("a/b/."), Some("b".to_string()));
    assert_eq!(file_name_of("a/.."), None);
    assert_eq!(file_name_of("/"), None);
    assert_eq!(MapFile::new("a/b/", false).name, "b");
    assert_eq!(extension_of("a/b.vmf/"), Some("vmf".to_string()));
    assert_eq!(extension_of("a/.bashrc"), None);
    assert_eq!(extension_of("a/b."), Some("".to_string()));
    let mut g = gui();
    g.add_map("a/b.vmf/");
    assert_eq!(g.config.maps.len(), 1);
    assert_eq!(g.config.maps[0].name, "b.vmf");
}

#[test]
fn add_maps_appends_new_paths_once_in_order() {
    let mut g = gui();
    g.add_map("/m/x.vmf");
    g.add_maps(&vec![
        "/m/b.bsp".to_string(),
        "/m/x.vmf".to_string(),
        "/m/a.vmf".to_string(),
        "/m/b.bsp".to_string(),
        "/m/n.txt".to_string(),
    ]);
    let paths: Vec<&str> = g.config.maps.iter().map(|m| m.path.as_str()).collect();
    assert_eq!(paths, vec!["/m/x.vmf", "/m/b.bsp", "/m/a.vmf"]);
    assert!(g.config.maps[2].is_vmf && !g.config.maps[1].is_vmf);
}

#[test]
fn a_queue_with_an_error_ends_cancelled() {
    let mut g = gui();
    g.add_map("/m/a.vmf");
    g.add_map("/m/b.vmf");
    g.processing = true;
    let stopped = g.apply_messages(vec![
        ProcessingMessage::MapStatus { index: 0, status: MapStatus::Processing },
        ProcessingMessage::MapStatus { index: 1, status: MapStatus::Completed },
        ProcessingMessage::AssetsFoundCount(2),
        ProcessingMessage::AssetsFoundCount(3),
        ProcessingMessage::Error("copy failed".to_string()),
    ]);
    assert!(stopped);
    assert!(!g.processing);
    assert!(matches!(g.process_status, ProcessingStatus::Cancelled));
    assert!(matches!(g.config.maps[0].status, MapStatus::Pending));
    assert!(matches!(g.config.maps[1].status, MapStatus::Completed));
    assert_eq!(g.internal.assets_found, 5);
    assert_eq!(g.config.game_dir, "/games/hl2");

    let mut h = gui();
    h.processing = true;
    assert!(!h.apply_messages(vec![ProcessingMessage::UniqueAssetsCount(4), ProcessingMessage::Complete]));
    assert!(!h.processing);
    assert!(matches!(h.process_status, ProcessingStatus::Completed));
    assert_eq!(h.internal.unique_assets, 4);
}

#[test]
fn map_format_by_extension_and_flags() {
    assert!(matches!(map_format("/m/a.vmf", true, true), Some(MapFormat::Text)));
    assert!(matches!(map_format("/m/a.bsp", true, true), Some(MapFormat::Compiled)));
    assert!(map_format("/m/a.bsp", true, false).is_none());
    assert!(map_format("/m/a.vmf", false, true).is_none());
    assert!(map_format("/m/a.VMF", true, true).is_none());
    assert!(map_format("/m/readme.txt", true, true).is_none());
}
