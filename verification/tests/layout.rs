use one_pkg::error::EngineError;
use one_pkg::layout::{backup_in, catalog_in, layout_from, locate, Layout};

#[test]
fn layout_places_every_file_in_the_configuration_directory() {
    let layout = Layout::under("/home/alice/.config");
    assert_eq!(layout.dir, "/home/alice/.config/one-pkg");
    assert_eq!(layout.catalog, "/home/alice/.config/one-pkg/pkg-ls.json");
    assert_eq!(layout.backup, "/home/alice/.config/one-pkg/pkg-ls.json.old");
    assert_eq!(layout.ledger, "/home/alice/.config/one-pkg/installed.json");
    assert_eq!(layout.apps, "/home/alice/.config/one-pkg/appimages");
    assert_eq!(layout.sources, "/home/alice/.config/one-pkg/sources");
}

#[test]
fn catalog_and_backup_paths() {
    assert_eq!(catalog_in("/c"), "/c/pkg-ls.json");
    assert_eq!(backup_in("/c"), "/c/pkg-ls.json.old");
}

#[test]
fn no_configuration_directory_is_a_failure() {
    assert_eq!(layout_from(None), Err(EngineError::ConfigDirUnavailable));
    assert_eq!(layout_from(Some("/r".to_string())), Ok(Layout::under("/r")));
}

#[test]
fn locate_places_the_files_where_the_system_keeps_configuration() {
    match locate() {
        Ok(layout) => {
            assert!(layout.dir.ends_with("/one-pkg"));
            let root = &layout.dir[..layout.dir.len() - "/one-pkg".len()];
            assert_eq!(layout, Layout::under(root));
        }
        Err(e) => assert_eq!(e, EngineError::ConfigDirUnavailable),
    }
}
