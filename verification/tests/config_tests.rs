use rdfs::config::{RDFSConfig, RDFSPath};

#[test]
fn cfg_add_and_remove_path() {
    let mut config = RDFSConfig::default();
    config.add_path(String::from("/tmp/rdfs-store"));
    assert!(config.search_paths.iter().any(|p| p.path == "/tmp/rdfs-store"));

    let removed = config.remove_path(&String::from("/tmp/rdfs-store"));
    assert!(removed);
    assert!(!config.search_paths.iter().any(|p| p.path == "/tmp/rdfs-store"));

    let removed_again = config.remove_path(&String::from("/tmp/rdfs-store"));
    assert!(!removed_again);
}

#[test]
fn cfg_remove_keeps_other_paths_in_order() {
    let mut config = RDFSConfig::default();
    config.search_paths = vec![
        RDFSPath { path: String::from("/a"), available: 1 },
        RDFSPath { path: String::from("/b"), available: 2 },
        RDFSPath { path: String::from("/a"), available: 3 },
        RDFSPath { path: String::from("/c"), available: 4 },
    ];
    assert!(config.remove_path(&String::from("/a")));
    let left: Vec<&str> = config.search_paths.iter().map(|p| p.path.as_str()).collect();
    assert_eq!(left, vec!["/b", "/c"]);
}

#[test]
fn cfg_get_path_with_space_found() {
    let mut config = RDFSConfig::default();
    config.search_paths = vec![
        RDFSPath { path: String::from("/small"), available: 1_000 },
        RDFSPath { path: String::from("/big"), available: 50_000 },
    ];
    assert_eq!(config.get_path_with_space(10_000), Some(String::from("/big")));
    // The first candidate with enough space wins.
    assert_eq!(config.get_path_with_space(500), Some(String::from("/small")));
}

#[test]
fn cfg_get_path_with_space_not_found() {
    let mut config = RDFSConfig::default();
    config.search_paths.push(RDFSPath {
        path: String::from("/small"),
        available: 1_000, // small space
    });
    assert!(config.get_path_with_space(10_000_000_000).is_none()); // 10 GB
}

#[test]
fn cfg_free_space_lookup_by_mount_prefix() {
    let mounts = vec![
        (String::from("/var/data"), 111u64),
        (String::from("/"), 222u64),
    ];
    // The first mount that is a whole-component prefix wins.
    assert_eq!(
        rdfs::config::free_space_in(&mounts, &String::from("/var/data/rdfs")),
        Some(111)
    );
    assert_eq!(
        rdfs::config::free_space_in(&mounts, &String::from("/home/user")),
        Some(222)
    );
    // Prefixes are compared by component: "/var/da" does not hold "/var/data".
    let narrow = vec![(String::from("/var/da"), 5u64)];
    assert_eq!(
        rdfs::config::free_space_in(&narrow, &String::from("/var/data")),
        None
    );
}
