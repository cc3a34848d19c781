use scrobblist::storage::{default_database_path, Platform};

#[test]
fn database_paths() {
    assert_eq!(
        default_database_path(Platform::Windows, Some("C:\\Users\\a\\AppData\\Roaming\\\\")),
        "C:\\Users\\a\\AppData\\Roaming/Scrobblist/scrobblist.db"
    );
    assert_eq!(default_database_path(Platform::Windows, None), "./.scrobblist/Scrobblist/scrobblist.db");
    assert_eq!(
        default_database_path(Platform::MacOs, Some("/Users/a")),
        "/Users/a/Library/Application Support/Scrobblist/scrobblist.db"
    );
    assert_eq!(
        default_database_path(Platform::Other, Some("/home/a")),
        "/home/a/.local/share/scrobblist/scrobblist.db"
    );
    assert_eq!(default_database_path(Platform::Other, None), "./.scrobblist/.local/share/scrobblist/scrobblist.db");
}
