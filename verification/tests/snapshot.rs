use dirserve::finfo::{Fileinfo, FolderInfo, RawEntry};
use dirserve::json::render_context_json;

fn entry(name: &str, path: &str) -> RawEntry {
    RawEntry { name: name.to_string(), path: path.to_string(), metadata: None }
}

#[test]
fn hide_dotfile_filters_dot_entries() {
    let entries = vec![entry(".secret", "./.secret"), entry("a.txt", "./a.txt")];
    let info = FolderInfo::new("./".to_string(), &vec![], entries, true);
    let names: Vec<&str> = info.children.iter().map(|c| c.name.as_str()).collect();
    assert_eq!(names, vec!["a.txt"]);
}

#[test]
fn dotfiles_kept_when_flag_unset() {
    let entries = vec![entry(".secret", "./.secret"), entry("a.txt", "./a.txt")];
    let info = FolderInfo::new("./".to_string(), &vec![], entries, false);
    let names: Vec<&str> = info.children.iter().map(|c| c.name.as_str()).collect();
    assert_eq!(names, vec![".secret", "a.txt"]);
}

#[test]
fn child_urlpath_is_percent_encoded() {
    let entries = vec![entry("a b.txt", "./sub dir/a b.txt")];
    let info = FolderInfo::new("./sub dir".to_string(), &vec!["sub dir".to_string()], entries, false);
    assert_eq!(info.children[0].urlpath, "/sub%20dir/a%20b.txt");
}

#[test]
fn folder_urlpath_strips_leading_dot() {
    let info = FolderInfo::new("./sub".to_string(), &vec!["sub".to_string()], vec![], false);
    assert_eq!(info.urlpath, "/sub");
    assert_eq!(info.name, "sub");
}

#[test]
fn folder_name_empty_at_base() {
    let info = FolderInfo::new(".".to_string(), &vec![], vec![], false);
    assert_eq!(info.name, "");
    assert_eq!(info.urlpath, "");
}

#[test]
fn mime_guessed_from_extension() {
    let e = Fileinfo::from_entry(entry("a.txt", "./a.txt"), &vec![]);
    assert_eq!(e.mime_type.as_deref(), Some("text/plain"));
    let e = Fileinfo::from_entry(entry("a.html", "./a.html"), &vec![]);
    assert_eq!(e.mime_type.as_deref(), Some("text/html"));
    let e = Fileinfo::from_entry(entry("noext", "./noext"), &vec![]);
    assert_eq!(e.mime_type, None);
    let entries = vec![entry("a.css", "./a.css")];
    let info = FolderInfo::new(".".to_string(), &vec![], entries, false);
    assert_eq!(info.children[0].mime_type.as_deref(), Some("text/css"));
}

#[test]
fn metadata_carried_through() {
    let meta = dirserve::finfo::FileMetadata {
        is_file: true,
        is_folder: false,
        is_symlink: false,
        modified: Some(1700000000),
        accessed: None,
        created: Some(1600000000),
        size: 42,
    };
    let entries = vec![RawEntry {
        name: "a.txt".to_string(),
        path: "./a.txt".to_string(),
        metadata: Some(meta),
    }];
    let info = FolderInfo::new(".".to_string(), &vec![], entries, false);
    let m = info.children[0].metadata.as_ref().unwrap();
    assert!(m.is_file && !m.is_folder && !m.is_symlink);
    assert_eq!(m.modified, Some(1700000000));
    assert_eq!(m.accessed, None);
    assert_eq!(m.size, 42);
}

#[test]
fn context_json_exact() {
    let entries = vec![RawEntry {
        name: "a.txt".to_string(),
        path: "./a.txt".to_string(),
        metadata: Some(dirserve::finfo::FileMetadata {
            is_file: true,
            is_folder: false,
            is_symlink: false,
            modified: Some(7),
            accessed: None,
            created: None,
            size: 3,
        }),
    }];
    let info = FolderInfo::new(".".to_string(), &vec![], entries, false);
    let json = render_context_json(&info, "/static_contents", "UTC", "%Y-%m-%d");
    let expected = "{\"info\":{\"name\":\"\",\"path\":\".\",\"urlpath\":\"\",\"children\":[{\"name\":\"a.txt\",\"path\":\"./a.txt\",\"urlpath\":\"/a.txt\",\"metadata\":{\"is_file\":true,\"is_folder\":false,\"is_symlink\":false,\"modified\":7,\"accessed\":null,\"created\":null,\"size\":3},\"mime_type\":\"text/plain\"}]},\"static_path\":\"/static_contents\",\"timezone\":\"UTC\",\"time_format\":\"%Y-%m-%d\"}";
    assert_eq!(json, expected);
}

#[test]
fn context_json_escapes_specials() {
    let entries = vec![entry("a\"b\\c\nd", "./x")];
    let info = FolderInfo::new(".".to_string(), &vec![], entries, false);
    let json = render_context_json(&info, "", "", "");
    assert!(json.contains("\"name\":\"a\\\"b\\\\c\\u000Ad\""));
}
