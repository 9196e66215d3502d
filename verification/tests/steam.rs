use cs2_gsi::error::Error;
use cs2_gsi::steam::{
    find_cs2_cfg_dir, find_cs2_install_dir, find_steam_root, install_dir_name, join_path,
    parse_acf_installdir, parse_vdf_paths, registry_text, steam_libraries, wide, CS2_APP_ID,
    DEFAULT_INSTALL_DIR,
};

#[test]
fn parses_libraryfolders_vdf() {
    let sample = r#"
"libraryfolders"
{
    "0"
    {
        "path"        "C:\\Program Files (x86)\\Steam"
        "label"        ""
    }
    "1"
    {
        "path"        "D:\\SteamLibrary"
        "label"        ""
    }
}
"#;
    let paths = parse_vdf_paths(sample);
    assert_eq!(
        paths,
        vec![
            "C:\\Program Files (x86)\\Steam".to_string(),
            "D:\\SteamLibrary".to_string(),
        ]
    );
}

#[test]
fn parses_appmanifest_installdir() {
    let sample = r#"
"AppState"
{
    "appid"        "730"
    "installdir"   "Counter-Strike Global Offensive"
}
"#;
    assert_eq!(
        parse_acf_installdir(sample).as_deref(),
        Some("Counter-Strike Global Offensive")
    );
}

#[test]
fn vdf_ignores_other_keys_and_keyless_lines() {
    let sample = "\"path\"\n  \"label\"  \"x\"\n{\n\"path\" \"E:\\\\\\\\Games\"\r\n \"path\"   \r\n";
    assert_eq!(parse_vdf_paths(sample), vec!["E:\\\\Games".to_string()]);
    assert!(parse_vdf_paths("").is_empty());
}

#[test]
fn vdf_collapses_doubled_backslashes_only_in_pairs() {
    let sample = "\"path\" \"a\\\\\\b\"";
    assert_eq!(parse_vdf_paths(sample), vec!["a\\\\b".to_string()]);
}

#[test]
fn acf_first_installdir_line_decides() {
    assert_eq!(parse_acf_installdir("\"installdir\"\n\"installdir\" \"Later\""), None);
    assert_eq!(
        parse_acf_installdir(" \"installdir\"  \"One\"\n\"installdir\" \"Two\"").as_deref(),
        Some("One")
    );
    assert_eq!(parse_acf_installdir("\"appid\" \"730\""), None);
}

#[test]
fn install_dir_name_defaults_when_missing() {
    assert_eq!(install_dir_name("\"appid\" \"730\""), DEFAULT_INSTALL_DIR);
    assert_eq!(install_dir_name("\"installdir\" \"Counter-Strike 2\""), "Counter-Strike 2");
    assert_eq!(CS2_APP_ID, 730);
}

#[test]
fn steam_root_is_first_existing_candidate() {
    let c = vec![
        ("/home/a/.steam/steam".to_string(), false),
        ("/home/a/.local/share/Steam".to_string(), true),
    ];
    assert_eq!(find_steam_root(&c).unwrap(), "/home/a/.local/share/Steam");
    let none = vec![("/x".to_string(), false)];
    match find_steam_root(&none) {
        Err(Error::SteamDiscovery(m)) => assert_eq!(m, "Steam install directory not found"),
        other => panic!("unexpected {other:?}"),
    }
}

#[test]
fn install_dir_search_reports_missing_game() {
    match find_cs2_install_dir(&Vec::new()) {
        Err(Error::SteamDiscovery(m)) => {
            assert_eq!(m, "CS2 (app id 730) is not installed in any Steam library")
        }
        other => panic!("unexpected {other:?}"),
    }
    let c = vec![("/a".to_string(), false), ("/b".to_string(), true), ("/c".to_string(), true)];
    assert_eq!(find_cs2_install_dir(&c).unwrap(), "/b");
}

#[test]
fn cfg_dir_joins_game_csgo_cfg() {
    let c = vec![("/lib/steamapps/common/CS".to_string(), true)];
    assert_eq!(find_cs2_cfg_dir(&c, '/').unwrap(), "/lib/steamapps/common/CS/game/csgo/cfg");
    let w = vec![("C:\\S\\".to_string(), true)];
    assert_eq!(find_cs2_cfg_dir(&w, '\\').unwrap(), "C:\\S\\game\\csgo\\cfg");
    assert!(find_cs2_cfg_dir(&Vec::new(), '/').is_err());
}

#[test]
fn join_path_adds_one_separator() {
    assert_eq!(join_path("a", "b", '/'), "a/b");
    assert_eq!(join_path("a/", "b", '/'), "a/b");
    assert_eq!(join_path("", "b", '/'), "b");
    assert_eq!(join_path("C:/x", "b", '\\'), "C:/x\\b");
}

#[test]
fn libraries_start_with_root_and_skip_duplicates() {
    let found = vec![
        ("/root".to_string(), true),
        ("/d".to_string(), true),
        ("/gone".to_string(), false),
        ("/d".to_string(), true),
        ("/e".to_string(), true),
    ];
    assert_eq!(
        steam_libraries("/root", &found, '/'),
        vec!["/root".to_string(), "/d".to_string(), "/e".to_string()]
    );
    assert_eq!(steam_libraries("/root", &Vec::new(), '/'), vec!["/root".to_string()]);
}

#[test]
fn libraries_compare_paths_by_component() {
    let found = vec![
        ("/root/".to_string(), true),
        ("/d".to_string(), true),
        ("/d/".to_string(), true),
        ("//d".to_string(), true),
        ("/./d".to_string(), true),
        ("d".to_string(), true),
        ("./d".to_string(), true),
        ("./d/.".to_string(), true),
    ];
    assert_eq!(
        steam_libraries("/root", &found, '/'),
        vec!["/root".to_string(), "/d".to_string(), "d".to_string(), "./d".to_string()]
    );
    let win = vec![
        ("D:\\Lib".to_string(), true),
        ("D:\\Lib\\".to_string(), true),
        ("D:/Lib".to_string(), true),
        ("D:\\Other".to_string(), true),
    ];
    assert_eq!(
        steam_libraries("C:\\Steam", &win, '\\'),
        vec!["C:\\Steam".to_string(), "D:\\Lib".to_string(), "D:\\Other".to_string()]
    );
    // On Unix a backslash is an ordinary character.
    let unix = vec![("a\\b".to_string(), true), ("a/b".to_string(), true)];
    assert_eq!(steam_libraries("/r", &unix, '/').len(), 3);
}

#[test]
fn wide_is_nul_terminated_utf16() {
    assert_eq!(wide("Ab"), vec![0x41, 0x62, 0]);
    assert_eq!(wide(""), vec![0]);
    assert_eq!(wide("\u{1F600}"), vec![0xD83D, 0xDE00, 0]);
    assert_eq!(wide("é"), vec![0xE9, 0]);
}

#[test]
fn registry_text_round_trips_wide() {
    for s in ["Software\\Valve\\Steam", "", "C:\\Program Files (x86)\\Steam", "ü\u{1F600}x"] {
        assert_eq!(registry_text(&wide(s)), s);
    }
}

#[test]
fn registry_text_stops_at_nul_and_replaces_lone_surrogates() {
    assert_eq!(registry_text(&vec![0x61, 0, 0x62]), "a");
    assert_eq!(registry_text(&vec![0x61, 0x62]), "ab");
    assert_eq!(registry_text(&vec![0xD800, 0x61]), "\u{FFFD}a");
    assert_eq!(registry_text(&vec![0xDC00]), "\u{FFFD}");
    assert_eq!(registry_text(&vec![0xD83D, 0xDE00]), "\u{1F600}");
}

#[test]
fn libraries_agree_with_path_equality() {
    let paths = [
        "/a", "/a/", "//a", "/./a", "a", "./a", "a/.", "a/./b", "a/b", "a//b/", "/a/..", "/a/../",
        "..", "../", ".", "./", "", ".a", "/",
    ];
    let found: Vec<(String, bool)> = paths.iter().map(|p| (p.to_string(), true)).collect();
    let mut expected: Vec<std::path::PathBuf> = vec![std::path::PathBuf::from("/r")];
    for p in paths {
        let pb = std::path::PathBuf::from(p);
        if !expected.contains(&pb) {
            expected.push(pb);
        }
    }
    let got: Vec<std::path::PathBuf> = steam_libraries("/r", &found, '/')
        .into_iter()
        .map(std::path::PathBuf::from)
        .collect();
    assert_eq!(got, expected);
}

#[test]
fn windows_drive_letters_compare_without_case() {
    let found = vec![
        ("c:\\X".to_string(), true),
        ("C:/X/".to_string(), true),
        ("d:\\X".to_string(), true),
        ("C:X".to_string(), true),
    ];
    assert_eq!(
        steam_libraries("C:\\X", &found, '\\'),
        vec!["C:\\X".to_string(), "d:\\X".to_string(), "C:X".to_string()]
    );
    // Elsewhere `c:` is an ordinary folder name.
    let unix = vec![("c:/X".to_string(), true)];
    assert_eq!(steam_libraries("C:/X", &unix, '/').len(), 2);
}

#[test]
fn windows_unc_prefix_is_kept_apart() {
    let found = vec![
        ("\\server\\share".to_string(), true),
        ("\\\\server\\share\\".to_string(), true),
        ("\\\\server\\share\\lib".to_string(), true),
        ("\\\\server\\other".to_string(), true),
        ("\\\\?\\C:\\lib".to_string(), true),
        ("\\\\?\\C:\\lib".to_string(), true),
    ];
    assert_eq!(
        steam_libraries("\\\\server\\share", &found, '\\'),
        vec![
            "\\\\server\\share".to_string(),
            "\\server\\share".to_string(),
            "\\\\server\\share\\lib".to_string(),
            "\\\\server\\other".to_string(),
            "\\\\?\\C:\\lib".to_string(),
        ]
    );
}
