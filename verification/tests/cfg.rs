use cs2_gsi::cfg::GsiCfg;

#[test]
fn render_produces_expected_skeleton() {
    let cfg = GsiCfg::for_localhost("Demo".to_string(), 4000);
    let rendered = cfg.render();
    assert!(rendered.starts_with("\"Demo Integration Configuration\""));
    assert!(rendered.contains("\"uri\"          \"http://localhost:4000/\""));
    assert!(rendered.contains("\"throttle\"     \"0.1\""));
    assert!(rendered.contains("\"heartbeat\"    \"10.0\""));
    // 18 default data keys.
    assert_eq!(rendered.matches("\"1\"").count(), 18);
}

#[test]
fn data_keys_have_no_trailing_whitespace_inside_quotes() {
    let cfg = GsiCfg::for_localhost("Demo".to_string(), 4000);
    let rendered = cfg.render();
    for key in [
        "provider",
        "map",
        "round",
        "bomb",
        "allgrenades",
        "allplayers_id",
        "allplayers_match_stats",
        "allplayers_position",
        "allplayers_state",
        "allplayers_weapons",
        "map_round_wins",
        "phase_countdowns",
        "player_id",
        "player_match_stats",
        "player_position",
        "player_state",
        "player_weapons",
        "tournamentdraft",
    ] {
        assert!(
            rendered.contains(&format!("\"{key}\"")),
            "expected exact `\"{key}\"` token in rendered cfg",
        );
        assert!(
            !rendered.contains(&format!("{key} ")) || !rendered.contains(&format!("{key}\"")),
            "found a quoted key with internal trailing whitespace",
        );
    }
}

#[test]
fn file_name_slugifies_service() {
    let cfg = GsiCfg::for_localhost("ImLag Rust".to_string(), 1234);
    assert_eq!(cfg.file_name(), "gamestate_integration_ImLag_Rust.cfg");
}

#[test]
fn auth_block_is_emitted_when_provided() {
    let cfg = GsiCfg::for_localhost("Demo".to_string(), 4000)
        .with_auth("token".to_string(), "abc123".to_string());
    let rendered = cfg.render();
    assert!(rendered.contains("\"auth\""));
    assert!(rendered.contains("\"token\"        \"abc123\""));
}

#[test]
fn render_full_text_of_default_cfg() {
    let rendered = GsiCfg::for_localhost("MyApp".to_string(), 4000).render();
    let mut expected = String::new();
    expected.push_str("\"MyApp Integration Configuration\"\n{\n");
    expected.push_str("    \"uri\"          \"http://localhost:4000/\"\n");
    expected.push_str("    \"timeout\"      \"5.0\"\n");
    expected.push_str("    \"buffer\"       \"0.1\"\n");
    expected.push_str("    \"throttle\"     \"0.1\"\n");
    expected.push_str("    \"heartbeat\"    \"10.0\"\n");
    expected.push_str("    \"data\"\n    {\n");
    assert!(rendered.starts_with(&expected), "{rendered}");
    let line = format!("        {:<26}        \"1\"\n", "\"allgrenades\"");
    assert!(rendered.contains(&line), "{rendered}");
    assert!(rendered.ends_with("    }\n}\n"), "{rendered}");
    assert!(!rendered.contains("\"auth\""));
}

#[test]
fn without_section_drops_the_key() {
    let rendered = GsiCfg::for_localhost("Demo".to_string(), 4000)
        .without_section("bomb")
        .render();
    assert!(!rendered.contains("\"bomb\""));
    assert_eq!(rendered.matches("\"1\"").count(), 17);
}

#[test]
fn with_uri_replaces_endpoint() {
    let rendered = GsiCfg::for_localhost("Demo".to_string(), 4000)
        .with_uri("http://10.0.0.2:5000/".to_string())
        .render();
    assert!(rendered.contains("\"uri\"          \"http://10.0.0.2:5000/\""));
}

#[test]
fn file_name_replaces_every_non_alphanumeric() {
    let cfg = GsiCfg::for_localhost("a-b.c d".to_string(), 1);
    assert_eq!(cfg.file_name(), "gamestate_integration_a_b_c_d.cfg");
}
