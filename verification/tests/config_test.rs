use discord_rich_presence::config::{RPCConfig, RPCProfile, Recovery, Selection};

fn profile(client_id: &str) -> RPCProfile {
    RPCProfile {
        client_id: client_id.to_string(),
        ..RPCProfile::default()
    }
}

fn three() -> RPCConfig {
    RPCConfig {
        profiles: vec![
            ("alpha".to_string(), profile("1")),
            ("beta".to_string(), profile("2")),
            ("7".to_string(), profile("3")),
        ],
    }
}

#[test]
fn default_config_holds_the_demo_profile() {
    let config = RPCConfig::default();
    assert_eq!(config.profiles.len(), 1);
    let (name, demo) = &config.profiles[0];
    assert_eq!(name, "demo");
    assert_eq!(
        demo,
        &RPCProfile {
            client_id: "1234567890".to_string(),
            large_image: Some("large_image".to_string()),
            large_text: Some("large_text".to_string()),
            small_image: Some("small_image".to_string()),
            small_text: Some("small_text".to_string()),
            state: Some("state".to_string()),
            details: Some("details".to_string()),
        }
    );
}

#[test]
fn try_load_reads_toml() {
    let text = r#"
        [profiles.demo]
        client_id = "1234567890"
        state = "state"
    "#;
    let loaded = RPCConfig::try_load(text).unwrap();
    assert_eq!(loaded.len(), 1);
    let profiles = loaded["profiles"].clone().into_table().unwrap();
    let demo = profiles["demo"].clone().into_table().unwrap();
    assert_eq!(
        demo["client_id"].clone().into_string().unwrap(),
        "1234567890"
    );
    assert_eq!(demo["state"].clone().into_string().unwrap(), "state");
    assert!(!demo.contains_key("details"));
    assert!(RPCConfig::try_load("").unwrap().is_empty());
}

#[test]
fn try_load_rejects_what_is_no_toml() {
    let message = RPCConfig::try_load("[profiles.demo\nclient_id = ").unwrap_err();
    assert!(!message.is_empty());
    assert!(RPCConfig::try_load("a = ").is_err());
    assert!(RPCConfig::try_load("a = 1\na = 2").is_err());
}

#[test]
fn try_load_takes_keys_as_they_are_written() {
    let loaded = RPCConfig::try_load("\"a[9223372036854775807]\" = 1\n\"b.c\" = 2").unwrap();
    assert_eq!(loaded.len(), 2);
    assert_eq!(
        loaded["a[9223372036854775807]"].clone().into_int().unwrap(),
        1
    );
    assert_eq!(loaded["b.c"].clone().into_int().unwrap(), 2);
}

#[test]
fn try_load_rejects_deep_nesting() {
    let dotted = format!("a{} = 1", ".a".repeat(10000));
    assert!(RPCConfig::try_load(&dotted).is_err());
    let header = format!("[a{}]\nb = 1", ".a".repeat(10000));
    assert!(RPCConfig::try_load(&header).is_err());
    let arrays = format!("a = {}{}", "[".repeat(10000), "]".repeat(10000));
    assert!(RPCConfig::try_load(&arrays).is_err());
    let tables = format!("a = {}1{}", "{ a = ".repeat(10000), " }".repeat(10000));
    assert!(RPCConfig::try_load(&tables).is_err());
    let shallow = format!("a = {}{}", "[".repeat(20), "]".repeat(20));
    assert!(RPCConfig::try_load(&shallow).is_ok());
}

#[test]
fn try_load_returns_on_texts_of_any_kind() {
    let alphabet: Vec<char> = "ab1 .=\"'[]{},#\n\\+-_:e\u{e9}\t0x"
        .chars()
        .collect();
    let mut state: u64 = 0x2545_f491_4f6c_dd1d;
    let mut accepted = 0;
    for _ in 0..20000 {
        let mut text = String::new();
        state = state.wrapping_mul(6364136223846793005).wrapping_add(1442695040888963407);
        let len = (state >> 33) % 24;
        for _ in 0..len {
            state = state.wrapping_mul(6364136223846793005).wrapping_add(1442695040888963407);
            text.push(alphabet[((state >> 33) % alphabet.len() as u64) as usize]);
        }
        if RPCConfig::try_load(&text).is_ok() {
            accepted += 1;
        }
    }
    assert!(accepted > 0);
}

#[test]
fn handle_error_creates_the_file_only_if_it_was_not_found() {
    assert_eq!(
        RPCConfig::handle_error("configuration file \"profiles.toml\" not found"),
        Recovery::CreateFile
    );
    assert_eq!(RPCConfig::handle_error("not found"), Recovery::CreateFile);
    assert_eq!(
        RPCConfig::handle_error("invalid TOML at line 1"),
        Recovery::Abort
    );
    assert_eq!(RPCConfig::handle_error("Not Found"), Recovery::Abort);
    assert_eq!(RPCConfig::handle_error(""), Recovery::Abort);
}

#[test]
fn is_it_missing_field_strips_the_words() {
    assert_eq!(
        RPCConfig::is_it_missing_field("missing field `client_id`"),
        Some("`client_id`".to_string())
    );
    assert_eq!(
        RPCConfig::is_it_missing_field("missing field `a` and missing field `b`"),
        Some("`a` and `b`".to_string())
    );
    assert_eq!(
        RPCConfig::is_it_missing_field("a missing field"),
        Some("a missing field".to_string())
    );
    assert_eq!(RPCConfig::is_it_missing_field("invalid type"), None);
    assert_eq!(RPCConfig::is_it_missing_field(""), None);
}

#[test]
fn can_i_proceed_is_true_for_every_answer_but_y() {
    assert!(!RPCConfig::can_i_proceed("y"));
    assert!(!RPCConfig::can_i_proceed("  y \r\n"));
    assert!(!RPCConfig::can_i_proceed("\u{2003}y\u{3000}"));
    assert!(RPCConfig::can_i_proceed("Y"));
    assert!(RPCConfig::can_i_proceed("yes"));
    assert!(RPCConfig::can_i_proceed("n"));
    assert!(RPCConfig::can_i_proceed(""));
    assert!(RPCConfig::can_i_proceed("y y"));
}

#[test]
fn select_by_number_counts_from_one() {
    let config = three();
    assert_eq!(config.select("1"), Some(Selection::ByNumber(0)));
    assert_eq!(config.select("2\n"), Some(Selection::ByNumber(1)));
    assert_eq!(config.select(" 3 "), Some(Selection::ByNumber(2)));
    assert_eq!(config.select("+2"), Some(Selection::ByNumber(1)));
    assert_eq!(config.select("003"), Some(Selection::ByNumber(2)));
    assert_eq!(Selection::ByNumber(2).position(), 2);
    assert_eq!(Selection::ByName(5).position(), 5);
}

#[test]
fn select_by_name_where_no_number_fits() {
    let config = three();
    assert_eq!(config.select("alpha"), Some(Selection::ByName(0)));
    assert_eq!(config.select("  beta\n"), Some(Selection::ByName(1)));
    assert_eq!(config.select("7"), Some(Selection::ByName(2)));
    assert_eq!(config.select("0"), None);
    assert_eq!(config.select("4"), None);
    assert_eq!(config.select("-1"), None);
    assert_eq!(config.select("+"), None);
    assert_eq!(config.select(""), None);
    assert_eq!(config.select("gamma"), None);
    assert_eq!(config.select("1 "), Some(Selection::ByNumber(0)));
    assert_eq!(config.select("1x"), None);
    assert_eq!(config.select("99999999999999999999999999999999"), None);
    assert_eq!(config.select("Alpha"), None);
}

#[test]
fn select_prefers_the_number_to_the_name() {
    let config = RPCConfig {
        profiles: vec![
            ("2".to_string(), profile("a")),
            ("other".to_string(), profile("b")),
        ],
    };
    assert_eq!(config.select("2"), Some(Selection::ByNumber(1)));
    assert_eq!(config.select("1"), Some(Selection::ByNumber(0)));
}

#[test]
fn select_in_an_empty_config_finds_nothing() {
    let config = RPCConfig {
        profiles: Vec::new(),
    };
    assert_eq!(config.select("1"), None);
    assert_eq!(config.select("demo"), None);
}

#[test]
fn position_is_the_first_with_the_name() {
    let config = three();
    assert_eq!(config.position("alpha"), Some(0));
    assert_eq!(config.position("7"), Some(2));
    assert_eq!(config.position("none"), None);
    assert_eq!(config.position(" alpha"), None);
}

#[test]
fn insert_replaces_or_appends() {
    let mut config = three();
    config.insert("beta".to_string(), profile("changed"));
    assert_eq!(config.profiles.len(), 3);
    assert_eq!(config.profiles[1], ("beta".to_string(), profile("changed")));
    assert_eq!(config.profiles[0], ("alpha".to_string(), profile("1")));
    config.insert("delta".to_string(), profile("4"));
    assert_eq!(config.profiles.len(), 4);
    assert_eq!(config.profiles[3], ("delta".to_string(), profile("4")));
    assert_eq!(config.position("delta"), Some(3));
}
