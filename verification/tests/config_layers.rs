use netlab_server::config::{
    env_override_path, insert_at_path, merge_config, parse_env_scalar, parse_i64, ConfigEntry,
    ConfigValue, EnvScalar,
};

fn leaf(h: u64) -> ConfigValue {
    ConfigValue::Leaf(h)
}

fn table(entries: Vec<(&str, ConfigValue)>) -> ConfigValue {
    ConfigValue::Table(
        entries.into_iter().map(|(k, v)| ConfigEntry { key: k.to_string(), value: v }).collect(),
    )
}

/// The value stored at `path`, following tables.
fn get<'a>(v: &'a ConfigValue, path: &[&str]) -> Option<&'a ConfigValue> {
    if path.is_empty() {
        return Some(v);
    }
    match v {
        ConfigValue::Table(es) => es.iter().find(|e| e.key == path[0]).and_then(|e| get(&e.value, &path[1..])),
        ConfigValue::Leaf(_) => None,
    }
}

fn leaf_at(v: &ConfigValue, path: &[&str]) -> Option<u64> {
    match get(v, path) {
        Some(ConfigValue::Leaf(h)) => Some(*h),
        _ => None,
    }
}

fn keys(v: &ConfigValue) -> Vec<String> {
    match v {
        ConfigValue::Table(es) => {
            let mut k: Vec<String> = es.iter().map(|e| e.key.clone()).collect();
            k.sort();
            k
        }
        ConfigValue::Leaf(_) => vec![],
    }
}

fn defaults() -> ConfigValue {
    table(vec![
        ("server", table(vec![("host", leaf(1)), ("port", leaf(2))])),
        ("port", table(vec![("start", leaf(3)), ("end", leaf(4))])),
        ("metrics", table(vec![("enabled", leaf(5)), ("port", leaf(6))])),
    ])
}

#[test]
fn merge_overlay_leaf_wins_and_base_keys_survive() {
    let mut base = defaults();
    let overlay = table(vec![("server", table(vec![("port", leaf(20))]))]);
    merge_config(&mut base, overlay);
    assert_eq!(leaf_at(&base, &["server", "port"]), Some(20));
    assert_eq!(leaf_at(&base, &["server", "host"]), Some(1));
    assert_eq!(leaf_at(&base, &["port", "start"]), Some(3));
    assert_eq!(leaf_at(&base, &["metrics", "enabled"]), Some(5));
    assert!(base.is_well_keyed());
}

#[test]
fn merge_adds_new_keys_and_tables() {
    let mut base = defaults();
    let overlay = table(vec![
        ("ssl", table(vec![("cert_path", leaf(30))])),
        ("server", table(vec![("extra", leaf(31))])),
    ]);
    merge_config(&mut base, overlay);
    assert_eq!(keys(&base), vec!["metrics", "port", "server", "ssl"]);
    assert_eq!(leaf_at(&base, &["ssl", "cert_path"]), Some(30));
    assert_eq!(keys(get(&base, &["server"]).unwrap()), vec!["extra", "host", "port"]);
}

#[test]
fn merge_leaf_over_table_replaces_it() {
    let mut base = defaults();
    merge_config(&mut base, table(vec![("port", leaf(40))]));
    assert_eq!(leaf_at(&base, &["port"]), Some(40));
    let mut base = defaults();
    merge_config(&mut base, table(vec![("server", table(vec![("port", table(vec![("x", leaf(41))]))]))]));
    assert_eq!(leaf_at(&base, &["server", "port", "x"]), Some(41));
}

#[test]
fn merge_non_table_overlay_replaces_base() {
    let mut base = defaults();
    merge_config(&mut base, leaf(50));
    assert_eq!(leaf_at(&base, &[]), Some(50));
    let mut base = leaf(1);
    merge_config(&mut base, table(vec![("a", leaf(2))]));
    assert_eq!(leaf_at(&base, &["a"]), Some(2));
}

#[test]
fn insert_at_path_overrides_nested_key() {
    let mut v = defaults();
    let path = vec!["server".to_string(), "port".to_string()];
    insert_at_path(&mut v, &path, leaf(60));
    assert_eq!(leaf_at(&v, &["server", "port"]), Some(60));
    assert_eq!(leaf_at(&v, &["server", "host"]), Some(1));
    assert_eq!(keys(get(&v, &["server"]).unwrap()), vec!["host", "port"]);
}

#[test]
fn insert_at_path_creates_missing_tables_and_replaces_leaves() {
    let mut v = defaults();
    let path = vec!["a".to_string(), "b".to_string(), "c".to_string()];
    insert_at_path(&mut v, &path, leaf(70));
    assert_eq!(leaf_at(&v, &["a", "b", "c"]), Some(70));
    let path = vec!["server".to_string(), "port".to_string(), "inner".to_string()];
    insert_at_path(&mut v, &path, leaf(71));
    assert_eq!(leaf_at(&v, &["server", "port", "inner"]), Some(71));
    assert!(v.is_well_keyed());
}

#[test]
fn insert_at_path_empty_path_or_leaf_root_is_noop() {
    let mut v = defaults();
    insert_at_path(&mut v, &[], leaf(80));
    assert_eq!(keys(&v), vec!["metrics", "port", "server"]);
    let mut l = leaf(3);
    insert_at_path(&mut l, &["x".to_string()], leaf(81));
    assert_eq!(leaf_at(&l, &[]), Some(3));
}

#[test]
fn env_override_path_splits_and_lowercases() {
    assert_eq!(
        env_override_path("NETLAB_SERVER__PORT"),
        Some(vec!["server".to_string(), "port".to_string()])
    );
    assert_eq!(
        env_override_path("NETLAB_METRICS__ENABLED"),
        Some(vec!["metrics".to_string(), "enabled".to_string()])
    );
    assert_eq!(env_override_path("NETLAB_APP"), Some(vec!["app".to_string()]));
    assert_eq!(env_override_path("NETLAB_"), Some(vec!["".to_string()]));
    assert_eq!(
        env_override_path("NETLAB_A___B"),
        Some(vec!["a".to_string(), "_b".to_string()])
    );
    assert_eq!(env_override_path("PATH"), None);
    assert_eq!(env_override_path("netlab_server__port"), None);
}

#[test]
fn env_override_wins_over_file_and_defaults() {
    let mut v = defaults();
    merge_config(&mut v, table(vec![("server", table(vec![("port", leaf(90))]))]));
    let path = env_override_path("NETLAB_SERVER__PORT").unwrap();
    insert_at_path(&mut v, &path, leaf(91));
    assert_eq!(leaf_at(&v, &["server", "port"]), Some(91));
    assert_eq!(leaf_at(&v, &["server", "host"]), Some(1));
}

#[test]
fn parse_i64_matches_std() {
    for s in [
        "0", "42", "-42", "+7", "007", "9223372036854775807", "-9223372036854775808",
        "9223372036854775808", "-9223372036854775809", "", "-", "+", "1a", " 1", "+-1",
        "99999999999999999999999",
    ] {
        assert_eq!(parse_i64(s), s.parse::<i64>().ok(), "input {s:?}");
    }
}

#[test]
fn parse_env_scalar_reads_bool_int_then_text() {
    assert_eq!(parse_env_scalar("true"), EnvScalar::Boolean(true));
    assert_eq!(parse_env_scalar("TRUE"), EnvScalar::Boolean(true));
    assert_eq!(parse_env_scalar("False"), EnvScalar::Boolean(false));
    assert_eq!(parse_env_scalar("9073"), EnvScalar::Integer(9073));
    assert_eq!(parse_env_scalar("-1"), EnvScalar::Integer(-1));
    assert_eq!(parse_env_scalar("1.5"), EnvScalar::Text("1.5".to_string()));
    assert_eq!(parse_env_scalar("0.0.0.0"), EnvScalar::Text("0.0.0.0".to_string()));
    assert_eq!(parse_env_scalar(""), EnvScalar::Text(String::new()));
}

#[test]
fn well_keyed_detects_duplicate_keys() {
    assert!(defaults().is_well_keyed());
    assert!(!table(vec![("a", leaf(1)), ("a", leaf(2))]).is_well_keyed());
    assert!(!table(vec![("t", table(vec![("x", leaf(1)), ("x", leaf(1))]))]).is_well_keyed());
}

#[test]
fn parse_config_text_builds_tree_and_leaves() {
    let mut leaves: Vec<toml::Value> = Vec::new();
    let t = netlab_server::config::parse_config_text(
        "[server]\nhost = \"127.0.0.1\"\nport = 9073\n[metrics]\nenabled = true\n",
        &mut leaves,
    )
    .expect("parses");
    assert!(t.is_well_keyed());
    assert_eq!(keys(&t), vec!["metrics", "server"]);
    let h = leaf_at(&t, &["server", "port"]).expect("leaf");
    assert_eq!(leaves[h as usize], toml::Value::Integer(9073));
    let h = leaf_at(&t, &["metrics", "enabled"]).expect("leaf");
    assert_eq!(leaves[h as usize], toml::Value::Boolean(true));
    let before = leaves.len();
    assert!(netlab_server::config::parse_config_text("[server\n", &mut leaves).is_err());
    assert!(netlab_server::config::parse_config_text("a = 1\na = 2\n", &mut leaves).is_err());
    assert_eq!(leaves.len(), before);
}

#[test]
fn parse_config_text_keeps_deep_nesting() {
    let path: Vec<String> = (0..60).map(|i| format!("k{i}")).collect();
    let text = format!("{} = 7\n", path.join("."));
    let mut leaves: Vec<toml::Value> = Vec::new();
    let t = netlab_server::config::parse_config_text(&text, &mut leaves).expect("parses");
    let refs: Vec<&str> = path.iter().map(|s| s.as_str()).collect();
    let h = leaf_at(&t, &refs).expect("leaf at the full path");
    assert_eq!(leaves[h as usize], toml::Value::Integer(7));
    assert_eq!(leaves.len(), 1);
}
