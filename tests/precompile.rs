use touring::precompile::{config_sibling, resolve_config_path, resolve_output_path, OptChoice};

#[test]
fn output_path_defaults_to_cwasm() {
    let input = String::from("/tmp/foo/bar.wasm");
    let out = resolve_output_path(&input, None).unwrap();
    assert_eq!(out, String::from("/tmp/foo/bar.cwasm"));
}

#[test]
fn output_path_respects_override() {
    let input = String::from("/tmp/foo/bar.wasm");
    let override_path = String::from("/other/out.cwasm");
    let out = resolve_output_path(&input, Some(override_path.clone())).unwrap();
    assert_eq!(out, override_path);
}

#[test]
fn config_path_handles_missing_file() {
    let input = String::from("plugin.wasm");
    assert!(resolve_config_path(&input, None, false).is_none());
}

#[test]
fn config_path_uses_override() {
    let input = String::from("/tmp/foo/bar.wasm");
    let override_path = String::from("/cfg/custom.toml");
    let resolved = resolve_config_path(&input, Some(&override_path), false).unwrap();
    assert_eq!(resolved, override_path);
}

#[test]
fn config_path_uses_existing_sibling() {
    let resolved = resolve_config_path("/tmp/foo/bar.wasm", None, true).unwrap();
    assert_eq!(resolved, "/tmp/foo/bar.toml");
    assert_eq!(config_sibling("/tmp/foo/bar.wasm"), "/tmp/foo/bar.toml");
}

#[test]
fn opt_level_names() {
    assert_eq!(OptChoice::parse("Speed").unwrap(), OptChoice::Speed);
    assert_eq!(OptChoice::parse("fast").unwrap(), OptChoice::Speed);
    assert_eq!(OptChoice::parse("BALANCED").unwrap(), OptChoice::SpeedAndSize);
    assert_eq!(OptChoice::parse("s").unwrap(), OptChoice::SpeedAndSize);
    assert_eq!(OptChoice::parse("0").unwrap(), OptChoice::Unoptimized);
    assert_eq!(OptChoice::parse("none").unwrap(), OptChoice::Unoptimized);
    let err = OptChoice::parse("Turbo").unwrap_err();
    assert_eq!(err, "unknown opt-level `turbo` (expected speed, speed_and_size, none)");
}
