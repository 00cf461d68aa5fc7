use touring::discovery::{
    after_load_attempt, discover_plugins, load_precheck, str_lt, ArtifactSet, LoadStep, PluginArtifacts,
    PluginRegistry,
};
use touring::caps::{kind_eq, needs_capabilities_fetch, routable, supports_media};
use touring::errors::{settle_reply, CoreError, ReplyWait};
use touring::model::{MediaType, ProviderCapabilities};
use touring::policy::{
    after_attempt, call_deadline, idle_deadline, is_slow, throttle_wait, PluginConfig, RetryStep,
};

fn listing(names: &[&str]) -> Vec<String> {
    names.iter().map(|s| s.to_string()).collect()
}

#[test]
fn configless_plugin_is_not_listed() {
    let files = listing(&["p2.wasm", "p1.wasm", "p1.toml"]);
    let reg = PluginRegistry::from_listing(&files, true);
    assert_eq!(reg.list_plugins(), vec!["p1".to_string()]);
    assert!(reg.position_of("p2").is_none());
    assert_eq!(reg.position_of("p1"), Some(0));
}

#[test]
fn discovery_sorts_and_chooses_artifacts() {
    let files = listing(&[
        "zeta.cwasm", "zeta.toml", "alpha.wasm", "alpha.cwasm", "alpha.toml", "notes.md",
        "beta.toml", ".wasm", "mid.wasm", "mid.toml", "mid.wasm.bak",
    ]);
    let found = discover_plugins(&files, true);
    let names: Vec<&str> = found.iter().map(|e| e.name.as_str()).collect();
    assert_eq!(names, vec!["alpha", "mid", "zeta"]);
    assert_eq!(found[0].artifacts.primary, "alpha.cwasm");
    assert_eq!(found[0].artifacts.fallback.as_deref(), Some("alpha.wasm"));
    assert_eq!(found[1].artifacts.primary, "mid.wasm");
    assert_eq!(found[1].artifacts.fallback, None);
    assert_eq!(found[2].artifacts.primary, "zeta.cwasm");

    let portable_first = discover_plugins(&files, false);
    assert_eq!(portable_first[0].artifacts.primary, "alpha.wasm");
    assert_eq!(portable_first[0].artifacts.fallback.as_deref(), Some("alpha.cwasm"));
}

#[test]
fn empty_listing_registers_nothing() {
    assert!(discover_plugins(&Vec::new(), true).is_empty());
}

#[test]
fn artifact_choice() {
    let both = ArtifactSet { wasm: Some("a.wasm".into()), cwasm: Some("a.cwasm".into()) };
    let a = both.clone().into_artifacts(true).unwrap();
    assert_eq!((a.primary.as_str(), a.fallback.as_deref()), ("a.cwasm", Some("a.wasm")));
    let b = both.into_artifacts(false).unwrap();
    assert_eq!((b.primary.as_str(), b.fallback.as_deref()), ("a.wasm", Some("a.cwasm")));
    assert!(ArtifactSet::default().into_artifacts(true).is_none());
}

#[test]
fn name_order() {
    assert!(str_lt("alpha", "beta"));
    assert!(str_lt("ab", "abc"));
    assert!(!str_lt("abc", "abc"));
    assert!(str_lt("B", "a"));
}

#[test]
fn config_defaults_and_overrides() {
    let none = PluginConfig { allowed_hosts: None, rate_limit_ms: None, call_timeout_ms: None };
    assert_eq!(none.rate_limit(), 150);
    assert_eq!(none.call_timeout(), 15000);
    assert!(none.allowed_hosts_normalized().is_none());
    let set = PluginConfig {
        allowed_hosts: Some(vec![" Example.COM ".into(), "   ".into(), "*.CDN.net".into()]),
        rate_limit_ms: Some(0),
        call_timeout_ms: Some(50),
    };
    assert_eq!(set.rate_limit(), 0);
    assert_eq!(set.call_timeout(), 50);
    assert_eq!(
        set.allowed_hosts_normalized().unwrap(),
        vec!["example.com".to_string(), "*.cdn.net".to_string()]
    );
}

#[test]
fn deadlines_round_up_to_ticks() {
    assert_eq!(call_deadline(7, 15000, 10), 1507);
    assert_eq!(call_deadline(1, 50, 10), 6);
    assert_eq!(call_deadline(1, 55, 10), 7);
    assert_eq!(call_deadline(1, 3, 0), 4);
    assert_eq!(call_deadline(u64::MAX - 1, 100, 10), u64::MAX);
    assert_eq!(idle_deadline(5), 1_000_000_005);
    assert_eq!(idle_deadline(u64::MAX), u64::MAX);
}

#[test]
fn throttle_and_slow_calls() {
    assert_eq!(throttle_wait(None, 150), 0);
    assert_eq!(throttle_wait(Some(100), 150), 50);
    assert_eq!(throttle_wait(Some(150), 150), 0);
    assert_eq!(throttle_wait(Some(400), 150), 0);
    assert!(!is_slow(5000));
    assert!(is_slow(5001));
}

#[test]
fn retry_exactly_once() {
    assert_eq!(after_attempt(0, true), RetryStep::Done);
    assert_eq!(after_attempt(0, false), RetryStep::RetryAfter(200));
    assert_eq!(after_attempt(1, false), RetryStep::GiveUp);
    assert_eq!(after_attempt(1, true), RetryStep::Done);
}

#[test]
fn reply_outcomes() {
    assert_eq!(settle_reply(ReplyWait::Replied(Ok(3u32))).unwrap(), 3);
    match settle_reply::<u32>(ReplyWait::Elapsed) {
        Err(CoreError::Timeout) => {}
        other => panic!("unexpected {:?}", other),
    }
    match settle_reply::<u32>(ReplyWait::Dropped) {
        Err(CoreError::Channel) => {}
        other => panic!("unexpected {:?}", other),
    }
    match settle_reply::<u32>(ReplyWait::Replied(Err("trap".to_string()))) {
        Err(CoreError::PluginCall(m)) => assert_eq!(m, "trap"),
        other => panic!("unexpected {:?}", other),
    }
    assert_eq!(CoreError::Timeout.kind_name(), "TimeoutError");
    assert_eq!(CoreError::NotFound("s1".into()).kind_name(), "NotFound");
    assert_eq!(CoreError::PluginLoad("x".into()).kind_name(), "PluginLoadError");
    assert_eq!(CoreError::Storage("x".into()).kind_name(), "StorageError");
    assert_eq!(CoreError::DeadlineExceeded.kind_name(), "DeadlineExceeded");
}

#[test]
fn loading_falls_back_once() {
    let with_fb = PluginArtifacts { primary: "p.cwasm".into(), fallback: Some("p.wasm".into()) };
    assert!(matches!(after_load_attempt(&with_fb, false, true), LoadStep::Ready));
    match after_load_attempt(&with_fb, false, false) {
        LoadStep::TryFallback(p) => assert_eq!(p, "p.wasm"),
        other => panic!("unexpected {:?}", other),
    }
    assert!(matches!(after_load_attempt(&with_fb, true, false), LoadStep::Failed));
    assert!(matches!(after_load_attempt(&with_fb, true, true), LoadStep::Ready));
    let alone = PluginArtifacts { primary: "p.wasm".into(), fallback: None };
    assert!(matches!(after_load_attempt(&alone, false, false), LoadStep::Failed));
}

#[test]
fn timeout_scenario() {
    // A 50 ms call timeout on a 10 ms epoch tick arms a deadline 5 ticks ahead.
    assert_eq!(call_deadline(100, 50, 10), 105);
    // A reply that has not come by then is reported as a timeout.
    match settle_reply::<Vec<String>>(ReplyWait::Elapsed) {
        Err(e) => assert_eq!(e.kind_name(), "TimeoutError"),
        Ok(_) => panic!("a late reply must not be reported as a result"),
    }
}

#[test]
fn loading_needs_artifact_and_config() {
    assert!(load_precheck("p/a.wasm", true, "p/a.toml", true).is_ok());
    match load_precheck("p/a.wasm", false, "p/a.toml", true) {
        Err(CoreError::PluginLoad(m)) => assert_eq!(m, "plugin artifact missing: p/a.wasm"),
        other => panic!("unexpected {:?}", other),
    }
    match load_precheck("p/a.wasm", true, "p/a.toml", false) {
        Err(CoreError::PluginLoad(m)) => assert_eq!(m, "missing plugin config: p/a.toml"),
        other => panic!("unexpected {:?}", other),
    }
}

#[test]
fn capabilities_route_requests() {
    let manga_only = ProviderCapabilities { media_types: vec![MediaType::Manga], unit_kinds: vec![], asset_kinds: vec![] };
    let both = ProviderCapabilities {
        media_types: vec![MediaType::Anime, MediaType::Other("novel".into()), MediaType::Manga],
        unit_kinds: vec![],
        asset_kinds: vec![],
    };
    assert!(supports_media(&manga_only, &MediaType::Manga));
    assert!(!supports_media(&manga_only, &MediaType::Anime));
    assert!(supports_media(&both, &MediaType::Other("novel".into())));
    assert!(!kind_eq(&MediaType::Other("a".into()), &MediaType::Other("b".into())));
    let table = vec![("p1".to_string(), manga_only.clone()), ("p2".to_string(), both)];
    assert_eq!(routable(&table, &MediaType::Anime), vec!["p2".to_string()]);
    assert_eq!(routable(&table, &MediaType::Manga), vec!["p1".to_string(), "p2".to_string()]);
    assert!(needs_capabilities_fetch(&None, false));
    assert!(!needs_capabilities_fetch(&Some(manga_only.clone()), false));
    assert!(needs_capabilities_fetch(&Some(manga_only), true));
}
