//! Tests of akey's library layer: CLI parsing, WIF profile JSON round-trips
//! and env injection, the status/precedence engine, and the store
//! operations driven against an in-memory vault.

use akey::cli::{parse, Command};
use akey::status;
use akey::store::{clean_secret_input, Listing, Resolved, StoreError, WifProfile, WIF_ENV};
use akey::vault::{
    DefaultWait, HelperWait, KeyStored, ListWait, RemoveWait, ResolveWait, SetDefaultWait, Step, StoreKeyWait,
    VaultOp, VaultReply,
};
use akey::commands::{rm_report, set_report, use_report, wif_set_report};
use std::collections::BTreeMap;

fn args(s: &[&str]) -> Vec<String> {
    s.iter().map(|x| x.to_string()).collect()
}

fn profile() -> WifProfile {
    WifProfile {
        rule: "fdrl_abc".into(),
        org: "00000000-0000-0000-0000-000000000000".into(),
        svc: "svac_xyz".into(),
        workspace: Some("wrkspc_1".into()),
        token_file: "/var/run/secrets/anthropic.com/token".into(),
    }
}

// --- an in-memory vault ------------------------------------------------------

/// A vault held in memory: entry name -> stored bytes.
fn answer(vault: &mut BTreeMap<String, Vec<u8>>, op: VaultOp) -> VaultReply {
    match op {
        VaultOp::Get { entry } => VaultReply::Value(vault.get(&entry).cloned()),
        VaultOp::Put { entry, value } => {
            vault.insert(entry, value);
            VaultReply::Stored
        }
        VaultOp::Delete { entry } => VaultReply::Deleted(vault.remove(&entry).is_some()),
        VaultOp::List => VaultReply::Names(vault.keys().cloned().collect()),
    }
}

fn drive<S, T>(
    vault: &mut BTreeMap<String, Vec<u8>>,
    mut step: Step<S, T>,
    resume: fn(S, VaultReply) -> Step<S, T>,
) -> T {
    loop {
        match step {
            Step::Ask(op, state) => {
                let reply = answer(vault, op);
                step = resume(state, reply);
            }
            Step::Done(out) => return out,
        }
    }
}

fn resolve_in(vault: &mut BTreeMap<String, Vec<u8>>, target: &str) -> Result<Option<Resolved>, StoreError> {
    drive(vault, akey::store::resolve(target), ResolveWait::resume)
}

fn store_key(vault: &mut BTreeMap<String, Vec<u8>>, name: &str, secret: &[u8]) {
    let op = akey::store::set_key(name, secret);
    answer(vault, op);
}

fn store_wif(vault: &mut BTreeMap<String, Vec<u8>>, name: &str, p: &WifProfile) {
    let op = akey::store::set_wif(name, p);
    answer(vault, op);
}

fn remove_in(vault: &mut BTreeMap<String, Vec<u8>>, name: &str) -> bool {
    drive(vault, akey::store::remove(name), RemoveWait::resume)
}

fn resolve_env(vault: &mut BTreeMap<String, Vec<u8>>, target: &str) -> Result<Vec<(String, String)>, StoreError> {
    let found = resolve_in(vault, target)?;
    akey::resolve(target, found)
}

// --- CLI parsing -----------------------------------------------------------

#[test]
fn parse_basic_commands() {
    assert_eq!(parse(&args(&[])).unwrap(), Command::Help);
    assert_eq!(parse(&args(&["help"])).unwrap(), Command::Help);
    assert_eq!(
        parse(&args(&["set", "work"])).unwrap(),
        Command::SetKey {
            name: "work".into()
        }
    );
    assert_eq!(parse(&args(&["ls"])).unwrap(), Command::Ls);
    assert_eq!(
        parse(&args(&["rm", "old"])).unwrap(),
        Command::Rm { name: "old".into() }
    );
    assert_eq!(
        parse(&args(&["use", "wif:prod"])).unwrap(),
        Command::Use {
            name: "wif:prod".into()
        }
    );
    assert_eq!(
        parse(&args(&["helper"])).unwrap(),
        Command::Helper { name: None }
    );
    assert_eq!(
        parse(&args(&["helper", "work"])).unwrap(),
        Command::Helper {
            name: Some("work".into())
        }
    );
    assert_eq!(parse(&args(&["status"])).unwrap(), Command::Status);
}

#[test]
fn parse_run_requires_separator_and_command() {
    assert_eq!(
        parse(&args(&["run", "work", "--", "agent", "-p", "hi"])).unwrap(),
        Command::Run {
            target: "work".into(),
            cmd: args(&["agent", "-p", "hi"]),
        }
    );
    assert!(parse(&args(&["run", "work"])).is_err());
    assert!(parse(&args(&["run", "work", "--"])).is_err());
    assert!(parse(&args(&["run", "--", "cmd"])).is_err());
}

#[test]
fn parse_wif_set() {
    let cmd = parse(&args(&[
        "wif",
        "set",
        "prod",
        "--rule",
        "fdrl_abc",
        "--org",
        "00000000-0000-0000-0000-000000000000",
        "--svc",
        "svac_xyz",
        "--workspace",
        "wrkspc_1",
        "--token-file",
        "/var/run/secrets/anthropic.com/token",
    ]))
    .unwrap();
    assert_eq!(
        cmd,
        Command::WifSet {
            name: "prod".into(),
            profile: profile()
        }
    );
    // required flags enforced
    assert!(parse(&args(&["wif", "set", "p", "--rule", "r"])).is_err());
    assert!(parse(&args(&["wif", "set", "--rule", "r"])).is_err());
    assert!(parse(&args(&["wif", "list"])).is_err());
}

#[test]
fn unknown_command_shows_usage() {
    let err = parse(&args(&["frobnicate"])).unwrap_err();
    assert!(err.contains("unknown command"));
    assert!(err.contains("akey set <name>"));
}

#[test]
fn parse_error_messages_are_exact() {
    assert_eq!(
        parse(&args(&["frobnicate"])).unwrap_err(),
        format!("unknown command \"frobnicate\"\n\n{}", akey::cli::USAGE)
    );
    assert_eq!(parse(&args(&["rm"])).unwrap_err(), "usage: akey rm <name>");
    assert_eq!(parse(&args(&["use", "-x"])).unwrap_err(), "usage: akey use <name>");
    assert_eq!(
        parse(&args(&["helper", "a", "b"])).unwrap_err(),
        "usage: akey helper [<name>]"
    );
    assert_eq!(parse(&args(&["set"])).unwrap_err(), "usage: akey set <name>");
    assert_eq!(parse(&args(&["set", "a", "b"])).unwrap_err(), "usage: akey set <name>");
    assert_eq!(
        parse(&args(&["set", "--env", "HF_TOKEN"])).unwrap_err(),
        "akey set: unexpected flag \"--env\"\nusage: akey set <name>"
    );
    assert_eq!(
        parse(&args(&["wif", "set", "p", "--rule"])).unwrap_err(),
        "wif set: --rule needs a value"
    );
    assert_eq!(
        parse(&args(&["wif", "set", "p", "--colour", "red"])).unwrap_err(),
        "wif set: unknown flag \"--colour\""
    );
    assert_eq!(
        parse(&args(&["wif", "set", "p", "--rule", "r", "--org", "o", "--svc", "s"])).unwrap_err(),
        "wif set: --token-file is required"
    );
    assert_eq!(
        parse(&args(&["wif", "set"])).unwrap_err(),
        "wif set: profile name required"
    );
}

#[test]
fn parse_run_keeps_the_command_verbatim() {
    assert_eq!(
        parse(&args(&["run", "wif:prod", "--", "sh", "-c", "--", "x"])).unwrap(),
        Command::Run {
            target: "wif:prod".into(),
            cmd: args(&["sh", "-c", "--", "x"]),
        }
    );
    assert_eq!(parse(&args(&["-h"])).unwrap(), Command::Help);
    assert_eq!(parse(&args(&["--help", "x"])).unwrap(), Command::Help);
}

#[test]
fn parse_wif_set_last_flag_wins_and_workspace_is_optional() {
    let cmd = parse(&args(&[
        "wif", "set", "p", "--rule", "r1", "--org", "o", "--svc", "s", "--token-file", "t", "--rule", "r2",
    ]))
    .unwrap();
    assert_eq!(
        cmd,
        Command::WifSet {
            name: "p".into(),
            profile: WifProfile {
                rule: "r2".into(),
                org: "o".into(),
                svc: "s".into(),
                workspace: None,
                token_file: "t".into(),
            }
        }
    );
}

// --- WIF profiles ----------------------------------------------------------

#[test]
fn wif_profile_json_round_trip() {
    let p = profile();
    assert_eq!(WifProfile::from_json(&p.to_json()).unwrap(), p);
    let no_ws = WifProfile {
        workspace: None,
        ..profile()
    };
    assert_eq!(WifProfile::from_json(&no_ws.to_json()).unwrap(), no_ws);
    assert!(WifProfile::from_json("{}").is_none());
    assert!(WifProfile::from_json("not json").is_none());
}

#[test]
fn wif_profile_json_text_is_exact_and_escaped() {
    let p = WifProfile {
        rule: "r\"1\\".into(),
        org: "o\n".into(),
        svc: "s\u{1}".into(),
        workspace: None,
        token_file: "t é".into(),
    };
    assert_eq!(
        p.to_json(),
        "{\"rule\":\"r\\\"1\\\\\",\"org\":\"o\\n\",\"svc\":\"s\\u0001\",\"token_file\":\"t é\"}"
    );
    assert_eq!(WifProfile::from_json(&p.to_json()).unwrap(), p);
    assert_eq!(
        profile().to_json(),
        "{\"rule\":\"fdrl_abc\",\"org\":\"00000000-0000-0000-0000-000000000000\",\"svc\":\"svac_xyz\",\"token_file\":\"/var/run/secrets/anthropic.com/token\",\"workspace\":\"wrkspc_1\"}"
    );
}

#[test]
fn wif_profile_from_json_needs_string_fields() {
    assert!(WifProfile::from_json("[1, 2]").is_none());
    assert!(WifProfile::from_json(r#"{"rule":"r","org":"o","svc":"s","token_file":7}"#).is_none());
    let p = WifProfile::from_json(r#"{"token_file":"t","svc":"s","org":"o","rule":"r","workspace":null}"#)
        .unwrap();
    assert_eq!(p.workspace, None);
    assert_eq!(p.rule, "r");
    assert_eq!(p.token_file, "t");
}

#[test]
fn wif_env_pairs_are_the_documented_variables() {
    let pairs = profile().env_pairs();
    let keys: Vec<&str> = pairs.iter().map(|(k, _)| k.as_str()).collect();
    for var in WIF_ENV {
        assert!(keys.contains(&var), "missing {var}");
    }
    let no_ws = WifProfile {
        workspace: None,
        ..profile()
    };
    let keys: Vec<String> = no_ws.env_pairs().into_iter().map(|(k, _)| k).collect();
    assert!(!keys.contains(&"ANTHROPIC_WORKSPACE_ID".to_string()));
}

#[test]
fn wif_env_pairs_are_sorted_with_their_values() {
    let pairs = profile().env_pairs();
    let mut sorted = pairs.clone();
    sorted.sort();
    assert_eq!(pairs, sorted);
    assert_eq!(
        pairs,
        vec![
            ("ANTHROPIC_FEDERATION_RULE_ID".to_string(), "fdrl_abc".to_string()),
            (
                "ANTHROPIC_IDENTITY_TOKEN_FILE".to_string(),
                "/var/run/secrets/anthropic.com/token".to_string()
            ),
            (
                "ANTHROPIC_ORGANIZATION_ID".to_string(),
                "00000000-0000-0000-0000-000000000000".to_string()
            ),
            ("ANTHROPIC_SERVICE_ACCOUNT_ID".to_string(), "svac_xyz".to_string()),
            ("ANTHROPIC_WORKSPACE_ID".to_string(), "wrkspc_1".to_string()),
        ]
    );
}

#[test]
fn secret_input_is_cleaned_of_boms_and_whitespace() {
    // PowerShell 5.1 prepends U+FEFF when piping into a native program.
    assert_eq!(clean_secret_input("\u{feff}sk-abc\r\n"), "sk-abc");
    assert_eq!(clean_secret_input("  sk-abc \n"), "sk-abc");
    assert_eq!(clean_secret_input("\u{feff} \u{feff}sk-abc"), "sk-abc");
    assert_eq!(clean_secret_input("sk-abc"), "sk-abc");
    assert_eq!(clean_secret_input("\u{feff}\n"), "");
}

#[test]
fn cleaning_keeps_inner_text_and_drops_trailing_boms() {
    assert_eq!(clean_secret_input("\u{3000}sk a\u{a0}b\u{2028}"), "sk a\u{a0}b");
    assert_eq!(clean_secret_input("sk-abc\u{feff}"), "sk-abc");
    assert_eq!(clean_secret_input("sk-abc \u{feff}\n\u{feff}"), "sk-abc");
    assert_eq!(clean_secret_input("sk\u{feff}abc"), "sk\u{feff}abc");
    assert_eq!(clean_secret_input(""), "");
    let once = clean_secret_input(" \u{feff}\tsk-x \u{85}");
    assert_eq!(once, "sk-x");
    assert_eq!(clean_secret_input(once), once);
}

// --- status engine ---------------------------------------------------------

fn env_of(pairs: &[(&str, &str)]) -> Vec<(String, String)> {
    pairs
        .iter()
        .map(|(k, v)| (k.to_string(), v.to_string()))
        .collect()
}

fn joined(lines: &[String]) -> String {
    lines.join("\n")
}

#[test]
fn status_names_the_env_key_winner_and_the_shadowing_footgun() {
    let env = env_of(&[
        ("ANTHROPIC_API_KEY", "sk-ant-xxx"),
        ("ANTHROPIC_FEDERATION_RULE_ID", "fdrl_1"),
    ]);
    let text = joined(&status::report(&env, None));
    assert!(text.contains(">> 2."), "tier 2 should win:\n{text}");
    assert!(text.contains("silently shadows federation"), "{text}");
}

#[test]
fn status_recognizes_complete_federation() {
    let env = env_of(&[
        ("ANTHROPIC_FEDERATION_RULE_ID", "fdrl_1"),
        ("ANTHROPIC_ORGANIZATION_ID", "org"),
        ("ANTHROPIC_SERVICE_ACCOUNT_ID", "svac_1"),
        ("ANTHROPIC_IDENTITY_TOKEN_FILE", "/tok"),
    ]);
    let text = joined(&status::report(&env, None));
    assert!(text.contains(">> 4."), "federation should win:\n{text}");
    assert!(!text.contains("shadows"));
}

#[test]
fn status_flags_partial_federation() {
    let env = env_of(&[("ANTHROPIC_FEDERATION_RULE_ID", "fdrl_1")]);
    let text = joined(&status::report(&env, None));
    assert!(text.contains("partially configured"), "{text}");
    assert!(text.contains("ANTHROPIC_ORGANIZATION_ID"), "{text}");
    assert!(
        text.contains("no credentials in this environment"),
        "{text}"
    );
}

#[test]
fn status_reports_vault_contents() {
    let listing = Listing {
        keys: vec!["work".into()],
        wifs: vec!["prod".into()],
        default: Some("key.work".into()),
    };
    let text = joined(&status::report(&env_of(&[]), Some(&listing)));
    assert!(text.contains("1 key(s) [work]"), "{text}");
    assert!(text.contains("default = key.work"), "{text}");
}

#[test]
fn status_report_lines_are_exact() {
    let env = env_of(&[
        ("ANTHROPIC_PROFILE", "dev"),
        ("ANTHROPIC_AUTH_TOKEN", ""),
        ("ANTHROPIC_ORGANIZATION_ID", "org"),
    ]);
    let listing = Listing {
        keys: vec!["a".into(), "b".into()],
        wifs: vec![],
        default: None,
    };
    let lines = status::report(&env, Some(&listing));
    assert_eq!(
        lines,
        vec![
            "credential precedence in this environment (first hit wins):",
            "    1. constructor arguments (only visible inside an application)",
            "    2. ANTHROPIC_API_KEY unset / ANTHROPIC_AUTH_TOKEN unset",
            " >> 3. ANTHROPIC_PROFILE = \"dev\"",
            "    4. federation env (1/4 required vars set)",
            "    5. implicit active profile (if a profile file exists)",
            "",
            "!! federation is partially configured, missing: ANTHROPIC_FEDERATION_RULE_ID, ANTHROPIC_SERVICE_ACCOUNT_ID, ANTHROPIC_IDENTITY_TOKEN_FILE",
            "",
            "vault: 2 key(s) [a, b], 0 WIF profile(s) [], default = none",
            "   inject one with: akey run <name> -- <cmd>",
        ]
    );
}

#[test]
fn status_marks_later_hits_and_reports_no_platform_listing() {
    let env = env_of(&[
        ("ANTHROPIC_AUTH_TOKEN", "tok"),
        ("ANTHROPIC_PROFILE", "dev"),
        ("ANTHROPIC_FEDERATION_RULE_ID", "f"),
        ("ANTHROPIC_ORGANIZATION_ID", "o"),
        ("ANTHROPIC_SERVICE_ACCOUNT_ID", "s"),
        ("ANTHROPIC_IDENTITY_TOKEN_FILE", "t"),
    ]);
    let lines = status::report(&env, None);
    assert_eq!(lines[2], " >> 2. ANTHROPIC_API_KEY unset / ANTHROPIC_AUTH_TOKEN set");
    assert_eq!(lines[3], "  + 3. ANTHROPIC_PROFILE = \"dev\"");
    assert_eq!(lines[4], "  + 4. federation env (4/4 required vars set)");
    // Only ANTHROPIC_API_KEY (not the auth token) triggers the footgun warning.
    assert!(!joined(&lines).contains("shadows"));
    assert_eq!(lines.last().unwrap(), "vault: listing not supported on this platform");
    let nothing = status::report(&env_of(&[]), None);
    assert!(joined(&nothing).contains("no credentials in this environment."));
    assert!(!joined(&nothing).contains(">>"));
}

// --- the store, against an in-memory vault ----------------------------------

#[test]
fn store_round_trip_and_resolution() {
    let mut vault = BTreeMap::new();
    store_key(&mut vault, "k", b"sk-test-123");
    store_wif(&mut vault, "w", &profile());

    match resolve_in(&mut vault, "k").unwrap().unwrap() {
        Resolved::Key(s) => assert_eq!(s, b"sk-test-123"),
        other => panic!("expected key, got {other:?}"),
    }
    match resolve_in(&mut vault, "wif:w").unwrap().unwrap() {
        Resolved::Wif(p) => assert_eq!(p, profile()),
        other => panic!("expected wif, got {other:?}"),
    }
    assert!(resolve_in(&mut vault, "missing").unwrap().is_none());

    assert!(remove_in(&mut vault, "k"));
    assert!(remove_in(&mut vault, "w"));
    assert!(!remove_in(&mut vault, "k"));
}

#[test]
fn resolve_seam_maps_a_key_to_anthropic_api_key() {
    let mut vault = BTreeMap::new();
    store_key(&mut vault, "rk", b"sk-resolve-789");

    let pairs = resolve_env(&mut vault, "rk").unwrap();
    let names: Vec<&str> = pairs.iter().map(|(k, _)| k.as_str()).collect();
    assert_eq!(names, ["ANTHROPIC_API_KEY"]);
    assert_eq!(pairs[0].1, "sk-resolve-789");

    assert!(remove_in(&mut vault, "rk"));
}

#[test]
fn resolve_seam_maps_a_wif_to_the_five_federation_vars() {
    let mut vault = BTreeMap::new();
    store_wif(&mut vault, "rw", &profile());

    let pairs = resolve_env(&mut vault, "wif:rw").unwrap();
    let names: Vec<&str> = pairs.iter().map(|(k, _)| k.as_str()).collect();
    // profile() carries a workspace, so all five federation vars appear.
    for var in WIF_ENV {
        assert!(names.contains(&var), "missing {var} in {names:?}");
    }
    // The seam sets only the federation vars — never a static key.
    assert!(!names.contains(&"ANTHROPIC_API_KEY"));

    assert!(remove_in(&mut vault, "rw"));
}

#[test]
fn resolve_seam_reports_a_missing_target_as_not_found() {
    let mut vault = BTreeMap::new();
    let err = resolve_env(&mut vault, "rmissing").unwrap_err();
    assert_eq!(err, StoreError::NotFound { target: "rmissing".into() });
    assert_eq!(err.message(), "no key or WIF profile named \"rmissing\"");
}

#[test]
fn a_key_shadows_a_profile_of_the_same_name() {
    let mut vault = BTreeMap::new();
    store_wif(&mut vault, "both", &profile());
    match resolve_in(&mut vault, "both").unwrap().unwrap() {
        Resolved::Wif(p) => assert_eq!(p, profile()),
        other => panic!("expected wif, got {other:?}"),
    }
    store_key(&mut vault, "both", b"sk-1");
    match resolve_in(&mut vault, "both").unwrap().unwrap() {
        Resolved::Key(s) => assert_eq!(s, b"sk-1"),
        other => panic!("expected key, got {other:?}"),
    }
    match resolve_in(&mut vault, "wif:both").unwrap().unwrap() {
        Resolved::Wif(p) => assert_eq!(p, profile()),
        other => panic!("expected wif, got {other:?}"),
    }
}

#[test]
fn a_corrupt_profile_is_an_error() {
    let mut vault = BTreeMap::new();
    vault.insert("wif.bad".to_string(), b"{\"rule\":1}".to_vec());
    let err = resolve_in(&mut vault, "wif:bad").unwrap_err();
    assert_eq!(err, StoreError::CorruptProfile { name: "bad".into() });
    assert_eq!(err.message(), "stored WIF profile \"bad\" is corrupt");
}

#[test]
fn the_first_key_becomes_the_default_and_the_helper_returns_it() {
    let mut vault = BTreeMap::new();
    let out = drive(&mut vault, akey::store::store_key("work", "\u{feff}sk-work\r\n"), StoreKeyWait::resume);
    assert_eq!(out.unwrap(), KeyStored::StoredAsDefault);
    assert_eq!(vault.get("key.work").unwrap(), b"sk-work");
    assert_eq!(vault.get("default").unwrap(), b"key.work");

    let out = drive(&mut vault, akey::store::store_key("other", "sk-other"), StoreKeyWait::resume);
    assert_eq!(out.unwrap(), KeyStored::Stored);
    assert_eq!(vault.get("default").unwrap(), b"key.work");

    let out = drive(&mut vault, akey::store::store_key("empty", " \u{feff}\n"), StoreKeyWait::resume);
    assert_eq!(out.unwrap(), KeyStored::Empty);
    assert!(vault.get("key.empty").is_none());

    let secret = drive(&mut vault, akey::store::helper_secret(None), HelperWait::resume).unwrap();
    assert_eq!(secret.unwrap(), b"sk-work");
    let secret = drive(&mut vault, akey::store::helper_secret(Some("other")), HelperWait::resume).unwrap();
    assert_eq!(secret.unwrap(), b"sk-other");
    let secret = drive(&mut vault, akey::store::helper_secret(Some("nope")), HelperWait::resume).unwrap();
    assert!(secret.is_none());
}

#[test]
fn set_default_stores_the_canonical_entry() {
    let mut vault = BTreeMap::new();
    store_wif(&mut vault, "prod", &profile());
    drive(&mut vault, akey::store::set_default("wif:prod"), SetDefaultWait::resume).unwrap();
    assert_eq!(vault.get("default").unwrap(), b"wif.prod");
    // A WIF default cannot serve apiKeyHelper.
    let err = drive(&mut vault, akey::store::helper_secret(None), HelperWait::resume).unwrap_err();
    assert_eq!(err, StoreError::DefaultIsWif);
    assert!(err.message().starts_with("the default is a WIF profile"));

    let err = drive(&mut vault, akey::store::set_default("ghost"), SetDefaultWait::resume).unwrap_err();
    assert_eq!(err, StoreError::NotFound { target: "ghost".into() });
    assert_eq!(vault.get("default").unwrap(), b"wif.prod");

    let mut empty = BTreeMap::new();
    assert!(drive(&mut empty, akey::store::helper_secret(None), HelperWait::resume).unwrap().is_none());
}

#[test]
fn removing_the_default_clears_it() {
    let mut vault = BTreeMap::new();
    drive(&mut vault, akey::store::store_key("work", "sk-1"), StoreKeyWait::resume).unwrap();
    store_wif(&mut vault, "work", &profile());
    store_key(&mut vault, "keep", b"sk-2");
    assert!(remove_in(&mut vault, "wif:work"));
    assert!(vault.get("key.work").is_none());
    assert!(vault.get("wif.work").is_none());
    assert!(vault.get("default").is_none());
    assert_eq!(vault.get("key.keep").unwrap(), b"sk-2");
    assert!(resolve_in(&mut vault, "work").unwrap().is_none());
}

#[test]
fn listing_sorts_entries_into_keys_and_profiles() {
    let mut vault = BTreeMap::new();
    drive(&mut vault, akey::store::store_key("a", "sk-a"), StoreKeyWait::resume).unwrap();
    store_key(&mut vault, "b", b"sk-b");
    store_wif(&mut vault, "prod", &profile());
    let l = drive(&mut vault, akey::store::list(), ListWait::resume);
    assert_eq!(l.keys, vec!["a".to_string(), "b".to_string()]);
    assert_eq!(l.wifs, vec!["prod".to_string()]);
    assert_eq!(l.default.as_deref(), Some("key.a"));
    assert_eq!(
        akey::commands::ls_lines_of(&l),
        vec!["* key  a".to_string(), "  key  b".to_string(), "  wif  prod".to_string()]
    );
    assert!(!akey::commands::ls_is_empty(&l));
}

// --- run and the messages --------------------------------------------------

#[test]
fn run_clears_static_keys_only_for_profiles() {
    let wif_pairs = profile().env_pairs();
    assert_eq!(
        akey::commands::vars_to_clear(&wif_pairs),
        vec!["ANTHROPIC_API_KEY".to_string(), "ANTHROPIC_AUTH_TOKEN".to_string()]
    );
    let key_pairs = akey::resolve("k", Some(Resolved::Key(b"sk".to_vec()))).unwrap();
    assert!(akey::commands::vars_to_clear(&key_pairs).is_empty());
    assert_eq!(akey::commands::exit_status(Some(3)), 3);
    assert_eq!(akey::commands::exit_status(Some(-1)), 0);
    assert_eq!(akey::commands::exit_status(Some(300)), 255);
    assert_eq!(akey::commands::exit_status(None), 1);
}

#[test]
fn command_messages_quote_names() {
    assert_eq!(set_report("work", KeyStored::Stored).0, "stored \"work\" in the OS vault");
    assert_eq!(
        set_report("work", KeyStored::StoredAsDefault),
        ("stored \"work\" in the OS vault (and made it the default)".to_string(), true)
    );
    assert_eq!(set_report("work", KeyStored::Empty).1, false);
    assert_eq!(rm_report("old", false), ("akey: nothing named \"old\"".to_string(), false));
    assert_eq!(use_report("wif:prod"), "default is now \"wif:prod\"");
    assert_eq!(
        wif_set_report("prod"),
        "stored WIF profile \"prod\" (inject with: akey run wif:prod -- <cmd>)"
    );
    assert_eq!(
        akey::commands::run_missing_report("a\"b"),
        "akey: no key or WIF profile named \"a\\\"b\""
    );
}

#[test]
fn stored_keys_read_back_through_lossy_text() {
    // A key whose bytes are not UTF-8 is injected with U+FFFD in place of
    // the invalid bytes.
    let pairs = akey::resolve("k", Some(Resolved::Key(vec![b's', 0xff, b'k']))).unwrap();
    assert_eq!(pairs[0].1, "s\u{fffd}k");
}

#[test]
fn the_default_reads_back_the_stored_entry_name() {
    let mut vault = BTreeMap::new();
    assert_eq!(drive(&mut vault, akey::vault::default(), DefaultWait::resume), None);
    vault.insert("default".to_string(), b"wif.prod".to_vec());
    assert_eq!(
        drive(&mut vault, akey::vault::default(), DefaultWait::resume),
        Some("wif.prod".to_string())
    );
}

#[test]
fn a_stored_text_with_an_overlong_number_is_corrupt_and_never_parsed() {
    let mut vault = BTreeMap::new();
    // A number with more fraction digits than the parser's exponent can count.
    let text = format!("{{\"a\":0.{}}}", "0".repeat(40_000));
    vault.insert("wif.huge".to_string(), text.into_bytes());
    let err = resolve_in(&mut vault, "wif:huge").unwrap_err();
    assert_eq!(err, StoreError::CorruptProfile { name: "huge".into() });
}

#[test]
fn status_ignores_other_variables_and_empty_values() {
    let base = env_of(&[("ANTHROPIC_ORGANIZATION_ID", "org")]);
    let with_other = env_of(&[("ANTHROPIC_ORGANIZATION_ID", "org"), ("PATH", "/bin")]);
    let with_empty = env_of(&[("ANTHROPIC_ORGANIZATION_ID", "org"), ("ANTHROPIC_API_KEY", "")]);
    assert_eq!(status::report(&with_other, None), status::report(&base, None));
    assert_eq!(status::report(&with_empty, None), status::report(&base, None));
    let k1 = env_of(&[("ANTHROPIC_API_KEY", "sk-one")]);
    let k2 = env_of(&[("ANTHROPIC_API_KEY", "sk-two-different")]);
    assert_eq!(status::report(&k1, None), status::report(&k2, None));
}

#[test]
fn what_set_reports_does_not_depend_on_the_secret() {
    let mut a = BTreeMap::new();
    let mut b = BTreeMap::new();
    let oa = drive(&mut a, akey::store::store_key("work", "sk-first"), StoreKeyWait::resume).unwrap();
    let ob = drive(&mut b, akey::store::store_key("work", " sk-second-secret\n"), StoreKeyWait::resume).unwrap();
    assert_eq!(oa, ob);
    assert_eq!(set_report("work", oa), set_report("work", ob));
    assert_eq!(a.get("default"), b.get("default"));
    assert_eq!(a.get("key.work").unwrap(), b"sk-first");
    assert_eq!(b.get("key.work").unwrap(), b"sk-second-secret");
}

#[test]
fn a_long_profile_round_trips_through_json_and_the_vault() {
    let p = WifProfile {
        rule: "1".repeat(40_000),
        token_file: format!("/{}", "d".repeat(50_000)),
        ..profile()
    };
    let text = p.to_json();
    assert!(text.chars().count() > 90_000);
    assert_eq!(WifProfile::from_json(&text).unwrap(), p);
    let mut vault = BTreeMap::new();
    store_wif(&mut vault, "long", &p);
    match resolve_in(&mut vault, "wif:long").unwrap().unwrap() {
        Resolved::Wif(q) => assert_eq!(q, p),
        other => panic!("expected wif, got {other:?}"),
    }
    match resolve_in(&mut vault, "long").unwrap().unwrap() {
        Resolved::Wif(q) => assert_eq!(q, p),
        other => panic!("expected wif, got {other:?}"),
    }
}

#[test]
fn status_ignores_a_changed_other_variable_and_shows_an_empty_profile_only() {
    let a = env_of(&[("HOME", "/a"), ("ANTHROPIC_ORGANIZATION_ID", "org")]);
    let b = env_of(&[("TERM", "xterm"), ("ANTHROPIC_ORGANIZATION_ID", "org")]);
    assert_eq!(status::report(&a, None), status::report(&b, None));
    let without = status::report(&env_of(&[("ANTHROPIC_API_KEY", "sk")]), None);
    let with_empty =
        status::report(&env_of(&[("ANTHROPIC_API_KEY", "sk"), ("ANTHROPIC_PROFILE", "")]), None);
    assert_eq!(without.len(), with_empty.len());
    for i in 0..without.len() {
        if i == 3 {
            assert_eq!(without[i], "    3. ANTHROPIC_PROFILE unset");
            assert_eq!(with_empty[i], "    3. ANTHROPIC_PROFILE = \"\"");
        } else {
            assert_eq!(without[i], with_empty[i]);
        }
    }
}

#[test]
fn outcomes_do_not_depend_on_stored_secrets() {
    let mut a = BTreeMap::new();
    let mut b = BTreeMap::new();
    store_key(&mut a, "work", b"sk-aaa");
    store_key(&mut b, "work", b"sk-bbbbbbbb");
    let ra = resolve_in(&mut a, "work").unwrap();
    let rb = resolve_in(&mut b, "work").unwrap();
    assert!(matches!(ra, Some(Resolved::Key(_))) && matches!(rb, Some(Resolved::Key(_))));
    let la = drive(&mut a, akey::store::list(), ListWait::resume);
    let lb = drive(&mut b, akey::store::list(), ListWait::resume);
    assert_eq!((la.keys, la.wifs, la.default), (lb.keys, lb.wifs, lb.default));
    let da = drive(&mut a, akey::store::set_default("work"), SetDefaultWait::resume);
    let db = drive(&mut b, akey::store::set_default("work"), SetDefaultWait::resume);
    assert_eq!(da, db);
    assert_eq!(remove_in(&mut a, "work"), remove_in(&mut b, "work"));
}

#[test]
fn helper_output_and_run_failures() {
    assert_eq!(akey::commands::helper_output(Some(b"sk-x".to_vec())), Ok(b"sk-x\n".to_vec()));
    assert_eq!(
        akey::commands::helper_output(None),
        Err("akey: no default key set (akey set <name>, akey use <name>)".to_string())
    );
    assert_eq!(
        akey::commands::run_failure(&StoreError::NotFound { target: "nope".into() }),
        Some("akey: no key or WIF profile named \"nope\"".to_string())
    );
    assert_eq!(akey::commands::run_failure(&StoreError::DefaultIsWif), None);
}
