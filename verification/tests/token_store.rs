use vbumpp_core::token_file::{read_table, seal_table};
use vbumpp_core::cli::token::{
    list_filter, list_lines, remove_list_lines, remove_targets, remove_usage, removed_message, saved_message,
    scan_token_args, set_key, token_action, LineKind, RemoveTargets, TokenAction, remove_next, after_confirm, RemoveStep,
};
use vbumpp_core::token::{display_key, host_scoped_key, normalize_host, split_key, TokenError};
use vbumpp_core::token_blob::{decode_store, encode_store, key_from_bytes};
use vbumpp_core::token_store::{plan_remove, plan_save, RemoveOutcome, StrMap};

fn args(v: &[&str]) -> Vec<String> {
    v.iter().map(|s| s.to_string()).collect()
}

#[test]
fn hosts_are_canonical() {
    assert_eq!(normalize_host("  GitLab.Example.COM/group/ ").unwrap(), "https://gitlab.example.com/group");
    assert_eq!(normalize_host("HTTP://h.x//").unwrap(), "http://h.x");
    match normalize_host("ftp://h.x") {
        Err(TokenError::InvalidHost { message }) => assert_eq!(message, "unsupported host scheme: ftp (expected http or https)"),
        other => panic!("unexpected {:?}", other),
    }
    match normalize_host("   ") {
        Err(TokenError::InvalidHost { message }) => assert_eq!(message, "host must not be empty"),
        other => panic!("unexpected {:?}", other),
    }
    match normalize_host("https:///path") {
        Err(TokenError::InvalidHost { message }) => assert_eq!(message, "invalid host: https:///path (missing host name)"),
        other => panic!("unexpected {:?}", other),
    }
}

#[test]
fn normalizing_twice_changes_nothing() {
    let once = normalize_host("Git.Example.com/a/").unwrap();
    assert_eq!(normalize_host(&once).unwrap(), once);
}

#[test]
fn scoped_keys_split_back() {
    let key = host_scoped_key("gitlab", "git.example.com").unwrap();
    assert_eq!(key, "gitlab@https://git.example.com");
    assert_eq!(split_key(&key), ("gitlab".to_string(), Some("https://git.example.com".to_string())));
    assert_eq!(split_key("odd@key"), ("odd@key".to_string(), None));
    assert_eq!(display_key(&key), "gitlab (https://git.example.com)");
    assert_eq!(display_key("github"), "github");
}

#[test]
fn table_reads_back_what_was_written() {
    let mut m = StrMap::new();
    m.insert("github".to_string(), "a".to_string());
    m.insert("gitee".to_string(), "b".to_string());
    m.insert("github".to_string(), "c".to_string());
    assert_eq!(m.get("github"), Some("c".to_string()));
    assert_eq!(m.get("gitee"), Some("b".to_string()));
    assert_eq!(m.keys(), vec!["gitee".to_string(), "github".to_string()]);
    assert_eq!(m.remove("gitee"), Some("b".to_string()));
    assert!(!m.contains_key("gitee"));
}

#[test]
fn save_and_remove_decisions() {
    let saved = plan_save(None, "github".to_string(), "t".to_string());
    assert_eq!(saved.get("github"), Some("t".to_string()));
    assert!(matches!(plan_remove(StrMap::new(), "x"), RemoveOutcome::NotFound));
    assert!(matches!(plan_remove(saved, "github"), RemoveOutcome::DeleteStore));
    let mut two = StrMap::new();
    two.insert("a".to_string(), "1".to_string());
    two.insert("b".to_string(), "2".to_string());
    match plan_remove(two, "a") {
        RemoveOutcome::Rewrite(rest) => assert_eq!(rest.keys(), vec!["b".to_string()]),
        _ => panic!("expected a rewrite"),
    }
}

#[test]
fn store_blob_round_trips() {
    let key: Vec<u8> = (0u8..32).collect();
    let plain = b"{\"github\":\"secret\"}".to_vec();
    let blob = encode_store(&plain, &key);
    assert_eq!(&blob[0..5], b"VBTK\x01");
    assert_eq!(blob.len(), plain.len() + 33);
    assert_eq!(decode_store(&blob, &key).unwrap(), plain);
    let other: Vec<u8> = vec![7u8; 32];
    assert!(matches!(decode_store(&blob, &other), Err(TokenError::Crypto { .. })));
    assert!(matches!(decode_store(&b"nope".to_vec(), &key), Err(TokenError::Format { .. })));
}

#[test]
fn key_files_have_32_bytes() {
    assert_eq!(key_from_bytes(vec![1u8; 32], "key.bin").unwrap().len(), 32);
    assert!(matches!(key_from_bytes(vec![1u8; 5], "key.bin"), Err(TokenError::Format { .. })));
}

#[test]
fn token_actions() {
    assert_eq!(token_action(&args(&["set", "github"])), Ok(TokenAction::Save));
    assert_eq!(token_action(&args(&["remove"])), Ok(TokenAction::Remove));
    assert_eq!(
        token_action(&args(&[])),
        Err("usage: vbumpp token <action> [name] (action: set / list / remove)".to_string())
    );
    assert_eq!(token_action(&args(&["drop"])), Err("unknown action: drop (expected set / list / remove)".to_string()));
}

#[test]
fn token_flag_scan() {
    let scanned = scan_token_args(&args(&["gitlab", "--host", "g.x", "--yes"]), &["yes"], &["host"]).unwrap();
    assert_eq!(scanned.positionals, args(&["gitlab"]));
    assert_eq!(scanned.flags, args(&["yes"]));
    assert_eq!(scanned.values.get("host"), Some("g.x".to_string()));
    assert_eq!(set_key(&scanned), Ok("gitlab@https://g.x".to_string()));
    let eq = scan_token_args(&args(&["--host=g.y", "x"]), &[], &["host"]).unwrap();
    assert_eq!(eq.values.get("host"), Some("g.y".to_string()));
    assert!(scan_token_args(&args(&["--what"]), &[], &["host"]).is_err());
    let filter = list_filter(&eq).unwrap();
    assert_eq!(filter, Some("https://g.y".to_string()));
}

#[test]
fn list_and_remove_lines() {
    let mut tokens = StrMap::new();
    tokens.insert("github".to_string(), "a".to_string());
    tokens.insert("gitlab@https://g.x".to_string(), "b".to_string());
    let lines = list_lines(&tokens, &None);
    assert_eq!(
        lines,
        vec![
            (LineKind::Info, "github".to_string()),
            (LineKind::Info, "gitlab (https://g.x)".to_string()),
        ]
    );
    let filtered = list_lines(&tokens, &Some("https://other".to_string()));
    assert_eq!(filtered, vec![(LineKind::Warn, "no token found for host https://other".to_string())]);
    assert_eq!(list_lines(&StrMap::new(), &None), vec![(LineKind::Info, "no tokens configured".to_string())]);

    let all = scan_token_args(&args(&["gitlab", "--all"]), &["all", "yes", "dry-run"], &["host"]).unwrap();
    assert_eq!(remove_usage(&all), None);
    match remove_targets(&all, &tokens) {
        RemoveTargets::Remove(keys) => assert_eq!(keys, args(&["gitlab@https://g.x"])),
        _ => panic!("expected keys"),
    }
    let both = scan_token_args(&args(&["gitlab", "--all", "--host", "g.x"]), &["all"], &["host"]).unwrap();
    assert_eq!(remove_usage(&both), Some("options --host and --all cannot be used together".to_string()));
    let lines = remove_list_lines(&args(&["gitlab@https://g.x"]), true);
    assert_eq!(
        lines,
        vec![
            (LineKind::Info, "tokens to remove (dry run — no changes made):".to_string()),
            (LineKind::Info, "  gitlab (https://g.x)".to_string()),
        ]
    );
    assert_eq!(saved_message("gitlab (https://g.x)"), "gitlab (https://g.x) token saved (encrypted)");
    assert_eq!(removed_message("github"), "github token removed");
}

#[test]
fn store_file_tables_read_back() {
    let key: Vec<u8> = (10u8..42).collect();
    let mut t = StrMap::new();
    t.insert("gitlab@https://g.x".to_string(), "b".to_string());
    t.insert("github".to_string(), "a".to_string());
    let blob = seal_table(&t, &key).unwrap();
    let back = read_table(&blob, &key, "tokens.bin").unwrap();
    assert_eq!(back.keys(), vec!["github".to_string(), "gitlab@https://g.x".to_string()]);
    assert_eq!(back.get("github"), Some("a".to_string()));
    assert_eq!(back.get("gitlab@https://g.x"), Some("b".to_string()));
    let not_json = encode_store(&b"[1,2]".to_vec(), &key);
    match read_table(&not_json, &key, "tokens.bin") {
        Err(TokenError::Format { message }) => assert!(message.starts_with("token store file tokens.bin is not valid JSON: ")),
        other => panic!("unexpected {:?}", other),
    }
}

#[test]
fn raw_and_canonical_hosts_give_one_key() {
    let raw = "  Git.Example.COM:8443/Group/ ";
    let canonical = normalize_host(raw).unwrap();
    assert_eq!(canonical, "https://git.example.com:8443/Group");
    assert_eq!(host_scoped_key("gitlab", raw).unwrap(), host_scoped_key("gitlab", &canonical).unwrap());
    assert_eq!(host_scoped_key("gitlab", raw).unwrap(), "gitlab@https://git.example.com:8443/Group");
}

#[test]
fn typed_token_is_trimmed() {
    assert_eq!(vbumpp_core::cli::token::entered_token("  ghp_x \n").unwrap(), "ghp_x");
    match vbumpp_core::cli::token::entered_token(" \t ") {
        Err(TokenError::Prompt { message }) => assert_eq!(message, "token must not be empty"),
        other => panic!("unexpected {:?}", other),
    }
}

#[test]
fn keys_come_in_ascending_order() {
    let mut m = StrMap::new();
    m.insert("github".to_string(), "a".to_string());
    m.insert("gitlab".to_string(), "b".to_string());
    m.insert("gitee".to_string(), "c".to_string());
    assert_eq!(m.keys(), vec!["gitee".to_string(), "github".to_string(), "gitlab".to_string()]);
}

#[test]
fn saved_token_reads_back_from_the_file() {
    let key = vec![7u8; 32];
    let first = vbumpp_core::token_file::save_token_blob(None, &key, "github".to_string(), "a".to_string()).unwrap();
    let second =
        vbumpp_core::token_file::save_token_blob(Some(&first), &key, "gitee".to_string(), "b".to_string()).unwrap();
    let back = read_table(&second, &key, "tokens.bin").unwrap();
    assert_eq!(back.keys(), vec!["gitee".to_string(), "github".to_string()]);
    assert_eq!(back.get("github"), Some("a".to_string()));
    let garbage = vec![1u8, 2, 3];
    let fresh = vbumpp_core::token_file::save_token_blob(Some(&garbage), &key, "x".to_string(), "y".to_string()).unwrap();
    assert_eq!(read_table(&fresh, &key, "t").unwrap().keys(), vec!["x".to_string()]);
}

#[test]
fn dry_run_removal_stops_even_with_yes() {
    let dry = scan_token_args(&args(&["github", "--dry-run", "--yes"]), &["all", "yes", "dry-run"], &["host"]).unwrap();
    assert_eq!(remove_next(&dry), RemoveStep::Stop);
    let yes = scan_token_args(&args(&["github", "--yes"]), &["all", "yes", "dry-run"], &["host"]).unwrap();
    assert_eq!(remove_next(&yes), RemoveStep::Remove);
    let ask = scan_token_args(&args(&["github"]), &["all", "yes", "dry-run"], &["host"]).unwrap();
    assert_eq!(remove_next(&ask), RemoveStep::Confirm);
    assert_eq!(after_confirm(false), RemoveStep::Stop);
    assert_eq!(after_confirm(true), RemoveStep::Remove);
}
