use vbumpp_core::config_source::{package_json_of, read_config_text};
use vbumpp_core::config_value::{read_config_value, ConfigValue};
use vbumpp_core::cli::schema::{schema_target, schema_written_message, SchemaTarget};
use vbumpp_core::shape::{bool_or_string_of, repo_value_of, types_value_of, BoolOrString, RepoValue, TypesValue};
use vbumpp_core::config::dedup_string_items;
use vbumpp_core::json::is_manifest;
use vbumpp_core::config::probe_choice;
use vbumpp_core::cli::bump::{bump_overrides, resolve_provider};
use vbumpp_core::cli::parse::{parse, BumpArgs, Command};
use vbumpp_core::config::{
    custom_config_path, gitlab_host_of, merge_bump_config, unsupported_config, validate_document, ConfigFormat,
    LoadConfigError,
};
use vbumpp_core::json::{get_member, Json};
use vbumpp_core::release::Provider;

fn s(x: &str) -> Json {
    Json::Str(x.to_string())
}

fn member(k: &str, v: Json) -> (String, Json) {
    (k.to_string(), v)
}

fn strings(j: Option<&Json>) -> Vec<String> {
    match j {
        Some(Json::Array(items)) => items
            .iter()
            .map(|i| match i {
                Json::Str(t) => t.clone(),
                other => panic!("not a string: {:?}", other),
            })
            .collect(),
        other => panic!("not an array: {:?}", other),
    }
}

fn flag(j: Option<&Json>) -> bool {
    match j {
        Some(Json::Bool(b)) => *b,
        other => panic!("not a bool: {:?}", other),
    }
}

#[test]
fn overrides_beat_the_file_which_beats_defaults() {
    let document = vec![member("push", Json::Bool(false)), member("tag", Json::Bool(false)), member("files", Json::Array(vec![s("a.json")]))];
    let overrides = vec![member("tag", Json::Bool(true)), member("install", Json::Null)];
    let merged = merge_bump_config(Some(overrides), Some(document), vec![]);
    assert!(flag(get_member(&merged, "commit")));
    assert!(!flag(get_member(&merged, "push")));
    assert!(flag(get_member(&merged, "tag")));
    assert!(!flag(get_member(&merged, "install")));
    assert_eq!(strings(get_member(&merged, "files")), vec!["a.json".to_string()]);
}

#[test]
fn recursive_adds_globs_once_and_turns_off() {
    let overrides = vec![
        member("recursive", Json::Bool(true)),
        member("files", Json::Array(vec![s("package.json"), s("package.json")])),
    ];
    let merged = merge_bump_config(Some(overrides), None, vec!["package.json".to_string(), "**/Cargo.toml".to_string()]);
    assert!(!flag(get_member(&merged, "recursive")));
    assert_eq!(strings(get_member(&merged, "files")), vec!["package.json".to_string(), "**/Cargo.toml".to_string()]);
}

#[test]
fn document_checks() {
    let custom = vec![member("customVersion", s("x"))];
    match validate_document(&custom, ".vbumpprc.json") {
        Err(LoadConfigError::UnsupportedConfig { message }) => assert!(message.starts_with("config file .vbumpprc.json contains the customVersion option")),
        other => panic!("unexpected {:?}", other),
    }
    let unknown = vec![member("zeta", Json::Null), member("alpha", Json::Null), member("tag", Json::Bool(true))];
    match validate_document(&unknown, "c.json") {
        Err(LoadConfigError::UnsupportedConfig { message }) => {
            assert!(message.starts_with("config file c.json contains unsupported keys: \"alpha\", \"zeta\" — supported top-level keys: $schema / all / "))
        }
        other => panic!("unexpected {:?}", other),
    }
    let gitlab = vec![member("gitlab", Json::Object(vec![member("token", s("x"))]))];
    match validate_document(&gitlab, "c.json") {
        Err(LoadConfigError::UnsupportedConfig { message }) => {
            assert_eq!(message, "config file c.json: gitlab section contains unsupported key \"token\": only host is supported")
        }
        other => panic!("unexpected {:?}", other),
    }
    assert!(validate_document(&vec![member("tag", Json::Bool(false))], "c.json").is_ok());
}

#[test]
fn gitlab_host_and_custom_path() {
    let doc = vec![member("gitlab", Json::Object(vec![member("host", s("https://g.x"))]))];
    assert_eq!(gitlab_host_of(&doc).unwrap(), Some("https://g.x".to_string()));
    let bad = vec![member("gitlab", Json::Object(vec![member("host", Json::Bool(true))]))];
    assert!(matches!(gitlab_host_of(&bad), Err(LoadConfigError::UnsupportedConfig { .. })));
    let over = vec![member("configFilePath", s("conf/vb.toml"))];
    assert_eq!(custom_config_path(Some(&over)), Some("conf/vb.toml".to_string()));
    assert_eq!(custom_config_path(None), None);
}

#[test]
fn formats_by_extension() {
    assert_eq!(ConfigFormat::of("a.jsonc"), Some(ConfigFormat::Jsonc));
    assert_eq!(ConfigFormat::of(".vbumpprc.toml"), Some(ConfigFormat::Toml));
    assert_eq!(ConfigFormat::of("vb.config.ts"), None);
    assert_eq!(ConfigFormat::of(".json"), None);
    match unsupported_config("vb.config.ts") {
        LoadConfigError::UnsupportedConfig { message } => assert!(message.contains("the given config file vb.config.ts is not supported")),
        other => panic!("unexpected {:?}", other),
    }
}

#[test]
fn command_line_parsing() {
    let argv = |v: &[&str]| v.iter().map(|x| x.to_string()).collect::<Vec<_>>();
    assert!(matches!(parse(&argv(&["-v"])), Ok(Command::Version)));
    assert!(matches!(parse(&argv(&["--help"])), Ok(Command::Help)));
    match parse(&argv(&["token", "set", "gitlab"])) {
        Ok(Command::Token(rest)) => assert_eq!(rest, argv(&["set", "gitlab"])),
        other => panic!("unexpected {:?}", other),
    }
    match parse(&argv(&["a.json", "-r", "--provider", "github", "--dry-run"])) {
        Ok(Command::Bump(b)) => {
            assert_eq!(b.files, argv(&["a.json"]));
            assert!(b.recursive && b.dry_run);
            assert_eq!(b.provider, Some("github".to_string()));
            assert_eq!(b.output, "CHANGELOG.md");
        }
        other => panic!("unexpected {:?}", other),
    }
    match parse(&argv(&["release", "v1.2.0", "-o", "HISTORY.md"])) {
        Ok(Command::Release(r)) => {
            assert_eq!(r.version, "v1.2.0");
            assert_eq!(r.output, "HISTORY.md");
        }
        other => panic!("unexpected {:?}", other),
    }
}

#[test]
fn providers_from_flag_or_build() {
    assert_eq!(resolve_provider(Some("gitee"), Some("github")), Ok(Some(Provider::Gitee)));
    assert_eq!(resolve_provider(None, Some("gitcode")), Ok(Some(Provider::Gitcode)));
    assert_eq!(resolve_provider(None, None), Ok(None));
    assert_eq!(
        resolve_provider(Some("bitbucket"), None),
        Err("unknown provider: bitbucket (expected github / gitlab / gitee / gitcode)".to_string())
    );
}

#[test]
fn bump_arguments_as_overrides() {
    let args = BumpArgs {
        files: vec!["a.json".to_string()],
        recursive: true,
        output: "CHANGELOG.md".to_string(),
        provider: None,
        dry_run: true,
    };
    let o = bump_overrides(&args);
    let keys: Vec<&str> = o.iter().map(|(k, _)| k.as_str()).collect();
    assert_eq!(keys, vec!["changelog", "confirm", "files", "recursive"]);
    match get_member(&o, "changelog") {
        Some(Json::Object(m)) => assert!(matches!(get_member(m, "output"), Some(Json::Str(x)) if x == "CHANGELOG.md")),
        other => panic!("unexpected {:?}", other),
    }
    assert!(!flag(get_member(&o, "confirm")));
    assert!(flag(get_member(&o, "recursive")));
    let plain = BumpArgs { files: vec![], recursive: false, output: "C.md".to_string(), provider: None, dry_run: false };
    let keys: Vec<String> = bump_overrides(&plain).into_iter().map(|(k, _)| k).collect();
    assert_eq!(keys, vec!["changelog".to_string(), "recursive".to_string()]);
}

#[test]
fn manifests_have_optional_string_fields() {
    assert!(is_manifest(&vec![member("name", s("x")), member("version", Json::Null)]));
    assert!(is_manifest(&vec![]));
    assert!(!is_manifest(&vec![member("version", Json::Number("1".to_string()))]));
}

#[test]
fn one_config_file_per_directory() {
    let names: Vec<String> = vec![".vbumpprc.json".to_string(), ".vbumpprc.toml".to_string()];
    assert!(matches!(probe_choice(".", &vec![], &names), Ok(None)));
    assert!(matches!(probe_choice(".", &vec![".vbumpprc.toml".to_string()], &names), Ok(Some(0))));
    match probe_choice(".", &names, &names) {
        Err(LoadConfigError::AmbiguousConfig { message }) => assert_eq!(
            message,
            "multiple config files found in .: .vbumpprc.json, .vbumpprc.toml — keep only one (supported: .vbumpprc.json / .vbumpprc.toml)"
        ),
        other => panic!("unexpected {:?}", other),
    }
}

#[test]
fn release_short_option_with_a_non_ascii_letter_is_unknown() {
    let argv = |v: &[&str]| v.iter().map(|x| x.to_string()).collect::<Vec<_>>();
    assert_eq!(parse(&argv(&["release", "v1.0.0", "-é"])).err(), Some("unknown option: -é".to_string()));
    assert!(matches!(parse(&argv(&["release", "v1.0.0", "-o", "-é"])), Ok(Command::Release(_))));
    assert_eq!(parse(&argv(&["release", "v1", "-x"])).err(), Some("unknown option: -x".to_string()));
}

#[test]
fn repeated_file_patterns_are_kept_once() {
    let items = vec![s("a.json"), s("b.toml"), Json::Null, s("a.json"), s("c"), s("b.toml"), Json::Null];
    let shown: Vec<Option<String>> = dedup_string_items(items)
        .into_iter()
        .map(|j| match j {
            Json::Str(t) => Some(t),
            _ => None,
        })
        .collect();
    assert_eq!(
        shown,
        vec![Some("a.json".to_string()), Some("b.toml".to_string()), None, Some("c".to_string()), None]
    );
}

#[test]
fn shape_union_values() {
    assert_eq!(bool_or_string_of(&Json::Bool(false)), Ok(BoolOrString::Bool(false)));
    assert_eq!(bool_or_string_of(&s("v%s")), Ok(BoolOrString::Str("v%s".to_string())));
    assert_eq!(bool_or_string_of(&Json::Number("1".to_string())), Err("must be a boolean or a string".to_string()));

    assert_eq!(types_value_of(&Json::Bool(false)), Ok(TypesValue::Bool(false)));
    assert_eq!(types_value_of(&Json::Object(vec![])), Ok(TypesValue::Entry));
    assert_eq!(
        types_value_of(&Json::Object(vec![member("title", s("Fixes")), member("excludeScopes", Json::Array(vec![s("deps")]))])),
        Ok(TypesValue::Entry)
    );
    assert_eq!(
        types_value_of(&Json::Object(vec![member("title", Json::Null)])),
        Err("title must be a string".to_string())
    );
    assert_eq!(
        types_value_of(&Json::Object(vec![member("excludeScopes", Json::Array(vec![s("deps"), s("")]))])),
        Err("excludeScopes must be an array of non-empty strings".to_string())
    );
    assert_eq!(
        types_value_of(&Json::Object(vec![member("excludeScopes", s("deps"))])),
        Err("excludeScopes must be an array of non-empty strings".to_string())
    );
    assert_eq!(
        types_value_of(&Json::Null),
        Err("must be false or an object { \"title\": string, \"excludeScopes\": string[] }".to_string())
    );

    assert_eq!(repo_value_of(&s("o/r")), Ok(RepoValue::Short("o/r".to_string())));
    assert_eq!(
        repo_value_of(&Json::Object(vec![member("provider", Json::Null), member("repo", s("o/r"))])),
        Ok(RepoValue::Explicit { provider: None, domain: None, repo: Some("o/r".to_string()) })
    );
    assert_eq!(
        repo_value_of(&Json::Object(vec![member("repo", Json::Bool(true)), member("domain", Json::Bool(true))])),
        Err("domain must be a string".to_string())
    );
    assert_eq!(repo_value_of(&Json::Array(vec![])), Err("must be a string or an object".to_string()));
}

#[test]
fn schema_subcommand() {
    let argv = |v: &[&str]| v.iter().map(|x| x.to_string()).collect::<Vec<_>>();
    match parse(&argv(&["schema"])) {
        Ok(Command::Schema(a)) => {
            assert!(!a.write && !a.global);
            assert_eq!(schema_target(a), SchemaTarget::Print);
        }
        other => panic!("unexpected {:?}", other),
    }
    match parse(&argv(&["schema", "--write", "--global"])) {
        Ok(Command::Schema(a)) => {
            assert_eq!(schema_target(a), SchemaTarget::Global { name: "schema.json".to_string() })
        }
        other => panic!("unexpected {:?}", other),
    }
    match parse(&argv(&["schema", "--global", "--project", "--write"])) {
        Ok(Command::Schema(a)) => {
            assert_eq!(schema_target(a), SchemaTarget::Project { name: "vbumpprc.schema.json".to_string() })
        }
        other => panic!("unexpected {:?}", other),
    }
    assert_eq!(parse(&argv(&["schema", "--force"])).err(), Some("unknown option: --force".to_string()));
    assert_eq!(parse(&argv(&["schema", "x"])).err(), Some("unexpected argument: x".to_string()));
    assert_eq!(schema_written_message("vbumpprc.schema.json"), "schema written to vbumpprc.schema.json");
}

#[test]
fn parsed_config_values() {
    let shown = ".vbumpprc.toml";
    match read_config_value(shown, Err("expected `=`".to_string())) {
        Err(LoadConfigError::Parse { message }) => {
            assert_eq!(message, "failed to parse config file .vbumpprc.toml: expected `=`")
        }
        other => panic!("unexpected {:?}", other),
    }
    let dated = ConfigValue::Object(vec![(
        "changelog".to_string(),
        ConfigValue::Object(vec![("output".to_string(), ConfigValue::Datetime("1979-05-27T07:32:00Z".to_string()))]),
    )]);
    match read_config_value(shown, Ok(dated)) {
        Err(LoadConfigError::Parse { message }) => assert_eq!(
            message,
            "config file .vbumpprc.toml contains a TOML datetime value (1979-05-27T07:32:00Z): not expressible in the JSON value domain — use a string instead"
        ),
        other => panic!("unexpected {:?}", other),
    }
    match read_config_value(".vbumpprc.json", Ok(ConfigValue::Array(vec![]))) {
        Err(LoadConfigError::Parse { message }) => assert_eq!(message, "config file .vbumpprc.json must be an object"),
        other => panic!("unexpected {:?}", other),
    }
    let good = ConfigValue::Object(vec![("push".to_string(), ConfigValue::Bool(false))]);
    let members = read_config_value(".vbumpprc.json", Ok(good)).unwrap();
    assert_eq!(members.len(), 1);
    assert_eq!(members[0].0, "push");
    assert!(matches!(members[0].1, Json::Bool(false)));
    match read_config_value(".vbumpprc.json", Ok(ConfigValue::Object(vec![("nope".to_string(), ConfigValue::Null)]))) {
        Err(LoadConfigError::UnsupportedConfig { .. }) => {}
        other => panic!("unexpected {:?}", other),
    }
}

#[test]
fn config_text_jsonc_allows_comments_and_trailing_commas() {
    let text = "{\n  // keep the tag\n  \"push\": false,\n  \"tag\": \"v%s\",\n}\n";
    let members = read_config_text(".vbumpprc.json", ConfigFormat::Jsonc, text).unwrap();
    assert_eq!(members.len(), 2);
    assert_eq!(members[0].0, "push");
    assert!(matches!(members[0].1, Json::Bool(false)));
    assert_eq!(members[1].0, "tag");
    assert!(matches!(&members[1].1, Json::Str(t) if t == "v%s"));
}

#[test]
fn config_text_jsonc_refuses_json5_leniencies() {
    for text in ["{'push': false}", "{push: false}", "{\"push\": false \"tag\": \"v\"}"] {
        match read_config_text(".vbumpprc.jsonc", ConfigFormat::Jsonc, text) {
            Err(LoadConfigError::Parse { message }) => {
                assert!(message.starts_with("failed to parse config file .vbumpprc.jsonc: "), "{message}")
            }
            other => panic!("unexpected {:?}", other),
        }
    }
}

#[test]
fn config_text_unknown_keys_are_listed_sorted() {
    match read_config_text(".vbumpprc.json", ConfigFormat::Jsonc, "{\"zeta\": 1, \"push\": true, \"alpha\": 2}") {
        Err(LoadConfigError::UnsupportedConfig { message }) => assert!(
            message.starts_with("config file .vbumpprc.json contains unsupported keys: \"alpha\", \"zeta\" — supported top-level keys: "),
            "{message}"
        ),
        other => panic!("unexpected {:?}", other),
    }
    match read_config_text(".vbumpprc.toml", ConfigFormat::Toml, "customVersion = \"x\"\n") {
        Err(LoadConfigError::UnsupportedConfig { message }) => {
            assert!(message.starts_with("config file .vbumpprc.toml contains the customVersion option"), "{message}")
        }
        other => panic!("unexpected {:?}", other),
    }
}

#[test]
fn config_text_toml_values_and_datetimes() {
    let members = read_config_text(".vbumpprc.toml", ConfigFormat::Toml, "push = false\n[changelog]\noutput = \"CHANGELOG.md\"\n").unwrap();
    assert_eq!(members.len(), 2);
    assert!(members.iter().any(|(k, v)| k == "push" && matches!(v, Json::Bool(false))));
    match read_config_text(".vbumpprc.toml", ConfigFormat::Toml, "[changelog]\noutput = 1979-05-27T07:32:00Z\n") {
        Err(LoadConfigError::Parse { message }) => assert_eq!(
            message,
            "config file .vbumpprc.toml contains a TOML datetime value (1979-05-27T07:32:00Z): not expressible in the JSON value domain — use a string instead"
        ),
        other => panic!("unexpected {:?}", other),
    }
    match read_config_text(".vbumpprc.toml", ConfigFormat::Toml, "push = \n") {
        Err(LoadConfigError::Parse { message }) => {
            assert!(message.starts_with("failed to parse config file .vbumpprc.toml: "), "{message}")
        }
        other => panic!("unexpected {:?}", other),
    }
}

#[test]
fn package_json_text_is_read_leniently() {
    match package_json_of("{ name: 'demo', \"packageManager\": \"pnpm@9.0.0\", \"name\": \"later\", }") {
        Some(Json::Object(members)) => {
            assert_eq!(members.len(), 3);
            assert_eq!(members[0].0, "name");
            assert!(matches!(&members[0].1, Json::Str(t) if t == "demo"));
            assert_eq!(members[2].0, "name");
        }
        other => panic!("unexpected {:?}", other),
    }
    assert!(package_json_of("{ \"name\": ").is_none());
    assert!(package_json_of("").is_none());
}
