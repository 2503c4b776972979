use char_core::xtask::{
    host_triple, inline_value_document, is_ffi_header, module_map, parse_command, sidecar_names, single_match,
    split_key, supabase_edits, toml_set_plan, TomlEdit, TomlLiteral, XtaskCommand, XtaskError,
};

fn args(items: &[&str]) -> Vec<String> {
    items.iter().map(|s| s.to_string()).collect()
}

#[test]
fn help_flag_anywhere_asks_for_help() {
    assert!(matches!(parse_command(args(&["toml-set", "f", "--help"])), Ok(XtaskCommand::Help)));
    assert!(matches!(parse_command(args(&["-h"])), Ok(XtaskCommand::Help)));
    assert!(matches!(parse_command(Vec::new()), Ok(XtaskCommand::Help)));
}

#[test]
fn tasks_are_chosen_by_the_first_argument() {
    assert!(matches!(parse_command(args(&["prepare-binaries"])), Ok(XtaskCommand::PrepareBinaries)));
    assert!(matches!(parse_command(args(&["mobile-bridge"])), Ok(XtaskCommand::MobileBridgeIos)));
    assert!(matches!(parse_command(args(&["mobile-bridge", "ios"])), Ok(XtaskCommand::MobileBridgeIos)));
    assert!(matches!(parse_command(args(&["supabase-patch"])), Ok(XtaskCommand::SupabasePatch)));
    match parse_command(args(&["toml-set", "a.toml", "k", "1"])) {
        Ok(XtaskCommand::TomlSet(rest)) => assert_eq!(rest, args(&["a.toml", "k", "1"])),
        _ => panic!("expected toml-set"),
    }
}

#[test]
fn unknown_tasks_and_targets_are_errors() {
    match parse_command(args(&["mobile-bridge", "android"])) {
        Err(e) => assert_eq!(e.message(), "unknown mobile-bridge target: android"),
        _ => panic!("expected an error"),
    }
    match parse_command(args(&["deploy"])) {
        Err(e) => assert_eq!(e.message(), "unknown xtask command: deploy"),
        _ => panic!("expected an error"),
    }
}

#[test]
fn host_triple_is_read_from_rustc_output() {
    let out = "rustc 1.80.0 (051478957 2024-07-21)\nbinary: rustc\ncommit-hash: 051478957\nhost: x86_64-unknown-linux-gnu\nrelease: 1.80.0\n";
    assert_eq!(host_triple(out).unwrap(), "x86_64-unknown-linux-gnu");
    assert_eq!(host_triple("host: aarch64-apple-darwin\r\n").unwrap(), "aarch64-apple-darwin");
    assert_eq!(host_triple("host:   x86_64-pc-windows-msvc  extra").unwrap(), "x86_64-pc-windows-msvc");
}

#[test]
fn missing_or_malformed_host_lines_are_errors() {
    assert!(matches!(host_triple("rustc 1.80.0\nbinary: rustc\n"), Err(XtaskError::NoHostLine)));
    assert!(matches!(host_triple("  host: x\n"), Err(XtaskError::NoHostLine)));
    assert!(matches!(host_triple("host:\n"), Err(XtaskError::MalformedHostLine)));
    assert!(matches!(host_triple("host:x86_64\n"), Err(XtaskError::MalformedHostLine)));
    assert_eq!(XtaskError::NoHostLine.message(), "no host line in rustc -vV");
    assert_eq!(XtaskError::MalformedHostLine.message(), "malformed host line");
}

#[test]
fn sidecar_names_follow_the_target() {
    let (built, bundled) = sidecar_names("x86_64-unknown-linux-gnu");
    assert_eq!(built, "char-chrome-native-host");
    assert_eq!(bundled, "char-chrome-native-host-x86_64-unknown-linux-gnu");
    let (built, bundled) = sidecar_names("x86_64-pc-windows-msvc");
    assert_eq!(built, "char-chrome-native-host.exe");
    assert_eq!(bundled, "char-chrome-native-host-x86_64-pc-windows-msvc.exe");
}

#[test]
fn exactly_one_file_must_match() {
    assert_eq!(single_match(vec!["a.h"], "gen".to_string()).unwrap(), "a.h");
    match single_match(Vec::<&str>::new(), "gen".to_string()) {
        Err(e) => assert_eq!(e.message(), "no matching files found in gen"),
        _ => panic!("expected an error"),
    }
    match single_match(vec!["a.h", "b.h", "c.h"], "gen".to_string()) {
        Err(e) => assert_eq!(e.message(), "expected 1 matching file in gen, found 3"),
        _ => panic!("expected an error"),
    }
}

#[test]
fn toml_set_arguments_come_as_a_file_and_pairs() {
    let (path, pairs) = toml_set_plan(args(&["a.toml", "x.y", "true", "z", "\"s\""])).unwrap();
    assert_eq!(path, "a.toml");
    assert_eq!(
        pairs,
        vec![("x.y".to_string(), "true".to_string()), ("z".to_string(), "\"s\"".to_string())]
    );
    assert!(matches!(toml_set_plan(Vec::new()), Err(XtaskError::TomlSetUsage)));
    assert!(matches!(toml_set_plan(args(&["a.toml", "k"])), Err(XtaskError::UnpairedArguments)));
    assert_eq!(XtaskError::UnpairedArguments.message(), "key/value args must come in pairs");
    assert_eq!(inline_value_document("[1, 2]"), "x=[1, 2]");
}

#[test]
fn keys_split_at_the_first_dot() {
    assert_eq!(
        split_key("auth.external.github"),
        Some(("auth".to_string(), "external.github".to_string()))
    );
    assert_eq!(split_key("plain"), None);
    assert_eq!(split_key(".lead"), Some((String::new(), "lead".to_string())));
}

#[test]
fn bridge_header_and_module_map() {
    assert!(is_ffi_header("mobile_bridgeFFI.h"));
    assert!(!is_ffi_header("mobile_bridge.swift"));
    assert_eq!(
        module_map("mobile_bridgeFFI", "mobile_bridgeFFI.h"),
        "module mobile_bridgeFFI {\n    header \"mobile_bridgeFFI.h\"\n    export *\n}\n"
    );
}

fn key_of(e: &TomlEdit) -> String {
    match e {
        TomlEdit::Assign(k, _) => k.clone(),
        TomlEdit::EnsureTable(k) => format!("[{k}]"),
    }
}

#[test]
fn supabase_edits_without_credentials() {
    let edits = supabase_edits(None, None);
    let keys: Vec<String> = edits.iter().map(key_of).collect();
    assert_eq!(
        keys,
        vec![
            "db.major_version",
            "auth.site_url",
            "auth.additional_redirect_urls",
            "[auth.external.github]",
            "[auth.external.google]",
            "[auth.hook.custom_access_token]",
            "auth.hook.custom_access_token.enabled",
            "auth.hook.custom_access_token.uri",
        ]
    );
    assert!(matches!(&edits[0], TomlEdit::Assign(_, TomlLiteral::Integer(17))));
    assert!(matches!(&edits[2], TomlEdit::Assign(_, TomlLiteral::TextList(v)) if v == &vec!["http://localhost:3000/callback/auth".to_string()]));
}

#[test]
fn supabase_edits_with_credentials() {
    let edits = supabase_edits(
        Some(("gh-id".to_string(), "gh-secret".to_string())),
        Some(("g-id".to_string(), "g-secret".to_string())),
    );
    assert_eq!(edits.len(), 16);
    assert!(matches!(&edits[7], TomlEdit::Assign(k, TomlLiteral::Text(v)) if k == "auth.external.github.client_id" && v == "gh-id"));
    assert!(matches!(&edits[9], TomlEdit::Assign(k, TomlLiteral::Text(v)) if k == "auth.external.github.redirect_uri" && v.is_empty()));
    assert!(matches!(&edits[13], TomlEdit::Assign(k, TomlLiteral::Boolean(false)) if k == "auth.external.google.skip_nonce_check"));
    assert!(matches!(&edits[15], TomlEdit::Assign(k, TomlLiteral::Text(v)) if k == "auth.hook.custom_access_token.uri" && v == "pg-functions://postgres/public/custom_access_token_hook"));
}
