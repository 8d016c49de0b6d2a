//! The file plugin's access control and the texts of its operations.
use base64::Engine;
use kokoro_chat::error::AppError;
use kokoro_chat::models::chat::{DirectoryPermission, FileOpsConfig};
use kokoro_chat::plugin::file_ops::{
    acl_of, check_acl, err_result, file_op, grant_access, image_payload, is_image_ext,
    is_path_within, join_lines, listing, name_matches, normalize_for_comparison, not_a_directory,
    ok_result, search_report, should_request_access, write_done_message, FileOp, FileOpsPlugin,
};

const BASE: &str = "/srv/kokoro/plugin_files";

fn setup() -> FileOpsPlugin {
    FileOpsPlugin::new(BASE.to_string())
}

fn make_acl(dirs: Vec<(&str, bool, bool)>) -> Vec<DirectoryPermission> {
    dirs.into_iter()
        .map(|(path, allow_read, allow_write)| DirectoryPermission {
            path: path.to_string(),
            allow_read,
            allow_write,
        })
        .collect()
}

#[test]
fn file_ops_test_plugin_metadata() {
    let plugin = setup();
    assert_eq!(plugin.name(), "file_ops");
    assert!(plugin.description().contains("[Purpose]"));
    assert!(plugin.description().contains("read_file"));
    assert!(plugin.description().contains("write_file"));
    let tools = plugin.tools();
    let tool_names: Vec<&str> = tools.iter().map(|t| t.name.as_str()).collect();
    assert!(tool_names.contains(&"read_file"));
    assert!(tool_names.contains(&"write_file"));
    assert!(tool_names.contains(&"list_directory"));
    assert!(tool_names.contains(&"search_files"));
    assert_eq!(tools.len(), 4);
    assert_eq!(tools[1].parameters["required"][1], "content");
    assert_eq!(tools[3].parameters["properties"]["pattern"]["type"], "string");
}

#[test]
fn test_path_validation_relative() {
    let plugin = setup();
    assert!(plugin.validate_path("test.txt").is_ok());
    assert!(plugin.validate_path("subdir/test.txt").is_ok());
    assert_eq!(plugin.validate_path("test.txt").unwrap(), format!("{}/test.txt", BASE));
}

#[test]
fn test_path_validation_traversal_rejected() {
    let plugin = setup();
    assert!(plugin.validate_path("../etc/passwd").is_err());
    assert!(plugin.validate_path("subdir/../../etc/passwd").is_err());
    assert_eq!(plugin.validate_path("../x").unwrap_err(), "パスに '..' を含めることはできない");
}

#[test]
fn test_path_validation_absolute_outside_sandbox() {
    let plugin = setup();
    assert!(plugin.validate_path("/etc/passwd").is_err());
    assert_eq!(plugin.validate_path("/etc/passwd").unwrap_err(), "アクセス拒否: '/etc/passwd' はサンドボックス外");
}

#[test]
fn test_acl_validation_read_allowed() {
    let plugin = setup();
    let acl = make_acl(vec![(BASE, true, false)]);
    assert!(plugin.validate_path_with_acl("test.txt", &acl, false).is_ok());
}

#[test]
fn test_acl_validation_read_denied_when_no_read_perm() {
    let plugin = setup();
    let acl = make_acl(vec![("/some/other/dir", false, true)]);
    let result = plugin.validate_path_with_acl("test.txt", &acl, false);
    assert!(result.is_err());
    assert!(result.unwrap_err().contains("読み取り"));
}

#[test]
fn test_acl_validation_write_allowed() {
    let plugin = setup();
    let acl = make_acl(vec![(BASE, true, true)]);
    assert!(plugin.validate_path_with_acl("test.txt", &acl, true).is_ok());
}

#[test]
fn test_acl_validation_write_denied_when_read_only() {
    let plugin = setup();
    let acl = make_acl(vec![(BASE, true, false)]);
    let result = plugin.validate_path_with_acl("test.txt", &acl, true);
    assert!(result.is_err());
    assert!(result.unwrap_err().contains("書き込み"));
}

#[test]
fn test_acl_validation_traversal_rejected() {
    let plugin = setup();
    let acl = make_acl(vec![(BASE, true, true)]);
    let result = plugin.validate_path_with_acl("../etc/passwd", &acl, false);
    assert!(result.is_err());
    assert!(result.unwrap_err().contains(".."));
}

#[test]
fn test_acl_validation_multiple_directories() {
    let plugin = setup();
    let acl = make_acl(vec![("/readonly/dir", true, false), (BASE, true, true)]);
    assert!(plugin.validate_path_with_acl("test.txt", &acl, true).is_ok());
}

#[test]
fn test_acl_validation_absolute_path_in_allowed_dir() {
    let plugin = setup();
    let acl = make_acl(vec![(BASE, true, true)]);
    let abs = format!("{}/subdir/file.txt", BASE);
    assert!(plugin.validate_path_with_acl(&abs, &acl, false).is_ok());
}

#[test]
fn test_acl_validation_absolute_path_outside_all_dirs() {
    let plugin = setup();
    let acl = make_acl(vec![("/allowed/dir", true, true)]);
    assert!(plugin.validate_path_with_acl("/other/dir/file.txt", &acl, false).is_err());
}

#[test]
fn test_write_denied_by_acl() {
    let plugin = setup();
    let acl = Some(make_acl(vec![(BASE, true, false)]));
    let result = plugin.validate_path_for_op("denied.txt", &acl, true);
    assert_eq!(
        result.unwrap_err(),
        "アクセス拒否: 'denied.txt' は許可されたディレクトリ内にない（書き込み権限なし）"
    );
}

#[test]
fn test_read_file_image_acl_denied() {
    let plugin = setup();
    let acl = Some(make_acl(vec![("/other/dir", true, false)]));
    let result = plugin.validate_path_for_op("test.png", &acl, false);
    assert!(result.is_err());
    assert!(result.unwrap_err().contains("アクセス拒否"));
}

#[test]
fn acl_comparison_ignores_case_and_slash_direction() {
    assert_eq!(normalize_for_comparison("C:\\Work\\Dir"), "c:/work/dir");
    assert!(is_path_within("C:\\Work\\Dir\\a.txt", "c:/work/dir"));
    assert!(is_path_within("c:/work/dir", "C:/Work/Dir/"));
    assert!(!is_path_within("c:/work/dirt/a.txt", "c:/work/dir"));
    let acl = make_acl(vec![("C:/Work", true, false)]);
    assert_eq!(check_acl("c:\\work\\x.txt", "x.txt", &acl, false).unwrap(), "c:\\work\\x.txt");
}

#[test]
fn test_extract_acl_none_context() {
    assert!(acl_of(None).is_none());
}

#[test]
fn test_extract_acl_with_valid_config() {
    let config = FileOpsConfig { directories: make_acl(vec![("/test", true, false)]) };
    let dirs = acl_of(Some(config)).unwrap();
    assert_eq!(dirs.len(), 1);
    assert_eq!(dirs[0].path, "/test");
    assert!(dirs[0].allow_read);
    assert!(!dirs[0].allow_write);
}

#[test]
fn test_extract_acl_empty_directories() {
    assert!(acl_of(Some(FileOpsConfig { directories: vec![] })).is_none());
}

#[test]
fn granting_access_lets_the_path_through() {
    let plugin = setup();
    let mut config = FileOpsConfig { directories: make_acl(vec![("/data", true, false)]) };
    assert!(plugin.validate_path_with_acl("/data/f.txt", &config.directories, true).is_err());
    grant_access(&mut config, "/data".to_string(), true);
    assert_eq!(config.directories.len(), 1);
    assert!(config.directories[0].allow_write);
    assert!(plugin.validate_path_with_acl("/data/f.txt", &config.directories, true).is_ok());
    grant_access(&mut config, "/logs".to_string(), false);
    assert_eq!(config.directories.len(), 2);
    assert!(config.directories[1].allow_read && !config.directories[1].allow_write);
    grant_access(&mut config, "/data".to_string(), false);
    assert!(config.directories[0].allow_write);
}

#[test]
fn refusals_ask_for_access_only_with_a_session() {
    assert!(should_request_access("アクセス拒否: 'x' は...", true));
    assert!(!should_request_access("アクセス拒否: 'x' は...", false));
    assert!(!should_request_access("ファイル読み込みエラー: x", true));
}

#[test]
fn test_execute_unknown_tool() {
    match file_op("delete_file", Some("test.txt".to_string()), None, None) {
        Err(AppError::Plugin(m)) => assert_eq!(m, "不明なツール: delete_file"),
        _ => panic!("unknown tool"),
    }
}

#[test]
fn tool_arguments_are_required_in_order() {
    match file_op("write_file", None, None, None) {
        Err(AppError::Plugin(m)) => assert_eq!(m, "'path' パラメータが必要"),
        _ => panic!("missing path"),
    }
    match file_op("write_file", Some("a".to_string()), None, None) {
        Err(AppError::Plugin(m)) => assert_eq!(m, "'content' パラメータが必要"),
        _ => panic!("missing content"),
    }
    match file_op("search_files", Some("a".to_string()), None, None) {
        Err(AppError::Plugin(m)) => assert_eq!(m, "'pattern' パラメータが必要"),
        _ => panic!("missing pattern"),
    }
    assert!(matches!(
        file_op("write_file", Some("a".to_string()), Some("c".to_string()), None),
        Ok(FileOp::Write { .. })
    ));
    assert!(matches!(file_op("list_directory", Some("d".to_string()), None, None), Ok(FileOp::List { .. })));
    assert!(matches!(file_op("read_file", Some("d".to_string()), None, None), Ok(FileOp::Read { .. })));
}

#[test]
fn test_read_file_image_returns_base64_prefix() {
    let fake_png = vec![0x89, 0x50, 0x4E, 0x47, 0x0D, 0x0A, 0x1A, 0x0A];
    assert!(FileOpsPlugin::is_image_extension("test.png"));
    let content = image_payload(&fake_png);
    assert!(content.starts_with("[IMAGE_BASE64]:"));
    let b64_part = content.strip_prefix("[IMAGE_BASE64]:").unwrap();
    let decoded = base64::engine::general_purpose::STANDARD.decode(b64_part).unwrap();
    assert_eq!(decoded, fake_png);
    assert_eq!(image_payload(b"abc"), "[IMAGE_BASE64]:YWJj");
}

#[test]
fn test_read_file_text_not_base64() {
    assert!(!FileOpsPlugin::is_image_extension("hello.txt"));
    assert!(FileOpsPlugin::is_image_extension("PHOTO.JPG"));
    assert!(!FileOpsPlugin::is_image_extension("noext"));
    assert!(is_image_ext(Some("Svg")));
    assert!(!is_image_ext(None));
}

#[test]
fn test_list_directory() {
    let content = listing(&[("a.txt".to_string(), false), ("b.txt".to_string(), false), ("subdir".to_string(), true)]);
    assert_eq!(content, "a.txt\nb.txt\n[DIR] subdir");
    assert_eq!(listing(&[]), "");
}

#[test]
fn test_search_files() {
    assert!(name_matches("hello.rs", ".rs"));
    assert!(name_matches("Nested.RS", ".rs"));
    assert!(!name_matches("world.txt", ".rs"));
    assert!(name_matches("anything", ""));
    let found = vec!["/d/hello.rs".to_string(), "/d/sub/nested.rs".to_string()];
    assert_eq!(search_report(".rs", &found), "/d/hello.rs\n/d/sub/nested.rs");
    assert_eq!(search_report(".py", &[]), "パターン '.py' に一致するファイルなし");
}

#[test]
fn operation_messages() {
    assert_eq!(write_done_message("/d/f.txt"), "ファイルを書き込み完了: /d/f.txt");
    assert_eq!(not_a_directory("f.txt"), "'f.txt' はディレクトリではない");
    assert_eq!(join_lines(&["x".to_string()]), "x");
    let ok = ok_result("id", "c".to_string());
    assert!(!ok.is_error && ok.tool_call_id == "id");
    assert!(err_result("id", "e".to_string()).is_error);
}

#[test]
fn plan_reads_the_string_arguments_of_the_call() {
    let plugin = setup();
    let call = |name: &str, args: &str| kokoro_chat::models::plugin::ToolCall {
        id: "c".to_string(),
        name: name.to_string(),
        arguments: serde_json::from_str(args).unwrap(),
        context: None,
    };
    match plugin.plan(&call("write_file", r#"{"path":"notes/a.txt","content":"hello"}"#)) {
        Ok(FileOp::Write { path, content }) => {
            assert_eq!(path, "notes/a.txt");
            assert_eq!(content, "hello");
        }
        other => panic!("expected a write, got {:?}", other),
    }
    match plugin.plan(&call("search_files", r#"{"path":"/srv","pattern":".rs"}"#)) {
        Ok(FileOp::Search { path, pattern }) => {
            assert_eq!(path, "/srv");
            assert_eq!(pattern, ".rs");
        }
        other => panic!("expected a search, got {:?}", other),
    }
    match plugin.plan(&call("read_file", r#"{"path":7}"#)) {
        Err(AppError::Plugin(m)) => assert_eq!(m, "'path' パラメータが必要"),
        other => panic!("a number is not a path, got {:?}", other),
    }
    match plugin.plan(&call("delete_file", r#"{"path":"a"}"#)) {
        Err(AppError::Plugin(m)) => assert_eq!(m, "不明なツール: delete_file"),
        other => panic!("unknown tool, got {:?}", other),
    }
}

#[test]
fn bare_file_names_take_the_text_after_the_last_dot() {
    assert!(FileOpsPlugin::is_image_extension("archive.tar.PNG"));
    assert!(FileOpsPlugin::is_image_extension(".hidden.gif"));
    assert!(!FileOpsPlugin::is_image_extension(".png"));
    assert!(!FileOpsPlugin::is_image_extension("png."));
    assert!(!FileOpsPlugin::is_image_extension(".."));
    let plugin = setup();
    let resolved = plugin.resolve_path("notes/a.txt").unwrap();
    assert!(resolved.ends_with("notes/a.txt"));
    assert_eq!(plugin.resolve_path("/abs/b.txt").unwrap(), "/abs/b.txt");
}

#[test]
fn the_sandbox_is_bounded_at_a_separator() {
    let plugin = setup();
    assert!(plugin.validate_path(BASE).is_ok());
    assert_eq!(
        plugin.validate_path(&format!("{}2/x.txt", BASE)).unwrap_err(),
        format!("アクセス拒否: '{}2/x.txt' はサンドボックス外", BASE)
    );
    assert_eq!(plugin.validate_path("subdir/../../etc/passwd").unwrap_err(), "パスに '..' を含めることはできない");
    assert!(plugin.validate_path("a..b/c.txt").is_ok());
    assert_eq!(plugin.resolve_path("a.txt").unwrap(), format!("{}/a.txt", BASE));
}

#[test]
fn images_are_sent_as_padded_standard_base64() {
    assert_eq!(image_payload(b"Man"), "[IMAGE_BASE64]:TWFu");
    assert_eq!(image_payload(b"Ma"), "[IMAGE_BASE64]:TWE=");
    assert_eq!(image_payload(b"M"), "[IMAGE_BASE64]:TQ==");
    assert_eq!(image_payload(&[0xfb, 0xff]), "[IMAGE_BASE64]:+/8=");
}
