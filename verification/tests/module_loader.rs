use appjs::js_thread::ipc_ops::{
    log_level_from_name, op_close_window, op_create_widget, op_exit_app, op_log,
    op_remove_widget, op_resize_window, op_set_title, op_set_widget_text, op_set_widget_visible,
    op_wait_for_event, widget_kind_from_name,
};
use appjs::js_thread::module_loader::{
    is_jsr_package_entry_url, is_version_like, jsr_export_key, jsr_module_url,
    jsr_package_meta_url, jsr_version, jsr_version_meta_url, media_type_from_content_type,
    media_type_from_specifier, parse_jsr_path, plan_module, resolution_for,
    resolve_jsr_specifier, resolve_npm_specifier, JsrError, MediaType, ModuleType, Resolution,
};
use appjs::js_thread::JsRuntimeConfig;
use appjs::ipc::commands::{JsCommand, LogLevel, WidgetKind};
use appjs::ipc::events::UiEvent;

type Command = JsCommand<u8, u8>;

#[test]
fn versions_are_three_runs_of_digits() {
    for yes in ["1.2.3", "0.0.0", "10.20.30-beta.1", "1.2.3-", "..", "1..3", "1.2.3-4.5.6.7"] {
        assert!(is_version_like(yes), "text was {yes:?}");
    }
    for no in ["", "1.2", "1.2.3.4", "v1.2.3", "1.2.x", "1.2.3+build", "-1.2.3", "1.2.３"] {
        assert!(!is_version_like(no), "text was {no:?}");
    }
}

fn parts(
    scope: &str,
    package: &str,
    version: Option<&str>,
    subpath: Option<&str>,
) -> Option<(String, String, Option<String>, Option<String>)> {
    Some((
        scope.to_string(),
        package.to_string(),
        version.map(|v| v.to_string()),
        subpath.map(|v| v.to_string()),
    ))
}

#[test]
fn jsr_paths() {
    assert_eq!(parse_jsr_path("/@std/path"), parts("@std", "path", None, None));
    assert_eq!(parse_jsr_path("@std/path"), parts("@std", "path", None, None));
    assert_eq!(parse_jsr_path("///@std/path@1.0.0"), parts("@std", "path", Some("1.0.0"), None));
    assert_eq!(
        parse_jsr_path("/@std/path@1.0.0/posix/mod.ts"),
        parts("@std", "path", Some("1.0.0"), Some("posix/mod.ts"))
    );
    assert_eq!(parse_jsr_path("/@std/path/"), parts("@std", "path", None, Some("")));
    assert_eq!(parse_jsr_path("/@std/a@b@c//x"), parts("@std", "a@b", Some("c"), Some("/x")));
    assert_eq!(parse_jsr_path("/@std/path@"), parts("@std", "path", Some(""), None));
    for bad in ["", "/", "/@std", "/std/path", "/@std/", "/@std/@1.0.0", "//"] {
        assert_eq!(parse_jsr_path(bad), None, "text was {bad:?}");
    }
}

#[test]
fn jsr_specifiers() {
    assert_eq!(resolve_jsr_specifier("jsr:@std/path"), Ok("https://jsr.io/@std/path".to_string()));
    assert_eq!(
        resolve_jsr_specifier("jsr:/@std/path@1.0.0"),
        Ok("https://jsr.io/@std/path@1.0.0".to_string())
    );
    assert_eq!(
        resolve_jsr_specifier("jsr:@std/path@^1/posix/mod.ts"),
        Ok("https://jsr.io/@std/path@^1/posix/mod.ts".to_string())
    );
    assert_eq!(
        resolve_jsr_specifier("jsr:@std/path/posix"),
        Ok("https://jsr.io/@std/path/posix".to_string())
    );
    assert_eq!(resolve_jsr_specifier("jsr:@std/path@"), Ok("https://jsr.io/@std/path".to_string()));
    assert_eq!(resolve_jsr_specifier("jsr:@std/path/"), Ok("https://jsr.io/@std/path".to_string()));
    assert_eq!(resolve_jsr_specifier("npm:x"), Err(JsrError::NotJsr));
    assert_eq!(resolve_jsr_specifier("jsr"), Err(JsrError::NotJsr));
    assert_eq!(resolve_jsr_specifier("jsr:"), Err(JsrError::MissingScope));
    assert_eq!(resolve_jsr_specifier("jsr:std/path"), Err(JsrError::MissingScope));
    assert_eq!(resolve_jsr_specifier("jsr:@std"), Err(JsrError::MissingPackage));
    assert_eq!(resolve_jsr_specifier("jsr:@std/"), Err(JsrError::MissingPackage));
    assert_eq!(resolve_jsr_specifier("jsr:@std/@1.0.0"), Err(JsrError::MissingPackageName));
    assert_eq!(resolve_jsr_specifier("jsr:@std//x"), Err(JsrError::MissingPackageName));
    assert_eq!(JsrError::NotJsr.message(), "Not a jsr: specifier");
    assert_eq!(JsrError::MissingScope.message(), "jsr: specifier must start with @scope/package");
    assert_eq!(JsrError::MissingPackage.message(), "jsr: specifier must be @scope/package");
    assert_eq!(JsrError::MissingPackageName.message(), "jsr: specifier missing package name");
}

#[test]
fn npm_specifiers() {
    assert_eq!(resolve_npm_specifier("npm:left-pad@1"), Some("https://esm.sh/left-pad@1".into()));
    assert_eq!(resolve_npm_specifier("npm:"), Some("https://esm.sh/".into()));
    assert_eq!(resolve_npm_specifier("jsr:@a/b"), None);
    assert_eq!(resolve_npm_specifier(""), None);
}

#[test]
fn package_entries_on_jsr() {
    assert!(is_jsr_package_entry_url("https", Some("jsr.io"), "/@std/path"));
    assert!(is_jsr_package_entry_url("https", Some("jsr.io"), "/@std/path@1.0.0/posix"));
    assert!(is_jsr_package_entry_url("https", Some("jsr.io"), "/@std/path/1.2"));
    assert!(!is_jsr_package_entry_url("https", Some("jsr.io"), "/@std/path/1.2.3/mod.ts"));
    assert!(!is_jsr_package_entry_url("https", Some("jsr.io"), "/@std/path/1.2.3-rc.1/mod.ts"));
    assert!(!is_jsr_package_entry_url("http", Some("jsr.io"), "/@std/path"));
    assert!(!is_jsr_package_entry_url("https", Some("esm.sh"), "/@std/path"));
    assert!(!is_jsr_package_entry_url("https", None, "/@std/path"));
    assert!(!is_jsr_package_entry_url("https", Some("jsr.io"), "/@std"));
    assert!(!is_jsr_package_entry_url("https", Some("jsr.io"), "/std/path"));
}

#[test]
fn media_types() {
    assert_eq!(media_type_from_specifier("/a/b.ts", "file"), MediaType::TypeScript);
    assert_eq!(media_type_from_specifier("/a/b.mts", "file"), MediaType::TypeScript);
    assert_eq!(media_type_from_specifier("/a/b.cts", "file"), MediaType::TypeScript);
    assert_eq!(media_type_from_specifier("/a/b.tsx", "file"), MediaType::Tsx);
    assert_eq!(media_type_from_specifier("/a.b/c.js", "file"), MediaType::JavaScript);
    assert_eq!(media_type_from_specifier("/a/b.mjs", "https"), MediaType::JavaScript);
    assert_eq!(media_type_from_specifier("/a/b.cjs", "https"), MediaType::JavaScript);
    assert_eq!(media_type_from_specifier("/a/b.jsx", "file"), MediaType::Jsx);
    assert_eq!(media_type_from_specifier("/a/b.json", "file"), MediaType::Json);
    assert_eq!(media_type_from_specifier("ts", "file"), MediaType::TypeScript);
    assert_eq!(media_type_from_specifier("/a/b.TS", "file"), MediaType::Unknown);
    assert_eq!(media_type_from_specifier("/a/b", "file"), MediaType::Unknown);
    assert_eq!(media_type_from_specifier("/a/b.", "jsr"), MediaType::Unknown);
    assert_eq!(media_type_from_specifier("/a/b", "https"), MediaType::TypeScript);
    assert_eq!(media_type_from_specifier("/a/b.wasm", "http"), MediaType::TypeScript);

    let by_content = |ct: &str| media_type_from_content_type(ct, "/x.json", "file");
    assert_eq!(by_content("application/typescript"), MediaType::TypeScript);
    assert_eq!(by_content("text/typescript; charset=utf-8"), MediaType::TypeScript);
    assert_eq!(by_content(" application/javascript ;x"), MediaType::JavaScript);
    assert_eq!(by_content("text/javascript"), MediaType::JavaScript);
    assert_eq!(by_content("application/x-javascript"), MediaType::JavaScript);
    assert_eq!(media_type_from_content_type("application/json", "/x.ts", "file"), MediaType::Json);
    assert_eq!(media_type_from_content_type("text/json", "/x.ts", "file"), MediaType::Json);
    assert_eq!(by_content("text/tsx"), MediaType::Tsx);
    assert_eq!(by_content("text/jsx"), MediaType::Jsx);
    assert_eq!(by_content("Text/JSX"), MediaType::Json);
    assert_eq!(by_content(""), MediaType::Json);
    assert_eq!(by_content(";text/jsx"), MediaType::Json);
    assert_eq!(media_type_from_content_type("text/plain", "/x", "https"), MediaType::TypeScript);
}

#[test]
fn module_plans() {
    for remote in [false, true] {
        assert_eq!(plan_module(MediaType::JavaScript, remote), Some((ModuleType::JavaScript, false)));
        assert_eq!(plan_module(MediaType::Mjs, remote), Some((ModuleType::JavaScript, false)));
        assert_eq!(plan_module(MediaType::Cjs, remote), Some((ModuleType::JavaScript, false)));
        assert_eq!(plan_module(MediaType::Jsx, remote), Some((ModuleType::JavaScript, true)));
        assert_eq!(plan_module(MediaType::TypeScript, remote), Some((ModuleType::JavaScript, true)));
        assert_eq!(plan_module(MediaType::Dts, remote), Some((ModuleType::JavaScript, true)));
        assert_eq!(plan_module(MediaType::Tsx, remote), Some((ModuleType::JavaScript, true)));
        assert_eq!(plan_module(MediaType::Json, remote), Some((ModuleType::Json, false)));
    }
    assert_eq!(plan_module(MediaType::Unknown, false), None);
    assert_eq!(plan_module(MediaType::Wasm, false), None);
    assert_eq!(plan_module(MediaType::Unknown, true), Some((ModuleType::JavaScript, false)));
    assert_eq!(plan_module(MediaType::Css, true), Some((ModuleType::JavaScript, false)));
}

#[test]
fn resolutions() {
    assert_eq!(resolution_for("npm:x"), Resolution::Npm);
    assert_eq!(resolution_for("jsr:@a/b"), Resolution::Jsr);
    assert_eq!(resolution_for("https://a/b"), Resolution::Address);
    assert_eq!(resolution_for("http://a/b"), Resolution::Address);
    assert_eq!(resolution_for("./x.ts"), Resolution::Import);
    assert_eq!(resolution_for("https:/a"), Resolution::Import);
    assert_eq!(resolution_for(""), Resolution::Import);
}

#[test]
fn addresses_of_a_package_on_jsr() {
    assert_eq!(jsr_package_meta_url("@std", "path"), "https://jsr.io/@std/path/meta.json");
    assert_eq!(
        jsr_version_meta_url("@std", "path", "1.0.0"),
        "https://jsr.io/@std/path/1.0.0_meta.json"
    );
    assert_eq!(jsr_export_key(&None), ".");
    assert_eq!(jsr_export_key(&Some(String::new())), ".");
    assert_eq!(jsr_export_key(&Some("posix/mod".to_string())), "./posix/mod");
    assert_eq!(
        jsr_module_url("@std", "path", "1.0.0", "./mod.ts"),
        "https://jsr.io/@std/path/1.0.0/mod.ts"
    );
    assert_eq!(
        jsr_module_url("@std", "path", "1.0.0", "././//posix/./mod.ts"),
        "https://jsr.io/@std/path/1.0.0/posix/./mod.ts"
    );
    assert_eq!(jsr_module_url("@s", "p", "1", "mod.ts"), "https://jsr.io/@s/p/1/mod.ts");
    assert_eq!(jsr_version(Some("1".into()), Some("2".into())), Some("1".to_string()));
    assert_eq!(jsr_version(None, Some("2".into())), Some("2".to_string()));
    assert_eq!(jsr_version(None, None), None);
}

#[test]
fn kinds_and_levels_by_name() {
    assert_eq!(widget_kind_from_name("Label"), WidgetKind::Label);
    assert_eq!(widget_kind_from_name("label"), WidgetKind::Label);
    assert_eq!(widget_kind_from_name("Button"), WidgetKind::Button);
    assert_eq!(widget_kind_from_name("button"), WidgetKind::Button);
    assert_eq!(widget_kind_from_name("TextInput"), WidgetKind::TextInput);
    assert_eq!(widget_kind_from_name("textInput"), WidgetKind::TextInput);
    assert_eq!(widget_kind_from_name("text_input"), WidgetKind::TextInput);
    assert_eq!(widget_kind_from_name("TextArea"), WidgetKind::TextArea);
    assert_eq!(widget_kind_from_name("textArea"), WidgetKind::TextArea);
    assert_eq!(widget_kind_from_name("text_area"), WidgetKind::TextArea);
    assert_eq!(widget_kind_from_name("Container"), WidgetKind::Container);
    assert_eq!(widget_kind_from_name("container"), WidgetKind::Container);
    assert_eq!(widget_kind_from_name("Flex"), WidgetKind::Flex);
    assert_eq!(widget_kind_from_name("flex"), WidgetKind::Flex);
    assert_eq!(widget_kind_from_name("LABEL"), WidgetKind::Custom("LABEL".to_string()));
    assert_eq!(widget_kind_from_name("slider"), WidgetKind::Custom("slider".to_string()));
    assert_eq!(widget_kind_from_name(""), WidgetKind::Custom(String::new()));
    assert_eq!(log_level_from_name("debug"), LogLevel::Debug);
    assert_eq!(log_level_from_name("info"), LogLevel::Info);
    assert_eq!(log_level_from_name("warn"), LogLevel::Warn);
    assert_eq!(log_level_from_name("error"), LogLevel::Error);
    assert_eq!(log_level_from_name("ERROR"), LogLevel::Info);
    assert_eq!(log_level_from_name("trace"), LogLevel::Info);
}

#[test]
fn operations_build_their_commands() {
    let title: Command = op_set_title("T");
    assert_eq!(title, JsCommand::SetTitle("T".to_string()));
    let created: Command = op_create_widget("a", "button", Some("p".to_string()));
    assert_eq!(
        created,
        JsCommand::CreateWidget {
            id: "a".to_string(),
            kind: WidgetKind::Button,
            parent_id: Some("p".to_string()),
            text: None,
            style: None,
            data: None,
        }
    );
    let removed: Command = op_remove_widget("a");
    assert_eq!(removed, JsCommand::RemoveWidget { id: "a".to_string() });
    let text: Command = op_set_widget_text("a", "t");
    assert_eq!(text, JsCommand::SetWidgetText { id: "a".to_string(), text: "t".to_string() });
    let visible: Command = op_set_widget_visible("a", true);
    assert_eq!(visible, JsCommand::SetWidgetVisible { id: "a".to_string(), visible: true });
    let resized: Command = op_resize_window(1, 2);
    assert_eq!(resized, JsCommand::ResizeWindow { width: 1, height: 2 });
    let closed: Command = op_close_window();
    assert_eq!(closed, JsCommand::CloseWindow);
    let exited: Command = op_exit_app();
    assert_eq!(exited, JsCommand::ExitApp);
    let logged: Command = op_log("warn", "m");
    assert_eq!(logged, JsCommand::Log { level: LogLevel::Warn, message: "m".to_string() });
}

#[test]
fn a_closed_queue_is_told_as_the_disconnected_sentinel() {
    assert_eq!(op_wait_for_event(None), r#"{"type":"disconnected"}"#);
    assert_eq!(op_wait_for_event(Some(UiEvent::AppExit)), r#"{"type":"appExit"}"#);
    assert_eq!(
        op_wait_for_event(Some(UiEvent::WindowFocusChanged { focused: true })),
        r#"{"type":"windowFocusChanged","focused":true}"#
    );
}

#[test]
fn the_default_script_is_main_js() {
    assert_eq!(JsRuntimeConfig::default().script_path, "./main.js");
}
