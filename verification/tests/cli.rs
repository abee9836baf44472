use imgviewer::cli::{cli_path_from_strings, initial_cli_path, is_option, join_path};
use imgviewer::error::ViewerError;
use imgviewer::navigation::{is_allowed_top_level_navigation, navigation_allowed, UrlParts};
use imgviewer::format::display_name;
use imgviewer::text::file_name;

#[test]
fn second_instance_relative_path_uses_second_process_working_directory() {
    let args = vec!["ImgViewer.exe".to_owned(), "images\\1.jpg".to_owned()];
    assert_eq!(
        cli_path_from_strings(&args, "C:\\incoming"),
        Some(String::from("C:\\incoming\\images\\1.jpg"))
    );
}

#[test]
fn command_line_options_are_not_treated_as_image_paths() {
    let args = vec![String::from("ImgViewer.exe"), String::from("--inspect"), String::from("photo.png")];
    assert_eq!(initial_cli_path(&args), Some(String::from("photo.png")));
}

fn url(value: &str) -> UrlParts {
    UrlParts::parse(value).expect("test URL should parse")
}

#[test]
fn production_allows_only_the_embedded_tauri_origin() {
    assert!(is_allowed_top_level_navigation(&url("http://tauri.localhost/"), false));
    for denied in [
        "https://example.com/",
        "https://tauri.localhost/",
        "http://tauri.localhost:8080/",
        "http://attacker@tauri.localhost/",
        "file:///C:/private/photo.jpg",
        "data:text/html,untrusted",
        "blob:http://tauri.localhost/00000000-0000-0000-0000-000000000000",
        "tauri://localhost/",
    ] {
        assert!(
            !is_allowed_top_level_navigation(&url(denied), false),
            "production navigation unexpectedly allowed {denied}"
        );
    }
}

#[test]
fn development_allows_only_the_configured_loopback_origin() {
    assert!(is_allowed_top_level_navigation(&url("http://127.0.0.1:1420/"), true));
    assert!(is_allowed_top_level_navigation(&url("http://127.0.0.1:1420/src/main.ts"), true));

    for denied in [
        "http://localhost:1420/",
        "http://127.0.0.1/",
        "http://127.0.0.1:1421/",
        "https://127.0.0.1:1420/",
        "http://127.0.0.2:1420/",
    ] {
        assert!(
            !is_allowed_top_level_navigation(&url(denied), true),
            "development navigation unexpectedly allowed {denied}"
        );
    }
}

// Additional scenarios.

#[test]
fn dev_origin_is_refused_in_production_and_unparsable_text_never_loads() {
    assert!(!navigation_allowed("http://127.0.0.1:1420/", false));
    assert!(!navigation_allowed("not a url", true));
    assert!(!navigation_allowed("http://user:pw@tauri.localhost/", false));
    assert!(navigation_allowed("http://tauri.localhost/index.html", false));
}

#[test]
fn options_and_path_resolution() {
    assert!(is_option("--flag"));
    assert!(!is_option("photo.png"));
    assert_eq!(initial_cli_path(&vec![String::from("ImgViewer.exe"), String::from("-x")]), None);
    assert_eq!(initial_cli_path(&Vec::new()), None);
    assert_eq!(join_path("C:\\incoming\\", "a.png"), "C:\\incoming\\a.png");
    assert_eq!(join_path("C:\\incoming", "D:\\b.png"), "D:\\b.png");
    assert_eq!(join_path("C:\\incoming", "\\root.png"), "C:\\root.png");
    assert_eq!(join_path("C:", "a.png"), "C:a.png");
    assert_eq!(join_path("\\\\server\\share\\x", "\\foo"), "\\\\server\\share\\foo");
    assert_eq!(join_path("\\\\server\\share", "\\foo"), "\\\\server\\share\\foo");
    assert_eq!(join_path("relative\\dir", "\\foo"), "\\foo");
}

#[test]
fn file_names_and_display_names() {
    assert_eq!(file_name("C:\\photos\\2.png").as_deref(), Some("2.png"));
    assert_eq!(file_name("C:\\photos\\dir\\").as_deref(), Some("dir"));
    assert_eq!(file_name("C:\\photos\\..").as_deref(), None);
    assert_eq!(display_name("C:\\photos\\2.png"), "2.png");
    assert_eq!(file_name("C:\\photos\\2.png\\.").as_deref(), Some("2.png"));
    assert_eq!(file_name("C:foo.png").as_deref(), Some("foo.png"));
    assert_eq!(file_name("C:\\").as_deref(), None);
    assert_eq!(display_name("C:\\photos\\dir\\"), "dir");
    assert_eq!(display_name("C:\\"), "C:\\");
    assert_eq!(ViewerError::io("read failed").to_string(), "io_error: read failed");
}
