use halley_wl::render::raster::RasterFormat;
use halley_wl::paths::{extension, file_name, file_stem, join_path, path_components, path_lt, PathPart};
use halley_wl::render::app_icon::{
    app_icon_candidates, app_id_tail, data_roots, desktop_entry_dirs, desktop_entry_matches,
    find_best_icon_path, icon_candidate_score, icon_format, icon_score_in_range, icon_search_roots,
    icon_size_hint,
    parse_desktop_entry, push_unique, unescape_desktop_value, IconFormat,
};
use halley_wl::render::app_icon::{
    app_icon_load_order, first_matching_desktop_icon, DesktopEntry, IconNode,
};

#[test]
fn push_unique_skips_blank_and_repeated_names() {
    let mut v = vec!["a".to_string()];
    push_unique(&mut v, "a".to_string());
    push_unique(&mut v, "  ".to_string());
    push_unique(&mut v, "b".to_string());
    assert_eq!(v, vec!["a".to_string(), "b".to_string()]);
}

#[test]
fn icon_candidates_try_id_then_tail_then_desktop_icon() {
    assert_eq!(app_id_tail("org.gnome.Nautilus"), "Nautilus");
    assert_eq!(app_id_tail("a/b.c/d"), "d");
    assert_eq!(app_id_tail("firefox"), "firefox");
    assert_eq!(app_id_tail("trailing."), "");
    assert_eq!(
        app_icon_candidates("org.gnome.Nautilus", Some("system-file-manager".to_string())),
        vec![
            "org.gnome.Nautilus".to_string(),
            "Nautilus".to_string(),
            "system-file-manager".to_string()
        ]
    );
    assert_eq!(app_icon_candidates("firefox", Some("firefox".to_string())), vec!["firefox".to_string()]);
}

#[test]
fn desktop_values_are_unescaped_and_unquoted() {
    assert_eq!(unescape_desktop_value("\"my\\sicon\" "), "my icon");
    assert_eq!(unescape_desktop_value("a\\tb\\nc"), "a b c");
    assert_eq!(unescape_desktop_value("\\\\s"), "\\");
}

#[test]
fn desktop_entry_reads_only_its_group() {
    let text = "# comment\n[Desktop Action new]\nIcon=wrong\n[desktop entry]\r\nName=Files\n  Icon=org.gnome.Nautilus  \nStartupWMClass=nautilus\n[Other]\nIcon=also-wrong";
    let entry = parse_desktop_entry(text);
    assert_eq!(entry.icon, Some("org.gnome.Nautilus".to_string()));
    assert_eq!(entry.startup_wm_class, Some("nautilus".to_string()));
    let empty = parse_desktop_entry("");
    assert_eq!(empty.icon, None);
}

#[test]
fn desktop_entry_match_by_stem_or_wm_class() {
    assert!(desktop_entry_matches(Some("Firefox"), None, "firefox"));
    assert!(desktop_entry_matches(None, Some("FIREFOX"), "firefox"));
    assert!(!desktop_entry_matches(Some("chromium"), Some("Chromium"), "firefox"));
}

#[test]
fn path_parts_follow_std() {
    assert_eq!(
        path_components("/usr//share/./icons/"),
        vec![
            PathPart::RootDir,
            PathPart::Normal("usr".into()),
            PathPart::Normal("share".into()),
            PathPart::Normal("icons".into())
        ]
    );
    assert_eq!(path_components("./a/.."), vec![PathPart::CurDir, PathPart::Normal("a".into()), PathPart::ParentDir]);
    assert_eq!(file_name("/a/b.tar.gz"), Some("b.tar.gz".to_string()));
    assert_eq!(file_stem("/a/b.tar.gz"), Some("b.tar".to_string()));
    assert_eq!(extension("/a/b.tar.gz"), Some("gz".to_string()));
    assert_eq!(extension("/a/.bashrc"), None);
    assert_eq!(file_stem("/a/.bashrc"), Some(".bashrc".to_string()));
    assert_eq!(extension("/a/b."), Some(String::new()));
    assert_eq!(file_name("/a/.."), None);
    assert_eq!(join_path("/a", "b"), "/a/b");
    assert_eq!(join_path("/a/", "/b"), "/b");
}

#[test]
fn path_order_is_by_component() {
    // "/a/b" < "/a-b" by component ("a" < "a-b"), though '/' > '-' as text.
    assert!(path_lt("/a/b", "/a-b"));
    assert!(!path_lt("/a-b", "/a/b"));
    assert!(path_lt("/a", "/a/b"));
    assert!(!path_lt("/a", "/a"));
    assert!(path_lt("/x", "relative"));
}

#[test]
fn icon_sizes_and_scores() {
    assert_eq!(icon_size_hint("/usr/share/icons/hicolor/48x48/apps/f.png"), Some(48));
    assert_eq!(icon_size_hint("/usr/share/icons/hicolor/SCALABLE/apps/f.svg"), Some(64));
    assert_eq!(icon_size_hint("/usr/share/icons/hicolor/32x64/apps/f.png"), Some(32));
    assert_eq!(icon_size_hint("/usr/share/pixmaps/f.png"), None);
    assert_eq!(icon_candidate_score("/usr/share/icons/hicolor/scalable/apps/f.svg", "f"), Some(12));
    assert_eq!(icon_candidate_score("/usr/share/icons/Papirus/48x48/apps/f.PNG", "f"), Some(56));
    assert_eq!(icon_candidate_score("/usr/share/pixmaps/f.jpeg", "f"), Some(84));
    assert_eq!(icon_candidate_score("/usr/share/pixmaps/f.xpm", "f"), None);
    assert_eq!(icon_candidate_score("/usr/share/pixmaps/g.png", "f"), None);
}

#[test]
fn announced_size_past_i32_wraps_like_a_cast() {
    let path = "/i/3000000000x3000000000/apps/f.png";
    assert!(icon_score_in_range(path, "f"));
    assert_eq!(icon_candidate_score(path, "f"), Some(1_294_967_400));
    let edge = "/i/2147483713x2147483713/apps/f.svg";
    assert!(icon_score_in_range(edge, "f"));
    assert_eq!(icon_candidate_score(edge, "f"), Some(i32::MAX));
}

#[test]
fn icon_score_overflow_is_detected() {
    assert!(!icon_score_in_range("/i/2147483648x2147483648/apps/f.png", "f"));
    assert!(!icon_score_in_range("/i/2147483713x2147483713/apps/f.png", "f"));
    assert!(icon_score_in_range("/i/2147483648x2147483648/apps/g.png", "f"));
    assert!(icon_score_in_range("/usr/share/pixmaps/f.png", "f"));
}

#[test]
fn best_icon_has_lowest_score_then_first_path() {
    let cands = vec![
        (56, "/b/f.png".to_string()),
        (12, "/z/f.svg".to_string()),
        (12, "/a/f.svg".to_string()),
    ];
    assert_eq!(find_best_icon_path(&cands), Some("/a/f.svg".to_string()));
    assert_eq!(find_best_icon_path(&[]), None);
}

#[test]
fn icon_and_entry_roots() {
    let roots = data_roots(None, Some("/home/a"), Some(" "));
    assert_eq!(roots, vec!["/home/a/.local/share".to_string(), "/usr/local/share".to_string(), "/usr/share".to_string()]);
    let roots = data_roots(Some("/xdg"), Some("/home/a"), Some("/opt/share::/usr/share"));
    assert_eq!(roots, vec!["/xdg".to_string(), "/opt/share".to_string(), "/usr/share".to_string()]);
    assert_eq!(desktop_entry_dirs(&["/usr/share".to_string()]), vec!["/usr/share/applications".to_string()]);
    assert_eq!(
        icon_search_roots(&["/usr/share".to_string()], Some("/home/a")),
        vec!["/usr/share/icons".to_string(), "/home/a/.icons".to_string(), "/usr/share/pixmaps".to_string()]
    );
    assert_eq!(icon_format("/x/y.SVG"), Some(IconFormat::Svg));
    assert_eq!(icon_format("/x/y.jpg"), Some(IconFormat::Raster(RasterFormat::Jpeg)));
    assert_eq!(icon_format("/x/y.PNG"), Some(IconFormat::Raster(RasterFormat::Png)));
    assert_eq!(icon_format("/x/y"), None);
}

fn entry(icon: Option<&str>, class: Option<&str>) -> DesktopEntry {
    DesktopEntry {
        icon: icon.map(str::to_string),
        startup_wm_class: class.map(str::to_string),
    }
}

#[test]
fn first_matching_desktop_entry_with_icon_wins() {
    let entries = vec![
        (Some("other".to_string()), entry(Some("nope"), None)),
        (Some("Foot".to_string()), entry(None, None)),
        (Some("x".to_string()), entry(Some("term-class"), Some("FOOT"))),
        (Some("foot".to_string()), entry(Some("foot-icon"), None)),
    ];
    assert_eq!(
        first_matching_desktop_icon(&entries, "foot"),
        Some("term-class".to_string())
    );
    assert_eq!(first_matching_desktop_icon(&entries, "kitty"), None);
    assert_eq!(first_matching_desktop_icon(&[], "foot"), None);
}

fn node(shows_icon: bool, app_id: Option<&str>) -> IconNode {
    IconNode {
        shows_icon,
        app_id: app_id.map(str::to_string),
    }
}

#[test]
fn icons_load_once_per_uncached_app() {
    let nodes = vec![
        node(true, Some("firefox")),
        node(true, Some("foot")),
        node(false, Some("kitty")),
        node(true, None),
        node(true, Some("firefox")),
        node(true, Some("mpv")),
    ];
    let cached = vec!["foot".to_string()];
    assert_eq!(
        app_icon_load_order(&nodes, &cached),
        vec!["firefox".to_string(), "mpv".to_string()]
    );
    assert!(app_icon_load_order(&[], &cached).is_empty());
}
