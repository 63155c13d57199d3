use halley_wl::render::text::{
    fold_font_name, font_size_for_scale, keep_text_cache_entry, normalized_family,
    resolve_family, resolve_named_family, FamilyKind, FontConfig, FontFace,
};

#[test]
fn legacy_scale_maps_font_sizes_from_runtime_config() {
    let font = FontConfig {
        family: "monospace".to_string(),
        size: 11,
        weight: 500,
    };

    assert_eq!(font_size_for_scale(&font, 1), 9);
    assert_eq!(font_size_for_scale(&font, 2), 11);
    assert_eq!(font_size_for_scale(&font, 3), 15);
}

#[test]
fn font_size_has_a_floor_and_grows_per_step() {
    let font = FontConfig { family: String::new(), size: 4, weight: 400 };
    assert_eq!(font_size_for_scale(&font, 0), 8);
    assert_eq!(font_size_for_scale(&font, -3), 8);
    assert_eq!(font_size_for_scale(&font, 5), 16);
    let big = FontConfig { family: String::new(), size: u32::MAX - 1, weight: 400 };
    assert_eq!(font_size_for_scale(&big, 9), u32::MAX);
}

#[test]
fn blank_family_takes_the_default() {
    let font = FontConfig { family: "   ".to_string(), size: 11, weight: 400 };
    assert_eq!(normalized_family(&font, "monospace"), "monospace");
    let font = FontConfig { family: "  Inter ".to_string(), size: 11, weight: 400 };
    assert_eq!(normalized_family(&font, "monospace"), "Inter");
}

#[test]
fn generic_family_names_are_recognised() {
    assert!(matches!(resolve_family(" Sans "), FamilyKind::SansSerif));
    assert!(matches!(resolve_family("MONOSPACE"), FamilyKind::Monospace));
    assert!(matches!(resolve_family("sans_serif"), FamilyKind::SansSerif));
    match resolve_family("Fira Code") {
        FamilyKind::Name(n) => assert_eq!(n, "Fira Code"),
        _ => panic!("expected a named family"),
    }
}

#[test]
fn font_names_fold_case_and_separators() {
    assert_eq!(fold_font_name("Fira Code-Retina_Bold"), "firacoderetinabold");
    assert_eq!(fold_font_name("ÉCOLE"), "école");
}

#[test]
fn named_family_resolution_matches_case_insensitively() {
    let faces = vec![
        FontFace { families: vec!["DejaVu Sans".to_string()], post_script_name: "DejaVuSans".to_string() },
        FontFace { families: vec!["Noto Serif".to_string()], post_script_name: "NotoSerif-Bold".to_string() },
    ];
    assert_eq!(resolve_named_family(&faces, "dejavu sans"), Some("DejaVu Sans".to_string()));
    assert_eq!(resolve_named_family(&faces, "notoserif-bold"), Some("Noto Serif".to_string()));
    assert_eq!(resolve_named_family(&faces, "serif"), None);
    assert_eq!(resolve_named_family(&faces, "  "), None);
    assert_eq!(resolve_named_family(&faces, "Missing Font"), None);
}

#[test]
fn shaped_text_cache_keeps_recent_entries() {
    assert!(keep_text_cache_entry(1_000, 30_999));
    assert!(!keep_text_cache_entry(1_000, 31_000));
    assert!(keep_text_cache_entry(5_000, 1_000));
}

#[test]
fn font_names_fold_alike_up_to_ascii_case() {
    assert_eq!(fold_font_name("DejaVu Sans"), fold_font_name("dejavu sans"));
    assert_eq!(fold_font_name("DejaVu Sans"), "dejavusans");
    let faces = vec![FontFace { families: vec!["DejaVu Sans".to_string()], post_script_name: "DejaVuSans".to_string() }];
    assert_eq!(resolve_named_family(&faces, "dejavu sans"), Some("DejaVu Sans".to_string()));
    assert_eq!(resolve_named_family(&faces, "DEJAVU-SANS"), Some("DejaVu Sans".to_string()));
}
