use ipa_repack::paths::container_name;
use ipa_repack::paths::container_path;
use ipa_repack::paths::directory_name;
use ipa_repack::paths::get_relative_path;
use ipa_repack::paths::icon_entry;
use ipa_repack::paths::manifest_path;
use ipa_repack::paths::matches_icon;
use ipa_repack::paths::relative_path;
use ipa_repack::paths::resolve_icon;
use ipa_repack::text::blank;
use ipa_repack::text::chars_le;
use ipa_repack::text::contains;
use ipa_repack::text::count_char;
use ipa_repack::text::ends_with;
use ipa_repack::text::matches_at;
use ipa_repack::text::same_chars;
use ipa_repack::text::space_char;
use ipa_repack::text::starts_with;
use ipa_repack::text::to_chars;

fn chars(s: &str) -> Vec<char> {
    s.chars().collect()
}

fn strings(items: &[&str]) -> Vec<String> {
    items.iter().map(|s| s.to_string()).collect()
}

#[test]
fn to_chars_keeps_every_character() {
    assert_eq!(to_chars("a/ü界"), vec!['a', '/', 'ü', '界']);
    assert_eq!(to_chars(""), Vec::<char>::new());
}

#[test]
fn same_chars_compares_whole_sequences() {
    assert!(same_chars(&chars("abc"), &chars("abc")));
    assert!(!same_chars(&chars("abc"), &chars("abd")));
    assert!(!same_chars(&chars("abc"), &chars("ab")));
    assert!(same_chars(&chars(""), &chars("")));
}

#[test]
fn prefix_suffix_and_infix() {
    let hay = chars("Payload/Demo.app/Info.plist");
    assert!(starts_with(&hay, &chars("Payload/")));
    assert!(!starts_with(&hay, &chars("payload/")));
    assert!(ends_with(&hay, &chars(".app/Info.plist")));
    assert!(!ends_with(&hay, &chars(".app/Info.plis")));
    assert!(contains(&hay, &chars("Demo.app")));
    assert!(contains(&hay, &chars("")));
    assert!(!contains(&hay, &chars("Demo.App")));
    assert!(!starts_with(&chars("Pay"), &chars("Payload/")));
    assert!(!ends_with(&chars("t"), &chars("list")));
    assert!(!contains(&chars("ab"), &chars("abc")));
    assert!(contains(&chars("xxabc"), &chars("abc")));
}

#[test]
fn count_char_counts_separators() {
    assert_eq!(count_char(&chars("Payload/Demo.app/Info.plist"), '/'), 2);
    assert_eq!(count_char(&chars("Info.plist"), '/'), 0);
    assert_eq!(count_char(&chars("///"), '/'), 3);
    assert_eq!(count_char(&chars(""), '/'), 0);
}

#[test]
fn space_char_agrees_with_unicode_white_space() {
    let mut code: u32 = 0;
    while code <= 0x3100 {
        if let Some(c) = char::from_u32(code) {
            assert_eq!(space_char(c), c.is_whitespace(), "U+{:04X}", code);
        }
        code += 1;
    }
    assert!(!space_char('\u{FEFF}'));
    assert!(!space_char('\u{10FFFF}'));
}

#[test]
fn blank_is_empty_after_trim() {
    assert!(blank(""));
    assert!(blank("   "));
    assert!(blank(" \t\r\n\u{3000}"));
    assert!(!blank(" a "));
    assert!(!blank("0"));
    for sample in ["", " ", "x", " x", "\u{A0}", "\u{200B}"] {
        assert_eq!(blank(sample), sample.trim().is_empty());
    }
}

#[test]
fn chars_le_is_the_order_of_strings() {
    let samples = ["", "a", "a.png", "b.png", "ab", "B", "c.png", "é", "z", "Icon@2x", "Icon"];
    for a in samples {
        for b in samples {
            assert_eq!(chars_le(&chars(a), &chars(b)), a <= b, "{:?} <= {:?}", a, b);
        }
    }
}

#[test]
fn directory_names_end_with_a_separator() {
    assert!(directory_name("Payload/"));
    assert!(directory_name("Payload/Demo.app/"));
    assert!(directory_name("/"));
    assert!(!directory_name("Payload/Demo.app/Info.plist"));
    assert!(!directory_name(""));
}

#[test]
fn manifest_path_needs_root_depth_and_tail() {
    assert!(manifest_path("Payload/Demo.app/Info.plist"));
    assert!(manifest_path("Payload/.app/Info.plist"));
    assert!(manifest_path("Payload/My Demo.app/Info.plist"));
    assert!(!manifest_path("Payload/Demo.app/Sub/Info.plist"));
    assert!(!manifest_path("Payload/Demo.app/PlugIns/Ext.app/Info.plist"));
    assert!(!manifest_path("payload/Demo.app/Info.plist"));
    assert!(!manifest_path("Payload/Demo.appex/Info.plist"));
    assert!(!manifest_path("Payload/Demo.app/info.plist"));
    assert!(!manifest_path("Other/Demo.app/Info.plist"));
    assert!(!manifest_path("Payload/Demo.app/"));
    assert!(!manifest_path(""));
}

#[test]
fn container_name_is_the_second_segment() {
    assert_eq!(container_name("Payload/Demo.app/Info.plist"), Some("Demo.app".to_string()));
    assert_eq!(container_name("Payload/Demo.app"), Some("Demo.app".to_string()));
    assert_eq!(container_name("Payload/"), Some("".to_string()));
    assert_eq!(container_name("Payload//x"), Some("".to_string()));
    assert_eq!(container_name("a/b/c/d"), Some("b".to_string()));
    assert_eq!(container_name("Payload"), None);
    assert_eq!(container_name(""), None);
    assert_eq!(container_name("Payload/Ünï.app/Info.plist"), Some("Ünï.app".to_string()));
}

#[test]
fn container_path_joins_root_container_and_file() {
    assert_eq!(
        container_path("Demo.app", "icon_app_ipadump_com.png"),
        "Payload/Demo.app/icon_app_ipadump_com.png"
    );
    assert_eq!(container_path("", ""), "Payload//");
}

#[test]
fn icon_entry_accepts_exact_path_and_marked_raster() {
    let candidates = strings(&["AppIcon60x60", "Icon.png"]);
    assert!(icon_entry("Payload/Demo.app/Icon.png", "Demo.app", &candidates));
    assert!(icon_entry("Payload/Demo.app/AppIcon60x60@2x.png", "Demo.app", &candidates));
    assert!(icon_entry("Payload/Demo.app/AppIcon60x60", "Demo.app", &candidates));
    assert!(icon_entry("Payload/Other.app/AppIcon60x60@3x.png", "Demo.app", &candidates));
    assert!(!icon_entry("Payload/Demo.app/AppIcon60x60@2x.jpg", "Demo.app", &candidates));
    assert!(!icon_entry("Payload/Demo.app/AppIcon76x76@2x.png", "Demo.app", &candidates));
    assert!(!icon_entry("Payload/Demo.app/Assets/AppIcon60x60@2x.png", "Demo.app", &candidates));
    assert!(!icon_entry("Other/Demo.app/AppIcon60x60@2x.png", "Demo.app", &candidates));
    assert!(!icon_entry("Payload/Demo.app/Icon.png", "Demo.app", &Vec::new()));
}

#[test]
fn resolve_icon_returns_the_first_entry_in_archive_order() {
    let names = strings(
        &[
            "Payload/Demo.app/Info.plist",
            "Payload/Demo.app/Assets/AppIcon60x60@2x.png",
            "Payload/Demo.app/AppIcon60x60@3x.png",
            "Payload/Demo.app/Icon.png",
        ],
    );
    let candidates = strings(&["Icon.png", "AppIcon60x60"]);
    assert_eq!(resolve_icon(&candidates, &names, "Demo.app"), Some(2));
    assert_eq!(resolve_icon(&strings(&["Icon.png"]), &names, "Demo.app"), Some(3));
    assert_eq!(resolve_icon(&strings(&["Missing"]), &names, "Demo.app"), None);
    assert_eq!(resolve_icon(&Vec::new(), &names, "Demo.app"), None);
}

#[test]
fn relative_path_follows_the_directory_and_one_separator() {
    assert_eq!(get_relative_path("input/dir/file.txt", "input/dir"), "file.txt");
    assert_eq!(get_relative_path("abc", "ab"), "");
    assert_eq!(get_relative_path("dir/ünï", "dir"), "ünï");
    assert_eq!(relative_path("input/dir/file.txt", "input"), Some("dir/file.txt".to_string()));
    assert_eq!(relative_path("abc", "abc"), None);
    assert_eq!(relative_path("ab", "abc"), None);
    assert_eq!(relative_path("xü", ""), Some("ü".to_string()));
    assert_eq!(relative_path("üx", ""), None);
}

#[test]
fn matches_at_compares_at_a_position() {
    let hay = chars("Payload/Demo.app");
    assert!(matches_at(&hay, &chars("Demo"), 8));
    assert!(!matches_at(&hay, &chars("Demo"), 7));
    assert!(matches_at(&hay, &chars(""), 16));
    assert!(!matches_at(&hay, &chars(""), 17));
    assert!(!matches_at(&hay, &chars(".apps"), 12));
    assert!(matches_at(&hay, &chars(".app"), 12));
    assert!(!matches_at(&hay, &chars("x"), usize::MAX));
}

#[test]
fn matches_icon_follows_both_rules() {
    let entry = chars("Payload/Demo.app/Icon-60@2x.png");
    assert!(matches_icon(&entry, "Demo.app", "Icon-60"));
    assert!(matches_icon(&entry, "Demo.app", "Icon-60@2x.png"));
    assert!(matches_icon(&entry, "Other.app", "Icon-60@2x.png"));
    assert!(!matches_icon(&entry, "Demo.app", "Icon-76"));
    assert!(!matches_icon(&chars("Payload/Demo.app/Icon-60@2x.jpg"), "Demo.app", "Icon-60"));
    assert!(matches_icon(&chars("Payload/Demo.app/Icon-60@2x.jpg"), "Demo.app", "Icon-60@2x.jpg"));
    assert!(!matches_icon(&chars("Other/Demo.app/Icon-60.png"), "Demo.app", "Icon-60"));
    assert!(matches_icon(&chars("Payload/Demo/Icon"), "Demo", "Icon"));
}
