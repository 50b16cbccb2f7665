use ipa_repack::codec::begins_as_xml;
use ipa_repack::codec::parse_manifest;
use ipa_repack::codec::text_of_bytes;
use ipa_repack::codec::write_manifest;
use ipa_repack::edit::edit_manifest;
use ipa_repack::manifest::Dictionary;
use ipa_repack::manifest::Node;
use ipa_repack::CFBundleIcons;
use ipa_repack::CFBundlePrimaryIcon;
use ipa_repack::IpaError;
use ipa_repack::IpaXmlInfo;

const MANIFEST: &str = r#"<?xml version="1.0" encoding="UTF-8"?>
<!DOCTYPE plist PUBLIC "-//Apple//DTD PLIST 1.0//EN" "http://www.apple.com/DTDs/PropertyList-1.0.dtd">
<plist version="1.0">
<dict>
	<key>CFBundleName</key>
	<string>Demo</string>
	<key>CFBundleDisplayName</key>
	<string>Demo App</string>
	<key>CFBundleIdentifier</key>
	<string>com.example.demo</string>
	<key>CFBundleShortVersionString</key>
	<string>1.2.3</string>
	<key>MinimumOSVersion</key>
	<string>12.0</string>
	<key>CFBundleIcons</key>
	<dict>
		<key>CFBundlePrimaryIcon</key>
		<dict>
			<key>CFBundleIconFiles</key>
			<array>
				<string>b.png</string>
				<string>a.png</string>
			</array>
			<key>CFBundleIconName</key>
			<string>AppIcon</string>
		</dict>
	</dict>
	<key>CFBundleIconFiles</key>
	<array>
		<string>c.png</string>
	</array>
	<key>UIDeviceFamily</key>
	<array>
		<integer>1</integer>
		<integer>2</integer>
	</array>
	<key>CFBundleURLTypes</key>
	<array>
		<dict>
			<key>CFBundleURLSchemes</key>
			<array>
				<string>demo</string>
			</array>
		</dict>
	</array>
	<key>LSRequiresIPhoneOS</key>
	<true/>
</dict>
</plist>
"#;

fn text(s: &str) -> Node {
    Node::String(s.to_string())
}

fn list(items: &[&str]) -> Node {
    Node::Array(items.iter().map(|s| text(s)).collect())
}

fn string_of(node: Option<&Node>) -> Option<String> {
    match node {
        Some(Node::String(s)) => Some(s.clone()),
        _ => None,
    }
}

fn root_of(document: &Node) -> &Dictionary {
    match document.as_dictionary() {
        Some(root) => root,
        None => panic!("the root is no dictionary"),
    }
}

fn binary_manifest() -> Vec<u8> {
    let value = plist::Value::from_reader_xml(MANIFEST.as_bytes()).unwrap();
    let mut bytes = Vec::new();
    value.to_writer_binary(&mut bytes).unwrap();
    bytes
}

#[test]
fn dictionary_insert_appends_new_keys_in_order() {
    let mut d = Dictionary::new();
    assert_eq!(d.len(), 0);
    d.insert("first".to_string(), text("1"));
    d.insert("second".to_string(), Node::Boolean(true));
    d.insert("third".to_string(), list(&["x"]));
    assert_eq!(d.len(), 3);
    assert_eq!(d.get_string("first"), Some("1".to_string()));
    assert!(matches!(d.get("second"), Some(Node::Boolean(true))));
    assert_eq!(d.get_strings("third"), Some(vec!["x".to_string()]));
    assert!(d.get("fourth").is_none());
}

#[test]
fn dictionary_insert_overwrites_an_existing_key_in_place() {
    let mut d = Dictionary::new();
    d.insert("a".to_string(), text("1"));
    d.insert("b".to_string(), text("2"));
    d.insert("a".to_string(), text("3"));
    assert_eq!(d.len(), 2);
    assert_eq!(d.get_string("a"), Some("3".to_string()));
    assert_eq!(d.get_string("b"), Some("2".to_string()));
    let xml = write_manifest(&Node::Dictionary(d)).unwrap();
    let written = String::from_utf8(xml).unwrap();
    let a = written.find("<key>a</key>").unwrap();
    let b = written.find("<key>b</key>").unwrap();
    assert!(a < b);
    assert_eq!(written.matches("<key>a</key>").count(), 1);
}

#[test]
fn typed_getters_treat_a_wrong_type_as_absent() {
    let mut d = Dictionary::new();
    d.insert("flag".to_string(), Node::Boolean(true));
    d.insert("name".to_string(), text("Demo"));
    d.insert("mixed".to_string(), Node::Array(vec![text("a"), Node::Boolean(false)]));
    d.insert("nested".to_string(), Node::Dictionary(Dictionary::new()));
    assert_eq!(d.get_string("flag"), None);
    assert_eq!(d.get_string("missing"), None);
    assert_eq!(d.get_string("name"), Some("Demo".to_string()));
    assert_eq!(d.get_strings("mixed"), None);
    assert_eq!(d.get_strings("name"), None);
    assert!(d.get_dictionary("name").is_none());
    assert!(d.get_dictionary("nested").is_some());
    assert_eq!(d.get_dictionary("nested").unwrap().len(), 0);
}

#[test]
fn node_accessors_tell_the_kinds_apart() {
    assert_eq!(text("x").as_string(), Some(&"x".to_string()));
    assert!(Node::Boolean(true).as_string().is_none());
    assert_eq!(list(&["a", "b"]).as_array().map(|items| items.len()), Some(2));
    assert!(text("x").as_array().is_none());
    assert!(text("x").as_dictionary().is_none());
    assert_eq!(list(&["a", "b"]).as_strings(), Some(vec!["a".to_string(), "b".to_string()]));
    assert_eq!(list(&[]).as_strings(), Some(Vec::new()));
    assert_eq!(Node::Array(vec![Node::Boolean(true)]).as_strings(), None);
    assert_eq!(text("x").as_strings(), None);
}

#[test]
fn parse_manifest_reads_the_textual_encoding() {
    let document = parse_manifest(MANIFEST.as_bytes()).unwrap();
    let root = root_of(&document);
    assert_eq!(root.len(), 10);
    assert_eq!(root.get_string("CFBundleName"), Some("Demo".to_string()));
    assert_eq!(root.get_string("CFBundleIdentifier"), Some("com.example.demo".to_string()));
    assert!(matches!(root.get("LSRequiresIPhoneOS"), Some(Node::Boolean(true))));
    match root.get("UIDeviceFamily") {
        Some(Node::Array(items)) => {
            assert_eq!(items.len(), 2);
            assert!(matches!(items[0], Node::Opaque(_)));
        }
        _ => panic!("UIDeviceFamily is no array"),
    }
}

#[test]
fn parse_manifest_reads_the_binary_encoding() {
    let bytes = binary_manifest();
    assert!(bytes.starts_with(b"bplist00"));
    let document = parse_manifest(&bytes).unwrap();
    let root = root_of(&document);
    assert_eq!(root.get_string("CFBundleName"), Some("Demo".to_string()));
    assert_eq!(root.get_string("CFBundleShortVersionString"), Some("1.2.3".to_string()));
    assert_eq!(IpaXmlInfo::from_document(&document).icon_files(), vec!["c.png", "b.png", "a.png"]);
}

#[test]
fn parse_manifest_refuses_what_is_no_manifest() {
    assert!(matches!(parse_manifest(b"this is no manifest"), Err(IpaError::ManifestParse(_))));
    assert!(matches!(parse_manifest(b""), Err(IpaError::ManifestParse(_))));
    let message = parse_manifest(b"bplist00").unwrap_err().message();
    assert!(message.starts_with("Failed to parse plist: "), "{}", message);
}

#[test]
fn write_manifest_emits_the_textual_encoding() {
    let document = parse_manifest(&binary_manifest()).unwrap();
    let xml = write_manifest(&document).unwrap();
    assert!(xml.starts_with(b"<?xml version=\"1.0\" encoding=\"UTF-8\"?>"));
    assert!(begins_as_xml(&xml));
    let again = plist::Value::from_reader_xml(xml.as_slice()).unwrap();
    let original = plist::Value::from_reader_xml(MANIFEST.as_bytes()).unwrap();
    assert_eq!(again, original);
}

#[test]
fn write_manifest_keeps_uninterpreted_leaves() {
    let document = parse_manifest(MANIFEST.as_bytes()).unwrap();
    let xml = String::from_utf8(write_manifest(&document).unwrap()).unwrap();
    assert!(xml.contains("<integer>1</integer>"));
    assert!(xml.contains("<integer>2</integer>"));
    assert!(xml.contains("<key>LSRequiresIPhoneOS</key>"));
}

#[test]
fn write_manifest_fails_on_an_unrepresentable_node() {
    let document = Node::Array(vec![Node::Opaque(plist::Value::Uid(plist::Uid::new(7)))]);
    let error = write_manifest(&document).unwrap_err();
    assert!(matches!(error, IpaError::ManifestWrite(_)));
    assert!(error.message().starts_with("Failed to write xml: "));
}

#[test]
fn begins_as_xml_looks_at_five_bytes() {
    assert!(begins_as_xml(b"<?xml"));
    assert!(begins_as_xml(MANIFEST.as_bytes()));
    assert!(!begins_as_xml(b"<?xm"));
    assert!(!begins_as_xml(b" <?xml"));
    assert!(!begins_as_xml(b"bplist00"));
    assert!(!begins_as_xml(b"<?xmL version"));
    assert!(!begins_as_xml(b""));
}

#[test]
fn text_of_bytes_replaces_what_is_no_utf8() {
    assert_eq!(text_of_bytes(b"<?xml plain"), "<?xml plain");
    assert_eq!(text_of_bytes("grüß".as_bytes()), "grüß");
    assert_eq!(text_of_bytes(&[b'<', b'?', b'x', b'm', b'l', 0xFF, b'a']), "<?xml\u{FFFD}a");
    assert_eq!(text_of_bytes(&[]), "");
    assert!(text_of_bytes(&[b'b', b'p', b'l', b'i', b's', b't', b'0', b'0', 0xD1, 0x01]).starts_with("bplist00"));
}

#[test]
fn from_document_projects_the_fields() {
    let document = parse_manifest(MANIFEST.as_bytes()).unwrap();
    let info = IpaXmlInfo::from_document(&document);
    assert_eq!(info.CFBundleName, Some("Demo".to_string()));
    assert_eq!(info.CFBundleDisplayName, Some("Demo App".to_string()));
    assert_eq!(info.CFBundleIdentifier, Some("com.example.demo".to_string()));
    assert_eq!(info.CFBundleShortVersionString, Some("1.2.3".to_string()));
    assert_eq!(info.MinimumOSVersion, Some("12.0".to_string()));
    assert_eq!(info.CFBundleIconFiles, Some(vec!["c.png".to_string()]));
    let primary = info.CFBundleIcons.unwrap().CFBundlePrimaryIcon.unwrap();
    assert_eq!(primary.CFBundleIconName, Some("AppIcon".to_string()));
    assert_eq!(primary.CFBundleIconFiles, Some(vec!["b.png".to_string(), "a.png".to_string()]));
}

#[test]
fn from_document_is_lenient() {
    let mut root = Dictionary::new();
    root.insert("CFBundleName".to_string(), Node::Boolean(true));
    root.insert("CFBundleIcons".to_string(), text("no dictionary"));
    root.insert("CFBundleIconFiles".to_string(), Node::Array(vec![Node::Boolean(true)]));
    let info = IpaXmlInfo::from_document(&Node::Dictionary(root));
    assert_eq!(info.CFBundleName, None);
    assert_eq!(info.CFBundleDisplayName, None);
    assert!(info.CFBundleIcons.is_none());
    assert_eq!(info.CFBundleIconFiles, None);
    assert_eq!(info.icon_files(), Vec::<String>::new());
    let of_list = IpaXmlInfo::from_document(&list(&["a"]));
    assert_eq!(of_list.CFBundleName, None);
    assert_eq!(of_list.CFBundleIdentifier, None);
    assert_eq!(of_list.icon_files(), Vec::<String>::new());
}

#[test]
fn icon_files_orders_nested_then_flat_descending() {
    let info = IpaXmlInfo {
        CFBundleName: None,
        CFBundleDisplayName: None,
        CFBundleIcons: Some(CFBundleIcons {
            CFBundlePrimaryIcon: Some(CFBundlePrimaryIcon {
                CFBundleIconName: None,
                CFBundleIconFiles: Some(vec!["b.png".to_string(), "a.png".to_string()]),
            }),
        }),
        CFBundleIconFiles: Some(vec!["c.png".to_string()]),
        CFBundleIdentifier: None,
        CFBundleShortVersionString: None,
        MinimumOSVersion: None,
    };
    assert_eq!(info.icon_files(), vec!["c.png", "b.png", "a.png"]);
}

#[test]
fn icon_files_keeps_repeated_names_and_agrees_with_sort() {
    let nested = vec!["Icon", "icon", "AppIcon60x60", "Icon", "AppIcon", "é", ""];
    let flat = vec!["Icon@2x", "Icon", "zebra", "AppIcon76x76"];
    let info = IpaXmlInfo {
        CFBundleName: None,
        CFBundleDisplayName: None,
        CFBundleIcons: Some(CFBundleIcons {
            CFBundlePrimaryIcon: Some(CFBundlePrimaryIcon {
                CFBundleIconName: None,
                CFBundleIconFiles: Some(nested.iter().map(|s| s.to_string()).collect()),
            }),
        }),
        CFBundleIconFiles: Some(flat.iter().map(|s| s.to_string()).collect()),
        CFBundleIdentifier: None,
        CFBundleShortVersionString: None,
        MinimumOSVersion: None,
    };
    let mut expected: Vec<String> = nested.iter().chain(flat.iter()).map(|s| s.to_string()).collect();
    expected.sort();
    expected.reverse();
    assert_eq!(info.icon_files(), expected);
}

#[test]
fn icon_files_without_descriptors_is_empty() {
    let info = IpaXmlInfo {
        CFBundleName: Some("Demo".to_string()),
        CFBundleDisplayName: None,
        CFBundleIcons: Some(CFBundleIcons { CFBundlePrimaryIcon: None }),
        CFBundleIconFiles: None,
        CFBundleIdentifier: None,
        CFBundleShortVersionString: None,
        MinimumOSVersion: None,
    };
    assert_eq!(info.icon_files(), Vec::<String>::new());
}

#[test]
fn edit_manifest_sets_the_identity() {
    let document = parse_manifest(MANIFEST.as_bytes()).unwrap();
    let edited = edit_manifest(
        document,
        "Renamed".to_string(),
        "com.example.renamed".to_string(),
        "9.9".to_string(),
        false,
        false,
        false,
        false,
    )
    .unwrap();
    let root = root_of(&edited);
    assert_eq!(root.len(), 10);
    assert_eq!(root.get_string("CFBundleName"), Some("Renamed".to_string()));
    assert_eq!(root.get_string("CFBundleIdentifier"), Some("com.example.renamed".to_string()));
    assert_eq!(root.get_string("CFBundleShortVersionString"), Some("9.9".to_string()));
    assert_eq!(root.get_string("CFBundleDisplayName"), Some("Demo App".to_string()));
    assert_eq!(root.get_string("MinimumOSVersion"), Some("12.0".to_string()));
    assert!(root.get("UIFileSharingEnabled").is_none());
    let info = IpaXmlInfo::from_document(&edited);
    assert_eq!(info.icon_files(), vec!["c.png", "b.png", "a.png"]);
}

#[test]
fn edit_manifest_makes_the_optional_changes() {
    let document = parse_manifest(MANIFEST.as_bytes()).unwrap();
    let edited = edit_manifest(
        document,
        "Renamed".to_string(),
        "com.example.renamed".to_string(),
        "9.9".to_string(),
        true,
        true,
        true,
        true,
    )
    .unwrap();
    let root = root_of(&edited);
    assert_eq!(root.len(), 12);
    assert_eq!(root.get_string("MinimumOSVersion"), Some("10.0".to_string()));
    assert_eq!(root.get("CFBundleURLTypes").and_then(|n| n.as_array()).map(|a| a.len()), Some(0));
    assert!(matches!(root.get("UIFileSharingEnabled"), Some(Node::Boolean(true))));
    assert!(matches!(root.get("UISupportsDocumentBrowser"), Some(Node::Boolean(true))));
    let icons = root.get_dictionary("CFBundleIcons").unwrap();
    assert_eq!(icons.len(), 1);
    let primary = icons.get_dictionary("CFBundlePrimaryIcon").unwrap();
    assert_eq!(primary.len(), 2);
    assert_eq!(primary.get_strings("CFBundleIconFiles"), Some(vec!["icon_app_ipadump_com.png".to_string()]));
    assert_eq!(string_of(primary.get("CFBundleIconName")), Some("icon_app_ipadump_com".to_string()));
    assert_eq!(root.get_strings("CFBundleIconFiles"), Some(vec!["c.png".to_string()]));
    let info = IpaXmlInfo::from_document(&edited);
    assert_eq!(info.icon_files(), vec!["icon_app_ipadump_com.png", "c.png"]);
}

#[test]
fn edit_manifest_adds_the_fields_to_an_empty_dictionary() {
    let edited = edit_manifest(
        Node::Dictionary(Dictionary::new()),
        "A".to_string(),
        "b.c".to_string(),
        "1".to_string(),
        false,
        false,
        true,
        false,
    )
    .unwrap();
    let xml = String::from_utf8(write_manifest(&edited).unwrap()).unwrap();
    let positions: Vec<usize> = [
        "<key>CFBundleName</key>",
        "<key>CFBundleIdentifier</key>",
        "<key>CFBundleShortVersionString</key>",
        "<key>UIFileSharingEnabled</key>",
        "<key>UISupportsDocumentBrowser</key>",
    ]
    .iter()
    .map(|key| xml.find(key).unwrap())
    .collect();
    assert!(positions.windows(2).all(|pair| pair[0] < pair[1]));
}

#[test]
fn edit_manifest_refuses_a_root_that_is_no_dictionary() {
    let error = edit_manifest(
        list(&["a"]),
        "A".to_string(),
        "b.c".to_string(),
        "1".to_string(),
        false,
        false,
        false,
        false,
    )
    .unwrap_err();
    assert!(matches!(error, IpaError::ManifestParse(_)));
    assert_eq!(error.message(), "Failed to parse plist");
}
