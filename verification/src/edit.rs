//! The rewrite of a manifest: the fields that an application gets when it is
//! repackaged, each set by insertion into the root dictionary.

use vstd::prelude::*;
use vstd::string::StringExecFns;
use crate::error::IpaError;
use crate::manifest::inserted;
use crate::manifest::keys_distinct;
use crate::manifest::lemma_inserted_keys_distinct;
use crate::manifest::lemma_lookup_inserted_other;
use crate::manifest::lemma_lookup_inserted_same;
use crate::manifest::Dictionary;
use crate::manifest::Node;
use crate::manifest::NodeView;
use crate::metadata::info_of;
use crate::paths::ICON_FILE_NAME;
use crate::paths::ICON_NAME;

verus! {

/// The lowest version of the operating system that a manifest names once the
/// device limit is removed.
pub const MINIMUM_OS_FLOOR: &'static str = "10.0";

/// The message for a manifest whose root is no dictionary.
pub const NO_DICTIONARY: &'static str = "Failed to parse plist";

/// What a rewrite changes in a manifest.
pub struct Edits {
    pub name: Seq<char>,
    pub identifier: Seq<char>,
    pub version: Seq<char>,
    pub remove_device_limit: bool,
    pub remove_jump: bool,
    pub open_file_share: bool,
    pub replace_icon: bool,
}

/// The icon descriptor of a replacement icon: a primary icon with the one
/// icon file and the icon name that the library chooses.
pub open spec fn replacement_icons() -> NodeView {
    NodeView::Dictionary(
        seq![
            (
                "CFBundlePrimaryIcon"@,
                NodeView::Dictionary(
                    seq![
                        ("CFBundleIconFiles"@, NodeView::Array(seq![NodeView::String(ICON_FILE_NAME@)])),
                        ("CFBundleIconName"@, NodeView::String(ICON_NAME@)),
                    ],
                ),
            ),
        ],
    )
}

/// The entries after the three fields that every rewrite sets.
pub open spec fn with_identity(entries: Seq<(Seq<char>, NodeView)>, edits: Edits) -> Seq<
    (Seq<char>, NodeView),
> {
    inserted(
        inserted(
            inserted(entries, "CFBundleName"@, NodeView::String(edits.name)),
            "CFBundleIdentifier"@,
            NodeView::String(edits.identifier),
        ),
        "CFBundleShortVersionString"@,
        NodeView::String(edits.version),
    )
}

/// The entries after the device limit is removed, where that is asked for.
pub open spec fn with_device_limit(entries: Seq<(Seq<char>, NodeView)>, edits: Edits) -> Seq<
    (Seq<char>, NodeView),
> {
    if edits.remove_device_limit {
        inserted(entries, "MinimumOSVersion"@, NodeView::String(MINIMUM_OS_FLOOR@))
    } else {
        entries
    }
}

/// The entries after the list of URL types is emptied, where that is asked
/// for.
pub open spec fn with_jump(entries: Seq<(Seq<char>, NodeView)>, edits: Edits) -> Seq<
    (Seq<char>, NodeView),
> {
    if edits.remove_jump {
        inserted(entries, "CFBundleURLTypes"@, NodeView::Array(Seq::empty()))
    } else {
        entries
    }
}

/// The entries after file sharing and the document browser are switched on,
/// where that is asked for.
pub open spec fn with_file_share(entries: Seq<(Seq<char>, NodeView)>, edits: Edits) -> Seq<
    (Seq<char>, NodeView),
> {
    if edits.open_file_share {
        inserted(
            inserted(entries, "UIFileSharingEnabled"@, NodeView::Boolean(true)),
            "UISupportsDocumentBrowser"@,
            NodeView::Boolean(true),
        )
    } else {
        entries
    }
}

/// The entries after the icon descriptor is replaced, where there is a new
/// icon. The descriptor that was there is discarded whole.
pub open spec fn with_icon(entries: Seq<(Seq<char>, NodeView)>, edits: Edits) -> Seq<
    (Seq<char>, NodeView),
> {
    if edits.replace_icon {
        inserted(entries, "CFBundleIcons"@, replacement_icons())
    } else {
        entries
    }
}

/// The entries of the root dictionary after the rewrite.
pub open spec fn edited(entries: Seq<(Seq<char>, NodeView)>, edits: Edits) -> Seq<
    (Seq<char>, NodeView),
> {
    with_icon(
        with_file_share(with_jump(with_device_limit(with_identity(entries, edits), edits), edits), edits),
        edits,
    )
}

/// The keys that a rewrite sets differ from each other.
proof fn lemma_keys_differ()
    ensures
        "CFBundleName"@ != "CFBundleIdentifier"@,
        "CFBundleName"@ != "CFBundleShortVersionString"@,
        "CFBundleName"@ != "MinimumOSVersion"@,
        "CFBundleName"@ != "CFBundleURLTypes"@,
        "CFBundleName"@ != "UIFileSharingEnabled"@,
        "CFBundleName"@ != "UISupportsDocumentBrowser"@,
        "CFBundleName"@ != "CFBundleIcons"@,
        "CFBundleIdentifier"@ != "CFBundleShortVersionString"@,
        "CFBundleIdentifier"@ != "MinimumOSVersion"@,
        "CFBundleIdentifier"@ != "CFBundleURLTypes"@,
        "CFBundleIdentifier"@ != "UIFileSharingEnabled"@,
        "CFBundleIdentifier"@ != "UISupportsDocumentBrowser"@,
        "CFBundleIdentifier"@ != "CFBundleIcons"@,
        "CFBundleShortVersionString"@ != "MinimumOSVersion"@,
        "CFBundleShortVersionString"@ != "CFBundleURLTypes"@,
        "CFBundleShortVersionString"@ != "UIFileSharingEnabled"@,
        "CFBundleShortVersionString"@ != "UISupportsDocumentBrowser"@,
        "CFBundleShortVersionString"@ != "CFBundleIcons"@,
        "MinimumOSVersion"@ != "CFBundleURLTypes"@,
        "MinimumOSVersion"@ != "UIFileSharingEnabled"@,
        "MinimumOSVersion"@ != "UISupportsDocumentBrowser"@,
        "MinimumOSVersion"@ != "CFBundleIcons"@,
        "CFBundleIcons"@ != "CFBundleURLTypes"@,
        "CFBundleIcons"@ != "UIFileSharingEnabled"@,
        "CFBundleIcons"@ != "UISupportsDocumentBrowser"@,
        "CFBundleIcons"@ != "CFBundleIconFiles"@,
        "CFBundlePrimaryIcon"@ != "CFBundleIconFiles"@,
        "CFBundleIconName"@ != "CFBundleIconFiles"@,
{
    reveal_strlit("CFBundleName");
    reveal_strlit("CFBundleIdentifier");
    reveal_strlit("CFBundleShortVersionString");
    reveal_strlit("MinimumOSVersion");
    reveal_strlit("CFBundleURLTypes");
    reveal_strlit("UIFileSharingEnabled");
    reveal_strlit("UISupportsDocumentBrowser");
    reveal_strlit("CFBundleIcons");
    reveal_strlit("CFBundleIconFiles");
    reveal_strlit("CFBundlePrimaryIcon");
    reveal_strlit("CFBundleIconName");
    assert("CFBundleName"@.len() == 12);
    assert("CFBundleIdentifier"@.len() == 18);
    assert("CFBundleShortVersionString"@.len() == 26);
    assert("MinimumOSVersion"@.len() == 16);
    assert("CFBundleURLTypes"@.len() == 16);
    assert("UIFileSharingEnabled"@.len() == 20);
    assert("UISupportsDocumentBrowser"@.len() == 25);
    assert("CFBundleIcons"@.len() == 13);
    assert("CFBundleIconFiles"@.len() == 17);
    assert("CFBundlePrimaryIcon"@.len() == 19);
    assert("CFBundleIconName"@.len() == 16);
    assert("MinimumOSVersion"@[0] != "CFBundleURLTypes"@[0]);
}

/// A rewrite keeps the keys of the root dictionary distinct.
pub proof fn lemma_edited_keys_distinct(entries: Seq<(Seq<char>, NodeView)>, edits: Edits)
    requires
        keys_distinct(entries),
    ensures
        keys_distinct(edited(entries, edits)),
{
    let a = inserted(entries, "CFBundleName"@, NodeView::String(edits.name));
    lemma_inserted_keys_distinct(entries, "CFBundleName"@, NodeView::String(edits.name));
    let b = inserted(a, "CFBundleIdentifier"@, NodeView::String(edits.identifier));
    lemma_inserted_keys_distinct(a, "CFBundleIdentifier"@, NodeView::String(edits.identifier));
    lemma_inserted_keys_distinct(b, "CFBundleShortVersionString"@, NodeView::String(edits.version));
    let c = with_identity(entries, edits);
    lemma_inserted_keys_distinct(c, "MinimumOSVersion"@, NodeView::String(MINIMUM_OS_FLOOR@));
    let d = with_device_limit(c, edits);
    lemma_inserted_keys_distinct(d, "CFBundleURLTypes"@, NodeView::Array(Seq::empty()));
    let e = with_jump(d, edits);
    let f = inserted(e, "UIFileSharingEnabled"@, NodeView::Boolean(true));
    lemma_inserted_keys_distinct(e, "UIFileSharingEnabled"@, NodeView::Boolean(true));
    lemma_inserted_keys_distinct(f, "UISupportsDocumentBrowser"@, NodeView::Boolean(true));
    let g = with_file_share(e, edits);
    lemma_inserted_keys_distinct(g, "CFBundleIcons"@, replacement_icons());
}

/// What a key holds after the optional changes of a rewrite, for a key that
/// none of them sets.
proof fn lemma_options_leave(entries: Seq<(Seq<char>, NodeView)>, edits: Edits, key: Seq<char>)
    requires
        key != "MinimumOSVersion"@,
        key != "CFBundleURLTypes"@,
        key != "UIFileSharingEnabled"@,
        key != "UISupportsDocumentBrowser"@,
        key != "CFBundleIcons"@,
    ensures
        crate::manifest::lookup(
            with_icon(with_file_share(with_jump(with_device_limit(entries, edits), edits), edits), edits),
            key,
        ) == crate::manifest::lookup(entries, key),
{
    let d = with_device_limit(entries, edits);
    lemma_lookup_inserted_other(
        entries,
        "MinimumOSVersion"@,
        NodeView::String(MINIMUM_OS_FLOOR@),
        key,
    );
    let e = with_jump(d, edits);
    lemma_lookup_inserted_other(d, "CFBundleURLTypes"@, NodeView::Array(Seq::empty()), key);
    let f = inserted(e, "UIFileSharingEnabled"@, NodeView::Boolean(true));
    lemma_lookup_inserted_other(e, "UIFileSharingEnabled"@, NodeView::Boolean(true), key);
    lemma_lookup_inserted_other(f, "UISupportsDocumentBrowser"@, NodeView::Boolean(true), key);
    let g = with_file_share(e, edits);
    lemma_lookup_inserted_other(g, "CFBundleIcons"@, replacement_icons(), key);
}

/// The manifest that a rewrite leaves names the application as the rewrite
/// was told: read back, its name, its bundle identifier and its version are
/// the ones that were passed in.
pub proof fn lemma_edited_identity(entries: Seq<(Seq<char>, NodeView)>, edits: Edits)
    ensures
        info_of(NodeView::Dictionary(edited(entries, edits))).name == Some(edits.name),
        info_of(NodeView::Dictionary(edited(entries, edits))).identifier == Some(edits.identifier),
        info_of(NodeView::Dictionary(edited(entries, edits))).short_version == Some(edits.version),
{
    lemma_keys_differ();
    let a = inserted(entries, "CFBundleName"@, NodeView::String(edits.name));
    let b = inserted(a, "CFBundleIdentifier"@, NodeView::String(edits.identifier));
    let c = with_identity(entries, edits);
    lemma_lookup_inserted_same(entries, "CFBundleName"@, NodeView::String(edits.name));
    lemma_lookup_inserted_other(
        a,
        "CFBundleIdentifier"@,
        NodeView::String(edits.identifier),
        "CFBundleName"@,
    );
    lemma_lookup_inserted_other(
        b,
        "CFBundleShortVersionString"@,
        NodeView::String(edits.version),
        "CFBundleName"@,
    );
    lemma_lookup_inserted_same(a, "CFBundleIdentifier"@, NodeView::String(edits.identifier));
    lemma_lookup_inserted_other(
        b,
        "CFBundleShortVersionString"@,
        NodeView::String(edits.version),
        "CFBundleIdentifier"@,
    );
    lemma_lookup_inserted_same(b, "CFBundleShortVersionString"@, NodeView::String(edits.version));
    lemma_options_leave(c, edits, "CFBundleName"@);
    lemma_options_leave(c, edits, "CFBundleIdentifier"@);
    lemma_options_leave(c, edits, "CFBundleShortVersionString"@);
}

/// Where the device limit is removed, the manifest that a rewrite leaves
/// names the floor as the lowest version of the operating system.
pub proof fn lemma_edited_device_limit(entries: Seq<(Seq<char>, NodeView)>, edits: Edits)
    requires
        edits.remove_device_limit,
    ensures
        info_of(NodeView::Dictionary(edited(entries, edits))).minimum_os_version == Some(
            MINIMUM_OS_FLOOR@,
        ),
{
    lemma_keys_differ();
    let c = with_identity(entries, edits);
    let d = with_device_limit(c, edits);
    lemma_lookup_inserted_same(c, "MinimumOSVersion"@, NodeView::String(MINIMUM_OS_FLOOR@));
    let e = with_jump(d, edits);
    lemma_lookup_inserted_other(
        d,
        "CFBundleURLTypes"@,
        NodeView::Array(Seq::empty()),
        "MinimumOSVersion"@,
    );
    let f = inserted(e, "UIFileSharingEnabled"@, NodeView::Boolean(true));
    lemma_lookup_inserted_other(
        e,
        "UIFileSharingEnabled"@,
        NodeView::Boolean(true),
        "MinimumOSVersion"@,
    );
    lemma_lookup_inserted_other(
        f,
        "UISupportsDocumentBrowser"@,
        NodeView::Boolean(true),
        "MinimumOSVersion"@,
    );
    let g = with_file_share(e, edits);
    lemma_lookup_inserted_other(g, "CFBundleIcons"@, replacement_icons(), "MinimumOSVersion"@);
}

/// Where the icon is replaced, the nested descriptor of the manifest that a
/// rewrite leaves names the one icon file that the library chooses, and
/// nothing of the descriptor that was there.
pub proof fn lemma_edited_icon(entries: Seq<(Seq<char>, NodeView)>, edits: Edits)
    requires
        edits.replace_icon,
    ensures
        crate::metadata::nested_icon_files(info_of(NodeView::Dictionary(edited(entries, edits))))
            == seq![ICON_FILE_NAME@],
{
    lemma_keys_differ();
    let g = with_file_share(
        with_jump(with_device_limit(with_identity(entries, edits), edits), edits),
        edits,
    );
    lemma_lookup_inserted_same(g, "CFBundleIcons"@, replacement_icons());
    let items = seq![NodeView::String(ICON_FILE_NAME@)];
    assert(crate::manifest::strings_of(items)->0 =~= seq![ICON_FILE_NAME@]);
}

/// The node of a string.
fn text(s: &str) -> (r: Node)
    ensures
        r@ == NodeView::String(s@),
{
    Node::String(String::from_str(s))
}

/// The icon descriptor of a replacement icon.
fn replacement_descriptor() -> (r: Node)
    ensures
        r@ == replacement_icons(),
{
    let mut files: Vec<Node> = Vec::new();
    files.push(text(ICON_FILE_NAME));
    let list = Node::Array(files);
    assert(list@->Array_0 =~= seq![NodeView::String(ICON_FILE_NAME@)]);
    let mut primary = Dictionary::new();
    primary.insert(String::from_str("CFBundleIconFiles"), list);
    primary.insert(String::from_str("CFBundleIconName"), text(ICON_NAME));
    let mut icons = Dictionary::new();
    proof {
        lemma_keys_differ();
        let first = seq![("CFBundleIconFiles"@, list@)];
        assert(crate::manifest::key_position(first, "CFBundleIconName"@, 0) == 1) by {
            reveal_with_fuel(crate::manifest::key_position, 3);
        }
        assert(primary@ =~= replacement_icons()->Dictionary_0[0].1->Dictionary_0);
    }
    icons.insert(String::from_str("CFBundlePrimaryIcon"), Node::Dictionary(primary));
    Node::Dictionary(icons)
}

/// Rewrites a manifest: sets the name, the bundle identifier and the
/// version, and makes the optional changes that are asked for. The root of
/// the manifest has to be a dictionary.
pub fn edit_manifest(
    document: Node,
    app_name: String,
    app_bundle_id: String,
    app_version: String,
    remove_device_limit: bool,
    remove_jump: bool,
    open_file_share: bool,
    replace_icon: bool,
) -> (r: Result<Node, IpaError>)
    ensures
        match r {
            Ok(rewritten) => {
                &&& document@ is Dictionary
                &&& rewritten@ == NodeView::Dictionary(
                    edited(
                        document@->Dictionary_0,
                        Edits {
                            name: app_name@,
                            identifier: app_bundle_id@,
                            version: app_version@,
                            remove_device_limit,
                            remove_jump,
                            open_file_share,
                            replace_icon,
                        },
                    ),
                )
            },
            Err(error) => {
                &&& !(document@ is Dictionary)
                &&& error matches IpaError::ManifestParse(text)
                &&& text@ == NO_DICTIONARY@
            },
        },
{
    match document {
        Node::Dictionary(mut root) => {
            root.insert(String::from_str("CFBundleName"), Node::String(app_name));
            root.insert(String::from_str("CFBundleIdentifier"), Node::String(app_bundle_id));
            root.insert(String::from_str("CFBundleShortVersionString"), Node::String(app_version));
            if remove_device_limit {
                root.insert(String::from_str("MinimumOSVersion"), text(MINIMUM_OS_FLOOR));
            }
            if remove_jump {
                let empty = Node::Array(Vec::new());
                assert(empty@->Array_0 =~= Seq::<NodeView>::empty());
                root.insert(String::from_str("CFBundleURLTypes"), empty);
            }
            if open_file_share {
                root.insert(String::from_str("UIFileSharingEnabled"), Node::Boolean(true));
                root.insert(String::from_str("UISupportsDocumentBrowser"), Node::Boolean(true));
            }
            if replace_icon {
                root.insert(String::from_str("CFBundleIcons"), replacement_descriptor());
            }
            Ok(Node::Dictionary(root))
        },
        _ => Err(IpaError::ManifestParse(String::from_str(NO_DICTIONARY))),
    }
}

} // verus!
