//! The typed projection of a manifest: the fields that the library reads,
//! each absent where the manifest does not hold it with the expected type,
//! and the ordered list of icon candidates derived from them.

use vstd::prelude::*;
use vstd::seq_lib::lemma_sorted_unique;
use vstd::seq_lib::to_multiset_insert;
use vstd::relations::total_ordering;
use crate::manifest::dictionary_at;
use crate::manifest::string_at;
use crate::manifest::strings_at;
use crate::manifest::Dictionary;
use crate::manifest::Node;
use crate::manifest::NodeView;
use crate::text::chars_le;
use crate::text::lemma_lex_le_antisymmetric;
use crate::text::lemma_lex_le_reflexive;
use crate::text::lemma_lex_le_total;
use crate::text::lemma_lex_le_transitive;
use crate::text::lex_le;
use crate::text::to_chars;

verus! {

/// The primary icon of an application, as its manifest describes it.
#[allow(non_snake_case)]
#[derive(Debug)]
pub struct CFBundlePrimaryIcon {
    pub CFBundleIconName: Option<String>,
    pub CFBundleIconFiles: Option<Vec<String>>,
}

/// The icon descriptor of a manifest.
#[allow(non_snake_case)]
#[derive(Debug)]
pub struct CFBundleIcons {
    pub CFBundlePrimaryIcon: Option<CFBundlePrimaryIcon>,
}

/// The fields of a manifest that the library reads.
#[allow(non_snake_case)]
#[derive(Debug)]
pub struct IpaXmlInfo {
    /// The application's name.
    pub CFBundleName: Option<String>,
    /// The name shown to the user.
    pub CFBundleDisplayName: Option<String>,
    /// The nested icon descriptor.
    pub CFBundleIcons: Option<CFBundleIcons>,
    /// The flat list of icon files.
    pub CFBundleIconFiles: Option<Vec<String>>,
    /// The bundle identifier.
    pub CFBundleIdentifier: Option<String>,
    /// The version.
    pub CFBundleShortVersionString: Option<String>,
    /// The lowest version of the operating system that runs the application.
    pub MinimumOSVersion: Option<String>,
}

/// What a primary icon holds.
pub struct PrimaryIconView {
    pub icon_name: Option<Seq<char>>,
    pub icon_files: Option<Seq<Seq<char>>>,
}

/// What an icon descriptor holds.
pub struct IconsView {
    pub primary_icon: Option<PrimaryIconView>,
}

/// What the typed projection of a manifest holds.
pub struct InfoView {
    pub name: Option<Seq<char>>,
    pub display_name: Option<Seq<char>>,
    pub icons: Option<IconsView>,
    pub icon_files: Option<Seq<Seq<char>>>,
    pub identifier: Option<Seq<char>>,
    pub short_version: Option<Seq<char>>,
    pub minimum_os_version: Option<Seq<char>>,
}

/// The characters of an optional string.
pub open spec fn text_of(s: Option<String>) -> Option<Seq<char>> {
    match s {
        Some(s) => Some(s@),
        None => None,
    }
}

/// The strings of an optional list.
pub open spec fn list_of(list: Option<Vec<String>>) -> Option<Seq<Seq<char>>> {
    match list {
        Some(list) => Some(list.deep_view()),
        None => None,
    }
}

impl View for CFBundlePrimaryIcon {
    type V = PrimaryIconView;

    open spec fn view(&self) -> PrimaryIconView {
        PrimaryIconView {
            icon_name: text_of(self.CFBundleIconName),
            icon_files: list_of(self.CFBundleIconFiles),
        }
    }
}

impl View for CFBundleIcons {
    type V = IconsView;

    open spec fn view(&self) -> IconsView {
        IconsView {
            primary_icon: match self.CFBundlePrimaryIcon {
                Some(icon) => Some(icon@),
                None => None,
            },
        }
    }
}

impl View for IpaXmlInfo {
    type V = InfoView;

    open spec fn view(&self) -> InfoView {
        InfoView {
            name: text_of(self.CFBundleName),
            display_name: text_of(self.CFBundleDisplayName),
            icons: match self.CFBundleIcons {
                Some(icons) => Some(icons@),
                None => None,
            },
            icon_files: list_of(self.CFBundleIconFiles),
            identifier: text_of(self.CFBundleIdentifier),
            short_version: text_of(self.CFBundleShortVersionString),
            minimum_os_version: text_of(self.MinimumOSVersion),
        }
    }
}

/// The primary icon that the entries of a dictionary describe.
pub open spec fn primary_icon_of(entries: Seq<(Seq<char>, NodeView)>) -> PrimaryIconView {
    PrimaryIconView {
        icon_name: string_at(entries, "CFBundleIconName"@),
        icon_files: strings_at(entries, "CFBundleIconFiles"@),
    }
}

/// The icon descriptor that the entries of a dictionary describe.
pub open spec fn icons_of(entries: Seq<(Seq<char>, NodeView)>) -> IconsView {
    IconsView {
        primary_icon: match dictionary_at(entries, "CFBundlePrimaryIcon"@) {
            Some(icon) => Some(primary_icon_of(icon)),
            None => None,
        },
    }
}

/// The typed projection of a document. A document whose root is no
/// dictionary holds none of the fields.
pub open spec fn info_of(document: NodeView) -> InfoView {
    match document {
        NodeView::Dictionary(entries) => InfoView {
            name: string_at(entries, "CFBundleName"@),
            display_name: string_at(entries, "CFBundleDisplayName"@),
            icons: match dictionary_at(entries, "CFBundleIcons"@) {
                Some(icons) => Some(icons_of(icons)),
                None => None,
            },
            icon_files: strings_at(entries, "CFBundleIconFiles"@),
            identifier: string_at(entries, "CFBundleIdentifier"@),
            short_version: string_at(entries, "CFBundleShortVersionString"@),
            minimum_os_version: string_at(entries, "MinimumOSVersion"@),
        },
        _ => InfoView {
            name: None,
            display_name: None,
            icons: None,
            icon_files: None,
            identifier: None,
            short_version: None,
            minimum_os_version: None,
        },
    }
}

/// The icon files that the nested descriptor names, none where a level of it
/// is absent.
pub open spec fn nested_icon_files(info: InfoView) -> Seq<Seq<char>> {
    match info.icons {
        Some(IconsView { primary_icon: Some(PrimaryIconView { icon_files: Some(files), .. }) }) => files,
        _ => Seq::empty(),
    }
}

/// The icon files that the flat list names.
pub open spec fn flat_icon_files(info: InfoView) -> Seq<Seq<char>> {
    match info.icon_files {
        Some(files) => files,
        None => Seq::empty(),
    }
}

/// The icon file names of a manifest before they are ordered: those of the
/// nested descriptor, then those of the flat list.
pub open spec fn icon_names(info: InfoView) -> Seq<Seq<char>> {
    nested_icon_files(info) + flat_icon_files(info)
}

/// The order of the candidates: `a` may stand before `b`.
pub open spec fn stands_before(a: Seq<char>, b: Seq<char>) -> bool {
    lex_le(b, a)
}

/// Every name is at least the names after it, in the order of strings.
pub open spec fn is_descending(names: Seq<Seq<char>>) -> bool {
    forall|i: int, j: int| 0 <= i < j < names.len() ==> stands_before(names[i], names[j])
}

/// `candidates` are the icon candidates for `names`: the same names, each as
/// often as it occurs among them, in descending order.
pub open spec fn are_candidates(candidates: Seq<Seq<char>>, names: Seq<Seq<char>>) -> bool {
    &&& is_descending(candidates)
    &&& candidates.to_multiset() == names.to_multiset()
}

/// The order of the candidates is fixed by the names: two lists of
/// candidates for the same names are the same list.
pub proof fn lemma_candidates_unique(
    first: Seq<Seq<char>>,
    second: Seq<Seq<char>>,
    names: Seq<Seq<char>>,
)
    requires
        are_candidates(first, names),
        are_candidates(second, names),
    ensures
        first == second,
{
    let before = |a: Seq<char>, b: Seq<char>| stands_before(a, b);
    assert(total_ordering(before)) by {
        assert forall|a: Seq<char>| #[trigger] before(a, a) by {
            lemma_lex_le_reflexive(a);
        }
        assert forall|a: Seq<char>, b: Seq<char>| #[trigger]
            before(a, b) && #[trigger] before(b, a) implies a == b by {
            lemma_lex_le_antisymmetric(a, b);
        }
        assert forall|a: Seq<char>, b: Seq<char>, c: Seq<char>| #[trigger]
            before(a, b) && #[trigger] before(b, c) implies before(a, c) by {
            lemma_lex_le_transitive(c, b, a);
        }
        assert forall|a: Seq<char>, b: Seq<char>| #[trigger]
            before(a, b) || #[trigger] before(b, a) by {
            lemma_lex_le_total(a, b);
        }
    }
    lemma_sorted_unique(first, second, before);
}

/// Puts `item` into the descending `list`, after the names that are at least
/// as large.
fn insert_descending(list: &mut Vec<String>, item: String)
    requires
        is_descending(old(list).deep_view()),
    ensures
        is_descending(final(list).deep_view()),
        final(list).deep_view().to_multiset() == old(list).deep_view().to_multiset().insert(item@),
{
    let chars = to_chars(item.as_str());
    let ghost before = list.deep_view();
    let mut at: usize = 0;
    let mut placed = false;
    while at < list.len() && !placed
        invariant
            *list == *old(list),
            before == list.deep_view(),
            before.len() == list.len(),
            is_descending(before),
            chars@ == item@,
            0 <= at <= list.len(),
            placed ==> at < list.len() && !lex_le(item@, before[at as int]),
            forall|j: int| 0 <= j < at ==> lex_le(item@, #[trigger] before[j]),
        decreases list.len() - at + (if placed { 0int } else { 1int }),
    {
        let other = to_chars(list[at].as_str());
        if chars_le(chars.as_slice(), other.as_slice()) {
            at += 1;
        } else {
            placed = true;
        }
    }
    proof {
        assert forall|j: int| at <= j < before.len() implies lex_le(#[trigger] before[j], item@) by {
            lemma_lex_le_total(item@, before[at as int]);
            if j > at {
                assert(stands_before(before[at as int], before[j]));
                lemma_lex_le_transitive(before[j], before[at as int], item@);
            }
        }
    }
    list.insert(at, item);
    proof {
        let after = list.deep_view();
        assert(after =~= before.insert(at as int, item@));
        to_multiset_insert(before, at as int, item@);
        assert forall|i: int, j: int| 0 <= i < j < after.len() implies stands_before(
            after[i],
            after[j],
        ) by {}
    }
}

impl CFBundlePrimaryIcon {
    /// The primary icon that a dictionary describes.
    pub fn from_dictionary(dictionary: &Dictionary) -> (r: CFBundlePrimaryIcon)
        ensures
            r@ == primary_icon_of(dictionary@),
    {
        CFBundlePrimaryIcon {
            CFBundleIconName: dictionary.get_string("CFBundleIconName"),
            CFBundleIconFiles: dictionary.get_strings("CFBundleIconFiles"),
        }
    }
}

impl CFBundleIcons {
    /// The icon descriptor that a dictionary describes.
    pub fn from_dictionary(dictionary: &Dictionary) -> (r: CFBundleIcons)
        ensures
            r@ == icons_of(dictionary@),
    {
        CFBundleIcons {
            CFBundlePrimaryIcon: match dictionary.get_dictionary("CFBundlePrimaryIcon") {
                Some(icon) => Some(CFBundlePrimaryIcon::from_dictionary(icon)),
                None => None,
            },
        }
    }
}

impl IpaXmlInfo {
    /// The typed projection of a document. The getters never fail: a field
    /// that is absent, or present with another type, is `None`.
    pub fn from_document(document: &Node) -> (r: IpaXmlInfo)
        ensures
            r@ == info_of(document@),
    {
        match document {
            Node::Dictionary(root) => IpaXmlInfo {
                CFBundleName: root.get_string("CFBundleName"),
                CFBundleDisplayName: root.get_string("CFBundleDisplayName"),
                CFBundleIcons: match root.get_dictionary("CFBundleIcons") {
                    Some(icons) => Some(CFBundleIcons::from_dictionary(icons)),
                    None => None,
                },
                CFBundleIconFiles: root.get_strings("CFBundleIconFiles"),
                CFBundleIdentifier: root.get_string("CFBundleIdentifier"),
                CFBundleShortVersionString: root.get_string("CFBundleShortVersionString"),
                MinimumOSVersion: root.get_string("MinimumOSVersion"),
            },
            _ => IpaXmlInfo {
                CFBundleName: None,
                CFBundleDisplayName: None,
                CFBundleIcons: None,
                CFBundleIconFiles: None,
                CFBundleIdentifier: None,
                CFBundleShortVersionString: None,
                MinimumOSVersion: None,
            },
        }
    }

    /// The icon candidates: the icon files of the nested descriptor and those
    /// of the flat list, in descending order.
    pub fn icon_files(&self) -> (r: Vec<String>)
        ensures
            are_candidates(r.deep_view(), icon_names(self@)),
    {
        let mut list: Vec<String> = Vec::new();
        let ghost nested = nested_icon_files(self@);
        let ghost flat = flat_icon_files(self@);
        assert(list.deep_view() =~= Seq::<Seq<char>>::empty());
        if let Some(icons) = &self.CFBundleIcons {
            if let Some(primary_icon) = &icons.CFBundlePrimaryIcon {
                if let Some(files) = &primary_icon.CFBundleIconFiles {
                    assert(nested.take(0) =~= list.deep_view());
                    let mut i: usize = 0;
                    while i < files.len()
                        invariant
                            0 <= i <= files.len(),
                            nested == files.deep_view(),
                            nested.len() == files.len(),
                            is_descending(list.deep_view()),
                            list.deep_view().to_multiset() == nested.take(i as int).to_multiset(),
                        decreases files.len() - i,
                    {
                        proof {
                            assert(nested.take(i + 1) =~= nested.take(i as int).push(
                                nested[i as int],
                            ));
                            nested.take(i as int).to_multiset_ensures();
                        }
                        insert_descending(&mut list, files[i].clone());
                        i += 1;
                    }
                    assert(nested.take(nested.len() as int) =~= nested);
                }
            }
        }
        if let Some(files) = &self.CFBundleIconFiles {
            let mut i: usize = 0;
            while i < files.len()
                invariant
                    0 <= i <= files.len(),
                    flat == files.deep_view(),
                    flat.len() == files.len(),
                    is_descending(list.deep_view()),
                    list.deep_view().to_multiset() == (nested + flat.take(i as int)).to_multiset(),
                decreases files.len() - i,
            {
                proof {
                    assert(nested + flat.take(i + 1) =~= (nested + flat.take(i as int)).push(
                        flat[i as int],
                    ));
                    (nested + flat.take(i as int)).to_multiset_ensures();
                }
                insert_descending(&mut list, files[i].clone());
                i += 1;
            }
            assert(flat.take(flat.len() as int) =~= flat);
        }
        list
    }
}

} // verus!
