//! The path conventions of an application archive: where the manifest lies,
//! which directory is the container, and which entries count as the icon.

use vstd::prelude::*;
use vstd::string::StringExecFns;
use vstd::string::StrSliceExecFns;
use vstd::utf8::encode_utf8;
use vstd::utf8::is_char_boundary;
use crate::text::contains;
use crate::text::count_char;
use crate::text::count_of;
use crate::text::ends_with;
use crate::text::has_infix;
use crate::text::same_chars;
use crate::text::starts_with;
use crate::text::to_chars;

verus! {

/// The file name under which a replacement icon is stored in the container.
pub const ICON_FILE_NAME: &'static str = "icon_app_ipadump_com.png";

/// The icon name that the manifest carries for a replacement icon.
pub const ICON_NAME: &'static str = "icon_app_ipadump_com";

/// The root of the payload: every entry of the application lies below it.
pub open spec fn payload_root() -> Seq<char> {
    "Payload/"@
}

/// How the path of the manifest ends: the bundle extension of the container,
/// then the manifest's file name.
pub open spec fn manifest_tail() -> Seq<char> {
    ".app/Info.plist"@
}

/// The bundle extension with the separator that follows a container's name.
pub open spec fn bundle_marker() -> Seq<char> {
    ".app/"@
}

/// The suffix of a raster file in the canonical format.
pub open spec fn raster_suffix() -> Seq<char> {
    ".png"@
}

/// The number of separators in a path.
pub open spec fn depth(name: Seq<char>) -> nat {
    count_of(name, '/')
}

/// A name that ends with a separator names a directory.
pub open spec fn is_directory_name(name: Seq<char>) -> bool {
    "/"@.is_suffix_of(name)
}

/// A path names the manifest when it lies directly in a container below the
/// payload root: it starts with the root, holds exactly two separators, and
/// ends with the manifest's tail.
pub open spec fn is_manifest_path(name: Seq<char>) -> bool {
    &&& payload_root().is_prefix_of(name)
    &&& depth(name) == 2
    &&& manifest_tail().is_suffix_of(name)
}

/// The least position from `from` on at which `c` stands in `s`, or the
/// length of `s` where there is none.
pub open spec fn position_of(s: Seq<char>, c: char, from: int) -> int
    decreases s.len() - from,
{
    if from < 0 || from >= s.len() {
        s.len() as int
    } else if s[from] == c {
        from
    } else {
        position_of(s, c, from + 1)
    }
}

/// The second segment of a path, between its first separator and the next
/// one (or the end). A path without a separator has none.
pub open spec fn second_segment(name: Seq<char>) -> Option<Seq<char>> {
    let first = position_of(name, '/', 0);
    if first >= name.len() {
        None
    } else {
        Some(name.subrange(first + 1, position_of(name, '/', first + 1)))
    }
}

/// The path of `file` directly in the container `container`.
pub open spec fn path_in_container(container: Seq<char>, file: Seq<char>) -> Seq<char> {
    payload_root() + container + "/"@ + file
}

/// An entry serves as the icon for `candidate` when it is exactly the
/// candidate's path in the container, or when it lies below the payload root,
/// holds the candidate's name right after a bundle extension, and is a raster
/// file by its suffix.
pub open spec fn icon_matches(entry: Seq<char>, container: Seq<char>, candidate: Seq<char>) -> bool {
    ||| entry == path_in_container(container, candidate)
    ||| {
        &&& payload_root().is_prefix_of(entry)
        &&& has_infix(entry, bundle_marker() + candidate)
        &&& raster_suffix().is_suffix_of(entry)
    }
}

/// An entry is an icon entry when it holds exactly two separators and serves
/// as the icon for one of the candidates.
pub open spec fn is_icon_entry(
    entry: Seq<char>,
    container: Seq<char>,
    candidates: Seq<Seq<char>>,
) -> bool {
    &&& depth(entry) == 2
    &&& exists|k: int|
        0 <= k < candidates.len() && icon_matches(entry, container, #[trigger] candidates[k])
}

/// `at` is the first position in `names` of a manifest path, or there is no
/// manifest path among them and `at` is `None`.
pub open spec fn is_first_manifest(names: Seq<Seq<char>>, at: Option<int>) -> bool {
    match at {
        Some(i) => {
            &&& 0 <= i < names.len()
            &&& is_manifest_path(names[i])
            &&& forall|j: int| 0 <= j < i ==> !is_manifest_path(#[trigger] names[j])
        },
        None => forall|j: int| 0 <= j < names.len() ==> !is_manifest_path(#[trigger] names[j]),
    }
}

/// `at` is the first position in `names` of an icon entry for the
/// candidates in `container`, or there is no icon entry among them and `at`
/// is `None`.
pub open spec fn is_first_icon(
    names: Seq<Seq<char>>,
    container: Seq<char>,
    candidates: Seq<Seq<char>>,
    at: Option<int>,
) -> bool {
    match at {
        Some(i) => {
            &&& 0 <= i < names.len()
            &&& is_icon_entry(names[i], container, candidates)
            &&& forall|j: int|
                0 <= j < i ==> !is_icon_entry(#[trigger] names[j], container, candidates)
        },
        None => forall|j: int|
            0 <= j < names.len() ==> !is_icon_entry(#[trigger] names[j], container, candidates),
    }
}

/// A position as a mathematical integer.
pub open spec fn position(at: Option<usize>) -> Option<int> {
    match at {
        Some(i) => Some(i as int),
        None => None,
    }
}

/// What `position_of` finds is a position of `c`, and none lies before it.
pub proof fn lemma_position_of(s: Seq<char>, c: char, from: int)
    requires
        0 <= from <= s.len(),
    ensures
        from <= position_of(s, c, from) <= s.len(),
        position_of(s, c, from) < s.len() ==> s[position_of(s, c, from)] == c,
        forall|k: int| from <= k < position_of(s, c, from) ==> s[k] != c,
    decreases s.len() - from,
{
    if from < s.len() && s[from] != c {
        lemma_position_of(s, c, from + 1);
    }
}

/// A sequence in which `c` occurs holds it at a position.
pub proof fn lemma_counted_occurs(s: Seq<char>, c: char)
    requires
        count_of(s, c) > 0,
    ensures
        position_of(s, c, 0) < s.len(),
    decreases s.len(),
{
    lemma_position_of(s, c, 0);
    if position_of(s, c, 0) >= s.len() {
        lemma_absent_counts_zero(s, c);
    }
}

/// A character that stands nowhere in a sequence is counted zero times.
proof fn lemma_absent_counts_zero(s: Seq<char>, c: char)
    requires
        forall|k: int| 0 <= k < s.len() ==> s[k] != c,
    ensures
        count_of(s, c) == 0,
    decreases s.len(),
{
    reveal_with_fuel(Seq::filter, 2);
    if s.len() > 0 {
        lemma_absent_counts_zero(s.drop_last(), c);
    }
}

/// A manifest path has a second segment: the container's name.
pub proof fn lemma_manifest_has_container(name: Seq<char>)
    requires
        is_manifest_path(name),
    ensures
        second_segment(name) is Some,
{
    lemma_counted_occurs(name, '/');
}

/// The name of a directory ends with a separator, and the path of a
/// manifest does not.
pub proof fn lemma_directory_or_manifest(name: Seq<char>)
    ensures
        is_directory_name(name) ==> name.len() > 0 && name.last() == '/',
        is_directory_name(name) ==> !is_manifest_path(name),
{
    reveal_strlit("/");
    reveal_strlit(".app/Info.plist");
    if is_directory_name(name) {
        assert(name.subrange(name.len() - 1, name.len() as int)[0] == '/');
        if manifest_tail().is_suffix_of(name) {
            assert(name.subrange(name.len() - 15, name.len() as int)[14] == 't');
        }
    }
}

/// Whether a name names a directory.
pub fn directory_name(name: &str) -> (r: bool)
    ensures
        r == is_directory_name(name@),
{
    let chars = to_chars(name);
    let slash = to_chars("/");
    ends_with(chars.as_slice(), slash.as_slice())
}

/// Whether a name is the path of the manifest.
pub fn manifest_path(name: &str) -> (r: bool)
    ensures
        r == is_manifest_path(name@),
{
    let chars = to_chars(name);
    let root = to_chars("Payload/");
    let tail = to_chars(".app/Info.plist");
    starts_with(chars.as_slice(), root.as_slice()) && count_char(chars.as_slice(), '/') == 2
        && ends_with(chars.as_slice(), tail.as_slice())
}

/// The position of the first `c` in `s` from `from` on, or the length of `s`.
fn find_char(s: &[char], c: char, from: usize) -> (at: usize)
    requires
        from <= s@.len(),
    ensures
        at == position_of(s@, c, from as int),
{
    let mut at: usize = from;
    while at < s.len()
        invariant
            from <= at <= s@.len(),
            position_of(s@, c, from as int) == position_of(s@, c, at as int),
        decreases s@.len() - at,
    {
        if s[at] == c {
            return at;
        }
        at += 1;
    }
    at
}

/// The container's name in a path: its second segment.
pub fn container_name(name: &str) -> (r: Option<String>)
    ensures
        match r {
            Some(c) => second_segment(name@) == Some(c@),
            None => second_segment(name@) is None,
        },
{
    let chars = to_chars(name);
    let first = find_char(chars.as_slice(), '/', 0);
    if first >= chars.len() {
        return None;
    }
    let next = find_char(chars.as_slice(), '/', first + 1);
    proof {
        lemma_position_of(chars@, '/', first + 1);
    }
    Some(String::from_str(name.substring_char(first + 1, next)))
}

/// The path of the file `file` directly in the container `container`.
pub fn container_path(container: &str, file: &str) -> (r: String)
    ensures
        r@ == path_in_container(container@, file@),
{
    String::from_str("Payload/").concat(container).concat("/").concat(file)
}

/// Whether `entry` serves as the icon for `candidate` in `container`.
pub fn matches_icon(entry: &[char], container: &str, candidate: &str) -> (r: bool)
    ensures
        r == icon_matches(entry@, container@, candidate@),
{
    let exact = to_chars(container_path(container, candidate).as_str());
    if same_chars(entry, exact.as_slice()) {
        return true;
    }
    let root = to_chars("Payload/");
    let marked = to_chars(String::from_str(".app/").concat(candidate).as_str());
    let suffix = to_chars(".png");
    starts_with(entry, root.as_slice()) && contains(entry, marked.as_slice()) && ends_with(
        entry,
        suffix.as_slice(),
    )
}

/// Whether `entry` is an icon entry for one of `candidates` in `container`.
pub fn icon_entry(entry: &str, container: &str, candidates: &Vec<String>) -> (r: bool)
    ensures
        r == is_icon_entry(entry@, container@, candidates.deep_view()),
{
    let chars = to_chars(entry);
    if count_char(chars.as_slice(), '/') != 2 {
        return false;
    }
    let mut k: usize = 0;
    while k < candidates.len()
        invariant
            chars@ == entry@,
            depth(entry@) == 2,
            0 <= k <= candidates.len(),
            candidates.deep_view().len() == candidates.len(),
            forall|j: int|
                0 <= j < k ==> !icon_matches(entry@, container@, #[trigger] candidates.deep_view()[j]),
        decreases candidates.len() - k,
    {
        if matches_icon(chars.as_slice(), container, candidates[k].as_str()) {
            assert(icon_matches(entry@, container@, candidates.deep_view()[k as int]));
            return true;
        }
        k += 1;
    }
    false
}

/// The first icon entry among `entry_names`, by position, for the candidates
/// in `container`.
pub fn resolve_icon(candidates: &Vec<String>, entry_names: &Vec<String>, container: &str) -> (r:
    Option<usize>)
    ensures
        is_first_icon(entry_names.deep_view(), container@, candidates.deep_view(), position(r)),
{
    let mut i: usize = 0;
    while i < entry_names.len()
        invariant
            0 <= i <= entry_names.len(),
            entry_names.deep_view().len() == entry_names.len(),
            forall|j: int|
                0 <= j < i ==> !is_icon_entry(
                    #[trigger] entry_names.deep_view()[j],
                    container@,
                    candidates.deep_view(),
                ),
        decreases entry_names.len() - i,
    {
        if icon_entry(entry_names[i].as_str(), container, candidates) {
            return Some(i);
        }
        i += 1;
    }
    None
}

/// Where the path relative to a directory begins in the bytes of a file
/// name: after the bytes of the directory's name and one separator.
pub open spec fn relative_start(input_dir: Seq<char>) -> int {
    encode_utf8(input_dir).len() as int + 1
}

/// The path of a file relative to a directory: what follows the directory's
/// name and one separator in the file's name. The file's name has to be
/// longer than the directory's, and a character has to begin where the
/// relative path begins.
pub fn get_relative_path(file_name: &str, input_dir_str: &str) -> (r: String)
    requires
        relative_start(input_dir_str@) <= encode_utf8(file_name@).len(),
        is_char_boundary(encode_utf8(file_name@), relative_start(input_dir_str@)),
    ensures
        encode_utf8(r@) == encode_utf8(file_name@).skip(relative_start(input_dir_str@)),
{
    let skipped = input_dir_str.as_bytes().len();
    let total = file_name.as_bytes().len();
    let start = if skipped < total {
        skipped + 1
    } else {
        total
    };
    let (_, rest) = file_name.split_at(start);
    String::from_str(rest)
}

/// The path of a file relative to a directory, or `None` where the file's
/// name is not longer than the directory's, or no character begins where the
/// relative path would.
pub fn relative_path(file_name: &str, input_dir_str: &str) -> (r: Option<String>)
    ensures
        match r {
            Some(path) => {
                &&& relative_start(input_dir_str@) <= encode_utf8(file_name@).len()
                &&& is_char_boundary(encode_utf8(file_name@), relative_start(input_dir_str@))
                &&& encode_utf8(path@) == encode_utf8(file_name@).skip(
                    relative_start(input_dir_str@),
                )
            },
            None => !(relative_start(input_dir_str@) <= encode_utf8(file_name@).len()
                && is_char_boundary(encode_utf8(file_name@), relative_start(input_dir_str@))),
        },
{
    let start = input_dir_str.as_bytes().len();
    let total = file_name.as_bytes().len();
    if start < total && file_name.is_char_boundary(start + 1) {
        Some(get_relative_path(file_name, input_dir_str))
    } else {
        None
    }
}

} // verus!
