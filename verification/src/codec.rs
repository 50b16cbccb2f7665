//! The encodings of a manifest, read and written by the property-list
//! codec, and the text of a byte sequence.
//!
//! What the codec returns is named here, not stated: the names stand for the
//! document that the codec reads from given bytes, and for the bytes that it
//! writes for a given document.

use vstd::prelude::*;
use vstd::utf8::decode_utf8;
use vstd::utf8::valid_utf8;
use crate::error::describe;
use crate::error::says;
use crate::error::IpaError;
use crate::manifest::node_from_value;
use crate::manifest::value_from_node;
use crate::manifest::Node;
use crate::manifest::NodeView;

verus! {

/// The document that the codec reads from `bytes`: in the binary encoding
/// where they begin with its signature, else in the textual one, else in the
/// older form in plain characters; or `None` where it reads none of them.
pub uninterp spec fn decoded_document(bytes: Seq<u8>) -> Option<NodeView>;

/// The bytes that the codec writes for `document` in the textual encoding,
/// or `None` where it cannot represent a node.
pub uninterp spec fn xml_document(document: NodeView) -> Option<Seq<u8>>;

/// The text that `bytes` are, with the replacement character in place of
/// every sequence that is no valid UTF-8.
pub uninterp spec fn lossy_text(bytes: Seq<u8>) -> Seq<char>;

/// How a manifest in the textual encoding begins: `<?xml`.
pub open spec fn xml_marker() -> Seq<u8> {
    seq![0x3Cu8, 0x3Fu8, 0x78u8, 0x6Du8, 0x6Cu8]
}

/// How the text of a manifest in the textual encoding begins.
pub open spec fn xml_marker_text() -> Seq<char> {
    "<?xml"@
}

/// The number of bytes at the start of `bytes` that are ASCII characters.
pub open spec fn ascii_run(bytes: Seq<u8>) -> nat
    decreases bytes.len(),
{
    if bytes.len() == 0 || bytes[0] >= 0x80 {
        0
    } else {
        1 + ascii_run(bytes.drop_first())
    }
}

/// `plist::from_bytes` for a `plist::Value`, converted node for node: the
/// document that `decoded_document` names for these bytes; a failure where
/// it names none. The codec first reads as many bytes as the signature of
/// the binary encoding has, and fails where there are fewer.
#[verifier::external_body]
fn plist_decode(bytes: &[u8]) -> (r: Result<Node, plist::Error>)
    ensures
        match r {
            Ok(document) => decoded_document(bytes@) == Some(document@),
            Err(_) => decoded_document(bytes@) is None,
        },
        bytes@.len() < SIGNATURE_LENGTH ==> r is Err,
{
    plist::from_bytes::<plist::Value>(bytes).map(node_from_value)
}

/// `plist::Value::to_writer_xml` into a buffer, for the document converted
/// node for node: the bytes that `xml_document` names for it, which begin
/// with the codec's prologue and so with `<?xml`; a failure where it names
/// none.
#[verifier::external_body]
fn plist_encode_xml(document: &Node) -> (r: Result<Vec<u8>, plist::Error>)
    ensures
        match r {
            Ok(bytes) => xml_document(document@) == Some(bytes@) && xml_marker().is_prefix_of(
                bytes@,
            ),
            Err(_) => xml_document(document@) is None,
        },
{
    let mut bytes = Vec::new();
    value_from_node(document).to_writer_xml(&mut bytes)?;
    Ok(bytes)
}

/// `String::from_utf8_lossy`: the text that `lossy_text` names. Bytes that
/// are valid UTF-8 give the text that they encode; the ASCII characters at
/// the start of the bytes stand at the start of the text in any case.
#[verifier::external_body]
fn utf8_lossy(bytes: &[u8]) -> (r: String)
    ensures
        r@ == lossy_text(bytes@),
        valid_utf8(bytes@) ==> r@ == decode_utf8(bytes@),
        r@.len() >= ascii_run(bytes@),
        forall|i: int| 0 <= i < ascii_run(bytes@) ==> r@[i] == bytes@[i] as char,
{
    String::from_utf8_lossy(bytes).into_owned()
}

/// The number of bytes of the signature of the binary encoding.
pub const SIGNATURE_LENGTH: usize = 8;

/// The message for a manifest that cannot be decoded.
pub const PARSE_FAILED: &'static str = "Failed to parse plist";

/// The message for a manifest that cannot be encoded.
pub const WRITE_FAILED: &'static str = "Failed to write xml";

/// Reads a manifest in any of its encodings. Bytes that are fewer than the
/// signature of the binary encoding are no manifest.
pub fn parse_manifest(bytes: &[u8]) -> (r: Result<Node, IpaError>)
    ensures
        match r {
            Ok(document) => decoded_document(bytes@) == Some(document@),
            Err(error) => decoded_document(bytes@) is None && error is ManifestParse && says(
                error,
                PARSE_FAILED@,
            ),
        },
        bytes@.len() < SIGNATURE_LENGTH ==> r is Err,
{
    match plist_decode(bytes) {
        Ok(document) => Ok(document),
        Err(cause) => Err(IpaError::ManifestParse(describe(PARSE_FAILED, cause.to_string().as_str()))),
    }
}

/// Writes a manifest in the textual encoding.
pub fn write_manifest(document: &Node) -> (r: Result<Vec<u8>, IpaError>)
    ensures
        match r {
            Ok(bytes) => xml_document(document@) == Some(bytes@) && xml_marker().is_prefix_of(
                bytes@,
            ),
            Err(error) => xml_document(document@) is None && error is ManifestWrite && says(
                error,
                WRITE_FAILED@,
            ),
        },
{
    match plist_encode_xml(document) {
        Ok(bytes) => Ok(bytes),
        Err(cause) => Err(IpaError::ManifestWrite(describe(WRITE_FAILED, cause.to_string().as_str()))),
    }
}

/// Whether `bytes` begin as a manifest in the textual encoding does.
pub fn begins_as_xml(bytes: &[u8]) -> (r: bool)
    ensures
        r == xml_marker().is_prefix_of(bytes@),
{
    bytes.len() >= 5 && bytes[0] == 0x3C && bytes[1] == 0x3F && bytes[2] == 0x78 && bytes[3] == 0x6D
        && bytes[4] == 0x6C
}

/// Bytes that begin with ASCII characters begin with at least as many of
/// them as their common start with any other bytes is long.
proof fn lemma_ascii_run_prefix(bytes: Seq<u8>, prefix: Seq<u8>)
    requires
        prefix.is_prefix_of(bytes),
        forall|i: int| 0 <= i < prefix.len() ==> prefix[i] < 0x80,
    ensures
        ascii_run(bytes) >= prefix.len(),
    decreases prefix.len(),
{
    if prefix.len() > 0 {
        assert(bytes[0] == prefix[0]);
        lemma_ascii_run_prefix(bytes.drop_first(), prefix.drop_first());
    }
}

/// The text of `bytes`. The ASCII characters at the start of the bytes stand
/// at the start of the text; so where the bytes begin as a manifest in the
/// textual encoding does, so does the text.
pub fn text_of_bytes(bytes: &[u8]) -> (r: String)
    ensures
        r@ == lossy_text(bytes@),
        valid_utf8(bytes@) ==> r@ == decode_utf8(bytes@),
        r@.len() >= ascii_run(bytes@),
        forall|i: int| 0 <= i < ascii_run(bytes@) ==> r@[i] == bytes@[i] as char,
        xml_marker().is_prefix_of(bytes@) ==> xml_marker_text().is_prefix_of(r@),
{
    let r = utf8_lossy(bytes);
    proof {
        if xml_marker().is_prefix_of(bytes@) {
            lemma_ascii_run_prefix(bytes@, xml_marker());
            reveal_strlit("<?xml");
        }
    }
    r
}

} // verus!
