//! Calls into outside crates and into parts of std that vstd does not specify.
use vstd::prelude::*;
use vstd::utf8::{decode_utf8, encode_utf8, valid_utf8};
use base64::Engine;
use crate::post::Timestamp;

verus! {

/// What `markdown::to_mdast`, with front matter enabled, gives as the root's
/// children: for each child, the text of a YAML front matter node, or `None` for
/// a node of another kind; `None` in place of the list if the root had no children.
pub uninterp spec fn markdown_root_blocks(content: Seq<char>) -> Option<Seq<Option<Seq<char>>>>;

/// The YAML text that `serde_yaml::to_string` gives for a mapping of strings to
/// strings, taken in the order of their keys, or its error message.
pub uninterp spec fn yaml_of_mapping(mapping: Map<Seq<char>, Seq<char>>) -> Result<Seq<char>, Seq<char>>;

/// What the base64 crate's `STANDARD` engine gives when it encodes the UTF-8 bytes of a text.
pub uninterp spec fn base64_standard_encode(text: Seq<char>) -> Seq<char>;

/// What the base64 crate's `STANDARD` engine gives when it decodes the bytes of a
/// text: the decoded bytes, or the message of its `DecodeError`.
pub uninterp spec fn base64_standard_decode(text: Seq<char>) -> Result<Seq<u8>, Seq<char>>;

/// The view of the children list that the markdown wrapper hands back.
pub open spec fn blocks_view(blocks: Option<Vec<Option<String>>>) -> Option<Seq<Option<Seq<char>>>> {
    match blocks {
        Some(v) => Some(v@.map_values(|b: Option<String>| option_text_view(b))),
        None => None,
    }
}

/// The view of an optional string.
pub open spec fn option_text_view(b: Option<String>) -> Option<Seq<char>> {
    match b {
        Some(s) => Some(s@),
        None => None,
    }
}

/// A symbol of the standard base64 alphabet, or its padding symbol.
pub open spec fn is_base64_symbol(c: char) -> bool {
    ||| ('A' <= c && c <= 'Z')
    ||| ('a' <= c && c <= 'z')
    ||| ('0' <= c && c <= '9')
    ||| c == '+'
    ||| c == '/'
    ||| c == '='
}

/// The length of the padded base64 encoding of `n` bytes: four symbols for each
/// started group of three bytes.
pub open spec fn base64_encoded_len(n: nat) -> nat {
    4 * ((n + 2) / 3)
}

/// Whether every character of `s` is a base64 symbol.
pub open spec fn all_base64_symbols(s: Seq<char>) -> bool {
    forall|i: int| 0 <= i < s.len() ==> is_base64_symbol(#[trigger] s[i])
}

/// Whether the standard engine decodes `text` to `bytes`.
pub open spec fn base64_decodes_to(text: Seq<char>, bytes: Seq<u8>) -> bool {
    base64_standard_decode(text) == Ok::<Seq<u8>, Seq<char>>(bytes)
}

/// Calls `markdown::to_mdast` with front matter enabled and every other construct
/// at its default, and tells the root's children apart: YAML nodes by their text,
/// others as `None`. The contract states that the call succeeds, as the crate's
/// documentation says of markdown without MDX, and names what it gives; it states
/// nothing of how the parser decides what is front matter.
#[verifier::external_body]
pub(crate) fn markdown_blocks(content: &str) -> (res: Result<Option<Vec<Option<String>>>, String>)
    ensures
        res is Ok,
        res matches Ok(b) ==> blocks_view(b) == markdown_root_blocks(content@),
{
    let constructs = markdown::Constructs { frontmatter: true, ..markdown::Constructs::default() };
    let options = markdown::ParseOptions { constructs, ..markdown::ParseOptions::default() };
    match markdown::to_mdast(content, &options) {
        Ok(ast) => Ok(ast.children().map(|children| {
            children.iter().map(|child| match child {
                markdown::mdast::Node::Yaml(yaml) => Some(yaml.value.clone()),
                _ => None,
            }).collect()
        })),
        Err(message) => Err(message.to_string()),
    }
}

/// Calls `Engine::encode` of `base64::prelude::BASE64_STANDARD` on the bytes of
/// `content`. The contract names the result, and states what the crate documents
/// of it: its length is four symbols for each started group of three bytes
/// (`encoded_len` with padding), every symbol is of the standard alphabet or its
/// padding, and the same
/// engine decodes it back to the bytes it encoded. Its size computation cannot
/// overflow for any string, whose length is at most `isize::MAX`.
#[verifier::external_body]
pub(crate) fn base64_encode(content: &str) -> (res: String)
    ensures
        res@ == base64_standard_encode(content@),
        res@.len() == base64_encoded_len(encode_utf8(content@).len()),
        all_base64_symbols(res@),
        base64_decodes_to(res@, encode_utf8(content@)),
{
    base64::prelude::BASE64_STANDARD.encode(content)
}

/// Calls `Engine::decode` of `base64::prelude::BASE64_STANDARD` on the bytes of
/// `content`, and turns a `DecodeError` into its message. The contract names the
/// outcome.
#[verifier::external_body]
pub(crate) fn base64_decode(content: &str) -> (res: Result<Vec<u8>, String>)
    ensures
        match base64_standard_decode(content@) {
            Ok(b) => res matches Ok(v) && v@ == b,
            Err(e) => res matches Err(m) && m@ == e,
        },
{
    base64::prelude::BASE64_STANDARD.decode(content).map_err(|error| error.to_string())
}

/// Calls `String::from_utf8`: it succeeds exactly on valid UTF-8, and then holds
/// the characters that the bytes encode.
#[verifier::external_body]
pub(crate) fn utf8_string(bytes: Vec<u8>) -> (res: Option<String>)
    ensures
        res is Some <==> valid_utf8(bytes@),
        res matches Some(s) ==> s@ == decode_utf8(bytes@),
{
    String::from_utf8(bytes).ok()
}

/// Reads the clock: `chrono::Local::now()` as a local date and time without its
/// offset, in seconds and nanoseconds. The contract states nothing of it.
#[verifier::external_body]
pub(crate) fn local_now() -> (res: Timestamp) {
    let now = chrono::Local::now().naive_local().and_utc();
    Timestamp { secs: now.timestamp(), nanos: now.timestamp_subsec_nanos() }
}

} // verus!
