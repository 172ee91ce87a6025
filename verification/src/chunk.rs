//! Mapping of `agent_message_chunk` updates to task message parts: text to
//! a text part; an image to a file part under a 4 MiB cap (over the cap the
//! task fails, never in silence); any other content folds into a data part
//! under the same cap.

use vstd::prelude::*;
use vstd::string::*;

use vstd::std_specs::iter::IteratorSpec;

use crate::permission::RpcMessage;
use crate::reattach::calls;
use crate::text::str_eq;

verus! {

broadcast use vstd::string::group_string_axioms;

/// Largest file or data part, in bytes.
pub const FILE_PART_CAP_BYTES: usize = 4 * 1024 * 1024;

/// What the mapping reads of a chunk's `content`.
#[derive(Debug, Clone, PartialEq, Eq)]
pub struct ChunkContent {
    /// `type`, when it is a string.
    pub kind: Option<String>,
    /// `text`, when it is a string.
    pub text: Option<String>,
    /// `data`, when it is a string.
    pub data: Option<String>,
    /// `mime`, when it is a string.
    pub mime: Option<String>,
    /// The content's JSON text.
    pub json: String,
}

/// A message part.
#[derive(Debug, Clone, PartialEq, Eq)]
pub enum Part {
    Text { text: String },
    File { name: String, mime_type: String, bytes: String },
    /// Structured content, as its JSON text.
    Data { json: String },
}

/// Bytes of a character in UTF-8.
pub open spec fn utf8_width(c: char) -> nat {
    if (c as u32) < 0x80 {
        1
    } else if (c as u32) < 0x800 {
        2
    } else if (c as u32) < 0x10000 {
        3
    } else {
        4
    }
}

/// Bytes of a text in UTF-8.
pub open spec fn utf8_len(s: Seq<char>) -> nat
    decreases s.len(),
{
    if s.len() == 0 {
        0
    } else {
        utf8_len(s.drop_last()) + utf8_width(s.last())
    }
}

/// Whether the UTF-8 size of `s` exceeds `cap` bytes (one pass over the
/// characters).
pub fn utf8_longer_than(s: &str, cap: usize) -> (r: bool)
    ensures
        r == (utf8_len(s@) > cap),
{
    let mut it = s.chars();
    let ghost mut k: int = 0;
    let mut total: usize = 0;
    assert(s@.take(0) =~= Seq::<char>::empty());
    assert(s@.skip(0) =~= s@);
    loop
        invariant
            0 <= k <= s@.len(),
            it.remaining() == s@.skip(k),
            total == utf8_len(s@.take(k)),
            total <= cap,
        decreases s@.len() - k,
    {
        let ghost before = it.remaining();
        match it.next() {
            None => {
                assert(s@.skip(k).len() == 0);
                assert(s@.take(k) =~= s@);
                return false;
            },
            Some(c) => {
                assert(before.len() > 0);
                assert(c == s@[k]);
                assert(s@.take(k + 1).drop_last() =~= s@.take(k));
                assert(s@.take(k + 1).last() == c);
                assert(it.remaining() =~= s@.skip(k + 1));
                let w: usize = if (c as u32) < 0x80 {
                    1
                } else if (c as u32) < 0x800 {
                    2
                } else if (c as u32) < 0x10000 {
                    3
                } else {
                    4
                };
                if w > cap - total {
                    proof {
                        lemma_utf8_len_prefix(s@, k + 1);
                    }
                    return true;
                }
                total = total + w;
                proof {
                    k = k + 1;
                }
            },
        }
    }
}

proof fn lemma_utf8_len_prefix(s: Seq<char>, k: int)
    requires
        0 <= k <= s.len(),
    ensures
        utf8_len(s.take(k)) <= utf8_len(s),
    decreases s.len() - k,
{
    if k < s.len() {
        lemma_utf8_len_prefix(s, k + 1);
        assert(s.take(k + 1).drop_last() =~= s.take(k));
    } else {
        assert(s.take(k) =~= s);
    }
}

/// The line is a `session/update` whose update is an `agent_message_chunk`.
pub open spec fn is_chunk_spec(m: RpcMessage) -> bool {
    &&& calls(m, "session/update"@)
    &&& m.update_kind matches Some(k) && k@ == "agent_message_chunk"@
}

/// Whether the line carries a message chunk.
pub fn is_chunk_update(m: &RpcMessage) -> (r: bool)
    ensures
        r == is_chunk_spec(*m),
{
    let is_update = match &m.method {
        Some(x) => str_eq(x.as_str(), "session/update"),
        None => false,
    };
    is_update && match &m.update_kind {
        Some(k) => str_eq(k.as_str(), "agent_message_chunk"),
        None => false,
    }
}

/// Abstract part.
pub enum PartView {
    Text { text: Seq<char> },
    File { name: Seq<char>, mime_type: Seq<char>, bytes: Seq<char> },
    Data { json: Seq<char> },
}

impl View for Part {
    type V = PartView;

    open spec fn view(&self) -> PartView {
        match self {
            Part::Text { text } => PartView::Text { text: text@ },
            Part::File { name, mime_type, bytes } => PartView::File {
                name: name@,
                mime_type: mime_type@,
                bytes: bytes@,
            },
            Part::Data { json } => PartView::Data { json: json@ },
        }
    }
}

pub open spec fn text_or_empty(o: Option<String>) -> Seq<char> {
    match o {
        Some(s) => s@,
        None => Seq::empty(),
    }
}

/// The part for a chunk's content, and whether it is over the cap.
pub open spec fn part_spec(c: ChunkContent) -> (PartView, bool) {
    if (c.kind matches Some(k) && k@ == "text"@) {
        (PartView::Text { text: text_or_empty(c.text) }, false)
    } else if (c.kind matches Some(k) && k@ == "image"@) {
        (
            PartView::File {
                name: "image"@,
                mime_type: match c.mime {
                    Some(m) => m@,
                    None => "image/png"@,
                },
                bytes: text_or_empty(c.data),
            },
            utf8_len(text_or_empty(c.data)) > FILE_PART_CAP_BYTES,
        )
    } else {
        (PartView::Data { json: c.json@ }, utf8_len(c.json@) > FILE_PART_CAP_BYTES)
    }
}

fn owned_or_empty(o: &Option<String>) -> (s: String)
    ensures
        s@ == text_or_empty(*o),
{
    match o {
        Some(s) => s.clone(),
        None => String::new(),
    }
}

/// Maps a chunk's content to a part; the flag tells a part over the cap.
pub fn to_part(content: &ChunkContent) -> (r: (Part, bool))
    ensures
        (r.0@, r.1) == part_spec(*content),
{
    proof {
        reveal_strlit("text");
        reveal_strlit("image");
    }
    let kind: &str = match &content.kind {
        Some(k) => k.as_str(),
        None => "",
    };
    let known = content.kind.is_some();
    if known && str_eq(kind, "text") {
        return (Part::Text { text: owned_or_empty(&content.text) }, false);
    }
    if known && str_eq(kind, "image") {
        let bytes = owned_or_empty(&content.data);
        let over = utf8_longer_than(bytes.as_str(), FILE_PART_CAP_BYTES);
        let mime_type = match &content.mime {
            Some(m) => m.clone(),
            None => "image/png".to_owned(),
        };
        return (Part::File { name: "image".to_owned(), mime_type, bytes }, over);
    }
    let over = utf8_longer_than(content.json.as_str(), FILE_PART_CAP_BYTES);
    (Part::Data { json: content.json.clone() }, over)
}

/// An image chunk becomes a file part named `image` that carries the
/// chunk's own data and mime type (`image/png` only when the chunk gives
/// none); a text chunk becomes a text part with the chunk's text.
pub proof fn chunk_parts_keep_their_content(c: ChunkContent)
    ensures
        (c.kind matches Some(k) && k@ == "image"@) ==> match part_spec(c).0 {
            PartView::File { name, mime_type, bytes } => {
                &&& name == "image"@
                &&& (c.mime matches Some(m) ==> mime_type == m@)
                &&& (c.mime is None ==> mime_type == "image/png"@)
                &&& (c.data matches Some(d) ==> bytes == d@)
            },
            _ => false,
        },
        (c.kind matches Some(k) && k@ == "text"@) ==> match part_spec(c).0 {
            PartView::Text { text } => c.text matches Some(t) ==> text == t@,
            _ => false,
        },
{
    reveal_strlit("text");
    reveal_strlit("image");
    assert("text"@.len() != "image"@.len());
}

} // verus!
