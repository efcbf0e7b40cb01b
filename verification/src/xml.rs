//! Field extraction for the platform's envelope XML.
//!
//! The callback bodies are small fixed-shape XML documents; what the
//! gateway needs from one is the text between a known pair of tags, with
//! an optional CDATA wrapper stripped. The extraction takes the first
//! occurrence of the opening tag and the first closing tag after it.
use vstd::prelude::*;
use vstd::string::*;
use crate::strutil::{occurs_at, spec_starts_with, spec_ends_with, str_find_from};

verus! {

/// First position at or after `from` where `p` occurs in `s`, or -1.
pub open spec fn spec_find(s: Seq<char>, p: Seq<char>, from: int) -> int
    decreases s.len() - from when 0 <= from <= s.len()
{
    if from + p.len() <= s.len() && s.subrange(from, from + p.len() as int) == p {
        from
    } else if from >= s.len() {
        -1
    } else {
        spec_find(s, p, from + 1)
    }
}

proof fn lemma_spec_find_none(s: Seq<char>, p: Seq<char>, from: int)
    requires
        0 <= from <= s.len(),
        forall|j: int| from <= j ==> !occurs_at(s, p, j),
    ensures
        spec_find(s, p, from) == -1,
    decreases s.len() - from,
{
    assert(!occurs_at(s, p, from));
    if from + p.len() <= s.len() {
        assert(s.subrange(from, from + p.len() as int) != p);
    }
    if from < s.len() {
        lemma_spec_find_none(s, p, from + 1);
    }
}

proof fn lemma_spec_find_at(s: Seq<char>, p: Seq<char>, from: int, i: int)
    requires
        0 <= from <= i,
        occurs_at(s, p, i),
        forall|j: int| from <= j < i ==> !occurs_at(s, p, j),
    ensures
        spec_find(s, p, from) == i,
    decreases i - from,
{
    assert(0 <= from <= s.len());
    if from < i {
        assert(from + p.len() <= s.len());
        assert(!occurs_at(s, p, from));
        assert(s.subrange(from, from + p.len() as int) != p);
        lemma_spec_find_at(s, p, from + 1, i);
    } else {
        assert(s.subrange(from, from + p.len() as int) == p);
    }
}

/// Finds the first occurrence of `p` at or after `from`, as `spec_find`
/// places it.
pub fn find_str(s: &str, from: usize, p: &str) -> (r: Option<usize>)
    requires
        from <= s@.len(),
    ensures
        match r {
            Some(i) => from <= i && i + p@.len() <= s@.len() && spec_find(s@, p@, from as int)
                == i,
            None => spec_find(s@, p@, from as int) == -1,
        },
{
    match str_find_from(s, from, p) {
        Some(i) => {
            proof {
                lemma_spec_find_at(s@, p@, from as int, i as int);
            }
            Some(i)
        },
        None => {
            proof {
                lemma_spec_find_none(s@, p@, from as int);
            }
            None
        },
    }
}

/// Strips one CDATA wrapper, when the whole text is wrapped in one.
pub open spec fn spec_strip_cdata(s: Seq<char>) -> Seq<char> {
    if s.len() >= 12 && spec_starts_with(s, "<![CDATA["@) && spec_ends_with(s, "]]>"@) {
        s.subrange(9, s.len() - 3)
    } else {
        s
    }
}

/// Text of the first `open_tag` ... `close_tag` pair, with an optional
/// CDATA wrapper stripped; `None` when the pair is absent.
pub open spec fn spec_xml_field(
    doc: Seq<char>,
    open_tag: Seq<char>,
    close_tag: Seq<char>,
) -> Option<Seq<char>> {
    let i = spec_find(doc, open_tag, 0);
    if i < 0 {
        None
    } else {
        let start = i + open_tag.len();
        let j = spec_find(doc, close_tag, start);
        if j < 0 {
            None
        } else {
            Some(spec_strip_cdata(doc.subrange(start, j)))
        }
    }
}

/// Extracts the text between the first `open_tag` and the first
/// `close_tag` after it, stripping an optional CDATA wrapper.
pub fn xml_field(doc: &str, open_tag: &str, close_tag: &str) -> (r: Option<String>)
    ensures
        match r {
            Some(s) => spec_xml_field(doc@, open_tag@, close_tag@) == Some(s@),
            None => spec_xml_field(doc@, open_tag@, close_tag@) is None,
        },
{
    let dl = doc.unicode_len();
    let i = match find_str(doc, 0, open_tag) {
        None => {
            return None;
        },
        Some(i) => i,
    };
    let start = i + open_tag.unicode_len();
    proof {
        assert(start <= dl);
    }
    let j = match find_str(doc, start, close_tag) {
        None => {
            return None;
        },
        Some(j) => j,
    };
    let inner = doc.substring_char(start, j);
    let n = inner.unicode_len();
    if n >= 12 && crate::strutil::str_starts_with(inner, "<![CDATA[") && crate::strutil::str_ends_with(
        inner,
        "]]>",
    ) {
        proof {
            reveal_strlit("<![CDATA[");
            reveal_strlit("]]>");
        }
        Some(inner.substring_char(9, n - 3).to_owned())
    } else {
        proof {
            reveal_strlit("<![CDATA[");
            reveal_strlit("]]>");
        }
        Some(inner.to_owned())
    }
}

} // verus!
