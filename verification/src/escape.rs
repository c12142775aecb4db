//! Escaping for the two hand-built markup outputs: the Atom feed and the
//! `<link>`/`<meta>` tags injected into the page shells. XML's five
//! predefined entities also cover an HTML5 double-quoted attribute value.
use vstd::prelude::*;

use crate::text::{chars_of, push_str_chars, string_of};

verus! {

/// What one character becomes once escaped.
pub open spec fn escape_char(c: char) -> Seq<char> {
    if c == '&' {
        seq!['&', 'a', 'm', 'p', ';']
    } else if c == '<' {
        seq!['&', 'l', 't', ';']
    } else if c == '>' {
        seq!['&', 'g', 't', ';']
    } else if c == '"' {
        seq!['&', 'q', 'u', 'o', 't', ';']
    } else if c == '\'' {
        seq!['&', 'a', 'p', 'o', 's', ';']
    } else {
        seq![c]
    }
}

/// `s` with each of `& < > " '` replaced by its entity.
pub open spec fn xml_escaped(s: Seq<char>) -> Seq<char>
    decreases s.len(),
{
    if s.len() == 0 {
        Seq::empty()
    } else {
        xml_escaped(s.drop_last()) + escape_char(s.last())
    }
}

/// The escaped text holds none of the five special characters raw except
/// the `&` that opens an entity.
pub proof fn lemma_escaped_has_no_quote(s: Seq<char>)
    ensures
        forall|i: int|
            0 <= i < xml_escaped(s).len() ==> xml_escaped(s)[i] != '"' && xml_escaped(s)[i]
                != '<' && xml_escaped(s)[i] != '>' && xml_escaped(s)[i] != '\'',
    decreases s.len(),
{
    if s.len() > 0 {
        lemma_escaped_has_no_quote(s.drop_last());
        let a = xml_escaped(s.drop_last());
        let b = escape_char(s.last());
        assert forall|i: int| 0 <= i < (a + b).len() implies (a + b)[i] != '"' && (a + b)[i] != '<'
            && (a + b)[i] != '>' && (a + b)[i] != '\'' by {
            if i >= a.len() {
                assert(b[i - a.len()] == (a + b)[i]);
            }
        }
    }
}

/// Appends the escaped form of `v` to `out`.
pub fn push_escaped(out: &mut Vec<char>, v: &[char])
    ensures
        final(out)@ == old(out)@ + xml_escaped(v@),
{
    let mut i: usize = 0;
    while i < v.len()
        invariant
            i <= v@.len(),
            out@ == old(out)@ + xml_escaped(v@.take(i as int)),
        decreases v@.len() - i,
    {
        let c = v[i];
        let ghost before = out@;
        if c == '&' {
            push_str_chars(out, "&amp;");
            proof { reveal_strlit("&amp;"); }
        } else if c == '<' {
            push_str_chars(out, "&lt;");
            proof { reveal_strlit("&lt;"); }
        } else if c == '>' {
            push_str_chars(out, "&gt;");
            proof { reveal_strlit("&gt;"); }
        } else if c == '"' {
            push_str_chars(out, "&quot;");
            proof { reveal_strlit("&quot;"); }
        } else if c == '\'' {
            push_str_chars(out, "&apos;");
            proof { reveal_strlit("&apos;"); }
        } else {
            out.push(c);
        }
        assert(out@ == before + escape_char(c));
        assert(v@.take(i + 1).drop_last() == v@.take(i as int));
        i = i + 1;
    }
    assert(v@.take(v@.len() as int) == v@);
}

/// Escapes `&`, `<`, `>`, `"`, and `'` — enough for both an XML text or
/// attribute node and an HTML5 double-quoted attribute value.
pub fn xml_escape(value: &str) -> (r: String)
    ensures
        r@ == xml_escaped(value@),
{
    let v = chars_of(value);
    let mut out: Vec<char> = Vec::new();
    push_escaped(&mut out, v.as_slice());
    string_of(out.as_slice())
}

} // verus!
