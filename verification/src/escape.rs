use vstd::prelude::*;

verus! {

/// The entity for one character under minimal HTML escaping: the five
/// markup-significant characters become entities, all others stand as
/// themselves.
pub open spec fn escape_char(c: char) -> Seq<char> {
    if c == '"' {
        "&quot;"@
    } else if c == '&' {
        "&amp;"@
    } else if c == '\'' {
        "&#x27;"@
    } else if c == '<' {
        "&lt;"@
    } else if c == '>' {
        "&gt;"@
    } else {
        seq![c]
    }
}

/// A character sequence with minimal HTML escaping applied.
pub open spec fn escape_minimal(s: Seq<char>) -> Seq<char>
    decreases s.len(),
{
    if s.len() == 0 {
        Seq::empty()
    } else {
        escape_char(s[0]) + escape_minimal(s.drop_first())
    }
}

/// Relies on htmlescape::encode_minimal: encodes `"`, `&`, `'`, `<` and
/// `>` as their entities and passes every other character through.
#[verifier::external_body]
pub fn html_escape(s: &str) -> (r: String)
    ensures
        r@ == escape_minimal(s@),
{
    htmlescape::encode_minimal(s)
}

} // verus!
