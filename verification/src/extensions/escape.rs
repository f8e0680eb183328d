//! Text made safe for a place in an HTML document.

use vstd::prelude::*;

verus! {

/// What stands for one character in HTML: an entity for each character that
/// could open or close markup or end an attribute, the character itself
/// otherwise.
pub open spec fn escaped_char(c: char) -> Seq<char> {
    if c == '&' {
        "&amp;"@
    } else if c == '>' {
        "&gt;"@
    } else if c == '<' {
        "&lt;"@
    } else if c == '"' {
        "&#34;"@
    } else if c == '\'' {
        "&#39;"@
    } else if c == '`' {
        "&#96;"@
    } else if c == '!' {
        "&#33;"@
    } else if c == '$' {
        "&#36;"@
    } else if c == '%' {
        "&#37;"@
    } else if c == '(' {
        "&#40;"@
    } else if c == ')' {
        "&#41;"@
    } else if c == '+' {
        "&#43;"@
    } else if c == '=' {
        "&#61;"@
    } else if c == '@' {
        "&#64;"@
    } else if c == '[' {
        "&#91;"@
    } else if c == ']' {
        "&#93;"@
    } else if c == '{' {
        "&#123;"@
    } else if c == '}' {
        "&#125;"@
    } else {
        seq![c]
    }
}

/// A text with each character replaced by what stands for it in HTML.
pub open spec fn escaped(text: Seq<char>) -> Seq<char>
    decreases text.len(),
{
    if text.len() == 0 {
        Seq::empty()
    } else {
        escaped(text.drop_last()) + escaped_char(text.last())
    }
}

/// Escapes a text for HTML.
///
/// Calls `marksman_escape::Escape` on the bytes of the text. Trusted: the
/// result is the text with `& > < " ' ` ! $ % ( ) + = @ [ ] { }` replaced,
/// one by one, by the entities that the adaptor's table gives, and every
/// other character kept.
#[verifier::external_body]
pub(crate) fn escape_html(input: &str) -> (r: String)
    ensures
        r@ == escaped(input@),
{
    String::from_utf8(marksman_escape::Escape::new(input.bytes()).collect()).unwrap()
}

/// No character that opens or closes markup, and no quote, is left in what
/// stands for a character.
pub proof fn lemma_escaped_char_is_neutral(c: char)
    ensures
        forall|i: int|
            0 <= i < escaped_char(c).len() ==> {
                let e = #[trigger] escaped_char(c)[i];
                e != '<' && e != '>' && e != '"' && e != '\''
            },
{
    reveal_strlit("&amp;");
    reveal_strlit("&gt;");
    reveal_strlit("&lt;");
    reveal_strlit("&#34;");
    reveal_strlit("&#39;");
    reveal_strlit("&#96;");
    reveal_strlit("&#33;");
    reveal_strlit("&#36;");
    reveal_strlit("&#37;");
    reveal_strlit("&#40;");
    reveal_strlit("&#41;");
    reveal_strlit("&#43;");
    reveal_strlit("&#61;");
    reveal_strlit("&#64;");
    reveal_strlit("&#91;");
    reveal_strlit("&#93;");
    reveal_strlit("&#123;");
    reveal_strlit("&#125;");
}

/// Escaping neutralises markup: no `<`, `>`, `"` or `'` is left in an
/// escaped text.
pub proof fn lemma_escaped_is_neutral(text: Seq<char>)
    ensures
        forall|i: int|
            0 <= i < escaped(text).len() ==> {
                let e = #[trigger] escaped(text)[i];
                e != '<' && e != '>' && e != '"' && e != '\''
            },
    decreases text.len(),
{
    if text.len() > 0 {
        lemma_escaped_is_neutral(text.drop_last());
        lemma_escaped_char_is_neutral(text.last());
        let head = escaped(text.drop_last());
        let tail = escaped_char(text.last());
        assert forall|i: int| 0 <= i < escaped(text).len() implies {
            let e = #[trigger] escaped(text)[i];
            e != '<' && e != '>' && e != '"' && e != '\''
        } by {
            if i < head.len() {
                assert(escaped(text)[i] == head[i]);
            } else {
                assert(escaped(text)[i] == tail[i - head.len()]);
            }
        }
    }
}

} // verus!
