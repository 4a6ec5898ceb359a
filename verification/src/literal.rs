//! String literals of a document.

use crate::text::chars_of;
use vstd::prelude::*;

verus! {

/// The text of a string literal: it starts and ends with a double quote.
pub open spec fn is_quoted(text: Seq<char>) -> bool {
    text.len() >= 2 && text[0] == '"' && text.last() == '"'
}

/// `text` between double quotes.
pub open spec fn quoted(text: Seq<char>) -> Seq<char> {
    seq!['"'] + text + seq!['"']
}

/// What a string literal with escape sequences stands for.
pub uninterp spec fn unescaped(text: Seq<char>) -> Seq<char>;

/// What a string literal stands for: the text between its quotes where it
/// holds no backslash, and that text with its escape sequences resolved where
/// it holds one.
pub open spec fn literal_value(text: Seq<char>) -> Seq<char> {
    if text.contains('\\') {
        unescaped(text)
    } else {
        text.subrange(1, text.len() - 1)
    }
}

/// Calls `typst_syntax::ast::Str::get` on a leaf that holds `text`. The call
/// cuts off the first and the last character. Where no backslash is left it
/// returns the rest as it is; where one is left, the rest with its escape
/// sequences resolved.
#[verifier::external_body]
pub(crate) fn str_literal_value(text: &str) -> (r: String)
    requires
        is_quoted(text@),
    ensures
        r@ == literal_value(text@),
        text@.contains('\\') ==> r@ == unescaped(text@),
{
    let leaf = typst_syntax::SyntaxNode::leaf(typst_syntax::SyntaxKind::Str, text);
    let literal: typst_syntax::ast::Str = leaf.cast().unwrap();
    literal.get().to_string()
}

/// Whether `text` is the text of a string literal: whether it starts and
/// ends with a double quote.
pub fn holds_quoted(text: &str) -> (r: bool)
    ensures
        r == is_quoted(text@),
{
    let chars = chars_of(text);
    chars.len() >= 2 && chars[0] == '"' && chars[chars.len() - 1] == '"'
}

/// The string literal that stands for `text`, for a text without a double
/// quote or a backslash in it.
pub fn quote(text: &str) -> (r: String)
    ensures
        r@ == quoted(text@),
{
    let mut out = String::from_str("\"");
    out.append(text);
    out.append("\"");
    proof {
        reveal_strlit("\"");
        assert("\""@ =~= seq!['"']);
    }
    out
}

/// A quoted text without a backslash stands for itself.
pub proof fn lemma_literal_value_of_quoted(text: Seq<char>)
    requires
        !text.contains('\\'),
    ensures
        is_quoted(quoted(text)),
        literal_value(quoted(text)) == text,
{
    let q = quoted(text);
    assert(q[0] == '"');
    assert(q.last() == '"');
    if q.contains('\\') {
        let i = choose|i: int| 0 <= i < q.len() && q[i] == '\\';
        assert(0 < i < q.len() - 1);
        assert(text[i - 1] == '\\');
        assert(text.contains('\\'));
    }
    assert(q.subrange(1, q.len() - 1) =~= text);
}

} // verus!
