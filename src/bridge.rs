//! Rendering of native failures, with their causal chains, as the message of
//! a managed exception.
use vstd::prelude::*;

verus! {

#[verifier::external_type_specification]
#[verifier::external_body]
pub struct ExAnyhowError(anyhow::Error);

/// The characters that carry the Unicode `White_Space` property.
pub open spec fn is_white_space(c: char) -> bool {
    ('\u{9}' <= c && c <= '\u{d}') || c == ' ' || c == '\u{85}' || c == '\u{a0}' || c
        == '\u{1680}' || ('\u{2000}' <= c && c <= '\u{200a}') || c == '\u{2028}' || c
        == '\u{2029}' || c == '\u{202f}' || c == '\u{205f}' || c == '\u{3000}'
}

/// `s` without its trailing white space.
pub open spec fn trim_end(s: Seq<char>) -> Seq<char>
    decreases s.len(),
{
    if s.len() > 0 && is_white_space(s.last()) {
        trim_end(s.drop_last())
    } else {
        s
    }
}

pub open spec fn caused_by() -> Seq<char> {
    "  Caused by: "@
}

/// One line per message: the first as it is, each later one after the
/// `Caused by` prefix; every line ends in a newline.
pub open spec fn chain_lines(messages: Seq<Seq<char>>) -> Seq<char>
    decreases messages.len(),
{
    if messages.len() == 0 {
        Seq::empty()
    } else if messages.len() == 1 {
        messages[0] + seq!['\n']
    } else {
        chain_lines(messages.drop_last()) + caused_by() + messages.last() + seq!['\n']
    }
}

/// The exception message for an error whose chain holds `messages`, the
/// top-level error first.
pub open spec fn nested_error_text(messages: Seq<Seq<char>>) -> Seq<char> {
    trim_end(chain_lines(messages))
}

pub open spec fn views_of(messages: Seq<String>) -> Seq<Seq<char>> {
    messages.map_values(|m: String| m@)
}

fn char_is_white_space(c: char) -> (r: bool)
    ensures
        r == is_white_space(c),
{
    ('\u{9}' <= c && c <= '\u{d}') || c == ' ' || c == '\u{85}' || c == '\u{a0}' || c
        == '\u{1680}' || ('\u{2000}' <= c && c <= '\u{200a}') || c == '\u{2028}' || c
        == '\u{2029}' || c == '\u{202f}' || c == '\u{205f}' || c == '\u{3000}'
}

/// `s` with its trailing white space removed.
pub fn trim_end_string(s: &str) -> (r: String)
    ensures
        r@ == trim_end(s@),
{
    let mut k: usize = s.unicode_len();
    assert(s@.subrange(0, k as int) =~= s@);
    while k > 0 && char_is_white_space(s.get_char(k - 1))
        invariant
            k <= s@.len(),
            trim_end(s@.subrange(0, k as int)) == trim_end(s@),
        decreases k,
    {
        assert(s@.subrange(0, k as int).drop_last() =~= s@.subrange(0, k - 1));
        k = k - 1;
    }
    String::from_str(s.substring_char(0, k))
}

/// Renders an error chain, the top-level message first, as one exception
/// message: each cause on a line of its own after `  Caused by: `, with
/// trailing white space removed.
pub fn format_error_chain(messages: &Vec<String>) -> (r: String)
    ensures
        r@ == nested_error_text(views_of(messages@)),
{
    let mut text = String::new();
    let mut i: usize = 0;
    while i < messages.len()
        invariant
            i <= messages@.len(),
            text@ == chain_lines(views_of(messages@.subrange(0, i as int))),
        decreases messages@.len() - i,
    {
        let ghost before = views_of(messages@.subrange(0, i as int));
        let ghost after = views_of(messages@.subrange(0, i + 1));
        assert(after.drop_last() =~= before);
        if i > 0 {
            text.append("  Caused by: ");
        }
        text.append(messages[i].as_str());
        text.append("\n");
        proof {
            reveal_strlit("\n");
        }
        assert(text@ =~= chain_lines(after));
        i = i + 1;
    }
    assert(messages@.subrange(0, messages@.len() as int) =~= messages@);
    trim_end_string(text.as_str())
}

/// The messages of an error's causal chain, the error itself first, each as
/// its `Display` text.
pub uninterp spec fn chain_texts(error: anyhow::Error) -> Seq<Seq<char>>;

/// Relies on anyhow::Error::chain: it visits the error itself first and then
/// each of its sources, so at least one message comes back.
#[verifier::external_body]
fn cause_messages(error: &anyhow::Error) -> (r: Vec<String>)
    ensures
        r@.len() >= 1,
        views_of(r@) == chain_texts(*error),
{
    let mut messages = Vec::new();
    for cause in error.chain() {
        messages.push(cause.to_string());
    }
    messages
}

/// The message of the managed exception raised for `error`: its chain of
/// causes as `format_error_chain` renders it.
pub fn format_nested_error(error: &anyhow::Error) -> (r: String)
    ensures
        r@ == nested_error_text(chain_texts(*error)),
        chain_texts(*error).len() >= 1,
{
    let messages = cause_messages(error);
    format_error_chain(&messages)
}

} // verus!
