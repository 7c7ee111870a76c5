//! Building texts.

use vstd::prelude::*;

verus! {

/// `String::push`: appends a character.
pub assume_specification[ String::push ](text: &mut String, c: char)
    ensures
        final(text)@ == old(text)@.push(c),
;

/// A text between double quotes, with the characters in it escaped that could not be read there,
/// as `{:?}` writes it.
pub uninterp spec fn quoted(text: Seq<char>) -> Seq<char>;

/// `format!` with `{:?}` of a `str`: the text in quotes.
#[verifier::external_body]
pub(crate) fn format_quoted(text: &str) -> (written: String)
    ensures
        written@ == quoted(text@),
{
    format!("{:?}", text)
}

/// Whether a character has the Unicode property White_Space.
pub open spec fn white_space(c: char) -> bool {
    ||| 0x9 <= c as u32 <= 0xd
    ||| c as u32 == 0x20
    ||| c as u32 == 0x85
    ||| c as u32 == 0xa0
    ||| c as u32 == 0x1680
    ||| 0x2000 <= c as u32 <= 0x200a
    ||| c as u32 == 0x2028
    ||| c as u32 == 0x2029
    ||| c as u32 == 0x202f
    ||| c as u32 == 0x205f
    ||| c as u32 == 0x3000
}

/// Whether `kept` is `text` without the white space before and after it.
pub open spec fn is_trimmed(text: Seq<char>, kept: Seq<char>) -> bool {
    exists|start: int, end: int| #[trigger] is_trimmed_at(text, kept, start, end)
}

/// Whether `kept` is what stands in `text` from `start` to `end`, has no white space at its ends, and
/// has nothing but white space around it.
pub open spec fn is_trimmed_at(text: Seq<char>, kept: Seq<char>, start: int, end: int) -> bool {
    &&& 0 <= start <= end <= text.len()
    &&& kept == text.subrange(start, end)
    &&& forall|i: int|
        0 <= i < text.len() && !(start <= i < end) ==> white_space(#[trigger] text[i])
    &&& kept.len() > 0 ==> !white_space(kept[0]) && !white_space(kept.last())
}

/// `str::trim`: the text without the white space before and after it, where white space is what has
/// the Unicode property White_Space.
#[verifier::external_body]
pub(crate) fn str_trim(text: &str) -> (kept: String)
    ensures
        is_trimmed(text@, kept@),
{
    text.trim().to_string()
}

/// There is only one way to take the white space around a text away.
pub proof fn law_trimmed_text_unique(text: Seq<char>, a: Seq<char>, b: Seq<char>)
    requires
        is_trimmed(text, a),
        is_trimmed(text, b),
    ensures
        a == b,
{
    let (i, j) = choose|i: int, j: int| is_trimmed_at(text, a, i, j);
    let (k, l) = choose|k: int, l: int| is_trimmed_at(text, b, k, l);
    if a.len() > 0 {
        assert(text[i] == a[0] && text[j - 1] == a.last());
    }
    if b.len() > 0 {
        assert(text[k] == b[0] && text[l - 1] == b.last());
    }
    assert(a =~= b);
}

/// Whether `c` stays when line feeds are taken out of a text.
pub open spec fn no_line_feed() -> spec_fn(char) -> bool {
    |c: char| c != '\n'
}

/// `text` without its line feeds.
pub fn without_line_feeds(text: &str) -> (kept: String)
    ensures
        kept@ == text@.filter(no_line_feed()),
{
    let mut kept = String::new();
    proof {
        assert(text@.take(0).filter(no_line_feed()) =~= Seq::empty()) by {
            reveal(Seq::filter);
        }
    }
    for c in iter: text.chars()
        invariant
            iter.seq() == text@,
            kept@ == text@.take(iter.index() as int).filter(no_line_feed()),
    {
        let ghost i = iter.index() as int;
        if c != '\n' {
            kept.push(c);
        }
        proof {
            reveal(Seq::filter);
            assert(text@.take(i + 1).drop_last() =~= text@.take(i));
        }
    }
    assert(text@.take(text@.len() as int) =~= text@);
    kept
}

/// A text without a line feed is kept whole.
pub proof fn law_only_line_feeds_go(text: Seq<char>)
    requires
        forall|i: int| 0 <= i < text.len() ==> #[trigger] text[i] != '\n',
    ensures
        text.filter(no_line_feed()) == text,
    decreases text.len(),
{
    reveal(Seq::filter);
    if text.len() > 0 {
        assert(text.drop_last().push(text.last()) =~= text);
        law_only_line_feeds_go(text.drop_last());
    }
}

/// A line feed is taken out of a text wherever it stands.
pub proof fn law_line_feed_makes_no_difference(start: Seq<char>, end: Seq<char>)
    ensures
        (start + seq!['\n'] + end).filter(no_line_feed()) == (start + end).filter(no_line_feed()),
{
    let feed = seq!['\n'];
    Seq::filter_distributes_over_add(start + feed, end, no_line_feed());
    Seq::filter_distributes_over_add(start, feed, no_line_feed());
    Seq::filter_distributes_over_add(start, end, no_line_feed());
    assert(feed.filter(no_line_feed()) =~= Seq::<char>::empty()) by {
        reveal(Seq::filter);
        assert(feed.drop_last().filter(no_line_feed()) =~= Seq::<char>::empty());
    }
    assert(start.filter(no_line_feed()) + feed.filter(no_line_feed()) =~= start.filter(
        no_line_feed(),
    ));
}

/// White space around a text is cut off, and nothing else: a text that neither starts nor ends with
/// white space comes out of any white space around it as it went in.
pub proof fn law_white_space_is_cut_off(
    before: Seq<char>,
    text: Seq<char>,
    after: Seq<char>,
    kept: Seq<char>,
)
    requires
        forall|i: int| 0 <= i < before.len() ==> white_space(#[trigger] before[i]),
        forall|i: int| 0 <= i < after.len() ==> white_space(#[trigger] after[i]),
        text.len() > 0 ==> !white_space(text[0]) && !white_space(text.last()),
        is_trimmed(before + text + after, kept),
    ensures
        kept == text,
{
    let whole = before + text + after;
    let start = before.len() as int;
    let end = start + text.len();
    assert(text =~= whole.subrange(start, end));
    assert(is_trimmed_at(whole, text, start, end));
    law_trimmed_text_unique(whole, kept, text);
}

} // verus!
