//! String literals: quoted strings with escapes, and raw strings.

use crate::expr::{ParseError, ParseErrorView};
use crate::number::{radix_literal, try_parse_int};
use crate::span::SourceSpan;
use crate::text::{chars_of, Text};
use crate::token::{Pair, Rule};
use vstd::prelude::*;

verus! {

/// Whether `code` is the code point of a character: any number up to
/// 0x10FFFF that is no surrogate.
pub open spec fn is_scalar_value(code: int) -> bool {
    0 <= code <= 0xD7FF || 0xE000 <= code <= 0x10FFFF
}

/// The character with the code point `code`, if there is one.
pub open spec fn char_of(code: u32) -> Option<char> {
    if is_scalar_value(code as int) {
        Some(code as char)
    } else {
        None
    }
}

/// `char::from_u32`: the character with this code point; `None` for a
/// surrogate and for a number beyond the last code point.
#[verifier::external_body]
fn char_from_code(code: u32) -> (r: Option<char>)
    ensures
        r == char_of(code),
{
    char::from_u32(code)
}

/// The character that a backslash and `c` stand for in a quoted string, if
/// they stand for one. Either quote character may be written so, whichever
/// of the two the string stands between.
pub open spec fn escaped_char(c: char) -> Option<char> {
    if c == '"' {
        Some('"')
    } else if c == '\'' {
        Some('\'')
    } else if c == '\\' {
        Some('\\')
    } else if c == '/' {
        Some('/')
    } else if c == 'b' {
        Some('\x08')
    } else if c == 'f' {
        Some('\x0c')
    } else if c == 'n' {
        Some('\n')
    } else if c == 'r' {
        Some('\r')
    } else if c == 't' {
        Some('\t')
    } else {
        None
    }
}

/// The number that a code-point escape names: the hexadecimal number
/// after the first two characters, taken modulo 2^32. `None` where no such
/// number follows.
pub open spec fn escape_code(text: Seq<char>) -> Option<u32> {
    match radix_literal(text, 16) {
        Some(v) => Some((v as int % 0x1_0000_0000) as u32),
        None => None,
    }
}

/// What one chunk of a quoted string adds to the string. A chunk is
///  - a backslash and one character that [`escaped_char`] knows: that
///    character;
///  - a backslash, `u` and a hexadecimal number: the character with that
///    code point, or an error that holds the number if it is no code point;
///  - anything else that starts with a backslash: an error that holds the
///    chunk;
///  - any other text: that text.
pub open spec fn chunk_value(text: Seq<char>, span: SourceSpan) -> Result<
    Seq<char>,
    ParseErrorView,
> {
    if text.len() == 2 && text[0] == '\\' && escaped_char(text[1]) is Some {
        Ok(seq![escaped_char(text[1]).unwrap()])
    } else if text.len() >= 2 && text[0] == '\\' && text[1] == 'u' {
        match escape_code(text) {
            Some(code) => match char_of(code) {
                Some(c) => Ok(seq![c]),
                None => Err(ParseErrorView::InvalidUtf8Code(code, span)),
            },
            None => Err(ParseErrorView::InvalidEscapeSequence(text, span)),
        }
    } else if text.len() >= 1 && text[0] == '\\' {
        Err(ParseErrorView::InvalidEscapeSequence(text, span))
    } else {
        Ok(text)
    }
}

/// What the chunks of a quoted string come to, taken in order: the
/// concatenation of what each adds, or the error of the first chunk that
/// has one.
pub open spec fn chunks_value(chunks: Seq<Pair>) -> Result<Seq<char>, ParseErrorView>
    decreases chunks.len(),
{
    if chunks.len() == 0 {
        Ok(Seq::empty())
    } else {
        match chunks_value(chunks.drop_last()) {
            Err(e) => Err(e),
            Ok(prefix) => match chunk_value(chunks.last().text@, chunks.last().span) {
                Ok(added) => Ok(prefix + added),
                Err(e) => Err(e),
            },
        }
    }
}

/// What a quoted string stands for: its first inner node holds the chunks.
/// A node without inner nodes is no quoted string.
pub open spec fn quoted_value(pair: Pair) -> Result<Seq<char>, ParseErrorView> {
    if pair.inner@.len() == 0 {
        Err(ParseErrorView::InvalidExpression(pair.span))
    } else {
        chunks_value(pair.inner@[0].inner@)
    }
}

/// What a raw string stands for: the text of its first inner node, as it
/// is.
pub open spec fn raw_value(pair: Pair) -> Result<Seq<char>, ParseErrorView> {
    if pair.inner@.len() == 0 {
        Err(ParseErrorView::InvalidExpression(pair.span))
    } else {
        Ok(pair.inner@[0].text@)
    }
}

/// What a string-like node stands for.
pub open spec fn string_value(pair: Pair) -> Result<Seq<char>, ParseErrorView> {
    match pair.rule {
        Rule::QuotedString | Rule::SQuotedString => quoted_value(pair),
        Rule::RawString => raw_value(pair),
        Rule::Ident => Ok(pair.text@),
        _ => Err(ParseErrorView::InvalidExpression(pair.span)),
    }
}

/// Whether `r` is the text, or the error, that `expected` describes.
pub open spec fn returns_text(r: Result<Text, ParseError>, expected: Result<
    Seq<char>,
    ParseErrorView,
>) -> bool {
    match expected {
        Ok(s) => r matches Ok(t) && t@ == s,
        Err(e) => r matches Err(f) && f@ == e,
    }
}

/// The character that a backslash and `c` stand for, if any.
fn unescape(c: char) -> (r: Option<char>)
    ensures
        r == escaped_char(c),
{
    if c == '"' {
        Some('"')
    } else if c == '\'' {
        Some('\'')
    } else if c == '\\' {
        Some('\\')
    } else if c == '/' {
        Some('/')
    } else if c == 'b' {
        Some('\x08')
    } else if c == 'f' {
        Some('\x0c')
    } else if c == 'n' {
        Some('\n')
    } else if c == 'r' {
        Some('\r')
    } else if c == 't' {
        Some('\t')
    } else {
        None
    }
}

/// Adds to `out` what one chunk stands for.
fn decode_chunk(chunk: &Pair, out: &mut Text) -> (r: Result<(), ParseError>)
    ensures
        match chunk_value(chunk.text@, chunk.span) {
            Ok(added) => r is Ok && final(out)@ == old(out)@ + added,
            Err(e) => r matches Err(f) && f@ == e,
        },
{
    let chars = chars_of(chunk.text.as_str());
    if chars.len() == 2 && chars[0] == '\\' {
        match unescape(chars[1]) {
            Some(c) => {
                out.push(c);
                assert(old(out)@.push(c) =~= old(out)@ + seq![c]);
                return Ok(());
            },
            None => {},
        }
    }
    if chars.len() >= 2 && chars[0] == '\\' && chars[1] == 'u' {
        let value = match try_parse_int(chunk.text.as_str(), 16) {
            Some(v) => v,
            None => {
                return Err(ParseError::InvalidEscapeSequence(chunk.text.clone(), chunk.span));
            },
        };
        let code: u32 = match value.checked_rem_euclid(0x1_0000_0000) {
            Some(m) => m as u32,
            None => 0,
        };
        return match char_from_code(code) {
            Some(c) => {
                out.push(c);
                assert(old(out)@.push(c) =~= old(out)@ + seq![c]);
                Ok(())
            },
            None => Err(ParseError::InvalidUtf8Code(code, chunk.span)),
        };
    }
    if chars.len() >= 1 && chars[0] == '\\' {
        return Err(ParseError::InvalidEscapeSequence(chunk.text.clone(), chunk.span));
    }
    out.push_str(chunk.text.as_str());
    Ok(())
}

/// Decodes the chunks of a quoted string.
fn decode_quoted(pair: &Pair) -> (r: Result<Text, ParseError>)
    ensures
        returns_text(r, quoted_value(*pair)),
{
    if pair.inner.len() == 0 {
        return Err(ParseError::InvalidExpression(pair.span));
    }
    let chunks = &pair.inner[0].inner;
    let mut ret = Text::new();
    let mut i: usize = 0;
    assert(chunks@.take(0) =~= Seq::<Pair>::empty());
    while i < chunks.len()
        invariant
            i <= chunks.len(),
            pair.inner@.len() > 0,
            chunks@ == pair.inner@[0].inner@,
            chunks_value(chunks@.take(i as int)) == Ok::<Seq<char>, ParseErrorView>(ret@),
        decreases chunks.len() - i,
    {
        assert(chunks@.take(i + 1).drop_last() =~= chunks@.take(i as int));
        assert(chunks@.take(i + 1).last() == chunks@[i as int]);
        match decode_chunk(&chunks[i], &mut ret) {
            Ok(()) => {},
            Err(e) => {
                proof {
                    lemma_first_error_stays(chunks@, i + 1);
                }
                return Err(e);
            },
        }
        i += 1;
    }
    assert(chunks@.take(chunks.len() as int) =~= chunks@);
    Ok(ret)
}

/// An error among the first `k` chunks is the error of them all.
pub proof fn lemma_first_error_stays(chunks: Seq<Pair>, k: int)
    requires
        0 <= k <= chunks.len(),
        chunks_value(chunks.take(k)) is Err,
    ensures
        chunks_value(chunks) == chunks_value(chunks.take(k)),
    decreases chunks.len() - k,
{
    if k == chunks.len() {
        assert(chunks.take(k) =~= chunks);
    } else {
        assert(chunks.take(k + 1).drop_last() =~= chunks.take(k));
        lemma_first_error_stays(chunks, k + 1);
    }
}

/// Decodes a string between double quotes.
pub fn parse_quoted_string(pair: &Pair) -> (r: Result<Text, ParseError>)
    ensures
        returns_text(r, quoted_value(*pair)),
{
    decode_quoted(pair)
}

/// Decodes a string between single quotes. Its chunks are read as those of
/// a string between double quotes are.
pub fn parse_s_quoted_string(pair: &Pair) -> (r: Result<Text, ParseError>)
    ensures
        returns_text(r, quoted_value(*pair)),
{
    decode_quoted(pair)
}

/// Takes a raw string as it stands.
pub fn parse_raw_string(pair: &Pair) -> (r: Result<Text, ParseError>)
    ensures
        returns_text(r, raw_value(*pair)),
{
    if pair.inner.len() == 0 {
        return Err(ParseError::InvalidExpression(pair.span));
    }
    Ok(Text::from_str(pair.inner[0].text.as_str()))
}

/// Decodes a string literal of any kind, or takes an identifier as a
/// string.
pub fn parse_string(pair: &Pair) -> (r: Result<Text, ParseError>)
    ensures
        returns_text(r, string_value(*pair)),
{
    match pair.rule {
        Rule::QuotedString => parse_quoted_string(pair),
        Rule::SQuotedString => parse_s_quoted_string(pair),
        Rule::RawString => parse_raw_string(pair),
        Rule::Ident => Ok(Text::from_str(pair.text.as_str())),
        _ => Err(ParseError::InvalidExpression(pair.span)),
    }
}

/// Whether `c` is written as an escape inside a string between `quote`
/// characters: the quote itself, the backslash and five control characters
/// are.
pub open spec fn needs_escape(c: char, quote: char) -> bool {
    c == quote || c == '\\' || c == '\x08' || c == '\x0c' || c == '\n' || c == '\r' || c == '\t'
}

/// How the character `c` is written inside a string between `quote`
/// characters: as a backslash and one character if it needs an escape, as
/// itself if not.
pub open spec fn rendered_char(c: char, quote: char) -> Seq<char> {
    if c == quote {
        seq!['\\', quote]
    } else if c == '\\' {
        seq!['\\', '\\']
    } else if c == '\x08' {
        seq!['\\', 'b']
    } else if c == '\x0c' {
        seq!['\\', 'f']
    } else if c == '\n' {
        seq!['\\', 'n']
    } else if c == '\r' {
        seq!['\\', 'r']
    } else if c == '\t' {
        seq!['\\', 't']
    } else {
        seq![c]
    }
}

/// How the string `s` is written between `quote` characters: each of its
/// characters as [`rendered_char`] writes it, in order.
pub open spec fn rendering(s: Seq<char>, quote: char) -> Seq<char>
    decreases s.len(),
{
    if s.len() == 0 {
        Seq::empty()
    } else {
        rendered_char(s[0], quote) + rendering(s.skip(1), quote)
    }
}

/// The texts of the chunks, one after the other.
pub open spec fn joined(chunks: Seq<Pair>) -> Seq<char>
    decreases chunks.len(),
{
    if chunks.len() == 0 {
        Seq::empty()
    } else {
        chunks[0].text@ + joined(chunks.skip(1))
    }
}

/// Whether `text` holds no backslash.
pub open spec fn is_plain(text: Seq<char>) -> bool {
    forall|i: int| 0 <= i < text.len() ==> #[trigger] text[i] != '\\'
}

/// Whether `text` is a chunk as a tokenizer cuts it from a written string:
/// a run of characters without a backslash, of any length, or a backslash
/// and the one character after it.
pub open spec fn is_run_or_escape(text: Seq<char>) -> bool {
    is_plain(text) || (text.len() == 2 && text[0] == '\\')
}

/// Whether the chunks cut `text` into runs and escapes: their texts join
/// to `text`, and each is a run or an escape.
pub open spec fn cuts(chunks: Seq<Pair>, text: Seq<char>) -> bool {
    &&& joined(chunks) == text
    &&& forall|i: int| 0 <= i < chunks.len() ==> is_run_or_escape((#[trigger] chunks[i]).text@)
}

/// What chunks come to is what the first comes to, followed by what the
/// others come to; the first error wins.
pub proof fn lemma_first_chunk_first(chunks: Seq<Pair>)
    requires
        chunks.len() > 0,
    ensures
        chunks_value(chunks) == match chunk_value(chunks[0].text@, chunks[0].span) {
            Err(e) => Err(e),
            Ok(first) => match chunks_value(chunks.skip(1)) {
                Ok(others) => Ok(first + others),
                Err(e) => Err(e),
            },
        },
    decreases chunks.len(),
{
    let first = chunk_value(chunks[0].text@, chunks[0].span);
    if chunks.len() == 1 {
        assert(chunks.drop_last() =~= Seq::<Pair>::empty());
        assert(chunks.skip(1) =~= Seq::<Pair>::empty());
        if first is Ok {
            assert(Seq::<char>::empty() + first->Ok_0 =~= first->Ok_0 + Seq::<char>::empty());
        }
    } else {
        lemma_first_chunk_first(chunks.drop_last());
        assert(chunks.drop_last().skip(1) =~= chunks.skip(1).drop_last());
        assert(chunks.drop_last()[0] == chunks[0]);
        assert(chunks.skip(1).last() == chunks.last());
        let last = chunk_value(chunks.last().text@, chunks.last().span);
        let middle = chunks_value(chunks.skip(1).drop_last());
        if first is Ok && middle is Ok && last is Ok {
            assert((first->Ok_0 + middle->Ok_0) + last->Ok_0 =~= first->Ok_0 + (middle->Ok_0
                + last->Ok_0));
        }
    }
}

/// Where a written string starts with `k` characters that are no
/// backslash, these are the first `k` characters of the string itself, and
/// what follows them writes the rest of the string.
pub proof fn lemma_plain_start(s: Seq<char>, quote: char, k: int)
    requires
        0 <= k <= rendering(s, quote).len(),
        is_plain(rendering(s, quote).take(k)),
    ensures
        k <= s.len(),
        rendering(s, quote).take(k) == s.take(k),
        rendering(s, quote).skip(k) == rendering(s.skip(k), quote),
    decreases k,
{
    let whole = rendering(s, quote);
    if k == 0 {
        assert(whole.take(0) =~= s.take(0));
        assert(whole.skip(0) =~= whole);
        assert(s.skip(0) =~= s);
    } else {
        assert(s.len() > 0);
        let rest = rendering(s.skip(1), quote);
        assert(whole.take(k)[0] != '\\');
        assert(whole[0] == rendered_char(s[0], quote)[0]);
        assert(rendered_char(s[0], quote) == seq![s[0]]);
        assert(whole =~= seq![s[0]] + rest);
        let start = rest.take(k - 1);
        assert forall|i: int| 0 <= i < start.len() implies #[trigger] start[i] != '\\' by {
            assert(start[i] == whole.take(k)[i + 1]);
        }
        lemma_plain_start(s.skip(1), quote, k - 1);
        assert(s.skip(1).take(k - 1) =~= s.take(k).skip(1));
        assert(whole.take(k) =~= seq![s[0]] + rest.take(k - 1));
        assert(whole.take(k) =~= s.take(k));
        assert(whole.skip(k) =~= rest.skip(k - 1));
        assert(s.skip(1).skip(k - 1) =~= s.skip(k));
    }
}

/// Decoding undoes writing: however a written string is cut into runs and
/// escapes, the chunks decode to the string that was written. This holds
/// between double quotes and between single quotes.
pub proof fn lemma_decoding_undoes_rendering(chunks: Seq<Pair>, s: Seq<char>, quote: char)
    requires
        quote == '"' || quote == '\'',
        cuts(chunks, rendering(s, quote)),
    ensures
        chunks_value(chunks) == Ok::<Seq<char>, ParseErrorView>(s),
    decreases chunks.len(),
{
    let whole = rendering(s, quote);
    if chunks.len() == 0 {
        if s.len() > 0 {
            assert(rendered_char(s[0], quote).len() > 0);
        }
        assert(s =~= Seq::<char>::empty());
    } else {
        let text = chunks[0].text@;
        let others = chunks.skip(1);
        assert(whole == text + joined(others));
        assert forall|i: int| 0 <= i < others.len() implies is_run_or_escape(
            (#[trigger] others[i]).text@,
        ) by {
            assert(others[i] == chunks[i + 1]);
        }
        assert(is_run_or_escape(chunks[0].text@));
        lemma_first_chunk_first(chunks);
        if text.len() == 2 && text[0] == '\\' {
            assert(whole[0] == '\\');
            assert(s.len() > 0);
            let c = s[0];
            let rest = rendering(s.skip(1), quote);
            assert(whole[0] == rendered_char(c, quote)[0]);
            assert(needs_escape(c, quote));
            assert(rendered_char(c, quote).len() == 2);
            assert(text[1] == whole[1]);
            assert(whole[1] == rendered_char(c, quote)[1]);
            assert(escaped_char(text[1]) == Some(c));
            assert(chunk_value(text, chunks[0].span) == Ok::<Seq<char>, ParseErrorView>(seq![c]));
            assert(joined(others) =~= whole.skip(2));
            assert(rest =~= whole.skip(2));
            lemma_decoding_undoes_rendering(others, s.skip(1), quote);
            assert(seq![c] + s.skip(1) =~= s);
        } else {
            let k = text.len() as int;
            assert(is_plain(text));
            assert(whole.take(k) =~= text);
            assert(whole.skip(k) =~= joined(others));
            lemma_plain_start(s, quote, k);
            assert(chunk_value(text, chunks[0].span) == Ok::<Seq<char>, ParseErrorView>(text));
            lemma_decoding_undoes_rendering(others, s.skip(k), quote);
            assert(s.take(k) + s.skip(k) =~= s);
        }
    }
}

/// A quoted string whose chunks cut the writing of `s` into runs and
/// escapes stands for `s`.
pub proof fn lemma_quoted_string_reads_back(pair: Pair, s: Seq<char>, quote: char)
    requires
        quote == '"' || quote == '\'',
        pair.inner@.len() > 0,
        cuts(pair.inner@[0].inner@, rendering(s, quote)),
    ensures
        quoted_value(pair) == Ok::<Seq<char>, ParseErrorView>(s),
{
    lemma_decoding_undoes_rendering(pair.inner@[0].inner@, s, quote);
}

} // verus!
