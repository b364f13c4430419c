//! The redirect of a sign-in: what a request to the loopback listener
//! asks for, and what to answer.

use vstd::prelude::*;
use crate::seqs::{first_index, lemma_first_index_is, upsert};
use crate::text::{
    append_chars, append_str, chars_of, decimal, has_prefix, push_decimal, starts_with, str_eq,
    string_of,
};

verus! {

/// What `urlencoding::decode` makes of a text: the text with every `%XX`
/// replaced by the byte that it names, if the bytes are valid UTF-8.
pub uninterp spec fn url_decoded(text: Seq<char>) -> Option<Seq<char>>;

/// `urlencoding::decode`, with its error dropped: the decoded text, or
/// nothing where the decoded bytes are no valid UTF-8.
#[verifier::external_body]
pub(crate) fn url_decode(text: &str) -> (r: Option<String>)
    ensures
        match r {
            Some(decoded) => url_decoded(text@) == Some(decoded@),
            None => url_decoded(text@) is None,
        },
{
    match urlencoding::decode(text) {
        Ok(decoded) => Some(decoded.into_owned()),
        Err(_) => None,
    }
}

/// Whether a byte stands for itself in a percent-encoded text: a letter, a
/// digit, or one of `-`, `.`, `_`, `~`.
pub open spec fn is_unreserved(b: u8) -> bool {
    ||| 48 <= b <= 57
    ||| 65 <= b <= 90
    ||| 97 <= b <= 122
    ||| b == 45
    ||| b == 46
    ||| b == 95
    ||| b == 126
}

/// The upper-case hexadecimal digit for a value below 16.
pub open spec fn upper_hex_digit(n: int) -> char {
    if n < 10 {
        ((48 + n) as u8) as char
    } else {
        ((55 + n) as u8) as char
    }
}

/// The percent-encoded text of a byte sequence: every byte that does not
/// stand for itself is spelled `%XX`.
pub open spec fn percent_encoded(bytes: Seq<u8>) -> Seq<char>
    decreases bytes.len(),
{
    if bytes.len() == 0 {
        Seq::empty()
    } else if is_unreserved(bytes.last()) {
        percent_encoded(bytes.drop_last()).push(bytes.last() as char)
    } else {
        percent_encoded(bytes.drop_last()).push('%').push(
            upper_hex_digit(bytes.last() as int / 16),
        ).push(upper_hex_digit(bytes.last() as int % 16))
    }
}

/// The percent-encoded form of a text: that of its bytes in UTF-8.
pub open spec fn url_encoded(text: Seq<char>) -> Seq<char> {
    percent_encoded(vstd::utf8::encode_utf8(text))
}

/// The upper-case hexadecimal digit for a value below 16.
pub fn upper_hex_char(n: u8) -> (r: char)
    requires
        n < 16,
    ensures
        r == upper_hex_digit(n as int),
{
    if n < 10 {
        (48 + n) as char
    } else {
        (55 + n) as char
    }
}

/// Percent-encodes a text.
pub fn url_encode(text: &str) -> (r: String)
    ensures
        r@ == url_encoded(text@),
{
    let bytes = text.as_bytes();
    let mut out: Vec<char> = Vec::new();
    let mut i: usize = 0;
    assert(bytes@.take(0) =~= Seq::empty());
    while i < bytes.len()
        invariant
            i <= bytes.len(),
            out@ == percent_encoded(bytes@.take(i as int)),
        decreases bytes.len() - i,
    {
        assert(bytes@.take(i + 1).drop_last() =~= bytes@.take(i as int));
        let b = bytes[i];
        if (48 <= b && b <= 57) || (65 <= b && b <= 90) || (97 <= b && b <= 122) || b == 45 || b
            == 46 || b == 95 || b == 126 {
            out.push(b as char);
        } else {
            out.push('%');
            out.push(upper_hex_char(b / 16));
            out.push(upper_hex_char(b % 16));
        }
        i += 1;
    }
    assert(bytes@.take(i as int) =~= bytes@);
    string_of(&out)
}

/// The characters equal to `c`.
pub open spec fn is_char(c: char) -> spec_fn(char) -> bool {
    |x: char| x == c
}

/// Whether a character is white space: one of the 25 characters with
/// the Unicode property `White_Space`.
pub open spec fn is_space(c: char) -> bool {
    ||| '\u{9}' <= c && c <= '\u{d}'
    ||| c == ' '
    ||| c == '\u{85}'
    ||| c == '\u{a0}'
    ||| c == '\u{1680}'
    ||| '\u{2000}' <= c && c <= '\u{200a}'
    ||| c == '\u{2028}'
    ||| c == '\u{2029}'
    ||| c == '\u{202f}'
    ||| c == '\u{205f}'
    ||| c == '\u{3000}'
}

/// The text without the white space at its start.
pub open spec fn skip_spaces(s: Seq<char>) -> Seq<char>
    decreases s.len(),
{
    if s.len() > 0 && is_space(s[0]) {
        skip_spaces(s.drop_first())
    } else {
        s
    }
}

/// The number of characters before the first white space.
pub open spec fn word_len(s: Seq<char>) -> nat
    decreases s.len(),
{
    if s.len() > 0 && !is_space(s[0]) {
        1 + word_len(s.drop_first())
    } else {
        0
    }
}

/// The first line of a text: what stands before the first line feed,
/// without the carriage return that may end it.
pub open spec fn first_line(text: Seq<char>) -> Seq<char> {
    let cut = first_index(text, is_char('\n'));
    let line = text.subrange(0, cut);
    if cut < text.len() && line.len() > 0 && line.last() == '\r' {
        line.drop_last()
    } else {
        line
    }
}

/// The second word of a line.
pub open spec fn second_word(line: Seq<char>) -> Option<Seq<char>> {
    let method = skip_spaces(line);
    let rest = skip_spaces(method.skip(word_len(method) as int));
    if word_len(rest) > 0 {
        Some(rest.take(word_len(rest) as int))
    } else {
        None
    }
}

/// The target of a request: the second word of its first line.
pub open spec fn request_target(request: Seq<char>) -> Option<Seq<char>> {
    second_word(first_line(request))
}

/// The pieces of a text between the occurrences of `sep`.
pub open spec fn split_on(s: Seq<char>, sep: char) -> Seq<Seq<char>>
    decreases s.len(),
{
    if s.len() == 0 {
        seq![Seq::empty()]
    } else {
        let front = split_on(s.drop_last(), sep);
        if s.last() == sep {
            front.push(Seq::empty())
        } else {
            front.update(front.len() - 1, front.last().push(s.last()))
        }
    }
}

/// The pairs of the given key.
pub open spec fn keyed_by(key: Seq<char>) -> spec_fn((Seq<char>, Seq<char>)) -> bool {
    |pair: (Seq<char>, Seq<char>)| pair.0 == key
}

/// A key and a value, or nothing.
pub type PairV = Option<(Seq<char>, Seq<char>)>;

/// What stands before and after the first `=` of a piece of a query. A
/// piece without `=` gives nothing.
pub open spec fn raw_pair(piece: Seq<char>) -> PairV {
    let i = first_index(piece, is_char('='));
    if i < piece.len() {
        Some((piece.take(i), piece.skip(i + 1)))
    } else {
        None
    }
}

/// The pair with its key and its value decoded. A pair with a part that
/// cannot be decoded gives nothing.
pub open spec fn decoded_pair(raw: PairV) -> PairV {
    match raw {
        Some((key, value)) => match (url_decoded(key), url_decoded(value)) {
            (Some(k), Some(v)) => Some((k, v)),
            _ => None,
        },
        None => None,
    }
}

/// The parameters that the pairs give, in order: a later value of a key
/// takes the place of an earlier one.
pub open spec fn collected(pairs: Seq<PairV>) -> Seq<(Seq<char>, Seq<char>)>
    decreases pairs.len(),
{
    if pairs.len() == 0 {
        Seq::empty()
    } else {
        let front = collected(pairs.drop_last());
        match pairs.last() {
            Some(pair) => upsert(front, keyed_by(pair.0), pair),
            None => front,
        }
    }
}

/// The raw pairs of the pieces of a query.
pub open spec fn raw_pairs_of(query: Seq<char>) -> Seq<PairV> {
    Seq::new(split_on(query, '&').len(), |i: int| raw_pair(split_on(query, '&')[i]))
}

/// The pairs, each decoded.
pub open spec fn decoded_pairs(raw: Seq<PairV>) -> Seq<PairV> {
    Seq::new(raw.len(), |i: int| decoded_pair(raw[i]))
}

/// The parameters of a query string.
pub open spec fn query_params(query: Seq<char>) -> Seq<(Seq<char>, Seq<char>)> {
    collected(decoded_pairs(raw_pairs_of(query)))
}

/// The value of a parameter.
pub open spec fn param(params: Seq<(Seq<char>, Seq<char>)>, key: Seq<char>) -> Option<Seq<char>> {
    let i = first_index(params, keyed_by(key));
    if i < params.len() {
        Some(params[i].1)
    } else {
        None
    }
}

/// The index of the first `c` at or after `from`, or the length.
fn find_char(chars: &Vec<char>, from: usize, c: char) -> (r: usize)
    requires
        from <= chars.len(),
    ensures
        from <= r <= chars.len(),
        r - from == first_index(chars@.skip(from as int), is_char(c)),
{
    let ghost tail = chars@.skip(from as int);
    let mut i: usize = from;
    while i < chars.len()
        invariant
            from <= i <= chars.len(),
            tail == chars@.skip(from as int),
            forall|j: int| 0 <= j < i - from ==> !is_char(c)(#[trigger] tail[j]),
        decreases chars.len() - i,
    {
        if chars[i] == c {
            proof {
                lemma_first_index_is(tail, is_char(c), i - from);
            }
            return i;
        }
        i += 1;
    }
    proof {
        lemma_first_index_is(tail, is_char(c), i - from);
    }
    i
}

/// Tests a character for being white space.
pub fn char_is_space(c: char) -> (r: bool)
    ensures
        r == is_space(c),
{
    ('\u{9}' <= c && c <= '\u{d}') || c == ' ' || c == '\u{85}' || c == '\u{a0}' || c
        == '\u{1680}' || ('\u{2000}' <= c && c <= '\u{200a}') || c == '\u{2028}' || c
        == '\u{2029}' || c == '\u{202f}' || c == '\u{205f}' || c == '\u{3000}'
}

/// The index after the white space that starts at `from`.
fn after_spaces(line: &Vec<char>, from: usize) -> (r: usize)
    requires
        from <= line.len(),
    ensures
        from <= r <= line.len(),
        line@.skip(r as int) == skip_spaces(line@.skip(from as int)),
{
    let mut i: usize = from;
    while i < line.len()
        invariant
            from <= i <= line.len(),
            skip_spaces(line@.skip(i as int)) == skip_spaces(line@.skip(from as int)),
        decreases line.len() - i,
    {
        if !char_is_space(line[i]) {
            return i;
        }
        assert(line@.skip(i as int).drop_first() =~= line@.skip(i + 1));
        i += 1;
    }
    i
}

/// The index after the word that starts at `from`.
fn after_word(line: &Vec<char>, from: usize) -> (r: usize)
    requires
        from <= line.len(),
    ensures
        from <= r <= line.len(),
        r - from == word_len(line@.skip(from as int)),
{
    let mut i: usize = from;
    while i < line.len()
        invariant
            from <= i <= line.len(),
            word_len(line@.skip(from as int)) == (i - from) + word_len(line@.skip(i as int)),
        decreases line.len() - i,
    {
        if char_is_space(line[i]) {
            return i;
        }
        assert(line@.skip(i as int).drop_first() =~= line@.skip(i + 1));
        i += 1;
    }
    i
}

/// The characters from `from` up to `to`.
fn slice_of(chars: &Vec<char>, from: usize, to: usize) -> (r: Vec<char>)
    requires
        from <= to <= chars.len(),
    ensures
        r@ == chars@.subrange(from as int, to as int),
{
    let mut out: Vec<char> = Vec::new();
    let mut i: usize = from;
    while i < to
        invariant
            from <= i <= to <= chars.len(),
            out@ == chars@.subrange(from as int, i as int),
        decreases to - i,
    {
        out.push(chars[i]);
        assert(out@ =~= chars@.subrange(from as int, i + 1));
        i += 1;
    }
    assert(out@ =~= chars@.subrange(from as int, to as int));
    out
}

/// Cuts the first line out of a text.
pub fn first_line_of(text: &Vec<char>) -> (r: Vec<char>)
    ensures
        r@ == first_line(text@),
{
    let cut = find_char(text, 0, '\n');
    assert(text@.skip(0) =~= text@);
    let mut end = cut;
    if cut < text.len() && cut > 0 && text[cut - 1] == '\r' {
        end = cut - 1;
    }
    let line = slice_of(text, 0, end);
    assert(line@ =~= first_line(text@));
    line
}

/// Cuts the second word out of a line.
pub fn second_word_of(line: &Vec<char>) -> (r: Option<String>)
    ensures
        match second_word(line@) {
            Some(word) => r is Some && r->0@ == word,
            None => r is None,
        },
{
    let method = after_spaces(line, 0);
    assert(line@.skip(0) =~= line@);
    let method_end = after_word(line, method);
    let start = after_spaces(line, method_end);
    assert(line@.skip(method as int).skip(method_end - method) =~= line@.skip(method_end as int));
    let stop = after_word(line, start);
    if stop <= start {
        return None;
    }
    let word = slice_of(line, start, stop);
    assert(word@ =~= line@.skip(start as int).take(stop - start));
    Some(string_of(&word))
}

/// Reads the target of a request.
pub fn target_of(request: &str) -> (r: Option<String>)
    ensures
        match request_target(request@) {
            Some(target) => r is Some && r->0@ == target,
            None => r is None,
        },
{
    second_word_of(&first_line_of(&chars_of(request)))
}

/// The contents of a list of texts.
pub open spec fn text_views(texts: Seq<Vec<char>>) -> Seq<Seq<char>> {
    Seq::new(texts.len(), |i: int| texts[i]@)
}

/// Splits a text at every `sep`.
pub fn split_at_char(text: &Vec<char>, sep: char) -> (r: Vec<Vec<char>>)
    ensures
        text_views(r@) == split_on(text@, sep),
{
    let mut done: Vec<Vec<char>> = Vec::new();
    let mut current: Vec<char> = Vec::new();
    let mut i: usize = 0;
    assert(text@.take(0) =~= Seq::empty());
    assert(text_views(done@).push(current@) =~= split_on(text@.take(0), sep));
    while i < text.len()
        invariant
            i <= text.len(),
            text_views(done@).push(current@) == split_on(text@.take(i as int), sep),
        decreases text.len() - i,
    {
        assert(text@.take(i + 1).drop_last() =~= text@.take(i as int));
        let ghost before = text_views(done@).push(current@);
        if text[i] == sep {
            done.push(current);
            current = Vec::new();
            assert(text_views(done@).push(current@) =~= before.push(Seq::empty()));
        } else {
            current.push(text[i]);
            assert(text_views(done@).push(current@) =~= before.update(
                before.len() - 1,
                before.last().push(text@[i as int]),
            ));
        }
        i += 1;
    }
    assert(text@.take(i as int) =~= text@);
    let ghost before = text_views(done@);
    done.push(current);
    assert(text_views(done@) =~= before.push(current@));
    done
}

/// The contents of a list of pairs of strings.
pub open spec fn pair_views(pairs: Seq<(String, String)>) -> Seq<(Seq<char>, Seq<char>)> {
    Seq::new(pairs.len(), |i: int| (pairs[i].0@, pairs[i].1@))
}

/// The index of the first pair of the given key, or the number of pairs.
fn find_pair(pairs: &Vec<(String, String)>, key: &str) -> (r: usize)
    ensures
        r == first_index(pair_views(pairs@), keyed_by(key@)),
{
    let mut i: usize = 0;
    while i < pairs.len()
        invariant
            i <= pairs.len(),
            forall|j: int| 0 <= j < i ==> !keyed_by(key@)(#[trigger] pair_views(pairs@)[j]),
        decreases pairs.len() - i,
    {
        if str_eq(pairs[i].0.as_str(), key) {
            proof {
                lemma_first_index_is(pair_views(pairs@), keyed_by(key@), i as int);
            }
            return i;
        }
        i += 1;
    }
    proof {
        lemma_first_index_is(pair_views(pairs@), keyed_by(key@), i as int);
    }
    i
}

/// The value of a parameter.
pub fn get_param<'a>(pairs: &'a Vec<(String, String)>, key: &str) -> (r: Option<&'a String>)
    ensures
        match param(pair_views(pairs@), key@) {
            Some(value) => r is Some && r->0@ == value,
            None => r is None,
        },
{
    let i = find_pair(pairs, key);
    if i < pairs.len() {
        Some(&pairs[i].1)
    } else {
        None
    }
}

/// The content of an optional pair of strings.
pub open spec fn pair_view(pair: Option<(String, String)>) -> PairV {
    match pair {
        Some((key, value)) => Some((key@, value@)),
        None => None,
    }
}

/// The contents of a list of optional pairs.
pub open spec fn opt_pair_views(pairs: Seq<Option<(String, String)>>) -> Seq<PairV> {
    Seq::new(pairs.len(), |i: int| pair_view(pairs[i]))
}

/// Cuts a piece of a query at its first `=`.
pub fn cut_pair(piece: &Vec<char>) -> (r: Option<(String, String)>)
    ensures
        pair_view(r) == raw_pair(piece@),
{
    let i = find_char(piece, 0, '=');
    assert(piece@.skip(0) =~= piece@);
    if i >= piece.len() {
        return None;
    }
    let key = slice_of(piece, 0, i);
    let value = slice_of(piece, i + 1, piece.len());
    assert(key@ =~= piece@.take(i as int));
    assert(value@ =~= piece@.skip(i + 1));
    Some((string_of(&key), string_of(&value)))
}

/// Cuts a query into its pieces, and each piece at its first `=`.
pub fn raw_pairs(query: &str) -> (r: Vec<Option<(String, String)>>)
    ensures
        opt_pair_views(r@) == raw_pairs_of(query@),
{
    let pieces = split_at_char(&chars_of(query), '&');
    let mut pairs: Vec<Option<(String, String)>> = Vec::new();
    let mut i: usize = 0;
    while i < pieces.len()
        invariant
            i <= pieces.len(),
            text_views(pieces@) == split_on(query@, '&'),
            pairs@.len() == i,
            forall|j: int|
                0 <= j < i ==> pair_view(#[trigger] pairs@[j]) == raw_pair(
                    split_on(query@, '&')[j],
                ),
        decreases pieces.len() - i,
    {
        assert(text_views(pieces@)[i as int] == pieces@[i as int]@);
        let pair = cut_pair(&pieces[i]);
        pairs.push(pair);
        i += 1;
    }
    assert(text_views(pieces@).len() == pieces@.len());
    assert(opt_pair_views(pairs@) =~= raw_pairs_of(query@));
    pairs
}

/// Decodes the key and the value of each pair.
pub fn decode_pairs(raw: &Vec<Option<(String, String)>>) -> (r: Vec<Option<(String, String)>>)
    ensures
        opt_pair_views(r@) == decoded_pairs(opt_pair_views(raw@)),
{
    let mut pairs: Vec<Option<(String, String)>> = Vec::new();
    let mut i: usize = 0;
    while i < raw.len()
        invariant
            i <= raw.len(),
            pairs@.len() == i,
            forall|j: int|
                0 <= j < i ==> pair_view(#[trigger] pairs@[j]) == decoded_pair(
                    pair_view(raw@[j]),
                ),
        decreases raw.len() - i,
    {
        let pair = match &raw[i] {
            Some((key, value)) => both(url_decode(key.as_str()), url_decode(value.as_str())),
            None => None,
        };
        pairs.push(pair);
        i += 1;
    }
    assert(opt_pair_views(pairs@) =~= decoded_pairs(opt_pair_views(raw@)));
    pairs
}

/// The pair of a key and a value, where both are there.
pub fn both(key: Option<String>, value: Option<String>) -> (r: Option<(String, String)>)
    ensures
        match (key, value) {
            (Some(k), Some(v)) => r == Some((k, v)),
            _ => r is None,
        },
{
    match key {
        Some(k) => match value {
            Some(v) => Some((k, v)),
            None => None,
        },
        None => None,
    }
}

/// Collects the parameters that the pairs give: a later value of a key
/// takes the place of an earlier one.
pub fn collect_params(pairs: &Vec<Option<(String, String)>>) -> (r: Vec<(String, String)>)
    ensures
        pair_views(r@) == collected(opt_pair_views(pairs@)),
{
    let ghost all = opt_pair_views(pairs@);
    let mut params: Vec<(String, String)> = Vec::new();
    let mut i: usize = 0;
    assert(all.take(0) =~= Seq::empty());
    assert(pair_views(params@) =~= Seq::empty());
    while i < pairs.len()
        invariant
            i <= pairs.len(),
            all == opt_pair_views(pairs@),
            pair_views(params@) == collected(all.take(i as int)),
        decreases pairs.len() - i,
    {
        assert(all.take(i + 1).drop_last() =~= all.take(i as int));
        let ghost before = pair_views(params@);
        match &pairs[i] {
            Some((key, value)) => {
                let at = find_pair(&params, key.as_str());
                if at < params.len() {
                    params.set(at, (key.clone(), value.clone()));
                } else {
                    params.push((key.clone(), value.clone()));
                }
                assert(pair_views(params@) =~= upsert(before, keyed_by(key@), (key@, value@)));
            },
            None => {},
        }
        i += 1;
    }
    assert(all.take(i as int) =~= all);
    params
}

/// Reads the parameters of a query string: `key=value` pieces between
/// `&`, percent-decoded. Pieces that are no such pair are passed over.
pub fn parse_query_string(query: &str) -> (r: Vec<(String, String)>)
    ensures
        pair_views(r@) == query_params(query@),
{
    collect_params(&decode_pairs(&raw_pairs(query)))
}

/// What the listener tells the application.
#[derive(Debug, Clone, PartialEq, Eq)]
pub enum OAuthEvent {
    /// The sign-in failed: `oauth-error`.
    Failed { error: String, description: String },
    /// The sign-in gave an authorization code: `oauth-callback`.
    Code { code: String, state: Option<String> },
}

/// The answer to a request: a page for the browser, and what to tell the
/// application.
#[derive(Debug, Clone, PartialEq, Eq)]
pub struct OAuthAnswer {
    pub title: String,
    pub body: String,
    pub event: Option<OAuthEvent>,
}

/// The mathematical content of an [`OAuthEvent`].
pub enum OAuthEventV {
    Failed { error: Seq<char>, description: Seq<char> },
    Code { code: Seq<char>, state: Option<Seq<char>> },
}

/// The mathematical content of an [`OAuthAnswer`].
pub struct OAuthAnswerV {
    pub title: Seq<char>,
    pub body: Seq<char>,
    pub event: Option<OAuthEventV>,
}

impl View for OAuthEvent {
    type V = OAuthEventV;

    open spec fn view(&self) -> OAuthEventV {
        match self {
            OAuthEvent::Failed { error, description } => OAuthEventV::Failed {
                error: error@,
                description: description@,
            },
            OAuthEvent::Code { code, state } => OAuthEventV::Code {
                code: code@,
                state: match state {
                    Some(s) => Some(s@),
                    None => None,
                },
            },
        }
    }
}

impl View for OAuthAnswer {
    type V = OAuthAnswerV;

    open spec fn view(&self) -> OAuthAnswerV {
        OAuthAnswerV {
            title: self.title@,
            body: self.body@,
            event: match self.event {
                Some(e) => Some(e@),
                None => None,
            },
        }
    }
}

/// What the browser shows after a sign-in that gave a code.
pub const SIGNED_IN: &'static str =
    "<h1>\u{2713} Sign In Successful</h1><p>You can close this window and return to the app.</p>";

/// The answer to a callback with the given parameters. A sign-in that
/// failed is reported with its description; one that gave a code is
/// reported with the code and the state; a callback without either is
/// invalid.
pub open spec fn answer_for_params(params: Seq<(Seq<char>, Seq<char>)>) -> OAuthAnswerV {
    match param(params, "error"@) {
        Some(error) => {
            let description = match param(params, "error_description"@) {
                Some(d) => d,
                None => "Unknown error"@,
            };
            OAuthAnswerV {
                title: "OAuth Error"@,
                body: "<h1>OAuth Error</h1><p>"@ + description
                    + "</p><p>You can close this window.</p>"@,
                event: Some(OAuthEventV::Failed { error, description }),
            }
        },
        None => match param(params, "code"@) {
            Some(code) => OAuthAnswerV {
                title: "Sign In Successful"@,
                body: SIGNED_IN@,
                event: Some(OAuthEventV::Code { code, state: param(params, "state"@) }),
            },
            None => OAuthAnswerV {
                title: "Invalid Request"@,
                body: "<h1>Invalid OAuth Callback</h1><p>Missing authorization code.</p>"@,
                event: None,
            },
        },
    }
}

/// What a target asks for: something else than the callback, the callback
/// without a query, or the callback with the query after its first `?`.
pub enum Callback {
    Elsewhere,
    NoQuery,
    Query(Seq<char>),
}

/// What a target asks for.
pub open spec fn callback_of(target: Seq<char>) -> Callback {
    if !starts_with(target, "/oauth2/callback"@) {
        Callback::Elsewhere
    } else {
        let q = first_index(target, is_char('?'));
        if q >= target.len() {
            Callback::NoQuery
        } else {
            Callback::Query(target.skip(q + 1))
        }
    }
}

/// The answer to a request for `target`: a target that is no callback is
/// not found, and a callback without a query is invalid.
pub open spec fn answer_for(target: Seq<char>) -> OAuthAnswerV {
    match callback_of(target) {
        Callback::Elsewhere => OAuthAnswerV {
            title: "Not Found"@,
            body: "<h1>404 Not Found</h1><p>OAuth callback should be at /oauth2/callback</p>"@,
            event: None,
        },
        Callback::NoQuery => OAuthAnswerV {
            title: "Invalid Request"@,
            body: "<h1>Invalid OAuth Callback</h1><p>Missing query parameters.</p>"@,
            event: None,
        },
        Callback::Query(query) => answer_for_params(query_params(query)),
    }
}

/// A page without an event.
fn page(title: &str, body: &str) -> (r: OAuthAnswer)
    ensures
        r@ == (OAuthAnswerV { title: title@, body: body@, event: None }),
{
    OAuthAnswer { title: title.to_owned(), body: body.to_owned(), event: None }
}

/// Decides the answer to a callback with the given parameters.
pub fn answer_from_params(params: &Vec<(String, String)>) -> (r: OAuthAnswer)
    ensures
        r@ == answer_for_params(pair_views(params@)),
{
    match get_param(params, "error") {
        Some(error) => {
            let description = match get_param(params, "error_description") {
                Some(d) => d.clone(),
                None => "Unknown error".to_owned(),
            };
            let mut body = String::new();
            append_str(&mut body, "<h1>OAuth Error</h1><p>");
            append_str(&mut body, description.as_str());
            append_str(&mut body, "</p><p>You can close this window.</p>");
            OAuthAnswer {
                title: "OAuth Error".to_owned(),
                body,
                event: Some(OAuthEvent::Failed { error: error.clone(), description }),
            }
        },
        None => match get_param(params, "code") {
            Some(code) => {
                let state = match get_param(params, "state") {
                    Some(s) => Some(s.clone()),
                    None => None,
                };
                OAuthAnswer {
                    title: "Sign In Successful".to_owned(),
                    body: SIGNED_IN.to_owned(),
                    event: Some(OAuthEvent::Code { code: code.clone(), state }),
                }
            },
            None => page(
                "Invalid Request",
                "<h1>Invalid OAuth Callback</h1><p>Missing authorization code.</p>",
            ),
        },
    }
}

/// Cuts the query out of a target of the callback.
pub fn callback_query(target: &str) -> (r: Option<Option<String>>)
    ensures
        match callback_of(target@) {
            Callback::Elsewhere => r is None,
            Callback::NoQuery => r == Some(None::<String>),
            Callback::Query(query) => r matches Some(Some(q)) && q@ == query,
        },
{
    let chars = chars_of(target);
    if !has_prefix(&chars, &chars_of("/oauth2/callback")) {
        return None;
    }
    let q = find_char(&chars, 0, '?');
    assert(chars@.skip(0) =~= chars@);
    if q >= chars.len() {
        return Some(None);
    }
    let query = slice_of(&chars, q + 1, chars.len());
    assert(query@ =~= chars@.skip(q + 1));
    Some(Some(string_of(&query)))
}

/// Decides the answer to a request of the loopback listener. A request
/// without a target gets none.
pub fn handle_oauth_request(request: &str) -> (r: Option<OAuthAnswer>)
    ensures
        match request_target(request@) {
            Some(target) => r is Some && r->0@ == answer_for(target),
            None => r is None,
        },
{
    let target = match target_of(request) {
        Some(target) => target,
        None => {
            return None;
        },
    };
    match callback_query(target.as_str()) {
        None => Some(
            page(
                "Not Found",
                "<h1>404 Not Found</h1><p>OAuth callback should be at /oauth2/callback</p>",
            ),
        ),
        Some(None) => Some(
            page(
                "Invalid Request",
                "<h1>Invalid OAuth Callback</h1><p>Missing query parameters.</p>",
            ),
        ),
        Some(Some(query)) => Some(answer_from_params(&parse_query_string(query.as_str()))),
    }
}

/// The start of a page, up to its title.
pub const PAGE_HEAD: &'static str = "<!DOCTYPE html>
<html>
<head>
    <meta charset=\"UTF-8\">
    <meta name=\"viewport\" content=\"width=device-width, initial-scale=1.0\">
    <title>";

/// The middle of a page, between its title and its content.
pub const PAGE_MIDDLE: &'static str = "</title>
    <style>
        body {
            font-family: -apple-system, BlinkMacSystemFont, 'Segoe UI', Roboto, sans-serif;
            display: flex;
            justify-content: center;
            align-items: center;
            height: 100vh;
            margin: 0;
            background: linear-gradient(135deg, #667eea 0%, #764ba2 100%);
            color: white;
        }
        .container {
            text-align: center;
            background: rgba(255, 255, 255, 0.1);
            padding: 3rem;
            border-radius: 1rem;
            backdrop-filter: blur(10px);
            box-shadow: 0 8px 32px rgba(0, 0, 0, 0.1);
        }
        h1 {
            margin: 0 0 1rem 0;
            font-size: 2rem;
        }
        p {
            margin: 0;
            font-size: 1.1rem;
            opacity: 0.9;
        }
    </style>
</head>
<body>
    <div class=\"container\">
        ";

/// The end of a page, after its content: the window closes by itself.
pub const PAGE_END: &'static str = "
    </div>
    <script>
        // Auto-close after 2 seconds
        setTimeout(() => {
            window.close();
        }, 2000);
    </script>
</body>
</html>";

/// The page with the given title and content.
pub open spec fn page_html(title: Seq<char>, body: Seq<char>) -> Seq<char> {
    PAGE_HEAD@ + title + PAGE_MIDDLE@ + body + PAGE_END@
}

/// Renders a page.
pub fn render_page(title: &str, body: &str) -> (r: String)
    ensures
        r@ == page_html(title@, body@),
{
    let mut html = String::new();
    append_str(&mut html, PAGE_HEAD);
    append_str(&mut html, title);
    append_str(&mut html, PAGE_MIDDLE);
    append_str(&mut html, body);
    append_str(&mut html, PAGE_END);
    html
}

/// The response to the browser for a page with the given title and
/// content.
pub fn send_response(title: &str, body: &str) -> (r: String)
    ensures
        r@ == response_text(page_html(title@, body@)),
{
    http_response(render_page(title, body).as_str())
}

/// The HTTP response that carries a page: the status line, the headers
/// with the length of the page in bytes, and the page.
pub open spec fn response_text(html: Seq<char>) -> Seq<char> {
    "HTTP/1.1 200 OK\r\nContent-Type: text/html; charset=utf-8\r\nContent-Length: "@ + decimal(
        vstd::utf8::encode_utf8(html).len(),
    ) + "\r\n\r\n"@ + html
}

/// Wraps a page into an HTTP response.
pub fn http_response(html: &str) -> (r: String)
    ensures
        r@ == response_text(html@),
{
    let mut text = String::new();
    append_str(
        &mut text,
        "HTTP/1.1 200 OK\r\nContent-Type: text/html; charset=utf-8\r\nContent-Length: ",
    );
    let mut number: Vec<char> = Vec::new();
    let bytes = html.as_bytes();
    push_decimal(&mut number, bytes.len() as u128);
    assert(number@ =~= decimal(vstd::utf8::encode_utf8(html@).len()));
    append_chars(&mut text, &number);
    append_str(&mut text, "\r\n\r\n");
    append_str(&mut text, html);
    text
}

/// The address of the sign-in page for a provider, with the
/// percent-encoded callback that the page redirects to.
pub open spec fn sign_in_url(
    base: Seq<char>,
    provider: Seq<char>,
    encoded: Seq<char>,
) -> Seq<char> {
    base + "/auth/signin?provider="@ + provider + "&callbackUrl="@ + encoded
}

/// Spells the address of the sign-in page for a provider, with the
/// percent-encoded callback.
pub fn sign_in_address(base: &str, provider: &str, encoded_callback: &str) -> (r: String)
    ensures
        r@ == sign_in_url(base@, provider@, encoded_callback@),
{
    let mut url = String::new();
    append_str(&mut url, base);
    append_str(&mut url, "/auth/signin?provider=");
    append_str(&mut url, provider);
    append_str(&mut url, "&callbackUrl=");
    append_str(&mut url, encoded_callback);
    url
}

/// Spells the address of the sign-in page for a provider, with the
/// callback that the page redirects to.
pub fn auth_url(base: &str, provider: &str, callback: &str) -> (r: String)
    ensures
        r@ == sign_in_url(base@, provider@, url_encoded(callback@)),
{
    sign_in_address(base, provider, url_encode(callback).as_str())
}

} // verus!
