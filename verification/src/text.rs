//! Text as sequences of characters: scanning, trimming and splitting for
//! the assembler, and the rendering of numbers for the disassembler and the
//! error messages.

use vstd::prelude::*;
use vstd::string::*;

verus! {

/// The sixteen upper-case hexadecimal digits, in order.
pub open spec fn hex_digits() -> Seq<char> {
    seq!['0', '1', '2', '3', '4', '5', '6', '7', '8', '9', 'A', 'B', 'C', 'D', 'E', 'F']
}

/// `n` in upper-case hexadecimal, padded with zeros on the left to at least
/// `width` digits; never empty.
pub open spec fn hex_text(n: nat, width: nat) -> Seq<char>
    decreases n, width,
{
    if n < 16 && width <= 1 {
        seq![hex_digits()[n as int]]
    } else if n < 16 {
        hex_text(0, (width - 1) as nat).push(hex_digits()[n as int])
    } else {
        hex_text(n / 16, if width == 0 { 0 } else { (width - 1) as nat }).push(
            hex_digits()[(n % 16) as int],
        )
    }
}

/// `n` in decimal, without padding; never empty.
pub open spec fn decimal_text(n: nat) -> Seq<char>
    decreases n,
{
    if n < 10 {
        seq![hex_digits()[n as int]]
    } else {
        decimal_text(n / 10).push(hex_digits()[(n % 10) as int])
    }
}

/// Appends the digit `d` (below sixteen) to `out`.
fn push_digit(out: &mut String, d: u64)
    requires
        d < 16,
    ensures
        final(out)@ == old(out)@.push(hex_digits()[d as int]),
{
    let table: &str = "0123456789ABCDEF";
    proof {
        reveal_strlit("0123456789ABCDEF");
    }
    let from: usize = d as usize;
    let piece: &str = table.substring_char(from, from + 1);
    assert(piece@ =~= seq![hex_digits()[d as int]]);
    out.append(piece);
    assert(out@ =~= old(out)@.push(hex_digits()[d as int]));
}

/// Appends `n` in upper-case hexadecimal, at least `width` digits wide.
pub fn push_hex(out: &mut String, n: u64, width: usize)
    ensures
        final(out)@ == old(out)@ + hex_text(n as nat, width as nat),
    decreases n, width,
{
    if n < 16 && width <= 1 {
        push_digit(out, n);
        assert(out@ =~= old(out)@ + hex_text(n as nat, width as nat));
    } else if n < 16 {
        push_hex(out, 0, width - 1);
        push_digit(out, n);
        assert(out@ =~= old(out)@ + hex_text(n as nat, width as nat));
    } else {
        let narrower: usize = if width == 0 { 0 } else { width - 1 };
        push_hex(out, n / 16, narrower);
        push_digit(out, n % 16);
        assert(out@ =~= old(out)@ + hex_text(n as nat, width as nat));
    }
}

/// Appends `n` in decimal.
pub fn push_decimal(out: &mut String, n: u64)
    ensures
        final(out)@ == old(out)@ + decimal_text(n as nat),
    decreases n,
{
    if n < 10 {
        push_digit(out, n);
        assert(out@ =~= old(out)@ + decimal_text(n as nat));
    } else {
        push_decimal(out, n / 10);
        push_digit(out, n % 10);
        assert(out@ =~= old(out)@ + decimal_text(n as nat));
    }
}

/// Whether a character is white space to `char::is_whitespace`: whether it
/// has the Unicode property `White_Space`.
pub uninterp spec fn is_white_space(c: char) -> bool;

/// The lower-case form of a text that `str::to_lowercase` gives.
pub uninterp spec fn lowercase(s: Seq<char>) -> Seq<char>;

/// A text as Rust writes a string for debugging: between double quotes,
/// with the escapes that the `Debug` implementation of `str` makes.
pub uninterp spec fn quoted(s: Seq<char>) -> Seq<char>;

/// Formats a text with the `Debug` implementation of `str`; the text
/// returned is the one that [`quoted`] names.
#[verifier::external_body]
pub(crate) fn to_quoted(s: &str) -> (text: String)
    ensures
        text@ == quoted(s@),
{
    format!("{:?}", s)
}

/// Calls `char::is_whitespace`; the answer is the one that
/// [`is_white_space`] names.
#[verifier::external_body]
pub(crate) fn is_white(c: char) -> (white: bool)
    ensures
        white == is_white_space(c),
{
    c.is_whitespace()
}

/// Calls `str::to_lowercase`; the text returned is the one that
/// [`lowercase`] names.
#[verifier::external_body]
pub(crate) fn to_lower(s: &str) -> (lower: String)
    ensures
        lower@ == lowercase(s@),
{
    s.to_lowercase()
}

/// The characters of a text.
pub fn chars_of(s: &str) -> (chars: Vec<char>)
    ensures
        chars@ == s@,
{
    let mut chars: Vec<char> = Vec::new();
    for c in it: s.chars()
        invariant
            chars@ == it.seq().take(it.index()),
    {
        chars.push(c);
    }
    chars
}

/// The texts of a sequence of string slices.
pub open spec fn texts(pieces: Seq<&str>) -> Seq<Seq<char>> {
    Seq::new(pieces.len(), |k: int| pieces[k]@)
}

/// The first place at or after `from` where `c` stands in `s`; the length
/// of `s` where there is none.
pub open spec fn find(s: Seq<char>, c: char, from: int) -> int
    decreases s.len() - from,
{
    if from < 0 || from >= s.len() {
        s.len() as int
    } else if s[from] == c {
        from
    } else {
        find(s, c, from + 1)
    }
}

/// The first place at or after `from` that holds no white space; the length
/// of `s` where there is none.
pub open spec fn skip_white(s: Seq<char>, from: int) -> int
    decreases s.len() - from,
{
    if from < 0 || from >= s.len() {
        s.len() as int
    } else if !is_white_space(s[from]) {
        from
    } else {
        skip_white(s, from + 1)
    }
}

/// The first place at or after `from` that holds white space; the length of
/// `s` where there is none.
pub open spec fn skip_word(s: Seq<char>, from: int) -> int
    decreases s.len() - from,
{
    if from < 0 || from >= s.len() {
        s.len() as int
    } else if is_white_space(s[from]) {
        from
    } else {
        skip_word(s, from + 1)
    }
}

/// The end of `s` without the white space that stands before `to`, going
/// back no further than `from`.
pub open spec fn skip_white_back(s: Seq<char>, from: int, to: int) -> int
    decreases to,
{
    if 0 <= from < to <= s.len() && is_white_space(s[to - 1]) {
        skip_white_back(s, from, to - 1)
    } else {
        to
    }
}

/// `s` without the white space at its end.
pub open spec fn trimmed_end(s: Seq<char>) -> Seq<char> {
    s.subrange(0, skip_white_back(s, 0, s.len() as int))
}

/// `s` without the white space at its start and at its end.
pub open spec fn trimmed(s: Seq<char>) -> Seq<char> {
    let start = skip_white(s, 0);
    s.subrange(start, skip_white_back(s, start, s.len() as int))
}

/// The pieces of `s` from `from` on that `sep` parts: one more than the
/// number of separators.
pub open spec fn split_from(s: Seq<char>, sep: char, from: int) -> Seq<Seq<char>>
    decreases s.len() - from,
{
    let at = find(s, sep, from);
    if from < 0 || from > s.len() || at < from {
        Seq::empty()
    } else if at >= s.len() {
        seq![s.subrange(from, s.len() as int)]
    } else {
        seq![s.subrange(from, at)] + split_from(s, sep, at + 1)
    }
}

/// The pieces of `s` that `sep` parts.
pub open spec fn split(s: Seq<char>, sep: char) -> Seq<Seq<char>> {
    split_from(s, sep, 0)
}

/// The words of `s` from `from` on: the longest runs without white space.
pub open spec fn words_from(s: Seq<char>, from: int) -> Seq<Seq<char>>
    decreases s.len() - from,
{
    let start = skip_white(s, from);
    let end = skip_word(s, start);
    if from < 0 || start < from || start >= s.len() || end <= start || end > s.len() {
        Seq::empty()
    } else {
        seq![s.subrange(start, end)] + words_from(s, end)
    }
}

/// The words of `s`.
pub open spec fn words(s: Seq<char>) -> Seq<Seq<char>> {
    words_from(s, 0)
}

pub fn find_char(chars: &Vec<char>, c: char, from: usize) -> (at: usize)
    requires
        from <= chars@.len(),
    ensures
        at == find(chars@, c, from as int),
        from <= at <= chars@.len(),
{
    let mut at: usize = from;
    while at < chars.len() && chars[at] != c
        invariant
            from <= at <= chars@.len(),
            find(chars@, c, from as int) == find(chars@, c, at as int),
        decreases chars@.len() - at,
    {
        at += 1;
    }
    at
}

pub fn skip_white_chars(chars: &Vec<char>, from: usize) -> (at: usize)
    requires
        from <= chars@.len(),
    ensures
        at == skip_white(chars@, from as int),
        from <= at <= chars@.len(),
{
    let mut at: usize = from;
    while at < chars.len() && is_white(chars[at])
        invariant
            from <= at <= chars@.len(),
            skip_white(chars@, from as int) == skip_white(chars@, at as int),
        decreases chars@.len() - at,
    {
        at += 1;
    }
    at
}

pub fn skip_word_chars(chars: &Vec<char>, from: usize) -> (at: usize)
    requires
        from <= chars@.len(),
    ensures
        at == skip_word(chars@, from as int),
        from <= at <= chars@.len(),
{
    let mut at: usize = from;
    while at < chars.len() && !is_white(chars[at])
        invariant
            from <= at <= chars@.len(),
            skip_word(chars@, from as int) == skip_word(chars@, at as int),
        decreases chars@.len() - at,
    {
        at += 1;
    }
    at
}

pub fn skip_white_chars_back(chars: &Vec<char>, from: usize, to: usize) -> (at: usize)
    requires
        from <= to <= chars@.len(),
    ensures
        at == skip_white_back(chars@, from as int, to as int),
        from <= at <= to,
{
    let mut at: usize = to;
    while at > from && is_white(chars[at - 1])
        invariant
            from <= at <= to <= chars@.len(),
            skip_white_back(chars@, from as int, to as int) == skip_white_back(
                chars@,
                from as int,
                at as int,
            ),
        decreases at,
    {
        at -= 1;
    }
    at
}

/// The text without the white space at its start and at its end.
pub fn trim<'a>(s: &'a str) -> (t: &'a str)
    ensures
        t@ == trimmed(s@),
        t@.len() <= s@.len(),
{
    let chars = chars_of(s);
    let start = skip_white_chars(&chars, 0);
    let end = skip_white_chars_back(&chars, start, chars.len());
    s.substring_char(start, end)
}

/// The text without the white space at its end.
pub fn trim_end<'a>(s: &'a str) -> (t: &'a str)
    ensures
        t@ == trimmed_end(s@),
        t@.len() <= s@.len(),
{
    let chars = chars_of(s);
    let end = skip_white_chars_back(&chars, 0, chars.len());
    s.substring_char(0, end)
}

/// The characters of all texts of a sequence together.
pub open spec fn total_len(pieces: Seq<Seq<char>>) -> nat
    decreases pieces.len(),
{
    if pieces.len() == 0 {
        0
    } else {
        total_len(pieces.drop_last()) + pieces.last().len()
    }
}

/// The pieces of a text that `sep` parts. Together with the separators
/// between them they are as long as the text.
pub fn split_on<'a>(s: &'a str, sep: char) -> (pieces: Vec<&'a str>)
    ensures
        texts(pieces@) == split(s@, sep),
        pieces@.len() >= 1,
        total_len(texts(pieces@)) + pieces@.len() == s@.len() + 1,
{
    let chars = chars_of(s);
    let mut pieces: Vec<&'a str> = Vec::new();
    let mut from: usize = 0;
    loop
        invariant_except_break
            from <= chars@.len(),
            texts(pieces@) + split_from(s@, sep, from as int) == split(s@, sep),
            total_len(texts(pieces@)) + pieces@.len() == from,
        invariant
            chars@ == s@,
        ensures
            texts(pieces@) == split(s@, sep),
            pieces@.len() >= 1,
            total_len(texts(pieces@)) + pieces@.len() == s@.len() + 1,
        decreases chars@.len() - from,
    {
        let at = find_char(&chars, sep, from);
        let piece = s.substring_char(from, at);
        let ghost before = pieces@;
        pieces.push(piece);
        assert(texts(pieces@) =~= texts(before).push(piece@));
        assert(texts(pieces@).drop_last() =~= texts(before));
        if at >= chars.len() {
            assert(texts(pieces@) =~= texts(before) + split_from(s@, sep, from as int));
            break ;
        }
        assert(texts(pieces@) + split_from(s@, sep, at + 1) =~= texts(before) + split_from(
            s@,
            sep,
            from as int,
        ));
        from = at + 1;
    }
    pieces
}

/// The words of a text.
pub fn split_words<'a>(s: &'a str) -> (pieces: Vec<&'a str>)
    ensures
        texts(pieces@) == words(s@),
        pieces@.len() <= s@.len(),
{
    let chars = chars_of(s);
    let mut pieces: Vec<&'a str> = Vec::new();
    let mut from: usize = 0;
    loop
        invariant_except_break
            from <= chars@.len(),
            texts(pieces@) + words_from(s@, from as int) == words(s@),
            pieces@.len() <= from,
        invariant
            chars@ == s@,
        ensures
            texts(pieces@) == words(s@),
            pieces@.len() <= s@.len(),
        decreases chars@.len() - from,
    {
        let start = skip_white_chars(&chars, from);
        let end = skip_word_chars(&chars, start);
        if start >= chars.len() || end <= start {
            assert(texts(pieces@) =~= texts(pieces@) + words_from(s@, from as int));
            break ;
        }
        let piece = s.substring_char(start, end);
        let ghost before = pieces@;
        pieces.push(piece);
        assert(texts(pieces@) =~= texts(before).push(piece@));
        assert(texts(pieces@) + words_from(s@, end as int) =~= texts(before) + words_from(
            s@,
            from as int,
        ));
        from = end;
    }
    pieces
}

/// Whether two texts hold the same characters.
pub fn same_text(a: &str, b: &str) -> (same: bool)
    ensures
        same == (a@ == b@),
{
    let left = chars_of(a);
    let right = chars_of(b);
    if left.len() != right.len() {
        return false;
    }
    let mut k: usize = 0;
    while k < left.len()
        invariant
            k <= left@.len(),
            left@ == a@,
            right@ == b@,
            left@.len() == right@.len(),
            forall|j: int| 0 <= j < k ==> left@[j] == right@[j],
        decreases left@.len() - k,
    {
        if left[k] != right[k] {
            assert(a@[k as int] != b@[k as int]);
            return false;
        }
        k += 1;
    }
    assert(left@ =~= right@);
    true
}

} // verus!
