//! Text primitives the engine builds on: case folding, character classes and
//! edit distance.

use vstd::prelude::*;
use vstd::string::StringExecFns;
use vstd::utf8::{decode_utf8, encode_utf8, is_char_boundary};

verus! {

/// The lowercase form of a text under the Unicode case mapping.
pub uninterp spec fn lowercase_of(s: Seq<char>) -> Seq<char>;

/// Whether a character is a letter or a digit in the Unicode sense.
pub uninterp spec fn is_alphanumeric_char(c: char) -> bool;

/// Whether a character has the Unicode property `White_Space`.
pub uninterp spec fn is_whitespace_char(c: char) -> bool;

/// `str::to_lowercase`: the result is the Unicode lowercase form of `s`.
#[verifier::external_body]
pub(crate) fn lowercase(s: &str) -> (r: String)
    ensures
        r@ == lowercase_of(s@),
{
    s.to_lowercase()
}

/// `char::is_alphanumeric`.
#[verifier::external_body]
pub(crate) fn char_is_alphanumeric(c: char) -> (b: bool)
    ensures
        b == is_alphanumeric_char(c),
{
    c.is_alphanumeric()
}

/// `char::is_whitespace`.
#[verifier::external_body]
pub(crate) fn char_is_whitespace(c: char) -> (b: bool)
    ensures
        b == is_whitespace_char(c),
{
    c.is_whitespace()
}

/// `String::push`: appends one character.
#[verifier::external_body]
pub(crate) fn push_char(s: &mut String, c: char)
    ensures
        final(s)@ == old(s)@.push(c),
{
    s.push(c)
}

/// A copy of an optional text.
pub(crate) fn copy_text(text: &Option<String>) -> (copy: Option<String>)
    ensures
        copy == *text,
{
    match text {
        Some(t) => Some(t.clone()),
        None => None,
    }
}

/// The lowercase form of an ASCII capital; every other character is itself.
pub open spec fn ascii_lower(c: char) -> char {
    if 'A' <= c && c <= 'Z' {
        ((c as u32) + 32) as char
    } else {
        c
    }
}

/// Two texts of equal length whose characters agree once ASCII capitals are
/// folded to lowercase.
pub open spec fn eq_ignoring_ascii_case(a: Seq<char>, b: Seq<char>) -> bool {
    &&& a.len() == b.len()
    &&& forall|i: int| 0 <= i < a.len() ==> ascii_lower(#[trigger] a[i]) == ascii_lower(b[i])
}

/// `str::eq_ignore_ascii_case`: an ASCII case-insensitive match, the same
/// as comparing the two texts after `to_ascii_lowercase`.
#[verifier::external_body]
pub(crate) fn eq_ignore_ascii_case(a: &str, b: &str) -> (r: bool)
    ensures
        r == eq_ignoring_ascii_case(a@, b@),
{
    a.eq_ignore_ascii_case(b)
}

/// `s` without the whitespace at its end.
pub open spec fn trimmed_end(s: Seq<char>) -> Seq<char>
    decreases s.len(),
{
    if s.len() > 0 && is_whitespace_char(s.last()) {
        trimmed_end(s.drop_last())
    } else {
        s
    }
}

/// `s` without the whitespace at its start.
pub open spec fn trimmed_start(s: Seq<char>) -> Seq<char>
    decreases s.len(),
{
    if s.len() > 0 && is_whitespace_char(s.first()) {
        trimmed_start(s.drop_first())
    } else {
        s
    }
}

/// `s` without the whitespace at either end.
pub open spec fn trimmed(s: Seq<char>) -> Seq<char> {
    trimmed_start(trimmed_end(s))
}

/// `str::trim`: the text without its leading and trailing whitespace,
/// whitespace being the characters of the Unicode property `White_Space`.
#[verifier::external_body]
pub(crate) fn trim(s: &str) -> (r: String)
    ensures
        r@ == trimmed(s@),
{
    s.trim().to_string()
}

/// `str::starts_with` for a text pattern: whether the text begins with the
/// pattern.
#[verifier::external_body]
pub(crate) fn starts_with(s: &str, prefix: &str) -> (r: bool)
    ensures
        r == prefix@.is_prefix_of(s@),
{
    s.starts_with(prefix)
}

/// The number that a text spells out in decimal, if it spells out one
/// that fits in 32 bits.
pub uninterp spec fn parsed_u32(s: Seq<char>) -> Option<u32>;

/// `str::parse::<u32>`: the number that the text spells out, and nothing
/// where it spells out none.
#[verifier::external_body]
pub(crate) fn parse_u32(s: &str) -> (r: Option<u32>)
    ensures
        r == parsed_u32(s@),
{
    s.parse::<u32>().ok()
}

/// `s` with its occurrences of `from` replaced by `to`, read from the
/// left, no occurrence overlapping another.
pub uninterp spec fn replaced(s: Seq<char>, from: Seq<char>, to: Seq<char>) -> Seq<char>;

/// `str::replace` with a text pattern.
#[verifier::external_body]
pub(crate) fn replace(s: &str, from: &str, to: &str) -> (r: String)
    ensures
        r@ == replaced(s@, from@, to@),
{
    s.replace(from, to)
}

/// The pieces of `s` between its occurrences of `separator`, read from
/// the left, no occurrence overlapping another.
pub uninterp spec fn split_by(s: Seq<char>, separator: Seq<char>) -> Seq<Seq<char>>;

/// `str::split` with a text pattern, the pieces gathered in order.
#[verifier::external_body]
pub(crate) fn split(s: &str, separator: &str) -> (pieces: Vec<String>)
    ensures
        crate::apis::texts(pieces@) == split_by(s@, separator@),
{
    s.split(separator).map(|piece| piece.to_string()).collect()
}

/// `str::strip_prefix` with a text pattern: what follows the prefix, and
/// nothing where the text does not begin with it.
#[verifier::external_body]
pub(crate) fn strip_prefix(s: &str, prefix: &str) -> (rest: Option<String>)
    ensures
        match rest {
            Some(r) => prefix@.is_prefix_of(s@) && r@ == s@.skip(prefix@.len() as int),
            None => !prefix@.is_prefix_of(s@),
        },
{
    s.strip_prefix(prefix).map(|rest| rest.to_string())
}

/// `s` without `prefix` where it begins with it, else `s`.
pub open spec fn without_prefix(s: Seq<char>, prefix: Seq<char>) -> Seq<char> {
    if prefix.is_prefix_of(s) {
        s.skip(prefix.len() as int)
    } else {
        s
    }
}

/// Takes a prefix off a text that has it.
pub fn remove_prefix(s: &str, prefix: &str) -> (rest: String)
    ensures
        rest@ == without_prefix(s@, prefix@),
{
    match strip_prefix(s, prefix) {
        Some(rest) => rest,
        None => String::from_str(s),
    }
}

/// Whether the text has `n` bytes or more in UTF-8 and a character
/// begins, or the text ends, at byte `n`.
pub open spec fn starts_at_boundary(s: Seq<char>, n: int) -> bool {
    0 <= n <= encode_utf8(s).len() && is_char_boundary(encode_utf8(s), n)
}

/// The text that the first `n` bytes of `s` in UTF-8 spell, if a text
/// ends there.
pub open spec fn leading_text(s: Seq<char>, n: int) -> Option<Seq<char>> {
    if starts_at_boundary(s, n) {
        Some(decode_utf8(encode_utf8(s).subrange(0, n)))
    } else {
        None
    }
}

/// `str::get` with a range from the start: the first `n` bytes of the
/// text as a text, and nothing where the text is shorter or its byte `n`
/// lies inside a character.
#[verifier::external_body]
pub(crate) fn leading_bytes(s: &str, n: usize) -> (head: Option<String>)
    ensures
        crate::apis::opt_text(head) == leading_text(s@, n as int),
{
    s.get(..n).map(|head| head.to_string())
}

/// Two texts in one.
pub fn concat_texts(a: &str, b: &str) -> (text: String)
    ensures
        text@ == a@ + b@,
{
    String::from_str(a).concat(b)
}

/// A copy of each text, in order.
pub fn copy_texts(list: &Vec<String>) -> (copy: Vec<String>)
    ensures
        copy@ == list@,
{
    let mut copy: Vec<String> = Vec::new();
    let mut i: usize = 0;
    while i < list.len()
        invariant
            0 <= i <= list@.len(),
            copy@ == list@.take(i as int),
        decreases list@.len() - i,
    {
        copy.push(list[i].clone());
        proof {
            assert(list@.take(i + 1) =~= list@.take(i as int).push(list@[i as int]));
        }
        i += 1;
    }
    proof {
        assert(list@.take(list@.len() as int) =~= list@);
    }
    copy
}

/// Whether `pattern` stands in `s` from position `at` on.
pub open spec fn occurs_at(s: Seq<char>, pattern: Seq<char>, at: int) -> bool {
    0 <= at && at + pattern.len() <= s.len() && s.subrange(at, at + pattern.len()) == pattern
}

/// Whether `pattern` stands somewhere in `s`.
pub open spec fn occurs_in(s: Seq<char>, pattern: Seq<char>) -> bool {
    exists|at: int| occurs_at(s, pattern, at)
}

/// `str::contains` with a text pattern: whether the pattern stands
/// somewhere in the text.
#[verifier::external_body]
pub(crate) fn contains(s: &str, pattern: &str) -> (r: bool)
    ensures
        r == occurs_in(s@, pattern@),
{
    s.contains(pattern)
}

/// Where `pattern` stands in `s` for the last time, if it stands in `s`.
pub open spec fn last_occurrence(s: Seq<char>, pattern: Seq<char>) -> int {
    choose|at: int|
        occurs_at(s, pattern, at) && forall|later: int|
            later > at ==> !occurs_at(s, pattern, later)
}

/// What follows the last `pattern` in `s`; all of `s` where there is
/// none.
pub open spec fn after_last_text(s: Seq<char>, pattern: Seq<char>) -> Seq<char> {
    if occurs_in(s, pattern) {
        s.skip(last_occurrence(s, pattern) + pattern.len())
    } else {
        s
    }
}

/// `str::rsplit` with a text pattern, its first piece: what follows the
/// last occurrence of the pattern, and the whole text where the pattern
/// does not occur.
#[verifier::external_body]
pub(crate) fn last_part(s: &str, pattern: &str) -> (piece: String)
    ensures
        piece@ == after_last_text(s@, pattern@),
{
    s.rsplit(pattern).next().unwrap_or(s).to_string()
}

/// The digit that writes a number below ten.
pub open spec fn digit(d: nat) -> char {
    (48 + d) as char
}

/// A number written in decimal, without leading zeros.
pub open spec fn decimal(n: nat) -> Seq<char>
    decreases n,
{
    if n < 10 {
        seq![digit(n)]
    } else {
        decimal(n / 10).push(digit(n % 10))
    }
}

/// `u32::to_string`: the number written in decimal.
#[verifier::external_body]
pub(crate) fn number_text(n: u32) -> (r: String)
    ensures
        r@ == decimal(n as nat),
{
    n.to_string()
}

/// Whether two texts are the same.
pub fn same_text(a: &str, b: &str) -> (same: bool)
    ensures
        same == (a@ == b@),
{
    String::from_str(a) == String::from_str(b)
}

/// What follows the last `separator` in `s`; all of `s` where there is
/// none.
pub open spec fn after_last(s: Seq<char>, separator: char) -> Seq<char>
    decreases s.len(),
{
    if s.len() == 0 {
        Seq::empty()
    } else if s.last() == separator {
        Seq::empty()
    } else {
        after_last(s.drop_last(), separator).push(s.last())
    }
}

/// Takes what follows the last `separator` out of a text.
pub fn last_piece(s: &str, separator: char) -> (piece: String)
    ensures
        piece@ == after_last(s@, separator),
{
    let ghost text = s@;
    let mut piece = String::new();
    proof {
        assert(text.take(0) =~= Seq::<char>::empty());
    }
    for c in it: s.chars()
        invariant
            it.seq() == text,
            piece@ == after_last(text.take(it.index() as int), separator),
    {
        proof {
            let i = it.index() as int;
            assert(text.take(i + 1).drop_last() =~= text.take(i));
            assert(text.take(i + 1).last() == c);
        }
        if c == separator {
            piece = String::new();
        } else {
            push_char(&mut piece, c);
        }
    }
    proof {
        assert(text.take(text.len() as int) =~= text);
    }
    piece
}

/// `s` with `to` in the place of every `from`.
pub open spec fn with_char_replaced(s: Seq<char>, from: char, to: char) -> Seq<char> {
    s.map_values(|c: char| if c == from { to } else { c })
}

/// Puts one character in the place of another throughout a text.
pub fn replace_char(s: &str, from: char, to: char) -> (replaced: String)
    ensures
        replaced@ == with_char_replaced(s@, from, to),
{
    let ghost text = s@;
    let mut replaced = String::new();
    for c in it: s.chars()
        invariant
            it.seq() == text,
            replaced@ =~= with_char_replaced(text.take(it.index() as int), from, to),
    {
        proof {
            let i = it.index() as int;
            assert(text.take(i + 1) =~= text.take(i).push(c));
        }
        if c == from {
            push_char(&mut replaced, to);
        } else {
            push_char(&mut replaced, c);
        }
    }
    proof {
        assert(text.take(text.len() as int) =~= text);
    }
    replaced
}

/// The smallest of three numbers.
pub open spec fn min3(a: nat, b: nat, c: nat) -> nat {
    if a <= b && a <= c {
        a
    } else if b <= c {
        b
    } else {
        c
    }
}

/// The edit distance of two texts: the least number of single-character
/// insertions, deletions and substitutions that turns `a` into `b`.
pub open spec fn levenshtein_distance(a: Seq<char>, b: Seq<char>) -> nat
    decreases a.len() + b.len(),
{
    if a.len() == 0 {
        b.len()
    } else if b.len() == 0 {
        a.len()
    } else {
        let substitution: nat = if a.last() == b.last() { 0 } else { 1 };
        min3(
            levenshtein_distance(a.drop_last(), b) + 1,
            levenshtein_distance(a, b.drop_last()) + 1,
            levenshtein_distance(a.drop_last(), b.drop_last()) + substitution,
        )
    }
}

/// `strsim::levenshtein`, which counts in characters, not bytes: the result
/// is the edit distance of the two texts.
#[verifier::external_body]
pub(crate) fn edit_distance(a: &str, b: &str) -> (d: usize)
    ensures
        d == levenshtein_distance(a@, b@),
{
    strsim::levenshtein(a, b)
}

/// A text is at distance zero from itself.
pub proof fn lemma_distance_to_self(a: Seq<char>)
    ensures
        levenshtein_distance(a, a) == 0,
    decreases a.len(),
{
    if a.len() > 0 {
        lemma_distance_to_self(a.drop_last());
    }
}

/// Edit distance does not depend on the order of its arguments.
pub proof fn lemma_distance_symmetric(a: Seq<char>, b: Seq<char>)
    ensures
        levenshtein_distance(a, b) == levenshtein_distance(b, a),
    decreases a.len() + b.len(),
{
    if a.len() > 0 && b.len() > 0 {
        lemma_distance_symmetric(a.drop_last(), b);
        lemma_distance_symmetric(a, b.drop_last());
        lemma_distance_symmetric(a.drop_last(), b.drop_last());
    }
}

} // verus!
