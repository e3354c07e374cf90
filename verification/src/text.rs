//! Text handling on Unicode scalar values: searching, trimming, splitting and
//! the decimal notation of numbers.
use vstd::prelude::*;
use vstd::utf8::*;

verus! {

/// `String::push_str` appends the whole of `other` behind the text.
pub assume_specification[ String::push_str ](longer: &mut String, other: &str)
    ensures
        final(longer)@ == old(longer)@ + other@,
;

/// `String::push` appends the one character behind the text.
pub assume_specification[ String::push ](longer: &mut String, character: char)
    ensures
        final(longer)@ == old(longer)@.push(character),
;

/// The result of replacing every ill-formed part of `bytes` by U+FFFD, as
/// `String::from_utf8_lossy` does.
pub uninterp spec fn utf8_lossy(bytes: Seq<u8>) -> Seq<char>;

/// `String::from_utf8_lossy`. Well-formed UTF-8 is decoded as it is; what
/// stands in place of ill-formed parts is left to the standard library.
#[verifier::external_body]
pub(crate) fn lossy_text(bytes: &[u8]) -> (text: String)
    ensures
        text@ == utf8_lossy(bytes@),
        valid_utf8(bytes@) ==> text@ == decode_utf8(bytes@),
{
    String::from_utf8_lossy(bytes).into_owned()
}

/// The text that bytes stand for in UTF-8. What stands in place of ill-formed
/// parts is left to the standard library.
pub open spec fn decoded_text(bytes: Seq<u8>) -> Seq<char> {
    if valid_utf8(bytes) {
        decode_utf8(bytes)
    } else {
        utf8_lossy(bytes)
    }
}

/// Decodes UTF-8, whether it is well-formed or not.
pub fn decode_text(bytes: &[u8]) -> (text: String)
    ensures
        text@ == decoded_text(bytes@),
{
    lossy_text(bytes)
}

/// `String::from_utf8` gives the decoded text exactly for well-formed UTF-8.
#[verifier::external_body]
pub(crate) fn utf8_text(bytes: Vec<u8>) -> (text: Option<String>)
    ensures
        text is Some <==> valid_utf8(bytes@),
        text matches Some(t) ==> t@ == decode_utf8(bytes@),
{
    String::from_utf8(bytes).ok()
}

/// Whether two texts are the same.
pub fn same_text(a: &str, b: &str) -> (same: bool)
    ensures
        same == (a@ == b@),
{
    let x = a.as_bytes();
    let y = b.as_bytes();
    proof {
        encode_utf8_decode_utf8(a@);
        encode_utf8_decode_utf8(b@);
    }
    if x.len() != y.len() {
        return false;
    }
    let mut i: usize = 0;
    while i < x.len()
        invariant
            x@.len() == y@.len(),
            i <= x@.len(),
            x@.take(i as int) == y@.take(i as int),
            x@ == encode_utf8(a@),
            y@ == encode_utf8(b@),
        decreases x@.len() - i,
    {
        if x[i] != y[i] {
            assert(x@[i as int] != y@[i as int]);
            return false;
        }
        assert(x@.take(i + 1) =~= x@.take(i as int).push(x@[i as int]));
        assert(y@.take(i + 1) =~= y@.take(i as int).push(y@[i as int]));
        i += 1;
    }
    assert(x@.take(x@.len() as int) =~= x@);
    assert(y@.take(y@.len() as int) =~= y@);
    true
}

/// The characters of a text.
pub fn characters(text: &str) -> (chars: Vec<char>)
    ensures
        chars@ == text@,
{
    let mut chars: Vec<char> = Vec::new();
    for c in iter: text.chars()
        invariant
            iter.seq() == text@,
            chars@ == iter.seq().take(iter.index() as int),
    {
        chars.push(c);
    }
    chars
}

/// The text made of the given characters.
pub fn text_from(chars: &[char]) -> (text: String)
    ensures
        text@ == chars@,
{
    let mut text = String::new();
    let mut i: usize = 0;
    while i < chars.len()
        invariant
            i <= chars@.len(),
            text@ == chars@.take(i as int),
        decreases chars@.len() - i,
    {
        text.push(chars[i]);
        i += 1;
        assert(chars@.take(i as int) =~= chars@.take(i - 1).push(chars@[i - 1]));
    }
    assert(chars@.take(i as int) =~= chars@);
    text
}

/// The part of `chars` from `from` up to `to`.
pub(crate) fn text_between(chars: &[char], from: usize, to: usize) -> (text: String)
    requires
        from <= to <= chars@.len(),
    ensures
        text@ == chars@.subrange(from as int, to as int),
{
    text_from(&chars[from..to])
}

/// The texts that a list of strings holds.
pub open spec fn texts(list: Seq<String>) -> Seq<Seq<char>> {
    list.map_values(|t: String| t@)
}

/// The ASCII lower-case form of a character.
pub open spec fn lower_char(c: char) -> char {
    if 'A' <= c <= 'Z' {
        ((c as u32) + 32) as char
    } else {
        c
    }
}

/// The text with its ASCII letters in lower case.
pub open spec fn lower(text: Seq<char>) -> Seq<char> {
    text.map_values(|c: char| lower_char(c))
}

/// Puts the ASCII letters of a text in lower case.
pub fn ascii_lowercase(text: &str) -> (result: String)
    ensures
        result@ == lower(text@),
{
    let chars = characters(text);
    let mut result = String::new();
    let mut i: usize = 0;
    while i < chars.len()
        invariant
            i <= chars@.len(),
            result@ == lower(chars@.take(i as int)),
        decreases chars@.len() - i,
    {
        let c = chars[i];
        if 'A' <= c && c <= 'Z' {
            result.push((c as u8 + 32) as char);
        } else {
            result.push(c);
        }
        i += 1;
        assert(lower(chars@.take(i as int)) =~= lower(chars@.take(i - 1)).push(
            lower_char(chars@[i - 1]),
        ));
    }
    assert(chars@.take(i as int) =~= chars@);
    result
}

/// Whether `pattern` stands in `text` at the index `at`.
pub open spec fn occurs_at(text: Seq<char>, pattern: Seq<char>, at: int) -> bool {
    &&& 0 <= at
    &&& at + pattern.len() <= text.len()
    &&& text.subrange(at, at + pattern.len()) == pattern
}

/// Whether `text` begins with `prefix`.
pub open spec fn begins_with(text: Seq<char>, prefix: Seq<char>) -> bool {
    occurs_at(text, prefix, 0)
}

/// Whether `pattern` stands anywhere in `text`.
pub open spec fn contains_text(text: Seq<char>, pattern: Seq<char>) -> bool {
    exists|at: int| occurs_at(text, pattern, at)
}

/// The first index at or after `from` at which `pattern` stands in `text`.
pub open spec fn find_from(text: Seq<char>, pattern: Seq<char>, from: int) -> Option<int>
    decreases text.len() + 1 - from,
{
    if from < 0 || from + pattern.len() > text.len() {
        None
    } else if occurs_at(text, pattern, from) {
        Some(from)
    } else {
        find_from(text, pattern, from + 1)
    }
}

pub proof fn lemma_find_from(text: Seq<char>, pattern: Seq<char>, from: int)
    requires
        0 <= from,
    ensures
        match find_from(text, pattern, from) {
            Some(at) => from <= at && occurs_at(text, pattern, at),
            None => forall|at: int| from <= at ==> !occurs_at(text, pattern, at),
        },
    decreases text.len() + 1 - from,
{
    if from + pattern.len() <= text.len() && !occurs_at(text, pattern, from) {
        lemma_find_from(text, pattern, from + 1);
    }
}

/// Whether `pattern` stands in `text` at `at`.
fn stands_at(text: &[char], pattern: &[char], at: usize) -> (found: bool)
    requires
        at + pattern@.len() <= text@.len(),
    ensures
        found == occurs_at(text@, pattern@, at as int),
{
    let length = text.len();
    let mut i: usize = 0;
    while i < pattern.len()
        invariant
            length == text@.len(),
            at + pattern@.len() <= text@.len(),
            i <= pattern@.len(),
            text@.subrange(at as int, at + i) == pattern@.take(i as int),
        decreases pattern@.len() - i,
    {
        if text[at + i] != pattern[i] {
            assert(text@.subrange(at as int, at + pattern@.len())[i as int] != pattern@[i as int]);
            return false;
        }
        i += 1;
        assert(text@.subrange(at as int, at + i) =~= text@.subrange(at as int, at + i - 1).push(
            text@[at + i - 1],
        ));
        assert(pattern@.take(i as int) =~= pattern@.take(i - 1).push(pattern@[i - 1]));
    }
    assert(pattern@.take(i as int) =~= pattern@);
    true
}

/// The first index at or after `from` at which `pattern` stands in `text`.
pub fn find(text: &[char], pattern: &[char], from: usize) -> (at: Option<usize>)
    ensures
        match at {
            Some(i) => find_from(text@, pattern@, from as int) == Some(i as int),
            None => find_from(text@, pattern@, from as int) is None,
        },
{
    let mut i: usize = from;
    while i <= text.len() && pattern.len() <= text.len() - i
        invariant
            from <= i,
            find_from(text@, pattern@, from as int) == find_from(text@, pattern@, i as int),
        decreases text@.len() + 1 - i,
    {
        if stands_at(text, pattern, i) {
            return Some(i);
        }
        assert(text@.subrange(i as int, i + pattern@.len()) != pattern@);
        if i == text.len() {
            assert(text@.subrange(i as int, i as int) =~= pattern@);
            return None;
        }
        i += 1;
    }
    None
}

/// Whether `pattern` stands anywhere in `text`.
pub fn has_text(text: &str, pattern: &str) -> (found: bool)
    ensures
        found == contains_text(text@, pattern@),
{
    let text = characters(text);
    let pattern = characters(pattern);
    proof {
        lemma_find_from(text@, pattern@, 0);
    }
    find(text.as_slice(), pattern.as_slice(), 0).is_some()
}

/// Whether `text` begins with `prefix`.
pub fn has_prefix(text: &str, prefix: &str) -> (found: bool)
    ensures
        found == begins_with(text@, prefix@),
{
    let text = characters(text);
    let prefix = characters(prefix);
    prefix.len() <= text.len() && stands_at(text.as_slice(), prefix.as_slice(), 0)
}

/// The index of the first `c` in `text`, or the length of `text` where there
/// is none.
pub open spec fn position(text: Seq<char>, c: char) -> int
    decreases text.len(),
{
    if text.len() == 0 || text[0] == c {
        0
    } else {
        1 + position(text.skip(1), c)
    }
}

/// The part of `text` in front of the first `c`, all of it where there is none.
pub open spec fn before(text: Seq<char>, c: char) -> Seq<char> {
    text.take(position(text, c))
}

pub proof fn lemma_position(text: Seq<char>, c: char)
    ensures
        0 <= position(text, c) <= text.len(),
        position(text, c) < text.len() ==> text[position(text, c)] == c,
        forall|i: int| 0 <= i < position(text, c) ==> text[i] != c,
    decreases text.len(),
{
    if text.len() > 0 && text[0] != c {
        lemma_position(text.skip(1), c);
        assert forall|i: int| 0 <= i < position(text, c) implies text[i] != c by {
            if i > 0 {
                assert(text.skip(1)[i - 1] == text[i]);
            }
        }
    }
}

/// The index of the first `c` at or after `from`, or the length of the text
/// where there is none.
pub(crate) fn index_of(text: &[char], c: char, from: usize) -> (at: usize)
    requires
        from <= text@.len(),
    ensures
        at == from + position(text@.skip(from as int), c),
        from <= at <= text@.len(),
{
    let mut i: usize = from;
    while i < text.len() && text[i] != c
        invariant
            from <= i <= text@.len(),
            from + position(text@.skip(from as int), c) == i + position(text@.skip(i as int), c),
        decreases text@.len() - i,
    {
        assert(text@.skip(i as int).skip(1) =~= text@.skip(i + 1));
        i += 1;
    }
    i
}

/// The part of a text in front of the first `c`.
pub fn text_before(text: &str, c: char) -> (result: String)
    ensures
        result@ == before(text@, c),
{
    let chars = characters(text);
    assert(chars@.skip(0) =~= chars@);
    let at = index_of(chars.as_slice(), c, 0);
    text_between(chars.as_slice(), 0, at)
}

/// The Unicode `White_Space` property.
pub open spec fn is_space(c: char) -> bool {
    let u = c as u32;
    ||| 0x09 <= u <= 0x0D
    ||| u == 0x20
    ||| u == 0x85
    ||| u == 0xA0
    ||| u == 0x1680
    ||| 0x2000 <= u <= 0x200A
    ||| 0x2028 <= u <= 0x2029
    ||| u == 0x202F
    ||| u == 0x205F
    ||| u == 0x3000
}

fn space(c: char) -> (result: bool)
    ensures
        result == is_space(c),
{
    let u = c as u32;
    (0x09 <= u && u <= 0x0D) || u == 0x20 || u == 0x85 || u == 0xA0 || u == 0x1680 || (0x2000 <= u
        && u <= 0x200A) || (0x2028 <= u && u <= 0x2029) || u == 0x202F || u == 0x205F || u == 0x3000
}

/// The text without its leading white space.
pub open spec fn trim_start(text: Seq<char>) -> Seq<char>
    decreases text.len(),
{
    if text.len() > 0 && is_space(text[0]) {
        trim_start(text.skip(1))
    } else {
        text
    }
}

/// The text without its trailing white space.
pub open spec fn trim_end(text: Seq<char>) -> Seq<char>
    decreases text.len(),
{
    if text.len() > 0 && is_space(text.last()) {
        trim_end(text.drop_last())
    } else {
        text
    }
}

/// The text without the white space around it.
pub open spec fn trim(text: Seq<char>) -> Seq<char> {
    trim_end(trim_start(text))
}

/// The index of the first character at or after `from` that is no white space.
fn skip_space(text: &[char], from: usize) -> (at: usize)
    requires
        from <= text@.len(),
    ensures
        from <= at <= text@.len(),
        text@.skip(at as int) == trim_start(text@.skip(from as int)),
{
    let mut i: usize = from;
    while i < text.len() && space(text[i])
        invariant
            from <= i <= text@.len(),
            trim_start(text@.skip(from as int)) == trim_start(text@.skip(i as int)),
        decreases text@.len() - i,
    {
        assert(text@.skip(i as int).skip(1) =~= text@.skip(i + 1));
        i += 1;
    }
    i
}

/// The text without the white space around it.
pub fn trimmed(text: &str) -> (result: String)
    ensures
        result@ == trim(text@),
{
    let chars = characters(text);
    assert(chars@.skip(0) =~= chars@);
    let start = skip_space(chars.as_slice(), 0);
    let mut end: usize = chars.len();
    assert(chars@.subrange(start as int, end as int) =~= chars@.skip(start as int));
    while end > start && space(chars[end - 1])
        invariant
            start <= end <= chars@.len(),
            trim(chars@) == trim_end(chars@.subrange(start as int, end as int)),
        decreases end,
    {
        assert(chars@.subrange(start as int, end as int).drop_last() =~= chars@.subrange(
            start as int,
            end - 1,
        ));
        end -= 1;
    }
    text_between(chars.as_slice(), start, end)
}

/// The leading run of characters that are no white space.
pub open spec fn first_word(text: Seq<char>) -> Seq<char>
    decreases text.len(),
{
    if text.len() == 0 || is_space(text[0]) {
        Seq::empty()
    } else {
        seq![text[0]] + first_word(text.skip(1))
    }
}

/// The second of the words that white space separates, empty where there is
/// none.
pub open spec fn second_word(text: Seq<char>) -> Seq<char> {
    let start = trim_start(text);
    first_word(trim_start(start.skip(first_word(start).len() as int)))
}

/// The end of the run of characters without white space that begins at `from`.
pub(crate) fn end_of_word(text: &[char], from: usize) -> (at: usize)
    requires
        from <= text@.len(),
    ensures
        from <= at <= text@.len(),
        first_word(text@.skip(from as int)) == text@.subrange(from as int, at as int),
{
    let mut i: usize = from;
    assert(text@.subrange(from as int, i as int) + first_word(text@.skip(i as int))
        =~= first_word(text@.skip(from as int)));
    while i < text.len() && !space(text[i])
        invariant
            from <= i <= text@.len(),
            text@.subrange(from as int, i as int) + first_word(text@.skip(i as int)) == first_word(
                text@.skip(from as int),
            ),
        decreases text@.len() - i,
    {
        assert(text@.skip(i as int).skip(1) =~= text@.skip(i + 1));
        assert(text@.subrange(from as int, i as int) + first_word(text@.skip(i as int))
            =~= text@.subrange(from as int, i + 1) + first_word(text@.skip(i + 1)));
        i += 1;
    }
    assert(text@.subrange(from as int, i as int) + Seq::<char>::empty() =~= text@.subrange(
        from as int,
        i as int,
    ));
    i
}

/// The second word of a text.
pub fn text_second_word(text: &str) -> (result: String)
    ensures
        result@ == second_word(text@),
{
    let chars = characters(text);
    assert(chars@.skip(0) =~= chars@);
    let start = skip_space(chars.as_slice(), 0);
    let end = end_of_word(chars.as_slice(), start);
    assert(chars@.skip(start as int).skip(end - start) =~= chars@.skip(end as int));
    let second = skip_space(chars.as_slice(), end);
    let second_end = end_of_word(chars.as_slice(), second);
    text_between(chars.as_slice(), second, second_end)
}

/// The line without the carriage return that ends it.
pub open spec fn chomp(line: Seq<char>) -> Seq<char> {
    if line.len() > 0 && line.last() == '\r' {
        line.drop_last()
    } else {
        line
    }
}

/// The lines of a text. A line ends with a line feed, which a carriage return
/// may precede; what follows the last line feed is a line where it is not
/// empty.
pub open spec fn lines(text: Seq<char>) -> Seq<Seq<char>>
    decreases text.len(),
    via lines_decreases
{
    let end = position(text, '\n');
    if text.len() == 0 {
        Seq::empty()
    } else if end == text.len() {
        seq![text]
    } else {
        seq![chomp(text.take(end))] + lines(text.skip(end + 1))
    }
}

#[via_fn]
proof fn lines_decreases(text: Seq<char>) {
    lemma_position(text, '\n');
}

/// The lines of a text.
pub fn text_lines(text: &str) -> (result: Vec<String>)
    ensures
        texts(result@) == lines(text@),
{
    let chars = characters(text);
    let mut result: Vec<String> = Vec::new();
    let mut i: usize = 0;
    assert(chars@.skip(0) =~= chars@);
    assert(texts(result@) + lines(chars@) =~= lines(chars@));
    while i < chars.len()
        invariant
            chars@ == text@,
            i <= chars@.len(),
            texts(result@) + lines(chars@.skip(i as int)) == lines(chars@),
        decreases chars@.len() - i,
    {
        let ghost rest = chars@.skip(i as int);
        let ghost done = texts(result@);
        let end = index_of(chars.as_slice(), '\n', i);
        if end == chars.len() {
            let line = text_between(chars.as_slice(), i, end);
            assert(line@ =~= rest);
            result.push(line);
            assert(texts(result@) =~= done.push(rest));
            assert(done + seq![rest] =~= done.push(rest));
            return result;
        }
        assert(rest.take(end - i) =~= chars@.subrange(i as int, end as int));
        let line = if end > i && chars[end - 1] == '\r' {
            assert(rest.take(end - i).drop_last() =~= chars@.subrange(i as int, end - 1));
            text_between(chars.as_slice(), i, end - 1)
        } else {
            text_between(chars.as_slice(), i, end)
        };
        result.push(line);
        assert(rest.skip(end - i + 1) =~= chars@.skip(end + 1));
        assert(texts(result@) =~= done.push(line@));
        assert(texts(result@) + lines(chars@.skip(end + 1)) =~= done + lines(rest));
        i = end + 1;
    }
    assert(texts(result@) + Seq::<Seq<char>>::empty() =~= texts(result@));
    result
}

/// A line cut in two at its first colon.
pub fn split_at_colon(line: &str) -> (parts: Option<(String, String)>)
    ensures
        match parts {
            Some((name, value)) => {
                &&& position(line@, ':') < line@.len()
                &&& name@ == before(line@, ':')
                &&& value@ == line@.skip(position(line@, ':') + 1)
            },
            None => position(line@, ':') == line@.len(),
        },
{
    let chars = characters(line);
    assert(chars@.skip(0) =~= chars@);
    let at = index_of(chars.as_slice(), ':', 0);
    if at == chars.len() {
        return None;
    }
    let name = text_between(chars.as_slice(), 0, at);
    let value = text_between(chars.as_slice(), at + 1, chars.len());
    assert(value@ =~= line@.skip(at + 1));
    Some((name, value))
}

/// The digit for a number below ten.
pub open spec fn digit(n: nat) -> char {
    (('0' as u32) + n) as char
}

/// The decimal notation of a number.
pub open spec fn decimal(n: nat) -> Seq<char>
    decreases n,
{
    if n < 10 {
        seq![digit(n)]
    } else {
        decimal(n / 10).push(digit(n % 10))
    }
}

/// The decimal notation of a number.
pub fn decimal_text(n: u64) -> (text: String)
    ensures
        text@ == decimal(n as nat),
    decreases n,
{
    let mut text = if n < 10 {
        String::new()
    } else {
        decimal_text(n / 10)
    };
    let last = (n % 10) as u8;
    text.push(('0' as u8 + last) as char);
    assert(text@ =~= decimal(n as nat));
    text
}

/// Two numbers with the same decimal notation are the same.
pub proof fn lemma_decimal_injective(a: nat, b: nat)
    requires
        decimal(a) == decimal(b),
    ensures
        a == b,
    decreases a,
{
    lemma_decimal_nonempty(a / 10);
    lemma_decimal_nonempty(b / 10);
    assert(decimal(a).last() == digit(a % 10));
    assert(decimal(b).last() == digit(b % 10));
    assert(a % 10 == b % 10);
    assert(decimal(a).len() == decimal(b).len());
    if a >= 10 {
        assert(b >= 10);
        assert(decimal(a).drop_last() =~= decimal(a / 10));
        assert(decimal(b).drop_last() =~= decimal(b / 10));
        lemma_decimal_injective(a / 10, b / 10);
    }
}

proof fn lemma_decimal_nonempty(n: nat)
    ensures
        decimal(n).len() >= 1,
{
}

/// The texts one behind the other, with `separator` between them.
pub open spec fn joined(parts: Seq<Seq<char>>, separator: Seq<char>) -> Seq<char>
    decreases parts.len(),
{
    if parts.len() == 0 {
        Seq::empty()
    } else if parts.len() == 1 {
        parts[0]
    } else {
        joined(parts.drop_last(), separator) + separator + parts.last()
    }
}

/// Puts texts one behind the other, with `separator` between them.
pub fn join(parts: &Vec<String>, separator: &str) -> (text: String)
    ensures
        text@ == joined(texts(parts@), separator@),
{
    let mut text = String::new();
    let mut i: usize = 0;
    while i < parts.len()
        invariant
            i <= parts@.len(),
            text@ == joined(texts(parts@).take(i as int), separator@),
        decreases parts@.len() - i,
    {
        let ghost front = texts(parts@).take(i + 1);
        assert(front.drop_last() =~= texts(parts@).take(i as int));
        if i > 0 {
            text.push_str(separator);
        }
        text.push_str(parts[i].as_str());
        assert(text@ =~= joined(front, separator@));
        i += 1;
    }
    assert(texts(parts@).take(i as int) =~= texts(parts@));
    text
}

} // verus!
