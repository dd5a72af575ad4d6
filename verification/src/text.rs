//! Text, seen as a sequence of characters.
//!
//! Every function here has a counterpart over `Seq<char>`, and the contracts
//! of the other modules are written with those counterparts.
use vstd::prelude::*;
use vstd::string::*;

verus! {

/// `String::push`: the character is appended, nothing else changes.
pub assume_specification[ String::push ](string: &mut String, c: char)
    ensures
        final(string)@ == old(string)@.push(c),
;

/// What `String::from_utf8_lossy` makes of a byte sequence.
pub uninterp spec fn lossy_text(bytes: Seq<u8>) -> Seq<char>;

/// Decodes the output of a program with `String::from_utf8_lossy`.
///
/// The result is a function of the bytes alone, and bytes that are well-formed
/// UTF-8 come out as the characters that they encode.
#[verifier::external_body]
fn decode_output(bytes: &[u8]) -> (text: String)
    ensures
        text@ == lossy_text(bytes@),
        vstd::utf8::valid_utf8(bytes@) ==> text@ == vstd::utf8::decode_utf8(bytes@),
{
    String::from_utf8_lossy(bytes).into_owned()
}

/// The text that the output of a program stands for: the characters that it
/// encodes, or the nearest to that where it is not well-formed UTF-8.
pub open spec fn output_text(bytes: Seq<u8>) -> Seq<char> {
    if vstd::utf8::valid_utf8(bytes) {
        vstd::utf8::decode_utf8(bytes)
    } else {
        lossy_text(bytes)
    }
}

/// Reads the output of a program as text.
pub fn read_output(bytes: &[u8]) -> (text: String)
    ensures
        text@ == output_text(bytes@),
{
    decode_output(bytes)
}

/// The characters of each text of a list.
pub open spec fn texts(list: Seq<String>) -> Seq<Seq<char>> {
    list.map_values(|t: String| t@)
}

/// A list without texts.
pub(crate) fn no_texts() -> (list: Vec<String>)
    ensures
        texts(list@) == Seq::<Seq<char>>::empty(),
{
    let list: Vec<String> = Vec::new();
    assert(texts(list@) =~= Seq::<Seq<char>>::empty());
    list
}

/// Adds a text at the end of a list.
pub(crate) fn push_text(list: &mut Vec<String>, text: String)
    ensures
        texts(final(list)@) == texts(old(list)@).push(text@),
{
    let ghost before = list@;
    list.push(text);
    assert(texts(list@) =~= texts(before).push(text@));
}

/// The characters of a text, in order.
pub fn chars_of(text: &str) -> (chars: Vec<char>)
    ensures
        chars@ == text@,
{
    let mut chars: Vec<char> = Vec::new();
    for c in iter: text.chars()
        invariant
            chars@ == iter.seq().take(iter.index() as int),
            iter.seq() == text@,
    {
        chars.push(c);
    }
    chars
}

/// The text that the characters `chars[from..to]` make up.
pub fn text_between(chars: &Vec<char>, from: usize, to: usize) -> (text: String)
    requires
        from <= to <= chars@.len(),
    ensures
        text@ == chars@.subrange(from as int, to as int),
{
    let mut text = String::new();
    let mut i: usize = from;
    while i < to
        invariant
            from <= i <= to <= chars@.len(),
            text@ == chars@.subrange(from as int, i as int),
        decreases to - i,
    {
        text.push(chars[i]);
        i = i + 1;
    }
    text
}

/// Whether two texts hold the same characters.
pub fn same_text(a: &str, b: &str) -> (same: bool)
    ensures
        same == (a@ == b@),
{
    a.to_owned() == b.to_owned()
}

/// The characters with Unicode's White_Space property.
pub open spec fn white_space(c: char) -> bool {
    ||| '\u{9}' <= c <= '\u{d}'
    ||| c == '\u{20}'
    ||| c == '\u{85}'
    ||| c == '\u{a0}'
    ||| c == '\u{1680}'
    ||| '\u{2000}' <= c <= '\u{200a}'
    ||| c == '\u{2028}'
    ||| c == '\u{2029}'
    ||| c == '\u{202f}'
    ||| c == '\u{205f}'
    ||| c == '\u{3000}'
}

/// Whether a character is white space.
pub fn is_white_space(c: char) -> (white: bool)
    ensures
        white == white_space(c),
{
    ('\u{9}' <= c && c <= '\u{d}') || c == '\u{20}' || c == '\u{85}' || c == '\u{a0}'
        || c == '\u{1680}' || ('\u{2000}' <= c && c <= '\u{200a}') || c == '\u{2028}'
        || c == '\u{2029}' || c == '\u{202f}' || c == '\u{205f}' || c == '\u{3000}'
}

/// A text without the white space that it starts with.
pub open spec fn trimmed_start(s: Seq<char>) -> Seq<char>
    decreases s.len(),
{
    if s.len() > 0 && white_space(s[0]) {
        trimmed_start(s.drop_first())
    } else {
        s
    }
}

/// A text without the white space that it ends with.
pub open spec fn trimmed_end(s: Seq<char>) -> Seq<char>
    decreases s.len(),
{
    if s.len() > 0 && white_space(s.last()) {
        trimmed_end(s.drop_last())
    } else {
        s
    }
}

/// A text without the white space at either end.
pub open spec fn trimmed(s: Seq<char>) -> Seq<char> {
    trimmed_end(trimmed_start(s))
}

/// A text without the slashes that it ends with.
pub open spec fn without_trailing_slashes(s: Seq<char>) -> Seq<char>
    decreases s.len(),
{
    if s.len() > 0 && s.last() == '/' {
        without_trailing_slashes(s.drop_last())
    } else {
        s
    }
}

/// Removes the white space at both ends of a text.
pub fn trim(text: &str) -> (rest: String)
    ensures
        rest@ == trimmed(text@),
{
    let chars = chars_of(text);
    let mut from: usize = 0;
    assert(chars@.skip(0) == text@);
    while from < chars.len() && is_white_space(chars[from])
        invariant
            from <= chars@.len(),
            trimmed_start(text@) == trimmed_start(chars@.skip(from as int)),
        ensures
            from <= chars@.len(),
            from < chars@.len() ==> !white_space(chars@[from as int]),
            trimmed_start(text@) == trimmed_start(chars@.skip(from as int)),
        decreases chars@.len() - from,
    {
        proof {
            assert(chars@.skip(from as int).drop_first() == chars@.skip(from + 1));
        }
        from = from + 1;
    }
    let ghost start = chars@.skip(from as int);
    assert(trimmed_start(text@) == start);
    let mut to: usize = chars.len();
    assert(start == chars@.subrange(from as int, to as int));
    while from < to && is_white_space(chars[to - 1])
        invariant
            from <= to <= chars@.len(),
            trimmed_end(start) == trimmed_end(chars@.subrange(from as int, to as int)),
        ensures
            from <= to <= chars@.len(),
            from < to ==> !white_space(chars@[to - 1]),
            trimmed_end(start) == trimmed_end(chars@.subrange(from as int, to as int)),
        decreases to,
    {
        proof {
            assert(chars@.subrange(from as int, to as int).drop_last() == chars@.subrange(
                from as int,
                to - 1,
            ));
        }
        to = to - 1;
    }
    text_between(&chars, from, to)
}

/// Removes the slashes at the end of a text.
pub fn trim_end_slashes(text: &str) -> (rest: String)
    ensures
        rest@ == without_trailing_slashes(text@),
{
    let chars = chars_of(text);
    let mut to: usize = chars.len();
    assert(chars@.take(to as int) == text@);
    while 0 < to && chars[to - 1] == '/'
        invariant
            to <= chars@.len(),
            without_trailing_slashes(text@) == without_trailing_slashes(chars@.take(to as int)),
        ensures
            to <= chars@.len(),
            0 < to ==> chars@[to - 1] != '/',
            without_trailing_slashes(text@) == without_trailing_slashes(chars@.take(to as int)),
        decreases to,
    {
        proof {
            assert(chars@.take(to as int).drop_last() == chars@.take(to - 1));
        }
        to = to - 1;
    }
    text_between(&chars, 0, to)
}

/// The lower-case form of an ASCII letter, and any other character itself.
pub open spec fn ascii_lower(c: char) -> char {
    if 'A' <= c <= 'Z' {
        ((c as u32) + 32) as char
    } else {
        c
    }
}

/// A text with its ASCII letters in lower case.
pub open spec fn lowered(s: Seq<char>) -> Seq<char> {
    s.map_values(|c: char| ascii_lower(c))
}

/// Turns the ASCII letters of a text into lower case.
pub fn to_ascii_lowercase(text: &str) -> (lower: String)
    ensures
        lower@ == lowered(text@),
{
    let chars = chars_of(text);
    let mut lower = String::new();
    let mut i: usize = 0;
    while i < chars.len()
        invariant
            i <= chars@.len(),
            chars@ == text@,
            lower@ == lowered(chars@.take(i as int)),
        decreases chars@.len() - i,
    {
        let c = chars[i];
        let low: char = if 'A' <= c && c <= 'Z' {
            ((c as u8) + 32) as char
        } else {
            c
        };
        lower.push(low);
        i = i + 1;
    }
    assert(chars@.take(i as int) == text@);
    lower
}

/// Whether two texts are equal up to the case of ASCII letters.
pub fn eq_ignore_ascii_case(a: &str, b: &str) -> (same: bool)
    ensures
        same == (lowered(a@) == lowered(b@)),
{
    to_ascii_lowercase(a) == to_ascii_lowercase(b)
}

/// Whether `part` stands in `whole` from position `at` on.
pub open spec fn stands_at(whole: Seq<char>, part: Seq<char>, at: int) -> bool {
    0 <= at && at + part.len() <= whole.len() && whole.subrange(at, at + part.len()) == part
}

/// Whether `part` stands somewhere in `whole`.
pub open spec fn has_part(whole: Seq<char>, part: Seq<char>) -> bool {
    exists|at: int| stands_at(whole, part, at)
}

/// Whether `part` stands in `whole` from position `at` on.
fn part_stands_at(whole: &Vec<char>, part: &Vec<char>, at: usize) -> (stands: bool)
    requires
        at + part@.len() <= whole@.len(),
    ensures
        stands == stands_at(whole@, part@, at as int),
{
    let len: usize = whole.len();
    let mut i: usize = 0;
    while i < part.len()
        invariant
            i <= part@.len(),
            at + part@.len() <= whole@.len(),
            len == whole@.len(),
            forall|k: int| 0 <= k < i ==> whole@[at + k] == part@[k],
        decreases part@.len() - i,
    {
        if whole[at + i] != part[i] {
            assert(whole@.subrange(at as int, at + part@.len())[i as int] != part@[i as int]);
            return false;
        }
        i = i + 1;
    }
    assert(whole@.subrange(at as int, at + part@.len()) =~= part@);
    true
}

/// Whether `part` is a substring of `whole`.
pub fn contains(whole: &str, part: &str) -> (found: bool)
    ensures
        found == has_part(whole@, part@),
{
    let w = chars_of(whole);
    let p = chars_of(part);
    if p.len() > w.len() {
        return false;
    }
    let last: usize = w.len() - p.len();
    let mut at: usize = 0;
    loop
        invariant
            at <= last,
            last == w@.len() - p@.len(),
            w@ == whole@,
            p@ == part@,
            forall|k: int| 0 <= k < at ==> !stands_at(w@, p@, k),
        decreases last - at,
    {
        if part_stands_at(&w, &p, at) {
            return true;
        }
        if at == last {
            return false;
        }
        at = at + 1;
    }
}

/// How many characters stand before the first line feed, or in all.
pub open spec fn line_length(s: Seq<char>) -> nat
    decreases s.len(),
{
    if s.len() == 0 || s[0] == '\n' {
        0
    } else {
        1 + line_length(s.drop_first())
    }
}

/// The first line of a text: what stands before the first line feed, without
/// the carriage return right before that line feed. An empty text has no line.
pub open spec fn first_line_of(s: Seq<char>) -> Option<Seq<char>> {
    let n = line_length(s) as int;
    if s.len() == 0 {
        None
    } else if n < s.len() && n > 0 && s[n - 1] == '\r' {
        Some(s.take(n - 1))
    } else {
        Some(s.take(n))
    }
}

/// The first `n` characters hold no line feed, and the line ends there.
pub proof fn lemma_line_length(s: Seq<char>, n: int)
    requires
        0 <= n <= s.len(),
        forall|k: int| 0 <= k < n ==> s[k] != '\n',
        n < s.len() ==> s[n] == '\n',
    ensures
        line_length(s) == n,
    decreases n,
{
    if n > 0 {
        lemma_line_length(s.drop_first(), n - 1);
    }
}

/// The first line of a text, if it has one.
pub fn first_line(text: &str) -> (line: Option<String>)
    ensures
        line is Some <==> first_line_of(text@) is Some,
        line matches Some(l) ==> l@ == first_line_of(text@)->0,
{
    let chars = chars_of(text);
    if chars.len() == 0 {
        return None;
    }
    let mut n: usize = 0;
    while n < chars.len() && chars[n] != '\n'
        invariant
            n <= chars@.len(),
            forall|k: int| 0 <= k < n ==> chars@[k] != '\n',
        ensures
            n <= chars@.len(),
            forall|k: int| 0 <= k < n ==> chars@[k] != '\n',
            n < chars@.len() ==> chars@[n as int] == '\n',
        decreases chars@.len() - n,
    {
        n = n + 1;
    }
    proof {
        lemma_line_length(chars@, n as int);
    }
    if n < chars.len() && n > 0 && chars[n - 1] == '\r' {
        Some(text_between(&chars, 0, n - 1))
    } else {
        Some(text_between(&chars, 0, n))
    }
}

/// Changing case changes no white space and no slash.
proof fn lemma_ascii_lower_keeps(c: char)
    ensures
        white_space(ascii_lower(c)) == white_space(c),
        (ascii_lower(c) == '/') == (c == '/'),
        ascii_lower(ascii_lower(c)) == ascii_lower(c),
{
}

/// Text in lower case stays as it is when it is lowered once more.
pub proof fn lemma_lowered_twice(s: Seq<char>)
    ensures
        lowered(lowered(s)) == lowered(s),
{
    assert forall|i: int| 0 <= i < s.len() implies lowered(lowered(s))[i] == lowered(s)[i] by {
        lemma_ascii_lower_keeps(s[i]);
    }
    assert(lowered(lowered(s)) =~= lowered(s));
}

/// Trimming and lowering can change places.
pub proof fn lemma_trimmed_lowered(s: Seq<char>)
    ensures
        trimmed(lowered(s)) == lowered(trimmed(s)),
{
    lemma_trimmed_start_lowered(s);
    lemma_trimmed_end_lowered(trimmed_start(s));
}

proof fn lemma_trimmed_start_lowered(s: Seq<char>)
    ensures
        trimmed_start(lowered(s)) == lowered(trimmed_start(s)),
    decreases s.len(),
{
    if s.len() > 0 {
        lemma_ascii_lower_keeps(s[0]);
        assert(lowered(s).drop_first() =~= lowered(s.drop_first()));
        lemma_trimmed_start_lowered(s.drop_first());
    }
}

proof fn lemma_trimmed_end_lowered(s: Seq<char>)
    ensures
        trimmed_end(lowered(s)) == lowered(trimmed_end(s)),
    decreases s.len(),
{
    if s.len() > 0 {
        lemma_ascii_lower_keeps(s.last());
        assert(lowered(s).drop_last() =~= lowered(s.drop_last()));
        lemma_trimmed_end_lowered(s.drop_last());
    }
}

/// Dropping trailing slashes and lowering can change places.
pub proof fn lemma_without_slashes_lowered(s: Seq<char>)
    ensures
        without_trailing_slashes(lowered(s)) == lowered(without_trailing_slashes(s)),
    decreases s.len(),
{
    if s.len() > 0 {
        lemma_ascii_lower_keeps(s.last());
        assert(lowered(s).drop_last() =~= lowered(s.drop_last()));
        lemma_without_slashes_lowered(s.drop_last());
    }
}

/// Whether a text is white space throughout.
pub open spec fn blank(s: Seq<char>) -> bool {
    forall|i: int| 0 <= i < s.len() ==> white_space(#[trigger] s[i])
}

/// White space in front of a text is trimmed away.
proof fn lemma_trimmed_start_after_blank(before: Seq<char>, s: Seq<char>)
    requires
        blank(before),
    ensures
        trimmed_start(before + s) == trimmed_start(s),
    decreases before.len(),
{
    if before.len() == 0 {
        assert(before + s =~= s);
    } else {
        assert((before + s)[0] == before[0]);
        assert((before + s).drop_first() =~= before.drop_first() + s);
        lemma_trimmed_start_after_blank(before.drop_first(), s);
    }
}

/// White space behind a text is trimmed away.
proof fn lemma_trimmed_end_before_blank(s: Seq<char>, after: Seq<char>)
    requires
        blank(after),
    ensures
        trimmed_end(s + after) == trimmed_end(s),
    decreases after.len(),
{
    if after.len() == 0 {
        assert(s + after =~= s);
    } else {
        assert((s + after).last() == after.last());
        assert((s + after).drop_last() =~= s + after.drop_last());
        lemma_trimmed_end_before_blank(s, after.drop_last());
    }
}

/// A text is trimmed to nothing at its start exactly if it is blank; else what
/// is left starts with a character that is not white space, and what follows
/// the text does not matter.
proof fn lemma_trimmed_start_shape(s: Seq<char>, after: Seq<char>)
    ensures
        blank(s) ==> trimmed_start(s).len() == 0,
        !blank(s) ==> trimmed_start(s).len() > 0 && !white_space(trimmed_start(s)[0])
            && trimmed_start(s + after) == trimmed_start(s) + after,
    decreases s.len(),
{
    if s.len() > 0 {
        if white_space(s[0]) {
            let rest = s.drop_first();
            assert((s + after)[0] == s[0]);
            assert((s + after).drop_first() =~= rest + after);
            lemma_trimmed_start_shape(rest, after);
            if blank(rest) {
                assert forall|i: int| 0 <= i < s.len() implies white_space(#[trigger] s[i]) by {
                    if i > 0 {
                        assert(rest[i - 1] == s[i]);
                    }
                }
            } else {
                let i = choose|i: int| 0 <= i < rest.len() && !white_space(#[trigger] rest[i]);
                assert(s[i + 1] == rest[i]);
            }
        } else {
            assert((s + after)[0] == s[0]);
        }
    }
}

/// White space on either side of a text is trimmed away.
pub proof fn lemma_trimmed_between_blanks(before: Seq<char>, s: Seq<char>, after: Seq<char>)
    requires
        blank(before),
        blank(after),
    ensures
        trimmed(before + s + after) == trimmed(s),
{
    assert(before + s + after =~= before + (s + after));
    lemma_trimmed_start_after_blank(before, s + after);
    lemma_trimmed_start_shape(s, after);
    if blank(s) {
        assert(blank(s + after));
        lemma_trimmed_start_shape(s + after, after);
        assert(trimmed_start(s + after) =~= trimmed_start(s));
    } else {
        lemma_trimmed_end_before_blank(trimmed_start(s), after);
    }
}

/// Trimming at the end leaves a beginning of the text, and no white space at
/// its end.
proof fn lemma_trimmed_end_shape(s: Seq<char>)
    ensures
        trimmed_end(s).len() <= s.len(),
        trimmed_end(s) == s.take(trimmed_end(s).len() as int),
        trimmed_end(s).len() > 0 ==> !white_space(trimmed_end(s).last()),
        s.len() > 0 && !white_space(s[0]) ==> trimmed_end(s).len() > 0,
    decreases s.len(),
{
    if s.len() > 0 && white_space(s.last()) {
        lemma_trimmed_end_shape(s.drop_last());
        assert(trimmed_end(s) =~= s.take(trimmed_end(s).len() as int));
    } else {
        assert(s.take(s.len() as int) =~= s);
    }
}

/// What is left of a text once it is trimmed has no white space at either end.
pub proof fn lemma_trimmed_shape(s: Seq<char>)
    ensures
        trimmed(s).len() > 0 ==> !white_space(trimmed(s)[0]) && !white_space(trimmed(s).last()),
        trimmed(s).len() == 0 <==> blank(s),
{
    lemma_trimmed_start_shape(s, Seq::empty());
    lemma_trimmed_end_shape(trimmed_start(s));
}

/// A text without white space at either end is not changed by trimming.
pub proof fn lemma_trimmed_stable(s: Seq<char>)
    requires
        s.len() > 0 ==> !white_space(s[0]) && !white_space(s.last()),
    ensures
        trimmed(s) == s,
{
}

/// A slash right behind a text is not trimmed away, nor is what stands before it.
pub proof fn lemma_trimmed_with_slash(s: Seq<char>)
    requires
        !blank(s),
        !white_space(s.last()),
    ensures
        trimmed(s.push('/')) == trimmed(s).push('/'),
{
    lemma_trimmed_start_shape(s, seq!['/']);
    let start = trimmed_start(s);
    assert(s.push('/') =~= s + seq!['/']);
    assert(start + seq!['/'] =~= start.push('/'));
    lemma_trimmed_start_last(s);
}

/// Trimming at the start keeps the last character.
proof fn lemma_trimmed_start_last(s: Seq<char>)
    requires
        !blank(s),
    ensures
        trimmed_start(s).len() > 0,
        trimmed_start(s).last() == s.last(),
    decreases s.len(),
{
    lemma_trimmed_start_shape(s, Seq::empty());
    if s.len() > 0 && white_space(s[0]) {
        lemma_trimmed_start_shape(s.drop_first(), Seq::empty());
        lemma_trimmed_start_last(s.drop_first());
    }
}

/// Lowering keeps the length, the white space and the slashes where they are.
pub proof fn lemma_lowered_shape(s: Seq<char>)
    ensures
        lowered(s).len() == s.len(),
        s.len() > 0 ==> white_space(lowered(s)[0]) == white_space(s[0]),
        s.len() > 0 ==> white_space(lowered(s).last()) == white_space(s.last()),
        s.len() > 0 ==> (lowered(s).last() == '/') == (s.last() == '/'),
{
    if s.len() > 0 {
        lemma_ascii_lower_keeps(s[0]);
        lemma_ascii_lower_keeps(s.last());
    }
}

/// What dropping the trailing slashes leaves is a beginning of the text that
/// does not end with a slash.
pub proof fn lemma_without_slashes_shape(s: Seq<char>)
    ensures
        without_trailing_slashes(s).len() <= s.len(),
        without_trailing_slashes(s) == s.take(without_trailing_slashes(s).len() as int),
        without_trailing_slashes(s).len() > 0 ==> without_trailing_slashes(s).last() != '/',
    decreases s.len(),
{
    if s.len() > 0 && s.last() == '/' {
        lemma_without_slashes_shape(s.drop_last());
        assert(without_trailing_slashes(s) =~= s.take(without_trailing_slashes(s).len() as int));
    } else {
        assert(s.take(s.len() as int) =~= s);
    }
}

/// A text has every character that a part of it has.
pub proof fn lemma_part_char(whole: Seq<char>, part: Seq<char>, i: int)
    requires
        has_part(whole, part),
        0 <= i < part.len(),
    ensures
        whole.contains(part[i]),
{
    let at = choose|at: int| stands_at(whole, part, at);
    assert(whole.subrange(at, at + part.len())[i] == part[i]);
    assert(whole[at + i] == part[i]);
}

/// White space is the tabulator, the line feed, the vertical tab, the form feed,
/// the carriage return, the space, and the other characters at these code points.
pub proof fn law_white_space_by_code(c: char)
    ensures
        white_space(c) <==> {
            let code = c as u32;
            ||| 9 <= code <= 13
            ||| code == 0x20 || code == 0x85 || code == 0xa0 || code == 0x1680
            ||| 0x2000 <= code <= 0x200a
            ||| code == 0x2028 || code == 0x2029 || code == 0x202f || code == 0x205f
            ||| code == 0x3000
        },
{
}

/// Trimming takes away what white space stands before and behind a text, and not
/// one character more: any text between two characters that are not white space
/// is left as it is, and so is one such character alone.
pub proof fn law_trim_leaves_what_stands_between(
    before: Seq<char>,
    core: Seq<char>,
    after: Seq<char>,
)
    requires
        forall|i: int| 0 <= i < before.len() ==> white_space(#[trigger] before[i]),
        forall|i: int| 0 <= i < after.len() ==> white_space(#[trigger] after[i]),
        core.len() > 0 ==> !white_space(core[0]) && !white_space(core[core.len() - 1]),
    ensures
        trimmed(before + core + after) == core,
{
    lemma_trimmed_between_blanks(before, core, after);
    lemma_trimmed_stable(core);
}

/// Trimming leaves nothing exactly if there is nothing but white space.
pub proof fn law_trim_leaves_nothing_of_blanks_only(s: Seq<char>)
    ensures
        trimmed(s).len() > 0 <==> exists|i: int| 0 <= i < s.len() && !white_space(#[trigger] s[i]),
{
    lemma_trimmed_shape(s);
}

/// Slashes at the end of a text are dropped, however many there are, and nothing
/// else is: neither another character nor a slash elsewhere.
pub proof fn law_only_trailing_slashes_are_dropped(core: Seq<char>, slashes: Seq<char>)
    requires
        forall|i: int| 0 <= i < slashes.len() ==> #[trigger] slashes[i] == '/',
        core.len() > 0 ==> core[core.len() - 1] != '/',
    ensures
        without_trailing_slashes(core + slashes) == core,
    decreases slashes.len(),
{
    if slashes.len() == 0 {
        assert(core + slashes =~= core);
    } else {
        assert((core + slashes).last() == slashes.last());
        assert((core + slashes).drop_last() =~= core + slashes.drop_last());
        law_only_trailing_slashes_are_dropped(core, slashes.drop_last());
    }
}

/// Lower case moves the letters A to Z to their small forms, each in its place,
/// and leaves every other character alone.
pub proof fn law_lower_case_by_code(s: Seq<char>, i: int)
    requires
        0 <= i < s.len(),
    ensures
        lowered(s).len() == s.len(),
        65 <= s[i] as u32 <= 90 ==> lowered(s)[i] as u32 == s[i] as u32 + 32,
        !(65 <= s[i] as u32 <= 90) ==> lowered(s)[i] == s[i],
{
}

/// A text has a part exactly if it is that part with something, or nothing,
/// before and behind it.
pub proof fn law_part_has_surroundings(whole: Seq<char>, part: Seq<char>)
    ensures
        has_part(whole, part) <==> exists|before: Seq<char>, after: Seq<char>|
            whole == #[trigger] (before + part + after),
{
    if has_part(whole, part) {
        let at = choose|at: int| stands_at(whole, part, at);
        let before = whole.take(at);
        let after = whole.skip(at + part.len());
        assert(whole =~= before + whole.subrange(at, at + part.len()) + after);
    }
    if exists|before: Seq<char>, after: Seq<char>| whole == #[trigger] (before + part + after) {
        let (before, after) = choose|before: Seq<char>, after: Seq<char>|
            whole == #[trigger] (before + part + after);
        let at = before.len() as int;
        assert(whole.subrange(at, at + part.len()) =~= part);
        assert(stands_at(whole, part, at));
    }
}

/// The first line ends before the first line feed, or before the carriage return
/// and line feed, whatever follows; a text without a line feed is one line, with
/// all that it holds; and an empty text has no line.
pub proof fn law_first_line_ends_at_line_feed(line: Seq<char>, rest: Seq<char>)
    requires
        forall|i: int| 0 <= i < line.len() ==> #[trigger] line[i] != '\n',
    ensures
        (line.len() > 0 ==> line[line.len() - 1] != '\r') ==> first_line_of(
            line.push('\n') + rest,
        ) == Some(line),
        first_line_of(line.push('\r').push('\n') + rest) == Some(line),
        line.len() > 0 ==> first_line_of(line) == Some(line),
        line.len() == 0 ==> first_line_of(line) == None::<Seq<char>>,
{
    let n = line.len() as int;
    let fed = line.push('\n') + rest;
    assert forall|k: int| 0 <= k < n implies fed[k] != '\n' by {
        assert(fed[k] == line[k]);
    }
    lemma_line_length(fed, n);
    assert(fed.take(n) =~= line);
    if n > 0 {
        assert(fed[n - 1] == line[n - 1]);
    }
    let returned = line.push('\r').push('\n') + rest;
    assert forall|k: int| 0 <= k < n + 1 implies returned[k] != '\n' by {
        if k < n {
            assert(returned[k] == line[k]);
        }
    }
    lemma_line_length(returned, n + 1);
    assert(returned.take(n) =~= line);
    lemma_line_length(line, n);
    assert(line.take(n) =~= line);
}

/// A list of texts is the list of what each of them holds, in order.
pub proof fn law_texts_hold_what_each_holds(list: Seq<String>, i: int)
    requires
        0 <= i < list.len(),
    ensures
        texts(list).len() == list.len(),
        texts(list)[i] == list[i]@,
{
}

/// What a program writes in well-formed UTF-8 is read as the characters that it
/// wrote, and all else as the lossy decoding of it.
pub proof fn law_written_text_is_read(chars: Seq<char>, bytes: Seq<u8>)
    ensures
        output_text(vstd::utf8::encode_utf8(chars)) == chars,
        !vstd::utf8::valid_utf8(bytes) ==> output_text(bytes) == lossy_text(bytes),
{
    broadcast use vstd::utf8::group_utf8_lib;

}

} // verus!
