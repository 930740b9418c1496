//! Text over sequences of characters: trimming, words, searching, replacing, ordering and
//! decimal numerals.
use vstd::prelude::*;
use vstd::utf8::{
    decode_utf8, encode_utf8, encode_utf8_decode_utf8, encode_utf8_valid_utf8,
    is_ascii_chars_encode_utf8, valid_utf8,
};

verus! {

/// `String::push`: the character stands behind the characters already there.
pub assume_specification[ String::push ](s: &mut String, c: char)
    ensures
        final(s)@ == old(s)@.push(c),
;

/// `s` in lower case, by the rules of Unicode.
pub uninterp spec fn lowercase(s: Seq<char>) -> Seq<char>;

/// `str::to_lowercase`: the lower case of a text is a function of the text alone. In a text of
/// ASCII characters the letters `A` to `Z` become `a` to `z` and the rest stays. Which characters
/// the lower case of another text holds is not stated.
#[verifier::external_body]
pub(crate) fn to_lowercase(s: &str) -> (r: String)
    ensures
        r@ == lowercase(s@),
        is_ascii_text(s@) ==> r@ == ascii_lower(s@),
{
    s.to_lowercase()
}

/// The text that a row of bytes stands for, read as UTF-8 with what is not valid replaced.
pub uninterp spec fn utf8_lossy(bytes: Seq<u8>) -> Seq<char>;

/// `String::from_utf8_lossy`: the text is a function of the bytes alone. Bytes that are valid
/// UTF-8 give the text that they encode. Which characters other bytes give is not stated.
#[verifier::external_body]
pub(crate) fn decode_lossy(bytes: &Vec<u8>) -> (r: String)
    ensures
        r@ == utf8_lossy(bytes@),
        valid_utf8(bytes@) ==> r@ == decode_utf8(bytes@),
{
    String::from_utf8_lossy(bytes).into_owned()
}

/// The lower case of one character, by the rules of Unicode.
pub uninterp spec fn lower_of(c: char) -> Seq<char>;

/// `char::to_lowercase`: the lower case of a character is a function of the character alone. Of
/// the ASCII characters `A` to `Z` become `a` to `z` and the rest stays. Which characters the
/// lower case of another character holds is not stated.
#[verifier::external_body]
pub(crate) fn lowercase_char(c: char) -> (r: String)
    ensures
        r@ == lower_of(c),
        is_ascii(c) ==> r@ == seq![lower_char(c)],
{
    c.to_lowercase().collect()
}

/// The upper case of one character, by the rules of Unicode.
pub uninterp spec fn upper_of(c: char) -> Seq<char>;

/// `char::to_uppercase`: the upper case of a character is a function of the character alone. Of
/// the ASCII characters `a` to `z` become `A` to `Z` and the rest stays. Which characters the
/// upper case of another character holds is not stated.
#[verifier::external_body]
pub(crate) fn uppercase_char(c: char) -> (r: String)
    ensures
        r@ == upper_of(c),
        is_ascii(c) ==> r@ == seq![upper_char(c)],
{
    c.to_uppercase().collect()
}

/// Whether a character has Unicode's `Alphabetic` property.
pub uninterp spec fn is_alphabetic(c: char) -> bool;

/// `char::is_alphabetic`: whether a character is alphabetic is a function of the character alone.
/// Of the ASCII characters the letters are. Which others are is not stated.
#[verifier::external_body]
pub(crate) fn char_is_alphabetic(c: char) -> (r: bool)
    ensures
        r == is_alphabetic(c),
        is_ascii(c) ==> r == is_ascii_letter(c),
{
    c.is_alphabetic()
}

/// `s` in lower case.
pub open spec fn lower_text(s: Seq<char>) -> Seq<char> {
    if is_ascii_text(s) {
        ascii_lower(s)
    } else {
        lowercase(s)
    }
}

/// The lower case of a character.
pub open spec fn lowered_char(c: char) -> Seq<char> {
    if is_ascii(c) {
        seq![lower_char(c)]
    } else {
        lower_of(c)
    }
}

/// The upper case of a character.
pub open spec fn uppered_char(c: char) -> Seq<char> {
    if is_ascii(c) {
        seq![upper_char(c)]
    } else {
        upper_of(c)
    }
}

/// Whether a character is a letter.
pub open spec fn is_letter(c: char) -> bool {
    if is_ascii(c) {
        is_ascii_letter(c)
    } else {
        is_alphabetic(c)
    }
}

/// The text that a row of bytes stands for, what is not valid UTF-8 replaced.
pub open spec fn lossy_text(bytes: Seq<u8>) -> Seq<char> {
    if valid_utf8(bytes) {
        decode_utf8(bytes)
    } else {
        utf8_lossy(bytes)
    }
}

/// The bytes of a text stand for that text.
pub proof fn encoded_texts_are_read_back(text: Seq<char>)
    ensures
        lossy_text(encode_utf8(text)) == text,
{
    encode_utf8_valid_utf8(text);
    encode_utf8_decode_utf8(text);
}

/// Bytes below 128 stand for the ASCII characters with their numbers.
pub proof fn ascii_bytes_are_their_text(bytes: Seq<u8>)
    requires
        forall|i: int| 0 <= i < bytes.len() ==> #[trigger] bytes[i] < 128,
    ensures
        lossy_text(bytes) == bytes.map_values(|b: u8| b as char),
{
    let text = bytes.map_values(|b: u8| b as char);
    is_ascii_chars_encode_utf8(text);
    assert(encode_utf8(text) =~= bytes) by {
        assert forall|i: int| 0 <= i < bytes.len() implies encode_utf8(text)[i] == bytes[i] by {
            assert(text[i] == bytes[i] as char);
        }
    }
    encoded_texts_are_read_back(text);
}

/// The texts of a list of strings.
pub open spec fn texts(list: Seq<String>) -> Seq<Seq<char>> {
    list.map_values(|s: String| s@)
}

/// The text of an optional string.
pub open spec fn opt_text(value: Option<String>) -> Option<Seq<char>> {
    match value {
        Some(s) => Some(s@),
        None => None,
    }
}

/// The text of an optional string slice.
pub open spec fn opt_str(value: Option<&str>) -> Option<Seq<char>> {
    match value {
        Some(s) => Some(s@),
        None => None,
    }
}

/// The text of either side of a result.
pub open spec fn result_text(value: Result<String, String>) -> Result<Seq<char>, Seq<char>> {
    match value {
        Ok(s) => Ok(s@),
        Err(e) => Err(e@),
    }
}

/// Whether `c` has Unicode's `White_Space` property.
pub open spec fn is_space(c: char) -> bool {
    ||| '\u{9}' <= c <= '\u{d}'
    ||| c == ' '
    ||| c == '\u{85}'
    ||| c == '\u{a0}'
    ||| c == '\u{1680}'
    ||| '\u{2000}' <= c <= '\u{200a}'
    ||| c == '\u{2028}'
    ||| c == '\u{2029}'
    ||| c == '\u{202f}'
    ||| c == '\u{205f}'
    ||| c == '\u{3000}'
}

/// `s` without the white space in front.
pub open spec fn trim_start(s: Seq<char>) -> Seq<char>
    decreases s.len(),
{
    if s.len() > 0 && is_space(s[0]) {
        trim_start(s.drop_first())
    } else {
        s
    }
}

/// `s` without the white space behind.
pub open spec fn trim_end(s: Seq<char>) -> Seq<char>
    decreases s.len(),
{
    if s.len() > 0 && is_space(s.last()) {
        trim_end(s.drop_last())
    } else {
        s
    }
}

/// `s` without the white space at both ends.
pub open spec fn trimmed(s: Seq<char>) -> Seq<char> {
    trim_end(trim_start(s))
}

/// The maximal runs of characters that are not white space, in order.
pub open spec fn words(s: Seq<char>) -> Seq<Seq<char>>
    decreases s.len(),
{
    if s.len() == 0 {
        Seq::empty()
    } else {
        let before = words(s.drop_last());
        if is_space(s.last()) {
            before
        } else if s.len() == 1 || is_space(s[s.len() - 2]) {
            before.push(seq![s.last()])
        } else {
            before.update(before.len() - 1, before.last().push(s.last()))
        }
    }
}

/// The texts one after the other, with `sep` between two neighbours.
pub open spec fn joined(parts: Seq<Seq<char>>, sep: Seq<char>) -> Seq<char>
    decreases parts.len(),
{
    if parts.len() == 0 {
        Seq::empty()
    } else if parts.len() == 1 {
        parts[0]
    } else {
        joined(parts.drop_last(), sep) + sep + parts.last()
    }
}

/// The words of `s` with one space between two neighbours.
pub open spec fn squeezed(s: Seq<char>) -> Seq<char> {
    joined(words(s), " "@)
}

pub open spec fn lower_char(c: char) -> char {
    if 'A' <= c <= 'Z' {
        ((c as u8) + 32) as u8 as char
    } else {
        c
    }
}

pub open spec fn upper_char(c: char) -> char {
    if 'a' <= c <= 'z' {
        ((c as u8) - 32) as u8 as char
    } else {
        c
    }
}

/// `s` with the letters `A` to `Z` in lower case.
pub open spec fn ascii_lower(s: Seq<char>) -> Seq<char> {
    s.map_values(|c: char| lower_char(c))
}

/// `s` with the letters `a` to `z` in upper case.
pub open spec fn ascii_upper(s: Seq<char>) -> Seq<char> {
    s.map_values(|c: char| upper_char(c))
}

pub open spec fn is_ascii(c: char) -> bool {
    c <= '\u{7f}'
}

pub open spec fn is_ascii_text(s: Seq<char>) -> bool {
    forall|i: int| 0 <= i < s.len() ==> is_ascii(#[trigger] s[i])
}

/// Whether `s` holds white space alone.
pub open spec fn is_blank(s: Seq<char>) -> bool {
    forall|i: int| 0 <= i < s.len() ==> is_space(#[trigger] s[i])
}

/// Whether `s` can be a word: it is not empty and holds no white space.
pub open spec fn is_word(s: Seq<char>) -> bool {
    s.len() > 0 && forall|i: int| 0 <= i < s.len() ==> !is_space(#[trigger] s[i])
}

pub open spec fn is_ascii_letter(c: char) -> bool {
    'a' <= c <= 'z' || 'A' <= c <= 'Z'
}

pub open spec fn is_ascii_number(c: char) -> bool {
    '0' <= c <= '9'
}

pub open spec fn is_ascii_hex(c: char) -> bool {
    is_ascii_number(c) || 'a' <= c <= 'f' || 'A' <= c <= 'F'
}

/// Whether `pat` stands in `s` at position `i`.
pub open spec fn occurs_at(s: Seq<char>, pat: Seq<char>, i: int) -> bool {
    0 <= i && i + pat.len() <= s.len() && s.subrange(i, i + pat.len()) == pat
}

/// Whether `pat` stands somewhere in `s`.
pub open spec fn has_text(s: Seq<char>, pat: Seq<char>) -> bool {
    exists|i: int| occurs_at(s, pat, i)
}

/// Whether `s` begins with `pat`.
pub open spec fn begins_with(s: Seq<char>, pat: Seq<char>) -> bool {
    occurs_at(s, pat, 0)
}

/// Whether `s` ends with `pat`.
pub open spec fn ends_with(s: Seq<char>, pat: Seq<char>) -> bool {
    occurs_at(s, pat, s.len() - pat.len())
}

/// Where the last occurrence of `pat` in `s` that begins no later than `upto` begins; -1 for none.
pub open spec fn last_at(s: Seq<char>, pat: Seq<char>, upto: int) -> int
    decreases upto + 1,
{
    if upto < 0 {
        -1
    } else if occurs_at(s, pat, upto) {
        upto
    } else {
        last_at(s, pat, upto - 1)
    }
}

/// `s` with the occurrences of `pat`, taken from the left without overlap, replaced by `to`.
pub open spec fn replaced(s: Seq<char>, pat: Seq<char>, to: Seq<char>) -> Seq<char>
    decreases s.len(),
{
    if pat.len() == 0 || s.len() < pat.len() {
        s
    } else if begins_with(s, pat) {
        to + replaced(s.skip(pat.len() as int), pat, to)
    } else {
        seq![s[0]] + replaced(s.drop_first(), pat, to)
    }
}

/// Whether `a` comes no later than `b` when texts are ordered by their characters, left to right.
pub open spec fn text_le(a: Seq<char>, b: Seq<char>) -> bool
    decreases a.len(),
{
    if a.len() == 0 {
        true
    } else if b.len() == 0 {
        false
    } else if a[0] != b[0] {
        a[0] < b[0]
    } else {
        text_le(a.drop_first(), b.drop_first())
    }
}

/// The decimal numeral of `n`.
pub open spec fn decimal(n: nat) -> Seq<char>
    decreases n,
{
    if n < 10 {
        seq![(48 + n) as u8 as char]
    } else {
        decimal(n / 10).push((48 + n % 10) as u8 as char)
    }
}

/// The numeral of an integer, with a minus sign in front of a negative one.
pub open spec fn signed_decimal(n: int) -> Seq<char> {
    if n < 0 {
        seq!['-'] + decimal((-n) as nat)
    } else {
        decimal(n as nat)
    }
}

/// No text comes before itself.
pub proof fn text_le_reflexive(a: Seq<char>)
    ensures
        text_le(a, a),
    decreases a.len(),
{
    if a.len() > 0 {
        text_le_reflexive(a.drop_first());
    }
}

/// Of two texts one comes no later than the other.
pub proof fn text_le_total(a: Seq<char>, b: Seq<char>)
    ensures
        text_le(a, b) || text_le(b, a),
    decreases a.len(),
{
    if a.len() > 0 && b.len() > 0 && a[0] == b[0] {
        text_le_total(a.drop_first(), b.drop_first());
    }
}

/// The order of texts is transitive.
pub proof fn text_le_transitive(a: Seq<char>, b: Seq<char>, c: Seq<char>)
    requires
        text_le(a, b),
        text_le(b, c),
    ensures
        text_le(a, c),
    decreases a.len(),
{
    if a.len() > 0 && b.len() > 0 && c.len() > 0 && a[0] == b[0] && b[0] == c[0] {
        text_le_transitive(a.drop_first(), b.drop_first(), c.drop_first());
    }
}

/// Two texts that come no later than each other are one text.
pub proof fn text_le_antisymmetric(a: Seq<char>, b: Seq<char>)
    requires
        text_le(a, b),
        text_le(b, a),
    ensures
        a == b,
    decreases a.len(),
{
    if a.len() > 0 && b.len() > 0 {
        text_le_antisymmetric(a.drop_first(), b.drop_first());
        assert(a =~= seq![a[0]] + a.drop_first());
        assert(b =~= seq![b[0]] + b.drop_first());
    } else {
        assert(a =~= b);
    }
}

/// Trimming leaves no white space at either end.
pub proof fn trimmed_has_no_outer_space(s: Seq<char>)
    ensures
        trimmed(s).len() > 0 ==> !is_space(trimmed(s)[0]) && !is_space(trimmed(s).last()),
{
    trim_start_head(s);
    trim_end_keeps_head(trim_start(s));
}

proof fn trim_start_head(s: Seq<char>)
    ensures
        trim_start(s).len() > 0 ==> !is_space(trim_start(s)[0]),
    decreases s.len(),
{
    if s.len() > 0 && is_space(s[0]) {
        trim_start_head(s.drop_first());
    }
}

proof fn trim_end_keeps_head(s: Seq<char>)
    ensures
        trim_end(s).len() > 0 ==> trim_end(s)[0] == s[0] && !is_space(trim_end(s).last()),
        trim_end(s).len() <= s.len(),
    decreases s.len(),
{
    if s.len() > 0 && is_space(s.last()) {
        trim_end_keeps_head(s.drop_last());
    }
}

/// Trimming a trimmed text changes nothing.
pub proof fn trimmed_is_idempotent(s: Seq<char>)
    ensures
        trimmed(trimmed(s)) == trimmed(s),
{
    trimmed_has_no_outer_space(s);
}

/// Lower case does not tell upper case from lower case.
pub proof fn lowering_forgets_case(s: Seq<char>)
    ensures
        ascii_lower(ascii_upper(s)) == ascii_lower(s),
        ascii_lower(ascii_lower(s)) == ascii_lower(s),
        ascii_upper(ascii_upper(s)) == ascii_upper(s),
{
    assert(ascii_lower(ascii_upper(s)) =~= ascii_lower(s));
    assert(ascii_lower(ascii_lower(s)) =~= ascii_lower(s));
    assert(ascii_upper(ascii_upper(s)) =~= ascii_upper(s));
}

proof fn trim_start_skips(front: Seq<char>, s: Seq<char>)
    requires
        is_blank(front),
    ensures
        trim_start(front + s) == trim_start(s),
    decreases front.len(),
{
    if front.len() > 0 {
        assert((front + s)[0] == front[0]);
        assert((front + s).drop_first() =~= front.drop_first() + s);
        trim_start_skips(front.drop_first(), s);
    } else {
        assert(front + s =~= s);
    }
}

proof fn trim_end_skips(s: Seq<char>, back: Seq<char>)
    requires
        is_blank(back),
    ensures
        trim_end(s + back) == trim_end(s),
    decreases back.len(),
{
    if back.len() > 0 {
        assert((s + back).last() == back.last());
        assert((s + back).drop_last() =~= s + back.drop_last());
        trim_end_skips(s, back.drop_last());
    } else {
        assert(s + back =~= s);
    }
}

proof fn trim_start_reaches_past(s: Seq<char>, back: Seq<char>)
    ensures
        trim_start(s + back) == (if is_blank(s) {
            trim_start(back)
        } else {
            trim_start(s) + back
        }),
    decreases s.len(),
{
    if is_blank(s) {
        trim_start_skips(s, back);
    } else if is_space(s[0]) {
        assert((s + back).drop_first() =~= s.drop_first() + back);
        assert(!is_blank(s.drop_first())) by {
            let i = choose|i: int| 0 <= i < s.len() && !is_space(#[trigger] s[i]);
            assert(s.drop_first()[i - 1] == s[i]);
        }
        trim_start_reaches_past(s.drop_first(), back);
    } else {
        assert((s + back)[0] == s[0]);
    }
}

/// A text of white space alone trims to nothing, and no other text does.
pub proof fn blank_texts_trim_to_nothing(s: Seq<char>)
    ensures
        is_blank(s) == (trimmed(s).len() == 0),
{
    if is_blank(s) {
        trim_start_skips(s, Seq::empty());
        assert(s + Seq::<char>::empty() =~= s);
    } else {
        assert(s + Seq::<char>::empty() =~= s);
        let i = choose|i: int| 0 <= i < s.len() && !is_space(#[trigger] s[i]);
        trim_start_keeps(s, i);
        let t = trim_start(s);
        trim_start_head(s);
        trim_end_keeps(t);
    }
}

proof fn trim_start_keeps(s: Seq<char>, i: int)
    requires
        0 <= i < s.len(),
        !is_space(s[i]),
    ensures
        trim_start(s).len() > 0,
    decreases s.len(),
{
    if is_space(s[0]) {
        assert(s.drop_first()[i - 1] == s[i]);
        trim_start_keeps(s.drop_first(), i - 1);
    }
}

proof fn trim_end_keeps(s: Seq<char>)
    requires
        s.len() > 0,
        !is_space(s[0]),
    ensures
        trim_end(s).len() > 0,
    decreases s.len(),
{
    if is_space(s.last()) {
        assert(s.drop_last()[0] == s[0]);
        trim_end_keeps(s.drop_last());
    }
}

/// White space around a text does not change what is left when it is trimmed.
pub proof fn trimming_ignores_outer_space(front: Seq<char>, s: Seq<char>, back: Seq<char>)
    requires
        is_blank(front),
        is_blank(back),
    ensures
        trimmed(front + s + back) == trimmed(s),
{
    assert(front + s + back =~= front + (s + back));
    trim_start_skips(front, s + back);
    trim_start_reaches_past(s, back);
    if is_blank(s) {
        blank_texts_trim_to_nothing(s);
        blank_texts_trim_to_nothing(back);
        assert(trimmed(s) =~= trimmed(back));
    } else {
        trim_end_skips(trim_start(s), back);
    }
}

proof fn trim_start_in_upper_case(s: Seq<char>)
    ensures
        trim_start(ascii_upper(s)) == ascii_upper(trim_start(s)),
    decreases s.len(),
{
    if s.len() > 0 {
        assert(ascii_upper(s)[0] == upper_char(s[0]));
        assert(ascii_upper(s).drop_first() =~= ascii_upper(s.drop_first()));
        trim_start_in_upper_case(s.drop_first());
    }
}

proof fn trim_end_in_upper_case(s: Seq<char>)
    ensures
        trim_end(ascii_upper(s)) == ascii_upper(trim_end(s)),
    decreases s.len(),
{
    if s.len() > 0 {
        assert(ascii_upper(s).last() == upper_char(s.last()));
        assert(ascii_upper(s).drop_last() =~= ascii_upper(s.drop_last()));
        trim_end_in_upper_case(s.drop_last());
    }
}

/// Trimming and upper case can be done in either order.
pub proof fn trimming_keeps_upper_case(s: Seq<char>)
    ensures
        trimmed(ascii_upper(s)) == ascii_upper(trimmed(s)),
{
    trim_start_in_upper_case(s);
    trim_end_in_upper_case(trim_start(s));
}

/// What is left of a text of ASCII characters when it is trimmed is one, too.
pub proof fn trimming_keeps_ascii(s: Seq<char>)
    requires
        is_ascii_text(s),
    ensures
        is_ascii_text(trimmed(s)),
{
    trim_start_keeps_ascii(s);
    trim_end_keeps_ascii(trim_start(s));
}

proof fn trim_start_keeps_ascii(s: Seq<char>)
    requires
        is_ascii_text(s),
    ensures
        is_ascii_text(trim_start(s)),
    decreases s.len(),
{
    if s.len() > 0 && is_space(s[0]) {
        trim_start_keeps_ascii(s.drop_first());
    }
}

proof fn trim_end_keeps_ascii(s: Seq<char>)
    requires
        is_ascii_text(s),
    ensures
        is_ascii_text(trim_end(s)),
    decreases s.len(),
{
    if s.len() > 0 && is_space(s.last()) {
        trim_end_keeps_ascii(s.drop_last());
    }
}

proof fn words_after_space(s: Seq<char>, w: Seq<char>)
    requires
        s.len() == 0 || is_space(s.last()),
        is_word(w),
    ensures
        words(s + w) == words(s).push(w),
    decreases w.len(),
{
    let t = s + w;
    assert(t.last() == w.last());
    if w.len() == 1 {
        assert(t.drop_last() =~= s);
        assert(seq![w.last()] =~= w);
    } else {
        let front = w.drop_last();
        assert(t.drop_last() =~= s + front);
        assert(is_word(front));
        words_after_space(s, front);
        assert(t[t.len() - 2] == w[w.len() - 2]);
        assert(front.push(w.last()) =~= w);
        assert(words(t) =~= words(s).push(w));
    }
}

/// Words with one space between two neighbours are the words of the text that they make.
pub proof fn words_of_joined_words(list: Seq<Seq<char>>)
    requires
        forall|i: int| 0 <= i < list.len() ==> is_word(#[trigger] list[i]),
    ensures
        words(joined(list, " "@)) == list,
    decreases list.len(),
{
    reveal_strlit(" ");
    if list.len() == 0 {
        assert(words(joined(list, " "@)) =~= list);
    } else if list.len() == 1 {
        words_after_space(Seq::empty(), list[0]);
        assert(Seq::<char>::empty() + list[0] =~= list[0]);
        assert(words(joined(list, " "@)) =~= list);
    } else {
        let front = list.drop_last();
        words_of_joined_words(front);
        let before = joined(front, " "@) + " "@;
        assert(before.last() == ' ');
        assert(before.drop_last() =~= joined(front, " "@));
        words_after_space(before, list.last());
        assert(front.push(list.last()) =~= list);
    }
}

/// A text has no words where it holds white space alone, and nowhere else.
pub proof fn blank_texts_have_no_words(s: Seq<char>)
    ensures
        is_blank(s) == (words(s).len() == 0),
    decreases s.len(),
{
    if s.len() > 0 {
        let front = s.drop_last();
        blank_texts_have_no_words(front);
        if is_blank(s) {
            assert(is_space(s[s.len() - 1]));
            assert(is_blank(front));
        } else if is_space(s.last()) {
            let i = choose|i: int| 0 <= i < s.len() && !is_space(#[trigger] s[i]);
            assert(front[i] == s[i]);
        } else {
            words_are_solid(s);
        }
    }
}

/// The words of a text of ASCII characters are such texts, too.
pub proof fn words_keep_ascii(s: Seq<char>)
    requires
        is_ascii_text(s),
    ensures
        forall|i: int| 0 <= i < words(s).len() ==> is_ascii_text(#[trigger] words(s)[i]),
    decreases s.len(),
{
    if s.len() > 0 {
        words_keep_ascii(s.drop_last());
        words_are_solid(s.drop_last());
        let before = words(s.drop_last());
        assert(is_ascii(s.last()));
        assert forall|i: int| 0 <= i < words(s).len() implies is_ascii_text(
            #[trigger] words(s)[i],
        ) by {
            if i < before.len() {
                assert(is_ascii_text(before[i]));
            }
        }
    }
}

/// The words of a text in upper case are its words in upper case.
pub proof fn words_in_upper_case(s: Seq<char>)
    ensures
        words(ascii_upper(s)) == words(s).map_values(|word: Seq<char>| ascii_upper(word)),
    decreases s.len(),
{
    if s.len() > 0 {
        let front = s.drop_last();
        words_in_upper_case(front);
        words_are_solid(front);
        assert(ascii_upper(s).drop_last() =~= ascii_upper(front));
        assert(ascii_upper(s).last() == upper_char(s.last()));
        if s.len() > 1 {
            assert(front.last() == s[s.len() - 2]);
            assert(ascii_upper(s)[s.len() - 2] == upper_char(s[s.len() - 2]));
        }
        let before = words(front);
        if !is_space(s.last()) {
            if s.len() == 1 || is_space(s[s.len() - 2]) {
                assert(ascii_upper(seq![s.last()]) =~= seq![upper_char(s.last())]);
            } else {
                assert(ascii_upper(before.last().push(s.last())) =~= ascii_upper(
                    before.last(),
                ).push(upper_char(s.last())));
            }
        }
    }
    assert(words(ascii_upper(s)) =~= words(s).map_values(|word: Seq<char>| ascii_upper(word)));
}

/// Trimming a text does not change its words.
pub proof fn trimming_keeps_words(s: Seq<char>)
    ensures
        words(trimmed(s)) == words(s),
{
    leading_space_keeps_words(s);
    trailing_space_keeps_words(trim_start(s));
}

proof fn leading_space_keeps_words(s: Seq<char>)
    ensures
        words(trim_start(s)) == words(s),
    decreases s.len(),
{
    if s.len() > 0 && is_space(s[0]) {
        leading_space_keeps_words(s.drop_first());
        first_space_keeps_words(s);
    }
}

proof fn first_space_keeps_words(s: Seq<char>)
    requires
        s.len() > 0,
        is_space(s[0]),
    ensures
        words(s.drop_first()) == words(s),
    decreases s.len(),
{
    let t = s.drop_first();
    if s.len() == 1 {
        assert(s.last() == s[0]);
        assert(s.drop_last() =~= t);
    } else {
        first_space_keeps_words(s.drop_last());
        assert(s.drop_last().drop_first() =~= t.drop_last());
        assert(t.last() == s.last());
        if s.len() > 2 {
            assert(t[t.len() - 2] == s[s.len() - 2]);
        }
    }
}

proof fn trailing_space_keeps_words(s: Seq<char>)
    ensures
        words(trim_end(s)) == words(s),
    decreases s.len(),
{
    if s.len() > 0 && is_space(s.last()) {
        trailing_space_keeps_words(s.drop_last());
    }
}

/// Joined words are lower case word by word.
pub proof fn joined_words_in_lower_case(list: Seq<Seq<char>>)
    ensures
        ascii_lower(joined(list, " "@)) == joined(
            list.map_values(|word: Seq<char>| ascii_lower(word)),
            " "@,
        ),
    decreases list.len(),
{
    reveal_strlit(" ");
    let low = list.map_values(|word: Seq<char>| ascii_lower(word));
    if list.len() == 0 {
        assert(ascii_lower(joined(list, " "@)) =~= joined(low, " "@));
    } else if list.len() > 1 {
        let front = list.drop_last();
        joined_words_in_lower_case(front);
        assert(low.drop_last() =~= front.map_values(|word: Seq<char>| ascii_lower(word)));
        assert(ascii_lower(joined(list, " "@)) =~= joined(low, " "@));
    }
}

/// A pattern without spaces stands in two texts with a space between them where it stands in one
/// of the two.
pub proof fn patterns_stand_on_one_side(s: Seq<char>, t: Seq<char>, pat: Seq<char>)
    requires
        pat.len() > 0,
        !pat.contains(' '),
    ensures
        has_text(s + " "@ + t, pat) == (has_text(s, pat) || has_text(t, pat)),
{
    reveal_strlit(" ");
    let all = s + " "@ + t;
    assert(all[s.len() as int] == ' ');
    if has_text(all, pat) {
        let i = choose|i: int| occurs_at(all, pat, i);
        let end = i + pat.len();
        if i <= s.len() < end {
            assert(all.subrange(i, end)[s.len() - i] == all[s.len() as int]);
            assert(pat.contains(pat[s.len() - i]));
        } else if end <= s.len() {
            assert(s.subrange(i, end) =~= all.subrange(i, end));
            assert(occurs_at(s, pat, i));
        } else {
            let j = i - s.len() - 1;
            assert(t.subrange(j, j + pat.len()) =~= all.subrange(i, end));
            assert(occurs_at(t, pat, j));
        }
    }
    if has_text(s, pat) {
        let i = choose|i: int| occurs_at(s, pat, i);
        assert(all.subrange(i, i + pat.len()) =~= s.subrange(i, i + pat.len()));
        assert(occurs_at(all, pat, i));
    }
    if has_text(t, pat) {
        let j = choose|j: int| occurs_at(t, pat, j);
        let i = j + s.len() + 1;
        assert(all.subrange(i, i + pat.len()) =~= t.subrange(j, j + pat.len()));
        assert(occurs_at(all, pat, i));
    }
}

/// A word is never empty and holds no white space.
pub proof fn words_are_solid(s: Seq<char>)
    ensures
        forall|i: int| 0 <= i < words(s).len() ==> (#[trigger] words(s)[i]).len() > 0,
        forall|i: int, j: int|
            0 <= i < words(s).len() && 0 <= j < words(s)[i].len() ==> !is_space(
                #[trigger] words(s)[i][j],
            ),
        s.len() > 0 && !is_space(s.last()) ==> words(s).len() > 0,
    decreases s.len(),
{
    if s.len() > 0 {
        let before = words(s.drop_last());
        words_are_solid(s.drop_last());
        if s.len() > 1 {
            assert(s.drop_last().last() == s[s.len() - 2]);
        }
        assert forall|i: int| 0 <= i < words(s).len() implies (#[trigger] words(s)[i]).len() > 0
            && forall|j: int| 0 <= j < words(s)[i].len() ==> !is_space(#[trigger] words(s)[i][j]) by {
            if i < before.len() {
                assert(before[i].len() > 0);
                assert forall|j: int| 0 <= j < words(s)[i].len() implies !is_space(
                    #[trigger] words(s)[i][j],
                ) by {
                    if j < before[i].len() {
                        assert(!is_space(before[i][j]));
                    }
                }
            }
        }
    }
}

pub fn char_is_space(c: char) -> (r: bool)
    ensures
        r == is_space(c),
{
    ('\u{9}' <= c && c <= '\u{d}') || c == ' ' || c == '\u{85}' || c == '\u{a0}' || c == '\u{1680}'
        || ('\u{2000}' <= c && c <= '\u{200a}') || c == '\u{2028}' || c == '\u{2029}'
        || c == '\u{202f}' || c == '\u{205f}' || c == '\u{3000}'
}

/// The characters of a string, in order.
pub fn chars_of(s: &str) -> (r: Vec<char>)
    ensures
        r@ == s@,
{
    let mut out: Vec<char> = Vec::new();
    for c in it: s.chars()
        invariant
            it.seq() == s@,
            out@ == s@.take(it.index() as int),
    {
        out.push(c);
        assert(s@.take(it.index() as int + 1) =~= s@.take(it.index() as int).push(c));
    }
    assert(s@.take(s@.len() as int) =~= s@);
    out
}

/// The string made of the characters from `from` up to, not including, `to`.
pub fn string_of(chars: &Vec<char>, from: usize, to: usize) -> (r: String)
    requires
        from <= to <= chars@.len(),
    ensures
        r@ == chars@.subrange(from as int, to as int),
{
    let mut out = String::new();
    let mut i: usize = from;
    assert(chars@.subrange(from as int, from as int) =~= Seq::<char>::empty());
    while i < to
        invariant
            from <= i <= to <= chars@.len(),
            out@ == chars@.subrange(from as int, i as int),
        decreases to - i,
    {
        out.push(chars[i]);
        assert(chars@.subrange(from as int, i as int + 1) =~= chars@.subrange(
            from as int,
            i as int,
        ).push(chars@[i as int]));
        i = i + 1;
    }
    out
}

/// Puts `tail` behind `s`.
pub fn push_text(s: &mut String, tail: &str)
    ensures
        final(s)@ == old(s)@ + tail@,
{
    let ghost start = s@;
    for c in it: tail.chars()
        invariant
            it.seq() == tail@,
            s@ == start + tail@.take(it.index() as int),
    {
        s.push(c);
        assert(start + tail@.take(it.index() as int + 1) =~= (start + tail@.take(
            it.index() as int,
        )).push(c));
    }
    assert(tail@.take(tail@.len() as int) =~= tail@);
}

pub fn concat2(a: &str, b: &str) -> (r: String)
    ensures
        r@ == a@ + b@,
{
    let mut out = a.to_owned();
    push_text(&mut out, b);
    out
}

pub fn concat3(a: &str, b: &str, c: &str) -> (r: String)
    ensures
        r@ == a@ + b@ + c@,
{
    let mut out = concat2(a, b);
    push_text(&mut out, c);
    out
}

pub fn concat4(a: &str, b: &str, c: &str, d: &str) -> (r: String)
    ensures
        r@ == a@ + b@ + c@ + d@,
{
    let mut out = concat3(a, b, c);
    push_text(&mut out, d);
    out
}

pub fn concat5(a: &str, b: &str, c: &str, d: &str, e: &str) -> (r: String)
    ensures
        r@ == a@ + b@ + c@ + d@ + e@,
{
    let mut out = concat4(a, b, c, d);
    push_text(&mut out, e);
    out
}

/// Whether two texts are the same.
pub fn same(a: &str, b: &str) -> (r: bool)
    ensures
        r == (a@ == b@),
{
    a.to_owned() == b.to_owned()
}

/// Whether an optional text is present and equal to `b`.
pub fn opt_is(a: Option<&str>, b: &str) -> (r: bool)
    ensures
        r == (opt_str(a) == Some(b@)),
{
    match a {
        Some(s) => same(s, b),
        None => false,
    }
}

/// Whether two optional texts are the same.
pub fn same_opt(a: &Option<String>, b: &Option<String>) -> (r: bool)
    ensures
        r == (opt_text(*a) == opt_text(*b)),
{
    match (a, b) {
        (Some(x), Some(y)) => same(x, y),
        (None, None) => true,
        _ => false,
    }
}

/// The text of an optional string, or no text.
pub open spec fn text_or_empty(value: Option<String>) -> Seq<char> {
    match value {
        Some(s) => s@,
        None => Seq::empty(),
    }
}

pub fn or_empty(value: &Option<String>) -> (r: String)
    ensures
        r@ == text_or_empty(*value),
{
    match value {
        Some(s) => s.clone(),
        None => String::new(),
    }
}

/// Copies an optional text.
pub fn copy_opt(a: &Option<String>) -> (r: Option<String>)
    ensures
        opt_text(r) == opt_text(*a),
        r == *a,
{
    match a {
        Some(s) => Some(s.clone()),
        None => None,
    }
}

/// Copies a list of texts.
pub fn copy_list(list: &Vec<String>) -> (r: Vec<String>)
    ensures
        r@ == list@,
{
    let mut out: Vec<String> = Vec::new();
    let mut i: usize = 0;
    while i < list.len()
        invariant
            i <= list@.len(),
            out@ =~= list@.take(i as int),
        decreases list@.len() - i,
    {
        out.push(list[i].clone());
        i = i + 1;
    }
    out
}

/// Whether `item` stands in `list`.
pub fn list_has(list: &Vec<String>, item: &str) -> (r: bool)
    ensures
        r == texts(list@).contains(item@),
{
    let mut i: usize = 0;
    while i < list.len()
        invariant
            i <= list@.len(),
            forall|k: int| 0 <= k < i ==> texts(list@)[k] != item@,
        decreases list@.len() - i,
    {
        if same(&list[i], item) {
            assert(texts(list@)[i as int] == item@);
            return true;
        }
        i = i + 1;
    }
    false
}

/// Whether two lists hold the same texts in the same order.
pub fn same_list(a: &Vec<String>, b: &Vec<String>) -> (r: bool)
    ensures
        r == (texts(a@) == texts(b@)),
{
    if a.len() != b.len() {
        assert(texts(a@).len() != texts(b@).len());
        return false;
    }
    let mut i: usize = 0;
    while i < a.len()
        invariant
            i <= a@.len(),
            a@.len() == b@.len(),
            forall|k: int| 0 <= k < i ==> texts(a@)[k] == texts(b@)[k],
        decreases a@.len() - i,
    {
        if !same(&a[i], &b[i]) {
            assert(texts(a@)[i as int] != texts(b@)[i as int]);
            return false;
        }
        i = i + 1;
    }
    assert(texts(a@) =~= texts(b@));
    true
}

/// The text without the white space at both ends.
pub fn trim(s: &str) -> (r: String)
    ensures
        r@ == trimmed(s@),
{
    let chars = chars_of(s);
    let n: usize = chars.len();
    let mut from: usize = 0;
    assert(s@.skip(0) =~= s@);
    while from < n && char_is_space(chars[from])
        invariant
            chars@ == s@,
            n == s@.len(),
            from <= n,
            trim_start(s@) == trim_start(s@.skip(from as int)),
        decreases n - from,
    {
        assert(s@.skip(from as int).drop_first() =~= s@.skip(from as int + 1));
        from = from + 1;
    }
    assert(trim_start(s@) == s@.skip(from as int));
    let mut to: usize = n;
    assert(s@.subrange(from as int, n as int) =~= s@.skip(from as int));
    while from < to && char_is_space(chars[to - 1])
        invariant
            chars@ == s@,
            n == s@.len(),
            from <= to <= n,
            trimmed(s@) == trim_end(s@.subrange(from as int, to as int)),
        decreases to - from,
    {
        assert(s@.subrange(from as int, to as int).drop_last() =~= s@.subrange(
            from as int,
            to as int - 1,
        ));
        to = to - 1;
    }
    string_of(&chars, from, to)
}

/// The trimmed text where anything is left of it.
pub fn non_empty(value: &str) -> (r: Option<String>)
    ensures
        opt_text(r) == (if trimmed(value@).len() > 0 {
            Some(trimmed(value@))
        } else {
            None
        }),
{
    let value = trim(value);
    if value.as_str().is_empty() {
        None
    } else {
        Some(value)
    }
}

/// The words of a text.
pub fn split_words(s: &str) -> (r: Vec<String>)
    ensures
        texts(r@) == words(s@),
{
    let chars = chars_of(s);
    let mut out: Vec<String> = Vec::new();
    let mut current = String::new();
    let mut i: usize = 0;
    assert(s@.take(0) =~= Seq::<char>::empty());
    while i < chars.len()
        invariant
            chars@ == s@,
            i <= s@.len(),
            current@.len() > 0 <==> i > 0 && !is_space(s@[i as int - 1]),
            words(s@.take(i as int)) == (if current@.len() > 0 {
                texts(out@).push(current@)
            } else {
                texts(out@)
            }),
        decreases s@.len() - i,
    {
        let c = chars[i];
        proof {
            let next = s@.take(i as int + 1);
            assert(next.drop_last() =~= s@.take(i as int));
            assert(next.last() == c);
            if i > 0 {
                assert(next[next.len() - 2] == s@[i as int - 1]);
            }
        }
        if char_is_space(c) {
            if !current.as_str().is_empty() {
                assert(texts(out@.push(current)) =~= texts(out@).push(current@));
                out.push(current);
                current = String::new();
            }
        } else {
            let ghost before = current@;
            current.push(c);
            proof {
                if before.len() == 0 {
                    assert(current@ =~= seq![c]);
                } else {
                    let ws = texts(out@).push(before);
                    assert(ws.update(ws.len() - 1, ws.last().push(c)) =~= texts(out@).push(
                        current@,
                    ));
                }
            }
        }
        i = i + 1;
    }
    assert(s@.take(s@.len() as int) =~= s@);
    if !current.as_str().is_empty() {
        assert(texts(out@.push(current)) =~= texts(out@).push(current@));
        out.push(current);
    }
    out
}

/// The texts one after the other, with `sep` between two neighbours.
pub fn join(parts: &Vec<String>, sep: &str) -> (r: String)
    ensures
        r@ == joined(texts(parts@), sep@),
{
    let mut out = String::new();
    let mut i: usize = 0;
    assert(texts(parts@).take(0) =~= Seq::<Seq<char>>::empty());
    while i < parts.len()
        invariant
            i <= parts@.len(),
            out@ == joined(texts(parts@).take(i as int), sep@),
        decreases parts@.len() - i,
    {
        proof {
            let next = texts(parts@).take(i as int + 1);
            assert(next.drop_last() =~= texts(parts@).take(i as int));
            assert(next.last() == parts@[i as int]@);
        }
        if i > 0 {
            push_text(&mut out, sep);
        } else {
            assert(out@ =~= Seq::<char>::empty());
            assert(Seq::<char>::empty() + parts@[0]@ =~= parts@[0]@);
        }
        push_text(&mut out, &parts[i]);
        i = i + 1;
    }
    assert(texts(parts@).take(parts@.len() as int) =~= texts(parts@));
    out
}

/// The words of a text with one space between two neighbours.
pub fn squeeze(s: &str) -> (r: String)
    ensures
        r@ == squeezed(s@),
{
    let parts = split_words(s);
    join(&parts, " ")
}

pub fn to_ascii_lower(s: &str) -> (r: String)
    ensures
        r@ == ascii_lower(s@),
{
    let mut out = String::new();
    for c in it: s.chars()
        invariant
            it.seq() == s@,
            out@ =~= ascii_lower(s@.take(it.index() as int)),
    {
        let l: char = if 'A' <= c && c <= 'Z' {
            ((c as u8) + 32) as char
        } else {
            c
        };
        out.push(l);
        assert(s@.take(it.index() as int + 1) =~= s@.take(it.index() as int).push(c));
    }
    assert(s@.take(s@.len() as int) =~= s@);
    out
}

pub fn to_ascii_upper(s: &str) -> (r: String)
    ensures
        r@ == ascii_upper(s@),
{
    let mut out = String::new();
    for c in it: s.chars()
        invariant
            it.seq() == s@,
            out@ =~= ascii_upper(s@.take(it.index() as int)),
    {
        let u: char = if 'a' <= c && c <= 'z' {
            ((c as u8) - 32) as char
        } else {
            c
        };
        out.push(u);
        assert(s@.take(it.index() as int + 1) =~= s@.take(it.index() as int).push(c));
    }
    assert(s@.take(s@.len() as int) =~= s@);
    out
}

/// Whether `pat` stands in `s` at position `at`.
pub fn matches_at(s: &Vec<char>, pat: &Vec<char>, at: usize) -> (r: bool)
    ensures
        r == occurs_at(s@, pat@, at as int),
{
    let n: usize = s.len();
    let m: usize = pat.len();
    if at > n || m > n - at {
        return false;
    }
    let mut k: usize = 0;
    while k < m
        invariant
            n == s@.len(),
            m == pat@.len(),
            k <= m,
            at + m <= n,
            forall|j: int| 0 <= j < k ==> s@[at + j] == pat@[j],
        decreases m - k,
    {
        if s[at + k] != pat[k] {
            assert(s@.subrange(at as int, at + pat@.len())[k as int] != pat@[k as int]);
            return false;
        }
        k = k + 1;
    }
    assert(s@.subrange(at as int, at + pat@.len()) =~= pat@);
    true
}

/// Whether `s` begins with `pat`.
pub fn starts_with(s: &str, pat: &str) -> (r: bool)
    ensures
        r == begins_with(s@, pat@),
{
    let s = chars_of(s);
    let pat = chars_of(pat);
    matches_at(&s, &pat, 0)
}

/// What follows `pat` where `s` begins with it.
pub fn strip_prefix(s: &str, pat: &str) -> (r: Option<String>)
    ensures
        opt_text(r) == (if begins_with(s@, pat@) {
            Some(s@.skip(pat@.len() as int))
        } else {
            None
        }),
{
    let s = chars_of(s);
    let pat = chars_of(pat);
    if matches_at(&s, &pat, 0) {
        assert(s@.skip(pat@.len() as int) =~= s@.subrange(pat@.len() as int, s@.len() as int));
        Some(string_of(&s, pat.len(), s.len()))
    } else {
        None
    }
}

/// Whether `pat` stands somewhere in `s`.
pub fn contains(s: &str, pat: &str) -> (r: bool)
    ensures
        r == has_text(s@, pat@),
{
    let sc = chars_of(s);
    let pc = chars_of(pat);
    let n: usize = sc.len();
    let mut i: usize = 0;
    while i < n
        invariant
            n == s@.len(),
            sc@ == s@,
            pc@ == pat@,
            i <= n,
            forall|j: int| 0 <= j < i ==> !occurs_at(s@, pat@, j),
        decreases n - i,
    {
        if matches_at(&sc, &pc, i) {
            assert(occurs_at(s@, pat@, i as int));
            return true;
        }
        i = i + 1;
    }
    matches_at(&sc, &pc, n)
}

/// Where the first `c` stands in `s`.
pub fn find_char(s: &Vec<char>, c: char) -> (r: Option<usize>)
    ensures
        match r {
            Some(i) => i < s@.len() && s@[i as int] == c && forall|j: int|
                0 <= j < i ==> s@[j] != c,
            None => !s@.contains(c),
        },
{
    let mut i: usize = 0;
    while i < s.len()
        invariant
            i <= s@.len(),
            forall|j: int| 0 <= j < i ==> s@[j] != c,
        decreases s@.len() - i,
    {
        if s[i] == c {
            return Some(i);
        }
        i = i + 1;
    }
    None
}

/// Where the last occurrence of `pat` in `s` begins.
pub fn rfind(s: &Vec<char>, pat: &Vec<char>) -> (r: Option<usize>)
    ensures
        match r {
            Some(i) => i == last_at(s@, pat@, s@.len() as int) && i + pat@.len() <= s@.len(),
            None => last_at(s@, pat@, s@.len() as int) == -1,
        },
{
    let mut i: usize = s.len();
    loop
        invariant
            i <= s@.len(),
            last_at(s@, pat@, s@.len() as int) == last_at(s@, pat@, i as int),
        decreases i,
    {
        if matches_at(s, pat, i) {
            return Some(i);
        }
        if i == 0 {
            assert(last_at(s@, pat@, -1) == -1);
            return None;
        }
        i = i - 1;
    }
}

/// `s` with the occurrences of `pat` replaced by `to`.
pub fn replace(s: &str, pat: &str, to: &str) -> (r: String)
    requires
        pat@.len() > 0,
    ensures
        r@ == replaced(s@, pat@, to@),
{
    let sc = chars_of(s);
    let pc = chars_of(pat);
    let n: usize = sc.len();
    let m: usize = pc.len();
    let mut out = String::new();
    let mut i: usize = 0;
    assert(s@.skip(0) =~= s@);
    assert(Seq::<char>::empty() + replaced(s@, pat@, to@) =~= replaced(s@, pat@, to@));
    while i < n
        invariant
            sc@ == s@,
            pc@ == pat@,
            n == s@.len(),
            m == pat@.len(),
            m > 0,
            i <= n,
            out@ + replaced(s@.skip(i as int), pat@, to@) == replaced(s@, pat@, to@),
        decreases n - i,
    {
        let ghost rest = s@.skip(i as int);
        let ghost before = out@;
        let hit = matches_at(&sc, &pc, i);
        proof {
            if i + m <= n {
                assert(rest.subrange(0, m as int) =~= s@.subrange(i as int, i as int + m));
            }
            assert(hit == begins_with(rest, pat@));
        }
        if hit {
            push_text(&mut out, to);
            assert(rest.skip(m as int) =~= s@.skip(i as int + m));
            assert(out@ + replaced(rest.skip(m as int), pat@, to@) =~= before + (to@ + replaced(
                rest.skip(m as int),
                pat@,
                to@,
            )));
            i = i + m;
        } else {
            out.push(sc[i]);
            proof {
                assert(rest.drop_first() =~= s@.skip(i as int + 1));
                if rest.len() < pat@.len() {
                    assert(replaced(rest, pat@, to@) == rest);
                    assert(replaced(rest.drop_first(), pat@, to@) == rest.drop_first());
                    assert(seq![rest[0]] + rest.drop_first() =~= rest);
                }
                assert(out@ + replaced(rest.drop_first(), pat@, to@) =~= before + (seq![rest[0]]
                    + replaced(rest.drop_first(), pat@, to@)));
            }
            i = i + 1;
        }
    }
    assert(out@ + s@.skip(n as int) =~= out@);
    out
}

/// Whether `a` comes no later than `b`.
pub fn not_after(a: &str, b: &str) -> (r: bool)
    ensures
        r == text_le(a@, b@),
{
    let ac = chars_of(a);
    let bc = chars_of(b);
    let mut i: usize = 0;
    assert(a@.skip(0) =~= a@);
    assert(b@.skip(0) =~= b@);
    while i < ac.len()
        invariant
            ac@ == a@,
            bc@ == b@,
            i <= a@.len(),
            i <= b@.len(),
            text_le(a@, b@) == text_le(a@.skip(i as int), b@.skip(i as int)),
        decreases a@.len() - i,
    {
        if i >= bc.len() {
            return false;
        }
        if ac[i] != bc[i] {
            return ac[i] < bc[i];
        }
        assert(a@.skip(i as int).drop_first() =~= a@.skip(i as int + 1));
        assert(b@.skip(i as int).drop_first() =~= b@.skip(i as int + 1));
        i = i + 1;
    }
    true
}

/// The decimal numeral of `n`.
pub fn numeral(n: u64) -> (r: String)
    ensures
        r@ == decimal(n as nat),
    decreases n,
{
    let digit: char = (48 + (n % 10) as u8) as char;
    let mut out = if n < 10 {
        String::new()
    } else {
        numeral(n / 10)
    };
    out.push(digit);
    proof {
        if n < 10 {
            assert(out@ =~= decimal(n as nat));
        }
    }
    out
}

/// The number that a row of digits stands for.
pub open spec fn digits_value(s: Seq<char>) -> nat
    decreases s.len(),
{
    if s.len() == 0 {
        0
    } else {
        10 * digits_value(s.drop_last()) + ((s.last() as u8) - 48) as nat
    }
}

/// The pieces of `s` between the separators.
pub open spec fn pieces(s: Seq<char>, sep: char) -> Seq<Seq<char>>
    decreases s.len(),
{
    if s.len() == 0 {
        seq![Seq::empty()]
    } else {
        let before = pieces(s.drop_last(), sep);
        if s.last() == sep {
            before.push(Seq::empty())
        } else {
            before.update(before.len() - 1, before.last().push(s.last()))
        }
    }
}

/// The pieces of a text between the separators.
pub fn split_pieces(s: &str, sep: char) -> (r: Vec<String>)
    ensures
        texts(r@) == pieces(s@, sep),
{
    let chars = chars_of(s);
    let mut out: Vec<String> = Vec::new();
    let mut current = String::new();
    let mut i: usize = 0;
    assert(s@.take(0) =~= Seq::<char>::empty());
    assert(texts(out@).push(current@) =~= seq![Seq::<char>::empty()]);
    while i < chars.len()
        invariant
            chars@ == s@,
            i <= s@.len(),
            pieces(s@.take(i as int), sep) == texts(out@).push(current@),
        decreases s@.len() - i,
    {
        let c = chars[i];
        let ghost before = pieces(s@.take(i as int), sep);
        proof {
            let next = s@.take(i as int + 1);
            assert(next.drop_last() =~= s@.take(i as int));
            assert(next.last() == c);
        }
        if c == sep {
            assert(texts(out@.push(current)) =~= texts(out@).push(current@));
            out.push(current);
            current = String::new();
            assert(pieces(s@.take(i as int + 1), sep) =~= texts(out@).push(current@));
        } else {
            let ghost old_piece = current@;
            current.push(c);
            assert(before.last() == old_piece);
            assert(pieces(s@.take(i as int + 1), sep) =~= texts(out@).push(current@));
        }
        i = i + 1;
    }
    assert(s@.take(s@.len() as int) =~= s@);
    assert(texts(out@.push(current)) =~= texts(out@).push(current@));
    out.push(current);
    out
}

/// Whether a text holds nothing but digits.
pub open spec fn all_digits(s: Seq<char>) -> bool {
    forall|i: int| 0 <= i < s.len() ==> is_ascii_number(#[trigger] s[i])
}

/// The number that up to nine digits stand for; nothing where the text is no such row of digits.
pub fn parse_digits(s: &Vec<char>) -> (r: Option<u32>)
    ensures
        match r {
            Some(n) => all_digits(s@) && s@.len() <= 9 && n == digits_value(s@),
            None => !all_digits(s@) || s@.len() > 9,
        },
{
    if s.len() > 9 {
        return None;
    }
    let mut n: u64 = 0;
    let mut bound: u64 = 1;
    let mut i: usize = 0;
    proof {
        vstd::arithmetic::power::lemma_pow0(10);
    }
    assert(s@.take(0) =~= Seq::<char>::empty());
    while i < s.len()
        invariant
            i <= s@.len() <= 9,
            all_digits(s@.take(i as int)),
            n == digits_value(s@.take(i as int)),
            n < bound,
            bound == vstd::arithmetic::power::pow(10, i as nat),
            bound <= 1_000_000_000,
        decreases s@.len() - i,
    {
        let c = s[i];
        if c < '0' || '9' < c {
            assert(!is_ascii_number(s@[i as int]));
            return None;
        }
        proof {
            let next = s@.take(i as int + 1);
            assert(next.drop_last() =~= s@.take(i as int));
            assert(next.last() == c);
            assert forall|k: int| 0 <= k < next.len() implies is_ascii_number(#[trigger] next[k]) by {
                if k < i {
                    assert(is_ascii_number(s@.take(i as int)[k]));
                }
            }
            vstd::arithmetic::power::lemma_pow1(10);
            vstd::arithmetic::power::lemma_pow_adds(10, i as nat, 1);
            vstd::arithmetic::power::lemma_pow_increases(10, (i + 1) as nat, 9);
            reveal_with_fuel(vstd::arithmetic::power::pow, 10);
            assert(vstd::arithmetic::power::pow(10, 9) == 1_000_000_000);
        }
        n = 10 * n + ((c as u8) - 48) as u64;
        bound = 10 * bound;
        i = i + 1;
    }
    assert(s@.take(s@.len() as int) =~= s@);
    Some(n as u32)
}

/// Why a text is no number.
#[derive(Clone, Copy, Debug, PartialEq, Eq, Structural)]
pub enum NumberError {
    Empty,
    InvalidDigit,
    TooLarge,
}

impl NumberError {
    pub fn message(self) -> (r: &'static str)
        ensures
            r@ == (match self {
                NumberError::Empty => "cannot parse integer from empty string"@,
                NumberError::InvalidDigit => "invalid digit found in string"@,
                NumberError::TooLarge => "number too large to fit in target type"@,
            }),
    {
        match self {
            NumberError::Empty => "cannot parse integer from empty string",
            NumberError::InvalidDigit => "invalid digit found in string",
            NumberError::TooLarge => "number too large to fit in target type",
        }
    }
}

/// The number that digits stand for, read from the left up to the first fault.
pub open spec fn digits_read(s: Seq<char>) -> Result<u64, NumberError>
    decreases s.len(),
{
    if s.len() == 0 {
        Ok(0)
    } else {
        match digits_read(s.drop_last()) {
            Ok(n) => if !is_ascii_number(s.last()) {
                Err(NumberError::InvalidDigit)
            } else if n * 10 + ((s.last() as u8) - 48) > u64::MAX {
                Err(NumberError::TooLarge)
            } else {
                Ok((n * 10 + ((s.last() as u8) - 48)) as u64)
            },
            Err(error) => Err(error),
        }
    }
}

/// The number that a text, white space around it aside, stands for. A plus may stand in front.
pub open spec fn number_read(s: Seq<char>) -> Result<u64, NumberError> {
    let s = trimmed(s);
    if s.len() == 0 {
        Err(NumberError::Empty)
    } else if s[0] == '+' {
        if s.len() == 1 {
            Err(NumberError::InvalidDigit)
        } else {
            digits_read(s.skip(1))
        }
    } else {
        digits_read(s)
    }
}

proof fn faults_stay(s: Seq<char>, i: int, j: int)
    requires
        0 <= i <= j <= s.len(),
        digits_read(s.take(i)) is Err,
    ensures
        digits_read(s.take(j)) == digits_read(s.take(i)),
    decreases j - i,
{
    if i < j {
        faults_stay(s, i, j - 1);
        assert(s.take(j).drop_last() =~= s.take(j - 1));
    }
}

/// The number that a text stands for.
pub fn parse_number(s: &str) -> (r: Result<u64, NumberError>)
    ensures
        r == number_read(s@),
{
    let text = trim(s);
    let chars = chars_of(&text);
    let n: usize = chars.len();
    if n == 0 {
        return Err(NumberError::Empty);
    }
    let from: usize = if chars[0] == '+' {
        1
    } else {
        0
    };
    if from == n {
        return Err(NumberError::InvalidDigit);
    }
    let ghost digits = text@.skip(from as int);
    assert(from == 0 ==> digits =~= text@);
    let mut value: u64 = 0;
    let mut i: usize = from;
    assert(digits.take(0) =~= Seq::<char>::empty());
    while i < n
        invariant
            chars@ == text@,
            n == text@.len(),
            from <= i <= n,
            from <= 1,
            digits == text@.skip(from as int),
            digits.len() == n - from,
            digits_read(digits.take(i - from)) == Ok::<u64, NumberError>(value),
            number_read(s@) == digits_read(digits),
        decreases n - i,
    {
        let c = chars[i];
        let ghost k = i - from;
        proof {
            assert(digits.take(k + 1).drop_last() =~= digits.take(k));
            assert(digits.take(k + 1).last() == c);
            assert(digits.take(digits.len() as int) =~= digits);
        }
        if c < '0' || '9' < c {
            proof {
                faults_stay(digits, k + 1, digits.len() as int);
            }
            return Err(NumberError::InvalidDigit);
        }
        let digit: u64 = ((c as u8) - 48) as u64;
        if value > (u64::MAX - digit) / 10 {
            proof {
                assert(value * 10 + digit > u64::MAX);
                faults_stay(digits, k + 1, digits.len() as int);
            }
            return Err(NumberError::TooLarge);
        }
        value = value * 10 + digit;
        i = i + 1;
    }
    assert(digits.take(digits.len() as int) =~= digits);
    Ok(value)
}

/// The numeral of an integer.
pub fn signed_numeral(n: i64) -> (r: String)
    requires
        n > i64::MIN,
    ensures
        r@ == signed_decimal(n as int),
{
    if n < 0 {
        let digits = numeral((-n) as u64);
        let mut out = String::new();
        out.push('-');
        assert(out@ =~= seq!['-']);
        push_text(&mut out, &digits);
        out
    } else {
        numeral(n as u64)
    }
}

/// A numeral holds digits alone, has no zero in front but that of 0, and stands for its number.
pub proof fn numerals_stand_for_their_number(n: nat)
    ensures
        decimal(n).len() > 0,
        all_digits(decimal(n)),
        digits_value(decimal(n)) == n,
        n > 0 ==> decimal(n)[0] != '0',
    decreases n,
{
    if n < 10 {
        let d = decimal(n);
        assert(d.drop_last() =~= Seq::<char>::empty());
        assert(digits_value(Seq::<char>::empty()) == 0);
        assert(d.last() as u8 == 48 + n);
    } else {
        numerals_stand_for_their_number(n / 10);
        let d = decimal(n);
        assert(d.drop_last() =~= decimal(n / 10));
        assert(d.last() as u8 == 48 + n % 10);
        assert(d[0] == decimal(n / 10)[0]);
        assert forall|i: int| 0 <= i < d.len() implies is_ascii_number(#[trigger] d[i]) by {
            if i < d.len() - 1 {
                assert(d[i] == decimal(n / 10)[i]);
            }
        }
    }
}

/// Two numbers with one numeral are one number, and a minus stands in front of negative ones alone.
pub proof fn numerals_tell_numbers_apart(a: int, b: int)
    ensures
        (signed_decimal(a) == signed_decimal(b)) == (a == b),
        (signed_decimal(a)[0] == '-') == (a < 0),
{
    let (x, y) = (if a < 0 {
        -a
    } else {
        a
    }, if b < 0 {
        -b
    } else {
        b
    });
    numerals_stand_for_their_number(x as nat);
    numerals_stand_for_their_number(y as nat);
    assert(is_ascii_number(decimal(x as nat)[0]));
    assert(is_ascii_number(decimal(y as nat)[0]));
    if signed_decimal(a) == signed_decimal(b) {
        if a < 0 {
            assert(signed_decimal(a).skip(1) =~= decimal(x as nat));
            assert(signed_decimal(b)[0] == '-');
            assert(signed_decimal(b).skip(1) =~= decimal(y as nat));
        }
    }
}

proof fn digits_are_read(s: Seq<char>)
    requires
        all_digits(s),
    ensures
        digits_read(s) == (if digits_value(s) <= u64::MAX {
            Ok::<u64, NumberError>(digits_value(s) as u64)
        } else {
            Err(NumberError::TooLarge)
        }),
    decreases s.len(),
{
    if s.len() > 0 {
        let front = s.drop_last();
        assert forall|i: int| 0 <= i < front.len() implies is_ascii_number(#[trigger] front[i]) by {
            assert(front[i] == s[i]);
        }
        digits_are_read(front);
        assert(is_ascii_number(s[s.len() - 1]));
    }
}

/// A number is read back from its numeral, white space around it or not, and from its numeral with
/// a plus in front.
pub proof fn numerals_are_read_back(n: u64, front: Seq<char>, back: Seq<char>)
    requires
        is_blank(front),
        is_blank(back),
    ensures
        number_read(front + decimal(n as nat) + back) == Ok::<u64, NumberError>(n),
        number_read(seq!['+'] + decimal(n as nat)) == Ok::<u64, NumberError>(n),
{
    let d = decimal(n as nat);
    numerals_stand_for_their_number(n as nat);
    trimming_ignores_outer_space(front, d, back);
    assert(is_ascii_number(d[0]) && is_ascii_number(d[d.len() - 1]));
    assert(trim_start(d) == d && trim_end(d) == d);
    digits_are_read(d);
    let p = seq!['+'] + d;
    assert(p[0] == '+' && p.last() == d.last());
    assert(trim_start(p) == p && trim_end(p) == p);
    assert(p.skip(1) =~= d);
}

/// Texts are joined one after the other, and nothing but the separators stands between them.
pub proof fn joined_texts_add_up(parts: Seq<Seq<char>>, sep: Seq<char>, last: Seq<char>)
    ensures
        parts.len() > 0 ==> joined(parts.push(last), sep) == joined(parts, sep) + sep + last,
        joined(seq![last], sep) == last,
{
    assert(parts.push(last).drop_last() =~= parts);
}

/// What is trimmed off is white space, and what is left stands in the text.
pub proof fn trimming_takes_white_space_alone(s: Seq<char>)
    ensures
        exists|from: int, to: int|
            0 <= from <= to <= s.len() && #[trigger] s.subrange(from, to) == trimmed(s) && is_blank(
                s.subrange(0, from),
            ) && is_blank(s.subrange(to, s.len() as int)),
{
    let from = start_of(s);
    let t = trim_start(s);
    let to = from + trim_end(t).len();
    end_of(t);
    assert(s.subrange(from, to) =~= trimmed(s));
    assert forall|i: int| 0 <= i < s.len() - to implies is_space(
        #[trigger] s.subrange(to, s.len() as int)[i],
    ) by {
        assert(s.subrange(to, s.len() as int)[i] == t[to - from + i]);
    }
}

proof fn start_of(s: Seq<char>) -> (from: int)
    ensures
        0 <= from <= s.len(),
        trim_start(s) == s.subrange(from, s.len() as int),
        is_blank(s.subrange(0, from)),
    decreases s.len(),
{
    if s.len() > 0 && is_space(s[0]) {
        let rest = s.drop_first();
        let from = start_of(rest);
        assert(rest.subrange(from, rest.len() as int) =~= s.subrange(from + 1, s.len() as int));
        assert forall|i: int| 0 <= i < from + 1 implies is_space(
            #[trigger] s.subrange(0, from + 1)[i],
        ) by {
            if i > 0 {
                assert(rest.subrange(0, from)[i - 1] == s[i]);
            }
        }
        from + 1
    } else {
        assert(s.subrange(0, s.len() as int) =~= s);
        0
    }
}

proof fn end_of(s: Seq<char>)
    ensures
        trim_end(s).len() <= s.len(),
        trim_end(s) == s.subrange(0, trim_end(s).len() as int),
        forall|i: int| trim_end(s).len() <= i < s.len() ==> is_space(#[trigger] s[i]),
    decreases s.len(),
{
    if s.len() > 0 && is_space(s.last()) {
        let front = s.drop_last();
        end_of(front);
        assert(trim_end(s) =~= s.subrange(0, trim_end(s).len() as int));
        assert forall|i: int| trim_end(s).len() <= i < s.len() implies is_space(
            #[trigger] s[i],
        ) by {
            if i < s.len() - 1 {
                assert(front[i] == s[i]);
            }
        }
    } else {
        assert(s.subrange(0, s.len() as int) =~= s);
    }
}

/// Pieces hold no separator, and with the separators between them they make the text.
pub proof fn pieces_make_the_text(s: Seq<char>, sep: char)
    ensures
        pieces(s, sep).len() > 0,
        joined(pieces(s, sep), seq![sep]) == s,
        forall|i: int| 0 <= i < pieces(s, sep).len() ==> !(#[trigger] pieces(s, sep)[i]).contains(sep),
    decreases s.len(),
{
    let list = pieces(s, sep);
    if s.len() == 0 {
        assert(joined(list, seq![sep]) =~= s);
    } else {
        let front = s.drop_last();
        let before = pieces(front, sep);
        pieces_make_the_text(front, sep);
        assert(front.push(s.last()) =~= s);
        if s.last() == sep {
            assert(list.drop_last() =~= before);
            assert(joined(list, seq![sep]) =~= s);
        } else {
            let last = before.last();
            assert(!before[before.len() - 1].contains(sep));
            assert(list.drop_last() =~= before.drop_last());
            assert(list.last() == last.push(s.last()));
            if before.len() == 1 {
                assert(joined(list, seq![sep]) =~= s);
            } else {
                assert(joined(list, seq![sep]) =~= joined(before, seq![sep]).push(s.last()));
            }
            assert forall|i: int| 0 <= i < list.len() implies !(#[trigger] list[i]).contains(sep) by {
                if i < list.len() - 1 {
                    assert(list[i] == before[i]);
                } else if list[i].contains(sep) {
                    let k = choose|k: int| 0 <= k < list[i].len() && list[i][k] == sep;
                    assert(last[k] == sep);
                    assert(last.contains(sep));
                }
            }
        }
    }
}

/// Lower case and upper case change the letters of ASCII and nothing else.
pub proof fn cases_change_letters_alone(c: char)
    ensures
        lower_char(c) != c ==> 'A' <= c <= 'Z' && 'a' <= lower_char(c) <= 'z',
        upper_char(c) != c ==> 'a' <= c <= 'z' && 'A' <= upper_char(c) <= 'Z',
        is_ascii_letter(c) ==> lower_char(c) != upper_char(c),
        lower_char(upper_char(c)) == lower_char(c),
        'A' <= c <= 'Z' ==> lower_char(c) as u8 == c as u8 + 32,
{
}

/// A text put together from three shows each of them: it begins with the first, ends with the last
/// and holds the one between.
pub proof fn parts_show(a: Seq<char>, b: Seq<char>, c: Seq<char>)
    ensures
        begins_with(a + b + c, a),
        has_text(a + b + c, b),
        ends_with(a + b + c, c),
        begins_with(a + b, a),
        ends_with(a + b, b),
        ends_with(a + b + c, b + c),
{
    let s = a + b + c;
    assert(s.subrange(s.len() - (b + c).len(), s.len() as int) =~= b + c);
    let t = a + b;
    assert(s.subrange(0, a.len() as int) =~= a);
    assert(s.subrange(a.len() as int, a.len() as int + b.len()) =~= b);
    assert(s.subrange(s.len() - c.len(), s.len() as int) =~= c);
    assert(occurs_at(s, b, a.len() as int));
    assert(t.subrange(0, a.len() as int) =~= a);
    assert(t.subrange(t.len() - b.len(), t.len() as int) =~= b);
}

/// Joined texts show each of them.
pub proof fn joined_holds(parts: Seq<Seq<char>>, sep: Seq<char>, k: int)
    requires
        0 <= k < parts.len(),
    ensures
        has_text(joined(parts, sep), parts[k]),
    decreases parts.len(),
{
    let all = joined(parts, sep);
    let pat = parts[k];
    if parts.len() == 1 {
        assert(all.subrange(0, pat.len() as int) =~= pat);
        assert(occurs_at(all, pat, 0));
    } else if k == parts.len() - 1 {
        let i = all.len() - pat.len();
        assert(all.subrange(i, i + pat.len()) =~= pat);
        assert(occurs_at(all, pat, i));
    } else {
        joined_holds(parts.drop_last(), sep, k);
        let before = joined(parts.drop_last(), sep);
        let i = choose|i: int| occurs_at(before, pat, i);
        assert(all.subrange(i, i + pat.len()) =~= before.subrange(i, i + pat.len()));
        assert(occurs_at(all, pat, i));
    }
}

/// Texts are ordered by the first character in which they differ, and a text that goes on comes
/// after one that ends.
pub proof fn texts_are_ordered_by_their_characters(a: &str, b: &str, i: int, r: bool)
    requires
        call_ensures(not_after, (a, b), r),
        0 <= i <= a@.len(),
        i <= b@.len(),
        a@.take(i) == b@.take(i),
    ensures
        i < a@.len() && i < b@.len() && a@[i] < b@[i] ==> r,
        i < a@.len() && i < b@.len() && a@[i] > b@[i] ==> !r,
        i == a@.len() ==> r,
        i == b@.len() && i < a@.len() ==> !r,
{
    common_starts_do_not_count(a@, b@, i);
}

proof fn common_starts_do_not_count(a: Seq<char>, b: Seq<char>, i: int)
    requires
        0 <= i <= a.len(),
        i <= b.len(),
        a.take(i) == b.take(i),
    ensures
        text_le(a, b) == text_le(a.skip(i), b.skip(i)),
    decreases i,
{
    if i == 0 {
        assert(a.skip(0) =~= a && b.skip(0) =~= b);
    } else {
        assert(a.take(i)[0] == a[0] && b.take(i)[0] == b[0]);
        let (x, y) = (a.drop_first(), b.drop_first());
        assert(x.take(i - 1) =~= y.take(i - 1)) by {
            assert forall|k: int| 0 <= k < i - 1 implies x[k] == y[k] by {
                assert(a.take(i)[k + 1] == a[k + 1] && b.take(i)[k + 1] == b[k + 1]);
            }
        }
        common_starts_do_not_count(x, y, i - 1);
        assert(x.skip(i - 1) =~= a.skip(i));
        assert(y.skip(i - 1) =~= b.skip(i));
    }
}

/// Blanks, tabs and line ends are white space; letters, digits and the signs of ASCII are not.
pub proof fn white_space_is_what_separates_words(c: char, r: bool)
    requires
        call_ensures(char_is_space, (c,), r),
    ensures
        c == ' ' || c == '\t' || c == '\n' || c == '\r' ==> r,
        '!' <= c <= '~' ==> !r,
        is_ascii(c) && r ==> c == ' ' || ('\t' <= c <= '\r'),
{
}

/// White space between two texts parts their words, and neither adds one nor takes one.
pub proof fn words_add_up(a: Seq<char>, space: char, b: Seq<char>)
    requires
        is_space(space),
    ensures
        words(a.push(space) + b) == words(a) + words(b),
    decreases b.len(),
{
    let s = a.push(space) + b;
    if b.len() == 0 {
        assert(s =~= a.push(space));
        assert(s.drop_last() =~= a);
        assert(words(a) + words(b) =~= words(a));
    } else {
        let rest = b.drop_last();
        words_add_up(a, space, rest);
        assert(s.drop_last() =~= a.push(space) + rest);
        assert(s.last() == b.last());
        let (front, back) = (words(a), words(rest));
        if is_space(b.last()) {
        } else if b.len() == 1 {
            assert(s[s.len() - 2] == space);
            assert(back =~= Seq::<Seq<char>>::empty());
            assert((front + back).push(seq![b.last()]) =~= front + words(b));
        } else {
            assert(s[s.len() - 2] == b[b.len() - 2]);
            if is_space(b[b.len() - 2]) {
                assert((front + back).push(seq![b.last()]) =~= front + back.push(seq![b.last()]));
            } else {
                last_word_is_open(rest);
                assert(back.len() > 0);
                let all = front + back;
                assert(all.last() == back.last());
                assert(all.update(all.len() - 1, all.last().push(b.last())) =~= front + back.update(
                    back.len() - 1,
                    back.last().push(b.last()),
                ));
            }
        }
    }
}

proof fn last_word_is_open(s: Seq<char>)
    requires
        s.len() > 0,
        !is_space(s.last()),
    ensures
        words(s).len() > 0,
    decreases s.len(),
{
    if s.len() > 1 && !is_space(s[s.len() - 2]) {
        last_word_is_open(s.drop_last());
    }
}

/// A text in which a pattern does not stand is not changed by replacing it, nor is any text by
/// putting the pattern in its own place; a pattern in front gives way and the rest goes on.
pub proof fn replacing_changes_the_pattern_alone(s: Seq<char>, pat: Seq<char>, to: Seq<char>)
    requires
        pat.len() > 0,
    ensures
        !has_text(s, pat) ==> replaced(s, pat, to) == s,
        replaced(s, pat, pat) == s,
        replaced(pat + s, pat, to) == to + replaced(s, pat, to),
    decreases s.len(),
{
    let whole = pat + s;
    assert(whole.subrange(0, pat.len() as int) =~= pat);
    assert(whole.skip(pat.len() as int) =~= s);
    if s.len() >= pat.len() {
        if begins_with(s, pat) {
            let rest = s.skip(pat.len() as int);
            replacing_changes_the_pattern_alone(rest, pat, to);
            assert(pat + rest =~= s) by {
                assert(s.subrange(0, pat.len() as int) =~= pat);
                assert(s =~= s.subrange(0, pat.len() as int) + rest);
            }
        } else {
            let rest = s.drop_first();
            replacing_changes_the_pattern_alone(rest, pat, to);
            assert(seq![s[0]] + rest =~= s);
            if !has_text(s, pat) && has_text(rest, pat) {
                let i = choose|i: int| occurs_at(rest, pat, i);
                assert(s.subrange(i + 1, i + 1 + pat.len()) =~= rest.subrange(i, i + pat.len()));
                assert(occurs_at(s, pat, i + 1));
            }
        }
    }
}

/// What is found from the end is the last place of a pattern.
pub proof fn last_places_are_found(s: Vec<char>, pat: Vec<char>, r: Option<usize>, i: int)
    requires
        call_ensures(rfind, (&s, &pat), r),
    ensures
        (r is Some) == has_text(s@, pat@),
        r matches Some(at) ==> occurs_at(s@, pat@, at as int) && (occurs_at(s@, pat@, i) ==> i
            <= at),
{
    last_is_last(s@, pat@, s@.len() as int, i);
    if has_text(s@, pat@) {
        let k = choose|k: int| occurs_at(s@, pat@, k);
        last_is_last(s@, pat@, s@.len() as int, k);
    }
}

proof fn last_is_last(s: Seq<char>, pat: Seq<char>, upto: int, i: int)
    ensures
        last_at(s, pat, upto) >= 0 ==> occurs_at(s, pat, last_at(s, pat, upto)),
        i <= upto && occurs_at(s, pat, i) ==> i <= last_at(s, pat, upto),
        last_at(s, pat, upto) >= -1,
    decreases upto + 1,
{
    if upto >= 0 && !occurs_at(s, pat, upto) {
        last_is_last(s, pat, upto - 1, i);
    }
}

proof fn read_digits_are_digits(s: Seq<char>)
    ensures
        digits_read(s) is Ok ==> all_digits(s),
    decreases s.len(),
{
    if s.len() > 0 {
        let front = s.drop_last();
        read_digits_are_digits(front);
        if digits_read(s) is Ok {
            assert forall|i: int| 0 <= i < s.len() implies is_ascii_number(#[trigger] s[i]) by {
                if i < front.len() {
                    assert(front[i] == s[i]);
                }
            }
        }
    }
}

/// A number is read out of digits alone, and is the number that they stand for; nothing, a letter
/// and a number that is too large each have their own error.
pub proof fn numbers_are_read_from_digits(s: &str, r: Result<u64, NumberError>, message: &'static str)
    requires
        call_ensures(parse_number, (s,), r),
        r matches Err(error) ==> call_ensures(NumberError::message, (error,), message),
    ensures
        ({
            let t = trimmed(s@);
            &&& t.len() == 0 ==> r is Err && message@ == "cannot parse integer from empty string"@
            &&& t.len() > 0 && t[0] != '+' ==> {
                &&& r matches Ok(n) ==> all_digits(t) && n == digits_value(t)
                &&& all_digits(t) && digits_value(t) <= u64::MAX ==> r is Ok
                &&& all_digits(t) && digits_value(t) > u64::MAX ==> r is Err && message@
                    == "number too large to fit in target type"@
            }
            &&& t.len() > 0 && !is_ascii_number(t[0]) && t[0] != '+' ==> r is Err && message@
                == "invalid digit found in string"@
        }),
{
    let t = trimmed(s@);
    read_digits_are_digits(t);
    if all_digits(t) {
        digits_are_read(t);
    }
    if t.len() > 0 && !is_ascii_number(t[0]) && t[0] != '+' {
        first_faults_count(t);
    }
}

proof fn first_faults_count(s: Seq<char>)
    requires
        s.len() > 0,
        !is_ascii_number(s[0]),
    ensures
        digits_read(s) == Err::<u64, NumberError>(NumberError::InvalidDigit),
    decreases s.len(),
{
    if s.len() == 1 {
        assert(digits_read(s.drop_last()) == Ok::<u64, NumberError>(0));
    } else {
        first_faults_count(s.drop_last());
    }
}

/// What stands behind a prefix is left where the text begins with it, and no other text is cut.
pub proof fn prefixes_are_cut_off(s: &str, pat: &str, r: Option<String>, begins: bool)
    requires
        call_ensures(strip_prefix, (s, pat), r),
        call_ensures(starts_with, (s, pat), begins),
    ensures
        (r is Some) == begins,
        r matches Some(rest) ==> pat@ + rest@ == s@,
        begins == (s@.len() >= pat@.len() && s@.take(pat@.len() as int) == pat@),
{
    if s@.len() >= pat@.len() {
        assert(s@.take(pat@.len() as int) =~= s@.subrange(0, pat@.len() as int));
    }
    if r is Some {
        assert(pat@ + r->0@ =~= s@) by {
            assert(s@ =~= s@.subrange(0, pat@.len() as int) + s@.skip(pat@.len() as int));
        }
    }
}

/// Two texts are the same where all their characters are, and what is put together holds each part
/// in its place.
pub proof fn texts_are_their_characters(a: &str, b: &str, same_text: bool, both: String, c: &str, all: String)
    requires
        call_ensures(same, (a, b), same_text),
        call_ensures(concat2, (a, b), both),
        call_ensures(concat3, (a, b, c), all),
    ensures
        same_text == (a@ == b@),
        both@.len() == a@.len() + b@.len(),
        begins_with(both@, a@) && ends_with(both@, b@),
        begins_with(all@, both@) && ends_with(all@, c@),
{
    parts_show(a@, b@, c@);
    parts_show(both@, c@, Seq::empty());
}

/// A numeral that was written is read as its number, a text that was joined is split again, and
/// what is trimmed twice is trimmed once.
pub proof fn texts_are_read_as_they_were_written(
    n: u64,
    written: String,
    text: &str,
    number: Result<u64, NumberError>,
    s: &str,
    sep: char,
    parts: Vec<String>,
    between: &str,
    again: String,
    short: String,
    list: Vec<String>,
)
    requires
        call_ensures(numeral, (n,), written),
        text@ == written@,
        call_ensures(parse_number, (text,), number),
        call_ensures(split_pieces, (s, sep), parts),
        between@ == seq![sep],
        call_ensures(join, (&parts, between), again),
        call_ensures(trim, (s,), short),
        call_ensures(split_words, (s,), list),
    ensures
        number == Ok::<u64, NumberError>(n),
        again@ == s@,
        has_text(s@, short@),
        short@.len() > 0 ==> !is_space(short@[0]) && !is_space(short@.last()),
        list@.len() == 0 ==> short@.len() == 0,
        words(short@) == texts(list@),
{
    let none = Seq::<char>::empty();
    numerals_are_read_back(n, none, none);
    assert(none + decimal(n as nat) + none =~= decimal(n as nat));
    pieces_make_the_text(s@, sep);
    trimming_keeps_words(s@);
    trimmed_has_no_outer_space(s@);
    trimming_takes_white_space_alone(s@);
    let (from, to) = choose|from: int, to: int|
        0 <= from <= to <= s@.len() && #[trigger] s@.subrange(from, to) == trimmed(s@) && is_blank(
            s@.subrange(0, from),
        ) && is_blank(s@.subrange(to, s@.len() as int));
    assert(occurs_at(s@, short@, from));
    assert(texts(list@).len() == list@.len());
    if list@.len() == 0 {
        blank_texts_have_no_words(s@);
        blank_texts_trim_to_nothing(s@);
    }
}

/// A number of up to nine digits is read out of digits alone, and a trimmed text is there where
/// anything is left of it.
pub proof fn digits_and_solid_texts(
    chars: Vec<char>,
    r: Option<u32>,
    value: &str,
    solid: Option<String>,
    lower: String,
    upper: String,
    i: int,
)
    requires
        call_ensures(parse_digits, (&chars,), r),
        call_ensures(non_empty, (value,), solid),
        call_ensures(to_ascii_lower, (value,), lower),
        call_ensures(to_ascii_upper, (value,), upper),
        0 <= i < value@.len(),
    ensures
        (r is Some) == (all_digits(chars@) && chars@.len() <= 9),
        r matches Some(n) ==> n == digits_value(chars@),
        (solid is Some) == (trimmed(value@).len() > 0),
        solid matches Some(t) ==> t@ == trimmed(value@),
        lower@.len() == value@.len() && upper@.len() == value@.len(),
        'A' <= value@[i] <= 'Z' ==> 'a' <= lower@[i] <= 'z' && upper@[i] == value@[i],
        'a' <= value@[i] <= 'z' ==> 'A' <= upper@[i] <= 'Z' && lower@[i] == value@[i],
        !is_ascii_letter(value@[i]) ==> lower@[i] == value@[i] && upper@[i] == value@[i],
{
}

/// A text begins as its front does.
pub proof fn fronts_stay(front: Seq<char>, rest: Seq<char>, start: Seq<char>)
    requires
        begins_with(front, start),
    ensures
        begins_with(front + rest, start),
{
    let n = start.len() as int;
    assert((front + rest).subrange(0, n) =~= front.subrange(0, n));
}

} // verus!
