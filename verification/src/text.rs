//! Text primitives: comparisons, trimming, splitting and number formatting,
//! each stated over the sequence of characters of its input.

use vstd::prelude::*;
use vstd::utf8::*;

verus! {

/// `String::push` puts one character behind the text.
pub assume_specification[ String::push ](s: &mut String, c: char)
    ensures
        final(s)@ == old(s)@.push(c),
;

/// `str` equality holds exactly when both texts are the same characters.
pub assume_specification[ <str as PartialEq>::eq ](a: &str, b: &str) -> (r: bool)
    ensures
        r == (a@ == b@),
;

/// Names what `str::to_lowercase` returns.
pub uninterp spec fn lowercase_text(s: Seq<char>) -> Seq<char>;

/// Names what `String::from_utf8_lossy` returns.
pub uninterp spec fn lossy_text(bytes: Seq<u8>) -> Seq<char>;

/// `str::to_lowercase`: the Unicode lowercase of the text. A text of ASCII
/// characters has its letters lowered and nothing else changed.
#[verifier::external_body]
pub(crate) fn to_lowercase(s: &str) -> (r: String)
    ensures
        r@ == lowercase_text(s@),
        is_ascii_chars(s@) ==> r@ == ascii_lowercase(s@),
{
    s.to_lowercase()
}

/// `String::from_utf8`: the text whose UTF-8 encoding the bytes are, if they are one.
#[verifier::external_body]
pub(crate) fn text_from_utf8(bytes: Vec<u8>) -> (r: Option<String>)
    ensures
        r is Some <==> valid_utf8(bytes@),
        r is Some ==> r->0@ == decode_utf8(bytes@),
{
    String::from_utf8(bytes).ok()
}

/// `String::from_utf8_lossy`: the text of the bytes, with U+FFFD in the place of
/// what is not UTF-8. Bytes that are UTF-8 throughout give their own text.
#[verifier::external_body]
pub(crate) fn text_from_utf8_lossy(bytes: &[u8]) -> (r: String)
    ensures
        r@ == lossy_text(bytes@),
        valid_utf8(bytes@) ==> r@ == decode_utf8(bytes@),
{
    String::from_utf8_lossy(bytes).into_owned()
}

/// A letter `a`-`z` or `A`-`Z` or a digit `0`-`9`.
pub open spec fn is_ascii_alphanumeric(c: char) -> bool {
    ('a' <= c <= 'z') || ('A' <= c <= 'Z') || ('0' <= c <= '9')
}

/// The characters with Unicode's `White_Space` property.
pub open spec fn is_whitespace(c: char) -> bool {
    let n = c as u32;
    ||| 0x09 <= n <= 0x0d
    ||| n == 0x20
    ||| n == 0x85
    ||| n == 0xa0
    ||| n == 0x1680
    ||| 0x2000 <= n <= 0x200a
    ||| n == 0x2028
    ||| n == 0x2029
    ||| n == 0x202f
    ||| n == 0x205f
    ||| n == 0x3000
}

/// The text without the whitespace at its two ends.
pub open spec fn trimmed(s: Seq<char>) -> Seq<char>
    decreases s.len(),
{
    if s.len() > 0 && is_whitespace(s[0]) {
        trimmed(s.drop_first())
    } else if s.len() > 0 && is_whitespace(s.last()) {
        trimmed(s.drop_last())
    } else {
        s
    }
}

pub open spec fn ascii_lower(c: char) -> char {
    if 'A' <= c <= 'Z' {
        ((c as u32) + 32) as char
    } else {
        c
    }
}

/// The text with each letter `A`-`Z` lowered.
pub open spec fn ascii_lowercase(s: Seq<char>) -> Seq<char> {
    s.map_values(|c: char| ascii_lower(c))
}

/// `prefix` stands at the beginning of `s`.
pub open spec fn has_prefix(s: Seq<char>, prefix: Seq<char>) -> bool {
    prefix.len() <= s.len() && s.take(prefix.len() as int) == prefix
}

/// What follows a prefix is left when the prefix is cut off.
pub proof fn lemma_prefix_cut_off(prefix: Seq<char>, rest: Seq<char>)
    ensures
        has_prefix(prefix + rest, prefix),
        (prefix + rest).skip(prefix.len() as int) == rest,
{
    assert((prefix + rest).take(prefix.len() as int) =~= prefix);
    assert((prefix + rest).skip(prefix.len() as int) =~= rest);
}

/// `part` stands somewhere in `s`.
pub open spec fn has_part(s: Seq<char>, part: Seq<char>) -> bool {
    exists|i: int| 0 <= i <= s.len() && has_prefix(#[trigger] s.skip(i), part)
}

pub open spec fn digit_char(d: nat) -> char {
    (48 + d) as char
}

/// The decimal digits of `n`, without leading zeros.
pub open spec fn decimal(n: nat) -> Seq<char>
    decreases n,
{
    if n < 10 {
        seq![digit_char(n)]
    } else {
        decimal(n / 10).push(digit_char(n % 10))
    }
}

/// The decimal digits of `n`, behind a minus sign where `n` is negative.
pub open spec fn signed_decimal(n: int) -> Seq<char> {
    if n < 0 {
        seq!['-'] + decimal((-n) as nat)
    } else {
        decimal(n as nat)
    }
}

pub open spec fn hex_char(d: nat, upper: bool) -> char {
    if d < 10 {
        (48 + d) as char
    } else if upper {
        (55 + d) as char
    } else {
        (87 + d) as char
    }
}

/// The last `width` hexadecimal digits of `n`.
pub open spec fn hex(n: nat, width: nat, upper: bool) -> Seq<char>
    decreases width,
{
    if width == 0 {
        Seq::empty()
    } else {
        hex(n / 16, (width - 1) as nat, upper).push(hex_char(n % 16, upper))
    }
}

/// Whether two texts are the same characters.
pub fn same_text(a: &str, b: &str) -> (r: bool)
    ensures
        r == (a@ == b@),
{
    *a == *b
}

/// The characters of a text.
pub fn chars_of(s: &str) -> (r: Vec<char>)
    ensures
        r@ == s@,
{
    let mut out: Vec<char> = Vec::new();
    for c in it: s.chars()
        invariant
            it.seq() == s@,
            out@ == s@.take(it.index() as int),
    {
        out.push(c);
        assert(s@.take(it.index() + 1) =~= s@.take(it.index() as int).push(c));
    }
    assert(s@.take(s@.len() as int) =~= s@);
    out
}

/// The text of the characters `from..to`.
pub fn text_of(chars: &Vec<char>, from: usize, to: usize) -> (r: String)
    requires
        from <= to <= chars.len(),
    ensures
        r@ == chars@.subrange(from as int, to as int),
{
    let mut out = String::new();
    let mut i: usize = from;
    while i < to
        invariant
            from <= i <= to <= chars.len(),
            out@ == chars@.subrange(from as int, i as int),
        decreases to - i,
    {
        out.push(chars[i]);
        assert(chars@.subrange(from as int, i + 1) =~= chars@.subrange(from as int, i as int).push(
            chars@[i as int],
        ));
        i += 1;
    }
    out
}

/// The text without the whitespace at its two ends.
pub fn trim(s: &str) -> (r: String)
    ensures
        r@ == trimmed(s@),
{
    let chars = chars_of(s);
    let mut from: usize = 0;
    let mut to: usize = chars.len();
    assert(chars@.subrange(0, to as int) =~= s@);
    while from < to && whitespace(chars[from])
        invariant
            from <= to == chars.len(),
            chars@ == s@,
            trimmed(s@) == trimmed(chars@.subrange(from as int, to as int)),
        decreases to - from,
    {
        let ghost rest = chars@.subrange(from as int, to as int);
        assert(rest.drop_first() =~= chars@.subrange(from + 1, to as int));
        from += 1;
    }
    while from < to && whitespace(chars[to - 1])
        invariant
            from <= to <= chars.len(),
            chars@ == s@,
            from < to ==> !is_whitespace(chars@[from as int]),
            trimmed(s@) == trimmed(chars@.subrange(from as int, to as int)),
        decreases to - from,
    {
        let ghost rest = chars@.subrange(from as int, to as int);
        assert(rest[0] == chars@[from as int]);
        assert(rest.drop_last() =~= chars@.subrange(from as int, to - 1));
        to -= 1;
    }
    assert(from < to ==> chars@.subrange(from as int, to as int)[0] == chars@[from as int]);
    text_of(&chars, from, to)
}

/// Whether the character has Unicode's `White_Space` property.
pub fn whitespace(c: char) -> (r: bool)
    ensures
        r == is_whitespace(c),
{
    let n: u32 = c as u32;
    (0x09 <= n && n <= 0x0d) || n == 0x20 || n == 0x85 || n == 0xa0 || n == 0x1680 || (0x2000 <= n
        && n <= 0x200a) || n == 0x2028 || n == 0x2029 || n == 0x202f || n == 0x205f || n == 0x3000
}

/// Whether the character is an ASCII letter or digit.
pub fn ascii_alphanumeric(c: char) -> (r: bool)
    ensures
        r == is_ascii_alphanumeric(c),
{
    ('a' <= c && c <= 'z') || ('A' <= c && c <= 'Z') || ('0' <= c && c <= '9')
}

fn lower(c: char) -> (r: char)
    ensures
        r == ascii_lower(c),
{
    if 'A' <= c && c <= 'Z' {
        ((c as u8) + 32) as char
    } else {
        c
    }
}

/// The text with each letter `A`-`Z` lowered.
pub fn to_ascii_lowercase(s: &str) -> (r: String)
    ensures
        r@ == ascii_lowercase(s@),
{
    let mut out = String::new();
    for c in it: s.chars()
        invariant
            it.seq() == s@,
            out@ == ascii_lowercase(s@.take(it.index() as int)),
    {
        out.push(lower(c));
        assert(s@.take(it.index() + 1) =~= s@.take(it.index() as int).push(c));
        assert(ascii_lowercase(s@.take(it.index() + 1)) =~= ascii_lowercase(
            s@.take(it.index() as int),
        ).push(ascii_lower(c)));
    }
    assert(s@.take(s@.len() as int) =~= s@);
    out
}

/// Whether two texts differ at most in the case of ASCII letters.
pub fn same_text_ignoring_ascii_case(a: &str, b: &str) -> (r: bool)
    ensures
        r == (ascii_lowercase(a@) == ascii_lowercase(b@)),
{
    let x = to_ascii_lowercase(a);
    let y = to_ascii_lowercase(b);
    same_text(x.as_str(), y.as_str())
}

fn matches_at(chars: &Vec<char>, at: usize, part: &Vec<char>) -> (r: bool)
    requires
        at <= chars.len(),
    ensures
        r == has_prefix(chars@.skip(at as int), part@),
{
    if part.len() > chars.len() - at {
        return false;
    }
    let ghost rest = chars@.skip(at as int);
    let mut i: usize = 0;
    while i < part.len()
        invariant
            i <= part.len() <= chars.len() - at,
            at <= chars.len(),
            rest == chars@.skip(at as int),
            forall|k: int| 0 <= k < i ==> rest[k] == part@[k],
        decreases part.len() - i,
    {
        if chars[at + i] != part[i] {
            assert(rest.take(part@.len() as int)[i as int] == rest[i as int]);
            return false;
        }
        i += 1;
    }
    assert(rest.take(part@.len() as int) =~= part@);
    true
}

/// Whether `prefix` stands at the beginning of `s`.
pub fn starts_with(s: &str, prefix: &str) -> (r: bool)
    ensures
        r == has_prefix(s@, prefix@),
{
    let chars = chars_of(s);
    let part = chars_of(prefix);
    assert(s@.skip(0) =~= s@);
    matches_at(&chars, 0, &part)
}

/// What follows `prefix`, where it stands at the beginning of `s`.
pub fn strip_prefix(s: &str, prefix: &str) -> (r: Option<String>)
    ensures
        r is Some <==> has_prefix(s@, prefix@),
        r is Some ==> r->0@ == s@.skip(prefix@.len() as int),
{
    let chars = chars_of(s);
    let part = chars_of(prefix);
    assert(s@.skip(0) =~= s@);
    if matches_at(&chars, 0, &part) {
        let rest = text_of(&chars, part.len(), chars.len());
        assert(rest@ =~= s@.skip(prefix@.len() as int));
        Some(rest)
    } else {
        None
    }
}

/// Whether `part` stands somewhere in `s`.
pub fn contains_text(s: &str, part: &str) -> (r: bool)
    ensures
        r == has_part(s@, part@),
{
    let chars = chars_of(s);
    let wanted = chars_of(part);
    let mut i: usize = 0;
    loop
        invariant
            i <= chars.len(),
            chars@ == s@,
            wanted@ == part@,
            forall|k: int| 0 <= k < i ==> !has_prefix(#[trigger] s@.skip(k), part@),
        decreases chars.len() - i,
    {
        if matches_at(&chars, i, &wanted) {
            return true;
        }
        if i == chars.len() {
            return false;
        }
        i += 1;
    }
}

/// The text before and the text behind the first place where `sep` stands in `s`.
pub open spec fn split_at_first(s: Seq<char>, sep: Seq<char>) -> Option<(Seq<char>, Seq<char>)>
    decreases s.len(),
{
    if has_prefix(s, sep) {
        Some((Seq::empty(), s.skip(sep.len() as int)))
    } else if s.len() == 0 {
        None
    } else {
        match split_at_first(s.drop_first(), sep) {
            Some((before, behind)) => Some((seq![s[0]] + before, behind)),
            None => None,
        }
    }
}

/// The characters of `s` before the first that is one of `wanted`; none where no
/// character of it is.
pub open spec fn before_first_of(s: Seq<char>, wanted: Seq<char>) -> Option<Seq<char>>
    decreases s.len(),
{
    if s.len() == 0 {
        None
    } else if wanted.contains(s[0]) {
        Some(Seq::empty())
    } else {
        match before_first_of(s.drop_first(), wanted) {
            Some(before) => Some(seq![s[0]] + before),
            None => None,
        }
    }
}

/// The characters of `s` behind the last `c`; all of them where `c` is not there.
pub open spec fn after_last_of(s: Seq<char>, c: char) -> Seq<char>
    decreases s.len(),
{
    if s.len() == 0 || s.last() == c {
        Seq::empty()
    } else {
        after_last_of(s.drop_last(), c).push(s.last())
    }
}

proof fn lemma_split_at(s: Seq<char>, sep: Seq<char>, at: int)
    requires
        0 <= at <= s.len(),
        forall|j: int| 0 <= j < at ==> !has_prefix(#[trigger] s.skip(j), sep),
    ensures
        has_prefix(s.skip(at), sep) ==> split_at_first(s, sep) == Some(
            (s.take(at), s.skip(at + sep.len())),
        ),
        at == s.len() && !has_prefix(s.skip(at), sep) ==> split_at_first(s, sep) is None,
    decreases s.len(),
{
    assert(s.skip(0) =~= s);
    if at == 0 {
        assert(s.take(0) =~= Seq::<char>::empty());
    } else {
        assert(!has_prefix(s.skip(0), sep));
        let rest = s.drop_first();
        assert forall|j: int| 0 <= j < at - 1 implies !has_prefix(#[trigger] rest.skip(j), sep) by {
            assert(rest.skip(j) =~= s.skip(j + 1));
        }
        lemma_split_at(rest, sep, at - 1);
        assert(rest.skip(at - 1) =~= s.skip(at));
        if has_prefix(s.skip(at), sep) {
            assert(rest.skip(at - 1 + sep.len()) =~= s.skip(at + sep.len()));
            assert(seq![s[0]] + rest.take(at - 1) =~= s.take(at));
        }
    }
}

/// The text before and the text behind the first place where `sep` stands in `s`.
pub fn split_once(s: &str, sep: &str) -> (r: Option<(String, String)>)
    ensures
        match r {
            Some((before, behind)) => split_at_first(s@, sep@) == Some((before@, behind@)),
            None => split_at_first(s@, sep@) is None,
        },
{
    let chars = chars_of(s);
    let part = chars_of(sep);
    let mut at: usize = 0;
    loop
        invariant
            at <= chars.len(),
            chars@ == s@,
            part@ == sep@,
            forall|j: int| 0 <= j < at ==> !has_prefix(#[trigger] s@.skip(j), sep@),
        decreases chars.len() - at,
    {
        proof {
            lemma_split_at(s@, sep@, at as int);
        }
        if matches_at(&chars, at, &part) {
            assert(chars@.subrange(0, at as int) =~= s@.take(at as int));
            assert(chars@.subrange(at + part.len(), chars@.len() as int) =~= s@.skip(
                at + sep@.len(),
            ));
            return Some((text_of(&chars, 0, at), text_of(&chars, at + part.len(), chars.len())));
        }
        if at == chars.len() {
            return None;
        }
        at += 1;
    }
}

proof fn lemma_before_first(s: Seq<char>, wanted: Seq<char>, at: int)
    requires
        0 <= at <= s.len(),
        forall|j: int| 0 <= j < at ==> !wanted.contains(#[trigger] s[j]),
    ensures
        at < s.len() && wanted.contains(s[at]) ==> before_first_of(s, wanted) == Some(s.take(at)),
        at == s.len() ==> before_first_of(s, wanted) is None,
    decreases s.len(),
{
    if at == 0 {
        assert(s.take(0) =~= Seq::<char>::empty());
    } else {
        let rest = s.drop_first();
        assert(!wanted.contains(s[0]));
        assert forall|j: int| 0 <= j < at - 1 implies !wanted.contains(#[trigger] rest[j]) by {
            assert(rest[j] == s[j + 1]);
        }
        lemma_before_first(rest, wanted, at - 1);
        if at < s.len() {
            assert(rest[at - 1] == s[at]);
            assert(seq![s[0]] + rest.take(at - 1) =~= s.take(at));
        }
    }
}

fn char_among(c: char, wanted: &Vec<char>) -> (r: bool)
    ensures
        r == wanted@.contains(c),
{
    let mut i: usize = 0;
    while i < wanted.len()
        invariant
            i <= wanted.len(),
            forall|j: int| 0 <= j < i ==> wanted@[j] != c,
        decreases wanted.len() - i,
    {
        if wanted[i] == c {
            return true;
        }
        i += 1;
    }
    false
}

/// The text of `s` before the first character that is one of `wanted`; none where
/// no character of it is.
pub fn before_any(s: &str, wanted: &str) -> (r: Option<String>)
    ensures
        opt_text(r) == before_first_of(s@, wanted@),
{
    let chars = chars_of(s);
    let marks = chars_of(wanted);
    let mut at: usize = 0;
    while at < chars.len()
        invariant
            at <= chars.len(),
            chars@ == s@,
            marks@ == wanted@,
            forall|j: int| 0 <= j < at ==> !wanted@.contains(#[trigger] s@[j]),
        decreases chars.len() - at,
    {
        if char_among(chars[at], &marks) {
            proof {
                lemma_before_first(s@, wanted@, at as int);
                assert(chars@.subrange(0, at as int) =~= s@.take(at as int));
            }
            return Some(text_of(&chars, 0, at));
        }
        at += 1;
    }
    proof {
        lemma_before_first(s@, wanted@, at as int);
    }
    None
}

/// The text of `s` behind the last `c`; all of it where `c` is not there.
pub fn after_last(s: &str, c: char) -> (r: String)
    ensures
        r@ == after_last_of(s@, c),
{
    let chars = chars_of(s);
    let mut from: usize = chars.len();
    assert(s@.take(from as int) =~= s@);
    assert(s@.skip(from as int) =~= Seq::<char>::empty());
    assert(after_last_of(s@, c) =~= after_last_of(s@.take(from as int), c) + s@.skip(from as int));
    while from > 0 && chars[from - 1] != c
        invariant
            from <= chars.len(),
            chars@ == s@,
            after_last_of(s@, c) == after_last_of(s@.take(from as int), c) + s@.skip(from as int),
        decreases from,
    {
        proof {
            let shorter = s@.take(from - 1);
            assert(s@.take(from as int).drop_last() =~= shorter);
            assert(after_last_of(shorter, c).push(s@[from - 1]) + s@.skip(from as int)
                =~= after_last_of(shorter, c) + s@.skip(from - 1));
        }
        from -= 1;
    }
    assert(chars@.subrange(from as int, chars@.len() as int) =~= s@.skip(from as int));
    assert(after_last_of(s@.take(from as int), c) + s@.skip(from as int) =~= s@.skip(from as int));
    text_of(&chars, from, chars.len())
}

proof fn lemma_decimal_step(n: nat)
    ensures
        n >= 10 ==> decimal(n) == decimal(n / 10).push(digit_char(n % 10)),
        n < 10 ==> decimal(n) == seq![digit_char(n)],
{
}

/// Writes the decimal digits of `n` behind `out`.
pub fn push_decimal(out: &mut String, n: u64)
    ensures
        final(out)@ == old(out)@ + decimal(n as nat),
    decreases n,
{
    proof {
        lemma_decimal_step(n as nat);
    }
    if n < 10 {
        out.push((48 + n as u8) as char);
    } else {
        push_decimal(out, n / 10);
        out.push((48 + (n % 10) as u8) as char);
    }
    assert(out@ =~= old(out)@ + decimal(n as nat));
}

/// Writes `n` in decimal behind `out`.
pub fn push_signed_decimal(out: &mut String, n: i64)
    ensures
        final(out)@ == old(out)@ + signed_decimal(n as int),
{
    if n < 0 {
        out.push('-');
        let magnitude: u64 = if n == i64::MIN {
            0x8000_0000_0000_0000
        } else {
            (-n) as u64
        };
        push_decimal(out, magnitude);
    } else {
        push_decimal(out, n as u64);
    }
    assert(out@ =~= old(out)@ + signed_decimal(n as int));
}

fn hex_digit(d: u8, upper: bool) -> (r: char)
    requires
        d < 16,
    ensures
        r == hex_char(d as nat, upper),
{
    if d < 10 {
        (48 + d) as char
    } else if upper {
        (55 + d) as char
    } else {
        (87 + d) as char
    }
}

/// Writes the last `width` hexadecimal digits of `n` behind `out`.
pub fn push_hex(out: &mut String, n: u64, width: usize, upper: bool)
    ensures
        final(out)@ == old(out)@ + hex(n as nat, width as nat, upper),
    decreases width,
{
    if width > 0 {
        push_hex(out, n / 16, width - 1, upper);
        out.push(hex_digit((n % 16) as u8, upper));
    }
    assert(out@ =~= old(out)@ + hex(n as nat, width as nat, upper));
}

/// The characters of each text.
pub open spec fn texts(v: Seq<String>) -> Seq<Seq<char>> {
    v.map_values(|s: String| s@)
}

/// The characters of a text, where there is one.
pub open spec fn opt_text(v: Option<String>) -> Option<Seq<char>> {
    match v {
        Some(s) => Some(s@),
        None => None,
    }
}

/// The characters of a borrowed text, where there is one.
pub open spec fn opt_str(v: Option<&str>) -> Option<Seq<char>> {
    match v {
        Some(s) => Some(s@),
        None => None,
    }
}

/// The same text once more, where there is one.
pub fn copy_opt(v: &Option<String>) -> (r: Option<String>)
    ensures
        opt_text(r) == opt_text(*v),
{
    match v {
        Some(s) => Some(s.clone()),
        None => None,
    }
}

/// The same texts once more.
pub fn copy_texts(v: &Vec<String>) -> (r: Vec<String>)
    ensures
        texts(r@) == texts(v@),
{
    let mut out: Vec<String> = Vec::new();
    let mut i: usize = 0;
    while i < v.len()
        invariant
            i <= v.len(),
            out.len() == i,
            forall|k: int| 0 <= k < i ==> (#[trigger] out@[k])@ == v@[k]@,
        decreases v.len() - i,
    {
        out.push(v[i].clone());
        i += 1;
    }
    assert(texts(out@) =~= texts(v@));
    out
}

/// Whether one of the texts is `wanted`.
pub fn contains_among(v: &Vec<String>, wanted: &str) -> (r: bool)
    ensures
        r == texts(v@).contains(wanted@),
{
    let mut i: usize = 0;
    while i < v.len()
        invariant
            i <= v.len(),
            forall|k: int| 0 <= k < i ==> texts(v@)[k] != wanted@,
        decreases v.len() - i,
    {
        if same_text(v[i].as_str(), wanted) {
            assert(texts(v@)[i as int] == wanted@);
            return true;
        }
        i += 1;
    }
    false
}

pub proof fn lemma_decimal_chars(n: nat)
    ensures
        decimal(n).len() > 0,
        n >= 10 ==> decimal(n).len() > 1,
        forall|i: int| 0 <= i < decimal(n).len() ==> '0' <= #[trigger] decimal(n)[i] <= '9',
    decreases n,
{
    if n >= 10 {
        lemma_decimal_chars(n / 10);
        assert forall|i: int| 0 <= i < decimal(n).len() implies '0' <= #[trigger] decimal(n)[i]
            <= '9' by {
            if i < decimal(n).len() - 1 {
                assert(decimal(n)[i] == decimal(n / 10)[i]);
            }
        }
    }
}

/// Different numbers have different decimal digits.
pub proof fn lemma_decimal_injective(a: nat, b: nat)
    requires
        decimal(a) == decimal(b),
    ensures
        a == b,
    decreases a,
{
    lemma_decimal_chars(a);
    lemma_decimal_chars(b);
    if a < 10 {
        assert(decimal(a)[0] == digit_char(a));
        assert(b < 10);
        assert(decimal(b)[0] == digit_char(b));
    } else {
        assert(b >= 10);
        assert(decimal(a).drop_last() =~= decimal(a / 10));
        assert(decimal(b).drop_last() =~= decimal(b / 10));
        assert(decimal(a).last() == digit_char(a % 10));
        assert(decimal(b).last() == digit_char(b % 10));
        lemma_decimal_injective(a / 10, b / 10);
    }
}

/// Different integers have different decimal texts, and none of them holds a colon.
pub proof fn lemma_signed_decimal_injective(a: int, b: int)
    ensures
        signed_decimal(a) == signed_decimal(b) ==> a == b,
        forall|i: int| 0 <= i < signed_decimal(a).len() ==> #[trigger] signed_decimal(a)[i] != ':',
{
    let ma = if a < 0 { (-a) as nat } else { a as nat };
    let mb = if b < 0 { (-b) as nat } else { b as nat };
    lemma_decimal_chars(ma);
    lemma_decimal_chars(mb);
    if signed_decimal(a) == signed_decimal(b) {
        assert(a < 0 ==> signed_decimal(a)[0] == '-');
        assert(b < 0 ==> signed_decimal(b)[0] == '-');
        assert(a >= 0 ==> signed_decimal(a)[0] == decimal(ma)[0]);
        assert(b >= 0 ==> signed_decimal(b)[0] == decimal(mb)[0]);
        if a < 0 {
            assert(signed_decimal(a).skip(1) =~= decimal(ma));
            assert(signed_decimal(b).skip(1) =~= decimal(mb));
        }
        lemma_decimal_injective(ma, mb);
    }
    assert forall|i: int| 0 <= i < signed_decimal(a).len() implies #[trigger] signed_decimal(a)[i]
        != ':' by {
        if a < 0 && i > 0 {
            assert(signed_decimal(a)[i] == decimal(ma)[i - 1]);
        } else if a >= 0 {
            assert(signed_decimal(a)[i] == decimal(ma)[i]);
        }
    }
}

/// Trimming a trimmed text changes nothing.
pub proof fn lemma_trimmed_twice(s: Seq<char>)
    ensures
        trimmed(trimmed(s)) == trimmed(s),
    decreases s.len(),
{
    if s.len() > 0 && is_whitespace(s[0]) {
        lemma_trimmed_twice(s.drop_first());
    } else if s.len() > 0 && is_whitespace(s.last()) {
        lemma_trimmed_twice(s.drop_last());
    }
}

/// Trimming takes whitespace off both ends of a text and nothing else: around what
/// is left stands only whitespace, and none stands at its own ends.
pub proof fn law_trimming_takes_only_whitespace(s: Seq<char>) -> (from: int)
    ensures
        0 <= from,
        from + trimmed(s).len() <= s.len(),
        trimmed(s) == s.subrange(from, from + trimmed(s).len()),
        forall|i: int| 0 <= i < from ==> is_whitespace(#[trigger] s[i]),
        forall|i: int|
            from + trimmed(s).len() <= i < s.len() ==> is_whitespace(#[trigger] s[i]),
        trimmed(s).len() > 0 ==> !is_whitespace(trimmed(s)[0]) && !is_whitespace(
            trimmed(s).last(),
        ),
    decreases s.len(),
{
    if s.len() > 0 && is_whitespace(s[0]) {
        let rest = s.drop_first();
        let from = law_trimming_takes_only_whitespace(rest);
        assert(trimmed(s) =~= s.subrange(from + 1, from + 1 + trimmed(s).len()));
        assert forall|i: int| 0 <= i < from + 1 implies is_whitespace(#[trigger] s[i]) by {
            if i > 0 {
                assert(is_whitespace(rest[i - 1]));
            }
        }
        assert forall|i: int|
            from + 1 + trimmed(s).len() <= i < s.len() implies is_whitespace(#[trigger] s[i]) by {
            assert(is_whitespace(rest[i - 1]));
        }
        from + 1
    } else if s.len() > 0 && is_whitespace(s.last()) {
        let rest = s.drop_last();
        let from = law_trimming_takes_only_whitespace(rest);
        assert(trimmed(s) =~= s.subrange(from, from + trimmed(s).len()));
        assert forall|i: int| 0 <= i < from implies is_whitespace(#[trigger] s[i]) by {
            assert(is_whitespace(rest[i]));
        }
        assert forall|i: int|
            from + trimmed(s).len() <= i < s.len() implies is_whitespace(#[trigger] s[i]) by {
            if i < s.len() - 1 {
                assert(is_whitespace(rest[i]));
            }
        }
        from
    } else {
        assert(s.subrange(0, s.len() as int) =~= s);
        0
    }
}

/// A text starts with a prefix exactly when it is the prefix with something behind.
pub proof fn law_prefix_is_what_comes_first(s: Seq<char>, prefix: Seq<char>, rest: Seq<char>)
    ensures
        s == prefix + rest ==> has_prefix(s, prefix) && s.skip(prefix.len() as int) == rest,
        has_prefix(s, prefix) ==> s == prefix + s.skip(prefix.len() as int),
{
    lemma_prefix_cut_off(prefix, rest);
    if has_prefix(s, prefix) {
        assert(s =~= s.take(prefix.len() as int) + s.skip(prefix.len() as int));
    }
}

/// A text contains another exactly when it is that text with something before and
/// something behind.
pub proof fn law_part_stands_inside(before: Seq<char>, part: Seq<char>, behind: Seq<char>)
    ensures
        has_part(before + part + behind, part),
{
    let s = before + part + behind;
    assert(s.skip(before.len() as int) =~= part + behind);
    lemma_prefix_cut_off(part, behind);
}

/// What decimal digits stand for.
pub open spec fn digits_value(digits: Seq<char>) -> int
    decreases digits.len(),
{
    if digits.len() == 0 {
        0
    } else {
        10 * digits_value(digits.drop_last()) + (digits.last() as int - 48)
    }
}

/// The decimal digits of a number stand for the number, and it has no leading zero.
pub proof fn law_decimal_digits_stand_for_the_number(n: nat)
    ensures
        digits_value(decimal(n)) == n,
        decimal(n).len() > 0,
        forall|i: int| 0 <= i < decimal(n).len() ==> '0' <= #[trigger] decimal(n)[i] <= '9',
        n > 0 ==> decimal(n)[0] != '0',
        n == 0 ==> decimal(n) == seq!['0'],
    decreases n,
{
    reveal_with_fuel(digits_value, 2);
    if n < 10 {
        assert(decimal(n).drop_last() =~= Seq::<char>::empty());
        assert(decimal(n) =~= seq![(48 + n) as char]);
    } else {
        law_decimal_digits_stand_for_the_number(n / 10);
        assert(decimal(n).drop_last() =~= decimal(n / 10));
        assert(decimal(n)[0] == decimal(n / 10)[0]);
        assert forall|i: int| 0 <= i < decimal(n).len() implies '0' <= #[trigger] decimal(n)[i]
            <= '9' by {
            if i < decimal(n / 10).len() {
                assert(decimal(n)[i] == decimal(n / 10)[i]);
            }
        }
    }
}

/// Lowering a text lowers each letter `A` to `Z` to its small letter, and leaves
/// every other character as it is.
pub proof fn law_lowering_changes_only_capitals(s: Seq<char>)
    ensures
        ascii_lowercase(s).len() == s.len(),
        forall|i: int|
            0 <= i < s.len() && 'A' <= s[i] <= 'Z' ==> (#[trigger] ascii_lowercase(s)[i]) as u32
                == s[i] as u32 + 32,
        forall|i: int|
            0 <= i < s.len() && !('A' <= s[i] <= 'Z') ==> (#[trigger] ascii_lowercase(s)[i])
                == s[i],
{
}

/// Among the ASCII characters, whitespace is the space and the five from the tab to
/// the carriage return.
pub proof fn law_ascii_whitespace(c: char)
    requires
        (c as u32) < 0x80,
    ensures
        is_whitespace(c) <==> c == ' ' || (9 <= c as u32 && c as u32 <= 13),
{
}

/// A list of texts is modelled one by one, and a text that may be missing by itself.
pub proof fn law_texts_are_modelled_one_by_one(v: Seq<String>, s: String)
    ensures
        texts(v).len() == v.len(),
        forall|i: int| 0 <= i < v.len() ==> (#[trigger] texts(v)[i]) == v[i]@,
        opt_text(None) is None,
        opt_text(Some(s)) == Some(s@),
{
}

/// A text that may be missing and is borrowed is modelled by itself.
pub proof fn law_borrowed_text_is_modelled(s: &str)
    ensures
        opt_str(None) is None,
        opt_str(Some(s)) == Some(s@),
{
}

/// A text is split where the separator first stands: at the place before which it
/// stands nowhere.
pub proof fn law_text_is_split_where_the_separator_first_stands(
    s: Seq<char>,
    sep: Seq<char>,
    at: int,
)
    requires
        0 <= at <= s.len(),
        forall|j: int| 0 <= j < at ==> !has_prefix(#[trigger] s.skip(j), sep),
    ensures
        has_prefix(s.skip(at), sep) ==> split_at_first(s, sep) == Some(
            (s.take(at), s.skip(at + sep.len())),
        ),
        at == s.len() && !has_prefix(s.skip(at), sep) ==> split_at_first(s, sep) is None,
{
    lemma_split_at(s, sep, at);
}

/// A text is cut before the first of its characters that is wanted.
pub proof fn law_text_is_cut_before_what_is_wanted(s: Seq<char>, wanted: Seq<char>, at: int)
    requires
        0 <= at <= s.len(),
        forall|j: int| 0 <= j < at ==> !wanted.contains(#[trigger] s[j]),
    ensures
        at < s.len() && wanted.contains(s[at]) ==> before_first_of(s, wanted) == Some(s.take(at)),
        at == s.len() ==> before_first_of(s, wanted) is None,
{
    lemma_before_first(s, wanted, at);
}

/// What stands behind the last of a character is what follows it and holds none; the
/// whole text where it holds none.
pub proof fn law_text_behind_the_last(before: Seq<char>, behind: Seq<char>, c: char)
    requires
        !behind.contains(c),
    ensures
        after_last_of(before.push(c) + behind, c) == behind,
        after_last_of(behind, c) == behind,
    decreases behind.len(),
{
    let s = before.push(c) + behind;
    if behind.len() == 0 {
        assert(s =~= before.push(c));
        assert(behind =~= Seq::<char>::empty());
    } else {
        let rest = behind.drop_last();
        assert(!rest.contains(c)) by {
            if rest.contains(c) {
                let i = choose|i: int| 0 <= i < rest.len() && rest[i] == c;
                assert(behind[i] == c);
            }
        }
        law_text_behind_the_last(before, rest, c);
        assert(s.drop_last() =~= before.push(c) + rest);
        assert(s.last() == behind[behind.len() - 1]);
        assert(behind[behind.len() - 1] != c);
        assert(rest.push(behind.last()) =~= behind);
    }
}

/// Where a text contains another, that stands at some place in it.
pub proof fn law_contained_text_stands_somewhere(s: Seq<char>, part: Seq<char>)
    requires
        has_part(s, part),
    ensures
        exists|i: int|
            0 <= i && i + part.len() <= s.len() && part == #[trigger] s.subrange(
                i,
                i + part.len(),
            ),
{
    let i = choose|i: int| 0 <= i <= s.len() && has_prefix(#[trigger] s.skip(i), part);
    assert(s.skip(i).take(part.len() as int) =~= s.subrange(i, i + part.len()));
}

/// Two hexadecimal digits are those of the upper and the lower half of a byte.
pub proof fn law_two_hex_digits(b: u8, upper: bool)
    ensures
        hex(b as nat, 2, upper) == seq![
            hex_char(b as nat / 16, upper),
            hex_char(b as nat % 16, upper),
        ],
        forall|d: nat| d < 10 ==> (#[trigger] hex_char(d, upper)) as u32 == '0' as u32 + d,
        forall|d: nat|
            10 <= d < 16 ==> (#[trigger] hex_char(d, true)) as u32 == 'A' as u32 + (d - 10),
        forall|d: nat|
            10 <= d < 16 ==> (#[trigger] hex_char(d, false)) as u32 == 'a' as u32 + (d - 10),
{
    reveal_with_fuel(hex, 3);
    assert(hex(b as nat, 2, upper) =~= seq![
        hex_char((b as nat / 16) % 16, upper),
        hex_char(b as nat % 16, upper),
    ]);
}

/// A number has as many hexadecimal digits as are asked for, the last of which is
/// the digit of its last sixteenth.
pub proof fn law_hex_digits_one_by_one(n: nat, width: nat, upper: bool)
    ensures
        hex(n, width, upper).len() == width,
        width > 0 ==> hex(n, width, upper).last() == hex_char(n % 16, upper) && hex(
            n,
            width,
            upper,
        ).drop_last() == hex(n / 16, (width - 1) as nat, upper),
    decreases width,
{
    if width > 0 {
        law_hex_digits_one_by_one(n / 16, (width - 1) as nat, upper);
        let rest = hex(n / 16, (width - 1) as nat, upper);
        assert(rest.push(hex_char(n % 16, upper)).drop_last() =~= rest);
    }
}

/// A number below zero is written as a minus sign and the digits of its opposite.
pub proof fn law_signed_numbers_are_written(n: int)
    ensures
        n >= 0 ==> signed_decimal(n) == decimal(n as nat),
        n < 0 ==> signed_decimal(n) == seq!['-'] + decimal((-n) as nat),
{
}

/// Beyond ASCII, whitespace is the next line, the no-break spaces, and the spaces and
/// separators of the general punctuation.
pub proof fn law_other_whitespace(c: char)
    requires
        c as u32 >= 0x80,
    ensures
        is_whitespace(c) <==> c as u32 == 0x85 || c as u32 == 0xa0 || c as u32 == 0x1680 || (0x2000
            <= c as u32 && c as u32 <= 0x200a) || c as u32 == 0x2028 || c as u32 == 0x2029
            || c as u32 == 0x202f || c as u32 == 0x205f || c as u32 == 0x3000,
{
}

/// The ASCII letters and digits.
pub proof fn law_ascii_letters_and_digits(c: char)
    ensures
        is_ascii_alphanumeric(c) <==> (65 <= c as u32 && c as u32 <= 90) || (97 <= c as u32
            && c as u32 <= 122) || (48 <= c as u32 && c as u32 <= 57),
{
}

} // verus!
