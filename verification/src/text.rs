//! Character classes, UTF-8 byte lengths and the byte order of strings.

use vstd::prelude::*;
use vstd::utf8::encode_utf8;

verus! {

/// The length in bytes of the UTF-8 encoding of `s`.
pub open spec fn byte_len(s: Seq<char>) -> nat {
    encode_utf8(s).len()
}

/// The length in bytes of a string slice.
pub fn str_byte_len(s: &str) -> (r: usize)
    ensures
        r == byte_len(s@),
{
    s.as_bytes().len()
}

/// An ASCII letter or digit.
pub open spec fn is_ascii_alphanumeric(c: char) -> bool {
    ('a' <= c && c <= 'z') || ('A' <= c && c <= 'Z') || ('0' <= c && c <= '9')
}

/// A printable ASCII character other than space (`!` through `~`).
pub open spec fn is_ascii_graphic(c: char) -> bool {
    '!' <= c && c <= '~'
}

/// A character of the Unicode general category `Cc`.
pub open spec fn is_control(c: char) -> bool {
    c <= '\u{1f}' || ('\u{7f}' <= c && c <= '\u{9f}')
}

/// A lowercase ASCII letter.
pub open spec fn is_ascii_lowercase(c: char) -> bool {
    'a' <= c && c <= 'z'
}

/// An ASCII decimal digit.
pub open spec fn is_ascii_digit(c: char) -> bool {
    '0' <= c && c <= '9'
}

/// Whether some character of `s` is a control character.
pub open spec fn has_control(s: Seq<char>) -> bool {
    exists|i: int| 0 <= i < s.len() && #[trigger] is_control(s[i])
}

/// Whether every character of `s` is printable ASCII other than space.
pub open spec fn all_ascii_graphic(s: Seq<char>) -> bool {
    forall|i: int| 0 <= i < s.len() ==> #[trigger] is_ascii_graphic(s[i])
}

/// Executable form of [`is_control`].
pub fn char_is_control(c: char) -> (r: bool)
    ensures
        r == is_control(c),
{
    c <= '\u{1f}' || ('\u{7f}' <= c && c <= '\u{9f}')
}

/// Executable form of [`is_ascii_graphic`].
pub fn char_is_ascii_graphic(c: char) -> (r: bool)
    ensures
        r == is_ascii_graphic(c),
{
    '!' <= c && c <= '~'
}

/// Whether some character of the slice is a control character.
pub fn str_has_control(s: &str) -> (r: bool)
    ensures
        r == has_control(s@),
{
    let mut found = false;
    for c in it: s.chars()
        invariant
            it.seq() == s@,
            found == (exists|i: int| 0 <= i < it.index() && #[trigger] is_control(s@[i])),
    {
        if char_is_control(c) {
            found = true;
        }
    }
    found
}

/// Whether every character of the slice is printable ASCII other than space.
pub fn str_all_ascii_graphic(s: &str) -> (r: bool)
    ensures
        r == all_ascii_graphic(s@),
{
    let mut bad = false;
    for c in it: s.chars()
        invariant
            it.seq() == s@,
            bad == (exists|i: int| 0 <= i < it.index() && !#[trigger] is_ascii_graphic(s@[i])),
    {
        if !char_is_ascii_graphic(c) {
            bad = true;
        }
    }
    !bad
}

/// Strict lexicographic order on byte sequences; a proper prefix comes first.
pub open spec fn lex_lt(a: Seq<u8>, b: Seq<u8>) -> bool
    decreases a.len(),
{
    if a.len() == 0 {
        b.len() > 0
    } else if b.len() == 0 {
        false
    } else if a[0] < b[0] {
        true
    } else if a[0] > b[0] {
        false
    } else {
        lex_lt(a.drop_first(), b.drop_first())
    }
}

/// The order of `String` keys: lexicographic on their UTF-8 bytes.
pub open spec fn key_lt(a: Seq<char>, b: Seq<char>) -> bool {
    lex_lt(encode_utf8(a), encode_utf8(b))
}

/// No byte sequence comes before itself.
pub proof fn lemma_lex_irreflexive(a: Seq<u8>)
    ensures
        !lex_lt(a, a),
    decreases a.len(),
{
    if a.len() > 0 {
        lemma_lex_irreflexive(a.drop_first());
    }
}

/// The byte order is transitive.
pub proof fn lemma_lex_transitive(a: Seq<u8>, b: Seq<u8>, c: Seq<u8>)
    requires
        lex_lt(a, b),
        lex_lt(b, c),
    ensures
        lex_lt(a, c),
    decreases a.len(),
{
    if a.len() > 0 && b.len() > 0 && c.len() > 0 && a[0] == b[0] && b[0] == c[0] {
        lemma_lex_transitive(a.drop_first(), b.drop_first(), c.drop_first());
    }
}

/// Two distinct byte sequences are ordered one way or the other.
pub proof fn lemma_lex_total(a: Seq<u8>, b: Seq<u8>)
    ensures
        a =~= b || lex_lt(a, b) || lex_lt(b, a),
    decreases a.len(),
{
    if a.len() > 0 && b.len() > 0 && a[0] == b[0] {
        lemma_lex_total(a.drop_first(), b.drop_first());
        if a.drop_first() =~= b.drop_first() {
            assert(a =~= seq![a[0]] + a.drop_first());
            assert(b =~= seq![b[0]] + b.drop_first());
        }
    }
}

/// Distinct strings are ordered one way or the other.
pub proof fn lemma_key_total(a: Seq<char>, b: Seq<char>)
    ensures
        a == b || key_lt(a, b) || key_lt(b, a),
{
    broadcast use vstd::utf8::encode_utf8_decode_utf8;
    lemma_lex_total(encode_utf8(a), encode_utf8(b));
    if encode_utf8(a) =~= encode_utf8(b) {
        assert(vstd::utf8::decode_utf8(encode_utf8(a)) == a);
        assert(vstd::utf8::decode_utf8(encode_utf8(b)) == b);
    }
}

/// A key never comes before itself.
pub proof fn lemma_key_irreflexive(a: Seq<char>)
    ensures
        !key_lt(a, a),
{
    lemma_lex_irreflexive(encode_utf8(a));
}

/// The key order is transitive.
pub proof fn lemma_key_transitive(a: Seq<char>, b: Seq<char>, c: Seq<char>)
    requires
        key_lt(a, b),
        key_lt(b, c),
    ensures
        key_lt(a, c),
{
    lemma_lex_transitive(encode_utf8(a), encode_utf8(b), encode_utf8(c));
}

/// Whether `a` comes strictly before `b` in byte order.
pub fn bytes_lt(a: &[u8], b: &[u8]) -> (r: bool)
    ensures
        r == lex_lt(a@, b@),
{
    let mut i: usize = 0;
    assert(a@.skip(0) =~= a@);
    assert(b@.skip(0) =~= b@);
    while i < a.len() && i < b.len()
        invariant
            i <= a@.len(),
            i <= b@.len(),
            lex_lt(a@, b@) == lex_lt(a@.skip(i as int), b@.skip(i as int)),
        decreases a.len() - i,
    {
        if a[i] != b[i] {
            return a[i] < b[i];
        }
        assert(a@.skip(i as int).drop_first() =~= a@.skip(i + 1));
        assert(b@.skip(i as int).drop_first() =~= b@.skip(i + 1));
        i += 1;
    }
    i < b.len()
}

/// Whether the string `a` comes strictly before `b` in `String` order.
pub fn str_lt(a: &str, b: &str) -> (r: bool)
    ensures
        r == key_lt(a@, b@),
{
    bytes_lt(a.as_bytes(), b.as_bytes())
}

/// Whether two strings hold the same characters.
pub fn str_eq(a: &String, b: &String) -> (r: bool)
    ensures
        r == (a@ == b@),
{
    *a == *b
}


/// A character of the Unicode `White_Space` property (what `char::is_whitespace`
/// and `str::trim` test).
pub open spec fn is_white_space(c: char) -> bool {
    ('\u{9}' <= c && c <= '\u{d}') || c == ' ' || c == '\u{85}' || c == '\u{a0}' || c == '\u{1680}'
        || ('\u{2000}' <= c && c <= '\u{200a}') || c == '\u{2028}' || c == '\u{2029}' || c == '\u{202f}'
        || c == '\u{205f}' || c == '\u{3000}'
}

/// Executable form of [`is_white_space`].
pub fn char_is_white_space(c: char) -> (r: bool)
    ensures
        r == is_white_space(c),
{
    ('\u{9}' <= c && c <= '\u{d}') || c == ' ' || c == '\u{85}' || c == '\u{a0}' || c == '\u{1680}'
        || ('\u{2000}' <= c && c <= '\u{200a}') || c == '\u{2028}' || c == '\u{2029}' || c == '\u{202f}'
        || c == '\u{205f}' || c == '\u{3000}'
}

/// `s` without its leading white space.
pub open spec fn trim_start(s: Seq<char>) -> Seq<char>
    decreases s.len(),
{
    if s.len() > 0 && is_white_space(s[0]) {
        trim_start(s.drop_first())
    } else {
        s
    }
}

/// `s` without its trailing white space.
pub open spec fn trim_end(s: Seq<char>) -> Seq<char>
    decreases s.len(),
{
    if s.len() > 0 && is_white_space(s.last()) {
        trim_end(s.drop_last())
    } else {
        s
    }
}

/// `s` without leading and trailing white space.
pub open spec fn trim(s: Seq<char>) -> Seq<char> {
    trim_end(trim_start(s))
}

/// The characters of `s` before its first white space.
pub open spec fn take_word(s: Seq<char>) -> Seq<char>
    decreases s.len(),
{
    if s.len() == 0 || is_white_space(s[0]) {
        Seq::empty()
    } else {
        seq![s[0]] + take_word(s.drop_first())
    }
}

/// The first white-space-separated word of `s`, if it has one.
pub open spec fn first_word(s: Seq<char>) -> Option<Seq<char>> {
    if trim_start(s).len() == 0 {
        None
    } else {
        Some(take_word(trim_start(s)))
    }
}

/// Whether `c` is one of the characters `.`, `,`, `;`, `:`.
pub open spec fn is_clause_punct(c: char) -> bool {
    c == '.' || c == ',' || c == ';' || c == ':'
}

/// `s` without its trailing `.`, `,`, `;` and `:` characters.
pub open spec fn trim_end_punct(s: Seq<char>) -> Seq<char>
    decreases s.len(),
{
    if s.len() > 0 && is_clause_punct(s.last()) {
        trim_end_punct(s.drop_last())
    } else {
        s
    }
}

/// The characters of a string slice, in order.
pub fn chars_of(s: &str) -> (r: Vec<char>)
    ensures
        r@ == s@,
{
    let mut r: Vec<char> = Vec::new();
    for c in it: s.chars()
        invariant
            it.seq() == s@,
            r@ == s@.take(it.index() as int),
    {
        assert(s@.take(it.index() + 1) =~= s@.take(it.index() as int).push(c));
        r.push(c);
    }
    assert(s@.take(s@.len() as int) =~= s@);
    r
}

proof fn lemma_trim_start_step(s: Seq<char>, i: int)
    requires
        0 <= i < s.len(),
        is_white_space(s[i]),
    ensures
        trim_start(s.subrange(i, s.len() as int)) == trim_start(s.subrange(i + 1, s.len() as int)),
{
    assert(s.subrange(i, s.len() as int).drop_first() =~= s.subrange(i + 1, s.len() as int));
}

proof fn lemma_trim_end_step(s: Seq<char>, j: int)
    requires
        0 < j <= s.len(),
        is_white_space(s[j - 1]),
    ensures
        trim_end(s.subrange(0, j)) == trim_end(s.subrange(0, j - 1)),
{
    assert(s.subrange(0, j).drop_last() =~= s.subrange(0, j - 1));
}

proof fn lemma_take_word_step(s: Seq<char>, k: int)
    requires
        0 <= k < s.len(),
        !is_white_space(s[k]),
    ensures
        take_word(s.subrange(k, s.len() as int)) == seq![s[k]] + take_word(s.subrange(k + 1, s.len() as int)),
{
    assert(s.subrange(k, s.len() as int).drop_first() =~= s.subrange(k + 1, s.len() as int));
}

/// The index of the first character of `cs` at or after `from` that is not
/// white space (or its length).
fn skip_white_space(cs: &Vec<char>, from: usize) -> (r: usize)
    requires
        from <= cs@.len(),
    ensures
        from <= r <= cs@.len(),
        trim_start(cs@.subrange(from as int, cs@.len() as int)) == cs@.subrange(r as int, cs@.len() as int),
        forall|t: int| from <= t < r ==> is_white_space(#[trigger] cs@[t]),
{
    let mut i = from;
    while i < cs.len() && char_is_white_space(cs[i])
        invariant
            from <= i <= cs@.len(),
            trim_start(cs@.subrange(from as int, cs@.len() as int)) == trim_start(cs@.subrange(i as int, cs@.len() as int)),
            forall|t: int| from <= t < i ==> is_white_space(#[trigger] cs@[t]),
        decreases cs@.len() - i,
    {
        proof { lemma_trim_start_step(cs@, i as int); }
        i += 1;
    }
    proof {
        let rest = cs@.subrange(i as int, cs@.len() as int);
        if rest.len() > 0 {
            assert(rest[0] == cs@[i as int]);
        }
    }
    i
}

/// The white-space-trimmed part of a string slice.
pub fn trim_str(s: &str) -> (r: String)
    ensures
        r@ == trim(s@),
{
    let cs = chars_of(s);
    let start = skip_white_space(&cs, 0);
    assert(cs@.subrange(0, cs@.len() as int) =~= cs@);
    let ghost t = cs@.subrange(start as int, cs@.len() as int);
    let mut end = cs.len();
    assert(t.subrange(0, end - start) =~= t);
    while end > start && char_is_white_space(cs[end - 1])
        invariant
            start <= end <= cs@.len(),
            t == cs@.subrange(start as int, cs@.len() as int),
            trim_end(t) == trim_end(t.subrange(0, end - start)),
        decreases end,
    {
        proof { lemma_trim_end_step(t, end - start); }
        end -= 1;
    }
    proof {
        let u = t.subrange(0, end - start);
        if u.len() > 0 {
            assert(u.last() == cs@[end - 1]);
        }
        assert(u =~= cs@.subrange(start as int, end as int));
    }
    String::from_str(s.substring_char(start, end))
}

/// The first white-space-separated word of `s`, or `None` when `s` holds
/// only white space.
pub fn first_word_of(s: &str) -> (r: Option<String>)
    ensures
        r matches Some(w) ==> first_word(s@) == Some(w@),
        r is None ==> first_word(s@) is None,
{
    let cs = chars_of(s);
    let start = skip_white_space(&cs, 0);
    assert(cs@.subrange(0, cs@.len() as int) =~= cs@);
    if start == cs.len() {
        return None;
    }
    let mut k = start;
    while k < cs.len() && !char_is_white_space(cs[k])
        invariant
            start <= k <= cs@.len(),
            take_word(cs@.subrange(start as int, cs@.len() as int))
                == cs@.subrange(start as int, k as int) + take_word(cs@.subrange(k as int, cs@.len() as int)),
        decreases cs@.len() - k,
    {
        proof {
            lemma_take_word_step(cs@, k as int);
            assert(cs@.subrange(start as int, k + 1) =~= cs@.subrange(start as int, k as int) + seq![cs@[k as int]]);
        }
        k += 1;
    }
    proof {
        let rest = cs@.subrange(k as int, cs@.len() as int);
        if rest.len() > 0 {
            assert(rest[0] == cs@[k as int]);
        }
        assert(take_word(rest) =~= Seq::<char>::empty());
        assert(cs@.subrange(start as int, k as int) + Seq::<char>::empty() =~= cs@.subrange(start as int, k as int));
    }
    Some(String::from_str(s.substring_char(start, k)))
}

/// `s` without its trailing `.`, `,`, `;` and `:` characters.
pub fn trim_end_punct_str(s: &str) -> (r: String)
    ensures
        r@ == trim_end_punct(s@),
{
    let cs = chars_of(s);
    let mut end = cs.len();
    assert(cs@.subrange(0, cs@.len() as int) =~= cs@);
    while end > 0 && (cs[end - 1] == '.' || cs[end - 1] == ',' || cs[end - 1] == ';' || cs[end - 1] == ':')
        invariant
            end <= cs@.len(),
            trim_end_punct(cs@) == trim_end_punct(cs@.subrange(0, end as int)),
        decreases end,
    {
        assert(cs@.subrange(0, end as int).drop_last() =~= cs@.subrange(0, end - 1));
        end -= 1;
    }
    proof {
        let u = cs@.subrange(0, end as int);
        if u.len() > 0 {
            assert(u.last() == cs@[end - 1]);
        }
    }
    String::from_str(s.substring_char(0, end))
}

/// The decimal digit character for `d < 10`.
pub open spec fn digit_char(d: nat) -> char {
    if d == 0 { '0' } else if d == 1 { '1' } else if d == 2 { '2' } else if d == 3 { '3' } else if d == 4 { '4' }
    else if d == 5 { '5' } else if d == 6 { '6' } else if d == 7 { '7' } else if d == 8 { '8' } else { '9' }
}

/// The decimal representation of `n`, without leading zeros.
pub open spec fn decimal(n: nat) -> Seq<char>
    decreases n,
{
    if n < 10 {
        seq![digit_char(n)]
    } else {
        decimal(n / 10).push(digit_char(n % 10))
    }
}

/// The decimal representation of `n`, padded with zeros to at least three
/// digits.
pub open spec fn decimal_pad3(n: nat) -> Seq<char> {
    if n < 10 {
        seq!['0', '0'] + decimal(n)
    } else if n < 100 {
        seq!['0'] + decimal(n)
    } else {
        decimal(n)
    }
}

fn digit_str(d: u64) -> (r: &'static str)
    requires
        d < 10,
    ensures
        r@ == seq![digit_char(d as nat)],
{
    proof {
        reveal_strlit("0"); reveal_strlit("1"); reveal_strlit("2"); reveal_strlit("3"); reveal_strlit("4");
        reveal_strlit("5"); reveal_strlit("6"); reveal_strlit("7"); reveal_strlit("8"); reveal_strlit("9");
    }
    if d == 0 { "0" } else if d == 1 { "1" } else if d == 2 { "2" } else if d == 3 { "3" } else if d == 4 { "4" }
    else if d == 5 { "5" } else if d == 6 { "6" } else if d == 7 { "7" } else if d == 8 { "8" } else { "9" }
}

/// Appends the decimal representation of `n` to `out`.
pub fn push_decimal(out: &mut String, n: u64)
    ensures
        final(out)@ == old(out)@ + decimal(n as nat),
    decreases n,
{
    if n >= 10 {
        push_decimal(out, n / 10);
    }
    out.append(digit_str(n % 10));
    proof {
        if n >= 10 {
            assert(old(out)@ + decimal((n / 10) as nat) + seq![digit_char((n % 10) as nat)]
                =~= old(out)@ + decimal(n as nat));
        } else {
            assert(n % 10 == n);
        }
    }
}

/// Appends `n` in decimal, zero-padded to at least three digits.
pub fn push_decimal_pad3(out: &mut String, n: u64)
    ensures
        final(out)@ == old(out)@ + decimal_pad3(n as nat),
{
    proof { reveal_strlit("00"); reveal_strlit("0"); }
    if n < 10 {
        out.append("00");
    } else if n < 100 {
        out.append("0");
    }
    push_decimal(out, n);
    proof {
        if n < 10 {
            assert(old(out)@ + seq!['0', '0'] + decimal(n as nat) =~= old(out)@ + decimal_pad3(n as nat));
        } else if n < 100 {
            assert(old(out)@ + seq!['0'] + decimal(n as nat) =~= old(out)@ + decimal_pad3(n as nat));
        }
    }
}

/// The Unicode lowercase mapping of a string, as `str::to_lowercase`
/// computes it (the Unicode `Lowercase` mapping, including its
/// context-dependent cases).
pub uninterp spec fn lowercase(s: Seq<char>) -> Seq<char>;

/// Whether every character of `s` is ASCII.
pub open spec fn all_ascii(s: Seq<char>) -> bool {
    forall|i: int| 0 <= i < s.len() ==> #[trigger] s[i] <= '\u{7f}'
}

/// `s` with `A` through `Z` mapped to `a` through `z`.
pub open spec fn ascii_lower(s: Seq<char>) -> Seq<char> {
    s.map_values(|c: char| if 'A' <= c && c <= 'Z' { ((c as u32) + 32) as char } else { c })
}

/// Calls `str::to_lowercase`. Its result is a function of the argument
/// alone, named [`lowercase`]; on ASCII input it maps `A` through `Z` to
/// `a` through `z` and keeps every other character. Nothing else is stated
/// of the Unicode mapping.
#[verifier::external_body]
pub(crate) fn to_lowercase(s: &str) -> (r: String)
    ensures
        r@ == lowercase(s@),
        all_ascii(s@) ==> r@ == ascii_lower(s@),
{
    s.to_lowercase()
}

/// Whether `s` begins with `prefix`.
pub open spec fn has_prefix(s: Seq<char>, prefix: Seq<char>) -> bool {
    prefix.len() <= s.len() && s.subrange(0, prefix.len() as int) == prefix
}

/// Whether the string begins with the characters of `prefix`.
pub fn starts_with(s: &str, prefix: &str) -> (r: bool)
    ensures
        r == has_prefix(s@, prefix@),
{
    let cs = chars_of(s);
    let ps = chars_of(prefix);
    if ps.len() > cs.len() {
        return false;
    }
    let mut i: usize = 0;
    while i < ps.len()
        invariant
            cs@ == s@,
            ps@ == prefix@,
            ps@.len() <= cs@.len(),
            i <= ps@.len(),
            forall|t: int| 0 <= t < i ==> cs@[t] == ps@[t],
        decreases ps@.len() - i,
    {
        if cs[i] != ps[i] {
            proof {
                let sub = cs@.subrange(0, ps@.len() as int);
                assert(sub[i as int] == cs@[i as int]);
                assert(sub != ps@);
            }
            return false;
        }
        i += 1;
    }
    assert(cs@.subrange(0, ps@.len() as int) =~= ps@);
    true
}

/// Whether `s` ends with `suffix`.
pub open spec fn has_suffix(s: Seq<char>, suffix: Seq<char>) -> bool {
    suffix.len() <= s.len() && s.subrange(s.len() - suffix.len(), s.len() as int) == suffix
}

/// Whether the string ends with the characters of `suffix`.
pub fn ends_with(s: &str, suffix: &str) -> (r: bool)
    ensures
        r == has_suffix(s@, suffix@),
{
    let cs = chars_of(s);
    let ps = chars_of(suffix);
    if ps.len() > cs.len() {
        return false;
    }
    let offset = cs.len() - ps.len();
    let mut i: usize = 0;
    while i < ps.len()
        invariant
            cs@ == s@,
            ps@ == suffix@,
            ps@.len() <= cs@.len(),
            offset == cs@.len() - ps@.len(),
            offset + ps.len() == cs.len(),
            i <= ps@.len(),
            forall|t: int| 0 <= t < i ==> cs@[offset + t] == ps@[t],
        decreases ps@.len() - i,
    {
        if cs[offset + i] != ps[i] {
            proof {
                let sub = cs@.subrange(offset as int, cs@.len() as int);
                assert(sub[i as int] == cs@[offset + i]);
                assert(sub != ps@);
            }
            return false;
        }
        i += 1;
    }
    assert(cs@.subrange(offset as int, cs@.len() as int) =~= ps@);
    true
}

/// The number the decimal digits of `s` spell (leading zeros allowed).
pub open spec fn digits_value(s: Seq<char>) -> nat
    decreases s.len(),
{
    if s.len() == 0 {
        0
    } else {
        digits_value(s.drop_last()) * 10 + digit_of(s.last())
    }
}

/// The value of a decimal digit character.
pub open spec fn digit_of(c: char) -> nat {
    if '0' <= c && c <= '9' { ((c as u32) - ('0' as u32)) as nat } else { 0 }
}

proof fn lemma_digit_roundtrip(d: nat)
    requires
        d < 10,
    ensures
        digit_of(digit_char(d)) == d,
{
    assert(digit_of('0') == 0 && digit_of('1') == 1 && digit_of('2') == 2 && digit_of('3') == 3
        && digit_of('4') == 4 && digit_of('5') == 5 && digit_of('6') == 6 && digit_of('7') == 7
        && digit_of('8') == 8 && digit_of('9') == 9);
}

/// Decimal representation and digit value are inverse.
pub proof fn lemma_decimal_value(n: nat)
    ensures
        digits_value(decimal(n)) == n,
    decreases n,
{
    if n < 10 {
        lemma_digit_roundtrip(n);
        let d = decimal(n);
        assert(d == seq![digit_char(n)]);
        assert(d.drop_last() =~= Seq::<char>::empty());
        assert(digits_value(d.drop_last()) == 0);
        assert(d.last() == digit_char(n));
        assert(digits_value(d) == digits_value(d.drop_last()) * 10 + digit_of(d.last()));
    } else {
        lemma_digit_roundtrip(n % 10);
        lemma_decimal_value(n / 10);
        assert(decimal(n).drop_last() =~= decimal(n / 10));
        assert((n / 10) * 10 + n % 10 == n) by (nonlinear_arith);
    }
}

proof fn lemma_zero_prefix_value(s: Seq<char>)
    ensures
        digits_value(seq!['0'] + s) == digits_value(s),
    decreases s.len(),
{
    let z = seq!['0'] + s;
    if s.len() == 0 {
        assert(z.drop_last() =~= Seq::<char>::empty());
        assert(digits_value(z.drop_last()) == 0);
        assert(z.last() == '0');
        assert(digit_of('0') == 0);
        assert(digits_value(z) == digits_value(z.drop_last()) * 10 + digit_of(z.last()));
    } else {
        lemma_zero_prefix_value(s.drop_last());
        assert((seq!['0'] + s).drop_last() =~= seq!['0'] + s.drop_last());
        assert((seq!['0'] + s).last() == s.last());
    }
}

/// Zero-padded decimal representation and digit value are inverse.
pub proof fn lemma_decimal_pad3_value(n: nat)
    ensures
        digits_value(decimal_pad3(n)) == n,
{
    lemma_decimal_value(n);
    if n < 10 {
        lemma_zero_prefix_value(decimal(n));
        lemma_zero_prefix_value(seq!['0'] + decimal(n));
        assert(seq!['0', '0'] + decimal(n) =~= seq!['0'] + (seq!['0'] + decimal(n)));
    } else if n < 100 {
        lemma_zero_prefix_value(decimal(n));
    }
}

/// Whether two string slices hold the same characters.
pub fn strs_equal(a: &str, b: &str) -> (r: bool)
    ensures
        r == (a@ == b@),
{
    let xs = chars_of(a);
    let ys = chars_of(b);
    if xs.len() != ys.len() {
        return false;
    }
    let mut i: usize = 0;
    while i < xs.len()
        invariant
            xs@ == a@,
            ys@ == b@,
            xs@.len() == ys@.len(),
            i <= xs@.len(),
            forall|t: int| 0 <= t < i ==> xs@[t] == ys@[t],
        decreases xs@.len() - i,
    {
        if xs[i] != ys[i] {
            return false;
        }
        i += 1;
    }
    assert(xs@ =~= ys@);
    true
}

/// The decimal representation of `n`, padded with zeros to at least four
/// digits.
pub open spec fn decimal_pad4(n: nat) -> Seq<char> {
    if n < 1000 {
        seq!['0'] + decimal_pad3(n)
    } else {
        decimal(n)
    }
}

/// Appends `n` in decimal, zero-padded to at least four digits.
pub fn push_decimal_pad4(out: &mut String, n: u64)
    ensures
        final(out)@ == old(out)@ + decimal_pad4(n as nat),
{
    proof {
        reveal_strlit("0");
    }
    if n < 1000 {
        out.append("0");
        push_decimal_pad3(out, n);
        assert(old(out)@ + seq!['0'] + decimal_pad3(n as nat) =~= old(out)@ + decimal_pad4(n as nat));
    } else {
        push_decimal(out, n);
    }
}

/// Zero-padded four-digit decimal representation and digit value are
/// inverse.
pub proof fn lemma_decimal_pad4_value(n: nat)
    ensures
        digits_value(decimal_pad4(n)) == n,
{
    lemma_decimal_pad3_value(n);
    lemma_decimal_value(n);
    if n < 1000 {
        lemma_zero_prefix_value(decimal_pad3(n));
    }
}

} // verus!
