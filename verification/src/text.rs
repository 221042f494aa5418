//! Character-level text utilities: searching, decimal numbers, trimming.

use vstd::prelude::*;

verus! {

/// `needle` occurs in `hay` starting at index `i`.
pub open spec fn occurs_at(hay: Seq<char>, needle: Seq<char>, i: int) -> bool {
    0 <= i && i + needle.len() <= hay.len() && hay.subrange(i, i + needle.len()) == needle
}

/// The first index at or after `from` at which `needle` occurs in `hay`.
pub open spec fn find_from(hay: Seq<char>, needle: Seq<char>, from: int) -> Option<int>
    decreases hay.len() + 1 - from,
{
    if from < 0 || from + needle.len() > hay.len() {
        None
    } else if occurs_at(hay, needle, from) {
        Some(from)
    } else {
        find_from(hay, needle, from + 1)
    }
}

/// What `find_from` returns is a true first occurrence.
pub proof fn lemma_find_from(hay: Seq<char>, needle: Seq<char>, from: int)
    requires
        0 <= from,
    ensures
        match find_from(hay, needle, from) {
            Some(i) => from <= i && occurs_at(hay, needle, i) && i + needle.len() <= hay.len()
                && forall|j: int| from <= j < i ==> !occurs_at(hay, needle, j),
            None => forall|j: int| from <= j ==> !occurs_at(hay, needle, j),
        },
    decreases hay.len() + 1 - from,
{
    if from + needle.len() > hay.len() {
    } else if occurs_at(hay, needle, from) {
    } else {
        lemma_find_from(hay, needle, from + 1);
    }
}

/// The text between the first `open` at or after `from` and the first `close`
/// after it, as in `<Tag>text</Tag>`.
pub open spec fn tag_text(hay: Seq<char>, open: Seq<char>, close: Seq<char>, from: int) -> Option<
    Seq<char>,
> {
    match find_from(hay, open, from) {
        None => None,
        Some(p) => match find_from(hay, close, p + open.len()) {
            None => None,
            Some(e) => Some(hay.subrange(p + open.len(), e)),
        },
    }
}

/// The characters of an optional text.
pub open spec fn opt_chars(o: Option<String>) -> Option<Seq<char>> {
    match o {
        Some(s) => Some(s@),
        None => None,
    }
}

/// `o`'s text, or `default` when there is none.
pub open spec fn text_or(o: Option<Seq<char>>, default: Seq<char>) -> Seq<char> {
    match o {
        Some(t) => t,
        None => default,
    }
}

/// Copies the characters of `s` into a vector.
pub fn chars_of(s: &str) -> (v: Vec<char>)
    ensures
        v@ == s@,
{
    let mut v: Vec<char> = Vec::new();
    for c in iter: s.chars()
        invariant
            iter.seq() == s@,
            v@ == iter.seq().take(iter.index() as int),
    {
        assert(iter.seq().take(iter.index() + 1) =~= iter.seq().take(iter.index() as int).push(c));
        v.push(c);
    }
    assert(v@ =~= s@);
    v
}


/// Whether `needle` occurs in `hay` at index `i`.
pub fn occurs_at_exec(hay: &Vec<char>, needle: &Vec<char>, i: usize) -> (b: bool)
    ensures
        b == occurs_at(hay@, needle@, i as int),
{
    if i > hay.len() || needle.len() > hay.len() - i {
        return false;
    }
    let mut k: usize = 0;
    while k < needle.len()
        invariant
            i + needle.len() <= hay.len(),
            k <= needle.len(),
            forall|m: int| 0 <= m < k ==> hay@[i + m] == needle@[m],
        decreases needle.len() - k,
    {
        if hay[i + k] != needle[k] {
            assert(hay@.subrange(i as int, i + needle.len())[k as int] != needle@[k as int]);
            return false;
        }
        k += 1;
    }
    assert(hay@.subrange(i as int, i + needle.len()) =~= needle@);
    true
}

/// The first index at or after `from` at which `needle` occurs in `hay`.
pub fn find_chars(hay: &Vec<char>, needle: &Vec<char>, from: usize) -> (r: Option<usize>)
    ensures
        match r {
            Some(i) => find_from(hay@, needle@, from as int) == Some(i as int) && i
                + needle@.len() <= hay@.len() <= usize::MAX,
            None => find_from(hay@, needle@, from as int) is None,
        },
{
    let mut i = from;
    while i <= hay.len() && needle.len() <= hay.len() - i
        invariant
            find_from(hay@, needle@, from as int) == find_from(hay@, needle@, i as int),
        decreases hay.len() + 1 - i,
    {
        if occurs_at_exec(hay, needle, i) {
            return Some(i);
        }
        assert(i < hay.len()) by {
            if i == hay.len() {
                assert(hay@.subrange(i as int, i as int) =~= needle@);
            }
        }
        i += 1;
    }
    None
}

/// The text between `open` and `close` tags, searching from `from`.
pub fn tag_text_chars(hay: &Vec<char>, open: &str, close: &str, from: usize) -> (r: Option<
    Vec<char>,
>)
    ensures
        match r {
            Some(t) => tag_text(hay@, open@, close@, from as int) == Some(t@),
            None => tag_text(hay@, open@, close@, from as int) is None,
        },
{
    let o = chars_of(open);
    let c = chars_of(close);
    match find_chars(hay, &o, from) {
        None => None,
        Some(p) => {
            proof {
                lemma_find_from(hay@, o@, from as int);
            }
            assert(p + o@.len() <= hay@.len());
            let s = p + o.len();
            match find_chars(hay, &c, s) {
                None => None,
                Some(e) => {
                    proof {
                        lemma_find_from(hay@, c@, s as int);
                    }
                    Some(slice_chars(hay, s, e))
                },
            }
        },
    }
}

/// The characters of `s` from index `start` up to (not including) `end`.
pub fn slice_chars(s: &Vec<char>, start: usize, end: usize) -> (r: Vec<char>)
    requires
        start <= end <= s.len(),
    ensures
        r@ == s@.subrange(start as int, end as int),
{
    let mut r: Vec<char> = Vec::new();
    let mut i = start;
    while i < end
        invariant
            start <= i <= end <= s.len(),
            r@ == s@.subrange(start as int, i as int),
        decreases end - i,
    {
        r.push(s[i]);
        i += 1;
        assert(r@ =~= s@.subrange(start as int, i as int));
    }
    r
}

/// Whether two character sequences are equal.
pub fn chars_eq(a: &Vec<char>, b: &Vec<char>) -> (r: bool)
    ensures
        r == (a@ == b@),
{
    if a.len() != b.len() {
        return false;
    }
    let mut i: usize = 0;
    while i < a.len()
        invariant
            a.len() == b.len(),
            i <= a.len(),
            forall|k: int| 0 <= k < i ==> a@[k] == b@[k],
        decreases a.len() - i,
    {
        if a[i] != b[i] {
            return false;
        }
        i += 1;
    }
    assert(a@ =~= b@);
    true
}

/// `c` is an ASCII decimal digit.
pub open spec fn is_digit(c: char) -> bool {
    '0' <= c <= '9'
}

/// The value of the decimal digit `c`.
pub open spec fn digit_value(c: char) -> nat {
    (c as int - '0' as int) as nat
}

/// Every character of `s` is a decimal digit.
pub open spec fn all_digits(s: Seq<char>) -> bool {
    forall|i: int| 0 <= i < s.len() ==> is_digit(#[trigger] s[i])
}

/// The number that the decimal digits `s` spell.
pub open spec fn digits_value(s: Seq<char>) -> nat
    decreases s.len(),
{
    if s.len() == 0 {
        0
    } else {
        digits_value(s.drop_last()) * 10 + digit_value(s.last())
    }
}

/// The digits of an unsigned number in text: the text without one leading `+`.
pub open spec fn unsigned_digits(s: Seq<char>) -> Seq<char> {
    if s.len() > 0 && s[0] == '+' {
        s.drop_first()
    } else {
        s
    }
}

/// The unsigned number that `s` denotes, as std's `from_str` of an unsigned
/// integer type with largest value `max` reads it: an optional `+`, then one or
/// more ASCII digits whose value is at most `max`; anything else is refused.
pub open spec fn parse_unsigned(s: Seq<char>, max: nat) -> Option<nat> {
    let d = unsigned_digits(s);
    if d.len() > 0 && all_digits(d) && digits_value(d) <= max {
        Some(digits_value(d))
    } else {
        None
    }
}

/// A prefix of a digit string never spells a larger number than the whole.
pub proof fn lemma_digits_value_prefix(s: Seq<char>, i: int)
    requires
        0 <= i <= s.len(),
        all_digits(s),
    ensures
        digits_value(s.take(i)) <= digits_value(s),
    decreases s.len(),
{
    if i < s.len() {
        assert(s.drop_last().take(i) =~= s.take(i));
        lemma_digits_value_prefix(s.drop_last(), i);
    } else {
        assert(s.take(i) =~= s);
    }
}

/// Reads an unsigned decimal number no larger than `max`.
pub fn parse_unsigned_chars(s: &Vec<char>, max: u64) -> (r: Option<u64>)
    ensures
        match r {
            Some(n) => parse_unsigned(s@, max as nat) == Some(n as nat),
            None => parse_unsigned(s@, max as nat) is None,
        },
{
    let start: usize = if s.len() > 0 && s[0] == '+' { 1 } else { 0 };
    let ghost d = unsigned_digits(s@);
    assert(d =~= s@.subrange(start as int, s.len() as int));
    if start >= s.len() {
        return None;
    }
    let mut acc: u128 = 0;
    let mut i = start;
    while i < s.len()
        invariant
            start <= i <= s.len(),
            d == unsigned_digits(s@),
            d =~= s@.subrange(start as int, s.len() as int),
            all_digits(d.take(i - start)),
            acc == digits_value(d.take(i - start)),
            acc <= max,
        decreases s.len() - i,
    {
        let c = s[i];
        if !('0' <= c && c <= '9') {
            assert(d[i - start] == c);
            assert(!is_digit(d[i - start]));
            return None;
        }
        let ghost pre = d.take(i - start);
        assert(d.take(i - start + 1).drop_last() =~= pre);
        assert(d.take(i - start + 1).last() == c);
        let v = (c as u32 - '0' as u32) as u128;
        acc = acc * 10 + v;
        i += 1;
        assert(all_digits(d.take(i - start))) by {
            assert forall|k: int| 0 <= k < d.take(i - start).len() implies is_digit(
                #[trigger] d.take(i - start)[k],
            ) by {
                if k < i - start - 1 {
                    assert(d.take(i - start)[k] == pre[k]);
                }
            }
        }
        if acc > max as u128 {
            proof {
                if all_digits(d) {
                    lemma_digits_value_prefix(d, i - start);
                }
            }
            return None;
        }
    }
    assert(d.take(i - start) =~= d);
    Some(acc as u64)
}

/// The decimal digit character for `d < 10`.
pub open spec fn digit_char(d: nat) -> char {
    ('0' as int + d) as char
}

/// The decimal text of `n`, without sign or leading zeros.
pub open spec fn decimal(n: nat) -> Seq<char>
    decreases n,
{
    if n < 10 {
        seq![digit_char(n)]
    } else {
        decimal(n / 10).push(digit_char(n % 10))
    }
}

/// Law: the decimal text of a number reads back as that number, under any
/// bound it respects.
pub proof fn law_decimal_read_back(n: nat, max: nat)
    requires
        n <= max,
    ensures
        parse_unsigned(decimal(n), max) == Some(n),
{
    lemma_decimal_parses(n);
}

/// The decimal text of `n`.
pub fn decimal_chars(n: u64) -> (r: Vec<char>)
    ensures
        r@ == decimal(n as nat),
    decreases n,
{
    let d = (n % 10) as u8;
    let c = (48u8 + d) as char;
    assert(c == digit_char((n % 10) as nat));
    if n < 10 {
        let mut r: Vec<char> = Vec::new();
        r.push(c);
        assert(r@ =~= seq![c]);
        r
    } else {
        let mut r = decimal_chars(n / 10);
        r.push(c);
        r
    }
}

/// Decimal text reads back as the number it was written from.
pub proof fn lemma_decimal_parses(n: nat)
    ensures
        decimal(n).len() > 0,
        all_digits(decimal(n)),
        digits_value(decimal(n)) == n,
        decimal(n)[0] != '+',
    decreases n,
{
    if n < 10 {
        assert(decimal(n).drop_last() =~= Seq::<char>::empty());
        assert(digits_value(Seq::<char>::empty()) == 0);
        assert(digit_value(digit_char(n)) == n);
        assert(decimal(n).last() == digit_char(n));
        assert(digits_value(decimal(n)) == n);
    } else {
        lemma_decimal_parses(n / 10);
        let s = decimal(n);
        assert(s.drop_last() =~= decimal(n / 10));
        assert(s.last() == digit_char(n % 10));
        assert(digit_value(digit_char(n % 10)) == n % 10);
        assert(n == (n / 10) * 10 + n % 10);
        assert(digits_value(s) == digits_value(s.drop_last()) * 10 + digit_value(s.last()));
        assert forall|i: int| 0 <= i < s.len() implies is_digit(#[trigger] s[i]) by {
            if i < s.len() - 1 {
                assert(s[i] == decimal(n / 10)[i]);
            }
        }
    }
}


/// `c` has the Unicode `White_Space` property, the whitespace that std's
/// `char::is_whitespace` and `str::trim` recognise.
pub open spec fn is_white_space(c: char) -> bool {
    ||| '\t' <= c <= '\r'
    ||| c == ' '
    ||| c == '\u{85}'
    ||| c == '\u{a0}'
    ||| c == '\u{1680}'
    ||| '\u{2000}' <= c <= '\u{200a}'
    ||| c == '\u{2028}'
    ||| c == '\u{2029}'
    ||| c == '\u{202f}'
    ||| c == '\u{205f}'
    ||| c == '\u{3000}'
}

/// `s` without its leading and trailing whitespace: the slice from the first
/// non-whitespace character to the last one (empty when there is none).
pub open spec fn trimmed(s: Seq<char>) -> Seq<char> {
    if exists|i: int| 0 <= i < s.len() && !is_white_space(#[trigger] s[i]) {
        let a = choose|a: int|
            0 <= a < s.len() && !is_white_space(s[a]) && forall|k: int|
                0 <= k < a ==> is_white_space(#[trigger] s[k]);
        let b = choose|b: int|
            0 <= b < s.len() && !is_white_space(s[b]) && forall|k: int|
                b < k < s.len() ==> is_white_space(#[trigger] s[k]);
        s.subrange(a, b + 1)
    } else {
        Seq::empty()
    }
}

/// Trimming ASCII text leaves ASCII text.
pub proof fn lemma_trimmed_ascii(s: Seq<char>)
    requires
        is_ascii_text(s),
    ensures
        is_ascii_text(trimmed(s)),
{
    if exists|i: int| 0 <= i < s.len() && !is_white_space(#[trigger] s[i]) {
        let a = choose|a: int|
            0 <= a < s.len() && !is_white_space(s[a]) && forall|k: int|
                0 <= k < a ==> is_white_space(#[trigger] s[k]);
        let b = choose|b: int|
            0 <= b < s.len() && !is_white_space(s[b]) && forall|k: int|
                b < k < s.len() ==> is_white_space(#[trigger] s[k]);
        let w = choose|i: int| 0 <= i < s.len() && !is_white_space(#[trigger] s[i]);
        assert(0 <= a < s.len() && !is_white_space(s[a]) && forall|k: int|
            0 <= k < a ==> is_white_space(#[trigger] s[k])) by {
            lemma_first_non_white(s, w);
        }
        assert(0 <= b < s.len() && !is_white_space(s[b]) && forall|k: int|
            b < k < s.len() ==> is_white_space(#[trigger] s[k])) by {
            lemma_last_non_white(s, w);
        }
        if b < a {
            assert(is_white_space(s[b]));
        }
        let t = s.subrange(a, b + 1);
        assert forall|i: int| 0 <= i < t.len() implies (#[trigger] t[i] as u32) < 128 by {
            assert(t[i] == s[a + i]);
        }
    }
}

proof fn lemma_first_non_white(s: Seq<char>, w: int)
    requires
        0 <= w < s.len(),
        !is_white_space(s[w]),
    ensures
        exists|a: int|
            0 <= a < s.len() && !is_white_space(s[a]) && forall|k: int|
                0 <= k < a ==> is_white_space(#[trigger] s[k]),
    decreases w,
{
    if exists|k: int| 0 <= k < w && !is_white_space(#[trigger] s[k]) {
        let k = choose|k: int| 0 <= k < w && !is_white_space(#[trigger] s[k]);
        lemma_first_non_white(s, k);
    } else {
        assert(forall|k: int| 0 <= k < w ==> is_white_space(#[trigger] s[k]));
    }
}

proof fn lemma_last_non_white(s: Seq<char>, w: int)
    requires
        0 <= w < s.len(),
        !is_white_space(s[w]),
    ensures
        exists|b: int|
            0 <= b < s.len() && !is_white_space(s[b]) && forall|k: int|
                b < k < s.len() ==> is_white_space(#[trigger] s[k]),
    decreases s.len() - w,
{
    if exists|k: int| w < k < s.len() && !is_white_space(#[trigger] s[k]) {
        let k = choose|k: int| w < k < s.len() && !is_white_space(#[trigger] s[k]);
        lemma_last_non_white(s, k);
    } else {
        assert(forall|k: int| w < k < s.len() ==> is_white_space(#[trigger] s[k]));
    }
}

/// Text that begins and ends with non-whitespace is its own trimmed form.
pub proof fn lemma_trimmed_unchanged(s: Seq<char>)
    requires
        s.len() > 0,
        !is_white_space(s[0]),
        !is_white_space(s[s.len() - 1]),
    ensures
        trimmed(s) == s,
{
    lemma_first_non_white(s, 0);
    lemma_last_non_white(s, s.len() - 1);
    let a = choose|a: int|
        0 <= a < s.len() && !is_white_space(s[a]) && forall|k: int|
            0 <= k < a ==> is_white_space(#[trigger] s[k]);
    let b = choose|b: int|
        0 <= b < s.len() && !is_white_space(s[b]) && forall|k: int|
            b < k < s.len() ==> is_white_space(#[trigger] s[k]);
    if a > 0 {
        assert(is_white_space(s[0]));
    }
    if b < s.len() - 1 {
        assert(is_white_space(s[s.len() - 1]));
    }
    assert(s.subrange(0, s.len() as int) =~= s);
}

/// Whether `c` is whitespace.
pub fn is_white_space_exec(c: char) -> (b: bool)
    ensures
        b == is_white_space(c),
{
    ('\t' <= c && c <= '\r') || c == ' ' || c == '\u{85}' || c == '\u{a0}' || c == '\u{1680}'
        || ('\u{2000}' <= c && c <= '\u{200a}') || c == '\u{2028}' || c == '\u{2029}' || c
        == '\u{202f}' || c == '\u{205f}' || c == '\u{3000}'
}

/// `s` without leading and trailing whitespace.
pub fn trim_chars(s: &Vec<char>) -> (r: Vec<char>)
    ensures
        r@ == trimmed(s@),
{
    let mut a: usize = 0;
    while a < s.len() && is_white_space_exec(s[a])
        invariant
            a <= s.len(),
            forall|k: int| 0 <= k < a ==> is_white_space(#[trigger] s@[k]),
        decreases s.len() - a,
    {
        a += 1;
    }
    if a == s.len() {
        assert(!exists|i: int| 0 <= i < s@.len() && !is_white_space(#[trigger] s@[i]));
        return Vec::new();
    }
    let mut b: usize = s.len() - 1;
    while is_white_space_exec(s[b])
        invariant
            a <= b < s.len(),
            !is_white_space(s@[a as int]),
            forall|k: int| b < k < s.len() ==> is_white_space(#[trigger] s@[k]),
        decreases b,
    {
        b -= 1;
    }
    let ghost sa = choose|x: int|
        0 <= x < s@.len() && !is_white_space(s@[x]) && forall|k: int|
            0 <= k < x ==> is_white_space(#[trigger] s@[k]);
    let ghost sb = choose|x: int|
        0 <= x < s@.len() && !is_white_space(s@[x]) && forall|k: int|
            x < k < s@.len() ==> is_white_space(#[trigger] s@[k]);
    assert(exists|i: int| 0 <= i < s@.len() && !is_white_space(#[trigger] s@[i]));
    assert(0 <= a < s@.len() && !is_white_space(s@[a as int]) && forall|k: int|
        0 <= k < a ==> is_white_space(#[trigger] s@[k]));
    assert(0 <= b < s@.len() && !is_white_space(s@[b as int]) && forall|k: int|
        b < k < s@.len() ==> is_white_space(#[trigger] s@[k]));
    assert(sa == a) by {
        if sa < a {
            assert(is_white_space(s@[sa]));
        } else if sa > a {
            assert(is_white_space(s@[a as int]));
        }
    }
    assert(sb == b) by {
        if sb < b {
            assert(is_white_space(s@[b as int]));
        } else if sb > b {
            assert(is_white_space(s@[sb]));
        }
    }
    slice_chars(s, a, b + 1)
}

/// Collects characters into a `String`: std's `String::from_iter`, whose
/// result holds the given characters in order.
#[verifier::external_body]
pub(crate) fn string_from_chars(v: &Vec<char>) -> (s: String)
    ensures
        s@ == v@,
{
    String::from_iter(v.iter())
}

/// What std's `str::to_uppercase` returns for a string with the characters
/// `s`: Unicode's full uppercase mapping of each character, in order.
pub uninterp spec fn uppercase(s: Seq<char>) -> Seq<char>;

/// What std's `str::to_lowercase` returns for a string with the characters
/// `s`: Unicode's full lowercase mapping (final sigma included).
pub uninterp spec fn lowercase(s: Seq<char>) -> Seq<char>;

/// Every character of `s` is ASCII.
pub open spec fn is_ascii_text(s: Seq<char>) -> bool {
    forall|i: int| 0 <= i < s.len() ==> (#[trigger] s[i] as u32) < 128
}

/// `c` with an ASCII lowercase letter made uppercase.
pub open spec fn ascii_upper(c: char) -> char {
    if 'a' <= c <= 'z' {
        ((c as int) - 32) as char
    } else {
        c
    }
}

/// `c` with an ASCII uppercase letter made lowercase.
pub open spec fn ascii_lower(c: char) -> char {
    if 'A' <= c <= 'Z' {
        ((c as int) + 32) as char
    } else {
        c
    }
}

/// std's `str::to_uppercase`. Its result is named; on ASCII text, Unicode's
/// uppercase mapping turns `a`-`z` into `A`-`Z` and leaves every other
/// character as it is.
#[verifier::external_body]
pub(crate) fn to_uppercase(s: &str) -> (r: String)
    ensures
        r@ == uppercase(s@),
        is_ascii_text(s@) ==> r@ == s@.map_values(|c: char| ascii_upper(c)),
{
    s.to_uppercase()
}

/// std's `str::to_lowercase`. Its result is named; on ASCII text, Unicode's
/// lowercase mapping turns `A`-`Z` into `a`-`z` and leaves every other
/// character as it is.
#[verifier::external_body]
pub(crate) fn to_lowercase(s: &str) -> (r: String)
    ensures
        r@ == lowercase(s@),
        is_ascii_text(s@) ==> r@ == s@.map_values(|c: char| ascii_lower(c)),
{
    s.to_lowercase()
}

} // verus!
