//! Text helpers shared by the whole crate.
//!
//! Text is scanned in its UTF-8 form, as a sequence of bytes, and built up
//! as a sequence of characters. The lemmas below move between the two.

use vstd::prelude::*;
use vstd::string::*;
use vstd::utf8::*;

verus! {

/// Two texts with the same UTF-8 bytes are the same text.
pub proof fn lemma_encode_injective(a: Seq<char>, b: Seq<char>)
    requires
        encode_utf8(a) == encode_utf8(b),
    ensures
        a == b,
{
    encode_utf8_decode_utf8(a);
    encode_utf8_decode_utf8(b);
}

/// Splitting a text at a character boundary of its bytes splits its
/// characters the same way.
pub proof fn lemma_split_at_boundary(s: Seq<char>, mid: int)
    requires
        is_char_boundary(encode_utf8(s), mid),
        0 <= mid <= encode_utf8(s).len(),
    ensures
        valid_utf8(encode_utf8(s).subrange(0, mid)),
        valid_utf8(encode_utf8(s).subrange(mid, encode_utf8(s).len() as int)),
        s == decode_utf8(encode_utf8(s).subrange(0, mid)) + decode_utf8(
            encode_utf8(s).subrange(mid, encode_utf8(s).len() as int),
        ),
{
    let bytes = encode_utf8(s);
    encode_utf8_valid_utf8(s);
    encode_utf8_decode_utf8(s);
    valid_utf8_split(bytes, mid);
    decode_utf8_split(bytes, mid);
}

/// Whether two byte slices hold the same bytes.
pub fn bytes_eq(a: &[u8], b: &[u8]) -> (same: bool)
    ensures
        same == (a@ == b@),
{
    if a.len() != b.len() {
        return false;
    }
    let mut i: usize = 0;
    while i < a.len()
        invariant
            a@.len() == b@.len(),
            0 <= i <= a@.len(),
            forall|k: int| 0 <= k < i ==> a@[k] == b@[k],
        decreases a@.len() - i,
    {
        if a[i] != b[i] {
            return false;
        }
        i += 1;
    }
    assert(a@ =~= b@);
    true
}

/// Whether two texts are equal.
pub fn str_eq(a: &str, b: &str) -> (same: bool)
    ensures
        same == (a@ == b@),
{
    let same = bytes_eq(a.as_bytes(), b.as_bytes());
    proof {
        if same {
            lemma_encode_injective(a@, b@);
        }
    }
    same
}

/// The characters of a text, in order.
pub fn to_chars(s: &str) -> (chars: Vec<char>)
    ensures
        chars@ == s@,
{
    let mut chars: Vec<char> = Vec::new();
    for c in it: s.chars()
        invariant
            chars@ == it.seq().take(it.index() as int),
            it.seq() == s@,
    {
        chars.push(c);
    }
    chars
}

/// `prefix` is an initial segment of `s`.
pub open spec fn is_prefix(prefix: Seq<char>, s: Seq<char>) -> bool {
    prefix.len() <= s.len() && s.subrange(0, prefix.len() as int) == prefix
}

/// Whether `s` begins with `prefix`.
pub fn starts_with(s: &Vec<char>, prefix: &Vec<char>) -> (yes: bool)
    ensures
        yes == is_prefix(prefix@, s@),
{
    if prefix.len() > s.len() {
        return false;
    }
    let mut i: usize = 0;
    while i < prefix.len()
        invariant
            prefix@.len() <= s@.len(),
            0 <= i <= prefix@.len(),
            forall|k: int| 0 <= k < i ==> s@[k] == prefix@[k],
        decreases prefix@.len() - i,
    {
        if s[i] != prefix[i] {
            assert(s@.subrange(0, prefix@.len() as int)[i as int] != prefix@[i as int]);
            return false;
        }
        i += 1;
    }
    assert(s@.subrange(0, prefix@.len() as int) =~= prefix@);
    true
}

/// `needle` occurs in `hay` starting at position `at`.
pub open spec fn occurs_at(hay: Seq<char>, needle: Seq<char>, at: int) -> bool {
    0 <= at && at + needle.len() <= hay.len() && hay.subrange(at, at + needle.len()) == needle
}

/// `needle` occurs somewhere in `hay`.
pub open spec fn occurs_in(hay: Seq<char>, needle: Seq<char>) -> bool {
    exists|at: int| occurs_at(hay, needle, at)
}

/// Whether `needle` occurs at position `at` of `hay`.
fn matches_at(hay: &Vec<char>, needle: &Vec<char>, at: usize) -> (yes: bool)
    requires
        at + needle@.len() <= hay@.len(),
    ensures
        yes == occurs_at(hay@, needle@, at as int),
{
    let hay_len: usize = hay.len();
    let mut i: usize = 0;
    while i < needle.len()
        invariant
            at + needle@.len() <= hay@.len(),
            hay@.len() == hay_len,
            0 <= i <= needle@.len(),
            forall|k: int| 0 <= k < i ==> hay@[at + k] == needle@[k],
        decreases needle@.len() - i,
    {
        if hay[at + i] != needle[i] {
            assert(hay@.subrange(at as int, at + needle@.len())[i as int] != needle@[i as int]);
            return false;
        }
        i += 1;
    }
    assert(hay@.subrange(at as int, at + needle@.len()) =~= needle@);
    true
}

/// Whether `needle` occurs somewhere in `hay`.
pub fn contains(hay: &Vec<char>, needle: &Vec<char>) -> (yes: bool)
    ensures
        yes == occurs_in(hay@, needle@),
{
    if needle.len() > hay.len() {
        assert(forall|at: int| !occurs_at(hay@, needle@, at));
        return false;
    }
    let last: usize = hay.len() - needle.len();
    let mut at: usize = 0;
    while at < last
        invariant
            last == hay@.len() - needle@.len(),
            0 <= at <= last,
            forall|k: int| 0 <= k < at ==> !occurs_at(hay@, needle@, k),
        decreases last - at,
    {
        if matches_at(hay, needle, at) {
            return true;
        }
        at += 1;
    }
    let found = matches_at(hay, needle, last);
    assert(!found ==> forall|k: int| !occurs_at(hay@, needle@, k));
    found
}

/// A character with the ASCII capital letters folded onto the small ones,
/// as a number; other characters stand for themselves.
pub open spec fn ascii_fold(c: char) -> u32 {
    if 'A' <= c && c <= 'Z' {
        (c as u32 + 32) as u32
    } else {
        c as u32
    }
}

/// Folds an ASCII capital letter onto the small one.
pub fn fold_char(c: char) -> (folded: u32)
    ensures
        folded == ascii_fold(c),
{
    if c >= 'A' && c <= 'Z' {
        c as u32 + 32
    } else {
        c as u32
    }
}

/// `s` is `word` but for the case of ASCII letters.
pub open spec fn same_ignoring_case(s: Seq<char>, word: Seq<char>) -> bool {
    s.len() == word.len() && forall|i: int|
        0 <= i < s.len() ==> ascii_fold(#[trigger] s[i]) == ascii_fold(word[i])
}

/// Whether `chars[from..]` is `word` but for the case of ASCII letters.
pub fn tail_is_word(chars: &Vec<char>, from: usize, word: &str) -> (yes: bool)
    requires
        from <= chars@.len(),
    ensures
        yes == same_ignoring_case(chars@.skip(from as int), word@),
{
    let word_chars = to_chars(word);
    let len: usize = chars.len();
    if len - from != word_chars.len() {
        return false;
    }
    let mut i: usize = 0;
    while i < word_chars.len()
        invariant
            from <= chars@.len(),
            len == chars@.len(),
            chars@.len() - from == word_chars@.len(),
            word_chars@ == word@,
            0 <= i <= word_chars@.len(),
            forall|k: int|
                0 <= k < i ==> ascii_fold(#[trigger] chars@.skip(from as int)[k]) == ascii_fold(
                    word_chars@[k],
                ),
        decreases word_chars@.len() - i,
    {
        if fold_char(chars[from + i]) != fold_char(word_chars[i]) {
            assert(chars@.skip(from as int)[i as int] == chars@[from + i]);
            return false;
        }
        assert(chars@.skip(from as int)[i as int] == chars@[from + i]);
        i += 1;
    }
    true
}

/// Order of two byte strings: by the first byte in which they differ, a
/// proper prefix first.
pub open spec fn lex_le(a: Seq<u8>, b: Seq<u8>) -> bool
    decreases a.len(),
{
    if a.len() == 0 {
        true
    } else if b.len() == 0 {
        false
    } else if a[0] != b[0] {
        a[0] < b[0]
    } else {
        lex_le(a.drop_first(), b.drop_first())
    }
}

/// Order of two texts: that of their UTF-8 bytes, which is how stored text
/// is compared.
pub open spec fn text_le(a: Seq<char>, b: Seq<char>) -> bool {
    lex_le(encode_utf8(a), encode_utf8(b))
}

/// Whether `a` comes before `b`, or equals it, in byte order.
pub fn bytes_le(a: &[u8], b: &[u8]) -> (le: bool)
    ensures
        le == lex_le(a@, b@),
{
    let a_len: usize = a.len();
    let b_len: usize = b.len();
    let mut i: usize = 0;
    assert(a@.skip(0) =~= a@ && b@.skip(0) =~= b@);
    while i < a_len && i < b_len
        invariant
            a_len == a@.len(),
            b_len == b@.len(),
            0 <= i <= a_len,
            i <= b_len,
            lex_le(a@, b@) == lex_le(a@.skip(i as int), b@.skip(i as int)),
        decreases a_len - i,
    {
        proof {
            assert(a@.skip(i as int).drop_first() =~= a@.skip(i + 1));
            assert(b@.skip(i as int).drop_first() =~= b@.skip(i + 1));
        }
        if a[i] != b[i] {
            return a[i] < b[i];
        }
        i += 1;
    }
    i == a_len
}

/// Whether text `a` comes before text `b`, or equals it.
pub fn str_le(a: &str, b: &str) -> (le: bool)
    ensures
        le == text_le(a@, b@),
{
    bytes_le(a.as_bytes(), b.as_bytes())
}

/// Every byte string is at most itself.
pub proof fn lemma_lex_le_reflexive(a: Seq<u8>)
    ensures
        lex_le(a, a),
    decreases a.len(),
{
    if a.len() > 0 {
        lemma_lex_le_reflexive(a.drop_first());
    }
}

/// Of two byte strings one is at most the other.
pub proof fn lemma_lex_le_total(a: Seq<u8>, b: Seq<u8>)
    ensures
        lex_le(a, b) || lex_le(b, a),
    decreases a.len(),
{
    if a.len() > 0 && b.len() > 0 && a[0] == b[0] {
        lemma_lex_le_total(a.drop_first(), b.drop_first());
    }
}

/// The order is transitive.
pub proof fn lemma_lex_le_transitive(a: Seq<u8>, b: Seq<u8>, c: Seq<u8>)
    requires
        lex_le(a, b),
        lex_le(b, c),
    ensures
        lex_le(a, c),
    decreases a.len(),
{
    if a.len() > 0 && b.len() > 0 && c.len() > 0 && a[0] == b[0] && b[0] == c[0] {
        lemma_lex_le_transitive(a.drop_first(), b.drop_first(), c.drop_first());
    }
}

/// Two byte strings that are each at most the other are equal.
pub proof fn lemma_lex_le_antisymmetric(a: Seq<u8>, b: Seq<u8>)
    requires
        lex_le(a, b),
        lex_le(b, a),
    ensures
        a == b,
    decreases a.len(),
{
    if a.len() > 0 && b.len() > 0 {
        lemma_lex_le_antisymmetric(a.drop_first(), b.drop_first());
        assert(a =~= seq![a[0]] + a.drop_first());
        assert(b =~= seq![b[0]] + b.drop_first());
    } else {
        assert(a =~= b);
    }
}

/// Two texts that are each at most the other are the same text.
pub proof fn lemma_text_le_antisymmetric(a: Seq<char>, b: Seq<char>)
    requires
        text_le(a, b),
        text_le(b, a),
    ensures
        a == b,
{
    lemma_lex_le_antisymmetric(encode_utf8(a), encode_utf8(b));
    lemma_encode_injective(a, b);
}

/// The character for a decimal digit.
pub open spec fn digit_char(d: nat) -> char
    recommends
        d < 10,
{
    if d == 0 {
        '0'
    } else if d == 1 {
        '1'
    } else if d == 2 {
        '2'
    } else if d == 3 {
        '3'
    } else if d == 4 {
        '4'
    } else if d == 5 {
        '5'
    } else if d == 6 {
        '6'
    } else if d == 7 {
        '7'
    } else if d == 8 {
        '8'
    } else {
        '9'
    }
}

/// The decimal numeral of `n`, without sign or leading zeros.
pub open spec fn decimal(n: nat) -> Seq<char>
    decreases n,
{
    if n < 10 {
        seq![digit_char(n)]
    } else {
        decimal(n / 10).push(digit_char(n % 10))
    }
}

/// The one-character text for a decimal digit.
fn digit_str(d: u8) -> (s: &'static str)
    requires
        d < 10,
    ensures
        s@ == seq![digit_char(d as nat)],
{
    proof {
        reveal_strlit("0");
        reveal_strlit("1");
        reveal_strlit("2");
        reveal_strlit("3");
        reveal_strlit("4");
        reveal_strlit("5");
        reveal_strlit("6");
        reveal_strlit("7");
        reveal_strlit("8");
        reveal_strlit("9");
    }
    let s = if d == 0 {
        "0"
    } else if d == 1 {
        "1"
    } else if d == 2 {
        "2"
    } else if d == 3 {
        "3"
    } else if d == 4 {
        "4"
    } else if d == 5 {
        "5"
    } else if d == 6 {
        "6"
    } else if d == 7 {
        "7"
    } else if d == 8 {
        "8"
    } else {
        "9"
    };
    assert(s@ =~= seq![digit_char(d as nat)]);
    s
}

/// The digits of `n` from the least significant one upward.
pub open spec fn digits_rev(n: nat) -> Seq<nat>
    decreases n,
{
    if n < 10 {
        seq![n]
    } else {
        seq![n % 10] + digits_rev(n / 10)
    }
}

/// `decimal` spells the digits of `digits_rev` from the last one down.
proof fn lemma_decimal_digits(n: nat)
    ensures
        decimal(n).len() == digits_rev(n).len(),
        forall|k: int|
            0 <= k < decimal(n).len() ==> #[trigger] decimal(n)[k] == digit_char(
                digits_rev(n)[decimal(n).len() - 1 - k],
            ),
    decreases n,
{
    if n >= 10 {
        lemma_decimal_digits(n / 10);
    }
}

/// Writes `n` in decimal.
pub fn u64_to_string(n: u64) -> (s: String)
    ensures
        s@ == decimal(n as nat),
{
    let mut digits: Vec<u8> = Vec::new();
    let mut rest: u64 = n;
    while rest >= 10
        invariant
            digits@.map_values(|d: u8| d as nat) + digits_rev(rest as nat) == digits_rev(n as nat),
            forall|k: int| 0 <= k < digits@.len() ==> digits@[k] < 10,
        decreases rest,
    {
        let d: u8 = (rest % 10) as u8;
        proof {
            let before = digits@.map_values(|d: u8| d as nat);
            assert(digits@.push(d).map_values(|d: u8| d as nat) =~= before.push(d as nat));
            assert(before.push(d as nat) + digits_rev((rest / 10) as nat) =~= before + digits_rev(
                rest as nat,
            ));
        }
        digits.push(d);
        rest = rest / 10;
    }
    proof {
        let before = digits@.map_values(|d: u8| d as nat);
        assert(digits@.push(rest as u8).map_values(|d: u8| d as nat) =~= before.push(rest as nat));
        assert(before.push(rest as nat) =~= before + digits_rev(rest as nat));
    }
    digits.push(rest as u8);
    proof {
        lemma_decimal_digits(n as nat);
    }
    let total: usize = digits.len();
    let mut s = String::new();
    let mut i: usize = total;
    while i > 0
        invariant
            total == digits@.len(),
            0 <= i <= total,
            digits@.map_values(|d: u8| d as nat) == digits_rev(n as nat),
            forall|k: int| 0 <= k < digits@.len() ==> digits@[k] < 10,
            decimal(n as nat).len() == total,
            forall|k: int|
                0 <= k < total ==> #[trigger] decimal(n as nat)[k] == digit_char(
                    digits_rev(n as nat)[total - 1 - k],
                ),
            s@ == decimal(n as nat).subrange(0, total - i),
        decreases i,
    {
        i -= 1;
        let d: u8 = digits[i];
        let piece = digit_str(d);
        proof {
            let k = total - 1 - i;
            assert(digits@.map_values(|d: u8| d as nat)[i as int] == d as nat);
            assert(decimal(n as nat)[k] == digit_char(d as nat));
            assert(s@ + piece@ =~= decimal(n as nat).subrange(0, k + 1));
        }
        s.append(piece);
    }
    assert(s@ =~= decimal(n as nat));
    s
}

/// A run of `count` zeros.
pub open spec fn zeros(count: nat) -> Seq<char> {
    Seq::new(count, |i: int| '0')
}

/// The decimal numeral of `n`, with zeros before it where it is shorter
/// than `width`.
pub open spec fn padded(n: nat, width: nat) -> Seq<char> {
    if decimal(n).len() >= width {
        decimal(n)
    } else {
        zeros((width - decimal(n).len()) as nat) + decimal(n)
    }
}

/// Writes `n` in decimal, in at least `width` characters, with zeros before
/// a shorter numeral.
pub fn zero_padded(n: u64, width: usize) -> (s: String)
    ensures
        s@ == padded(n as nat, width as nat),
{
    let numeral = u64_to_string(n);
    let have: usize = numeral.as_str().unicode_len();
    let mut s = String::new();
    let mut count: usize = have;
    assert(s@ =~= zeros(0));
    while count < width
        invariant
            have <= count,
            count <= width || count == have,
            have == numeral@.len(),
            s@ == zeros((count - have) as nat),
        decreases width - count,
    {
        proof {
            reveal_strlit("0");
            assert(s@ + "0"@ =~= zeros((count + 1 - have) as nat));
        }
        s.append("0");
        count += 1;
    }
    proof {
        if have >= width {
            assert(zeros(0) + numeral@ =~= numeral@);
        }
    }
    s.append(numeral.as_str());
    s
}

/// The parts of `s` between the occurrences of `separator`, in order. A
/// text without the separator is its own single part.
pub open spec fn split_on(s: Seq<char>, separator: char) -> Seq<Seq<char>>
    decreases s.len(),
{
    if s.len() == 0 {
        seq![Seq::empty()]
    } else {
        let parts = split_on(s.drop_last(), separator);
        if s.last() == separator {
            parts.push(Seq::empty())
        } else {
            parts.drop_last().push(parts.last().push(s.last()))
        }
    }
}

/// Where the parts of `chars` between the occurrences of `separator` start
/// and end.
pub fn split_bounds(chars: &Vec<char>, separator: char) -> (bounds: Vec<(usize, usize)>)
    ensures
        bounds@.len() == split_on(chars@, separator).len(),
        forall|i: int|
            0 <= i < bounds@.len() ==> {
                &&& (#[trigger] bounds@[i]).0 <= bounds@[i].1 <= chars@.len()
                &&& chars@.subrange(bounds@[i].0 as int, bounds@[i].1 as int) == split_on(
                    chars@,
                    separator,
                )[i]
            },
{
    let mut bounds: Vec<(usize, usize)> = Vec::new();
    let mut start: usize = 0;
    let mut k: usize = 0;
    proof {
        assert(chars@.take(0) =~= Seq::<char>::empty());
        assert(chars@.subrange(0, 0) =~= Seq::<char>::empty());
    }
    while k < chars.len()
        invariant
            0 <= start <= k <= chars@.len(),
            split_on(chars@.take(k as int), separator).len() == bounds@.len() + 1,
            split_on(chars@.take(k as int), separator).last() == chars@.subrange(
                start as int,
                k as int,
            ),
            forall|i: int|
                0 <= i < bounds@.len() ==> {
                    &&& (#[trigger] bounds@[i]).0 <= bounds@[i].1 <= chars@.len()
                    &&& chars@.subrange(bounds@[i].0 as int, bounds@[i].1 as int) == split_on(
                        chars@.take(k as int),
                        separator,
                    )[i]
                },
        decreases chars@.len() - k,
    {
        let ghost before = split_on(chars@.take(k as int), separator);
        let ghost after = split_on(chars@.take(k + 1), separator);
        proof {
            assert(chars@.take(k + 1).drop_last() =~= chars@.take(k as int));
            assert(chars@.take(k + 1).last() == chars@[k as int]);
        }
        if chars[k] == separator {
            bounds.push((start, k));
            start = k + 1;
            proof {
                assert(after == before.push(Seq::<char>::empty()));
                assert(chars@.subrange(start as int, k + 1) =~= Seq::<char>::empty());
                assert forall|i: int| 0 <= i < bounds@.len() implies chars@.subrange(
                    (#[trigger] bounds@[i]).0 as int,
                    bounds@[i].1 as int,
                ) == after[i] by {
                    assert(after[i] == before[i]);
                }
            }
        } else {
            proof {
                assert(after == before.drop_last().push(before.last().push(chars@[k as int])));
                assert(chars@.subrange(start as int, k as int).push(chars@[k as int])
                    =~= chars@.subrange(start as int, k + 1));
                assert forall|i: int| 0 <= i < bounds@.len() implies chars@.subrange(
                    (#[trigger] bounds@[i]).0 as int,
                    bounds@[i].1 as int,
                ) == after[i] by {
                    assert(after[i] == before[i]);
                }
            }
        }
        k += 1;
    }
    proof {
        assert(chars@.take(k as int) =~= chars@);
    }
    bounds.push((start, k));
    bounds
}

/// `suffix` is a final segment of `s`.
pub open spec fn is_suffix(suffix: Seq<char>, s: Seq<char>) -> bool {
    suffix.len() <= s.len() && s.subrange(s.len() - suffix.len(), s.len() as int) == suffix
}

/// Whether `chars[from..to]` is `word`.
pub fn range_is(chars: &Vec<char>, from: usize, to: usize, word: &Vec<char>) -> (yes: bool)
    requires
        from <= to <= chars@.len(),
    ensures
        yes == (chars@.subrange(from as int, to as int) == word@),
{
    if to - from != word.len() {
        return false;
    }
    let mut i: usize = 0;
    while i < word.len()
        invariant
            from <= to <= chars@.len(),
            to - from == word@.len(),
            0 <= i <= word@.len(),
            forall|k: int| 0 <= k < i ==> chars@[from + k] == word@[k],
        decreases word@.len() - i,
    {
        if chars[from + i] != word[i] {
            assert(chars@.subrange(from as int, to as int)[i as int] != word@[i as int]);
            return false;
        }
        i += 1;
    }
    assert(chars@.subrange(from as int, to as int) =~= word@);
    true
}

/// Whether `chars[from..to]` ends with `suffix`.
pub fn range_ends_with(chars: &Vec<char>, from: usize, to: usize, suffix: &Vec<char>) -> (yes: bool)
    requires
        from <= to <= chars@.len(),
    ensures
        yes == is_suffix(suffix@, chars@.subrange(from as int, to as int)),
{
    if to - from < suffix.len() {
        return false;
    }
    let yes = range_is(chars, to - suffix.len(), to, suffix);
    proof {
        let part = chars@.subrange(from as int, to as int);
        assert(part.subrange(part.len() - suffix@.len(), part.len() as int) =~= chars@.subrange(
            to - suffix@.len(),
            to as int,
        ));
    }
    yes
}

} // verus!
