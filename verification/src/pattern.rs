//! Patterns over metric names, in the style of SQL's `LIKE`.
//!
//! In a pattern `%` stands for any run of characters, the empty one too,
//! and `_` for any one character. Every other character stands for itself,
//! an ASCII letter for both of its cases.

use crate::text::{ascii_fold, fold_char, same_ignoring_case};
use vstd::prelude::*;

verus! {

/// Whether `text` matches `pattern`.
pub open spec fn like(pattern: Seq<char>, text: Seq<char>) -> bool
    decreases pattern.len(), text.len(),
{
    if pattern.len() == 0 {
        text.len() == 0
    } else if pattern[0] == '%' {
        like(pattern.drop_first(), text) || (text.len() > 0 && like(pattern, text.drop_first()))
    } else if text.len() == 0 {
        false
    } else if pattern[0] == '_' || ascii_fold(pattern[0]) == ascii_fold(text[0]) {
        like(pattern.drop_first(), text.drop_first())
    } else {
        false
    }
}

/// The pattern `%` matches every text.
pub proof fn lemma_like_everything(text: Seq<char>)
    ensures
        like(seq!['%'], text),
    decreases text.len(),
{
    let pattern = seq!['%'];
    assert(pattern[0] == '%');
    assert(pattern.drop_first() =~= Seq::<char>::empty());
    if text.len() > 0 {
        lemma_like_everything(text.drop_first());
    } else {
        assert(like(Seq::<char>::empty(), text));
    }
}

/// Whether `c` stands for itself in a pattern.
pub open spec fn is_plain(c: char) -> bool {
    c != '%' && c != '_'
}

/// A pattern without `%` and `_` matches the texts that are the pattern
/// but for the case of ASCII letters, and no other.
pub proof fn lemma_like_plain(pattern: Seq<char>, text: Seq<char>)
    requires
        forall|i: int| 0 <= i < pattern.len() ==> is_plain(#[trigger] pattern[i]),
    ensures
        like(pattern, text) <==> same_ignoring_case(text, pattern),
    decreases pattern.len(),
{
    if pattern.len() > 0 && text.len() > 0 {
        let rest = pattern.drop_first();
        let tail = text.drop_first();
        assert forall|i: int| 0 <= i < rest.len() implies is_plain(#[trigger] rest[i]) by {
            assert(rest[i] == pattern[i + 1]);
        }
        lemma_like_plain(rest, tail);
        if same_ignoring_case(text, pattern) {
            assert forall|i: int| 0 <= i < tail.len() implies ascii_fold(#[trigger] tail[i])
                == ascii_fold(rest[i]) by {
                assert(tail[i] == text[i + 1] && rest[i] == pattern[i + 1]);
            }
        }
        if like(pattern, text) {
            assert forall|i: int| 0 <= i < text.len() implies ascii_fold(#[trigger] text[i])
                == ascii_fold(pattern[i]) by {
                if i > 0 {
                    assert(tail[i - 1] == text[i] && rest[i - 1] == pattern[i]);
                }
            }
        }
    }
}

/// Whether `text[k..]` matches `pattern[i..]`.
pub open spec fn like_from(pattern: Seq<char>, text: Seq<char>, i: int, k: int) -> bool {
    like(pattern.skip(i), text.skip(k))
}

/// `row` and `end` hold, for `pattern[i..]`, the answers for every suffix of
/// `text`: `row[k]` for `text[k..]`, and `end` for the empty suffix.
spec fn row_ok(row: Seq<bool>, end: bool, pattern: Seq<char>, text: Seq<char>, i: int) -> bool {
    &&& row.len() == text.len()
    &&& forall|k: int| 0 <= k < text.len() ==> #[trigger] row[k] == like_from(pattern, text, i, k)
    &&& end == like_from(pattern, text, i, text.len() as int)
}

/// How the answer for `pattern[i..]` and `text[k..]` follows from the
/// answers for shorter suffixes.
proof fn lemma_like_unfold(pattern: Seq<char>, text: Seq<char>, i: int, k: int)
    requires
        0 <= i < pattern.len(),
        0 <= k <= text.len(),
    ensures
        like_from(pattern, text, i, k) == (if pattern[i] == '%' {
            like_from(pattern, text, i + 1, k) || (k < text.len() && like_from(
                pattern,
                text,
                i,
                k + 1,
            ))
        } else {
            &&& k < text.len()
            &&& pattern[i] == '_' || ascii_fold(pattern[i]) == ascii_fold(text[k])
            &&& like_from(pattern, text, i + 1, k + 1)
        }),
{
    assert(pattern.skip(i).drop_first() =~= pattern.skip(i + 1));
    assert(pattern.skip(i)[0] == pattern[i]);
    if k < text.len() {
        assert(text.skip(k).drop_first() =~= text.skip(k + 1));
        assert(text.skip(k)[0] == text[k]);
    }
}

/// A row of `len` entries, all `false`.
fn blank_row(len: usize) -> (row: Vec<bool>)
    ensures
        row@.len() == len,
        forall|k: int| 0 <= k < len ==> !#[trigger] row@[k],
{
    let mut row: Vec<bool> = Vec::new();
    let mut k: usize = 0;
    while k < len
        invariant
            0 <= k <= len,
            row@.len() == k,
            forall|m: int| 0 <= m < k ==> !#[trigger] row@[m],
        decreases len - k,
    {
        row.push(false);
        k += 1;
    }
    row
}

/// Whether `text` matches `pattern`.
pub fn like_match(pattern: &Vec<char>, text: &Vec<char>) -> (yes: bool)
    ensures
        yes == like(pattern@, text@),
{
    let plen: usize = pattern.len();
    let tlen: usize = text.len();
    let mut next: Vec<bool> = blank_row(tlen);
    let mut next_end: bool = true;
    proof {
        assert(pattern@.skip(plen as int) =~= Seq::<char>::empty());
        assert forall|k: int| 0 <= k < tlen implies #[trigger] next@[k] == like_from(
            pattern@,
            text@,
            plen as int,
            k,
        ) by {
            assert(text@.skip(k).len() > 0);
        }
        assert(text@.skip(tlen as int) =~= Seq::<char>::empty());
    }
    let mut i: usize = plen;
    while i > 0
        invariant
            plen == pattern@.len(),
            tlen == text@.len(),
            0 <= i <= plen,
            row_ok(next@, next_end, pattern@, text@, i as int),
        decreases i,
    {
        i -= 1;
        let pc: char = pattern[i];
        let any_run: bool = pc == '%';
        let mut cur: Vec<bool> = blank_row(tlen);
        let cur_end: bool = any_run && next_end;
        proof {
            lemma_like_unfold(pattern@, text@, i as int, tlen as int);
        }
        let mut j: usize = tlen;
        while j > 0
            invariant
                plen == pattern@.len(),
                tlen == text@.len(),
                0 <= i < plen,
                0 <= j <= tlen,
                pc == pattern@[i as int],
                any_run == (pc == '%'),
                cur@.len() == tlen,
                row_ok(next@, next_end, pattern@, text@, i + 1),
                cur_end == like_from(pattern@, text@, i as int, tlen as int),
                forall|k: int|
                    j <= k < tlen ==> #[trigger] cur@[k] == like_from(pattern@, text@, i as int, k),
            decreases j,
        {
            j -= 1;
            let answer: bool = if any_run {
                let shorter: bool = if j + 1 < tlen {
                    cur[j + 1]
                } else {
                    cur_end
                };
                next[j] || shorter
            } else {
                let rest: bool = if j + 1 < tlen {
                    next[j + 1]
                } else {
                    next_end
                };
                (pc == '_' || fold_char(pc) == fold_char(text[j])) && rest
            };
            proof {
                lemma_like_unfold(pattern@, text@, i as int, j as int);
            }
            cur.set(j, answer);
        }
        next = cur;
        next_end = cur_end;
    }
    proof {
        assert(pattern@.skip(0) =~= pattern@);
        assert(text@.skip(0) =~= text@);
    }
    if tlen > 0 {
        next[0]
    } else {
        next_end
    }
}

} // verus!
