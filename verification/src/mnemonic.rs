//! Shortening a mnemonic phrase for display: first word, ellipsis, last
//! word.

use vstd::prelude::*;
use vstd::string::StrSliceExecFns;
use vstd::string::StringExecFns;

verus! {

/// Whether `c` has the Unicode white-space property, the separator
/// `str::split_whitespace` splits on.
pub open spec fn is_space(c: char) -> bool {
    let n = c as u32;
    n == 0x20 || n == 0x09 || n == 0x0a || n == 0x0b || n == 0x0c || n == 0x0d || n == 0x85 || n
        == 0xa0 || n == 0x1680 || (0x2000 <= n && n <= 0x200a) || n == 0x2028 || n == 0x2029 || n
        == 0x202f || n == 0x205f || n == 0x3000
}

fn is_space_exec(c: char) -> (r: bool)
    ensures
        r == is_space(c),
{
    let n = c as u32;
    n == 0x20 || n == 0x09 || n == 0x0a || n == 0x0b || n == 0x0c || n == 0x0d || n == 0x85 || n
        == 0xa0 || n == 0x1680 || (0x2000 <= n && n <= 0x200a) || n == 0x2028 || n == 0x2029 || n
        == 0x202f || n == 0x205f || n == 0x3000
}

/// The first position at or after `i` holding a non-space character, or the
/// length where there is none.
pub open spec fn next_nonspace(s: Seq<char>, i: int) -> int
    decreases s.len() - i,
{
    if i >= s.len() {
        i
    } else if !is_space(s[i]) {
        i
    } else {
        next_nonspace(s, i + 1)
    }
}

/// The first position at or after `i` holding a space, or the length where
/// there is none.
pub open spec fn next_space(s: Seq<char>, i: int) -> int
    decreases s.len() - i,
{
    if i >= s.len() {
        i
    } else if is_space(s[i]) {
        i
    } else {
        next_space(s, i + 1)
    }
}

/// One past the last non-space character at or before position `i - 1`, or 0
/// where there is none.
pub open spec fn prev_nonspace_end(s: Seq<char>, i: int) -> int
    decreases i,
{
    if i <= 0 {
        0
    } else if !is_space(s[i - 1]) {
        i
    } else {
        prev_nonspace_end(s, i - 1)
    }
}

/// The start of the word that ends at position `i`: the first position after
/// the previous space.
pub open spec fn word_start(s: Seq<char>, i: int) -> int
    decreases i,
{
    if i <= 0 {
        0
    } else if is_space(s[i - 1]) {
        i
    } else {
        word_start(s, i - 1)
    }
}

/// The first whitespace-separated word of `s`.
pub open spec fn first_word(s: Seq<char>) -> Seq<char> {
    s.subrange(next_nonspace(s, 0), next_space(s, next_nonspace(s, 0)))
}

/// The last whitespace-separated word of `s`.
pub open spec fn last_word(s: Seq<char>) -> Seq<char> {
    s.subrange(word_start(s, prev_nonspace_end(s, s.len() as int)), prev_nonspace_end(
        s,
        s.len() as int,
    ))
}

/// Shortens a mnemonic phrase to its first and last words joined by an
/// ellipsis. The phrase must hold at least one word; with exactly one word,
/// that word appears on both sides.
pub fn truncate_mnemonic_phrase(mnemonic_phrase: &str) -> (r: String)
    requires
        exists|i: int|
            0 <= i < mnemonic_phrase@.len() && !is_space(#[trigger] mnemonic_phrase@[i]),
    ensures
        r@ == first_word(mnemonic_phrase@) + "..."@ + last_word(mnemonic_phrase@),
{
    let ghost s = mnemonic_phrase@;
    let len = mnemonic_phrase.unicode_len();
    let mut a: usize = 0;
    while a < len && is_space_exec(mnemonic_phrase.get_char(a))
        invariant
            a <= len,
            len == s.len(),
            s == mnemonic_phrase@,
            forall|j: int| 0 <= j < a ==> is_space(#[trigger] s[j]),
            next_nonspace(s, 0) == next_nonspace(s, a as int),
        decreases len - a,
    {
        a += 1;
    }
    proof {
        assert(exists|i: int| 0 <= i < s.len() && !is_space(#[trigger] s[i]));
        if a == len {
            let i = choose|i: int| 0 <= i < s.len() && !is_space(#[trigger] s[i]);
            assert(is_space(s[i]));
            assert(false);
        }
        assert(next_nonspace(s, 0) == a as int);
    }
    let mut b: usize = a;
    while b < len && !is_space_exec(mnemonic_phrase.get_char(b))
        invariant
            a <= b <= len,
            len == s.len(),
            s == mnemonic_phrase@,
            next_space(s, a as int) == next_space(s, b as int),
        decreases len - b,
    {
        b += 1;
    }
    proof {
        assert(next_space(s, a as int) == b as int);
    }
    let first = mnemonic_phrase.substring_char(a, b);
    let mut e: usize = len;
    while e > 0 && is_space_exec(mnemonic_phrase.get_char(e - 1))
        invariant
            e <= len,
            len == s.len(),
            s == mnemonic_phrase@,
            forall|j: int| e <= j < len ==> is_space(#[trigger] s[j]),
            prev_nonspace_end(s, len as int) == prev_nonspace_end(s, e as int),
        decreases e,
    {
        e -= 1;
    }
    proof {
        if e == 0 {
            let i = choose|i: int| 0 <= i < s.len() && !is_space(#[trigger] s[i]);
            assert(is_space(s[i]));
            assert(false);
        }
        assert(prev_nonspace_end(s, len as int) == e as int);
    }
    let mut st: usize = e;
    while st > 0 && !is_space_exec(mnemonic_phrase.get_char(st - 1))
        invariant
            st <= e <= len,
            len == s.len(),
            s == mnemonic_phrase@,
            word_start(s, e as int) == word_start(s, st as int),
        decreases st,
    {
        st -= 1;
    }
    proof {
        assert(word_start(s, e as int) == st as int);
    }
    let last = mnemonic_phrase.substring_char(st, e);
    let mut r = String::new();
    r.append(first);
    r.append("...");
    r.append(last);
    proof {
        assert(r@ =~= first_word(s) + "..."@ + last_word(s));
    }
    r
}

} // verus!
