//! Small verified string helpers: lexicographic comparison by character
//! code, repetition, and appending a single character.
use vstd::prelude::*;

verus! {

use core::cmp::Ordering;

/// Lexicographic comparison of the suffixes of `a` and `b` from `i` on,
/// by character code; a proper prefix orders first.
pub open spec fn lex_cmp_from(a: Seq<char>, b: Seq<char>, i: int) -> Ordering
    decreases a.len() + b.len() - 2 * i,
{
    if i < 0 || (i >= a.len() && i >= b.len()) {
        Ordering::Equal
    } else if i >= a.len() {
        Ordering::Less
    } else if i >= b.len() {
        Ordering::Greater
    } else if a[i] == b[i] {
        lex_cmp_from(a, b, i + 1)
    } else if (a[i] as u32) < (b[i] as u32) {
        Ordering::Less
    } else {
        Ordering::Greater
    }
}

/// Lexicographic order on text, by character code.
pub open spec fn lex_cmp(a: Seq<char>, b: Seq<char>) -> Ordering {
    lex_cmp_from(a, b, 0)
}

/// `s` repeated `n` times.
pub open spec fn repeat_text(s: Seq<char>, n: nat) -> Seq<char>
    decreases n,
{
    if n == 0 {
        Seq::empty()
    } else {
        repeat_text(s, (n - 1) as nat) + s
    }
}

/// Compares two pieces of text lexicographically by character code.
#[verifier::loop_isolation(false)]
pub fn str_cmp(a: &str, b: &str) -> (r: Ordering)
    ensures
        r == lex_cmp(a@, b@),
{
    let alen = a.unicode_len();
    let blen = b.unicode_len();
    let mut i: usize = 0;
    loop
        invariant
            0 <= i,
            i <= alen || i <= blen,
            lex_cmp(a@, b@) == lex_cmp_from(a@, b@, i as int),
        decreases a@.len() + b@.len() - i,
    {
        if i >= alen && i >= blen {
            return Ordering::Equal;
        } else if i >= alen {
            return Ordering::Less;
        } else if i >= blen {
            return Ordering::Greater;
        }
        let ca = a.get_char(i);
        let cb = b.get_char(i);
        if ca == cb {
            i = i + 1;
        } else if (ca as u32) < (cb as u32) {
            return Ordering::Less;
        } else {
            return Ordering::Greater;
        }
    }
}

/// Whether two pieces of text hold the same characters.
pub fn str_eq(a: &str, b: &str) -> (r: bool)
    ensures
        r == (a@ == b@),
{
    match str_cmp(a, b) {
        Ordering::Equal => {
            proof {
                assert(a@.subrange(0, 0) =~= b@.subrange(0, 0));
                lemma_lex_cmp_eq(a@, b@, 0);
            }
            true
        },
        _ => true && {
            proof {
                if a@ == b@ {
                    lemma_lex_cmp_refl(a@, 0);
                }
            }
            false
        },
    }
}

/// Equal suffixes compare equal.
pub proof fn lemma_lex_cmp_refl(a: Seq<char>, i: int)
    ensures
        lex_cmp_from(a, a, i) == Ordering::Equal,
    decreases a.len() - i,
{
    if 0 <= i && i < a.len() {
        lemma_lex_cmp_refl(a, i + 1);
    }
}

/// Suffixes that compare equal are equal, given equal prefixes.
pub proof fn lemma_lex_cmp_eq(a: Seq<char>, b: Seq<char>, i: int)
    requires
        0 <= i <= a.len(),
        0 <= i <= b.len(),
        a.subrange(0, i) == b.subrange(0, i),
        lex_cmp_from(a, b, i) == Ordering::Equal,
    ensures
        a == b,
    decreases a.len() + b.len() - 2 * i,
{
    if i >= a.len() && i >= b.len() {
        assert forall|j: int| 0 <= j < i implies a[j] == b[j] by {
            assert(a.subrange(0, i)[j] == a[j]);
            assert(b.subrange(0, i)[j] == b[j]);
        }
        assert(a =~= b);
    } else if i >= a.len() || i >= b.len() {
        assert(false);
    } else if a[i] == b[i] {
        assert forall|j: int| 0 <= j < i + 1 implies #[trigger] a.subrange(0, i + 1)[j] == b.subrange(
            0,
            i + 1,
        )[j] by {
            if j < i {
                assert(a.subrange(0, i)[j] == a[j]);
                assert(b.subrange(0, i)[j] == b[j]);
            }
        }
        assert(a.subrange(0, i + 1) =~= b.subrange(0, i + 1));
        lemma_lex_cmp_eq(a, b, i + 1);
    }
}

/// Relies on `String::push`: appends one character.
#[verifier::external_body]
pub fn push_char(s: &mut String, c: char)
    ensures
        final(s)@ == old(s)@.push(c),
{
    s.push(c);
}

/// `s` repeated `n` times as a new string.
#[verifier::loop_isolation(false)]
pub fn str_repeat(s: &str, n: usize) -> (r: String)
    ensures
        r@ == repeat_text(s@, n as nat),
{
    let mut out = String::new();
    let mut i: usize = 0;
    while i < n
        invariant
            i <= n,
            out@ == repeat_text(s@, i as nat),
        decreases n - i,
    {
        out.append(s);
        i = i + 1;
    }
    out
}

/// Distinct characters have distinct scalar values.
pub proof fn lemma_char_injective(x: char, y: char)
    requires
        x as u32 == y as u32,
    ensures
        x == y,
{
}

/// Swapping the operands mirrors the order.
pub proof fn lemma_lex_cmp_flip(a: Seq<char>, b: Seq<char>, i: int)
    ensures
        (lex_cmp_from(a, b, i) == Ordering::Less) <==> (lex_cmp_from(b, a, i)
            == Ordering::Greater),
        (lex_cmp_from(a, b, i) == Ordering::Equal) <==> (lex_cmp_from(b, a, i) == Ordering::Equal),
    decreases a.len() + b.len() - 2 * i,
{
    if i >= 0 && !(i >= a.len() && i >= b.len()) && i < a.len() && i < b.len() {
        if a[i] == b[i] {
            lemma_lex_cmp_flip(a, b, i + 1);
        } else if (a[i] as u32) == (b[i] as u32) {
            lemma_char_injective(a[i], b[i]);
        }
    }
}

/// The lexicographic order is transitive.
pub proof fn lemma_lex_cmp_trans(a: Seq<char>, b: Seq<char>, c: Seq<char>, i: int)
    requires
        lex_cmp_from(a, b, i) == Ordering::Less,
        lex_cmp_from(b, c, i) == Ordering::Less,
    ensures
        lex_cmp_from(a, c, i) == Ordering::Less,
    decreases a.len() + b.len() + c.len() - 3 * i,
{
    if i < 0 {
    } else if i >= a.len() {
        // `a` ended first; `b` goes on, and so must `c`.
        assert(i < b.len());
        assert(i < c.len());
    } else {
        assert(i < b.len());
        assert(i < c.len());
        if a[i] == b[i] && b[i] == c[i] {
            lemma_lex_cmp_trans(a, b, c, i + 1);
        } else {
            if a[i] != c[i] && (a[i] as u32) == (c[i] as u32) {
                lemma_char_injective(a[i], c[i]);
            }
            if a[i] != b[i] && (a[i] as u32) == (b[i] as u32) {
                lemma_char_injective(a[i], b[i]);
            }
            if b[i] != c[i] && (b[i] as u32) == (c[i] as u32) {
                lemma_char_injective(b[i], c[i]);
            }
        }
    }
}

} // verus!
