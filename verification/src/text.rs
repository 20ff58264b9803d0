//! Text helpers shared by the rest of the crate: decimal rendering of
//! integers, ASCII case folding and the lexicographic order on strings.

use vstd::prelude::*;
use vstd::string::{StrSliceExecFns, StringExecFns};

verus! {

/// The text of an optional string.
pub open spec fn text_of(text: Option<&String>) -> Option<Seq<char>> {
    match text {
        Some(s) => Some(s@),
        None => None,
    }
}

/// The character that stands for the decimal digit `d`.
pub open spec fn digit_char(d: int) -> char
    recommends
        0 <= d < 10,
{
    if d == 0 {
        '0'
    } else if d == 1 {
        '1'
    } else if d == 2 {
        '2'
    } else if d == 3 {
        '3'
    } else if d == 4 {
        '4'
    } else if d == 5 {
        '5'
    } else if d == 6 {
        '6'
    } else if d == 7 {
        '7'
    } else if d == 8 {
        '8'
    } else {
        '9'
    }
}

/// The decimal digits of a natural number, most significant first, without
/// leading zeros (`0` is the single digit `0`).
pub open spec fn decimal_digits(n: nat) -> Seq<char>
    decreases n,
{
    if n < 10 {
        seq![digit_char(n as int)]
    } else {
        decimal_digits(n / 10).push(digit_char((n % 10) as int))
    }
}

/// The decimal text of an integer: a minus sign for negative numbers,
/// followed by the digits of the magnitude.
pub open spec fn decimal(n: int) -> Seq<char> {
    if n < 0 {
        seq!['-'] + decimal_digits((-n) as nat)
    } else {
        decimal_digits(n as nat)
    }
}

fn digit_str(d: u64) -> (s: &'static str)
    requires
        d < 10,
    ensures
        s@ == seq![digit_char(d as int)],
{
    proof {
        reveal_strlit("0");
        reveal_strlit("1");
        reveal_strlit("2");
        reveal_strlit("3");
        reveal_strlit("4");
        reveal_strlit("5");
        reveal_strlit("6");
        reveal_strlit("7");
        reveal_strlit("8");
        reveal_strlit("9");
    }
    let s = if d == 0 {
        "0"
    } else if d == 1 {
        "1"
    } else if d == 2 {
        "2"
    } else if d == 3 {
        "3"
    } else if d == 4 {
        "4"
    } else if d == 5 {
        "5"
    } else if d == 6 {
        "6"
    } else if d == 7 {
        "7"
    } else if d == 8 {
        "8"
    } else {
        "9"
    };
    s
}

/// Appends the decimal digits of `n` to `out`.
fn push_digits(out: &mut String, n: u64)
    ensures
        final(out)@ == old(out)@ + decimal_digits(n as nat),
    decreases n,
{
    if n >= 10 {
        push_digits(out, n / 10);
    }
    out.append(digit_str(n % 10));
}

/// Appends the decimal text of the count `n` to `out`.
pub fn push_count(out: &mut String, n: usize)
    ensures
        final(out)@ == old(out)@ + decimal(n as int),
{
    push_digits(out, n as u64);
}

/// Appends the decimal text of `n` to `out`.
pub fn push_decimal(out: &mut String, n: i64)
    ensures
        final(out)@ == old(out)@ + decimal(n as int),
{
    if n < 0 {
        proof {
            reveal_strlit("-");
        }
        out.append("-");
        // The magnitude of `i64::MIN` does not fit in an `i64`.
        let magnitude: u64 = ((-(n + 1)) as u64) + 1;
        push_digits(out, magnitude);
    } else {
        push_digits(out, n as u64);
    }
}

/// The lower-case form of an ASCII capital letter; any other character is
/// left as it is.
pub open spec fn ascii_lower(c: char) -> char {
    if 'A' <= c && c <= 'Z' {
        ((c as u8) + 32) as char
    } else {
        c
    }
}

/// `s` with every ASCII capital letter replaced by its lower-case form.
pub open spec fn ascii_fold(s: Seq<char>) -> Seq<char> {
    Seq::new(s.len(), |i: int| ascii_lower(s[i]))
}

fn lower(c: char) -> (l: char)
    ensures
        l == ascii_lower(c),
{
    if 'A' <= c && c <= 'Z' {
        ((c as u8) + 32) as char
    } else {
        c
    }
}

/// Whether `s` and `word` are the same text when the case of ASCII letters
/// is ignored.
pub fn eq_ignore_ascii_case(s: &str, word: &str) -> (same: bool)
    ensures
        same == (ascii_fold(s@) == ascii_fold(word@)),
{
    let n: usize = s.unicode_len();
    if n != word.unicode_len() {
        return false;
    }
    let mut i: usize = 0;
    while i < n
        invariant
            i <= n,
            n == s@.len(),
            n == word@.len(),
            forall|j: int| 0 <= j < i ==> ascii_lower(s@[j]) == ascii_lower(word@[j]),
        decreases n - i,
    {
        if lower(s.get_char(i)) != lower(word.get_char(i)) {
            assert(ascii_fold(s@)[i as int] != ascii_fold(word@)[i as int]);
            return false;
        }
        i += 1;
    }
    assert(ascii_fold(s@) =~= ascii_fold(word@));
    true
}

/// Whether `a` and `b` are the same text.
pub fn same_text(a: &str, b: &str) -> (same: bool)
    ensures
        same == (a@ == b@),
{
    let n: usize = a.unicode_len();
    if n != b.unicode_len() {
        return false;
    }
    let mut i: usize = 0;
    while i < n
        invariant
            i <= n,
            n == a@.len(),
            n == b@.len(),
            forall|j: int| 0 <= j < i ==> a@[j] == b@[j],
        decreases n - i,
    {
        if a.get_char(i) != b.get_char(i) {
            return false;
        }
        i += 1;
    }
    assert(a@ =~= b@);
    true
}

/// `a` and `b` agree on their first `k` characters.
pub open spec fn same_prefix(a: Seq<char>, b: Seq<char>, k: int) -> bool {
    &&& 0 <= k <= a.len()
    &&& k <= b.len()
    &&& forall|j: int| 0 <= j < k ==> a[j] == b[j]
}

/// The lexicographic order on texts, by code point: `a` comes before `b`
/// when, after a common beginning, `a` ends and `b` goes on, or `a` has
/// the smaller character.
pub open spec fn lex_less(a: Seq<char>, b: Seq<char>) -> bool {
    exists|k: int|
        #[trigger] same_prefix(a, b, k) && k < b.len() && (k == a.len() || a[k] < b[k])
}

/// No text comes before itself.
pub proof fn lemma_lex_less_irreflexive(a: Seq<char>)
    ensures
        !lex_less(a, a),
{
}

/// The order is transitive.
pub proof fn lemma_lex_less_transitive(a: Seq<char>, b: Seq<char>, c: Seq<char>)
    requires
        lex_less(a, b),
        lex_less(b, c),
    ensures
        lex_less(a, c),
{
    let k1 = choose|k: int|
        #[trigger] same_prefix(a, b, k) && k < b.len() && (k == a.len() || a[k] < b[k]);
    let k2 = choose|k: int|
        #[trigger] same_prefix(b, c, k) && k < c.len() && (k == b.len() || b[k] < c[k]);
    let k = if k1 <= k2 {
        k1
    } else {
        k2
    };
    assert(same_prefix(a, c, k));
}

/// Of two different texts one comes before the other.
pub proof fn lemma_lex_less_total(a: Seq<char>, b: Seq<char>)
    requires
        a != b,
    ensures
        lex_less(a, b) || lex_less(b, a),
{
    lemma_first_difference(a, b, 0);
}

proof fn lemma_first_difference(a: Seq<char>, b: Seq<char>, k: int)
    requires
        a != b,
        same_prefix(a, b, k),
    ensures
        lex_less(a, b) || lex_less(b, a),
    decreases a.len() - k,
{
    if k == a.len() {
        if k == b.len() {
            assert(a =~= b);
        }
    } else if k == b.len() {
        assert(same_prefix(b, a, k));
    } else if a[k] != b[k] {
        assert(same_prefix(b, a, k));
    } else {
        lemma_first_difference(a, b, k + 1);
    }
}

/// Whether `a` comes before `b` in the lexicographic order.
pub fn text_less(a: &str, b: &str) -> (less: bool)
    ensures
        less == lex_less(a@, b@),
{
    let n: usize = a.unicode_len();
    let m: usize = b.unicode_len();
    let mut i: usize = 0;
    while i < n && i < m
        invariant
            n == a@.len(),
            m == b@.len(),
            same_prefix(a@, b@, i as int),
        decreases n - i,
    {
        let x: char = a.get_char(i);
        let y: char = b.get_char(i);
        if x != y {
            return x < y;
        }
        i += 1;
    }
    i < m
}

} // verus!
