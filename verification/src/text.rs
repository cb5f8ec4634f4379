//! Character-level text utilities: whitespace tokenization, trimming,
//! searching, and decimal conversion, each specified over `Seq<char>`.
use vstd::prelude::*;

verus! {

/// The whitespace characters that separate request-line tokens.
pub open spec fn is_ws(c: char) -> bool {
    c == ' ' || c == '\t'
}

/// Length of the leading run of non-whitespace characters.
pub open spec fn token_len(s: Seq<char>) -> nat
    decreases s.len(),
{
    if s.len() == 0 || is_ws(s[0]) {
        0
    } else {
        1 + token_len(s.drop_first())
    }
}

proof fn lemma_token_len_le(s: Seq<char>)
    ensures
        token_len(s) <= s.len(),
    decreases s.len(),
{
    if s.len() == 0 || is_ws(s[0]) {
    } else {
        lemma_token_len_le(s.drop_first());
    }
}

/// `token_len` is the first whitespace position (or the length).
proof fn lemma_token_len_pointwise(s: Seq<char>, k: nat)
    requires
        k <= s.len(),
        forall|i: int| 0 <= i < k ==> !is_ws(s[i]),
        k == s.len() || is_ws(s[k as int]),
    ensures
        token_len(s) == k,
    decreases s.len(),
{
    if s.len() == 0 || is_ws(s[0]) {
    } else {
        lemma_token_len_pointwise(s.drop_first(), (k - 1) as nat);
    }
}

/// The sequence of maximal non-whitespace runs of `s`, in order.
pub open spec fn tokens_of(s: Seq<char>) -> Seq<Seq<char>>
    decreases s.len(),
    via tokens_of_decreases
{
    if s.len() == 0 {
        Seq::empty()
    } else if is_ws(s[0]) {
        tokens_of(s.drop_first())
    } else {
        seq![s.subrange(0, token_len(s) as int)] + tokens_of(
            s.subrange(token_len(s) as int, s.len() as int),
        )
    }
}

#[via_fn]
proof fn tokens_of_decreases(s: Seq<char>) {
    lemma_token_len_le(s);
}

fn is_ws_exec(c: char) -> (r: bool)
    ensures
        r == is_ws(c),
{
    c == ' ' || c == '\t'
}

/// Splits `s` into its whitespace-separated tokens.
pub fn tokenize(s: &str) -> (r: Vec<String>)
    ensures
        r.deep_view() == tokens_of(s@),
    decreases s@.len(),
{
    let n = s.unicode_len();
    if n == 0 {
        let r: Vec<String> = Vec::new();
        assert(r.deep_view() =~= tokens_of(s@));
        r
    } else if is_ws_exec(s.get_char(0)) {
        let rest = s.substring_char(1, n);
        assert(rest@ =~= s@.drop_first());
        tokenize(rest)
    } else {
        let mut t: usize = 1;
        while t < n && !is_ws_exec(s.get_char(t))
            invariant
                1 <= t <= n,
                n == s@.len(),
                forall|i: int| 0 <= i < t ==> !is_ws(s@[i]),
            decreases n - t,
        {
            t = t + 1;
        }
        proof {
            lemma_token_len_pointwise(s@, t as nat);
        }
        let tok = s.substring_char(0, t);
        let rest = s.substring_char(t, n);
        let tail = tokenize(rest);
        let mut r = tail;
        r.insert(0, tok.to_owned());
        assert(r.deep_view() =~= tokens_of(s@));
        r
    }
}

/// Length of the leading run of whitespace characters.
pub open spec fn lead_ws(s: Seq<char>) -> nat
    decreases s.len(),
{
    if s.len() == 0 || !is_ws(s[0]) {
        0
    } else {
        1 + lead_ws(s.drop_first())
    }
}

/// Length of the trailing run of whitespace characters.
pub open spec fn trail_ws(s: Seq<char>) -> nat
    decreases s.len(),
{
    if s.len() == 0 || !is_ws(s[s.len() - 1]) {
        0
    } else {
        1 + trail_ws(s.drop_last())
    }
}

/// `s` with leading and trailing whitespace removed.
pub open spec fn trim_of(s: Seq<char>) -> Seq<char> {
    if lead_ws(s) == s.len() {
        Seq::empty()
    } else {
        s.subrange(lead_ws(s) as int, s.len() - trail_ws(s))
    }
}

proof fn lemma_lead_ws_pointwise(s: Seq<char>, k: nat)
    requires
        k <= s.len(),
        forall|i: int| 0 <= i < k ==> is_ws(s[i]),
        k == s.len() || !is_ws(s[k as int]),
    ensures
        lead_ws(s) == k,
    decreases s.len(),
{
    if s.len() == 0 || !is_ws(s[0]) {
    } else {
        lemma_lead_ws_pointwise(s.drop_first(), (k - 1) as nat);
    }
}

proof fn lemma_trail_ws_pointwise(s: Seq<char>, k: nat)
    requires
        k <= s.len(),
        forall|i: int| s.len() - k <= i < s.len() ==> is_ws(s[i]),
        k == s.len() || !is_ws(s[s.len() - 1 - k]),
    ensures
        trail_ws(s) == k,
    decreases s.len(),
{
    if s.len() == 0 || !is_ws(s[s.len() - 1]) {
    } else {
        lemma_trail_ws_pointwise(s.drop_last(), (k - 1) as nat);
    }
}

/// Removes leading and trailing whitespace.
pub fn trim(s: &str) -> (r: String)
    ensures
        r@ == trim_of(s@),
{
    let n = s.unicode_len();
    let mut a: usize = 0;
    while a < n && is_ws_exec(s.get_char(a))
        invariant
            a <= n,
            n == s@.len(),
            forall|i: int| 0 <= i < a ==> is_ws(s@[i]),
        decreases n - a,
    {
        a = a + 1;
    }
    proof {
        lemma_lead_ws_pointwise(s@, a as nat);
    }
    if a == n {
        String::new()
    } else {
        let mut b: usize = n;
        while is_ws_exec(s.get_char(b - 1))
            invariant
                a < b <= n,
                n == s@.len(),
                !is_ws(s@[a as int]),
                forall|i: int| b <= i < n ==> is_ws(s@[i]),
            decreases b,
        {
            b = b - 1;
        }
        proof {
            lemma_trail_ws_pointwise(s@, (n - b) as nat);
        }
        let r = s.substring_char(a, b);
        assert(r@ =~= trim_of(s@));
        r.to_owned()
    }
}

/// Position of the first `:` in `s`, or `s.len()` if there is none.
pub open spec fn colon_pos(s: Seq<char>) -> nat
    decreases s.len(),
{
    if s.len() == 0 || s[0] == ':' {
        0
    } else {
        1 + colon_pos(s.drop_first())
    }
}

proof fn lemma_colon_pos_pointwise(s: Seq<char>, k: nat)
    requires
        k <= s.len(),
        forall|i: int| 0 <= i < k ==> s[i] != ':',
        k == s.len() || s[k as int] == ':',
    ensures
        colon_pos(s) == k,
    decreases s.len(),
{
    if s.len() == 0 || s[0] == ':' {
    } else {
        lemma_colon_pos_pointwise(s.drop_first(), (k - 1) as nat);
    }
}

/// Splits `s` at the first `:` into the part before and the part after;
/// `None` when `s` holds no `:`.
pub fn split_at_colon(s: &str) -> (r: Option<(String, String)>)
    ensures
        colon_pos(s@) <= s@.len(),
        colon_pos(s@) < s@.len() ==> (r is Some && (r->0).0@ == s@.subrange(
            0,
            colon_pos(s@) as int,
        ) && (r->0).1@ == s@.subrange(colon_pos(s@) as int + 1, s@.len() as int)),
        colon_pos(s@) == s@.len() ==> r is None,
{
    let n = s.unicode_len();
    let mut i: usize = 0;
    while i < n && !(s.get_char(i) == ':')
        invariant
            i <= n,
            n == s@.len(),
            forall|j: int| 0 <= j < i ==> s@[j] != ':',
        decreases n - i,
    {
        i = i + 1;
    }
    proof {
        lemma_colon_pos_pointwise(s@, i as nat);
    }
    if i == n {
        None
    } else {
        let left = s.substring_char(0, i);
        let right = s.substring_char(i + 1, n);
        Some((left.to_owned(), right.to_owned()))
    }
}

/// Character-for-character equality of two string slices.
pub fn str_eq(a: &str, b: &str) -> (r: bool)
    ensures
        r == (a@ == b@),
{
    let n = a.unicode_len();
    if n != b.unicode_len() {
        return false;
    }
    let mut i: usize = 0;
    while i < n
        invariant
            i <= n,
            n == a@.len() == b@.len(),
            forall|j: int| 0 <= j < i ==> a@[j] == b@[j],
        decreases n - i,
    {
        if !(a.get_char(i) == b.get_char(i)) {
            return false;
        }
        i = i + 1;
    }
    proof {
        assert(a@ =~= b@);
    }
    true
}

/// `p` is a prefix of `s`.
pub open spec fn starts_with_spec(s: Seq<char>, p: Seq<char>) -> bool {
    p.len() <= s.len() && s.subrange(0, p.len() as int) == p
}

pub fn starts_with_str(s: &str, p: &str) -> (r: bool)
    ensures
        r == starts_with_spec(s@, p@),
{
    let n = s.unicode_len();
    let m = p.unicode_len();
    if m > n {
        return false;
    }
    let head = s.substring_char(0, m);
    str_eq(head, p)
}

/// `p` occurs in `s` at position `i`.
pub open spec fn contains_at(s: Seq<char>, p: Seq<char>, i: int) -> bool {
    0 <= i && i + p.len() <= s.len() && s.subrange(i, i + p.len()) == p
}

/// `p` occurs somewhere in `s`.
pub open spec fn contains_spec(s: Seq<char>, p: Seq<char>) -> bool {
    exists|i: int| contains_at(s, p, i)
}

pub fn contains_str(s: &str, p: &str) -> (r: bool)
    ensures
        r == contains_spec(s@, p@),
{
    let n = s.unicode_len();
    let m = p.unicode_len();
    if m > n {
        assert(forall|i: int| !contains_at(s@, p@, i));
        return false;
    }
    if m == 0 {
        assert(s@.subrange(0, 0) =~= p@);
        assert(contains_at(s@, p@, 0));
        return true;
    }
    let mut i: usize = 0;
    while i <= n - m
        invariant
            i <= n - m + 1,
            1 <= m <= n,
            n == s@.len(),
            m == p@.len(),
            forall|j: int| 0 <= j < i ==> !contains_at(s@, p@, j),
        decreases n - i,
    {
        let w = s.substring_char(i, i + m);
        if str_eq(w, p) {
            assert(contains_at(s@, p@, i as int));
            return true;
        }
        i = i + 1;
    }
    assert(forall|j: int| !contains_at(s@, p@, j));
    false
}

/// The character for a single decimal digit.
pub open spec fn digit_char(d: nat) -> char {
    if d == 0 {
        '0'
    } else if d == 1 {
        '1'
    } else if d == 2 {
        '2'
    } else if d == 3 {
        '3'
    } else if d == 4 {
        '4'
    } else if d == 5 {
        '5'
    } else if d == 6 {
        '6'
    } else if d == 7 {
        '7'
    } else if d == 8 {
        '8'
    } else {
        '9'
    }
}

/// The decimal representation of `n`, without leading zeros.
pub open spec fn dec_of(n: nat) -> Seq<char>
    decreases n,
{
    if n < 10 {
        seq![digit_char(n)]
    } else {
        dec_of(n / 10).push(digit_char(n % 10))
    }
}

fn digit_str(d: usize) -> (r: &'static str)
    requires
        d < 10,
    ensures
        r@ =~= seq![digit_char(d as nat)],
{
    if d == 0 {
        proof {
            reveal_strlit("0");
        }
        "0"
    } else if d == 1 {
        proof {
            reveal_strlit("1");
        }
        "1"
    } else if d == 2 {
        proof {
            reveal_strlit("2");
        }
        "2"
    } else if d == 3 {
        proof {
            reveal_strlit("3");
        }
        "3"
    } else if d == 4 {
        proof {
            reveal_strlit("4");
        }
        "4"
    } else if d == 5 {
        proof {
            reveal_strlit("5");
        }
        "5"
    } else if d == 6 {
        proof {
            reveal_strlit("6");
        }
        "6"
    } else if d == 7 {
        proof {
            reveal_strlit("7");
        }
        "7"
    } else if d == 8 {
        proof {
            reveal_strlit("8");
        }
        "8"
    } else {
        proof {
            reveal_strlit("9");
        }
        "9"
    }
}

/// Renders `n` in decimal.
pub fn to_decimal(n: usize) -> (r: String)
    ensures
        r@ == dec_of(n as nat),
    decreases n,
{
    if n < 10 {
        digit_str(n).to_owned()
    } else {
        let mut s = to_decimal(n / 10);
        s.append(digit_str(n % 10));
        proof {
            assert(s@ =~= dec_of(n as nat));
        }
        s
    }
}

/// A decimal digit character.
pub open spec fn is_digit(c: char) -> bool {
    48 <= c as u32 && c as u32 <= 57
}

/// The numeric value of a digit character.
pub open spec fn digit_val(c: char) -> nat {
    (c as u32 - 48) as nat
}

pub open spec fn all_digits(s: Seq<char>) -> bool {
    forall|i: int| 0 <= i < s.len() ==> is_digit(#[trigger] s[i])
}

/// The numeric value of a digit string, most significant first.
pub open spec fn dec_val(s: Seq<char>) -> nat
    decreases s.len(),
{
    if s.len() == 0 {
        0
    } else {
        dec_val(s.drop_last()) * 10 + digit_val(s.last())
    }
}

proof fn lemma_dec_val_prefix_le(s: Seq<char>, k: int, m: int)
    requires
        0 <= k <= m <= s.len(),
    ensures
        dec_val(s.subrange(0, k)) <= dec_val(s.subrange(0, m)),
    decreases m - k,
{
    if k < m {
        lemma_dec_val_prefix_le(s, k, m - 1);
        assert(s.subrange(0, m).drop_last() =~= s.subrange(0, m - 1));
        assert(dec_val(s.subrange(0, m - 1)) <= dec_val(s.subrange(0, m - 1)) * 10 + digit_val(
            s.subrange(0, m).last(),
        )) by (nonlinear_arith);
    }
}

/// The lenient reading of a `Content-Length` value: a non-empty string of
/// digits whose value fits in `usize` gives that value; anything else
/// gives zero.
pub open spec fn content_length_of(s: Seq<char>) -> nat {
    if s.len() > 0 && all_digits(s) && dec_val(s) <= usize::MAX {
        dec_val(s)
    } else {
        0
    }
}

/// Reads a `Content-Length` value under the lenient policy.
pub fn parse_content_length(s: &str) -> (r: usize)
    ensures
        r as nat == content_length_of(s@),
{
    let n = s.unicode_len();
    if n == 0 {
        return 0;
    }
    let mut acc: usize = 0;
    let mut i: usize = 0;
    while i < n
        invariant
            i <= n,
            n == s@.len(),
            forall|j: int| 0 <= j < i ==> is_digit(#[trigger] s@[j]),
            acc as nat == dec_val(s@.subrange(0, i as int)),
        decreases n - i,
    {
        let c = s.get_char(i);
        let u = c as u32;
        if u < 48 || u > 57 {
            assert(!is_digit(s@[i as int]));
            return 0;
        }
        let d = (u - 48) as usize;
        let step = match acc.checked_mul(10) {
            Some(m) => m.checked_add(d),
            None => None,
        };
        match step {
            Some(next) => {
                proof {
                    assert(s@.subrange(0, i + 1).drop_last() =~= s@.subrange(0, i as int));
                }
                acc = next;
            },
            None => {
                proof {
                    assert(s@.subrange(0, i + 1).drop_last() =~= s@.subrange(0, i as int));
                    assert(dec_val(s@.subrange(0, i + 1)) > usize::MAX);
                    lemma_dec_val_prefix_le(s@, i + 1, n as int);
                    assert(s@.subrange(0, n as int) =~= s@);
                }
                return 0;
            },
        }
        i = i + 1;
    }
    proof {
        assert(s@.subrange(0, n as int) =~= s@);
    }
    acc
}

} // verus!
