//! Verified text utilities: ASCII case folding, case-insensitive substring
//! search, whitespace tokenizing, and decimal numerals in both directions.
//! The network tracker parses the counter table with these, and the record
//! logger renders numbers with them.

use vstd::prelude::*;

verus! {

/// ASCII uppercase letter test.
pub open spec fn is_ascii_upper(c: char) -> bool {
    'A' <= c && c <= 'Z'
}

/// ASCII case folding of one character: an uppercase letter maps to its
/// lowercase counterpart, every other character is unchanged.
pub open spec fn fold_char(c: char) -> char {
    if is_ascii_upper(c) {
        ((c as u32) + 32) as char
    } else {
        c
    }
}

/// ASCII case folding of a character sequence.
pub open spec fn fold_chars(s: Seq<char>) -> Seq<char> {
    s.map_values(|c: char| fold_char(c))
}

/// `t` occurs in `s` starting at index `i`.
pub open spec fn occurs_at(s: Seq<char>, t: Seq<char>, i: int) -> bool {
    0 <= i && i + t.len() <= s.len() && s.subrange(i, i + t.len() as int) == t
}

/// `t` occurs somewhere in `s`.
pub open spec fn contains_seq(s: Seq<char>, t: Seq<char>) -> bool {
    exists|i: int| occurs_at(s, t, i)
}

/// Case-insensitive containment: `t` occurs in `s` once both are ASCII
/// case folded.
pub open spec fn contains_ci(s: Seq<char>, t: Seq<char>) -> bool {
    contains_seq(fold_chars(s), fold_chars(t))
}

/// Executable ASCII case folding of one character.
pub fn fold_char_exec(c: char) -> (r: char)
    ensures
        r == fold_char(c),
{
    match c {
        'A' => 'a',
        'B' => 'b',
        'C' => 'c',
        'D' => 'd',
        'E' => 'e',
        'F' => 'f',
        'G' => 'g',
        'H' => 'h',
        'I' => 'i',
        'J' => 'j',
        'K' => 'k',
        'L' => 'l',
        'M' => 'm',
        'N' => 'n',
        'O' => 'o',
        'P' => 'p',
        'Q' => 'q',
        'R' => 'r',
        'S' => 's',
        'T' => 't',
        'U' => 'u',
        'V' => 'v',
        'W' => 'w',
        'X' => 'x',
        'Y' => 'y',
        'Z' => 'z',
        _ => c,
    }
}

/// Whether the folded form of `t` occurs in the folded form of `s` at
/// position `i`.
fn matches_at(s: &str, t: &str, i: usize) -> (r: bool)
    requires
        i + t@.len() <= s@.len(),
    ensures
        r == occurs_at(fold_chars(s@), fold_chars(t@), i as int),
{
    let s_len = s.unicode_len();
    let t_len = t.unicode_len();
    let mut j: usize = 0;
    while j < t_len
        invariant
            s_len == s@.len(),
            t_len == t@.len(),
            0 <= j <= t_len,
            i + t_len <= s_len,
            forall|k: int| 0 <= k < j ==> fold_chars(s@)[i + k] == fold_chars(t@)[k],
        decreases t_len - j,
    {
        let sc = fold_char_exec(s.get_char(i + j));
        let tc = fold_char_exec(t.get_char(j));
        if sc != tc {
            proof {
                let fs = fold_chars(s@);
                let ft = fold_chars(t@);
                assert(fs.subrange(i as int, i + ft.len() as int)[j as int] != ft[j as int]);
            }
            return false;
        }
        j = j + 1;
    }
    proof {
        let fs = fold_chars(s@);
        let ft = fold_chars(t@);
        assert(fs.subrange(i as int, i + ft.len() as int) =~= ft);
    }
    true
}

/// Case-insensitive substring search, the filter that selects counter-table
/// lines for a target key.
pub fn contains_ci_str(s: &str, t: &str) -> (r: bool)
    ensures
        r == contains_ci(s@, t@),
{
    let s_len = s.unicode_len();
    let t_len = t.unicode_len();
    if t_len > s_len {
        proof {
            let fs = fold_chars(s@);
            let ft = fold_chars(t@);
            assert(forall|i: int| !occurs_at(fs, ft, i));
        }
        return false;
    }
    let bound = s_len - t_len;
    let mut i: usize = 0;
    loop
        invariant
            s_len == s@.len(),
            t_len == t@.len(),
            t_len <= s_len,
            bound == s_len - t_len,
            0 <= i <= bound,
            forall|k: int| 0 <= k < i ==> !occurs_at(fold_chars(s@), fold_chars(t@), k),
        decreases bound - i,
    {
        if matches_at(s, t, i) {
            return true;
        }
        if i == bound {
            proof {
                let fs = fold_chars(s@);
                let ft = fold_chars(t@);
                assert(forall|k: int| occurs_at(fs, ft, k) ==> 0 <= k <= bound);
            }
            return false;
        }
        i = i + 1;
    }
}

/// Whitespace, as the counter-table columns are separated.
pub open spec fn is_space(c: char) -> bool {
    c == ' ' || c == '\t' || c == '\r' || c == '\n'
}

/// Tokens of `s` with `cur` as the partial token read so far: the helper
/// behind [`tokens_of`].
pub open spec fn tokens_acc(s: Seq<char>, cur: Seq<char>) -> Seq<Seq<char>>
    decreases s.len(),
{
    if s.len() == 0 {
        if cur.len() == 0 {
            seq![]
        } else {
            seq![cur]
        }
    } else if is_space(s[0]) {
        if cur.len() == 0 {
            tokens_acc(s.drop_first(), seq![])
        } else {
            seq![cur] + tokens_acc(s.drop_first(), seq![])
        }
    } else {
        tokens_acc(s.drop_first(), cur.push(s[0]))
    }
}

/// The maximal runs of non-whitespace characters of `s`, in order.
pub open spec fn tokens_of(s: Seq<char>) -> Seq<Seq<char>> {
    tokens_acc(s, seq![])
}

/// Splits a line into its whitespace-separated tokens.
pub fn split_tokens(s: &str) -> (r: Vec<String>)
    ensures
        r.deep_view() == tokens_of(s@),
{
    let s_len = s.unicode_len();
    let mut r: Vec<String> = Vec::new();
    let mut start: Option<usize> = None;
    let mut i: usize = 0;
    proof {
        assert(s@.skip(0) =~= s@);
        assert(r.deep_view() =~= Seq::<Seq<char>>::empty());
        assert(Seq::<Seq<char>>::empty() + tokens_acc(s@, seq![]) =~= tokens_acc(s@, seq![]));
    }
    while i < s_len
        invariant
            s_len == s@.len(),
            0 <= i <= s_len,
            match start {
                Some(st) => st < i && tokens_of(s@) == r.deep_view() + tokens_acc(
                    s@.skip(i as int),
                    s@.subrange(st as int, i as int),
                ),
                None => tokens_of(s@) == r.deep_view() + tokens_acc(s@.skip(i as int), seq![]),
            },
        decreases s_len - i,
    {
        let c = s.get_char(i);
        let space = c == ' ' || c == '\t' || c == '\r' || c == '\n';
        proof {
            assert(s@.skip(i as int)[0] == s@[i as int]);
            assert(s@.skip(i as int).drop_first() =~= s@.skip(i + 1));
        }
        if space {
            if let Some(st) = start {
                let tok = String::from_str(s.substring_char(st, i));
                let ghost prev = r.deep_view();
                r.push(tok);
                proof {
                    let cur = s@.subrange(st as int, i as int);
                    assert(tokens_acc(s@.skip(i as int), cur) == seq![cur] + tokens_acc(
                        s@.skip(i + 1),
                        seq![],
                    ));
                    assert(r.deep_view() =~= prev.push(cur));
                    assert(prev.push(cur) + tokens_acc(s@.skip(i + 1), seq![]) =~= prev + (
                    seq![cur] + tokens_acc(s@.skip(i + 1), seq![])));
                }
                start = None;
            }
        } else {
            match start {
                None => {
                    proof {
                        assert(seq![s@[i as int]] =~= s@.subrange(i as int, i + 1));
                        assert(Seq::<char>::empty().push(s@[i as int]) =~= s@.subrange(
                            i as int,
                            i + 1,
                        ));
                    }
                    start = Some(i);
                },
                Some(st) => {
                    proof {
                        assert(s@.subrange(st as int, i as int).push(s@[i as int]) =~= s@.subrange(
                            st as int,
                            i + 1,
                        ));
                    }
                },
            }
        }
        i = i + 1;
    }
    proof {
        assert(s@.skip(s_len as int) =~= Seq::<char>::empty());
    }
    if let Some(st) = start {
        let tok = String::from_str(s.substring_char(st, s_len));
        let ghost prev = r.deep_view();
        r.push(tok);
        proof {
            let cur = s@.subrange(st as int, s_len as int);
            assert(tokens_acc(Seq::<char>::empty(), cur) == seq![cur]);
            assert(r.deep_view() =~= prev.push(cur));
            assert(prev.push(cur) =~= prev + seq![cur]);
        }
    }
    r
}

/// Character-for-character string equality.
pub fn str_eq(a: &str, b: &str) -> (r: bool)
    ensures
        r == (a@ == b@),
{
    let a_len = a.unicode_len();
    let b_len = b.unicode_len();
    if a_len != b_len {
        return false;
    }
    let mut i: usize = 0;
    while i < a_len
        invariant
            a_len == a@.len(),
            b_len == b@.len(),
            a_len == b_len,
            0 <= i <= a_len,
            forall|k: int| 0 <= k < i ==> a@[k] == b@[k],
        decreases a_len - i,
    {
        if a.get_char(i) != b.get_char(i) {
            return false;
        }
        i = i + 1;
    }
    proof {
        assert(a@ =~= b@);
    }
    true
}

/// Decimal digit test.
pub open spec fn is_digit(c: char) -> bool {
    '0' <= c && c <= '9'
}

/// Numeric value of a decimal digit character.
pub open spec fn digit_val(c: char) -> nat
    recommends
        is_digit(c),
{
    (c as int - '0' as int) as nat
}

/// Every character of `s` is a decimal digit.
pub open spec fn all_digits(s: Seq<char>) -> bool {
    forall|i: int| 0 <= i < s.len() ==> is_digit(s[i])
}

/// Value of a digit sequence read as a decimal numeral.
pub open spec fn digits_val(s: Seq<char>) -> nat
    decreases s.len(),
{
    if s.len() == 0 {
        0
    } else {
        digits_val(s.drop_last()) * 10 + digit_val(s.last())
    }
}

/// A well-formed numeral for a 64-bit unsigned counter: non-empty, all
/// digits, and within range.
pub open spec fn is_u64_numeral(s: Seq<char>) -> bool {
    s.len() > 0 && all_digits(s) && digits_val(s) <= u64::MAX
}

/// A prefix of an all-digit sequence never exceeds the whole.
proof fn lemma_digits_val_take_le(s: Seq<char>, k: int)
    requires
        all_digits(s),
        0 <= k <= s.len(),
    ensures
        digits_val(s.take(k)) <= digits_val(s),
    decreases s.len(),
{
    if s.len() == 0 || k == s.len() {
        assert(s.take(k) =~= s);
    } else {
        let d = s.drop_last();
        assert(all_digits(d));
        assert(d.take(k) =~= s.take(k));
        lemma_digits_val_take_le(d, k);
        assert(digits_val(d) <= digits_val(d) * 10 + digit_val(s.last())) by (nonlinear_arith)
            requires
                digit_val(s.last()) >= 0,
                digits_val(d) >= 0,
        ;
    }
}

/// Parses a decimal numeral; a malformed or out-of-range field reads as 0,
/// the scan never aborts.
pub fn parse_u64_or_zero(s: &str) -> (r: u64)
    ensures
        r == if is_u64_numeral(s@) {
            digits_val(s@) as u64
        } else {
            0u64
        },
{
    let s_len = s.unicode_len();
    if s_len == 0 {
        return 0;
    }
    let mut acc: u64 = 0;
    let mut i: usize = 0;
    while i < s_len
        invariant
            s_len == s@.len(),
            0 <= i <= s_len,
            all_digits(s@.take(i as int)),
            acc as nat == digits_val(s@.take(i as int)),
        decreases s_len - i,
    {
        let c = s.get_char(i);
        if !(c >= '0' && c <= '9') {
            assert(!is_digit(s@[i as int]));
            return 0;
        }
        let d: u64 = match c {
            '0' => 0,
            '1' => 1,
            '2' => 2,
            '3' => 3,
            '4' => 4,
            '5' => 5,
            '6' => 6,
            '7' => 7,
            '8' => 8,
            _ => 9,
        };
        assert(d as nat == digit_val(s@[i as int]));
        proof {
            let t = s@.take(i + 1);
            assert(t.drop_last() =~= s@.take(i as int));
            assert(t.last() == s@[i as int]);
            assert(digits_val(t) == acc * 10 + d);
        }
        let next = match acc.checked_mul(10) {
            Some(m) => m.checked_add(d),
            None => None,
        };
        match next {
            Some(v) => {
                acc = v;
            },
            None => {
                proof {
                    if is_u64_numeral(s@) {
                        lemma_digits_val_take_le(s@, i + 1);
                    }
                }
                return 0;
            },
        }
        i = i + 1;
    }
    proof {
        assert(s@.take(s_len as int) =~= s@);
    }
    acc
}

/// The character of a decimal digit value.
pub open spec fn digit_char(d: nat) -> char
    recommends
        d < 10,
{
    if d == 0 {
        '0'
    } else if d == 1 {
        '1'
    } else if d == 2 {
        '2'
    } else if d == 3 {
        '3'
    } else if d == 4 {
        '4'
    } else if d == 5 {
        '5'
    } else if d == 6 {
        '6'
    } else if d == 7 {
        '7'
    } else if d == 8 {
        '8'
    } else {
        '9'
    }
}

/// Decimal numeral of `n`, most significant digit first, without leading
/// zeros (`0` itself reads as "0").
pub open spec fn dec_str(n: nat) -> Seq<char>
    decreases n,
{
    if n < 10 {
        seq![digit_char(n)]
    } else {
        dec_str(n / 10).push(digit_char(n % 10))
    }
}

/// Decimal numeral of a signed value: a leading minus sign for a negative
/// one.
pub open spec fn int_str(n: int) -> Seq<char> {
    if n < 0 {
        seq!['-'] + dec_str((-n) as nat)
    } else {
        dec_str(n as nat)
    }
}

fn digit_to_str(d: u64) -> (r: &'static str)
    requires
        d < 10,
    ensures
        r@ =~= seq![digit_char(d as nat)],
{
    proof {
        reveal_strlit("0");
        reveal_strlit("1");
        reveal_strlit("2");
        reveal_strlit("3");
        reveal_strlit("4");
        reveal_strlit("5");
        reveal_strlit("6");
        reveal_strlit("7");
        reveal_strlit("8");
        reveal_strlit("9");
    }
    match d {
        0 => "0",
        1 => "1",
        2 => "2",
        3 => "3",
        4 => "4",
        5 => "5",
        6 => "6",
        7 => "7",
        8 => "8",
        _ => "9",
    }
}

/// Renders an unsigned counter as its decimal numeral.
pub fn u64_to_string(n: u64) -> (r: String)
    ensures
        r@ == dec_str(n as nat),
    decreases n,
{
    if n < 10 {
        String::from_str(digit_to_str(n))
    } else {
        let mut s = u64_to_string(n / 10);
        s.append(digit_to_str(n % 10));
        proof {
            assert(dec_str((n / 10) as nat) + seq![digit_char((n % 10) as nat)] =~= dec_str(
                (n / 10) as nat,
            ).push(digit_char((n % 10) as nat)));
        }
        s
    }
}

/// Magnitude of a signed value as an unsigned one.
fn magnitude(n: i64) -> (r: u64)
    ensures
        r as int == if n < 0 {
            -(n as int)
        } else {
            n as int
        },
{
    if n >= 0 {
        n as u64
    } else {
        let wide: i128 = -(n as i128);
        wide as u64
    }
}

/// Renders a signed value (a process id) as its decimal numeral.
pub fn i64_to_string(n: i64) -> (r: String)
    ensures
        r@ == int_str(n as int),
{
    let m = magnitude(n);
    if n >= 0 {
        u64_to_string(m)
    } else {
        proof {
            reveal_strlit("-");
        }
        let mut s = String::from_str("-");
        let digits = u64_to_string(m);
        s.append(digits.as_str());
        proof {
            assert(s@ =~= seq!['-'] + dec_str(m as nat));
        }
        s
    }
}

/// One-decimal fixed-point numeral of a value counted in tenths: the shape
/// screen coordinates are reported in.
pub open spec fn tenths_str(t: int) -> Seq<char> {
    let m = if t < 0 {
        -t
    } else {
        t
    };
    (if t < 0 {
        seq!['-']
    } else {
        Seq::<char>::empty()
    }) + dec_str((m / 10) as nat) + seq!['.'] + seq![digit_char((m % 10) as nat)]
}

/// Renders a coordinate counted in tenths with one decimal place.
pub fn tenths_to_string(t: i64) -> (r: String)
    ensures
        r@ == tenths_str(t as int),
{
    let m = magnitude(t);
    let mut s = if t < 0 {
        proof {
            reveal_strlit("-");
        }
        String::from_str("-")
    } else {
        String::new()
    };
    let whole = u64_to_string(m / 10);
    s.append(whole.as_str());
    proof {
        reveal_strlit(".");
    }
    s.append(".");
    s.append(digit_to_str(m % 10));
    proof {
        assert(s@ =~= tenths_str(t as int));
    }
    s
}

} // verus!

