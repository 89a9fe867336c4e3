//! Character-level text utilities: searching and splitting, and decimal
//! rendering of integers. Everything here works over `Seq<char>` views, so
//! the URL builders and the query parser can state their results exactly.

use vstd::prelude::*;

verus! {

/// Index of the first occurrence of `c` in `s`, or `s.len()` if `c` does not
/// occur.
pub open spec fn find_at(s: Seq<char>, c: char) -> int
    decreases s.len(),
{
    if s.len() == 0 {
        0
    } else if s[0] == c {
        0
    } else {
        1 + find_at(s.drop_first(), c)
    }
}

/// `find_at` returns a position within `0 ..= s.len()`; every character
/// before it differs from `c`, and the character at it (if any) is `c`.
pub proof fn lemma_find_at(s: Seq<char>, c: char)
    ensures
        0 <= find_at(s, c) <= s.len(),
        find_at(s, c) < s.len() ==> s[find_at(s, c)] == c,
        forall|j: int| 0 <= j < find_at(s, c) ==> s[j] != c,
    decreases s.len(),
{
    if s.len() != 0 && s[0] != c {
        lemma_find_at(s.drop_first(), c);
        assert forall|j: int| 0 <= j < find_at(s, c) implies s[j] != c by {
            if j > 0 {
                assert(s.drop_first()[j - 1] != c);
            }
        }
    }
}

/// The pieces of `s` between occurrences of `sep`, in order. A string
/// without the separator yields itself as the single piece; `k` separators
/// yield `k + 1` pieces.
pub open spec fn split_on(s: Seq<char>, sep: char) -> Seq<Seq<char>>
    decreases s.len(),
{
    let i = find_at(s, sep);
    if 0 <= i < s.len() {
        seq![s.take(i)] + split_on(s.skip(i + 1), sep)
    } else {
        seq![s]
    }
}

/// Splitting yields at least one piece.
pub proof fn lemma_split_on_nonempty(s: Seq<char>, sep: char)
    ensures
        split_on(s, sep).len() >= 1,
    decreases s.len(),
{
}

/// Index of the first occurrence of `c` in `s`, or the character length of
/// `s` if `c` does not occur.
pub fn find_char(s: &str, c: char) -> (i: usize)
    ensures
        i as int == find_at(s@, c),
{
    let n = s.unicode_len();
    let mut j: usize = 0;
    while j < n
        invariant
            0 <= j <= n,
            n as nat == s@.len(),
            forall|k: int| 0 <= k < j ==> s@[k] != c,
        decreases n - j,
    {
        if s.get_char(j) == c {
            proof {
                lemma_find_at(s@, c);
            }
            return j;
        }
        j = j + 1;
    }
    proof {
        lemma_find_at(s@, c);
    }
    n
}

/// The pieces of `s` between occurrences of `sep`, in order, as owned
/// strings.
pub fn split_string(s: &str, sep: char) -> (parts: Vec<String>)
    ensures
        parts.deep_view() == split_on(s@, sep),
        parts.len() >= 1,
    decreases s@.len(),
{
    let n = s.unicode_len();
    let i = find_char(s, sep);
    proof {
        lemma_find_at(s@, sep);
    }
    if i == n {
        let mut parts: Vec<String> = Vec::new();
        parts.push(s.to_owned());
        proof {
            assert(parts.deep_view() =~= split_on(s@, sep));
        }
        parts
    } else {
        let head = s.substring_char(0, i).to_owned();
        let tail = s.substring_char(i + 1, n);
        let mut parts = split_string(tail, sep);
        parts.insert(0, head);
        proof {
            assert(s@.take(i as int) == s@.subrange(0, i as int));
            assert(s@.skip(i + 1) == s@.subrange(i + 1, n as int));
            assert(parts.deep_view() =~= split_on(s@, sep));
        }
        parts
    }
}

/// `pat` is a prefix of `s`.
pub open spec fn is_prefix(pat: Seq<char>, s: Seq<char>) -> bool {
    pat.len() <= s.len() && s.take(pat.len() as int) == pat
}

/// Index of the first position of `s` at which `pat` occurs, or `s.len()`
/// if it occurs nowhere.
pub open spec fn find_sub_at(s: Seq<char>, pat: Seq<char>) -> int
    decreases s.len(),
{
    if is_prefix(pat, s) {
        0
    } else if s.len() == 0 {
        0
    } else {
        1 + find_sub_at(s.drop_first(), pat)
    }
}

/// `find_sub_at` returns a position within `0 ..= s.len()`; `pat` occurs
/// there (if the position is inside `s`) and nowhere earlier.
pub proof fn lemma_find_sub_at(s: Seq<char>, pat: Seq<char>)
    requires
        pat.len() > 0,
    ensures
        0 <= find_sub_at(s, pat) <= s.len(),
        find_sub_at(s, pat) < s.len() ==> is_prefix(pat, s.skip(find_sub_at(s, pat))),
        forall|j: int| 0 <= j < find_sub_at(s, pat) ==> !is_prefix(pat, #[trigger] s.skip(j)),
    decreases s.len(),
{
    if is_prefix(pat, s) {
        assert(s.skip(0) =~= s);
    } else if s.len() != 0 {
        lemma_find_sub_at(s.drop_first(), pat);
        assert forall|j: int| 0 <= j < find_sub_at(s, pat) implies !is_prefix(
            pat,
            #[trigger] s.skip(j),
        ) by {
            if j == 0 {
                assert(s.skip(0) =~= s);
            } else {
                assert(!is_prefix(pat, s.drop_first().skip(j - 1)));
                assert(s.drop_first().skip(j - 1) =~= s.skip(j));
            }
        }
        if find_sub_at(s, pat) < s.len() {
            assert(s.drop_first().skip(find_sub_at(s.drop_first(), pat)) =~= s.skip(
                find_sub_at(s, pat),
            ));
        }
    }
}

/// `pat` occurs in `s` starting at position `i`.
pub fn occurs_at(s: &str, i: usize, pat: &str) -> (r: bool)
    requires
        i <= s@.len(),
    ensures
        r == is_prefix(pat@, s@.skip(i as int)),
{
    let n = s.unicode_len();
    let m = pat.unicode_len();
    if m > n - i {
        return false;
    }
    let mut j: usize = 0;
    while j < m
        invariant
            0 <= j <= m,
            i + m <= n,
            n as nat == s@.len(),
            m as nat == pat@.len(),
            forall|k: int| 0 <= k < j ==> s@[i + k] == pat@[k],
        decreases m - j,
    {
        if s.get_char(i + j) != pat.get_char(j) {
            assert(s@.skip(i as int).take(m as int)[j as int] != pat@[j as int]);
            return false;
        }
        j = j + 1;
    }
    proof {
        assert(s@.skip(i as int).take(m as int) =~= pat@);
    }
    true
}

/// `pat` is a prefix of `s`.
pub fn starts_with(s: &str, pat: &str) -> (r: bool)
    ensures
        r == is_prefix(pat@, s@),
{
    let r = occurs_at(s, 0, pat);
    proof {
        assert(s@.skip(0) =~= s@);
    }
    r
}

/// Index of the first occurrence of `pat` in `s`, or the character length of
/// `s` if `pat` occurs nowhere.
pub fn find_sub(s: &str, pat: &str) -> (i: usize)
    requires
        pat@.len() > 0,
    ensures
        i as int == find_sub_at(s@, pat@),
{
    let n = s.unicode_len();
    let mut j: usize = 0;
    while j < n
        invariant
            0 <= j <= n,
            n as nat == s@.len(),
            pat@.len() > 0,
            forall|k: int| 0 <= k < j ==> !is_prefix(pat@, #[trigger] s@.skip(k)),
        decreases n - j,
    {
        if occurs_at(s, j, pat) {
            proof {
                lemma_find_sub_at(s@, pat@);
            }
            return j;
        }
        j = j + 1;
    }
    proof {
        lemma_find_sub_at(s@, pat@);
    }
    n
}

/// The two strings hold the same characters.
pub fn str_eq(a: &str, b: &str) -> (r: bool)
    ensures
        r == (a@ == b@),
{
    let n = a.unicode_len();
    if n != b.unicode_len() {
        return false;
    }
    let mut j: usize = 0;
    while j < n
        invariant
            0 <= j <= n,
            n as nat == a@.len(),
            n as nat == b@.len(),
            forall|k: int| 0 <= k < j ==> a@[k] == b@[k],
        decreases n - j,
    {
        if a.get_char(j) != b.get_char(j) {
            return false;
        }
        j = j + 1;
    }
    proof {
        assert(a@ =~= b@);
    }
    true
}

/// The decimal digit character for `d` (meaningful for `d < 10`).
pub open spec fn dec_digit_char(d: nat) -> char {
    if d == 0 {
        '0'
    } else if d == 1 {
        '1'
    } else if d == 2 {
        '2'
    } else if d == 3 {
        '3'
    } else if d == 4 {
        '4'
    } else if d == 5 {
        '5'
    } else if d == 6 {
        '6'
    } else if d == 7 {
        '7'
    } else if d == 8 {
        '8'
    } else {
        '9'
    }
}

/// The decimal rendering of `n`, without sign or leading zeroes (except for
/// `n == 0`, which renders as `0`).
pub open spec fn dec_str(n: nat) -> Seq<char>
    decreases n,
{
    if n < 10 {
        seq![dec_digit_char(n)]
    } else {
        dec_str(n / 10).push(dec_digit_char(n % 10))
    }
}

/// The decimal rendering of `n`, with a leading `-` when `n` is negative.
pub open spec fn int_str(n: int) -> Seq<char> {
    if n < 0 {
        seq!['-'] + dec_str((-n) as nat)
    } else {
        dec_str(n as nat)
    }
}

/// The one-character string for decimal digit `d`.
fn digit_str(d: u32) -> (s: &'static str)
    requires
        d < 10,
    ensures
        s@ == seq![dec_digit_char(d as nat)],
{
    let s: &'static str = match d {
        0 => "0",
        1 => "1",
        2 => "2",
        3 => "3",
        4 => "4",
        5 => "5",
        6 => "6",
        7 => "7",
        8 => "8",
        _ => "9",
    };
    proof {
        reveal_strlit("0");
        reveal_strlit("1");
        reveal_strlit("2");
        reveal_strlit("3");
        reveal_strlit("4");
        reveal_strlit("5");
        reveal_strlit("6");
        reveal_strlit("7");
        reveal_strlit("8");
        reveal_strlit("9");
        assert(s@ =~= seq![dec_digit_char(d as nat)]);
    }
    s
}

/// Renders `n` in decimal.
pub fn u32_to_string(n: u32) -> (s: String)
    ensures
        s@ == dec_str(n as nat),
    decreases n,
{
    if n < 10 {
        digit_str(n).to_owned()
    } else {
        let mut s = u32_to_string(n / 10);
        s.append(digit_str(n % 10));
        proof {
            assert(s@ =~= dec_str(n as nat));
        }
        s
    }
}

/// Renders `n` in decimal, with a leading `-` when negative.
pub fn i32_to_string(n: i32) -> (s: String)
    ensures
        s@ == int_str(n as int),
{
    if n >= 0 {
        u32_to_string(n as u32)
    } else {
        let magnitude: u32 = (-(n as i64)) as u32;
        assert(magnitude as nat == (-(n as int)) as nat);
        let mut s = "-".to_owned();
        s.append(u32_to_string(magnitude).as_str());
        proof {
            reveal_strlit("-");
            assert(s@ =~= int_str(n as int));
        }
        s
    }
}

/// Relies on `String`'s `FromIterator` over `char`: collecting characters
/// builds the string of exactly those characters.
#[verifier::external_body]
fn chars_to_string(chars: &Vec<char>) -> (s: String)
    ensures
        s@ == chars@,
{
    chars.iter().collect()
}

/// `c` is a hexadecimal digit.
pub open spec fn is_hex_digit(c: char) -> bool {
    (48 <= c as u32 <= 57) || (97 <= c as u32 <= 102) || (65 <= c as u32 <= 70)
}

/// The value of hexadecimal digit `c` (meaningful when `is_hex_digit(c)`).
pub open spec fn hex_val(c: char) -> int {
    if 48 <= c as u32 <= 57 {
        c as u32 - 48
    } else if 97 <= c as u32 <= 102 {
        c as u32 - 87
    } else {
        c as u32 - 55
    }
}

/// Percent-decoding of a form-encoded query component: `%hh` becomes the
/// byte `hh`, `+` becomes a space, anything else stands for itself. Nothing
/// is produced for text with a truncated or non-hexadecimal escape, or with
/// an escape outside the ASCII range (the query strings this gateway routes
/// are ASCII).
pub open spec fn pct_decode(s: Seq<char>) -> Option<Seq<char>>
    decreases s.len(),
{
    if s.len() == 0 {
        Option::Some(Seq::empty())
    } else if s[0] == '%' {
        if s.len() >= 3 && is_hex_digit(s[1]) && is_hex_digit(s[2]) && 16 * hex_val(s[1])
            + hex_val(s[2]) < 128 {
            match pct_decode(s.skip(3)) {
                Option::Some(rest) => Option::Some(
                    seq![((16 * hex_val(s[1]) + hex_val(s[2])) as u8) as char] + rest,
                ),
                Option::None => Option::None,
            }
        } else {
            Option::None
        }
    } else if s[0] == '+' {
        match pct_decode(s.drop_first()) {
            Option::Some(rest) => Option::Some(seq![' '] + rest),
            Option::None => Option::None,
        }
    } else {
        match pct_decode(s.drop_first()) {
            Option::Some(rest) => Option::Some(seq![s[0]] + rest),
            Option::None => Option::None,
        }
    }
}

/// The value of hexadecimal digit `c`, or nothing for any other character.
fn hex_digit_val(c: char) -> (r: Option<u8>)
    ensures
        r is Some <==> is_hex_digit(c),
        r is Some ==> r->Some_0 == hex_val(c),
{
    let v = c as u32;
    if 48 <= v && v <= 57 {
        Option::Some((v - 48) as u8)
    } else if 97 <= v && v <= 102 {
        Option::Some((v - 87) as u8)
    } else if 65 <= v && v <= 70 {
        Option::Some((v - 55) as u8)
    } else {
        Option::None
    }
}

/// Percent-decodes a form-encoded query component, as `pct_decode`
/// describes.
pub fn percent_decode(s: &str) -> (r: Option<String>)
    ensures
        r is Some <==> pct_decode(s@) is Some,
        r matches Option::Some(d) ==> Option::Some(d@) == pct_decode(s@),
{
    let n = s.unicode_len();
    let mut out: Vec<char> = Vec::new();
    let mut i: usize = 0;
    proof {
        assert(s@.skip(0) =~= s@);
    }
    while i < n
        invariant
            0 <= i <= n,
            n as nat == s@.len(),
            match pct_decode(s@.skip(i as int)) {
                Option::Some(rest) => pct_decode(s@) is Some && pct_decode(s@)->Some_0 == out@
                    + rest,
                Option::None => pct_decode(s@) is None,
            },
        decreases n - i,
    {
        let ghost prev = s@.skip(i as int);
        let ghost prev_out = out@;
        let c = s.get_char(i);
        assert(prev[0] == c);
        if c == '%' {
            if n - i < 3 {
                return Option::None;
            }
            let h1 = hex_digit_val(s.get_char(i + 1));
            let h2 = hex_digit_val(s.get_char(i + 2));
            proof {
                assert(prev[1] == s@[i + 1] && prev[2] == s@[i + 2]);
            }
            let (d1, d2) = match (h1, h2) {
                (Option::Some(d1), Option::Some(d2)) => (d1, d2),
                _ => {
                    return Option::None;
                },
            };
            let byte: u16 = 16 * (d1 as u16) + (d2 as u16);
            if byte >= 128 {
                return Option::None;
            }
            out.push((byte as u8) as char);
            i = i + 3;
            proof {
                assert(prev.skip(3) =~= s@.skip(i as int));
                if pct_decode(s@.skip(i as int)) is Some {
                    assert(prev_out + (seq![((16 * hex_val(prev[1]) + hex_val(prev[2])) as u8)
                        as char] + pct_decode(s@.skip(i as int))->Some_0) =~= out@ + pct_decode(
                        s@.skip(i as int),
                    )->Some_0);
                }
            }
        } else {
            let decoded = if c == '+' {
                ' '
            } else {
                c
            };
            out.push(decoded);
            i = i + 1;
            proof {
                assert(prev.drop_first() =~= s@.skip(i as int));
                if pct_decode(s@.skip(i as int)) is Some {
                    assert(prev_out + (seq![decoded] + pct_decode(s@.skip(i as int))->Some_0)
                        =~= out@ + pct_decode(s@.skip(i as int))->Some_0);
                }
            }
        }
    }
    proof {
        assert(s@.skip(n as int) =~= Seq::<char>::empty());
        assert(pct_decode(s@)->Some_0 =~= out@);
    }
    Option::Some(chars_to_string(&out))
}

/// `c` is a decimal digit.
pub open spec fn is_dec_digit(c: char) -> bool {
    48 <= c as u32 <= 57
}

/// A non-empty, all-digit string.
pub open spec fn is_dec_string(s: Seq<char>) -> bool {
    s.len() >= 1 && forall|i: int| 0 <= i < s.len() ==> is_dec_digit(#[trigger] s[i])
}

/// The number that the digit string `s` denotes.
pub open spec fn dec_val(s: Seq<char>) -> int
    decreases s.len(),
{
    if s.len() == 0 {
        0
    } else {
        dec_val(s.drop_last()) * 10 + (s.last() as u32 - 48)
    }
}

/// A longer digit string never denotes a smaller number: extending by one
/// digit multiplies by ten and adds the digit.
proof fn lemma_dec_val_take_grows(s: Seq<char>, i: int, j: int)
    requires
        0 <= i <= j <= s.len(),
        forall|k: int| 0 <= k < s.len() ==> is_dec_digit(#[trigger] s[k]),
    ensures
        dec_val(s.take(j)) >= dec_val(s.take(i)),
        dec_val(s.take(i)) >= 0,
    decreases j - i,
{
    if i == j {
        lemma_dec_val_nonneg(s.take(i));
    } else {
        lemma_dec_val_take_grows(s, i, j - 1);
        assert(s.take(j).drop_last() =~= s.take(j - 1));
        lemma_dec_val_nonneg(s.take(j));
    }
}

/// Digit strings denote non-negative numbers.
proof fn lemma_dec_val_nonneg(s: Seq<char>)
    ensures
        (forall|k: int| 0 <= k < s.len() ==> is_dec_digit(#[trigger] s[k])) ==> dec_val(s) >= 0,
    decreases s.len(),
{
    if s.len() > 0 {
        lemma_dec_val_nonneg(s.drop_last());
    }
}

/// Reads an unsigned decimal number: the digits' value when `s` is all
/// digits, is not empty and fits in a `u32`; nothing otherwise.
pub fn parse_u32(s: &str) -> (r: Option<u32>)
    ensures
        r is Some <==> (is_dec_string(s@) && dec_val(s@) <= u32::MAX),
        r matches Option::Some(v) ==> v == dec_val(s@),
{
    let n = s.unicode_len();
    if n == 0 {
        return Option::None;
    }
    let mut acc: u32 = 0;
    let mut i: usize = 0;
    while i < n
        invariant
            0 < n,
            n as nat == s@.len(),
            0 <= i <= n,
            forall|k: int| 0 <= k < i ==> is_dec_digit(#[trigger] s@[k]),
            acc == dec_val(s@.take(i as int)),
        decreases n - i,
    {
        let c = s.get_char(i);
        let v = c as u32;
        if v < 48 || v > 57 {
            return Option::None;
        }
        let d = v - 48;
        if acc > (u32::MAX - d) / 10 {
            proof {
                if is_dec_string(s@) {
                    assert(s@.take(i as int + 1).drop_last() =~= s@.take(i as int));
                    assert(dec_val(s@.take(i as int + 1)) > u32::MAX);
                    lemma_dec_val_take_grows(s@, i as int + 1, s@.len() as int);
                    assert(s@.take(s@.len() as int) =~= s@);
                }
            }
            return Option::None;
        }
        acc = acc * 10 + d;
        i = i + 1;
        proof {
            assert(s@.take(i as int).drop_last() =~= s@.take(i as int - 1));
        }
    }
    proof {
        assert(s@.take(n as int) =~= s@);
    }
    Option::Some(acc)
}

/// The number that an optionally `-`-signed digit string denotes.
pub open spec fn int_val(s: Seq<char>) -> int {
    if s.len() > 0 && s[0] == '-' {
        -dec_val(s.drop_first())
    } else {
        dec_val(s)
    }
}

/// A non-empty digit string, optionally after a leading `-`.
pub open spec fn is_int_string(s: Seq<char>) -> bool {
    if s.len() > 0 && s[0] == '-' {
        is_dec_string(s.drop_first())
    } else {
        is_dec_string(s)
    }
}

/// Reads a signed decimal number: the denoted value when `s` is a digit
/// string with an optional leading `-` and the value fits in an `i32`;
/// nothing otherwise.
pub fn parse_i32(s: &str) -> (r: Option<i32>)
    ensures
        r is Some <==> (is_int_string(s@) && i32::MIN <= int_val(s@) <= i32::MAX),
        r matches Option::Some(v) ==> v == int_val(s@),
{
    let n = s.unicode_len();
    if n >= 1 && s.get_char(0) == '-' {
        let digits = s.substring_char(1, n);
        assert(digits@ =~= s@.drop_first());
        match parse_u32(digits) {
            Option::Some(v) => {
                if v <= 0x8000_0000 {
                    Option::Some((-(v as i64)) as i32)
                } else {
                    Option::None
                }
            },
            Option::None => {
                proof {
                    if is_dec_string(digits@) {
                        lemma_dec_val_nonneg(digits@);
                    }
                }
                Option::None
            },
        }
    } else {
        match parse_u32(s) {
            Option::Some(v) => {
                if v <= 0x7FFF_FFFF {
                    Option::Some(v as i32)
                } else {
                    Option::None
                }
            },
            Option::None => {
                proof {
                    if is_dec_string(s@) {
                        lemma_dec_val_nonneg(s@);
                    }
                }
                Option::None
            },
        }
    }
}

} // verus!
