//! Small verified helpers on strings and character sequences: equality,
//! character search, splitting on a separator, and decimal conversion in
//! both directions.

use vstd::prelude::*;

verus! {

/// True when the character `c` occurs in `s`.
pub open spec fn has_char(s: Seq<char>, c: char) -> bool {
    exists|i: int| 0 <= i < s.len() && s[i] == c
}

/// The pieces of `s` between occurrences of the separator `sep`, in order.
/// Splitting never yields an empty sequence of pieces: a string without the
/// separator is one piece, and each separator adds one more.
pub open spec fn split_seq(s: Seq<char>, sep: char) -> Seq<Seq<char>>
    decreases s.len(),
{
    if s.len() == 0 {
        seq![Seq::<char>::empty()]
    } else if s[0] == sep {
        seq![Seq::<char>::empty()] + split_seq(s.drop_first(), sep)
    } else {
        let rest = split_seq(s.drop_first(), sep);
        seq![seq![s[0]] + rest[0]] + rest.drop_first()
    }
}

pub proof fn lemma_split_nonempty(s: Seq<char>, sep: char)
    ensures
        split_seq(s, sep).len() >= 1,
    decreases s.len(),
{
    if s.len() == 0 {
    } else if s[0] == sep {
        lemma_split_nonempty(s.drop_first(), sep);
    } else {
        lemma_split_nonempty(s.drop_first(), sep);
    }
}

/// A string without the separator splits into itself alone.
pub proof fn lemma_split_no_sep(s: Seq<char>, sep: char)
    requires
        !has_char(s, sep),
    ensures
        split_seq(s, sep) == seq![s],
    decreases s.len(),
{
    if s.len() == 0 {
        assert(split_seq(s, sep) =~~= seq![s]);
    } else {
        assert(s[0] != sep);
        assert(forall|i: int| 0 <= i < s.drop_first().len() ==> s.drop_first()[i] == s[i + 1]);
        lemma_split_no_sep(s.drop_first(), sep);
        let rest = split_seq(s.drop_first(), sep);
        assert(rest =~~= seq![s.drop_first()]);
        assert(seq![s[0]] + s.drop_first() =~= s);
        assert(split_seq(s, sep) =~~= seq![s]);
    }
}

/// Splitting at the first separator: a separator-free prefix becomes the
/// first piece, and the rest splits on its own.
pub proof fn lemma_split_first(a: Seq<char>, b: Seq<char>, sep: char)
    requires
        !has_char(a, sep),
    ensures
        split_seq(a + seq![sep] + b, sep) == seq![a] + split_seq(b, sep),
    decreases a.len(),
{
    let s = a + seq![sep] + b;
    if a.len() == 0 {
        assert(s.len() > 0 && s[0] == sep);
        assert(s.drop_first() =~= b);
        assert(split_seq(s, sep) =~~= seq![a] + split_seq(b, sep));
    } else {
        assert(s[0] == a[0]);
        assert(a[0] != sep);
        assert(forall|i: int| 0 <= i < a.drop_first().len() ==> a.drop_first()[i] == a[i + 1]);
        assert(s.drop_first() =~= a.drop_first() + seq![sep] + b);
        lemma_split_first(a.drop_first(), b, sep);
        let rest = split_seq(s.drop_first(), sep);
        assert(rest == seq![a.drop_first()] + split_seq(b, sep));
        assert(rest[0] == a.drop_first());
        assert(seq![a[0]] + a.drop_first() =~= a);
        assert(rest.drop_first() =~~= split_seq(b, sep));
        assert(split_seq(s, sep) =~~= seq![a] + split_seq(b, sep));
    }
}

/// Character-for-character string equality, usable where `&str` values
/// must be compared in executable code.
pub fn str_eq(a: &str, b: &str) -> (r: bool)
    ensures
        r == (a@ == b@),
{
    let an = a.unicode_len();
    let bn = b.unicode_len();
    if an != bn {
        assert(a@ != b@);
        return false;
    }
    let mut i: usize = 0;
    while i < an
        invariant
            i <= an,
            forall|j: int| 0 <= j < i ==> a@[j] == b@[j],
        decreases an - i,
    {
        if a.get_char(i) != b.get_char(i) {
            assert(a@ != b@);
            return false;
        }
        i += 1;
    }
    assert(a@ =~= b@);
    true
}

/// True when `c` occurs in `s`; the executable side of `has_char`.
pub fn str_contains_char(s: &str, c: char) -> (r: bool)
    ensures
        r == has_char(s@, c),
{
    let n = s.unicode_len();
    let mut i: usize = 0;
    while i < n
        invariant
            i <= n,
            forall|j: int| 0 <= j < i ==> s@[j] != c,
        decreases n - i,
    {
        if s.get_char(i) == c {
            return true;
        }
        i += 1;
    }
    false
}

/// Splits `s` on single occurrences of `sep`, as `split_seq` describes.
pub fn split_str(s: &str, sep: char) -> (v: Vec<String>)
    ensures
        v.deep_view() == split_seq(s@, sep),
        v.len() >= 1,
{
    let n = s.unicode_len();
    let mut v: Vec<String> = Vec::new();
    proof {
        assert(s@.subrange(0, n as int) =~= s@);
        assert(v.deep_view() =~~= Seq::<Seq<char>>::empty());
        assert(v.deep_view() + split_seq(s@, sep) =~~= split_seq(s@, sep));
    }
    let mut start: usize = 0;
    let mut i: usize = 0;
    while i < n
        invariant
            start <= i <= n,
            n == s@.len(),
            !has_char(s@.subrange(start as int, i as int), sep),
            split_seq(s@, sep) == v.deep_view() + split_seq(
                s@.subrange(start as int, n as int),
                sep,
            ),
        decreases n - i,
    {
        if s.get_char(i) == sep {
            let piece = String::from_str(s.substring_char(start, i));
            let ghost old_dv = v.deep_view();
            proof {
                let a = s@.subrange(start as int, i as int);
                let b = s@.subrange(i + 1, n as int);
                assert(a + seq![sep] + b =~= s@.subrange(start as int, n as int));
                lemma_split_first(a, b, sep);
            }
            v.push(piece);
            proof {
                let a = s@.subrange(start as int, i as int);
                assert(v.deep_view() =~~= old_dv + seq![a]);
            }
            start = i + 1;
        } else {
            proof {
                let ext = s@.subrange(start as int, i + 1);
                assert(forall|j: int|
                    0 <= j < ext.len() ==> ext[j] == s@.subrange(start as int, i as int).push(
                        s@[i as int],
                    )[j]);
                assert(ext =~= s@.subrange(start as int, i as int).push(s@[i as int]));
            }
        }
        i += 1;
    }
    let piece = String::from_str(s.substring_char(start, n));
    let ghost old_dv = v.deep_view();
    proof {
        let a = s@.subrange(start as int, n as int);
        lemma_split_no_sep(a, sep);
    }
    v.push(piece);
    proof {
        let a = s@.subrange(start as int, n as int);
        assert(v.deep_view() =~~= old_dv + seq![a]);
        assert(v.deep_view() =~~= split_seq(s@, sep));
        lemma_split_nonempty(s@, sep);
    }
    v
}

/// True when the string `s` occurs in the list `l`.
pub open spec fn in_str_list(l: Seq<Seq<char>>, s: Seq<char>) -> bool {
    exists|i: int| 0 <= i < l.len() && l[i] == s
}

/// Membership test for a list of strings; the executable side of `in_str_list`.
pub fn list_contains(l: &Vec<String>, s: &str) -> (r: bool)
    ensures
        r == in_str_list(l.deep_view(), s@),
{
    let n = l.len();
    let mut i: usize = 0;
    while i < n
        invariant
            i <= n,
            n == l.len(),
            forall|j: int| 0 <= j < i ==> l.deep_view()[j] != s@,
        decreases n - i,
    {
        if str_eq(l[i].as_str(), s) {
            assert(l.deep_view()[i as int] == s@);
            return true;
        }
        i += 1;
    }
    false
}

/// The position, at or after `lo`, of the first occurrence of `s` in `l`.
pub open spec fn first_index_of(l: Seq<Seq<char>>, s: Seq<char>, lo: int) -> Option<int>
    decreases l.len() - lo,
{
    if lo < 0 || lo >= l.len() {
        None
    } else if l[lo] == s {
        Some(lo)
    } else {
        first_index_of(l, s, lo + 1)
    }
}

pub proof fn lemma_first_index_of(l: Seq<Seq<char>>, s: Seq<char>, lo: int, i: int)
    requires
        0 <= lo <= i <= l.len(),
        forall|k: int| lo <= k < i ==> l[k] != s,
        i == l.len() || l[i] == s,
    ensures
        first_index_of(l, s, lo) == (if i < l.len() {
            Some(i)
        } else {
            None::<int>
        }),
    decreases i - lo,
{
    if lo < i {
        lemma_first_index_of(l, s, lo + 1, i);
    }
}

/// The ten decimal digit characters, by value.
pub open spec fn digit_char(d: nat) -> char {
    if d == 0 {
        '0'
    } else if d == 1 {
        '1'
    } else if d == 2 {
        '2'
    } else if d == 3 {
        '3'
    } else if d == 4 {
        '4'
    } else if d == 5 {
        '5'
    } else if d == 6 {
        '6'
    } else if d == 7 {
        '7'
    } else if d == 8 {
        '8'
    } else {
        '9'
    }
}

/// The decimal rendering of `n`, without sign or leading zeros
/// (`0` renders as the single character `'0'`).
pub open spec fn dec_str(n: nat) -> Seq<char>
    decreases n,
{
    if n < 10 {
        seq![digit_char(n)]
    } else {
        dec_str(n / 10) + seq![digit_char(n % 10)]
    }
}

fn digit_str(d: u64) -> (r: &'static str)
    requires
        d < 10,
    ensures
        r@ == seq![digit_char(d as nat)],
{
    proof {
        reveal_strlit("0");
        reveal_strlit("1");
        reveal_strlit("2");
        reveal_strlit("3");
        reveal_strlit("4");
        reveal_strlit("5");
        reveal_strlit("6");
        reveal_strlit("7");
        reveal_strlit("8");
        reveal_strlit("9");
    }
    let r: &'static str = if d == 0 {
        "0"
    } else if d == 1 {
        "1"
    } else if d == 2 {
        "2"
    } else if d == 3 {
        "3"
    } else if d == 4 {
        "4"
    } else if d == 5 {
        "5"
    } else if d == 6 {
        "6"
    } else if d == 7 {
        "7"
    } else if d == 8 {
        "8"
    } else {
        "9"
    };
    proof {
        assert(r@ =~= seq![digit_char(d as nat)]);
    }
    r
}

/// Renders `n` in decimal.
pub fn u64_to_string(n: u64) -> (r: String)
    ensures
        r@ == dec_str(n as nat),
    decreases n,
{
    if n < 10 {
        String::from_str(digit_str(n))
    } else {
        let mut s = u64_to_string(n / 10);
        s.append(digit_str(n % 10));
        proof {
            assert(s@ =~= dec_str(n as nat));
        }
        s
    }
}

/// True for the decimal digit characters.
pub open spec fn is_digit(c: char) -> bool {
    c == '0' || c == '1' || c == '2' || c == '3' || c == '4' || c == '5' || c == '6' || c == '7'
        || c == '8' || c == '9'
}

/// The value of a decimal digit character.
pub open spec fn digit_val(c: char) -> nat {
    if c == '0' {
        0
    } else if c == '1' {
        1
    } else if c == '2' {
        2
    } else if c == '3' {
        3
    } else if c == '4' {
        4
    } else if c == '5' {
        5
    } else if c == '6' {
        6
    } else if c == '7' {
        7
    } else if c == '8' {
        8
    } else {
        9
    }
}

pub open spec fn all_digits(s: Seq<char>) -> bool {
    forall|i: int| 0 <= i < s.len() ==> is_digit(s[i])
}

/// The number a digit string denotes, most significant digit first.
pub open spec fn dec_val(s: Seq<char>) -> nat
    decreases s.len(),
{
    if s.len() == 0 {
        0
    } else {
        dec_val(s.drop_last()) * 10 + digit_val(s.last())
    }
}

/// A string that `parse_u32` accepts: nonempty, digits only, in range.
pub open spec fn is_u32_dec(s: Seq<char>) -> bool {
    s.len() > 0 && all_digits(s) && dec_val(s) <= u32::MAX
}

/// A longer digit prefix never denotes a smaller number.
proof fn lemma_dec_val_prefix_le(s: Seq<char>, i: int, j: int)
    requires
        0 <= i <= j <= s.len(),
    ensures
        dec_val(s.subrange(0, i)) <= dec_val(s.subrange(0, j)),
    decreases j - i,
{
    if i < j {
        lemma_dec_val_prefix_le(s, i, j - 1);
        let p = s.subrange(0, j);
        assert(p.drop_last() =~= s.subrange(0, j - 1));
        assert(dec_val(s.subrange(0, j - 1)) <= dec_val(s.subrange(0, j - 1)) * 10 + digit_val(
            p.last(),
        ));
    }
}

fn digit_of(c: char) -> (r: Option<u32>)
    ensures
        match r {
            Some(d) => is_digit(c) && d == digit_val(c) && d < 10,
            None => !is_digit(c),
        },
{
    if c == '0' {
        Some(0)
    } else if c == '1' {
        Some(1)
    } else if c == '2' {
        Some(2)
    } else if c == '3' {
        Some(3)
    } else if c == '4' {
        Some(4)
    } else if c == '5' {
        Some(5)
    } else if c == '6' {
        Some(6)
    } else if c == '7' {
        Some(7)
    } else if c == '8' {
        Some(8)
    } else if c == '9' {
        Some(9)
    } else {
        None
    }
}

/// Parses a nonempty all-digit string as a `u32`; rejects anything else,
/// including values over `u32::MAX`.
pub fn parse_u32(s: &str) -> (r: Option<u32>)
    ensures
        match r {
            Some(v) => is_u32_dec(s@) && v == dec_val(s@),
            None => !is_u32_dec(s@),
        },
{
    let n = s.unicode_len();
    if n == 0 {
        return None;
    }
    let mut val: u32 = 0;
    let mut i: usize = 0;
    while i < n
        invariant
            i <= n,
            n == s@.len(),
            all_digits(s@.subrange(0, i as int)),
            val == dec_val(s@.subrange(0, i as int)),
        decreases n - i,
    {
        let c = s.get_char(i);
        let d = match digit_of(c) {
            Some(d) => d,
            None => {
                assert(!all_digits(s@));
                return None;
            },
        };
        proof {
            assert(s@.subrange(0, i + 1).drop_last() =~= s@.subrange(0, i as int));
            assert(s@.subrange(0, i + 1).last() == s@[i as int]);
        }
        if val > (u32::MAX - d) / 10 {
            proof {
                assert(dec_val(s@.subrange(0, i + 1)) > u32::MAX);
                lemma_dec_val_prefix_le(s@, i + 1, n as int);
                assert(s@.subrange(0, n as int) =~= s@);
            }
            return None;
        }
        val = val * 10 + d;
        proof {
            assert(forall|j: int|
                0 <= j < i + 1 ==> is_digit(#[trigger] s@.subrange(0, i + 1)[j]));
        }
        i += 1;
    }
    proof {
        assert(s@.subrange(0, n as int) =~= s@);
    }
    Some(val)
}

} // verus!
