//! Character and string helpers shared by the lexer, parser and encoder:
//! splitting on separator characters, string equality, decimal number
//! parsing and printing, and ASCII lowercasing.

use vstd::prelude::*;
use vstd::string::StrSliceExecFns;
use vstd::string::StringExecFns;

verus! {

/// Characters treated as blanks between tokens in assembly text.
pub open spec fn is_space_char(c: char) -> bool {
    c == ' ' || c == '\t' || c == '\r'
}

pub fn is_space(c: char) -> (r: bool)
    ensures
        r == is_space_char(c),
{
    c == ' ' || c == '\t' || c == '\r'
}

/// The character sequences of a sequence of strings.
pub open spec fn strs_view(v: Seq<String>) -> Seq<Seq<char>> {
    v.map_values(|s: String| s@)
}

/// Equality of two string slices, decided character by character.
pub fn eq_str(a: &str, b: &str) -> (r: bool)
    ensures
        r == (a@ == b@),
{
    let alen = a.unicode_len();
    let blen = b.unicode_len();
    if alen != blen {
        return false;
    }
    let mut i: usize = 0;
    while i < alen
        invariant
            0 <= i <= alen,
            alen == a@.len(),
            alen == b@.len(),
            forall|j: int| 0 <= j < i ==> a@[j] == b@[j],
        decreases alen - i,
    {
        if a.get_char(i) != b.get_char(i) {
            return false;
        }
        i += 1;
    }
    proof {
        assert(a@ =~= b@);
    }
    true
}

/// The pieces of `s` between occurrences of the separator `sep`; splitting
/// the empty sequence gives one empty piece, and every separator ends a
/// piece, so there is always one piece more than there are separators.
pub open spec fn split_char(s: Seq<char>, sep: char) -> Seq<Seq<char>>
    decreases s.len(),
{
    if s.len() == 0 {
        seq![Seq::<char>::empty()]
    } else {
        let r = split_char(s.subrange(1, s.len() as int), sep);
        if s[0] == sep {
            seq![Seq::<char>::empty()] + r
        } else {
            seq![seq![s[0]] + r[0]] + r.subrange(1, r.len() as int)
        }
    }
}

pub proof fn lemma_split_char_len(s: Seq<char>, sep: char)
    ensures
        1 <= split_char(s, sep).len() <= s.len() + 1,
    decreases s.len(),
{
    if s.len() > 0 {
        lemma_split_char_len(s.subrange(1, s.len() as int), sep);
    }
}

pub fn split_char_exec(s: &str, sep: char) -> (r: Vec<String>)
    ensures
        strs_view(r@) == split_char(s@, sep),
    decreases s@.len(),
{
    let len = s.unicode_len();
    if len == 0 {
        let mut v: Vec<String> = Vec::new();
        v.push(String::new());
        proof {
            assert(strs_view(v@) =~= split_char(s@, sep));
        }
        v
    } else {
        let c0 = s.get_char(0);
        let rest = s.substring_char(1, len);
        let mut r = split_char_exec(rest, sep);
        proof {
            lemma_split_char_len(rest@, sep);
            assert(strs_view(r@).len() == r@.len());
        }
        if c0 == sep {
            r.insert(0, String::new());
            proof {
                assert(strs_view(r@) =~= split_char(s@, sep));
            }
            r
        } else {
            let head = r.remove(0);
            let mut first = s.substring_char(0, 1).to_owned();
            first.append(head.as_str());
            r.insert(0, first);
            proof {
                assert(s@.subrange(0, 1) =~= seq![s@[0]]);
                assert(strs_view(r@) =~= split_char(s@, sep));
            }
            r
        }
    }
}

/// The summed length of a sequence of character sequences.
pub open spec fn seqs_total_len(ls: Seq<Seq<char>>) -> int
    decreases ls.len(),
{
    if ls.len() == 0 {
        0
    } else {
        ls[0].len() + seqs_total_len(ls.subrange(1, ls.len() as int))
    }
}

/// Splitting distributes the characters: the pieces and the separators
/// between them account for every character exactly once.
pub proof fn lemma_split_char_total(s: Seq<char>, sep: char)
    ensures
        seqs_total_len(split_char(s, sep)) + split_char(s, sep).len() == s.len() + 1,
    decreases s.len(),
{
    if s.len() == 0 {
        let w = split_char(s, sep);
        assert(w == seq![Seq::<char>::empty()]);
        assert(w.subrange(1, 1) =~= Seq::<Seq<char>>::empty());
        assert(seqs_total_len(w.subrange(1, 1)) == 0);
        assert(seqs_total_len(w) == w[0].len() + seqs_total_len(w.subrange(1, 1)));
    } else {
        let sub = s.subrange(1, s.len() as int);
        lemma_split_char_total(sub, sep);
        let r = split_char(sub, sep);
        lemma_split_char_len(sub, sep);
        if s[0] == sep {
            let w = split_char(s, sep);
            assert(w == seq![Seq::<char>::empty()] + r);
            assert(w.subrange(1, w.len() as int) =~= r);
            assert(seqs_total_len(w) == w[0].len() + seqs_total_len(
                w.subrange(1, w.len() as int),
            ));
        } else {
            let w = split_char(s, sep);
            assert(w == seq![seq![s[0]] + r[0]] + r.subrange(1, r.len() as int));
            assert(w.subrange(1, w.len() as int) =~= r.subrange(1, r.len() as int));
            assert(w[0].len() == 1 + r[0].len());
            assert(seqs_total_len(w) == w[0].len() + seqs_total_len(
                w.subrange(1, w.len() as int),
            ));
            assert(seqs_total_len(r) == r[0].len() + seqs_total_len(
                r.subrange(1, r.len() as int),
            ));
        }
    }
}

/// Index of the first occurrence of `c` in `s`, or `s.len()` if absent.
pub open spec fn idx_of(s: Seq<char>, c: char) -> int
    decreases s.len(),
{
    if s.len() == 0 {
        0
    } else if s[0] == c {
        0
    } else {
        1 + idx_of(s.subrange(1, s.len() as int), c)
    }
}

pub proof fn lemma_idx_of(s: Seq<char>, c: char)
    ensures
        0 <= idx_of(s, c) <= s.len(),
        idx_of(s, c) < s.len() ==> s[idx_of(s, c)] == c,
        forall|j: int| 0 <= j < idx_of(s, c) ==> s[j] != c,
    decreases s.len(),
{
    if s.len() > 0 && s[0] != c {
        let sub = s.subrange(1, s.len() as int);
        lemma_idx_of(sub, c);
        assert forall|j: int| 1 <= j < idx_of(s, c) implies s[j] != c by {
            assert(s[j] == sub[j - 1]);
        }
    }
}

pub fn find_char(s: &str, c: char) -> (r: usize)
    ensures
        r == idx_of(s@, c),
{
    let len = s.unicode_len();
    let mut i: usize = 0;
    proof {
        lemma_idx_of(s@, c);
    }
    while i < len
        invariant
            0 <= i <= len,
            len == s@.len(),
            forall|j: int| 0 <= j < i ==> s@[j] != c,
            0 <= idx_of(s@, c) <= s@.len(),
            idx_of(s@, c) < s@.len() ==> s@[idx_of(s@, c)] == c,
            forall|j: int| 0 <= j < idx_of(s@, c) ==> s@[j] != c,
        decreases len - i,
    {
        if s.get_char(i) == c {
            proof {
                assert(idx_of(s@, c) == i) by {
                    if idx_of(s@, c) < i {
                        assert(s@[idx_of(s@, c)] != c);
                    }
                }
            }
            return i;
        }
        i += 1;
    }
    proof {
        assert(idx_of(s@, c) == len) by {
            if idx_of(s@, c) < len {
                assert(s@[idx_of(s@, c)] != c);
            }
        }
    }
    len
}

/// Decimal digits and their values.
pub open spec fn is_digit(c: char) -> bool {
    '0' <= c && c <= '9'
}

pub open spec fn digit_val(c: char) -> int {
    c as u32 - 48
}

pub open spec fn all_digits(s: Seq<char>) -> bool {
    forall|i: int| 0 <= i < s.len() ==> is_digit(#[trigger] s[i])
}

/// The value of a sequence of decimal digits, most significant first.
pub open spec fn dec_val(s: Seq<char>) -> int
    decreases s.len(),
{
    if s.len() == 0 {
        0
    } else {
        dec_val(s.drop_last()) * 10 + digit_val(s.last())
    }
}

pub proof fn lemma_dec_val_bounds(s: Seq<char>)
    requires
        all_digits(s),
    ensures
        dec_val(s) >= 0,
    decreases s.len(),
{
    if s.len() > 0 {
        assert(all_digits(s.drop_last()));
        lemma_dec_val_bounds(s.drop_last());
    }
}

/// A digit string without a leading zero is at least 10 with two digits and
/// at least 100 with three or more.
pub proof fn lemma_dec_val_canonical(s: Seq<char>)
    requires
        all_digits(s),
        s.len() >= 2,
        s[0] != '0',
    ensures
        dec_val(s) >= 10,
        s.len() >= 3 ==> dec_val(s) >= 100,
    decreases s.len(),
{
    let p = s.drop_last();
    assert(all_digits(p));
    assert(is_digit(s[0]));
    if s.len() == 2 {
        assert(dec_val(p) == dec_val(p.drop_last()) * 10 + digit_val(p.last()));
        assert(p.drop_last().len() == 0);
        assert(digit_val(p.last()) >= 1);
    } else {
        lemma_dec_val_canonical(p);
    }
    assert(digit_val(s.last()) >= 0);
}

/// The value of a decimal integer token: an optional sign followed by one
/// or more digits, rejected when the value does not fit in `i64`.
pub open spec fn parse_i64_spec(t: Seq<char>) -> Option<i64> {
    let signed = t.len() >= 1 && (t[0] == '-' || t[0] == '+');
    let ds = if signed {
        t.subrange(1, t.len() as int)
    } else {
        t
    };
    if ds.len() == 0 || !all_digits(ds) {
        None
    } else {
        let v = if signed && t[0] == '-' {
            -dec_val(ds)
        } else {
            dec_val(ds)
        };
        if i64::MIN <= v <= i64::MAX {
            Some(v as i64)
        } else {
            None
        }
    }
}

/// Runs over the digit part of `t` starting at index `from`, accumulating
/// the value and rejecting non-digits and values above `limit`.
fn parse_digits(t: &str, from: usize, limit: u64) -> (r: Option<u64>)
    requires
        from <= t@.len(),
        limit >= 9,
    ensures
        ({
            let ds = t@.subrange(from as int, t@.len() as int);
            match r {
                Some(v) => ds.len() > 0 && all_digits(ds) && v == dec_val(ds) && v <= limit,
                None => ds.len() == 0 || !all_digits(ds) || dec_val(ds) > limit,
            }
        }),
{
    let len = t.unicode_len();
    let ghost ds = t@.subrange(from as int, t@.len() as int);
    if from == len {
        return None;
    }
    let mut acc: u64 = 0;
    let mut i: usize = from;
    while i < len
        invariant
            from <= i <= len,
            len == t@.len(),
            limit >= 9,
            ds == t@.subrange(from as int, t@.len() as int),
            all_digits(t@.subrange(from as int, i as int)),
            acc == dec_val(t@.subrange(from as int, i as int)),
            acc <= limit,
        decreases len - i,
    {
        let c = t.get_char(i);
        let cv = c as u32;
        if cv < 48 || cv > 57 {
            assert(!is_digit(ds[i - from]));
            return None;
        }
        let d = (cv - 48) as u64;
        let ghost pre = t@.subrange(from as int, i as int);
        let ghost cur = t@.subrange(from as int, i + 1 as int);
        proof {
            assert(cur.drop_last() =~= pre);
            assert(cur.last() == t@[i as int]);
        }
        if acc > (limit - d) / 10 {
            proof {
                assert(all_digits(cur)) by {
                    assert(forall|j: int|
                        0 <= j < cur.len() - 1 ==> #[trigger] cur[j] == pre[j]);
                }
                lemma_dec_val_bounds(cur);
                let q = (limit - d) / 10int;
                assert(q * 10 <= limit - d < q * 10 + 10) by (nonlinear_arith)
                    requires
                        q == (limit - d) / 10int,
                        0 <= limit - d,
                ;
                assert(acc * 10 >= (q + 1) * 10) by (nonlinear_arith)
                    requires
                        acc >= q + 1,
                ;
                assert(dec_val(cur) > limit);
                if all_digits(ds) {
                    assert(cur =~= ds.subrange(0, i + 1 - from));
                    lemma_dec_val_prefix_mono(ds, cur, i + 1 - from);
                }
            }
            return None;
        }
        proof {
            let q = (limit - d) / 10int;
            assert(q * 10 <= limit - d) by (nonlinear_arith)
                requires
                    q == (limit - d) / 10int,
                    0 <= limit - d,
            ;
            assert(acc * 10 <= q * 10) by (nonlinear_arith)
                requires
                    acc <= q,
            ;
        }
        acc = acc * 10 + d;
        i += 1;
    }
    proof {
        assert(t@.subrange(from as int, len as int) == ds);
    }
    Some(acc)
}

/// Once a prefix of the digit string exceeds the limit, the whole string does.
proof fn lemma_dec_val_prefix_mono(s: Seq<char>, p: Seq<char>, n: int)
    requires
        all_digits(s),
        0 <= n <= s.len(),
        p == s.subrange(0, n),
        dec_val(p) >= 0,
    ensures
        dec_val(s) >= dec_val(p),
    decreases s.len() - n,
{
    if n < s.len() {
        let p2 = s.subrange(0, n + 1);
        assert(p2.drop_last() =~= p);
        assert(is_digit(s[n]));
        assert(digit_val(p2.last()) >= 0);
        assert(dec_val(p) * 10 >= dec_val(p)) by (nonlinear_arith)
            requires
                dec_val(p) >= 0,
        ;
        lemma_dec_val_prefix_mono(s, p2, n + 1);
    } else {
        assert(p =~= s);
    }
}

/// Mirrors `i64::from_str_radix` in base 10: optional sign, digits, error
/// on anything else or on overflow.
pub fn parse_i64_exec(t: &str) -> (r: Option<i64>)
    ensures
        r == parse_i64_spec(t@),
{
    let len = t.unicode_len();
    if len == 0 {
        return None;
    }
    let c0 = t.get_char(0);
    let signed = c0 == '-' || c0 == '+';
    let neg = c0 == '-';
    let from: usize = if signed {
        1
    } else {
        0
    };
    let limit: u64 = if neg {
        9223372036854775808
    } else {
        9223372036854775807
    };
    let ghost ds = t@.subrange(from as int, t@.len() as int);
    proof {
        if !signed {
            assert(ds =~= t@);
        }
    }
    match parse_digits(t, from, limit) {
        None => {
            proof {
                if ds.len() > 0 && all_digits(ds) {
                    lemma_dec_val_bounds(ds);
                }
            }
            None
        },
        Some(v) => {
            if neg {
                if v == 9223372036854775808 {
                    Some(i64::MIN)
                } else {
                    Some(-(v as i64))
                }
            } else {
                Some(v as i64)
            }
        },
    }
}

/// Mirrors `str::parse::<i32>`: the `i64` grammar restricted to `i32` range.
pub open spec fn parse_i32_spec(t: Seq<char>) -> Option<i32> {
    match parse_i64_spec(t) {
        Some(v) => if i32::MIN <= v <= i32::MAX {
            Some(v as i32)
        } else {
            None
        },
        None => None,
    }
}

pub fn parse_i32_exec(t: &str) -> (r: Option<i32>)
    ensures
        r == parse_i32_spec(t@),
{
    match parse_i64_exec(t) {
        Some(v) => {
            if -2147483648 <= v && v <= 2147483647 {
                Some(v as i32)
            } else {
                None
            }
        },
        None => None,
    }
}

/// The decimal digit character for a value below ten.
pub open spec fn digit_char(d: int) -> char {
    if d == 0 {
        '0'
    } else if d == 1 {
        '1'
    } else if d == 2 {
        '2'
    } else if d == 3 {
        '3'
    } else if d == 4 {
        '4'
    } else if d == 5 {
        '5'
    } else if d == 6 {
        '6'
    } else if d == 7 {
        '7'
    } else if d == 8 {
        '8'
    } else {
        '9'
    }
}

/// Decimal digits of a non-negative number, most significant first.
pub open spec fn nat_str(n: int) -> Seq<char>
    decreases n,
{
    if n < 10 {
        seq![digit_char(n)]
    } else {
        nat_str(n / 10) + seq![digit_char(n % 10)]
    }
}

/// Decimal rendering of an integer, with a leading minus sign if negative.
pub open spec fn int_str(v: int) -> Seq<char> {
    if v < 0 {
        seq!['-'] + nat_str(-v)
    } else {
        nat_str(v)
    }
}

fn digit_str(d: u64) -> (r: &'static str)
    requires
        d < 10,
    ensures
        r@ == seq![digit_char(d as int)],
{
    proof {
        reveal_strlit("0");
        reveal_strlit("1");
        reveal_strlit("2");
        reveal_strlit("3");
        reveal_strlit("4");
        reveal_strlit("5");
        reveal_strlit("6");
        reveal_strlit("7");
        reveal_strlit("8");
        reveal_strlit("9");
    }
    let r = if d == 0 {
        "0"
    } else if d == 1 {
        "1"
    } else if d == 2 {
        "2"
    } else if d == 3 {
        "3"
    } else if d == 4 {
        "4"
    } else if d == 5 {
        "5"
    } else if d == 6 {
        "6"
    } else if d == 7 {
        "7"
    } else if d == 8 {
        "8"
    } else {
        "9"
    };
    proof {
        assert(r@ =~= seq![digit_char(d as int)]);
    }
    r
}

pub fn u64_to_string(n: u64) -> (r: String)
    ensures
        r@ == nat_str(n as int),
    decreases n,
{
    if n < 10 {
        digit_str(n).to_owned()
    } else {
        let mut s = u64_to_string(n / 10);
        s.append(digit_str(n % 10));
        s
    }
}

pub fn i64_to_string(v: i64) -> (r: String)
    ensures
        r@ == int_str(v as int),
{
    if v < 0 {
        let m: u64 = 0u64.wrapping_sub(v as u64);
        proof {
            assert(m == -(v as int)) by (bit_vector)
                requires
                    v < 0,
                    m == 0u64.wrapping_sub(v as u64),
            ;
        }
        let mut s = String::new();
        proof {
            reveal_strlit("-");
        }
        s.append("-");
        let digits = u64_to_string(m);
        s.append(digits.as_str());
        proof {
            assert(s@ =~= int_str(v as int));
        }
        s
    } else {
        u64_to_string(v as u64)
    }
}

/// ASCII lowercasing of a single character; anything outside `A`..`Z` is
/// returned unchanged.
pub open spec fn lower_char(c: char) -> char {
    if c == 'A' {
        'a'
    } else if c == 'B' {
        'b'
    } else if c == 'C' {
        'c'
    } else if c == 'D' {
        'd'
    } else if c == 'E' {
        'e'
    } else if c == 'F' {
        'f'
    } else if c == 'G' {
        'g'
    } else if c == 'H' {
        'h'
    } else if c == 'I' {
        'i'
    } else if c == 'J' {
        'j'
    } else if c == 'K' {
        'k'
    } else if c == 'L' {
        'l'
    } else if c == 'M' {
        'm'
    } else if c == 'N' {
        'n'
    } else if c == 'O' {
        'o'
    } else if c == 'P' {
        'p'
    } else if c == 'Q' {
        'q'
    } else if c == 'R' {
        'r'
    } else if c == 'S' {
        's'
    } else if c == 'T' {
        't'
    } else if c == 'U' {
        'u'
    } else if c == 'V' {
        'v'
    } else if c == 'W' {
        'w'
    } else if c == 'X' {
        'x'
    } else if c == 'Y' {
        'y'
    } else if c == 'Z' {
        'z'
    } else {
        c
    }
}

pub open spec fn lower_str(s: Seq<char>) -> Seq<char> {
    s.map_values(|c: char| lower_char(c))
}

fn lower_char_str(c: char) -> (r: Option<&'static str>)
    ensures
        match r {
            Some(s) => s@ == seq![lower_char(c)] && lower_char(c) != c,
            None => lower_char(c) == c,
        },
{
    proof {
        reveal_strlit("a");
        reveal_strlit("b");
        reveal_strlit("c");
        reveal_strlit("d");
        reveal_strlit("e");
        reveal_strlit("f");
        reveal_strlit("g");
        reveal_strlit("h");
        reveal_strlit("i");
        reveal_strlit("j");
        reveal_strlit("k");
        reveal_strlit("l");
        reveal_strlit("m");
        reveal_strlit("n");
        reveal_strlit("o");
        reveal_strlit("p");
        reveal_strlit("q");
        reveal_strlit("r");
        reveal_strlit("s");
        reveal_strlit("t");
        reveal_strlit("u");
        reveal_strlit("v");
        reveal_strlit("w");
        reveal_strlit("x");
        reveal_strlit("y");
        reveal_strlit("z");
    }
    let r = match c {
        'A' => Some("a"),
        'B' => Some("b"),
        'C' => Some("c"),
        'D' => Some("d"),
        'E' => Some("e"),
        'F' => Some("f"),
        'G' => Some("g"),
        'H' => Some("h"),
        'I' => Some("i"),
        'J' => Some("j"),
        'K' => Some("k"),
        'L' => Some("l"),
        'M' => Some("m"),
        'N' => Some("n"),
        'O' => Some("o"),
        'P' => Some("p"),
        'Q' => Some("q"),
        'R' => Some("r"),
        'S' => Some("s"),
        'T' => Some("t"),
        'U' => Some("u"),
        'V' => Some("v"),
        'W' => Some("w"),
        'X' => Some("x"),
        'Y' => Some("y"),
        'Z' => Some("z"),
        _ => None,
    };
    match r {
        Some(s) => {
            proof {
                assert(s@ =~= seq![lower_char(c)]);
            }
            Some(s)
        },
        None => None,
    }
}

/// ASCII lowercase of a string slice.
pub fn to_lower(s: &str) -> (r: String)
    ensures
        r@ == lower_str(s@),
    decreases s@.len(),
{
    let len = s.unicode_len();
    if len == 0 {
        let r = String::new();
        proof {
            assert(r@ =~= lower_str(s@));
        }
        r
    } else {
        let c0 = s.get_char(0);
        let mut head: String = match lower_char_str(c0) {
            Some(l) => l.to_owned(),
            None => s.substring_char(0, 1).to_owned(),
        };
        proof {
            assert(s@.subrange(0, 1) =~= seq![s@[0]]);
        }
        let tail = to_lower(s.substring_char(1, len));
        head.append(tail.as_str());
        proof {
            assert(head@ =~= lower_str(s@)) by {
                assert(forall|i: int| 0 <= i < s@.len() ==> #[trigger] lower_str(s@)[i] == lower_char(
                    s@[i],
                ));
            }
        }
        head
    }
}

} // verus!

