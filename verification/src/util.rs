//! Small app-neutral helpers.

use vstd::prelude::*;
use vstd::string::*;

use crate::encoding::char_to_string;

verus! {

/// The code point of `c` after ASCII lower-casing: `A`..=`Z` map to
/// `a`..=`z`, every other character is left as it is.
pub open spec fn ascii_lower(c: char) -> int {
    if 65 <= (c as u32) <= 90 {
        (c as u32) + 32
    } else {
        c as int
    }
}

/// `s` and `t` are equal once both are ASCII lower-cased.
pub open spec fn eq_ignore_case(s: Seq<char>, t: Seq<char>) -> bool {
    &&& s.len() == t.len()
    &&& forall|i: int| 0 <= i < s.len() ==> ascii_lower(#[trigger] s[i]) == ascii_lower(t[i])
}

/// Lower-cases one character for comparison.
pub fn ascii_lower_code(c: char) -> (r: u32)
    ensures
        r == ascii_lower(c),
{
    let u = c as u32;
    if 65 <= u && u <= 90 {
        u + 32
    } else {
        u
    }
}

/// Exact string equality, character by character.
pub fn str_eq(s: &str, t: &str) -> (r: bool)
    ensures
        r == (s@ == t@),
{
    let n = s.unicode_len();
    let m = t.unicode_len();
    if n != m {
        return false;
    }
    let mut i: usize = 0;
    while i < n
        invariant
            n == s@.len(),
            m == t@.len(),
            n == m,
            i <= n,
            forall|j: int| 0 <= j < i ==> #[trigger] s@[j] == t@[j],
        decreases n - i,
    {
        if s.get_char(i) != t.get_char(i) {
            return false;
        }
        i = i + 1;
    }
    assert(s@ =~= t@);
    true
}

/// ASCII case-insensitive string equality.
pub fn eq_ignore_ascii_case(s: &str, t: &str) -> (r: bool)
    ensures
        r == eq_ignore_case(s@, t@),
{
    let n = s.unicode_len();
    let m = t.unicode_len();
    if n != m {
        return false;
    }
    let mut i: usize = 0;
    while i < n
        invariant
            n == s@.len(),
            m == t@.len(),
            n == m,
            i <= n,
            forall|j: int| 0 <= j < i ==> ascii_lower(#[trigger] s@[j]) == ascii_lower(t@[j]),
        decreases n - i,
    {
        let a = ascii_lower_code(s.get_char(i));
        let b = ascii_lower_code(t.get_char(i));
        if a != b {
            return false;
        }
        i = i + 1;
    }
    true
}

/// The words read as `true`, in lower case.
pub open spec fn is_truthy_word(s: Seq<char>) -> bool {
    ||| eq_ignore_case(s, seq!['t', 'r', 'u', 'e'])
    ||| eq_ignore_case(s, seq!['1'])
    ||| eq_ignore_case(s, seq!['y', 'e', 's'])
    ||| eq_ignore_case(s, seq!['o', 'n'])
}

/// The words read as `false`, in lower case.
pub open spec fn is_falsy_word(s: Seq<char>) -> bool {
    ||| eq_ignore_case(s, seq!['f', 'a', 'l', 's', 'e'])
    ||| eq_ignore_case(s, seq!['0'])
    ||| eq_ignore_case(s, seq!['n', 'o'])
    ||| eq_ignore_case(s, seq!['o', 'f', 'f'])
}

/// The loose boolean reading of a configuration value.
pub open spec fn parse_bool_spec(s: Seq<char>) -> Option<bool> {
    if is_truthy_word(s) {
        Some(true)
    } else if is_falsy_word(s) {
        Some(false)
    } else {
        None
    }
}

/// Parse a string into a `bool` with the conventional truthy / falsy
/// vocabulary: `true` / `1` / `yes` / `on` (ASCII case-insensitive) give
/// `Some(true)`; `false` / `0` / `no` / `off` give `Some(false)`; anything
/// else gives `None`.
pub fn parse_bool(v: &str) -> (r: Option<bool>)
    ensures
        r == parse_bool_spec(v@),
{
    proof {
        reveal_strlit("true");
        reveal_strlit("1");
        reveal_strlit("yes");
        reveal_strlit("on");
        reveal_strlit("false");
        reveal_strlit("0");
        reveal_strlit("no");
        reveal_strlit("off");
        assert("true"@ =~= seq!['t', 'r', 'u', 'e']);
        assert("1"@ =~= seq!['1']);
        assert("yes"@ =~= seq!['y', 'e', 's']);
        assert("on"@ =~= seq!['o', 'n']);
        assert("false"@ =~= seq!['f', 'a', 'l', 's', 'e']);
        assert("0"@ =~= seq!['0']);
        assert("no"@ =~= seq!['n', 'o']);
        assert("off"@ =~= seq!['o', 'f', 'f']);
    }
    if eq_ignore_ascii_case(v, "true") || eq_ignore_ascii_case(v, "1") || eq_ignore_ascii_case(
        v,
        "yes",
    ) || eq_ignore_ascii_case(v, "on") {
        Some(true)
    } else if eq_ignore_ascii_case(v, "false") || eq_ignore_ascii_case(v, "0")
        || eq_ignore_ascii_case(v, "no") || eq_ignore_ascii_case(v, "off") {
        Some(false)
    } else {
        None
    }
}

/// `c` with an ASCII lower-case letter made upper-case (what
/// `char::to_ascii_uppercase` does).
pub open spec fn ascii_upper_char(c: char) -> char {
    if 97 <= (c as u32) <= 122 {
        ((c as u32) - 32) as char
    } else {
        c
    }
}

/// `c` with an ASCII upper-case letter made lower-case (what
/// `char::to_ascii_lowercase` does).
pub open spec fn ascii_lower_char(c: char) -> char {
    if 65 <= (c as u32) <= 90 {
        ((c as u32) + 32) as char
    } else {
        c
    }
}

/// What `str::to_ascii_uppercase` gives: ASCII letters upper-cased, every
/// other character unchanged.
pub open spec fn to_ascii_uppercase_spec(s: Seq<char>) -> Seq<char> {
    s.map_values(|c: char| ascii_upper_char(c))
}

/// What `str::to_ascii_lowercase` gives: ASCII letters lower-cased, every
/// other character unchanged.
pub open spec fn to_ascii_lowercase_spec(s: Seq<char>) -> Seq<char> {
    s.map_values(|c: char| ascii_lower_char(c))
}

proof fn lemma_case_maps_fold_alike(c: char)
    ensures
        ascii_lower(ascii_upper_char(c)) == ascii_lower(c),
        ascii_lower(ascii_lower_char(c)) == ascii_lower(c),
{
    let u = c as u32;
    if 97 <= u <= 122 {
        let v = (u - 32) as u32;
        assert((v as char) as u32 == v);
    }
    if 65 <= u <= 90 {
        let v = (u + 32) as u32;
        assert((v as char) as u32 == v);
    }
}

/// Upper-casing or lower-casing a value's ASCII letters does not change how
/// it reads: `parse_bool(v)`, `parse_bool(&v.to_ascii_uppercase())` and
/// `parse_bool(&v.to_ascii_lowercase())` agree.
pub proof fn parse_bool_ignores_ascii_case(s: Seq<char>)
    ensures
        parse_bool_spec(to_ascii_uppercase_spec(s)) == parse_bool_spec(s),
        parse_bool_spec(to_ascii_lowercase_spec(s)) == parse_bool_spec(s),
{
    let up = to_ascii_uppercase_spec(s);
    let low = to_ascii_lowercase_spec(s);
    assert forall|i: int| 0 <= i < up.len() implies ascii_lower(#[trigger] up[i]) == ascii_lower(
        s[i],
    ) by {
        lemma_case_maps_fold_alike(s[i]);
    }
    assert forall|i: int| 0 <= i < low.len() implies ascii_lower(#[trigger] low[i])
        == ascii_lower(s[i]) by {
        lemma_case_maps_fold_alike(s[i]);
    }
    parse_bool_ignores_case(up, s);
    parse_bool_ignores_case(low, s);
}

/// Reading a value does not depend on the ASCII case of its letters: two
/// values equal up to ASCII case read the same.
pub proof fn parse_bool_ignores_case(s: Seq<char>, t: Seq<char>)
    requires
        eq_ignore_case(s, t),
    ensures
        parse_bool_spec(s) == parse_bool_spec(t),
{
    assert forall|w: Seq<char>| eq_ignore_case(s, w) == eq_ignore_case(t, w) by {
        if eq_ignore_case(s, w) {
            assert forall|i: int| 0 <= i < t.len() implies ascii_lower(#[trigger] t[i])
                == ascii_lower(w[i]) by {
                assert(ascii_lower(s[i]) == ascii_lower(t[i]));
            }
        }
        if eq_ignore_case(t, w) {
            assert forall|i: int| 0 <= i < s.len() implies ascii_lower(#[trigger] s[i])
                == ascii_lower(w[i]) by {
                assert(ascii_lower(s[i]) == ascii_lower(t[i]));
            }
        }
    }
}

/// The decimal digit character for `d` (0..=9).
pub open spec fn digit_char(d: nat) -> char {
    ((48 + d) as u32) as char
}

/// The decimal notation of `n`, without leading zeros.
pub open spec fn decimal(n: nat) -> Seq<char>
    decreases n,
{
    if n < 10 {
        seq![digit_char(n)]
    } else {
        decimal(n / 10).push(digit_char(n % 10))
    }
}

/// The suffix that names a temporary sibling file: `.tmp.<pid>.<nanos>`.
pub open spec fn temp_suffix_spec(pid: nat, nanos: nat) -> Seq<char> {
    seq!['.', 't', 'm', 'p', '.'] + decimal(pid) + seq!['.'] + decimal(nanos)
}

/// The decimal notation of `n` as a string.
pub fn decimal_string(n: u128) -> (r: String)
    ensures
        r@ == decimal(n as nat),
    decreases n,
{
    let d = (n % 10) as u32;
    let c = char_from_digit(d);
    if n < 10 {
        char_to_string(c)
    } else {
        let mut r = decimal_string(n / 10);
        let cs = char_to_string(c);
        r.append(cs.as_str());
        r
    }
}

/// The digit character for `d`.
fn char_from_digit(d: u32) -> (c: char)
    requires
        d < 10,
    ensures
        c == digit_char(d as nat),
{
    if d == 0 {
        '0'
    } else if d == 1 {
        '1'
    } else if d == 2 {
        '2'
    } else if d == 3 {
        '3'
    } else if d == 4 {
        '4'
    } else if d == 5 {
        '5'
    } else if d == 6 {
        '6'
    } else if d == 7 {
        '7'
    } else if d == 8 {
        '8'
    } else {
        '9'
    }
}

/// The suffix appended to a file's name to name its temporary sibling
/// during an atomic write: `.tmp.<pid>.<nanos>`. The process id plus the
/// clock's nanoseconds keep concurrent writers of the same file (other
/// processes, threads or panes) apart, so no writer clobbers another's
/// temporary file.
pub fn temp_suffix(pid: u32, nanos: u128) -> (r: String)
    ensures
        r@ == temp_suffix_spec(pid as nat, nanos as nat),
{
    let mut r = String::from_str(".tmp.");
    let p = decimal_string(pid as u128);
    r.append(p.as_str());
    r.append(".");
    let t = decimal_string(nanos);
    r.append(t.as_str());
    proof {
        reveal_strlit(".tmp.");
        reveal_strlit(".");
        assert(r@ =~= temp_suffix_spec(pid as nat, nanos as nat));
    }
    r
}

/// Every character of a decimal notation is a digit, and there is at least
/// one.
pub proof fn lemma_decimal_digits(n: nat)
    ensures
        decimal(n).len() >= 1,
        n >= 10 ==> decimal(n).len() >= 2,
        forall|i: int| 0 <= i < decimal(n).len() ==> 48 <= (#[trigger] decimal(n)[i]) as u32 <= 57,
    decreases n,
{
    if n >= 10 {
        lemma_decimal_digits(n / 10);
        let d = decimal(n / 10);
        assert forall|i: int| 0 <= i < decimal(n).len() implies 48 <= (#[trigger] decimal(
            n,
        )[i]) as u32 <= 57 by {
            if i < d.len() {
                assert(decimal(n)[i] == d[i]);
            }
        }
    }
}

/// Different numbers have different decimal notations.
pub proof fn lemma_decimal_injective(m: nat, n: nat)
    requires
        decimal(m) == decimal(n),
    ensures
        m == n,
    decreases m,
{
    lemma_decimal_digits(m);
    lemma_decimal_digits(n);
    if m < 10 && n < 10 {
        assert(decimal(m)[0] == digit_char(m));
        assert(decimal(n)[0] == digit_char(n));
    } else if m >= 10 && n >= 10 {
        let a = decimal(m);
        assert(a.drop_last() == decimal(m / 10));
        assert(decimal(n).drop_last() == decimal(n / 10));
        assert(a.last() == digit_char(m % 10));
        assert(decimal(n).last() == digit_char(n % 10));
        lemma_decimal_injective(m / 10, n / 10);
    }
}

/// Splitting `a . b` at its first dot, where `a` holds no dot.
proof fn lemma_split_at_dot(a: Seq<char>, b: Seq<char>, c: Seq<char>, d: Seq<char>)
    requires
        a + seq!['.'] + b == c + seq!['.'] + d,
        forall|i: int| 0 <= i < a.len() ==> a[i] != '.',
        forall|i: int| 0 <= i < c.len() ==> c[i] != '.',
    ensures
        a == c,
        b == d,
{
    let l = a + seq!['.'] + b;
    let r = c + seq!['.'] + d;
    if a.len() < c.len() {
        assert(l[a.len() as int] == '.');
        assert(r[a.len() as int] == c[a.len() as int]);
    } else if c.len() < a.len() {
        assert(r[c.len() as int] == '.');
        assert(l[c.len() as int] == a[c.len() as int]);
    } else {
        assert(a =~= l.take(a.len() as int));
        assert(c =~= r.take(c.len() as int));
        assert(b =~= l.skip(a.len() + 1int));
        assert(d =~= r.skip(c.len() + 1int));
    }
}

/// Distinct (process id, nanoseconds) pairs give distinct temporary-file
/// suffixes, so two writers of the same file never share a temporary file.
pub proof fn temp_suffix_unique(pid1: nat, nanos1: nat, pid2: nat, nanos2: nat)
    requires
        temp_suffix_spec(pid1, nanos1) == temp_suffix_spec(pid2, nanos2),
    ensures
        pid1 == pid2,
        nanos1 == nanos2,
{
    let head = seq!['.', 't', 'm', 'p', '.'];
    let l = temp_suffix_spec(pid1, nanos1);
    let r = temp_suffix_spec(pid2, nanos2);
    let a = decimal(pid1) + seq!['.'] + decimal(nanos1);
    let c = decimal(pid2) + seq!['.'] + decimal(nanos2);
    assert(l =~= head + a);
    assert(r =~= head + c);
    assert(a =~= l.skip(5));
    assert(c =~= r.skip(5));
    lemma_decimal_digits(pid1);
    lemma_decimal_digits(pid2);
    assert forall|i: int| 0 <= i < decimal(pid1).len() implies decimal(pid1)[i] != '.' by {
        assert(48 <= (decimal(pid1)[i]) as u32);
    }
    assert forall|i: int| 0 <= i < decimal(pid2).len() implies decimal(pid2)[i] != '.' by {
        assert(48 <= (decimal(pid2)[i]) as u32);
    }
    lemma_split_at_dot(decimal(pid1), decimal(nanos1), decimal(pid2), decimal(nanos2));
    lemma_decimal_injective(pid1, pid2);
    lemma_decimal_injective(nanos1, nanos2);
}

/// Lower-casing one character agrees with the case-folding used for
/// comparison.
proof fn lemma_lower_char_code(c: char)
    ensures
        ascii_lower_char(c) as u32 == ascii_lower(c),
{
    let u = c as u32;
    if 65 <= u <= 90 {
        let v = (u + 32) as u32;
        assert((v as char) as u32 == v);
    }
}

/// Comparing ignoring ASCII case with a word written in lower case is the
/// same as lower-casing and comparing exactly.
proof fn lemma_eq_ignore_case_lowered(s: Seq<char>, w: Seq<char>)
    requires
        forall|i: int| 0 <= i < w.len() ==> !(65 <= (#[trigger] w[i]) as u32 <= 90),
    ensures
        eq_ignore_case(s, w) <==> to_ascii_lowercase_spec(s) == w,
{
    let low = to_ascii_lowercase_spec(s);
    if eq_ignore_case(s, w) {
        assert forall|i: int| 0 <= i < w.len() implies low[i] == w[i] by {
            lemma_lower_char_code(s[i]);
            assert(ascii_lower(s[i]) == ascii_lower(w[i]));
            vstd::utf8::char_u32_cast(low[i], low[i] as u32);
            vstd::utf8::char_u32_cast(w[i], w[i] as u32);
        }
        assert(low =~= w);
    }
    if low == w {
        assert forall|i: int| 0 <= i < s.len() implies ascii_lower(#[trigger] s[i])
            == ascii_lower(w[i]) by {
            lemma_lower_char_code(s[i]);
            assert(low[i] == w[i]);
        }
    }
}

/// A value reads as `true` exactly when, lower-cased, it is `true`, `1`,
/// `yes` or `on`; as `false` exactly when, lower-cased, it is `false`,
/// `0`, `no` or `off`; and otherwise it does not read as a boolean.
pub proof fn parse_bool_reads_lowercased_words(s: Seq<char>)
    ensures
        ({
            let low = to_ascii_lowercase_spec(s);
            let truthy = low == seq!['t', 'r', 'u', 'e'] || low == seq!['1'] || low == seq![
                'y',
                'e',
                's',
            ] || low == seq!['o', 'n'];
            let falsy = low == seq!['f', 'a', 'l', 's', 'e'] || low == seq!['0'] || low == seq![
                'n',
                'o',
            ] || low == seq!['o', 'f', 'f'];
            &&& parse_bool_spec(s) == Some(true) <==> truthy
            &&& parse_bool_spec(s) == Some(false) <==> falsy
            &&& parse_bool_spec(s) is None <==> !truthy && !falsy
        }),
{
    let words = seq![
        seq!['t', 'r', 'u', 'e'],
        seq!['1'],
        seq!['y', 'e', 's'],
        seq!['o', 'n'],
        seq!['f', 'a', 'l', 's', 'e'],
        seq!['0'],
        seq!['n', 'o'],
        seq!['o', 'f', 'f'],
    ];
    lemma_eq_ignore_case_lowered(s, seq!['t', 'r', 'u', 'e']);
    lemma_eq_ignore_case_lowered(s, seq!['1']);
    lemma_eq_ignore_case_lowered(s, seq!['y', 'e', 's']);
    lemma_eq_ignore_case_lowered(s, seq!['o', 'n']);
    lemma_eq_ignore_case_lowered(s, seq!['f', 'a', 'l', 's', 'e']);
    lemma_eq_ignore_case_lowered(s, seq!['0']);
    lemma_eq_ignore_case_lowered(s, seq!['n', 'o']);
    lemma_eq_ignore_case_lowered(s, seq!['o', 'f', 'f']);
    let low = to_ascii_lowercase_spec(s);
    assert(seq!['t', 'r', 'u', 'e'] != seq!['f', 'a', 'l', 's', 'e']);
    if low == seq!['o', 'n'] {
        assert(low != seq!['o', 'f', 'f']);
        assert(low[1] != seq!['n', 'o'][1]);
    }
    if low == seq!['n', 'o'] {
        assert(low[0] != seq!['o', 'n'][0]);
    }
    if low == seq!['1'] {
        assert(low[0] != seq!['0'][0]);
    }
}

/// The number written by a string of decimal digits.
pub open spec fn decimal_value(s: Seq<char>) -> int
    decreases s.len(),
{
    if s.len() == 0 {
        0
    } else {
        decimal_value(s.drop_last()) * 10 + ((s.last() as u32) - 48)
    }
}

/// `decimal(n)` is a string of digits that writes `n`, without a leading
/// zero (unless `n` is 0).
pub proof fn decimal_writes_the_number(n: nat)
    ensures
        decimal_value(decimal(n)) == n,
        forall|i: int| 0 <= i < decimal(n).len() ==> 48 <= (#[trigger] decimal(n)[i]) as u32 <= 57,
        n > 0 ==> decimal(n)[0] != '0',
    decreases n,
{
    lemma_decimal_digits(n);
    if n < 10 {
        assert((((48 + n) as u32) as char) as u32 == (48 + n) as u32);
        assert(decimal(n).drop_last() =~= Seq::<char>::empty());
        assert(decimal_value(Seq::<char>::empty()) == 0);
        assert(decimal(n).last() == digit_char(n));
    } else {
        decimal_writes_the_number(n / 10);
        let d = (n % 10) as nat;
        assert((((48 + d) as u32) as char) as u32 == (48 + d) as u32);
        assert(decimal(n).drop_last() =~= decimal(n / 10));
        assert(decimal(n).last() == digit_char(d));
        assert(decimal(n)[0] == decimal(n / 10)[0]);
        assert(n == (n / 10) * 10 + d);
    }
}

} // verus!
