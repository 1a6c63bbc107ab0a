//! Small text utilities shared by the runtime: hexadecimal and decimal
//! rendering, ASCII case folding and substring search over character
//! sequences.
use vstd::prelude::*;

verus! {

/// The lower-case hexadecimal digit for `d` (`0 <= d < 16`).
pub open spec fn hex_digit(d: int) -> char {
    if d < 10 {
        (d + 48) as char
    } else {
        (d + 87) as char
    }
}

/// Lower-case hexadecimal rendering of `v` without leading zeros ("0" for zero).
pub open spec fn hex_seq(v: nat) -> Seq<char>
    decreases v,
{
    if v < 16 {
        seq![hex_digit(v as int)]
    } else {
        hex_seq(v / 16).push(hex_digit((v % 16) as int))
    }
}

/// `n` copies of the character `c`.
pub open spec fn repeat_char(c: char, n: nat) -> Seq<char>
    decreases n,
{
    if n == 0 {
        Seq::empty()
    } else {
        repeat_char(c, (n - 1) as nat).push(c)
    }
}

/// Hexadecimal rendering of `v`, left-padded with zeros to at least `width` digits.
pub open spec fn hex_padded(v: nat, width: nat) -> Seq<char> {
    let digits = hex_seq(v);
    if digits.len() >= width {
        digits
    } else {
        repeat_char('0', (width - digits.len()) as nat) + digits
    }
}

/// `0x` followed by `v` in hexadecimal, zero-padded to `width` digits.
pub open spec fn hex_prefixed(v: nat, width: nat) -> Seq<char> {
    seq!['0', 'x'] + hex_padded(v, width)
}

/// The decimal digit for `d` (`0 <= d < 10`).
pub open spec fn dec_digit(d: int) -> char {
    (d + 48) as char
}

/// Decimal rendering of `v` without leading zeros ("0" for zero).
pub open spec fn dec_seq(v: nat) -> Seq<char>
    decreases v,
{
    if v < 10 {
        seq![dec_digit(v as int)]
    } else {
        dec_seq(v / 10).push(dec_digit((v % 10) as int))
    }
}

/// Decimal rendering of a signed value, with a leading `-` when negative.
pub open spec fn signed_dec_seq(v: int) -> Seq<char> {
    if v < 0 {
        seq!['-'] + dec_seq((-v) as nat)
    } else {
        dec_seq(v as nat)
    }
}

/// ASCII lower-casing of a single character; other characters are unchanged.
pub open spec fn lower_char(c: char) -> char {
    if 'A' <= c && c <= 'Z' {
        ((c as int) + 32) as char
    } else {
        c
    }
}

/// ASCII lower-casing of every character of `s`.
pub open spec fn lower_seq(s: Seq<char>) -> Seq<char> {
    Seq::new(s.len(), |i: int| lower_char(s[i]))
}

/// `needle` occurs in `hay` starting at position `i`.
pub open spec fn occurs_at(hay: Seq<char>, needle: Seq<char>, i: int) -> bool {
    0 <= i && i + needle.len() <= hay.len() && hay.subrange(i, i + needle.len()) == needle
}

/// `needle` occurs somewhere in `hay` (the empty needle occurs everywhere).
pub open spec fn seq_contains(hay: Seq<char>, needle: Seq<char>) -> bool {
    exists|i: int| occurs_at(hay, needle, i)
}

/// `hay` begins with `prefix`.
pub open spec fn seq_starts_with(hay: Seq<char>, prefix: Seq<char>) -> bool {
    occurs_at(hay, prefix, 0)
}

/// `hay` ends with `suffix`.
pub open spec fn seq_ends_with(hay: Seq<char>, suffix: Seq<char>) -> bool {
    suffix.len() <= hay.len() && occurs_at(hay, suffix, hay.len() - suffix.len())
}

/// `s` with every occurrence of `c` removed.
pub open spec fn remove_char(s: Seq<char>, c: char) -> Seq<char>
    decreases s.len(),
{
    if s.len() == 0 {
        s
    } else if s.last() == c {
        remove_char(s.drop_last(), c)
    } else {
        remove_char(s.drop_last(), c).push(s.last())
    }
}

/// Appends one character to a `String` (`String::push`).
#[verifier::external_body]
pub(crate) fn push_char(s: &mut String, c: char)
    ensures
        final(s)@ == old(s)@.push(c),
{
    s.push(c);
}

/// Returns the lower-case hexadecimal digit for `d`.
pub fn hex_digit_char(d: u64) -> (c: char)
    requires
        d < 16,
    ensures
        c == hex_digit(d as int),
{
    match d {
        0 => '0',
        1 => '1',
        2 => '2',
        3 => '3',
        4 => '4',
        5 => '5',
        6 => '6',
        7 => '7',
        8 => '8',
        9 => '9',
        10 => 'a',
        11 => 'b',
        12 => 'c',
        13 => 'd',
        14 => 'e',
        _ => 'f',
    }
}

/// `16^n`.
pub open spec fn pow16(n: nat) -> nat
    decreases n,
{
    if n == 0 {
        1
    } else {
        16 * pow16((n - 1) as nat)
    }
}

proof fn lemma_hex_len_bound(v: nat, k: nat)
    requires
        k >= 1,
        v < pow16(k),
    ensures
        1 <= hex_seq(v).len() <= k,
    decreases v,
{
    if v >= 16 {
        if k == 1 {
            assert(pow16(1) == 16 * pow16(0));
            assert(false);
        }
        let p = pow16((k - 1) as nat);
        assert(pow16(k) == 16 * p);
        assert(v / 16 < p) by (nonlinear_arith)
            requires
                v < 16 * p,
        ;
        assert(v / 16 < v);
        lemma_hex_len_bound(v / 16, (k - 1) as nat);
    }
}

proof fn lemma_pow16_16()
    ensures
        pow16(16) == 0x1_0000_0000_0000_0000,
        pow16(8) == 0x1_0000_0000,
        pow16(2) == 0x100,
        pow16(4) == 0x1_0000,
{
    reveal_with_fuel(pow16, 17);
}

/// Appends the hexadecimal digits of `v` (no leading zeros).
fn push_hex_digits(s: &mut String, v: u64)
    ensures
        final(s)@ == old(s)@ + hex_seq(v as nat),
    decreases v,
{
    if v >= 16 {
        push_hex_digits(s, v / 16);
        let c = hex_digit_char(v % 16);
        push_char(s, c);
        assert(hex_seq(v as nat) == hex_seq((v / 16) as nat).push(hex_digit((v % 16) as int)));
    } else {
        let c = hex_digit_char(v);
        push_char(s, c);
        assert(hex_seq(v as nat) == seq![hex_digit(v as int)]);
    }
}

/// Number of hexadecimal digits of `v` without leading zeros.
fn hex_digit_count(v: u64) -> (n: usize)
    ensures
        n == hex_seq(v as nat).len(),
        1 <= n <= 16,
    decreases v,
{
    proof {
        lemma_pow16_16();
        lemma_hex_len_bound(v as nat, 16);
    }
    if v < 16 {
        1
    } else {
        let inner = hex_digit_count(v / 16);
        inner + 1
    }
}

/// Appends `v` in lower-case hexadecimal, zero-padded to at least `width` digits.
pub fn push_hex(s: &mut String, v: u64, width: usize)
    ensures
        final(s)@ == old(s)@ + hex_padded(v as nat, width as nat),
{
    let n = hex_digit_count(v);
    let ghost start = s@;
    if n < width {
        let mut pad: usize = width - n;
        let ghost total = (width - n) as nat;
        while pad > 0
            invariant
                pad <= total,
                s@ == start + repeat_char('0', (total - pad) as nat),
            decreases pad,
        {
            push_char(s, '0');
            pad = pad - 1;
            assert(repeat_char('0', (total - pad) as nat) == repeat_char('0', (total - pad - 1) as nat).push('0'));
        }
    }
    let ghost mid = s@;
    push_hex_digits(s, v);
    proof {
        if n < width {
            assert(s@ == start + repeat_char('0', (width - n) as nat) + hex_seq(v as nat));
        } else {
            assert(mid == start);
        }
    }
}

/// Appends `0x` followed by `v` in hexadecimal, zero-padded to `width` digits.
pub fn push_hex_prefixed(s: &mut String, v: u64, width: usize)
    ensures
        final(s)@ == old(s)@ + hex_prefixed(v as nat, width as nat),
{
    push_char(s, '0');
    push_char(s, 'x');
    push_hex(s, v, width);
    proof {
        assert(seq!['0', 'x'] + hex_padded(v as nat, width as nat) == seq!['0'].push('x') + hex_padded(v as nat, width as nat));
    }
}

/// Returns the decimal digit for `d`.
fn dec_digit_char(d: u64) -> (c: char)
    requires
        d < 10,
    ensures
        c == dec_digit(d as int),
{
    match d {
        0 => '0',
        1 => '1',
        2 => '2',
        3 => '3',
        4 => '4',
        5 => '5',
        6 => '6',
        7 => '7',
        8 => '8',
        _ => '9',
    }
}

/// Appends `v` in decimal.
pub fn push_dec(s: &mut String, v: u64)
    ensures
        final(s)@ == old(s)@ + dec_seq(v as nat),
    decreases v,
{
    if v >= 10 {
        push_dec(s, v / 10);
        let c = dec_digit_char(v % 10);
        push_char(s, c);
        assert(dec_seq(v as nat) == dec_seq((v / 10) as nat).push(dec_digit((v % 10) as int)));
    } else {
        let c = dec_digit_char(v);
        push_char(s, c);
        assert(dec_seq(v as nat) == seq![dec_digit(v as int)]);
    }
}

/// Appends a signed value in decimal.
pub fn push_signed_dec(s: &mut String, v: i64)
    ensures
        final(s)@ == old(s)@ + signed_dec_seq(v as int),
{
    if v < 0 {
        push_char(s, '-');
        let mag: u64 = if v == i64::MIN {
            0x8000_0000_0000_0000u64
        } else {
            (-v) as u64
        };
        push_dec(s, mag);
        assert(seq!['-'] + dec_seq((-(v as int)) as nat) == seq!['-'] + dec_seq(mag as nat));
    } else {
        push_dec(s, v as u64);
    }
}

/// Appends every character of `chars` to `s`.
pub fn push_chars(s: &mut String, chars: &Vec<char>)
    ensures
        final(s)@ == old(s)@ + chars@,
{
    let ghost start = s@;
    let mut i: usize = 0;
    while i < chars.len()
        invariant
            i <= chars.len(),
            s@ == start + chars@.subrange(0, i as int),
        decreases chars.len() - i,
    {
        push_char(s, chars[i]);
        assert(chars@.subrange(0, (i + 1) as int) == chars@.subrange(0, i as int).push(chars@[i as int]));
        i = i + 1;
    }
    assert(chars@.subrange(0, chars@.len() as int) == chars@);
}

/// Builds a `String` holding exactly the characters of `chars`.
pub fn string_from_chars(chars: &Vec<char>) -> (s: String)
    ensures
        s@ == chars@,
{
    let mut s = String::new();
    push_chars(&mut s, chars);
    s
}

/// The characters of `s`, as a vector.
pub fn chars_of(s: &str) -> (v: Vec<char>)
    ensures
        v@ == s@,
{
    let n = s.unicode_len();
    let mut v: Vec<char> = Vec::new();
    let mut i: usize = 0;
    while i < n
        invariant
            n == s@.len(),
            i <= n,
            v@ == s@.subrange(0, i as int),
        decreases n - i,
    {
        let c = s.get_char(i);
        v.push(c);
        assert(s@.subrange(0, (i + 1) as int) == s@.subrange(0, i as int).push(c));
        i = i + 1;
    }
    assert(s@.subrange(0, n as int) == s@);
    v
}

/// ASCII lower-casing of one character.
pub fn to_lower_char(c: char) -> (r: char)
    ensures
        r == lower_char(c),
{
    if 'A' <= c && c <= 'Z' {
        let code = c as u32 + 32;
        lower_from_code(code, c)
    } else {
        c
    }
}

fn lower_from_code(code: u32, c: char) -> (r: char)
    requires
        'A' <= c <= 'Z',
        code == (c as u32) + 32,
    ensures
        r == lower_char(c),
{
    match c {
        'A' => 'a',
        'B' => 'b',
        'C' => 'c',
        'D' => 'd',
        'E' => 'e',
        'F' => 'f',
        'G' => 'g',
        'H' => 'h',
        'I' => 'i',
        'J' => 'j',
        'K' => 'k',
        'L' => 'l',
        'M' => 'm',
        'N' => 'n',
        'O' => 'o',
        'P' => 'p',
        'Q' => 'q',
        'R' => 'r',
        'S' => 's',
        'T' => 't',
        'U' => 'u',
        'V' => 'v',
        'W' => 'w',
        'X' => 'x',
        'Y' => 'y',
        _ => 'z',
    }
}

/// ASCII lower-casing of every character of `v`.
pub fn to_lower_chars(v: &Vec<char>) -> (r: Vec<char>)
    ensures
        r@ == lower_seq(v@),
{
    let mut r: Vec<char> = Vec::new();
    let mut i: usize = 0;
    while i < v.len()
        invariant
            i <= v.len(),
            r@.len() == i,
            forall|j: int| 0 <= j < i ==> r@[j] == lower_char(v@[j]),
        decreases v.len() - i,
    {
        let c = to_lower_char(v[i]);
        r.push(c);
        i = i + 1;
    }
    assert(r@ == lower_seq(v@));
    r
}

/// Whether `needle` occurs in `hay` at position `i`.
pub fn occurs_at_exec(hay: &Vec<char>, needle: &Vec<char>, i: usize) -> (b: bool)
    ensures
        b == occurs_at(hay@, needle@, i as int),
{
    if i > hay.len() || needle.len() > hay.len() - i {
        return false;
    }
    let mut j: usize = 0;
    while j < needle.len()
        invariant
            i + needle.len() <= hay.len(),
            j <= needle.len(),
            forall|k: int| 0 <= k < j ==> hay@[i + k] == needle@[k],
        decreases needle.len() - j,
    {
        if hay[i + j] != needle[j] {
            assert(hay@.subrange(i as int, i + needle.len())[j as int] != needle@[j as int]);
            return false;
        }
        j = j + 1;
    }
    assert(hay@.subrange(i as int, i + needle.len()) =~= needle@);
    true
}

/// Whether `needle` occurs anywhere in `hay`.
pub fn contains_chars(hay: &Vec<char>, needle: &Vec<char>) -> (b: bool)
    ensures
        b == seq_contains(hay@, needle@),
{
    if needle.len() > hay.len() {
        assert forall|i: int| !occurs_at(hay@, needle@, i) by {}
        return false;
    }
    let last = hay.len() - needle.len();
    let mut i: usize = 0;
    while i <= last
        invariant
            last == hay.len() - needle.len(),
            needle.len() <= hay.len(),
            forall|k: int| 0 <= k < i ==> !occurs_at(hay@, needle@, k),
        decreases last + 1 - i,
    {
        if occurs_at_exec(hay, needle, i) {
            return true;
        }
        if i == last {
            assert forall|k: int| !occurs_at(hay@, needle@, k) by {
                if 0 <= k <= last {
                } else {
                }
            }
            return false;
        }
        i = i + 1;
    }
    false
}

/// Whether `s` contains the text `needle`.
pub fn str_contains(s: &str, needle: &str) -> (b: bool)
    ensures
        b == seq_contains(s@, needle@),
{
    let h = chars_of(s);
    let n = chars_of(needle);
    contains_chars(&h, &n)
}

/// Whether the ASCII lower-cased `s` contains `needle`.
pub fn lower_contains(lowered: &Vec<char>, needle: &str) -> (b: bool)
    ensures
        b == seq_contains(lowered@, needle@),
{
    let n = chars_of(needle);
    contains_chars(lowered, &n)
}

/// Whether `s` begins with `prefix`.
pub fn str_starts_with(s: &str, prefix: &str) -> (b: bool)
    ensures
        b == seq_starts_with(s@, prefix@),
{
    let h = chars_of(s);
    let p = chars_of(prefix);
    occurs_at_exec(&h, &p, 0)
}

/// Whether `s` ends with `suffix`.
pub fn str_ends_with(s: &str, suffix: &str) -> (b: bool)
    ensures
        b == seq_ends_with(s@, suffix@),
{
    let h = chars_of(s);
    let p = chars_of(suffix);
    if p.len() > h.len() {
        return false;
    }
    occurs_at_exec(&h, &p, h.len() - p.len())
}

/// Whether two character vectors are equal.
pub fn chars_eq(a: &Vec<char>, b: &Vec<char>) -> (r: bool)
    ensures
        r == (a@ == b@),
{
    if a.len() != b.len() {
        return false;
    }
    let mut i: usize = 0;
    while i < a.len()
        invariant
            a.len() == b.len(),
            i <= a.len(),
            forall|k: int| 0 <= k < i ==> a@[k] == b@[k],
        decreases a.len() - i,
    {
        if a[i] != b[i] {
            return false;
        }
        i = i + 1;
    }
    assert(a@ =~= b@);
    true
}

/// Whether two texts are equal.
pub fn str_eq(a: &str, b: &str) -> (r: bool)
    ensures
        r == (a@ == b@),
{
    let x = chars_of(a);
    let y = chars_of(b);
    chars_eq(&x, &y)
}

/// `v` with every occurrence of `c` removed.
pub fn remove_char_exec(v: &Vec<char>, c: char) -> (r: Vec<char>)
    ensures
        r@ == remove_char(v@, c),
{
    let mut r: Vec<char> = Vec::new();
    let mut i: usize = 0;
    while i < v.len()
        invariant
            i <= v.len(),
            r@ == remove_char(v@.subrange(0, i as int), c),
        decreases v.len() - i,
    {
        let ghost prefix = v@.subrange(0, (i + 1) as int);
        assert(prefix.drop_last() == v@.subrange(0, i as int));
        if v[i] != c {
            r.push(v[i]);
        }
        i = i + 1;
    }
    assert(v@.subrange(0, v@.len() as int) == v@);
    r
}

/// The number that a string of decimal digits denotes.
pub open spec fn dec_value(s: Seq<char>) -> nat
    decreases s.len(),
{
    if s.len() == 0 {
        0
    } else {
        dec_value(s.drop_last()) * 10 + ((s.last() as int - 48) as nat)
    }
}

/// The number that a string of hexadecimal digits denotes.
pub open spec fn hex_value(s: Seq<char>) -> nat
    decreases s.len(),
{
    if s.len() == 0 {
        0
    } else {
        let c = s.last() as int;
        hex_value(s.drop_last()) * 16 + ((if c <= 57 {
            c - 48
        } else {
            c - 87
        }) as nat)
    }
}

/// Decimal rendering is exact: it is made of the digits `0`-`9` only, has
/// no leading zero (but for zero itself), and its digits read back as the
/// value rendered.
pub proof fn lemma_dec_round_trip(v: nat)
    ensures
        dec_seq(v).len() >= 1,
        forall|i: int| 0 <= i < dec_seq(v).len() ==> '0' <= #[trigger] dec_seq(v)[i] <= '9',
        v > 0 ==> dec_seq(v)[0] != '0',
        dec_value(dec_seq(v)) == v,
    decreases v,
{
    let s = dec_seq(v);
    if v < 10 {
        assert(s == seq![dec_digit(v as int)]);
        assert(s.drop_last() =~= Seq::<char>::empty());
        assert(dec_digit(v as int) as int == v + 48);
        assert(dec_value(s) == dec_value(s.drop_last()) * 10 + ((s.last() as int - 48) as nat));
        assert(dec_value(Seq::<char>::empty()) == 0);
    } else {
        let t = dec_seq(v / 10);
        lemma_dec_round_trip(v / 10);
        assert(s == t.push(dec_digit((v % 10) as int)));
        assert(s.drop_last() =~= t);
        assert(dec_digit((v % 10) as int) as int == v % 10 + 48);
        assert(dec_value(s) == dec_value(t) * 10 + v % 10);
        assert(v == (v / 10) * 10 + v % 10);
        assert(s[0] == t[0]);
        assert forall|i: int| 0 <= i < s.len() implies '0' <= #[trigger] s[i] <= '9' by {
            if i < t.len() {
                assert(s[i] == t[i]);
            }
        }
    }
}

/// Hexadecimal rendering is exact: it is made of the lower-case digits
/// `0`-`9` and `a`-`f` only, has no leading zero (but for zero itself), and
/// its digits read back as the value rendered.
pub proof fn lemma_hex_round_trip(v: nat)
    ensures
        hex_seq(v).len() >= 1,
        forall|i: int|
            0 <= i < hex_seq(v).len() ==> ('0' <= #[trigger] hex_seq(v)[i] <= '9' || 'a' <= hex_seq(v)[i] <= 'f'),
        v > 0 ==> hex_seq(v)[0] != '0',
        hex_value(hex_seq(v)) == v,
    decreases v,
{
    let s = hex_seq(v);
    if v < 16 {
        assert(s == seq![hex_digit(v as int)]);
        assert(s.drop_last() =~= Seq::<char>::empty());
        if v < 10 {
            assert(hex_digit(v as int) as int == v + 48);
        } else {
            assert(hex_digit(v as int) as int == v + 87);
        }
        assert(hex_value(s) == hex_value(s.drop_last()) * 16 + v);
        assert(hex_value(Seq::<char>::empty()) == 0);
    } else {
        let t = hex_seq(v / 16);
        lemma_hex_round_trip(v / 16);
        let d = (v % 16) as int;
        assert(s == t.push(hex_digit(d)));
        assert(s.drop_last() =~= t);
        if d < 10 {
            assert(hex_digit(d) as int == d + 48);
        } else {
            assert(hex_digit(d) as int == d + 87);
        }
        assert(hex_value(s) == hex_value(t) * 16 + d);
        assert(v == (v / 16) * 16 + v % 16);
        assert(s[0] == t[0]);
        assert forall|i: int| 0 <= i < s.len() implies ('0' <= #[trigger] s[i] <= '9' || 'a' <= s[i] <= 'f') by {
            if i < t.len() {
                assert(s[i] == t[i]);
            }
        }
    }
}

/// ASCII lower-casing keeps the length, turns each upper-case letter into
/// the lower-case letter at the same place in the alphabet, leaves every
/// other character alone, and leaves nothing more to do: lower-casing
/// twice is lower-casing once, and no upper-case letter remains.
pub proof fn lemma_lower_seq_law(s: Seq<char>)
    ensures
        lower_seq(s).len() == s.len(),
        forall|i: int|
            0 <= i < s.len() && 'A' <= s[i] <= 'Z' ==> 'a' <= #[trigger] lower_seq(s)[i] <= 'z' && lower_seq(s)[i]
                as int - ('a' as int) == s[i] as int - ('A' as int),
        forall|i: int| 0 <= i < s.len() && !('A' <= s[i] <= 'Z') ==> #[trigger] lower_seq(s)[i] == s[i],
        forall|i: int| 0 <= i < s.len() ==> !('A' <= #[trigger] lower_seq(s)[i] <= 'Z'),
        lower_seq(lower_seq(s)) == lower_seq(s),
{
    assert forall|i: int| 0 <= i < s.len() && 'A' <= s[i] <= 'Z' implies 'a' <= #[trigger] lower_seq(s)[i] <= 'z'
        && lower_seq(s)[i] as int - ('a' as int) == s[i] as int - ('A' as int) by {
        assert(lower_seq(s)[i] as int == s[i] as int + 32);
    }
    assert forall|i: int| 0 <= i < s.len() implies !('A' <= #[trigger] lower_seq(s)[i] <= 'Z') by {
        if 'A' <= s[i] <= 'Z' {
            assert(lower_seq(s)[i] as int == s[i] as int + 32);
        }
    }
    assert(lower_seq(lower_seq(s)) =~= lower_seq(s));
}

} // verus!
