//! Character-level text utilities shared by the PBN processing modules:
//! character classes, line splitting with the semantics of `str::lines`,
//! trimming, and decimal rendering and parsing of numbers.
use vstd::prelude::*;

verus! {

// ---------------------------------------------------------------------------
// Character classes
// ---------------------------------------------------------------------------

/// The characters with the Unicode White_Space property, as
/// `char::is_whitespace` and the expression engine's whitespace class
/// recognise them.
pub open spec fn is_space_char(c: char) -> bool {
    (9 <= c as u32 && c as u32 <= 13) || c == ' ' || c == '\u{85}' || c == '\u{a0}' || c
        == '\u{1680}' || (0x2000 <= c as u32 && c as u32 <= 0x200a) || c == '\u{2028}' || c
        == '\u{2029}' || c == '\u{202f}' || c == '\u{205f}' || c == '\u{3000}'
}

pub fn is_space(c: char) -> (r: bool)
    ensures
        r == is_space_char(c),
{
    let u = c as u32;
    (9 <= u && u <= 13) || c == ' ' || c == '\u{85}' || c == '\u{a0}' || c == '\u{1680}' || (0x2000
        <= u && u <= 0x200a) || c == '\u{2028}' || c == '\u{2029}' || c == '\u{202f}' || c
        == '\u{3000}' || c == '\u{205f}'
}

/// ASCII decimal digit.
pub open spec fn is_digit_char(c: char) -> bool {
    48 <= c as u32 && c as u32 <= 57
}

pub fn is_digit(c: char) -> (r: bool)
    ensures
        r == is_digit_char(c),
{
    let u = c as u32;
    48 <= u && u <= 57
}

/// Numeric value of an ASCII decimal digit.
pub open spec fn digit_val(c: char) -> int {
    c as u32 - 48
}

// ---------------------------------------------------------------------------
// Conversions between &str / String and Vec<char>
// ---------------------------------------------------------------------------

/// Relies on `String::push`: appends the given character to the end of the
/// string.
#[verifier::external_body]
fn push_char(s: &mut String, c: char)
    ensures
        final(s)@ == old(s)@.push(c),
{
    s.push(c);
}

pub fn chars_to_string(v: &Vec<char>) -> (r: String)
    ensures
        r@ == v@,
{
    let mut s = String::new();
    let mut i: usize = 0;
    while i < v.len()
        invariant
            i <= v.len(),
            s@ == v@.subrange(0, i as int),
        decreases v.len() - i,
    {
        push_char(&mut s, v[i]);
        proof {
            assert(v@.subrange(0, i + 1 as int) =~= v@.subrange(0, i as int).push(v@[i as int]));
        }
        i += 1;
    }
    proof {
        assert(v@.subrange(0, v.len() as int) =~= v@);
    }
    s
}

pub fn str_to_chars(s: &str) -> (r: Vec<char>)
    ensures
        r@ == s@,
{
    let n = s.unicode_len();
    let mut r: Vec<char> = Vec::new();
    let mut i: usize = 0;
    while i < n
        invariant
            n == s@.len(),
            i <= n,
            r@ == s@.subrange(0, i as int),
        decreases n - i,
    {
        let c = s.get_char(i);
        r.push(c);
        proof {
            assert(s@.subrange(0, i + 1 as int) =~= s@.subrange(0, i as int).push(s@[i as int]));
        }
        i += 1;
    }
    proof {
        assert(s@.subrange(0, s@.len() as int) =~= s@);
    }
    r
}

/// Appends every character of `s` to `out`.
pub fn push_str_chars(out: &mut Vec<char>, s: &str)
    ensures
        final(out)@ == old(out)@ + s@,
{
    let n = s.unicode_len();
    let mut i: usize = 0;
    while i < n
        invariant
            n == s@.len(),
            i <= n,
            out@ == old(out)@ + s@.subrange(0, i as int),
        decreases n - i,
    {
        let c = s.get_char(i);
        out.push(c);
        proof {
            assert(old(out)@ + s@.subrange(0, i + 1 as int) =~= (old(out)@ + s@.subrange(
                0,
                i as int,
            )).push(s@[i as int]));
        }
        i += 1;
    }
    proof {
        assert(s@.subrange(0, s@.len() as int) =~= s@);
    }
}

/// Appends one character to `out`, stated as a one-element sequence.
pub fn push_one_char(out: &mut Vec<char>, c: char)
    ensures
        final(out)@ == old(out)@ + seq![c],
{
    out.push(c);
    proof {
        assert(out@ =~= old(out)@ + seq![c]);
    }
}

/// Appends every character of `other` to `out`.
pub fn append_chars(out: &mut Vec<char>, other: &Vec<char>)
    ensures
        final(out)@ == old(out)@ + other@,
{
    let n = other.len();
    let mut i: usize = 0;
    while i < n
        invariant
            n == other.len(),
            i <= n,
            out@ == old(out)@ + other@.subrange(0, i as int),
        decreases n - i,
    {
        out.push(other[i]);
        proof {
            assert(old(out)@ + other@.subrange(0, i + 1 as int) =~= (old(out)@ + other@.subrange(
                0,
                i as int,
            )).push(other@[i as int]));
        }
        i += 1;
    }
    proof {
        assert(other@.subrange(0, other@.len() as int) =~= other@);
    }
}

/// Whether the characters of `v` spell exactly the string `s`.
pub fn chars_eq_str(v: &Vec<char>, s: &str) -> (r: bool)
    ensures
        r == (v@ == s@),
{
    let n = s.unicode_len();
    if v.len() != n {
        proof {
            assert(v@.len() != s@.len());
        }
        return false;
    }
    let mut i: usize = 0;
    while i < n
        invariant
            n == s@.len(),
            v@.len() == n,
            i <= n,
            forall|j: int| 0 <= j < i ==> v@[j] == s@[j],
        decreases n - i,
    {
        if v[i] != s.get_char(i) {
            return false;
        }
        i += 1;
    }
    proof {
        assert(v@ =~= s@);
    }
    true
}

/// A copy of the characters of `v` between `a` and `b`.
pub fn subrange_chars(v: &Vec<char>, a: usize, b: usize) -> (r: Vec<char>)
    requires
        a <= b <= v@.len(),
    ensures
        r@ == v@.subrange(a as int, b as int),
{
    let mut r: Vec<char> = Vec::new();
    let mut i: usize = a;
    while i < b
        invariant
            a <= i <= b <= v@.len(),
            r@ == v@.subrange(a as int, i as int),
        decreases b - i,
    {
        r.push(v[i]);
        proof {
            assert(v@.subrange(a as int, i + 1 as int) =~= v@.subrange(a as int, i as int).push(
                v@[i as int],
            ));
        }
        i += 1;
    }
    r
}

// ---------------------------------------------------------------------------
// Prefix / suffix tests over character sequences
// ---------------------------------------------------------------------------

pub open spec fn starts_with_char(s: Seq<char>, c: char) -> bool {
    s.len() > 0 && s[0] == c
}

pub open spec fn ends_with_char(s: Seq<char>, c: char) -> bool {
    s.len() > 0 && s[s.len() - 1] == c
}

pub fn chars_start_with(s: &Vec<char>, c: char) -> (r: bool)
    ensures
        r == starts_with_char(s@, c),
{
    s.len() > 0 && s[0] == c
}

pub fn chars_end_with(s: &Vec<char>, c: char) -> (r: bool)
    ensures
        r == ends_with_char(s@, c),
{
    s.len() > 0 && s[s.len() - 1] == c
}

/// Whether `p` is a prefix of `s`.
pub open spec fn has_prefix(s: Seq<char>, p: Seq<char>) -> bool {
    p.len() <= s.len() && s.subrange(0, p.len() as int) == p
}

pub fn chars_have_str_prefix(s: &Vec<char>, p: &str) -> (r: bool)
    ensures
        r == has_prefix(s@, p@),
{
    let n = p.unicode_len();
    if s.len() < n {
        return false;
    }
    let mut i: usize = 0;
    while i < n
        invariant
            n == p@.len(),
            n <= s@.len(),
            i <= n,
            forall|j: int| 0 <= j < i ==> s@[j] == p@[j],
        decreases n - i,
    {
        if s[i] != p.get_char(i) {
            proof {
                assert(s@.subrange(0, p@.len() as int)[i as int] != p@[i as int]);
            }
            return false;
        }
        i += 1;
    }
    proof {
        assert(s@.subrange(0, p@.len() as int) =~= p@);
    }
    true
}

/// Whether a string spells exactly the literal `lit`.
pub fn string_eq_lit(s: &String, lit: &str) -> (r: bool)
    ensures
        r == (s@ == lit@),
{
    let v = str_to_chars(s.as_str());
    chars_eq_str(&v, lit)
}

// ---------------------------------------------------------------------------
// Trimming
// ---------------------------------------------------------------------------

pub open spec fn trim_start_spec(s: Seq<char>) -> Seq<char>
    decreases s.len(),
{
    if s.len() == 0 {
        s
    } else if is_space_char(s[0]) {
        trim_start_spec(s.subrange(1, s.len() as int))
    } else {
        s
    }
}

pub open spec fn trim_end_spec(s: Seq<char>) -> Seq<char>
    decreases s.len(),
{
    if s.len() == 0 {
        s
    } else if is_space_char(s[s.len() - 1]) {
        trim_end_spec(s.subrange(0, s.len() - 1))
    } else {
        s
    }
}

/// The view of `str::trim`: surrounding White_Space characters dropped.
pub open spec fn trim_spec(s: Seq<char>) -> Seq<char> {
    trim_end_spec(trim_start_spec(s))
}

proof fn lemma_trim_start_at(s: Seq<char>, i: int)
    requires
        0 <= i <= s.len(),
        forall|j: int| 0 <= j < i ==> is_space_char(s[j]),
        i == s.len() || !is_space_char(s[i]),
    ensures
        trim_start_spec(s) == s.subrange(i, s.len() as int),
    decreases i,
{
    if i == 0 {
        assert(s.subrange(0, s.len() as int) =~= s);
    } else {
        let t = s.subrange(1, s.len() as int);
        lemma_trim_start_at(t, i - 1);
        assert(t.subrange(i - 1, t.len() as int) =~= s.subrange(i, s.len() as int));
    }
}

proof fn lemma_trim_end_at(s: Seq<char>, i: int)
    requires
        0 <= i <= s.len(),
        forall|j: int| i <= j < s.len() ==> is_space_char(s[j]),
        i == 0 || !is_space_char(s[i - 1]),
    ensures
        trim_end_spec(s) == s.subrange(0, i),
    decreases s.len() - i,
{
    if i == s.len() {
        assert(s.subrange(0, s.len() as int) =~= s);
    } else {
        let t = s.subrange(0, s.len() - 1);
        lemma_trim_end_at(t, i);
        assert(t.subrange(0, i) =~= s.subrange(0, i));
    }
}

/// The trimmed form of a line, as a fresh vector.
pub fn trim_chars(s: &Vec<char>) -> (r: Vec<char>)
    ensures
        r@ == trim_spec(s@),
{
    let n = s.len();
    let mut a: usize = 0;
    while a < n && is_space(s[a])
        invariant
            n == s@.len(),
            a <= n,
            forall|j: int| 0 <= j < a ==> is_space_char(s@[j]),
        decreases n - a,
    {
        a += 1;
    }
    proof {
        lemma_trim_start_at(s@, a as int);
    }
    let ghost mid = s@.subrange(a as int, n as int);
    let mut b: usize = n;
    while b > a && is_space(s[b - 1])
        invariant
            n == s@.len(),
            a <= b <= n,
            forall|j: int| b <= j < n ==> is_space_char(s@[j]),
        decreases b,
    {
        b -= 1;
    }
    proof {
        assert(forall|j: int| b - a <= j < mid.len() ==> is_space_char(mid[j]));
        lemma_trim_end_at(mid, b - a);
    }
    let mut r: Vec<char> = Vec::new();
    let mut i: usize = a;
    while i < b
        invariant
            a <= i <= b <= n,
            n == s@.len(),
            r@ == s@.subrange(a as int, i as int),
        decreases b - i,
    {
        r.push(s[i]);
        proof {
            assert(s@.subrange(a as int, i + 1 as int) =~= s@.subrange(a as int, i as int).push(
                s@[i as int],
            ));
        }
        i += 1;
    }
    proof {
        assert(mid.subrange(0, b - a) =~= s@.subrange(a as int, b as int));
    }
    r
}

// ---------------------------------------------------------------------------
// Line splitting with the semantics of `str::lines`
// ---------------------------------------------------------------------------

/// Index of the first newline at or after `from`, or the length if none.
pub open spec fn find_newline(s: Seq<char>, from: nat) -> nat
    decreases s.len() - from,
{
    if from >= s.len() {
        s.len()
    } else if s[from as int] == '\n' {
        from
    } else {
        find_newline(s, from + 1)
    }
}

proof fn lemma_find_newline_at(s: Seq<char>, from: nat, idx: nat)
    requires
        from <= idx <= s.len(),
        forall|j: int| from <= j < idx ==> s[j] != '\n',
        idx == s.len() || s[idx as int] == '\n',
    ensures
        find_newline(s, from) == idx,
    decreases idx - from,
{
    if from < idx {
        lemma_find_newline_at(s, from + 1, idx);
    }
}

/// A line terminated by a newline drops one trailing carriage return.
pub open spec fn strip_cr(line: Seq<char>) -> Seq<char> {
    if line.len() > 0 && line[line.len() - 1] == '\r' {
        line.subrange(0, line.len() - 1)
    } else {
        line
    }
}

/// The lines of a text, as `str::lines` yields them.
pub open spec fn lines_spec(s: Seq<char>) -> Seq<Seq<char>>
    decreases s.len(),
{
    if s.len() == 0 {
        Seq::empty()
    } else {
        let i = find_newline(s, 0);
        if i < s.len() {
            seq![strip_cr(s.subrange(0, i as int))] + lines_spec(
                s.subrange(i + 1 as int, s.len() as int),
            )
        } else {
            seq![s]
        }
    }
}

pub fn split_lines(text: &Vec<char>) -> (r: Vec<Vec<char>>)
    ensures
        r.deep_view() == lines_spec(text@),
{
    let n = text.len();
    let mut r: Vec<Vec<char>> = Vec::new();
    let mut i: usize = 0;
    proof {
        assert(text@.subrange(0, n as int) =~= text@);
        assert(r.deep_view() =~= Seq::<Seq<char>>::empty());
    }
    while i < n
        invariant
            n == text@.len(),
            i <= n,
            lines_spec(text@) == r.deep_view() + lines_spec(text@.subrange(i as int, n as int)),
        decreases n - i,
    {
        let ghost rest = text@.subrange(i as int, n as int);
        let mut j: usize = i;
        while j < n && text[j] != '\n'
            invariant
                n == text@.len(),
                i <= j <= n,
                forall|k: int| i <= k < j ==> text@[k] != '\n',
            decreases n - j,
        {
            j += 1;
        }
        proof {
            assert(forall|k: int| 0 <= k < j - i ==> rest[k] == text@[i + k] && rest[k] != '\n');
            lemma_find_newline_at(rest, 0, (j - i) as nat);
        }
        // collect the line text[i..j], stripping one trailing '\r' when a
        // newline terminated it
        let mut end: usize = j;
        if j < n {
            if end > i && text[end - 1] == '\r' {
                end -= 1;
            }
        }
        let mut line: Vec<char> = Vec::new();
        let mut k: usize = i;
        while k < end
            invariant
                i <= k <= end <= n,
                n == text@.len(),
                line@ == text@.subrange(i as int, k as int),
            decreases end - k,
        {
            line.push(text[k]);
            proof {
                assert(text@.subrange(i as int, k + 1 as int) =~= text@.subrange(
                    i as int,
                    k as int,
                ).push(text@[k as int]));
            }
            k += 1;
        }
        let ghost old_dv = r.deep_view();
        let ghost lv = line@;
        proof {
            assert(line.deep_view() =~= lv);
        }
        proof {
            let full = rest.subrange(0, (j - i) as int);
            assert(full =~= text@.subrange(i as int, j as int));
            if j < n {
                assert(strip_cr(full) =~= text@.subrange(i as int, end as int));
                assert(rest.subrange((j - i + 1) as int, rest.len() as int) =~= text@.subrange(
                    j + 1 as int,
                    n as int,
                ));
                assert(lines_spec(rest) == seq![line@] + lines_spec(
                    text@.subrange(j + 1 as int, n as int),
                ));
            } else {
                assert(full =~= rest);
                assert(line@ =~= rest);
                assert(lines_spec(rest) == seq![line@]);
            }
        }
        r.push(line);
        if j < n {
            i = j + 1;
        } else {
            i = n;
        }
        proof {
            assert(r.deep_view() =~= old_dv + seq![lv]);
            if j < n {
            } else {
                assert(text@.subrange(i as int, n as int) =~= Seq::<char>::empty());
                assert(lines_spec(text@.subrange(i as int, n as int)) == Seq::<Seq<char>>::empty());
            }
            assert(r.deep_view() + lines_spec(text@.subrange(i as int, n as int)) =~= old_dv
                + lines_spec(rest));
        }
    }
    proof {
        assert(text@.subrange(n as int, n as int) =~= Seq::<char>::empty());
        assert(r.deep_view() =~= r.deep_view() + lines_spec(Seq::<char>::empty()));
    }
    r
}

// ---------------------------------------------------------------------------
// Decimal numbers
// ---------------------------------------------------------------------------

/// Value of a sequence of decimal digits, most significant first.
pub open spec fn digits_val(s: Seq<char>) -> int
    decreases s.len(),
{
    if s.len() == 0 {
        0
    } else {
        digits_val(s.subrange(0, s.len() - 1)) * 10 + digit_val(s[s.len() - 1])
    }
}

pub open spec fn all_digits(s: Seq<char>) -> bool {
    forall|j: int| 0 <= j < s.len() ==> is_digit_char(s[j])
}

/// The digit part of a decimal token: `u32::from_str` accepts one leading
/// `+` sign.
pub open spec fn digits_part(s: Seq<char>) -> Seq<char> {
    if s.len() > 0 && s[0] == '+' {
        s.subrange(1, s.len() as int)
    } else {
        s
    }
}

/// The view of `str::parse::<u32>`.
pub open spec fn parse_u32_spec(s: Seq<char>) -> Option<u32> {
    let d = digits_part(s);
    if d.len() > 0 && all_digits(d) && digits_val(d) <= u32::MAX {
        Some(digits_val(d) as u32)
    } else {
        None
    }
}

proof fn lemma_digits_val_nonneg(s: Seq<char>)
    requires
        all_digits(s),
    ensures
        digits_val(s) >= 0,
    decreases s.len(),
{
    if s.len() > 0 {
        let p = s.subrange(0, s.len() - 1);
        assert(all_digits(p));
        lemma_digits_val_nonneg(p);
    }
}

proof fn lemma_digits_val_step(s: Seq<char>, i: int)
    requires
        0 <= i < s.len(),
    ensures
        digits_val(s.subrange(0, i + 1)) == digits_val(s.subrange(0, i)) * 10 + digit_val(s[i]),
{
    let t = s.subrange(0, i + 1);
    assert(t.subrange(0, t.len() - 1) =~= s.subrange(0, i));
}

proof fn lemma_digits_val_prefix_le(s: Seq<char>, i: int)
    requires
        0 <= i <= s.len(),
        all_digits(s),
    ensures
        digits_val(s.subrange(0, i)) <= digits_val(s),
    decreases s.len() - i,
{
    if i < s.len() {
        lemma_digits_val_prefix_le(s, i + 1);
        lemma_digits_val_step(s, i);
        let p = s.subrange(0, i);
        assert(all_digits(p));
        lemma_digits_val_nonneg(p);
        assert(digits_val(p) * 10 >= digits_val(p));
    } else {
        assert(s.subrange(0, s.len() as int) =~= s);
    }
}

/// Parses a decimal `u32` with the exact acceptance of `str::parse::<u32>`.
pub fn parse_u32_chars(s: &Vec<char>) -> (r: Option<u32>)
    ensures
        r == parse_u32_spec(s@),
{
    let ghost d = digits_part(s@);
    let start: usize = if s.len() > 0 && s[0] == '+' {
        1
    } else {
        0
    };
    proof {
        assert(d =~= s@.subrange(start as int, s@.len() as int));
    }
    if s.len() == start {
        proof {
            assert(d.len() == 0);
        }
        return None;
    }
    proof {
        assert(digits_val(d.subrange(0, 0)) == 0);
    }
    let mut acc: u32 = 0;
    let mut i: usize = start;
    while i < s.len()
        invariant
            start <= i <= s@.len(),
            d == digits_part(s@),
            d == s@.subrange(start as int, s@.len() as int),
            forall|j: int| start <= j < i ==> is_digit_char(s@[j]),
            acc == digits_val(d.subrange(0, (i - start) as int)),
        decreases s@.len() - i,
    {
        let c = s[i];
        if !is_digit(c) {
            proof {
                assert(d[(i - start) as int] == c);
                assert(!all_digits(d));
            }
            return None;
        }
        proof {
            assert(is_digit_char(c));
        }
        let dv: u32 = (c as u32) - 48;
        proof {
            lemma_digits_val_step(d, (i - start) as int);
            assert(digit_val(c) == dv);
        }
        if acc > (u32::MAX - dv) / 10 {
            // the value of the digits read so far already exceeds u32::MAX
            proof {
                let k = (i - start + 1) as int;
                let t = ((u32::MAX - dv) / 10) as int;
                assert(u32::MAX - dv == t * 10 + ((u32::MAX - dv) % 10) as int);
                assert((u32::MAX - dv) % 10 < 10);
                assert(acc >= t + 1);
                assert(acc * 10 >= t * 10 + 10);
                assert(acc * 10 + dv > u32::MAX);
                assert(digits_val(d.subrange(0, k)) > u32::MAX);
                if all_digits(d) && digits_val(d) <= u32::MAX {
                    lemma_digits_val_prefix_le(d, k);
                    assert(false);
                }
            }
            return None;
        }
        acc = acc * 10 + dv;
        i += 1;
    }
    proof {
        assert(d.subrange(0, d.len() as int) =~= d);
        assert(all_digits(d));
    }
    Some(acc)
}

/// One decimal digit as a character.
pub open spec fn digit_char(d: int) -> char {
    if d == 0 {
        '0'
    } else if d == 1 {
        '1'
    } else if d == 2 {
        '2'
    } else if d == 3 {
        '3'
    } else if d == 4 {
        '4'
    } else if d == 5 {
        '5'
    } else if d == 6 {
        '6'
    } else if d == 7 {
        '7'
    } else if d == 8 {
        '8'
    } else {
        '9'
    }
}

/// Decimal rendering of a nonnegative integer, as `{}` formatting writes it.
pub open spec fn dec_spec(n: int) -> Seq<char>
    decreases n,
{
    if n < 10 {
        seq![digit_char(n)]
    } else {
        dec_spec(n / 10).push(digit_char(n % 10))
    }
}

fn digit_to_char(d: u64) -> (c: char)
    requires
        d < 10,
    ensures
        c == digit_char(d as int),
{
    if d == 0 {
        '0'
    } else if d == 1 {
        '1'
    } else if d == 2 {
        '2'
    } else if d == 3 {
        '3'
    } else if d == 4 {
        '4'
    } else if d == 5 {
        '5'
    } else if d == 6 {
        '6'
    } else if d == 7 {
        '7'
    } else if d == 8 {
        '8'
    } else {
        '9'
    }
}

/// Appends the decimal rendering of `n` to `out`.
pub fn push_dec_u64(out: &mut Vec<char>, n: u64)
    ensures
        final(out)@ == old(out)@ + dec_spec(n as int),
{
    let mut rev: Vec<char> = Vec::new();
    let mut m: u64 = n;
    loop
        invariant_except_break
            dec_spec(n as int) == dec_spec(m as int) + rev@.reverse(),
        ensures
            dec_spec(n as int) == rev@.reverse(),
        decreases m,
    {
        let d = m % 10;
        let q = m / 10;
        let c = digit_to_char(d);
        if q == 0 {
            proof {
                assert(dec_spec(m as int) == seq![digit_char(d as int)]);
                assert(dec_spec(m as int) + rev@.reverse() =~= (rev@.push(c)).reverse());
            }
            rev.push(c);
            break ;
        }
        proof {
            assert(dec_spec(m as int) == dec_spec(q as int).push(digit_char(d as int)));
            assert(dec_spec(q as int).push(c) + rev@.reverse() =~= dec_spec(q as int) + (rev@.push(
                c,
            )).reverse());
        }
        rev.push(c);
        m = q;
    }
    let mut i: usize = rev.len();
    while i > 0
        invariant
            i <= rev@.len(),
            out@ == old(out)@ + rev@.subrange(i as int, rev@.len() as int).reverse(),
        decreases i,
    {
        i -= 1;
        out.push(rev[i]);
        proof {
            assert(rev@.subrange(i as int, rev@.len() as int).reverse() =~= rev@.subrange(
                i + 1 as int,
                rev@.len() as int,
            ).reverse().push(rev@[i as int]));
        }
    }
    proof {
        assert(rev@.subrange(0, rev@.len() as int) =~= rev@);
    }
}

} // verus!
