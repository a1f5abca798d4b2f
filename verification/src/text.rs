//! Characters, decimal numerals and surrounding whitespace.
//!
//! Everything here is stated over `Seq<char>`, the view of a string, so that
//! the parsers built on it can be specified without reference to bytes.

use vstd::prelude::*;

verus! {

/// `String::push` appends one character to the end of the string.
pub assume_specification[ String::push ](s: &mut String, c: char)
    ensures
        final(s)@ == old(s)@.push(c),
;

/// Whether `c` is one of the ASCII digits `0` to `9`.
pub open spec fn is_digit(c: char) -> bool {
    '0' <= c && c <= '9'
}

/// The number an ASCII digit stands for.
pub open spec fn digit_value(c: char) -> nat
    recommends
        is_digit(c),
{
    (c as nat - '0' as nat) as nat
}

/// The ASCII digit that stands for `d`.
pub open spec fn digit_char(d: nat) -> char
    recommends
        d <= 9,
{
    (d + 48) as u8 as char
}

/// Whether every character of `s` is an ASCII digit.
pub open spec fn all_digits(s: Seq<char>) -> bool {
    forall|i: int| 0 <= i < s.len() ==> is_digit(#[trigger] s[i])
}

/// The number that a string of digits denotes in base ten; the empty string
/// denotes zero.
pub open spec fn decimal_value(s: Seq<char>) -> nat
    decreases s.len(),
{
    if s.len() == 0 {
        0
    } else {
        decimal_value(s.drop_last()) * 10 + digit_value(s.last())
    }
}

/// The shortest decimal numeral for `n`: no sign and no leading zero, `"0"`
/// for zero.
pub open spec fn decimal_text(n: nat) -> Seq<char>
    decreases n,
{
    if n < 10 {
        seq![digit_char(n)]
    } else {
        decimal_text(n / 10).push(digit_char(n % 10))
    }
}

/// Whether `s` is a shortest decimal numeral: one digit, or several of which
/// the first is not `0`.
pub open spec fn is_canonical_numeral(s: Seq<char>) -> bool {
    &&& s.len() >= 1
    &&& all_digits(s)
    &&& s.len() > 1 ==> s[0] != '0'
}

/// The end of the run of digits that begins at `start`: the first index from
/// `start` on that holds no digit, or the length of `s`.
pub open spec fn digit_run_end(s: Seq<char>, start: int) -> int
    decreases s.len() - start,
{
    if 0 <= start < s.len() && is_digit(s[start]) {
        digit_run_end(s, start + 1)
    } else {
        start
    }
}

/// Reads an ASCII digit: its value, or `None` for any other character.
pub fn digit_of(c: char) -> (r: Option<u8>)
    ensures
        r is Some <==> is_digit(c),
        r matches Some(d) ==> d as nat == digit_value(c) && d <= 9,
{
    if '0' <= c && c <= '9' {
        Some((c as u32 - '0' as u32) as u8)
    } else {
        None
    }
}

/// The digit that stands for `d`.
pub fn char_of_digit(d: u8) -> (c: char)
    requires
        d <= 9,
    ensures
        c == digit_char(d as nat),
        is_digit(c),
        digit_value(c) == d,
{
    (d + 48) as char
}

/// A digit's character and its value determine each other.
pub proof fn lemma_digit_char(d: nat)
    requires
        d <= 9,
    ensures
        is_digit(digit_char(d)),
        digit_value(digit_char(d)) == d,
        d == 0 <==> digit_char(d) == '0',
{
}

/// Appending one digit multiplies the value by ten and adds the digit.
pub proof fn lemma_decimal_value_push(s: Seq<char>, c: char)
    ensures
        decimal_value(s.push(c)) == decimal_value(s) * 10 + digit_value(c),
{
    assert(s.push(c).drop_last() =~= s);
}

/// The numeral of `n` is canonical and denotes `n`.
pub proof fn lemma_decimal_text(n: nat)
    ensures
        is_canonical_numeral(decimal_text(n)),
        decimal_value(decimal_text(n)) == n,
    decreases n,
{
    if n < 10 {
        lemma_digit_char(n);
        let t = decimal_text(n);
        assert(t.drop_last() =~= Seq::<char>::empty());
        assert(decimal_value(t.drop_last()) == 0);
    } else {
        lemma_decimal_text(n / 10);
        lemma_digit_char(n % 10);
        let head = decimal_text(n / 10);
        lemma_decimal_value_push(head, digit_char(n % 10));
        let t = decimal_text(n);
        assert(t[0] == head[0]);
        if n / 10 < 10 {
            lemma_digit_char(n / 10);
        } else {
            lemma_decimal_text(n / 10 / 10);
        }
    }
}

/// A canonical numeral is the numeral of the number it denotes.
pub proof fn lemma_canonical_numeral(s: Seq<char>)
    requires
        is_canonical_numeral(s),
    ensures
        decimal_text(decimal_value(s)) == s,
    decreases s.len(),
{
    let last = s.last();
    let d = digit_value(last);
    assert(is_digit(last));
    assert(digit_char(d) == last);
    if s.len() == 1 {
        assert(s.drop_last() =~= Seq::<char>::empty());
        assert(decimal_value(s.drop_last()) == 0);
        assert(decimal_value(s) == d);
        assert(s =~= seq![last]);
    } else {
        let head = s.drop_last();
        assert(head[0] == s[0]);
        lemma_canonical_numeral(head);
        let v = decimal_value(head);
        lemma_positive_value(head);
        assert(decimal_value(s) == v * 10 + d);
        assert((v * 10 + d) / 10 == v && (v * 10 + d) % 10 == d);
        assert(s =~= head.push(last));
    }
}

/// A string of digits that does not start with `0` denotes a positive number.
pub proof fn lemma_positive_value(s: Seq<char>)
    requires
        s.len() >= 1,
        all_digits(s),
        s[0] != '0',
    ensures
        decimal_value(s) >= 1,
    decreases s.len(),
{
    if s.len() == 1 {
        assert(s.drop_last() =~= Seq::<char>::empty());
        assert(is_digit(s[0]));
    } else {
        let head = s.drop_last();
        assert(head[0] == s[0]);
        lemma_positive_value(head);
    }
}

/// Where a run of digits ends: at `end`, if all of `start..end` are digits
/// and `end` holds none.
pub proof fn lemma_digit_run(s: Seq<char>, start: int, end: int)
    requires
        0 <= start <= end <= s.len(),
        forall|i: int| start <= i < end ==> is_digit(#[trigger] s[i]),
        end == s.len() || !is_digit(s[end]),
    ensures
        digit_run_end(s, start) == end,
    decreases end - start,
{
    if start < end {
        assert(is_digit(s[start]));
        lemma_digit_run(s, start + 1, end);
    }
}

/// A run of digits holds digits only, and stops at the first other character.
pub proof fn lemma_digit_run_end(s: Seq<char>, start: int)
    requires
        0 <= start <= s.len(),
    ensures
        start <= digit_run_end(s, start) <= s.len(),
        forall|i: int| start <= i < digit_run_end(s, start) ==> is_digit(#[trigger] s[i]),
        digit_run_end(s, start) == s.len() || !is_digit(s[digit_run_end(s, start)]),
    decreases s.len() - start,
{
    if start < s.len() && is_digit(s[start]) {
        lemma_digit_run_end(s, start + 1);
    }
}

/// Whether `c` is whitespace as Unicode defines it (`White_Space`).
pub open spec fn is_whitespace(c: char) -> bool {
    let n = c as u32;
    ||| 0x09 <= n <= 0x0D
    ||| n == 0x20
    ||| n == 0x85
    ||| n == 0xA0
    ||| n == 0x1680
    ||| 0x2000 <= n <= 0x200A
    ||| n == 0x2028
    ||| n == 0x2029
    ||| n == 0x202F
    ||| n == 0x205F
    ||| n == 0x3000
}

/// How many whitespace characters `s` begins with.
pub open spec fn leading_whitespace(s: Seq<char>) -> nat
    decreases s.len(),
{
    if s.len() > 0 && is_whitespace(s.first()) {
        1 + leading_whitespace(s.drop_first())
    } else {
        0
    }
}

/// How many whitespace characters `s` ends with.
pub open spec fn trailing_whitespace(s: Seq<char>) -> nat
    decreases s.len(),
{
    if s.len() > 0 && is_whitespace(s.last()) {
        1 + trailing_whitespace(s.drop_last())
    } else {
        0
    }
}

/// `s` without the whitespace it begins and ends with.
pub open spec fn trimmed(s: Seq<char>) -> Seq<char> {
    let rest = s.skip(leading_whitespace(s) as int);
    rest.take(rest.len() - trailing_whitespace(rest))
}

/// Whether `c` is whitespace as Unicode defines it (`White_Space`).
pub fn is_space(c: char) -> (b: bool)
    ensures
        b == is_whitespace(c),
{
    let n: u32 = c as u32;
    (0x09 <= n && n <= 0x0D) || n == 0x20 || n == 0x85 || n == 0xA0 || n == 0x1680 || (0x2000 <= n
        && n <= 0x200A) || n == 0x2028 || n == 0x2029 || n == 0x202F || n == 0x205F || n == 0x3000
}

/// `s` begins with exactly `n` whitespace characters if its first `n`
/// characters are whitespace and the next one, if any, is not.
pub proof fn lemma_leading_whitespace(s: Seq<char>, n: int)
    requires
        0 <= n <= s.len(),
        forall|k: int| 0 <= k < n ==> is_whitespace(#[trigger] s[k]),
        n == s.len() || !is_whitespace(s[n]),
    ensures
        leading_whitespace(s) == n,
    decreases n,
{
    if n > 0 {
        let rest = s.drop_first();
        assert(is_whitespace(s[0]));
        assert forall|k: int| 0 <= k < n - 1 implies is_whitespace(#[trigger] rest[k]) by {
            assert(rest[k] == s[k + 1]);
        }
        lemma_leading_whitespace(rest, n - 1);
    }
}

/// `s` ends with exactly `n` whitespace characters if its last `n`
/// characters are whitespace and the one before them, if any, is not.
pub proof fn lemma_trailing_whitespace(s: Seq<char>, n: int)
    requires
        0 <= n <= s.len(),
        forall|k: int| s.len() - n <= k < s.len() ==> is_whitespace(#[trigger] s[k]),
        n == s.len() || !is_whitespace(s[s.len() - n - 1]),
    ensures
        trailing_whitespace(s) == n,
    decreases n,
{
    if n > 0 {
        let rest = s.drop_last();
        assert(is_whitespace(s[s.len() - 1]));
        assert forall|k: int| rest.len() - (n - 1) <= k < rest.len() implies is_whitespace(
            #[trigger] rest[k],
        ) by {
            assert(rest[k] == s[k]);
        }
        lemma_trailing_whitespace(rest, n - 1);
    }
}

/// What trimming leaves: a stretch of `s` with only whitespace before and
/// after it, which neither begins nor ends with whitespace.
pub proof fn lemma_trimmed(s: Seq<char>)
    ensures
        ({
            let a = leading_whitespace(s) as int;
            let b = a + trimmed(s).len();
            &&& 0 <= a <= b <= s.len()
            &&& trimmed(s) == s.subrange(a, b)
            &&& forall|k: int| 0 <= k < a ==> is_whitespace(#[trigger] s[k])
            &&& forall|k: int| b <= k < s.len() ==> is_whitespace(#[trigger] s[k])
            &&& trimmed(s).len() > 0 ==> !is_whitespace(trimmed(s).first()) && !is_whitespace(
                trimmed(s).last(),
            )
        }),
{
    lemma_leading_bounds(s);
    let a = leading_whitespace(s) as int;
    let rest = s.skip(a);
    lemma_trailing_bounds(rest);
    let m = trailing_whitespace(rest) as int;
    let b = a + trimmed(s).len();
    assert(trimmed(s) =~= s.subrange(a, b));
    assert forall|k: int| b <= k < s.len() implies is_whitespace(#[trigger] s[k]) by {
        assert(rest[k - a] == s[k]);
    }
    if trimmed(s).len() > 0 {
        assert(trimmed(s).first() == s[a]);
        assert(trimmed(s).last() == rest[rest.len() - m - 1]);
    }
}

/// The leading whitespace of `s` is whitespace, and ends at a character that
/// is none.
pub proof fn lemma_leading_bounds(s: Seq<char>)
    ensures
        leading_whitespace(s) <= s.len(),
        forall|k: int| 0 <= k < leading_whitespace(s) ==> is_whitespace(#[trigger] s[k]),
        leading_whitespace(s) == s.len() || !is_whitespace(s[leading_whitespace(s) as int]),
    decreases s.len(),
{
    if s.len() > 0 && is_whitespace(s.first()) {
        let rest = s.drop_first();
        lemma_leading_bounds(rest);
        assert forall|k: int| 0 <= k < leading_whitespace(s) implies is_whitespace(
            #[trigger] s[k],
        ) by {
            if k > 0 {
                assert(rest[k - 1] == s[k]);
            }
        }
        if leading_whitespace(s) < s.len() {
            assert(rest[leading_whitespace(rest) as int] == s[leading_whitespace(s) as int]);
        }
    }
}

/// The trailing whitespace of `s` is whitespace, and begins after a character
/// that is none.
pub proof fn lemma_trailing_bounds(s: Seq<char>)
    ensures
        trailing_whitespace(s) <= s.len(),
        forall|k: int|
            s.len() - trailing_whitespace(s) <= k < s.len() ==> is_whitespace(#[trigger] s[k]),
        trailing_whitespace(s) == s.len() || !is_whitespace(
            s[s.len() - trailing_whitespace(s) - 1],
        ),
    decreases s.len(),
{
    if s.len() > 0 && is_whitespace(s.last()) {
        let rest = s.drop_last();
        lemma_trailing_bounds(rest);
        assert forall|k: int|
            s.len() - trailing_whitespace(s) <= k < s.len() implies is_whitespace(
            #[trigger] s[k],
        ) by {
            if k < s.len() - 1 {
                assert(rest[k] == s[k]);
            }
        }
        if trailing_whitespace(s) < s.len() {
            assert(rest[rest.len() - trailing_whitespace(rest) - 1] == s[s.len()
                - trailing_whitespace(s) - 1]);
        }
    }
}

/// A numeral holds no whitespace, so trimming leaves it as it is.
pub proof fn lemma_trimmed_numeral(n: nat)
    ensures
        trimmed(decimal_text(n)) == decimal_text(n),
{
    let t = decimal_text(n);
    lemma_decimal_text(n);
    assert(is_digit(t[0]));
    assert(is_digit(t[t.len() - 1]));
    lemma_leading_whitespace(t, 0);
    assert(t.skip(0) =~= t);
    lemma_trailing_whitespace(t, 0);
    assert(t.take(t.len() as int) =~= t);
}

/// Whitespace around a string that neither begins nor ends with whitespace
/// is what trimming removes.
pub proof fn lemma_trimmed_padding(before: Seq<char>, core: Seq<char>, after: Seq<char>)
    requires
        forall|i: int| 0 <= i < before.len() ==> is_whitespace(#[trigger] before[i]),
        forall|i: int| 0 <= i < after.len() ==> is_whitespace(#[trigger] after[i]),
        core.len() > 0,
        !is_whitespace(core.first()),
        !is_whitespace(core.last()),
    ensures
        trimmed(before + core + after) == core,
{
    let s = before + core + after;
    let a = before.len() as int;
    assert forall|k: int| 0 <= k < a implies is_whitespace(#[trigger] s[k]) by {
        assert(s[k] == before[k]);
    }
    assert(s[a] == core[0]);
    lemma_leading_whitespace(s, a);
    let rest = s.skip(a);
    assert(rest =~= core + after);
    assert forall|k: int| rest.len() - after.len() <= k < rest.len() implies is_whitespace(
        #[trigger] rest[k],
    ) by {
        assert(rest[k] == after[k - core.len()]);
    }
    assert(rest[rest.len() - after.len() - 1] == core[core.len() - 1]);
    lemma_trailing_whitespace(rest, after.len() as int);
    assert(rest.take(rest.len() - after.len()) =~= core);
}

/// The characters of `s`, in order.
pub fn chars_of(s: &str) -> (v: Vec<char>)
    ensures
        v@ == s@,
{
    let mut v: Vec<char> = Vec::new();
    for c in it: s.chars()
        invariant
            v@ == it.seq().take(it.index() as int),
            it.seq() == s@,
    {
        v.push(c);
    }
    v
}

/// Reads the run of digits that begins at `start`. Returns where it ends and
/// the number it denotes, or `None` for the number where that exceeds
/// `limit`. An empty run denotes zero.
pub fn scan_number(chars: &[char], start: usize, limit: u32) -> (r: (usize, Option<u32>))
    requires
        start <= chars@.len(),
        limit <= 0x0FFF_FFFF,
    ensures
        r.0 == digit_run_end(chars@, start as int),
        start <= r.0 <= chars@.len(),
        match r.1 {
            Some(v) => v == decimal_value(chars@.subrange(start as int, r.0 as int)) && v <= limit,
            None => decimal_value(chars@.subrange(start as int, r.0 as int)) > limit,
        },
{
    let mut i: usize = start;
    let mut value: u32 = 0;
    let mut fits: bool = true;
    proof {
        assert(chars@.subrange(start as int, start as int) =~= Seq::<char>::empty());
    }
    while i < chars.len()
        invariant
            start <= i <= chars@.len(),
            limit <= 0x0FFF_FFFF,
            forall|k: int| start <= k < i ==> is_digit(#[trigger] chars@[k]),
            fits ==> value == decimal_value(chars@.subrange(start as int, i as int)) && value
                <= limit,
            !fits ==> decimal_value(chars@.subrange(start as int, i as int)) > limit,
        ensures
            start <= i <= chars@.len(),
            forall|k: int| start <= k < i ==> is_digit(#[trigger] chars@[k]),
            i == chars@.len() || !is_digit(chars@[i as int]),
            fits ==> value == decimal_value(chars@.subrange(start as int, i as int)) && value
                <= limit,
            !fits ==> decimal_value(chars@.subrange(start as int, i as int)) > limit,
        decreases chars@.len() - i,
    {
        let digit = digit_of(chars[i]);
        match digit {
            None => {
                break ;
            },
            Some(d) => {
                proof {
                    let before = chars@.subrange(start as int, i as int);
                    let after = chars@.subrange(start as int, i + 1);
                    assert(after =~= before.push(chars@[i as int]));
                    lemma_decimal_value_push(before, chars@[i as int]);
                }
                if fits {
                    let next: u32 = value * 10 + d as u32;
                    if next <= limit {
                        value = next;
                    } else {
                        fits = false;
                    }
                }
                i = i + 1;
            },
        }
    }
    proof {
        lemma_digit_run(chars@, start as int, i as int);
    }
    if fits {
        (i, Some(value))
    } else {
        (i, None)
    }
}

/// Appends the shortest decimal numeral of `n` to `out`.
pub fn push_decimal(out: &mut String, n: u16)
    ensures
        final(out)@ == old(out)@ + decimal_text(n as nat),
    decreases n,
{
    if n >= 10 {
        push_decimal(out, n / 10);
    }
    out.push(char_of_digit((n % 10) as u8));
    proof {
        let last = digit_char((n % 10) as nat);
        if n >= 10 {
            assert(old(out)@ + decimal_text(n as nat) =~= (old(out)@ + decimal_text(
                (n / 10) as nat,
            )).push(last));
        } else {
            assert(old(out)@ + decimal_text(n as nat) =~= old(out)@.push(last));
        }
    }
}

/// Whether `a` and `b` hold the same characters.
pub fn same_text(a: &str, b: &str) -> (r: bool)
    ensures
        r == (a@ == b@),
{
    let x = chars_of(a);
    let y = chars_of(b);
    if x.len() != y.len() {
        return false;
    }
    let n: usize = x.len();
    let mut i: usize = 0;
    while i < n
        invariant
            n == x@.len(),
            n == y@.len(),
            i <= n,
            x@ == a@,
            y@ == b@,
            forall|k: int| 0 <= k < i ==> x@[k] == y@[k],
        decreases n - i,
    {
        if x[i] != y[i] {
            proof {
                assert(a@[i as int] != b@[i as int]);
            }
            return false;
        }
        i = i + 1;
    }
    proof {
        assert(x@ =~= y@);
    }
    true
}

/// `s` without the whitespace around it.
pub fn trim(s: &str) -> (r: &str)
    ensures
        r@ == trimmed(s@),
{
    let chars = chars_of(s);
    let n: usize = chars.len();
    let mut i: usize = 0;
    while i < n && is_space(chars[i])
        invariant
            n == chars@.len(),
            i <= n,
            forall|k: int| 0 <= k < i ==> is_whitespace(#[trigger] chars@[k]),
        decreases n - i,
    {
        i = i + 1;
    }
    let mut j: usize = n;
    while j > i && is_space(chars[j - 1])
        invariant
            n == chars@.len(),
            i <= j <= n,
            forall|k: int| j <= k < n ==> is_whitespace(#[trigger] chars@[k]),
        decreases j,
    {
        j = j - 1;
    }
    proof {
        let rest = chars@.skip(i as int);
        lemma_leading_whitespace(chars@, i as int);
        assert forall|k: int| rest.len() - (n - j) <= k < rest.len() implies is_whitespace(
            #[trigger] rest[k],
        ) by {
            assert(rest[k] == chars@[k + i]);
        }
        if j > i {
            assert(rest[rest.len() - (n - j) - 1] == chars@[j - 1]);
        } else if i < n {
            assert(rest[0] == chars@[i as int]);
        }
        lemma_trailing_whitespace(rest, n - j);
        assert(chars@.subrange(i as int, j as int) =~= trimmed(chars@));
    }
    s.substring_char(i, j)
}

} // verus!
