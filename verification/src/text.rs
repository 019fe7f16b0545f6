//! Character-level text helpers shared by the command line and the parsers.

use vstd::prelude::*;

verus! {

/// The number of bytes `c` takes in UTF-8.
pub open spec fn utf8_len(c: char) -> int {
    if (c as u32) < 0x80 {
        1
    } else if (c as u32) < 0x800 {
        2
    } else if (c as u32) < 0x10000 {
        3
    } else {
        4
    }
}

pub fn char_utf8_len(c: char) -> (n: usize)
    ensures
        n == utf8_len(c),
{
    let v = c as u32;
    if v < 0x80 {
        1
    } else if v < 0x800 {
        2
    } else if v < 0x10000 {
        3
    } else {
        4
    }
}

/// Whether `c` has the Unicode White_Space property, as `char::is_whitespace` documents.
pub open spec fn spec_is_whitespace(c: char) -> bool {
    let v = c as u32;
    ||| 0x09 <= v <= 0x0D
    ||| v == 0x20
    ||| v == 0x85
    ||| v == 0xA0
    ||| v == 0x1680
    ||| 0x2000 <= v <= 0x200A
    ||| v == 0x2028
    ||| v == 0x2029
    ||| v == 0x202F
    ||| v == 0x205F
    ||| v == 0x3000
}

pub fn is_whitespace(c: char) -> (r: bool)
    ensures
        r == spec_is_whitespace(c),
{
    let v = c as u32;
    (0x09 <= v && v <= 0x0D) || v == 0x20 || v == 0x85 || v == 0xA0 || v == 0x1680 || (0x2000
        <= v && v <= 0x200A) || v == 0x2028 || v == 0x2029 || v == 0x202F || v == 0x205F || v
        == 0x3000
}

/// `s` without its trailing whitespace.
pub open spec fn trim_end(s: Seq<char>) -> Seq<char>
    decreases s.len(),
{
    if s.len() > 0 && spec_is_whitespace(s.last()) {
        trim_end(s.drop_last())
    } else {
        s
    }
}

/// The text of `s` with `c` inserted before the character that starts at
/// byte offset `at`; when no character starts there, `c` goes at the end.
pub open spec fn insert_at_byte(s: Seq<char>, at: int, c: char) -> Seq<char>
    decreases s.len(),
{
    if s.len() == 0 {
        seq![c]
    } else if at == 0 {
        seq![c] + s
    } else {
        seq![s[0]] + insert_at_byte(s.drop_first(), at - utf8_len(s[0]), c)
    }
}

/// The text of `s` without the character that starts at byte offset `at`, if any.
pub open spec fn remove_at_byte(s: Seq<char>, at: int) -> Seq<char>
    decreases s.len(),
{
    if s.len() == 0 {
        s
    } else if at == 0 {
        s.drop_first()
    } else {
        seq![s[0]] + remove_at_byte(s.drop_first(), at - utf8_len(s[0]))
    }
}

/// The pieces of `s` between the occurrences of `sep`, as `str::split` gives them.
pub open spec fn split_on(s: Seq<char>, sep: char) -> Seq<Seq<char>>
    decreases s.len(),
{
    if s.len() == 0 {
        seq![seq![]]
    } else {
        let rest = split_on(s.drop_first(), sep);
        if s[0] == sep {
            seq![seq![]] + rest
        } else {
            rest.update(0, seq![s[0]] + rest[0])
        }
    }
}

/// `String::push`: claimed to append `c` to the characters of `s`.
#[verifier::external_body]
pub(crate) fn push_char(s: &mut String, c: char)
    ensures
        final(s)@ == old(s)@.push(c),
{
    s.push(c);
}

/// The characters of `s`.
pub fn chars_of(s: &str) -> (r: Vec<char>)
    ensures
        r@ == s@,
{
    let mut r: Vec<char> = Vec::new();
    for c in it: s.chars()
        invariant
            r@ == it.seq().take(it.index() as int),
            it.seq() == s@,
    {
        proof {
            assert(it.seq().take(it.index() + 1) =~= it.seq().take(it.index() as int).push(c));
        }
        r.push(c);
    }
    proof {
        assert(s@.take(s@.len() as int) =~= s@);
    }
    r
}

/// A string holding exactly the characters of `v`.
pub fn string_from_chars(v: &Vec<char>) -> (s: String)
    ensures
        s@ == v@,
{
    let mut s = String::new();
    let mut i: usize = 0;
    while i < v.len()
        invariant
            0 <= i <= v@.len(),
            s@ == v@.take(i as int),
        decreases v@.len() - i,
    {
        proof {
            assert(v@.take(i + 1) =~= v@.take(i as int).push(v@[i as int]));
        }
        push_char(&mut s, v[i]);
        i = i + 1;
    }
    proof {
        assert(v@.take(v@.len() as int) =~= v@);
    }
    s
}

/// `v` without its trailing whitespace.
pub fn trim_end_chars(v: &Vec<char>) -> (r: Vec<char>)
    ensures
        r@ == trim_end(v@),
{
    let mut n = v.len();
    proof {
        assert(v@.take(n as int) =~= v@);
    }
    while n > 0 && is_whitespace(v[n - 1])
        invariant
            0 <= n <= v@.len(),
            trim_end(v@) == trim_end(v@.take(n as int)),
        decreases n,
    {
        proof {
            assert(v@.take(n as int).drop_last() =~= v@.take(n - 1));
        }
        n = n - 1;
    }
    let mut r: Vec<char> = Vec::new();
    let mut i: usize = 0;
    while i < n
        invariant
            0 <= i <= n <= v@.len(),
            r@ == v@.take(i as int),
            trim_end(v@) == trim_end(v@.take(n as int)),
            n == 0 || !spec_is_whitespace(v@[n - 1]),
        decreases n - i,
    {
        proof {
            assert(v@.take(i + 1) =~= v@.take(i as int).push(v@[i as int]));
        }
        r.push(v[i]);
        i = i + 1;
    }
    proof {
        if n > 0 {
            assert(v@.take(n as int).last() == v@[n - 1]);
        }
    }
    r
}

/// `s` with `c` inserted before the character starting at byte offset `at`,
/// or at the end when no character starts there.
pub fn insert_char_at_byte(s: &Vec<char>, at: usize, c: char) -> (r: Vec<char>)
    ensures
        r@ == insert_at_byte(s@, at as int, c),
{
    let mut r: Vec<char> = Vec::new();
    let mut rem: Option<usize> = Some(at);
    let ghost mut g: int = at as int;
    let mut hit = false;
    let mut i: usize = 0;
    proof {
        assert(s@.skip(0) =~= s@);
        assert(s@.take(0) =~= Seq::<char>::empty());
    }
    while i < s.len()
        invariant
            0 <= i <= s@.len(),
            hit ==> r@ + s@.skip(i as int) == insert_at_byte(s@, at as int, c),
            !hit ==> r@ == s@.take(i as int),
            !hit ==> insert_at_byte(s@, at as int, c) == s@.take(i as int) + insert_at_byte(
                s@.skip(i as int),
                g,
                c,
            ),
            !hit ==> (rem matches Some(q) ==> g == q),
            !hit ==> (rem is None ==> g < 0),
        decreases s@.len() - i,
    {
        let ch = s[i];
        proof {
            assert(s@.skip(i as int).drop_first() =~= s@.skip(i + 1));
            assert(s@.skip(i as int)[0] == ch);
            assert(s@.take(i + 1) =~= s@.take(i as int).push(ch));
        }
        if !hit && rem == Some(0usize) {
            proof {
                assert(r@.push(c).push(ch) + s@.skip(i + 1) =~= s@.take(i as int) + (seq![c] + s@.skip(
                    i as int,
                )));
            }
            r.push(c);
            hit = true;
            r.push(ch);
        } else {
            proof {
                if hit {
                    assert(r@.push(ch) + s@.skip(i + 1) =~= r@ + s@.skip(i as int));
                } else {
                    assert(s@.take(i as int) + (seq![ch] + insert_at_byte(
                        s@.skip(i + 1),
                        g - utf8_len(ch),
                        c,
                    )) =~= s@.take(i + 1) + insert_at_byte(s@.skip(i + 1), g - utf8_len(ch), c));
                }
            }
            r.push(ch);
            if !hit {
                let len = char_utf8_len(ch);
                rem = match rem {
                    Some(q) => if q >= len {
                        Some(q - len)
                    } else {
                        None
                    },
                    None => None,
                };
                proof {
                    g = g - utf8_len(ch);
                }
            }
        }
        i = i + 1;
    }
    if !hit {
        proof {
            assert(s@.skip(s@.len() as int) =~= Seq::<char>::empty());
            assert(s@.take(s@.len() as int) =~= s@);
        }
        r.push(c);
    } else {
        proof {
            assert(r@ + s@.skip(s@.len() as int) =~= r@);
        }
    }
    r
}

/// `s` without the character starting at byte offset `at`, if any.
pub fn remove_char_at_byte(s: &Vec<char>, at: usize) -> (r: Vec<char>)
    ensures
        r@ == remove_at_byte(s@, at as int),
{
    let mut r: Vec<char> = Vec::new();
    let mut rem: Option<usize> = Some(at);
    let ghost mut g: int = at as int;
    let mut hit = false;
    let mut i: usize = 0;
    proof {
        assert(s@.skip(0) =~= s@);
        assert(s@.take(0) =~= Seq::<char>::empty());
    }
    while i < s.len()
        invariant
            0 <= i <= s@.len(),
            hit ==> r@ + s@.skip(i as int) == remove_at_byte(s@, at as int),
            !hit ==> r@ == s@.take(i as int),
            !hit ==> remove_at_byte(s@, at as int) == s@.take(i as int) + remove_at_byte(
                s@.skip(i as int),
                g,
            ),
            !hit ==> (rem matches Some(q) ==> g == q),
            !hit ==> (rem is None ==> g < 0),
        decreases s@.len() - i,
    {
        let ch = s[i];
        proof {
            assert(s@.skip(i as int).drop_first() =~= s@.skip(i + 1));
            assert(s@.skip(i as int)[0] == ch);
            assert(s@.take(i + 1) =~= s@.take(i as int).push(ch));
        }
        if !hit && rem == Some(0usize) {
            proof {
                assert(r@ + s@.skip(i + 1) =~= s@.take(i as int) + s@.skip(i as int).drop_first());
            }
            hit = true;
        } else {
            proof {
                if hit {
                    assert(r@.push(ch) + s@.skip(i + 1) =~= r@ + s@.skip(i as int));
                } else {
                    assert(s@.take(i as int) + (seq![ch] + remove_at_byte(
                        s@.skip(i + 1),
                        g - utf8_len(ch),
                    )) =~= s@.take(i + 1) + remove_at_byte(s@.skip(i + 1), g - utf8_len(ch)));
                }
            }
            r.push(ch);
            if !hit {
                let len = char_utf8_len(ch);
                rem = match rem {
                    Some(q) => if q >= len {
                        Some(q - len)
                    } else {
                        None
                    },
                    None => None,
                };
                proof {
                    g = g - utf8_len(ch);
                }
            }
        }
        i = i + 1;
    }
    proof {
        if !hit {
            assert(s@.skip(s@.len() as int) =~= Seq::<char>::empty());
            assert(s@.take(s@.len() as int) =~= s@);
        } else {
            assert(r@ + s@.skip(s@.len() as int) =~= r@);
        }
    }
    r
}

/// The pieces of `s` between the occurrences of `sep`.
pub fn split_chars(s: &Vec<char>, sep: char) -> (r: Vec<Vec<char>>)
    ensures
        r@.len() == split_on(s@, sep).len(),
        forall|k: int| 0 <= k < r@.len() ==> #[trigger] r@[k]@ == split_on(s@, sep)[k],
{
    let mut pieces: Vec<Vec<char>> = Vec::new();
    let mut current: Vec<char> = Vec::new();
    let mut i: usize = s.len();
    // build from the back: the pieces of the suffix are `current` followed by `pieces` reversed
    while i > 0
        invariant
            0 <= i <= s@.len(),
            split_on(s@.skip(i as int), sep).len() == pieces@.len() + 1,
            split_on(s@.skip(i as int), sep)[0] == current@,
            forall|k: int|
                0 <= k < pieces@.len() ==> #[trigger] pieces@[k]@ == split_on(s@.skip(i as int), sep)[
                    split_on(s@.skip(i as int), sep).len() - 1 - k],
        decreases i,
    {
        i = i - 1;
        let ch = s[i];
        proof {
            assert(s@.skip(i as int).drop_first() =~= s@.skip(i + 1));
            assert(s@.skip(i as int)[0] == ch);
        }
        if ch == sep {
            let done = current;
            pieces.push(done);
            current = Vec::new();
        } else {
            let mut next: Vec<char> = Vec::new();
            next.push(ch);
            let mut j: usize = 0;
            while j < current.len()
                invariant
                    0 <= j <= current@.len(),
                    next@ == seq![ch] + current@.take(j as int),
                decreases current@.len() - j,
            {
                proof {
                    assert(current@.take(j + 1) =~= current@.take(j as int).push(current@[j as int]));
                }
                next.push(current[j]);
                j = j + 1;
            }
            proof {
                assert(current@.take(current@.len() as int) =~= current@);
            }
            current = next;
        }
    }
    proof {
        assert(s@.skip(0) =~= s@);
    }
    // reverse the collected pieces after the first one
    let mut r: Vec<Vec<char>> = Vec::new();
    r.push(current);
    let ghost total = split_on(s@, sep);
    let ghost pieces0 = pieces@;
    let mut k: usize = pieces.len();
    while k > 0
        invariant
            0 <= k <= pieces0.len(),
            pieces@ == pieces0.take(k as int),
            total.len() == pieces0.len() + 1,
            r@.len() == pieces0.len() - k + 1,
            forall|q: int| 0 <= q < r@.len() ==> #[trigger] r@[q]@ == total[q],
            forall|q: int| 0 <= q < pieces0.len() ==> #[trigger] pieces0[q]@ == total[total.len() - 1 - q],
        decreases k,
    {
        k = k - 1;
        let piece = pieces.pop().unwrap();
        proof {
            assert(pieces0.take(k + 1).last() == pieces0[k as int]);
            assert(pieces0.take(k + 1).drop_last() =~= pieces0.take(k as int));
        }
        r.push(piece);
    }
    r
}

/// The decimal digits of `n`, most significant first, without leading zeros.
pub open spec fn decimal(n: nat) -> Seq<char>
    decreases n,
{
    if n < 10 {
        seq![digit_char(n)]
    } else {
        decimal(n / 10).push(digit_char(n % 10))
    }
}

/// The character of a decimal digit.
pub open spec fn digit_char(d: nat) -> char {
    if d == 0 {
        '0'
    } else if d == 1 {
        '1'
    } else if d == 2 {
        '2'
    } else if d == 3 {
        '3'
    } else if d == 4 {
        '4'
    } else if d == 5 {
        '5'
    } else if d == 6 {
        '6'
    } else if d == 7 {
        '7'
    } else if d == 8 {
        '8'
    } else {
        '9'
    }
}

fn digit(d: u64) -> (c: char)
    requires
        d < 10,
    ensures
        c == digit_char(d as nat),
{
    if d == 0 {
        '0'
    } else if d == 1 {
        '1'
    } else if d == 2 {
        '2'
    } else if d == 3 {
        '3'
    } else if d == 4 {
        '4'
    } else if d == 5 {
        '5'
    } else if d == 6 {
        '6'
    } else if d == 7 {
        '7'
    } else if d == 8 {
        '8'
    } else {
        '9'
    }
}

/// The decimal digits of `n`, as `u64`'s `Display` writes them.
pub fn decimal_chars(n: u64) -> (r: Vec<char>)
    ensures
        r@ == decimal(n as nat),
    decreases n,
{
    if n < 10 {
        let mut r: Vec<char> = Vec::new();
        r.push(digit(n));
        r
    } else {
        let mut r = decimal_chars(n / 10);
        r.push(digit(n % 10));
        r
    }
}

/// Appends the characters of `t` to `v`.
pub fn extend_chars(v: &mut Vec<char>, t: &Vec<char>)
    ensures
        final(v)@ == old(v)@ + t@,
{
    let mut i: usize = 0;
    while i < t.len()
        invariant
            0 <= i <= t@.len(),
            v@ == old(v)@ + t@.take(i as int),
        decreases t@.len() - i,
    {
        proof {
            assert(t@.take(i + 1) =~= t@.take(i as int).push(t@[i as int]));
        }
        v.push(t[i]);
        i = i + 1;
    }
    proof {
        assert(t@.take(t@.len() as int) =~= t@);
    }
}

/// Whether two strings hold the same characters.
pub fn str_eq(a: &str, b: &str) -> (r: bool)
    ensures
        r == (a@ == b@),
{
    let x = chars_of(a);
    let y = chars_of(b);
    if x.len() != y.len() {
        return false;
    }
    let mut i: usize = 0;
    while i < x.len()
        invariant
            x@ == a@,
            y@ == b@,
            x.len() == y.len(),
            i <= x.len(),
            forall|k: int| 0 <= k < i ==> x@[k] == y@[k],
        decreases x.len() - i,
    {
        if x[i] != y[i] {
            return false;
        }
        i = i + 1;
    }
    assert(x@ =~= y@);
    true
}

/// Whether `c` is an ASCII decimal digit.
pub open spec fn is_decimal_digit(c: char) -> bool {
    '0' <= c <= '9'
}

/// The number that the decimal digits `s` spell.
pub open spec fn digits_value(s: Seq<char>) -> int
    decreases s.len(),
{
    if s.len() == 0 {
        0
    } else {
        digits_value(s.drop_last()) * 10 + (s.last() as int - '0' as int)
    }
}

/// The digits of an unsigned number in `s`: everything after an optional
/// leading `+`.
pub open spec fn unsigned_digits(s: Seq<char>) -> Seq<char> {
    if s.len() > 0 && s[0] == '+' {
        s.drop_first()
    } else {
        s
    }
}

/// The unsigned number that `s` spells, as the standard library parses
/// unsigned integers at most `max`: an optional `+`, then at least one
/// decimal digit and nothing else. `None` when `s` is not such a number or
/// the number is above `max`.
pub open spec fn spec_parse_unsigned(s: Seq<char>, max: int) -> Option<int> {
    let d = unsigned_digits(s);
    if d.len() == 0 || exists|k: int| 0 <= k < d.len() && !is_decimal_digit(#[trigger] d[k]) {
        None
    } else if digits_value(d) > max {
        None
    } else {
        Some(digits_value(d))
    }
}

proof fn lemma_digits_value_nonneg(s: Seq<char>)
    requires
        forall|k: int| 0 <= k < s.len() ==> is_decimal_digit(#[trigger] s[k]),
    ensures
        digits_value(s) >= 0,
    decreases s.len(),
{
    if s.len() > 0 {
        lemma_digits_value_nonneg(s.drop_last());
    }
}

/// Parses an unsigned number at most `max` (see `spec_parse_unsigned`).
pub fn parse_unsigned(s: &str, max: u64) -> (r: Option<u64>)
    ensures
        r is None <==> spec_parse_unsigned(s@, max as int) is None,
        r matches Some(v) ==> spec_parse_unsigned(s@, max as int) == Some(v as int),
{
    let chars = chars_of(s);
    let mut start: usize = 0;
    if chars.len() > 0 && chars[0] == '+' {
        start = 1;
    }
    let ghost d = unsigned_digits(s@);
    assert(d =~= chars@.skip(start as int));
    if start >= chars.len() {
        return None;
    }
    let mut value: u64 = 0;
    let mut too_big = false;
    let mut i: usize = start;
    while i < chars.len()
        invariant
            start <= i <= chars@.len(),
            chars@ == s@,
            d == unsigned_digits(s@),
            d == chars@.skip(start as int),
            forall|k: int| 0 <= k < i - start ==> is_decimal_digit(#[trigger] d[k]),
            !too_big ==> value == digits_value(d.take(i - start)) && value <= max,
            too_big ==> digits_value(d.take(i - start)) > max,
        decreases chars@.len() - i,
    {
        let c = chars[i];
        if !('0' <= c && c <= '9') {
            assert(!is_decimal_digit(d[i - start]));
            return None;
        }
        let digit = (c as u32 - '0' as u32) as u64;
        proof {
            assert(d.take(i - start + 1).drop_last() =~= d.take(i - start));
            assert(d.take(i - start + 1).last() == c);
            lemma_digits_value_nonneg(d.take(i - start));
        }
        if !too_big {
            if value > max / 10 {
                too_big = true;
                assert(value * 10 + digit > max) by (nonlinear_arith)
                    requires
                        value > max / 10,
                        digit >= 0,
                ;
            } else {
                assert(value * 10 <= max) by (nonlinear_arith)
                    requires
                        value <= max / 10,
                ;
                let t = value * 10;
                if digit > max - t {
                    too_big = true;
                } else {
                    value = t + digit;
                }
            }
        } else {
            assert(digits_value(d.take(i - start + 1)) > max) by (nonlinear_arith)
                requires
                    digits_value(d.take(i - start + 1)) == digits_value(d.take(i - start)) * 10
                        + digit,
                    digits_value(d.take(i - start)) > max,
                    digit >= 0,
                    max >= 0,
            ;
        }
        i = i + 1;
    }
    assert(d.take(d.len() as int) =~= d);
    if too_big {
        None
    } else {
        Some(value)
    }
}

/// The characters of `v` from `a` up to `b`.
pub fn chars_range(v: &Vec<char>, a: usize, b: usize) -> (r: Vec<char>)
    requires
        a <= b <= v@.len(),
    ensures
        r@ == v@.subrange(a as int, b as int),
{
    let mut r: Vec<char> = Vec::new();
    let mut i: usize = a;
    while i < b
        invariant
            a <= i <= b <= v@.len(),
            r@ == v@.subrange(a as int, i as int),
        decreases b - i,
    {
        r.push(v[i]);
        i = i + 1;
        proof {
            assert(r@ =~= v@.subrange(a as int, i as int));
        }
    }
    r
}

/// `s` without its leading whitespace.
pub open spec fn skip_whitespace(s: Seq<char>) -> Seq<char>
    decreases s.len(),
{
    if s.len() > 0 && spec_is_whitespace(s[0]) {
        skip_whitespace(s.drop_first())
    } else {
        s
    }
}

/// The number of characters before the first whitespace of `s`.
pub open spec fn word_len(s: Seq<char>) -> nat
    decreases s.len(),
{
    if s.len() == 0 || spec_is_whitespace(s[0]) {
        0
    } else {
        1 + word_len(s.drop_first())
    }
}

/// The first whitespace-separated word of `s`, as `str::split_whitespace`
/// gives it.
pub open spec fn first_word(s: Seq<char>) -> Option<Seq<char>> {
    let t = skip_whitespace(s);
    if t.len() == 0 {
        None
    } else {
        Some(t.take(word_len(t) as int))
    }
}

/// What follows the first word of `s`.
pub open spec fn after_first_word(s: Seq<char>) -> Seq<char> {
    let t = skip_whitespace(s);
    t.skip(word_len(t) as int)
}

proof fn lemma_skip_whitespace(s: Seq<char>, i: int)
    requires
        0 <= i <= s.len(),
        forall|k: int| 0 <= k < i ==> spec_is_whitespace(#[trigger] s[k]),
    ensures
        skip_whitespace(s) == skip_whitespace(s.skip(i)),
    decreases i,
{
    if i > 0 {
        assert(s.skip(1) =~= s.drop_first());
        assert(s.drop_first().skip(i - 1) =~= s.skip(i));
        lemma_skip_whitespace(s.drop_first(), i - 1);
    } else {
        assert(s.skip(0) =~= s);
    }
}

proof fn lemma_word_len(s: Seq<char>, i: int)
    requires
        0 <= i <= s.len(),
        forall|k: int| 0 <= k < i ==> !spec_is_whitespace(#[trigger] s[k]),
    ensures
        word_len(s) == i + word_len(s.skip(i)),
    decreases i,
{
    if i > 0 {
        assert(s.drop_first().skip(i - 1) =~= s.skip(i));
        lemma_word_len(s.drop_first(), i - 1);
    } else {
        assert(s.skip(0) =~= s);
    }
}

/// The first word of `v` from position `from` on, and the position after it
/// (see `first_word`).
pub fn first_word_from(v: &Vec<char>, from: usize) -> (r: (Option<Vec<char>>, usize))
    requires
        from <= v@.len(),
    ensures
        match first_word(v@.skip(from as int)) {
            Some(w) => r.0 matches Some(x) && x@ == w,
            None => r.0 is None,
        },
        r.1 <= v@.len(),
        v@.skip(r.1 as int) == after_first_word(v@.skip(from as int)),
{
    let ghost s = v@.skip(from as int);
    let mut i = from;
    while i < v.len() && is_whitespace(v[i])
        invariant
            from <= i <= v@.len(),
            s == v@.skip(from as int),
            forall|k: int| 0 <= k < i - from ==> spec_is_whitespace(#[trigger] s[k]),
        decreases v@.len() - i,
    {
        i = i + 1;
    }
    proof {
        lemma_skip_whitespace(s, i - from);
        assert(s.skip(i - from) =~= v@.skip(i as int));
    }
    let start = i;
    let ghost t = v@.skip(start as int);
    while i < v.len() && !is_whitespace(v[i])
        invariant
            start <= i <= v@.len(),
            t == v@.skip(start as int),
            forall|k: int| 0 <= k < i - start ==> !spec_is_whitespace(#[trigger] t[k]),
        decreases v@.len() - i,
    {
        i = i + 1;
    }
    proof {
        lemma_word_len(t, i - start);
        assert(t.skip(i - start) =~= v@.skip(i as int));
        if i < v@.len() {
            assert(t.skip(i - start)[0] == v@[i as int]);
        }
        assert(word_len(t.skip(i - start)) == 0);
        assert(t.skip((i - start) as int) =~= v@.skip(i as int));
    }
    if start == v.len() {
        assert(t.len() == 0);
        (None, i)
    } else {
        let w = chars_range(v, start, i);
        assert(w@ =~= t.take(i - start));
        (Some(w), i)
    }
}

proof fn lemma_digit_char(d: nat)
    requires
        d < 10,
    ensures
        is_decimal_digit(digit_char(d)),
        digit_char(d) as int - '0' as int == d,
{
}

proof fn lemma_decimal_digits(n: nat)
    ensures
        decimal(n).len() > 0,
        decimal(n)[0] != '+',
        forall|k: int| 0 <= k < decimal(n).len() ==> is_decimal_digit(#[trigger] decimal(n)[k]),
        digits_value(decimal(n)) == n,
    decreases n,
{
    if n < 10 {
        lemma_digit_char(n);
        assert(decimal(n).drop_last() =~= Seq::<char>::empty());
        assert(decimal(n).last() == digit_char(n));
        assert(digits_value(Seq::<char>::empty()) == 0);
        assert(digits_value(decimal(n)) == n);
    } else {
        lemma_decimal_digits(n / 10);
        lemma_digit_char(n % 10);
        assert(decimal(n).drop_last() =~= decimal(n / 10));
        assert(decimal(n).last() == digit_char(n % 10));
        assert(n == (n / 10) * 10 + n % 10) by (nonlinear_arith);
        assert(digits_value(decimal(n)) == digits_value(decimal(n / 10)) * 10 + (n % 10));
        assert(decimal(n)[0] == decimal(n / 10)[0]);
        assert forall|k: int| 0 <= k < decimal(n).len() implies is_decimal_digit(
            #[trigger] decimal(n)[k],
        ) by {
            if k < decimal(n / 10).len() {
                assert(decimal(n)[k] == decimal(n / 10)[k]);
            }
        }
    }
}

/// Reading back a number written in decimal gives the number: parsing
/// undoes `decimal_chars` for every number the parse accepts.
pub proof fn law_parse_reads_decimal(n: nat, max: int)
    requires
        n <= max,
    ensures
        spec_parse_unsigned(decimal(n), max) == Some(n as int),
{
    lemma_decimal_digits(n);
    assert(unsigned_digits(decimal(n)) == decimal(n));
}

/// Whether a character of `s` starts at byte offset `at`, or `at` is the
/// end of `s`.
pub open spec fn is_char_boundary(s: Seq<char>, at: int) -> bool
    decreases s.len(),
{
    if at == 0 {
        true
    } else if s.len() == 0 {
        false
    } else {
        is_char_boundary(s.drop_first(), at - utf8_len(s[0]))
    }
}

proof fn lemma_boundary_nonneg(s: Seq<char>, at: int)
    requires
        is_char_boundary(s, at),
    ensures
        at >= 0,
    decreases s.len(),
{
    if at != 0 && s.len() > 0 {
        lemma_boundary_nonneg(s.drop_first(), at - utf8_len(s[0]));
    }
}

/// Removing the character at a character boundary undoes inserting one there.
pub proof fn law_remove_undoes_insert(s: Seq<char>, at: int, c: char)
    requires
        is_char_boundary(s, at),
    ensures
        remove_at_byte(insert_at_byte(s, at, c), at) == s,
        at >= 0,
    decreases s.len(),
{
    lemma_boundary_nonneg(s, at);
    if s.len() == 0 {
        assert(seq![c].drop_first() =~= s);
    } else if at == 0 {
        assert((seq![c] + s).drop_first() =~= s);
    } else {
        law_remove_undoes_insert(s.drop_first(), at - utf8_len(s[0]), c);
        let t = insert_at_byte(s, at, c);
        assert(t.drop_first() =~= insert_at_byte(s.drop_first(), at - utf8_len(s[0]), c));
        assert(seq![s[0]] + s.drop_first() =~= s);
    }
}


/// How many characters of `s` start before byte offset `at`.
pub open spec fn char_index_at_byte(s: Seq<char>, at: int) -> int
    decreases s.len(),
{
    if at <= 0 || s.len() == 0 {
        0
    } else {
        1 + char_index_at_byte(s.drop_first(), at - utf8_len(s[0]))
    }
}

/// The text between byte offsets `a` and `b` of `s`, as `&s[a..b]` gives it
/// when both are character boundaries.
pub open spec fn byte_slice(s: Seq<char>, a: int, b: int) -> Seq<char> {
    s.subrange(char_index_at_byte(s, a), char_index_at_byte(s, b))
}

/// Whether `&s[a..b]` is a slice of `s` rather than a panic: `a <= b`, both
/// on character boundaries.
pub open spec fn slice_ok(s: Seq<char>, a: int, b: int) -> bool {
    a <= b && is_char_boundary(s, a) && is_char_boundary(s, b)
}

pub proof fn lemma_char_index_bounds(s: Seq<char>, at: int)
    ensures
        0 <= char_index_at_byte(s, at) <= s.len(),
    decreases s.len(),
{
    if at > 0 && s.len() > 0 {
        lemma_char_index_bounds(s.drop_first(), at - utf8_len(s[0]));
    }
}

pub proof fn lemma_char_index_monotone(s: Seq<char>, a: int, b: int)
    requires
        a <= b,
    ensures
        char_index_at_byte(s, a) <= char_index_at_byte(s, b),
    decreases s.len(),
{
    lemma_char_index_bounds(s, b);
    if a > 0 && s.len() > 0 {
        lemma_char_index_monotone(s.drop_first(), a - utf8_len(s[0]), b - utf8_len(s[0]));
    }
}

/// The index of the character that starts at byte offset `at` of `v` (the
/// length of `v` for its end), or `None` where no character starts there.
pub fn char_index_at(v: &Vec<char>, at: usize) -> (r: Option<usize>)
    ensures
        match r {
            Some(k) => is_char_boundary(v@, at as int) && k == char_index_at_byte(v@, at as int),
            None => !is_char_boundary(v@, at as int),
        },
{
    let mut k: usize = 0;
    let mut rem: usize = at;
    assert(v@.skip(0) =~= v@);
    while k < v.len() && rem > 0
        invariant
            k <= v@.len(),
            rem <= at,
            is_char_boundary(v@, at as int) == is_char_boundary(v@.skip(k as int), rem as int),
            char_index_at_byte(v@, at as int) == k + char_index_at_byte(v@.skip(k as int), rem as int),
        decreases v@.len() - k,
    {
        let c = v[k];
        let l = char_utf8_len(c);
        proof {
            assert(v@.skip(k as int).drop_first() =~= v@.skip(k + 1));
        }
        if l > rem {
            proof {
                if is_char_boundary(v@.skip(k + 1), rem - l) {
                    lemma_boundary_nonneg(v@.skip(k + 1), rem - l);
                }
            }
            return None;
        }
        rem = rem - l;
        k = k + 1;
    }
    if rem == 0 {
        Some(k)
    } else {
        proof {
            assert(v@.skip(k as int).len() == 0);
        }
        None
    }
}

} // verus!
