use vstd::prelude::*;
use vstd::string::*;

verus! {

/// `String::push` of the standard library, taken on trust: afterwards the
/// string holds what it held before, followed by `c`.
pub assume_specification[ String::push ](s: &mut String, c: char)
    ensures
        final(s)@ == old(s)@.push(c),
;

/// `==` on `str` (`PartialEq::eq`) of the standard library, taken on trust:
/// two string slices are equal exactly when they hold the same characters.
pub assume_specification[ <str as PartialEq>::eq ](a: &str, b: &str) -> (r: bool)
    ensures
        r == (a@ == b@),
;

/// The character sequences of a sequence of strings.
pub open spec fn texts(v: Seq<String>) -> Seq<Seq<char>> {
    Seq::new(v.len(), |i: int| v[i]@)
}

/// Characters with the Unicode property White_Space.
pub open spec fn is_space(c: char) -> bool {
    let n = c as u32;
    ||| 0x09 <= n <= 0x0D
    ||| n == 0x20
    ||| n == 0x85
    ||| n == 0xA0
    ||| n == 0x1680
    ||| 0x2000 <= n <= 0x200A
    ||| n == 0x2028
    ||| n == 0x2029
    ||| n == 0x202F
    ||| n == 0x205F
    ||| n == 0x3000
}

/// Whether the character is white space.
pub fn is_space_char(c: char) -> (r: bool)
    ensures
        r == is_space(c),
{
    let n: u32 = c as u32;
    (0x09 <= n && n <= 0x0D) || n == 0x20 || n == 0x85 || n == 0xA0 || n == 0x1680 || (0x2000 <= n
        && n <= 0x200A) || n == 0x2028 || n == 0x2029 || n == 0x202F || n == 0x205F || n == 0x3000
}

/// The characters of a string, one element each.
pub fn chars_of(s: &str) -> (v: Vec<char>)
    ensures
        v@ == s@,
{
    let mut v: Vec<char> = Vec::new();
    for c in it: s.chars()
        invariant
            it.seq() == s@,
            v@ == s@.take(it.index() as int),
    {
        v.push(c);
    }
    v
}

/// The string made of the characters `from..to` of `v`.
pub fn string_of(v: &Vec<char>, from: usize, to: usize) -> (s: String)
    requires
        from <= to <= v.len(),
    ensures
        s@ == v@.subrange(from as int, to as int),
{
    let mut s = String::new();
    let mut i: usize = from;
    while i < to
        invariant
            from <= i <= to <= v.len(),
            s@ == v@.subrange(from as int, i as int),
        decreases to - i,
    {
        s.push(v[i]);
        i += 1;
    }
    s
}

/// Whether `c` occurs in `s`.
pub fn contains_char(s: &str, c: char) -> (found: bool)
    ensures
        found == s@.contains(c),
{
    let chars = chars_of(s);
    let mut i: usize = 0;
    while i < chars.len()
        invariant
            i <= chars.len(),
            chars@ == s@,
            forall|k: int| 0 <= k < i ==> s@[k] != c,
        decreases chars.len() - i,
    {
        if chars[i] == c {
            return true;
        }
        i += 1;
    }
    false
}

/// Whether one of the strings of `v` is `s`.
pub fn contains_text(v: &Vec<String>, s: &str) -> (found: bool)
    ensures
        found == texts(v@).contains(s@),
{
    let mut i: usize = 0;
    while i < v.len()
        invariant
            i <= v.len(),
            forall|k: int| 0 <= k < i ==> texts(v@)[k] != s@,
        decreases v.len() - i,
    {
        if *v[i].as_str() == *s {
            assert(texts(v@)[i as int] == s@);
            return true;
        }
        i += 1;
    }
    false
}

/// A pending run of characters as a list: one item, or none when it is empty.
pub open spec fn flush(cur: Seq<char>) -> Seq<Seq<char>> {
    if cur.len() > 0 {
        seq![cur]
    } else {
        Seq::empty()
    }
}

/// The words of `s` that follow the unfinished word `cur`.
pub open spec fn words_from(s: Seq<char>, cur: Seq<char>) -> Seq<Seq<char>>
    decreases s.len(),
{
    if s.len() == 0 {
        flush(cur)
    } else if is_space(s[0]) {
        flush(cur) + words_from(s.drop_first(), Seq::empty())
    } else {
        words_from(s.drop_first(), cur.push(s[0]))
    }
}

/// The maximal runs of characters of `s` that are not white space, in order.
pub open spec fn words_of(s: Seq<char>) -> Seq<Seq<char>> {
    words_from(s, Seq::empty())
}

/// A line without the carriage return that ended it, if one did.
pub open spec fn strip_cr(line: Seq<char>) -> Seq<char> {
    if line.len() > 0 && line.last() == '\r' {
        line.drop_last()
    } else {
        line
    }
}

/// The lines of `s` that follow the unfinished line `cur`.
pub open spec fn lines_from(s: Seq<char>, cur: Seq<char>) -> Seq<Seq<char>>
    decreases s.len(),
{
    if s.len() == 0 {
        flush(cur)
    } else if s[0] == '\n' {
        seq![strip_cr(cur)] + lines_from(s.drop_first(), Seq::empty())
    } else {
        lines_from(s.drop_first(), cur.push(s[0]))
    }
}

/// The lines of `s`: each ends at a line feed, which is dropped together with
/// a carriage return just before it; what follows the last line feed is a
/// line too unless it is empty.
pub open spec fn lines_of(s: Seq<char>) -> Seq<Seq<char>> {
    lines_from(s, Seq::empty())
}

/// Splits a text into its white-space separated words.
pub fn words(s: &str) -> (out: Vec<String>)
    ensures
        texts(out@) == words_of(s@),
{
    let chars = chars_of(s);
    let n = chars.len();
    let mut out: Vec<String> = Vec::new();
    let mut start: usize = 0;
    let mut i: usize = 0;
    assert(chars@.skip(0) =~= chars@);
    assert(chars@.subrange(0, 0) =~= Seq::empty());
    while i < n
        invariant
            chars@ == s@,
            n == chars.len(),
            start <= i <= n,
            words_of(s@) == texts(out@) + words_from(
                chars@.skip(i as int),
                chars@.subrange(start as int, i as int),
            ),
        decreases n - i,
    {
        let c = chars[i];
        let ghost rest = chars@.skip(i as int);
        let ghost cur = chars@.subrange(start as int, i as int);
        let ghost before = texts(out@);
        proof {
            assert(rest.drop_first() =~= chars@.skip(i + 1));
        }
        if is_space_char(c) {
            if start < i {
                let w = string_of(&chars, start, i);
                out.push(w);
            }
            start = i + 1;
            assert(chars@.subrange(start as int, i + 1) =~= Seq::empty());
            assert(before + (flush(cur) + words_from(rest.drop_first(), Seq::empty())) =~= (before
                + flush(cur)) + words_from(rest.drop_first(), Seq::empty()));
        } else {
            assert(cur.push(c) =~= chars@.subrange(start as int, i + 1));
        }
        i += 1;
    }
    if start < n {
        let w = string_of(&chars, start, n);
        out.push(w);
    }
    out
}

/// Splits a text into its lines.
pub fn lines(s: &str) -> (out: Vec<String>)
    ensures
        texts(out@) == lines_of(s@),
{
    let chars = chars_of(s);
    let n = chars.len();
    let mut out: Vec<String> = Vec::new();
    let mut start: usize = 0;
    let mut i: usize = 0;
    assert(chars@.skip(0) =~= chars@);
    assert(chars@.subrange(0, 0) =~= Seq::empty());
    while i < n
        invariant
            chars@ == s@,
            n == chars.len(),
            start <= i <= n,
            lines_of(s@) == texts(out@) + lines_from(
                chars@.skip(i as int),
                chars@.subrange(start as int, i as int),
            ),
        decreases n - i,
    {
        let c = chars[i];
        let ghost rest = chars@.skip(i as int);
        let ghost cur = chars@.subrange(start as int, i as int);
        let ghost before = texts(out@);
        proof {
            assert(rest.drop_first() =~= chars@.skip(i + 1));
        }
        if c == '\n' {
            let end = if start < i && chars[i - 1] == '\r' {
                i - 1
            } else {
                i
            };
            assert(strip_cr(cur) =~= chars@.subrange(start as int, end as int));
            let w = string_of(&chars, start, end);
            out.push(w);
            start = i + 1;
            assert(chars@.subrange(start as int, i + 1) =~= Seq::empty());
            assert(before + (seq![strip_cr(cur)] + lines_from(rest.drop_first(), Seq::empty()))
                =~= (before + seq![strip_cr(cur)]) + lines_from(rest.drop_first(), Seq::empty()));
        } else {
            assert(cur.push(c) =~= chars@.subrange(start as int, i + 1));
        }
        i += 1;
    }
    if start < n {
        let w = string_of(&chars, start, n);
        out.push(w);
    }
    out
}

/// `s` without the white space at its start.
pub open spec fn trim_start_of(s: Seq<char>) -> Seq<char>
    decreases s.len(),
{
    if s.len() > 0 && is_space(s[0]) {
        trim_start_of(s.drop_first())
    } else {
        s
    }
}

/// `s` without the white space at its end.
pub open spec fn trim_end_of(s: Seq<char>) -> Seq<char>
    decreases s.len(),
{
    if s.len() > 0 && is_space(s.last()) {
        trim_end_of(s.drop_last())
    } else {
        s
    }
}

/// `s` without the white space at its start and at its end.
pub open spec fn trimmed(s: Seq<char>) -> Seq<char> {
    trim_end_of(trim_start_of(s))
}

/// The places `(a, b)` between which `chars` holds its trimmed text.
pub(crate) fn trim_bounds(chars: &Vec<char>) -> (r: (usize, usize))
    ensures
        r.0 <= r.1 <= chars.len(),
        chars@.subrange(r.0 as int, r.1 as int) == trimmed(chars@),
{
    let n = chars.len();
    let mut a: usize = 0;
    assert(chars@.skip(0) =~= chars@);
    while a < n && is_space_char(chars[a])
        invariant
            a <= n,
            n == chars.len(),
            trim_start_of(chars@) == trim_start_of(chars@.skip(a as int)),
        decreases n - a,
    {
        assert(chars@.skip(a as int).drop_first() =~= chars@.skip(a + 1));
        a += 1;
    }
    let mut b: usize = n;
    while b > a && is_space_char(chars[b - 1])
        invariant
            a <= b <= n,
            n == chars.len(),
            trimmed(chars@) == trim_end_of(chars@.subrange(a as int, b as int)),
        decreases b,
    {
        assert(chars@.subrange(a as int, b as int).drop_last() =~= chars@.subrange(
            a as int,
            b - 1,
        ));
        b -= 1;
    }
    (a, b)
}

/// The text without the white space around it.
pub fn trim(s: &str) -> (r: String)
    ensures
        r@ == trimmed(s@),
{
    let chars = chars_of(s);
    let (a, b) = trim_bounds(&chars);
    string_of(&chars, a, b)
}

/// What follows the last `c` in `s`; all of `s` where it holds no `c`.
pub open spec fn after_last(s: Seq<char>, c: char) -> Seq<char>
    decreases s.len(),
{
    if s.len() == 0 {
        s
    } else if s.last() == c {
        Seq::empty()
    } else {
        after_last(s.drop_last(), c).push(s.last())
    }
}

/// The place behind the last `c` among the first `end` characters, or 0.
pub(crate) fn after_last_at(chars: &Vec<char>, end: usize, c: char) -> (k: usize)
    requires
        end <= chars.len(),
    ensures
        k <= end,
        k > 0 ==> chars[k - 1] == c,
        chars@.subrange(k as int, end as int) == after_last(chars@.take(end as int), c),
{
    let mut k: usize = end;
    let ghost s = chars@.take(end as int);
    assert(s.take(end as int) =~= s);
    while k > 0 && chars[k - 1] != c
        invariant
            k <= end <= chars.len(),
            s == chars@.take(end as int),
            after_last(s, c) == after_last(s.take(k as int), c) + s.subrange(k as int, end as int),
        decreases k,
    {
        let ghost head = s.take(k as int);
        assert(head.drop_last() =~= s.take(k - 1));
        assert(after_last(head.drop_last(), c).push(head.last()) + s.subrange(k as int, end as int)
            =~= after_last(head.drop_last(), c) + s.subrange(k - 1, end as int));
        k -= 1;
    }
    k
}

/// The character of the decimal digit `d`.
pub open spec fn digit_of(d: nat) -> char {
    if d == 0 {
        '0'
    } else if d == 1 {
        '1'
    } else if d == 2 {
        '2'
    } else if d == 3 {
        '3'
    } else if d == 4 {
        '4'
    } else if d == 5 {
        '5'
    } else if d == 6 {
        '6'
    } else if d == 7 {
        '7'
    } else if d == 8 {
        '8'
    } else {
        '9'
    }
}

/// The decimal digits of `n`, without leading zeros.
pub open spec fn decimal_of(n: nat) -> Seq<char>
    decreases n,
{
    if n < 10 {
        seq![digit_of(n)]
    } else {
        decimal_of(n / 10).push(digit_of(n % 10))
    }
}

fn digit_char(d: u32) -> (c: char)
    requires
        d < 10,
    ensures
        c == digit_of(d as nat),
{
    if d == 0 {
        '0'
    } else if d == 1 {
        '1'
    } else if d == 2 {
        '2'
    } else if d == 3 {
        '3'
    } else if d == 4 {
        '4'
    } else if d == 5 {
        '5'
    } else if d == 6 {
        '6'
    } else if d == 7 {
        '7'
    } else if d == 8 {
        '8'
    } else {
        '9'
    }
}

/// The number written in decimal.
pub fn decimal(n: u32) -> (s: String)
    ensures
        s@ == decimal_of(n as nat),
    decreases n,
{
    if n < 10 {
        let mut s = String::new();
        s.push(digit_char(n));
        s
    } else {
        let mut s = decimal(n / 10);
        s.push(digit_char(n % 10));
        s
    }
}

/// The value of a decimal digit, if the character is one.
pub open spec fn digit_value(c: char) -> Option<nat> {
    if '0' <= c <= '9' {
        Some((c as u32 - '0' as u32) as nat)
    } else {
        None
    }
}

/// Every character is a decimal digit, and there is one at least.
pub open spec fn is_digits(s: Seq<char>) -> bool {
    s.len() > 0 && forall|i: int| 0 <= i < s.len() ==> (#[trigger] digit_value(s[i])) is Some
}

/// The number that decimal digits stand for.
pub open spec fn value_of(s: Seq<char>) -> nat
    decreases s.len(),
{
    if s.len() == 0 {
        0
    } else {
        value_of(s.drop_last()) * 10 + digit_value(s.last()).unwrap_or(0)
    }
}

/// The number that a text stands for: decimal digits, after a plus sign or
/// without one, with a value that 32 bits can hold. Nothing else is a
/// number: no sign alone, no white space, no minus.
pub open spec fn number_of(s: Seq<char>) -> Option<u32> {
    let digits = if s.len() > 0 && s[0] == '+' {
        s.drop_first()
    } else {
        s
    };
    if is_digits(digits) && value_of(digits) <= u32::MAX {
        Some(value_of(digits) as u32)
    } else {
        None
    }
}

/// Digits stand for no less than their first `k` do.
pub proof fn lemma_value_grows(s: Seq<char>, k: int)
    requires
        0 <= k <= s.len(),
    ensures
        value_of(s.take(k)) <= value_of(s),
    decreases s.len() - k,
{
    if k < s.len() {
        lemma_value_grows(s, k + 1);
        assert(s.take(k + 1).drop_last() =~= s.take(k));
    } else {
        assert(s.take(k) =~= s);
    }
}

/// Reads the number that the characters `from..to` stand for.
pub(crate) fn number_at(chars: &Vec<char>, from: usize, to: usize) -> (r: Option<u32>)
    requires
        from <= to <= chars.len(),
    ensures
        r == number_of(chars@.subrange(from as int, to as int)),
{
    let ghost s = chars@.subrange(from as int, to as int);
    let start = if from < to && chars[from] == '+' {
        from + 1
    } else {
        from
    };
    let ghost digits = chars@.subrange(start as int, to as int);
    assert(digits =~= if s.len() > 0 && s[0] == '+' {
        s.drop_first()
    } else {
        s
    });
    if start == to {
        return None;
    }
    let mut value: u32 = 0;
    let mut i: usize = start;
    while i < to
        invariant
            start <= i <= to <= chars.len(),
            digits == chars@.subrange(start as int, to as int),
            s == chars@.subrange(from as int, to as int),
            digits == if s.len() > 0 && s[0] == '+' {
                s.drop_first()
            } else {
                s
            },
            forall|k: int| 0 <= k < i - start ==> (#[trigger] digit_value(digits[k])) is Some,
            value == value_of(digits.take(i - start)),
        decreases to - i,
    {
        let c = chars[i];
        if !('0' <= c && c <= '9') {
            assert(digit_value(digits[i - start]) is None);
            return None;
        }
        let d: u32 = c as u32 - '0' as u32;
        proof {
            assert(digits.take(i - start + 1).drop_last() =~= digits.take(i - start));
            lemma_value_grows(digits, i - start + 1);
        }
        if value > (u32::MAX - d) / 10 {
            return None;
        }
        value = value * 10 + d;
        i += 1;
    }
    assert(digits.take(to - start) =~= digits);
    Some(value)
}

/// Reads the number that a text stands for.
pub fn parse_number(s: &str) -> (r: Option<u32>)
    ensures
        r == number_of(s@),
{
    let chars = chars_of(s);
    assert(chars@.subrange(0, chars.len() as int) =~= chars@);
    number_at(&chars, 0, chars.len())
}

/// The text in upper case, as `str::to_uppercase` of the standard library
/// gives it. Nothing more is said of it here.
pub uninterp spec fn uppercase_of(s: Seq<char>) -> Seq<char>;

/// `str::to_uppercase` of the standard library, taken on trust: what it
/// returns depends on the characters of `s` alone.
#[verifier::external_body]
pub(crate) fn to_uppercase(s: &str) -> (r: String)
    ensures
        r@ == uppercase_of(s@),
{
    s.to_uppercase()
}

/// `pat` stands in `s` at place `i`.
pub open spec fn occurs_at(s: Seq<char>, pat: Seq<char>, i: int) -> bool {
    0 <= i && i + pat.len() <= s.len() && s.subrange(i, i + pat.len()) == pat
}

/// Whether `pat` stands in `chars` at place `i`, counting only the first
/// `end` characters.
pub(crate) fn matches_at(chars: &Vec<char>, end: usize, pat: &Vec<char>, i: usize) -> (r: bool)
    requires
        end <= chars.len(),
    ensures
        r == occurs_at(chars@.take(end as int), pat@, i as int),
{
    let m = pat.len();
    if i > end || m > end - i {
        return false;
    }
    let ghost s = chars@.take(end as int);
    let mut k: usize = 0;
    while k < m
        invariant
            k <= m,
            m == pat.len(),
            i + m <= end <= chars.len(),
            s == chars@.take(end as int),
            forall|j: int| 0 <= j < k ==> s[i + j] == pat[j],
        decreases m - k,
    {
        if chars[i + k] != pat[k] {
            return false;
        }
        k += 1;
    }
    assert(s.subrange(i as int, i + m) =~= pat@);
    true
}

/// `s` with `with` in place of each `pat`, found from the left, one after
/// the other. An empty `pat` is found nowhere.
pub open spec fn replaced(s: Seq<char>, pat: Seq<char>, with: Seq<char>) -> Seq<char>
    decreases s.len(),
{
    if pat.len() == 0 || s.len() == 0 {
        s
    } else if occurs_at(s, pat, 0) {
        with + replaced(s.skip(pat.len() as int), pat, with)
    } else {
        seq![s[0]] + replaced(s.drop_first(), pat, with)
    }
}

/// The text with `with` in place of each `pattern`.
pub fn replace_all(text: &str, pattern: &str, with: &str) -> (out: String)
    ensures
        out@ == replaced(text@, pattern@, with@),
{
    let chars = chars_of(text);
    let pat = chars_of(pattern);
    let n = chars.len();
    let m = pat.len();
    if m == 0 {
        return text.to_owned();
    }
    let mut out = String::new();
    let mut i: usize = 0;
    assert(chars@.skip(0) =~= chars@);
    while i < n
        invariant
            i <= n,
            n == chars.len(),
            m == pat.len(),
            m > 0,
            chars@ == text@,
            pat@ == pattern@,
            chars@.take(n as int) == chars@,
            replaced(text@, pattern@, with@) == out@ + replaced(
                chars@.skip(i as int),
                pat@,
                with@,
            ),
        decreases n - i,
    {
        let ghost rest = chars@.skip(i as int);
        let ghost before = out@;
        let found = matches_at(&chars, n, &pat, i);
        proof {
            assert(occurs_at(rest, pat@, 0) == occurs_at(chars@, pat@, i as int)) by {
                if i + m <= n {
                    assert(rest.subrange(0, m as int) =~= chars@.subrange(i as int, i + m));
                }
            }
        }
        if found {
            out.append(with);
            assert(rest.skip(m as int) =~= chars@.skip(i + m));
            assert(before + (with@ + replaced(rest.skip(m as int), pat@, with@)) =~= (before
                + with@) + replaced(rest.skip(m as int), pat@, with@));
            i += m;
        } else {
            out.push(chars[i]);
            assert(rest.drop_first() =~= chars@.skip(i + 1));
            assert(before + (seq![rest[0]] + replaced(rest.drop_first(), pat@, with@))
                =~= before.push(chars[i as int]) + replaced(rest.drop_first(), pat@, with@));
            i += 1;
        }
    }
    out
}

/// No character of `s` is white space.
pub open spec fn space_free(s: Seq<char>) -> bool {
    forall|k: int| 0 <= k < s.len() ==> !is_space(#[trigger] s[k])
}

/// Every word is a word: it is not empty and holds no white space.
pub proof fn words_hold_no_space(s: Seq<char>, cur: Seq<char>, i: int)
    requires
        space_free(cur),
        0 <= i < words_from(s, cur).len(),
    ensures
        words_from(s, cur)[i].len() > 0,
        space_free(words_from(s, cur)[i]),
    decreases s.len(),
{
    if s.len() > 0 {
        if !is_space(s[0]) {
            words_hold_no_space(s.drop_first(), cur.push(s[0]), i);
        } else if i >= flush(cur).len() {
            words_hold_no_space(s.drop_first(), Seq::empty(), i - flush(cur).len());
        }
    }
}

/// No character of `s` is a line feed.
pub open spec fn feed_free(s: Seq<char>) -> bool {
    forall|k: int| 0 <= k < s.len() ==> #[trigger] s[k] != '\n'
}

/// No line holds a line feed.
pub proof fn lines_hold_no_line_feed(s: Seq<char>, cur: Seq<char>, i: int)
    requires
        feed_free(cur),
        0 <= i < lines_from(s, cur).len(),
    ensures
        feed_free(lines_from(s, cur)[i]),
    decreases s.len(),
{
    if s.len() > 0 {
        if s[0] != '\n' {
            lines_hold_no_line_feed(s.drop_first(), cur.push(s[0]), i);
        } else if i >= 1 {
            lines_hold_no_line_feed(s.drop_first(), Seq::empty(), i - 1);
        }
    }
}

/// The character of a digit is worth the digit.
pub proof fn lemma_digit_value(d: nat)
    requires
        d < 10,
    ensures
        digit_value(digit_of(d)) == Some(d),
        digit_of(d) != '+',
{
}

/// The decimal digits of a number are digits, and stand for the number.
pub proof fn lemma_decimal_value(n: nat)
    ensures
        is_digits(decimal_of(n)),
        value_of(decimal_of(n)) == n,
        decimal_of(n)[0] != '+',
    decreases n,
{
    lemma_digit_value(n % 10);
    let s = decimal_of(n);
    if n >= 10 {
        lemma_decimal_value(n / 10);
        let d = decimal_of(n / 10);
        assert(s.drop_last() =~= d);
        assert(s.last() == digit_of(n % 10));
        assert(value_of(s) == value_of(d) * 10 + (n % 10));
        assert forall|i: int| 0 <= i < s.len() implies (#[trigger] digit_value(s[i])) is Some by {
            if i < d.len() {
                assert(s[i] == d[i]);
            }
        }
    } else {
        assert(s.len() == 1);
        assert(s.drop_last() =~= Seq::empty());
        assert(s.last() == digit_of(n));
        assert(value_of(s.drop_last()) == 0);
        assert(value_of(s) == value_of(s.drop_last()) * 10 + n);
    }
}

/// A number written in decimal reads back as itself.
pub proof fn decimal_reads_back(n: u32)
    ensures
        number_of(decimal_of(n as nat)) == Some(n),
{
    lemma_decimal_value(n as nat);
}

} // verus!
