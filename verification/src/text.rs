//! Text operations, stated over the sequence of characters of a string.
use vstd::prelude::*;
use vstd::string::*;
use vstd::utf8::is_ascii_chars;

verus! {

/// The elements of a sequence, each taken by its view.
pub open spec fn views<T: View>(s: Seq<T>) -> Seq<T::V> {
    Seq::new(s.len(), |i: int| s[i]@)
}

/// The view of an optional value.
pub open spec fn opt_view<T: View>(o: Option<T>) -> Option<T::V> {
    match o {
        Some(x) => Some(x@),
        None => None,
    }
}

/// `String::push`: the character is appended at the end.
pub assume_specification[ String::push ](s: &mut String, c: char)
    ensures
        final(s)@ == old(s)@.push(c),
;

/// The lower-case form of a text, as `str::to_lowercase` gives it.
pub uninterp spec fn lowercase(s: Seq<char>) -> Seq<char>;

/// The lower-case form of an ASCII character; other characters stay.
pub open spec fn ascii_lower_char(c: char) -> char {
    if 'A' <= c <= 'Z' {
        (c as u32 + 32) as char
    } else {
        c
    }
}

/// The text with its letters `A` to `Z` in lower case.
pub open spec fn ascii_lower(s: Seq<char>) -> Seq<char> {
    Seq::new(s.len(), |i: int| ascii_lower_char(s[i]))
}

/// Calls `str::to_lowercase`. The result is a function of the text alone, named
/// `lowercase`; of a text of ASCII characters it is the text with `A` to `Z`
/// replaced by `a` to `z`.
#[verifier::external_body]
pub(crate) fn to_lowercase(s: &str) -> (r: String)
    ensures
        r@ == lowercase(s@),
        is_ascii_chars(s@) ==> r@ == ascii_lower(s@),
{
    s.to_lowercase()
}

/// The characters with the Unicode property `White_Space`.
pub open spec fn white_space(c: char) -> bool {
    ||| '\u{9}' <= c <= '\u{d}'
    ||| c == '\u{20}'
    ||| c == '\u{85}'
    ||| c == '\u{a0}'
    ||| c == '\u{1680}'
    ||| '\u{2000}' <= c <= '\u{200a}'
    ||| c == '\u{2028}'
    ||| c == '\u{2029}'
    ||| c == '\u{202f}'
    ||| c == '\u{205f}'
    ||| c == '\u{3000}'
}

/// Whether a character is white space.
pub fn is_white_space(c: char) -> (r: bool)
    ensures
        r == white_space(c),
{
    ('\u{9}' <= c && c <= '\u{d}') || c == '\u{20}' || c == '\u{85}' || c == '\u{a0}' || c
        == '\u{1680}' || ('\u{2000}' <= c && c <= '\u{200a}') || c == '\u{2028}' || c == '\u{2029}'
        || c == '\u{202f}' || c == '\u{205f}' || c == '\u{3000}'
}

/// The text without its leading white space.
pub open spec fn trimmed_start(s: Seq<char>) -> Seq<char>
    decreases s.len(),
{
    if s.len() > 0 && white_space(s[0]) {
        trimmed_start(s.drop_first())
    } else {
        s
    }
}

/// The text without its trailing white space.
pub open spec fn trimmed_end(s: Seq<char>) -> Seq<char>
    decreases s.len(),
{
    if s.len() > 0 && white_space(s.last()) {
        trimmed_end(s.drop_last())
    } else {
        s
    }
}

/// The text without white space at either end.
pub open spec fn trimmed(s: Seq<char>) -> Seq<char> {
    trimmed_end(trimmed_start(s))
}

/// The text without the leading run of the character `c`.
pub open spec fn stripped(s: Seq<char>, c: char) -> Seq<char>
    decreases s.len(),
{
    if s.len() > 0 && s[0] == c {
        stripped(s.drop_first(), c)
    } else {
        s
    }
}

/// The position of the first `c` in the text; the text's length where there is none.
pub open spec fn first_index(s: Seq<char>, c: char) -> int
    decreases s.len(),
{
    if s.len() == 0 || s[0] == c {
        0
    } else {
        1 + first_index(s.drop_first(), c)
    }
}

/// The part of the text before its first `c`; the whole text where there is none.
pub open spec fn before(s: Seq<char>, c: char) -> Seq<char> {
    s.take(first_index(s, c))
}

/// The `k`-th of the pieces into which the separator `c` divides the text.
pub open spec fn piece(s: Seq<char>, c: char, k: nat) -> Option<Seq<char>>
    decreases k,
{
    if k == 0 {
        Some(before(s, c))
    } else if first_index(s, c) < s.len() {
        piece(s.skip(first_index(s, c) + 1), c, (k - 1) as nat)
    } else {
        None
    }
}

/// Whether `q` stands in `s` at position `i`.
pub open spec fn occurs_at(s: Seq<char>, q: Seq<char>, i: int) -> bool {
    0 <= i && i + q.len() <= s.len() && s.subrange(i, i + q.len()) == q
}

/// Whether `q` stands somewhere in `s`.
pub open spec fn contains_text(s: Seq<char>, q: Seq<char>) -> bool {
    exists|i: int| occurs_at(s, q, i)
}

/// Whether `s` begins with `p`.
pub open spec fn begins_with(s: Seq<char>, p: Seq<char>) -> bool {
    occurs_at(s, p, 0)
}

/// Whether `s` ends with `p`.
pub open spec fn finishes_with(s: Seq<char>, p: Seq<char>) -> bool {
    occurs_at(s, p, s.len() - p.len())
}

/// The characters of a string.
pub fn chars_of(s: &str) -> (r: Vec<char>)
    ensures
        r@ == s@,
{
    let mut r: Vec<char> = Vec::new();
    for c in it: s.chars()
        invariant
            it.seq() == s@,
            r@ == s@.take(it.index()),
    {
        r.push(c);
        assert(s@.take(it.index() + 1) == s@.take(it.index()).push(c));
    }
    assert(s@.take(s@.len() as int) == s@);
    r
}

/// The string of the characters from `from` up to `to`.
pub fn text_of(chars: &Vec<char>, from: usize, to: usize) -> (r: String)
    requires
        from <= to <= chars@.len(),
    ensures
        r@ == chars@.subrange(from as int, to as int),
{
    let mut r: String = String::new();
    let mut i: usize = from;
    while i < to
        invariant
            from <= i <= to <= chars@.len(),
            r@ == chars@.subrange(from as int, i as int),
        decreases to - i,
    {
        r.push(chars[i]);
        i += 1;
        assert(chars@.subrange(from as int, i as int) == chars@.subrange(
            from as int,
            i - 1,
        ).push(chars@[i - 1]));
    }
    r
}

/// The text without white space at either end.
pub fn trim(s: &str) -> (r: String)
    ensures
        r@ == trimmed(s@),
{
    let chars: Vec<char> = chars_of(s);
    let n: usize = chars.len();
    let mut a: usize = 0;
    assert(chars@.skip(0) == chars@);
    while a < n && is_white_space(chars[a])
        invariant
            a <= n == chars@.len(),
            trimmed_start(chars@) == trimmed_start(chars@.skip(a as int)),
        decreases n - a,
    {
        assert(chars@.skip(a as int).drop_first() == chars@.skip(a + 1));
        a += 1;
    }
    let mut b: usize = n;
    assert(chars@.skip(a as int) == chars@.subrange(a as int, b as int));
    while a < b && is_white_space(chars[b - 1])
        invariant
            a <= b <= n == chars@.len(),
            trimmed_end(chars@.skip(a as int)) == trimmed_end(chars@.subrange(a as int, b as int)),
        decreases b,
    {
        assert(chars@.subrange(a as int, b as int).drop_last() == chars@.subrange(
            a as int,
            b - 1,
        ));
        b -= 1;
    }
    text_of(&chars, a, b)
}

/// The text without the leading run of the character `c`.
pub fn strip_start(s: &str, c: char) -> (r: String)
    ensures
        r@ == stripped(s@, c),
{
    let chars: Vec<char> = chars_of(s);
    let n: usize = chars.len();
    let mut a: usize = 0;
    assert(chars@.skip(0) == chars@);
    while a < n && chars[a] == c
        invariant
            a <= n == chars@.len(),
            stripped(chars@, c) == stripped(chars@.skip(a as int), c),
        decreases n - a,
    {
        assert(chars@.skip(a as int).drop_first() == chars@.skip(a + 1));
        a += 1;
    }
    assert(chars@.skip(a as int) == chars@.subrange(a as int, n as int));
    text_of(&chars, a, n)
}

/// The first occurrence lies within the text, or at its end where there is none.
pub proof fn lemma_first_index(s: Seq<char>, c: char)
    ensures
        0 <= first_index(s, c) <= s.len(),
        first_index(s, c) < s.len() ==> s[first_index(s, c)] == c,
        forall|i: int| 0 <= i < first_index(s, c) ==> s[i] != c,
    decreases s.len(),
{
    if s.len() > 0 && s[0] != c {
        let t = s.drop_first();
        lemma_first_index(t, c);
        assert forall|i: int| 0 <= i < first_index(s, c) implies s[i] != c by {
            if i > 0 {
                assert(t[i - 1] == s[i]);
            }
        }
    }
}

/// A position with `c`, and none before it, is the first index.
pub proof fn lemma_first_index_is(s: Seq<char>, c: char, i: int)
    requires
        0 <= i <= s.len(),
        i < s.len() ==> s[i] == c,
        forall|j: int| 0 <= j < i ==> s[j] != c,
    ensures
        first_index(s, c) == i,
{
    lemma_first_index(s, c);
    let k = first_index(s, c);
    if k < i {
        assert(s[k] != c);
    } else if i < k {
        assert(s[i] != c);
    }
}

/// The position of the first `c` at or after `from`; the length where there is none.
fn index_from(chars: &Vec<char>, from: usize, c: char) -> (r: usize)
    requires
        from <= chars@.len(),
    ensures
        from <= r <= chars@.len(),
        r - from == first_index(chars@.skip(from as int), c),
{
    let n: usize = chars.len();
    let mut i: usize = from;
    while i < n && chars[i] != c
        invariant
            from <= i <= n == chars@.len(),
            forall|j: int| from <= j < i ==> chars@[j] != c,
        decreases n - i,
    {
        i += 1;
    }
    proof {
        lemma_first_index_is(chars@.skip(from as int), c, i - from);
    }
    i
}

/// The part of the text before its first `c`; the whole text where there is none.
pub fn take_before(s: &str, c: char) -> (r: String)
    ensures
        r@ == before(s@, c),
{
    let chars: Vec<char> = chars_of(s);
    let i: usize = index_from(&chars, 0, c);
    assert(chars@.skip(0) == chars@);
    assert(chars@.subrange(0, i as int) == chars@.take(i as int));
    text_of(&chars, 0, i)
}

/// The `k`-th of the pieces into which the separator `c` divides the text.
pub fn nth_piece(s: &str, c: char, k: usize) -> (r: Option<String>)
    ensures
        opt_view(r) == piece(s@, c, k as nat),
{
    let chars: Vec<char> = chars_of(s);
    let n: usize = chars.len();
    let mut from: usize = 0;
    let mut left: usize = k;
    assert(chars@.skip(0) == chars@);
    while left > 0
        invariant
            from <= n == chars@.len(),
            piece(s@, c, k as nat) == piece(chars@.skip(from as int), c, left as nat),
        decreases left,
    {
        let i: usize = index_from(&chars, from, c);
        if i >= n {
            return None;
        }
        assert(chars@.skip(from as int).skip(i - from + 1) == chars@.skip(i + 1));
        from = i + 1;
        left -= 1;
    }
    let i: usize = index_from(&chars, from, c);
    assert(chars@.skip(from as int).take(i - from) == chars@.subrange(from as int, i as int));
    Some(text_of(&chars, from, i))
}

/// Whether a character is a decimal digit.
pub open spec fn digit(c: char) -> bool {
    '0' <= c <= '9'
}

/// Whether a text consists of decimal digits.
pub open spec fn all_digits(s: Seq<char>) -> bool {
    forall|i: int| 0 <= i < s.len() ==> digit(#[trigger] s[i])
}

/// The number that a sequence of decimal digits denotes.
pub open spec fn digits_value(s: Seq<char>) -> nat
    decreases s.len(),
{
    if s.len() == 0 {
        0
    } else {
        (10 * digits_value(s.drop_last()) + (s.last() as u32 - '0' as u32)) as nat
    }
}

/// The number that a text denotes: an optional `+`, then digits, within `u32`.
pub open spec fn parsed_u32(s: Seq<char>) -> Option<u32> {
    let d = if s.len() > 0 && s[0] == '+' {
        s.skip(1)
    } else {
        s
    };
    if d.len() > 0 && all_digits(d) && digits_value(d) <= u32::MAX {
        Some(digits_value(d) as u32)
    } else {
        None
    }
}

/// Further digits do not make a number smaller.
proof fn lemma_digits_value_grows(s: Seq<char>, k: int)
    requires
        0 <= k <= s.len(),
        all_digits(s),
    ensures
        digits_value(s.take(k)) <= digits_value(s),
    decreases s.len() - k,
{
    if k < s.len() {
        let t = s.take(k + 1);
        assert(t.drop_last() == s.take(k));
        assert(digit(s[k]));
        lemma_digits_value_grows(s, k + 1);
    } else {
        assert(s.take(k) == s);
    }
}

/// Reads a number: an optional `+`, then digits, within `u32`.
pub fn parse_u32(s: &str) -> (r: Option<u32>)
    ensures
        r == parsed_u32(s@),
{
    let chars: Vec<char> = chars_of(s);
    let n: usize = chars.len();
    let from: usize = if n > 0 && chars[0] == '+' {
        1
    } else {
        0
    };
    let ghost d = chars@.skip(from as int);
    assert(chars@.skip(0) == chars@);
    if from == n {
        return None;
    }
    let mut value: u64 = 0;
    let mut i: usize = from;
    while i < n
        invariant
            from <= i <= n == chars@.len(),
            from < n,
            d == chars@.skip(from as int),
            parsed_u32(s@) == (if all_digits(d) && digits_value(d) <= u32::MAX {
                Some(digits_value(d) as u32)
            } else {
                None
            }),
            forall|j: int| 0 <= j < i - from ==> digit(#[trigger] d[j]),
            value == digits_value(d.take(i - from)),
            value <= u32::MAX,
        decreases n - i,
    {
        let c: char = chars[i];
        assert(d[i - from] == c);
        if !('0' <= c && c <= '9') {
            return None;
        }
        value = 10 * value + (c as u32 - '0' as u32) as u64;
        assert(d.take(i - from + 1).drop_last() == d.take(i - from));
        i += 1;
        if value > u32::MAX as u64 {
            proof {
                if all_digits(d) {
                    lemma_digits_value_grows(d, i - from);
                }
            }
            return None;
        }
    }
    assert(d.take(n - from) == d);
    Some(value as u32)
}

/// Whether `q` stands at position `i`.
fn matches_at(s: &Vec<char>, q: &Vec<char>, i: usize) -> (r: bool)
    requires
        i + q@.len() <= s@.len(),
    ensures
        r == occurs_at(s@, q@, i as int),
{
    let n: usize = q.len();
    let total: usize = s.len();
    let mut j: usize = 0;
    while j < n
        invariant
            j <= n == q@.len(),
            i + n <= total == s@.len(),
            forall|k: int| 0 <= k < j ==> s@[i + k] == #[trigger] q@[k],
        decreases n - j,
    {
        if s[i + j] != q[j] {
            assert(s@.subrange(i as int, i + n)[j as int] != q@[j as int]);
            return false;
        }
        j += 1;
    }
    assert(s@.subrange(i as int, i + n) == q@);
    true
}

/// Whether `q` stands somewhere in `s`.
pub fn contains(s: &str, q: &str) -> (r: bool)
    ensures
        r == contains_text(s@, q@),
{
    let sc: Vec<char> = chars_of(s);
    let qc: Vec<char> = chars_of(q);
    let n: usize = sc.len();
    let m: usize = qc.len();
    if m > n {
        return false;
    }
    let mut i: usize = 0;
    while i <= n - m
        invariant
            m <= n,
            n == sc@.len(),
            m == qc@.len(),
            sc@ == s@,
            qc@ == q@,
            i <= n - m + 1,
            forall|k: int| 0 <= k < i ==> !occurs_at(sc@, qc@, k),
        decreases n - m + 1 - i,
    {
        if matches_at(&sc, &qc, i) {
            return true;
        }
        if i == n - m {
            return false;
        }
        i += 1;
    }
    false
}

/// Whether `s` begins with `p`.
pub fn starts_with(s: &str, p: &str) -> (r: bool)
    ensures
        r == begins_with(s@, p@),
{
    let sc: Vec<char> = chars_of(s);
    let pc: Vec<char> = chars_of(p);
    pc.len() <= sc.len() && matches_at(&sc, &pc, 0)
}

/// Whether `s` ends with `p`.
pub fn ends_with(s: &str, p: &str) -> (r: bool)
    ensures
        r == finishes_with(s@, p@),
{
    let sc: Vec<char> = chars_of(s);
    let pc: Vec<char> = chars_of(p);
    pc.len() <= sc.len() && matches_at(&sc, &pc, sc.len() - pc.len())
}

/// Whether two texts are the same.
pub fn same_text(a: &str, b: &str) -> (r: bool)
    ensures
        r == (a@ == b@),
{
    a.to_owned() == b.to_owned()
}

/// Two texts, one after the other.
pub fn join(a: &str, b: &str) -> (r: String)
    ensures
        r@ == a@ + b@,
{
    let mut r: String = a.to_owned();
    r.append(b);
    r
}

/// Three texts, one after the other.
pub fn join3(a: &str, b: &str, c: &str) -> (r: String)
    ensures
        r@ == a@ + b@ + c@,
{
    let mut r: String = a.to_owned();
    r.append(b);
    r.append(c);
    r
}

/// The character of a decimal digit.
pub open spec fn digit_char(d: nat) -> char {
    ('0' as u32 + d) as char
}

/// A number in decimal notation.
pub open spec fn decimal_text(n: nat) -> Seq<char>
    decreases n,
{
    if n < 10 {
        seq![digit_char(n)]
    } else {
        decimal_text(n / 10).push(digit_char(n % 10))
    }
}

/// A number in decimal notation.
pub fn decimal(n: u128) -> (r: String)
    ensures
        r@ == decimal_text(n as nat),
    decreases n,
{
    let d: u8 = (n % 10) as u8;
    let c: char = (48 + d) as char;
    if n < 10 {
        let mut r: String = String::new();
        r.push(c);
        assert(r@ == seq![digit_char(n as nat)]);
        r
    } else {
        let mut r: String = decimal(n / 10);
        r.push(c);
        r
    }
}

/// A number's decimal notation consists of digits and denotes the number.
pub proof fn lemma_decimal_value(n: nat)
    ensures
        decimal_text(n).len() > 0,
        all_digits(decimal_text(n)),
        digits_value(decimal_text(n)) == n,
    decreases n,
{
    if n < 10 {
        let t = seq![digit_char(n)];
        assert(t.drop_last() == Seq::<char>::empty());
        assert(digits_value(t.drop_last()) == 0);
        assert(t.last() as u32 == '0' as u32 + n);
    } else {
        lemma_decimal_value(n / 10);
        let h = decimal_text(n / 10);
        let t = h.push(digit_char(n % 10));
        assert(t.drop_last() == h);
        assert(t.last() as u32 == '0' as u32 + n % 10);
        assert forall|i: int| 0 <= i < t.len() implies digit(#[trigger] t[i]) by {
            if i < h.len() {
                assert(t[i] == h[i]);
            }
        }
    }
}

/// Different numbers have different decimal notations.
pub proof fn law_decimal_injective(a: nat, b: nat)
    requires
        decimal_text(a) == decimal_text(b),
    ensures
        a == b,
{
    lemma_decimal_value(a);
    lemma_decimal_value(b);
}

/// Reading the decimal notation of a `u32` gives the number back.
pub proof fn law_decimal_round_trip(n: u32)
    ensures
        parsed_u32(decimal_text(n as nat)) == Some(n),
{
    lemma_decimal_value(n as nat);
    assert(digit(decimal_text(n as nat)[0]));
}

/// The first line of a text, without its line ending (`\n` or `\r\n`).
pub open spec fn first_line(s: Seq<char>) -> Seq<char> {
    let line = before(s, '\n');
    if first_index(s, '\n') < s.len() && line.len() > 0 && line.last() == '\r' {
        line.drop_last()
    } else {
        line
    }
}

/// The first `limit` characters of the first line; all of it where it is shorter.
pub open spec fn first_line_head(s: Seq<char>, limit: nat) -> Seq<char> {
    let line = first_line(s);
    if line.len() <= limit {
        line
    } else {
        line.take(limit as int)
    }
}

/// The first `limit` characters of the first line.
pub fn line_head(s: &str, limit: usize) -> (r: String)
    ensures
        r@ == first_line_head(s@, limit as nat),
{
    let chars: Vec<char> = chars_of(s);
    assert(chars@.skip(0) == chars@);
    let i: usize = index_from(&chars, 0, '\n');
    let end: usize = if i < chars.len() && i > 0 && chars[i - 1] == '\r' {
        i - 1
    } else {
        i
    };
    let to: usize = if end <= limit {
        end
    } else {
        limit
    };
    assert(before(s@, '\n') == chars@.take(i as int));
    assert(first_line(s@) == chars@.take(end as int));
    assert(first_line_head(s@, limit as nat) == chars@.subrange(0, to as int));
    text_of(&chars, 0, to)
}

/// What is left of a text without leading white space does not begin with any.
proof fn lemma_trimmed_start(s: Seq<char>)
    ensures
        trimmed_start(s).len() == 0 || !white_space(trimmed_start(s)[0]),
    decreases s.len(),
{
    if s.len() > 0 && white_space(s[0]) {
        lemma_trimmed_start(s.drop_first());
    }
}

/// What is left of a text without trailing white space is a beginning of it
/// that does not end with any.
proof fn lemma_trimmed_end(s: Seq<char>)
    ensures
        trimmed_end(s).is_prefix_of(s),
        trimmed_end(s).len() == 0 || !white_space(trimmed_end(s).last()),
    decreases s.len(),
{
    if s.len() > 0 && white_space(s.last()) {
        lemma_trimmed_end(s.drop_last());
    }
}

/// A text of which trimming leaves nothing is white space: nothing is left of it
/// at either end, and it makes no difference before another text.
pub proof fn lemma_blank(s: Seq<char>, rest: Seq<char>)
    requires
        trimmed(s).len() == 0,
    ensures
        trimmed_start(s).len() == 0,
        trimmed_end(s).len() == 0,
        trimmed_start(s + rest) == trimmed_start(rest),
    decreases s.len(),
{
    if s.len() == 0 {
        assert(s + rest == rest);
    } else if white_space(s[0]) {
        let tail = s.drop_first();
        assert((s + rest)[0] == s[0]);
        assert((s + rest).drop_first() == tail + rest);
        lemma_blank(tail, rest);
        lemma_blank_end(s[0], tail);
        assert(seq![s[0]] + tail == s);
    } else {
        lemma_visible_start(s);
    }
}

/// White space before a text of which nothing is left at its end leaves nothing.
proof fn lemma_blank_end(c: char, s: Seq<char>)
    requires
        white_space(c),
        trimmed_end(s).len() == 0,
    ensures
        trimmed_end(seq![c] + s).len() == 0,
    decreases s.len(),
{
    let w = seq![c] + s;
    if s.len() == 0 {
        assert(w.drop_last() == s);
        assert(w.last() == c);
    } else {
        assert(w.last() == s.last());
        assert(w.drop_last() == seq![c] + s.drop_last());
        lemma_blank_end(c, s.drop_last());
    }
}

/// Something is left of a text that begins with a visible character.
proof fn lemma_visible_start(s: Seq<char>)
    requires
        s.len() > 0,
        !white_space(s[0]),
    ensures
        trimmed_end(s).len() > 0,
    decreases s.len(),
{
    if white_space(s.last()) {
        lemma_visible_start(s.drop_last());
    }
}

/// A text without white space at its ends is left as it is.
pub proof fn law_trimming_is_final(s: Seq<char>)
    ensures
        trimmed(trimmed(s)) == trimmed(s),
{
    let t = trimmed_start(s);
    let u = trimmed(s);
    lemma_trimmed_start(s);
    lemma_trimmed_end(t);
    if u.len() > 0 {
        assert(u[0] == t[0]);
    }
}

/// Lower case leaves a text in lower case as it is.
pub proof fn law_lower_case_is_final(s: Seq<char>)
    ensures
        ascii_lower(ascii_lower(s)) == ascii_lower(s),
{
    assert forall|i: int| 0 <= i < s.len() implies ascii_lower(ascii_lower(s))[i] == ascii_lower(
        s,
    )[i] by {
        lemma_lower_char(s[i]);
    }
}

/// A character in lower case stays so, and is white space if and only if the
/// character was.
proof fn lemma_lower_char(c: char)
    ensures
        ascii_lower_char(ascii_lower_char(c)) == ascii_lower_char(c),
        white_space(ascii_lower_char(c)) == white_space(c),
{
    if 'A' <= c <= 'Z' {
        assert(ascii_lower_char(c) as u32 == c as u32 + 32);
    }
}

/// White space can be taken off before or after a text is put in lower case.
pub proof fn lemma_trimmed_lower(s: Seq<char>)
    ensures
        trimmed(ascii_lower(s)) == ascii_lower(trimmed(s)),
{
    lemma_trimmed_start_lower(s);
    lemma_trimmed_end_lower(trimmed_start(s));
}

proof fn lemma_trimmed_start_lower(s: Seq<char>)
    ensures
        trimmed_start(ascii_lower(s)) == ascii_lower(trimmed_start(s)),
    decreases s.len(),
{
    if s.len() > 0 {
        lemma_lower_char(s[0]);
        assert(ascii_lower(s).drop_first() == ascii_lower(s.drop_first()));
        if white_space(s[0]) {
            lemma_trimmed_start_lower(s.drop_first());
        }
    }
}

proof fn lemma_trimmed_end_lower(s: Seq<char>)
    ensures
        trimmed_end(ascii_lower(s)) == ascii_lower(trimmed_end(s)),
    decreases s.len(),
{
    if s.len() > 0 {
        lemma_lower_char(s.last());
        assert(ascii_lower(s).drop_last() == ascii_lower(s.drop_last()));
        if white_space(s.last()) {
            lemma_trimmed_end_lower(s.drop_last());
        }
    }
}

/// A part of a part of a text is a part of the text.
pub proof fn lemma_contains_transitive(s: Seq<char>, q: Seq<char>, p: Seq<char>)
    requires
        contains_text(s, q),
        contains_text(q, p),
    ensures
        contains_text(s, p),
{
    let i = choose|i: int| occurs_at(s, q, i);
    let j = choose|j: int| occurs_at(q, p, j);
    assert(s.subrange(i, i + q.len()).subrange(j, j + p.len()) == s.subrange(
        i + j,
        i + j + p.len(),
    ));
    assert(occurs_at(s, p, i + j));
}

/// Lower case moves the letters `A` to `Z` by 32 places, leaves every other
/// character, and keeps all positions.
pub proof fn law_lower_case_by_character(s: Seq<char>, i: int)
    requires
        0 <= i < s.len(),
    ensures
        ascii_lower(s).len() == s.len(),
        65 <= s[i] as u32 <= 90 ==> ascii_lower(s)[i] as u32 == s[i] as u32 + 32,
        !(65 <= s[i] as u32 <= 90) ==> ascii_lower(s)[i] == s[i],
{
}

/// Of a text between white space, trimming leaves the text, if it neither begins
/// nor ends with white space.
pub proof fn law_trimming_leaves_the_inner_text(left: Seq<char>, inner: Seq<char>, right: Seq<char>)
    requires
        forall|i: int| 0 <= i < left.len() ==> white_space(#[trigger] left[i]),
        forall|i: int| 0 <= i < right.len() ==> white_space(#[trigger] right[i]),
        inner.len() > 0 ==> !white_space(inner[0]) && !white_space(inner[inner.len() - 1]),
    ensures
        trimmed(left + inner + right) == inner,
{
    lemma_trim_left(left, inner + right);
    assert(left + inner + right == left + (inner + right));
    if inner.len() > 0 {
        assert((inner + right)[0] == inner[0]);
        assert(trimmed_start(inner + right) == inner + right);
        lemma_trim_right(inner, right);
        assert(inner.last() == inner[inner.len() - 1]);
    } else {
        assert(inner + right == right + inner);
        lemma_trim_left(right, inner);
        assert(trimmed_start(inner) == inner);
    }
}

/// Leading white space is taken off.
proof fn lemma_trim_left(left: Seq<char>, rest: Seq<char>)
    requires
        forall|i: int| 0 <= i < left.len() ==> white_space(#[trigger] left[i]),
    ensures
        trimmed_start(left + rest) == trimmed_start(rest),
    decreases left.len(),
{
    if left.len() == 0 {
        assert(left + rest == rest);
    } else {
        assert((left + rest)[0] == left[0]);
        assert((left + rest).drop_first() == left.drop_first() + rest);
        assert forall|i: int| 0 <= i < left.len() - 1 implies white_space(
            #[trigger] left.drop_first()[i],
        ) by {
            assert(left.drop_first()[i] == left[i + 1]);
        }
        lemma_trim_left(left.drop_first(), rest);
    }
}

/// Trailing white space is taken off.
proof fn lemma_trim_right(rest: Seq<char>, right: Seq<char>)
    requires
        forall|i: int| 0 <= i < right.len() ==> white_space(#[trigger] right[i]),
    ensures
        trimmed_end(rest + right) == trimmed_end(rest),
    decreases right.len(),
{
    if right.len() == 0 {
        assert(rest + right == rest);
    } else {
        assert((rest + right).last() == right[right.len() - 1]);
        assert((rest + right).drop_last() == rest + right.drop_last());
        assert forall|i: int| 0 <= i < right.len() - 1 implies white_space(
            #[trigger] right.drop_last()[i],
        ) by {
            assert(right.drop_last()[i] == right[i]);
        }
        lemma_trim_right(rest, right.drop_last());
    }
}

/// Of a run of a character and a text that does not begin with it, stripping
/// leaves the text.
pub proof fn law_stripping_leaves_the_rest(n: nat, c: char, rest: Seq<char>)
    requires
        rest.len() > 0 ==> rest[0] != c,
    ensures
        stripped(Seq::new(n, |i: int| c) + rest, c) == rest,
    decreases n,
{
    let run = Seq::new(n, |i: int| c);
    if n == 0 {
        assert(run + rest == rest);
    } else {
        assert((run + rest)[0] == c);
        assert((run + rest).drop_first() == Seq::new((n - 1) as nat, |i: int| c) + rest);
        law_stripping_leaves_the_rest((n - 1) as nat, c, rest);
    }
}

/// A text without the separator is one piece. Put before a separator and
/// another text it is the first piece, and the pieces of the other text follow.
pub proof fn law_pieces_of_a_divided_text(s: Seq<char>, c: char, rest: Seq<char>, k: nat)
    requires
        !s.contains(c),
    ensures
        before(s, c) == s,
        before(s + seq![c] + rest, c) == s,
        piece(s, c, 0) == Some(s),
        piece(s, c, k + 1) is None,
        piece(s + seq![c] + rest, c, 0) == Some(s),
        piece(s + seq![c] + rest, c, k + 1) == piece(rest, c, k),
{
    let w = s + seq![c] + rest;
    assert forall|j: int| 0 <= j < s.len() implies s[j] != c by {
        assert(s.contains(s[j]));
    }
    lemma_first_index_is(s, c, s.len() as int);
    assert(s.take(s.len() as int) == s);
    assert(w[s.len() as int] == c);
    assert forall|j: int| 0 <= j < s.len() implies w[j] != c by {
        assert(w[j] == s[j]);
    }
    lemma_first_index_is(w, c, s.len() as int);
    assert(w.take(s.len() as int) == s);
    assert(w.skip(s.len() as int + 1) == rest);
}

/// A text stands in another one if and only if the other one is made of
/// something, the text, and something; it begins or ends the other one if and
/// only if nothing precedes or follows it.
pub proof fn law_where_a_text_stands(s: Seq<char>, q: Seq<char>, left: Seq<char>, right: Seq<char>)
    ensures
        contains_text(left + q + right, q),
        begins_with(q + right, q),
        finishes_with(left + q, q),
        contains_text(s, q) ==> exists|i: int|
            0 <= i <= s.len() - q.len() && #[trigger] s.subrange(i, i + q.len()) == q,
        begins_with(s, q) ==> q.len() <= s.len() && s.subrange(0, q.len() as int) == q,
        finishes_with(s, q) ==> q.len() <= s.len() && s.subrange(
            s.len() - q.len(),
            s.len() as int,
        ) == q,
{
    let w = left + q + right;
    assert(w.subrange(left.len() as int, (left.len() + q.len()) as int) == q);
    assert(occurs_at(w, q, left.len() as int));
    assert((q + right).subrange(0, q.len() as int) == q);
    assert((left + q).subrange(left.len() as int, (left.len() + q.len()) as int) == q);
    if contains_text(s, q) {
        let i = choose|i: int| occurs_at(s, q, i);
        assert(s.subrange(i, i + q.len()) == q);
    }
}

/// Decimal notation: nothing denotes 0, a further digit multiplies by ten and
/// adds the digit, and a number is written as it would be read.
pub proof fn law_decimal_digits(s: Seq<char>, c: char, n: nat, d: nat)
    requires
        48 <= c as u32 <= 57,
        d < 10,
    ensures
        digits_value(Seq::empty()) == 0,
        digits_value(s.push(c)) == 10 * digits_value(s) + (c as u32 - 48),
        decimal_text(d).len() == 1,
        decimal_text(d)[0] as u32 == 48 + d,
        n > 0 ==> decimal_text(10 * n + d) == decimal_text(n) + decimal_text(d),
{
    assert(s.push(c).drop_last() == s);
    if n > 0 {
        assert((10 * n + d) / 10 == n);
        assert((10 * n + d) % 10 == d);
        assert(decimal_text(n).push(digit_char(d)) == decimal_text(n) + seq![digit_char(d)]);
    }
}

/// Digits are read as the number that they denote where it is within `u32`, with
/// or without a `+` before them; nothing else is read as a number.
pub proof fn law_what_is_read_as_a_number(s: Seq<char>)
    ensures
        s.len() > 0 && (forall|i: int| 0 <= i < s.len() ==> '0' <= #[trigger] s[i] <= '9')
            ==> parsed_u32(s) == parsed_u32(seq!['+'] + s) && (digits_value(s) <= u32::MAX
            ==> parsed_u32(s) == Some(digits_value(s) as u32)) && (digits_value(s) > u32::MAX
            ==> parsed_u32(s) is None),
        s.len() == 0 ==> parsed_u32(s) is None && parsed_u32(seq!['+'] + s) is None,
        (exists|i: int|
            0 <= i < s.len() && !('0' <= #[trigger] s[i] <= '9') && !(i == 0 && s[0] == '+'))
            ==> parsed_u32(s) is None,
{
    let plus = seq!['+'] + s;
    assert(plus.skip(1) == s);
    if s.len() > 0 && (forall|i: int| 0 <= i < s.len() ==> '0' <= #[trigger] s[i] <= '9') {
        assert forall|i: int| 0 <= i < s.len() implies digit(#[trigger] s[i]) by {
            assert('0' <= s[i] <= '9');
        }
        assert(s[0] != '+');
    }
    if exists|i: int|
        0 <= i < s.len() && !('0' <= #[trigger] s[i] <= '9') && !(i == 0 && s[0] == '+') {
        let i = choose|i: int|
            0 <= i < s.len() && !('0' <= #[trigger] s[i] <= '9') && !(i == 0 && s[0] == '+');
        assert(!digit(s[i]));
        if s[0] == '+' {
            assert(s.skip(1)[i - 1] == s[i]);
        }
    }
}

/// The first line is what stands before the first line ending, be it `\n` or
/// `\r\n`, or everything where there is none; its head is as much of it as was
/// asked for.
pub proof fn law_first_line_of_a_text(line: Seq<char>, rest: Seq<char>, limit: nat, s: Seq<char>)
    requires
        !line.contains('\n'),
    ensures
        first_line(line) == line,
        first_line(line + seq!['\r', '\n'] + rest) == line,
        line.len() == 0 || line[line.len() - 1] != '\r' ==> first_line(line + seq!['\n'] + rest)
            == line,
        first_line(s).len() <= limit ==> first_line_head(s, limit) == first_line(s),
        first_line(s).len() > limit ==> first_line_head(s, limit) == first_line(s).subrange(
            0,
            limit as int,
        ),
{
    law_pieces_of_a_divided_text(line, '\n', rest, 0);
    assert forall|j: int| 0 <= j < line.len() implies line[j] != '\n' by {
        assert(line.contains(line[j]));
    }
    lemma_first_index_is(line, '\n', line.len() as int);
    let w = line + seq!['\n'] + rest;
    assert(w[line.len() as int] == '\n');
    lemma_first_index(w, '\n');
    assert(first_index(w, '\n') < w.len());
    let long = line.push('\r');
    assert forall|j: int| 0 <= j < long.len() implies long[j] != '\n' by {
        if j < line.len() {
            assert(long[j] == line[j]);
        }
    }
    law_pieces_of_a_divided_text(long, '\n', rest, 0);
    assert(line + seq!['\r', '\n'] + rest == long + seq!['\n'] + rest);
    let v = long + seq!['\n'] + rest;
    assert(v[long.len() as int] == '\n');
    lemma_first_index(v, '\n');
    assert(first_index(v, '\n') < v.len());
    assert(long.drop_last() == line);
}

/// White space by code: tab to carriage return, space, next line, and the spaces
/// and separators of Unicode; no other character counts.
pub proof fn law_white_space_by_code(c: char)
    ensures
        ({
            let n = c as u32;
            white_space(c) <==> (9 <= n && n <= 13) || n == 32 || n == 133 || n == 160 || n == 5760
                || (8192 <= n && n <= 8202) || n == 8232 || n == 8233 || n == 8239 || n == 8287 || n
                == 12288
        }),
{
}

/// A text with a visible character keeps something when it is trimmed.
pub proof fn law_visible_text_stays(s: Seq<char>, i: int)
    requires
        0 <= i < s.len(),
        !white_space(s[i]),
    ensures
        trimmed(s).len() > 0,
    decreases s.len(),
{
    if white_space(s[0]) {
        assert(s.drop_first()[i - 1] == s[i]);
        law_visible_text_stays(s.drop_first(), i - 1);
    } else {
        lemma_visible_start_stays(s);
    }
}

/// A text that begins with a visible character keeps it when its end is trimmed.
proof fn lemma_visible_start_stays(s: Seq<char>)
    requires
        s.len() > 0,
        !white_space(s[0]),
    ensures
        trimmed_end(s).len() > 0,
    decreases s.len(),
{
    if white_space(s.last()) {
        assert(s.len() > 1);
        assert(s.drop_last()[0] == s[0]);
        lemma_visible_start_stays(s.drop_last());
    }
}

} // verus!
