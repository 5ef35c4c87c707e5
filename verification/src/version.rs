//! Version numbers of the launcher.
use crate::launcher::Vault64App;
use crate::text::{
    before, decimal_text, digit, digits_value, first_index, law_decimal_round_trip,
    law_pieces_of_a_divided_text, law_stripping_leaves_the_rest, law_trimming_is_final,
    law_trimming_leaves_the_inner_text, law_what_is_read_as_a_number, lemma_blank,
    lemma_decimal_value, lemma_first_index, lemma_first_index_is, nth_piece, parse_u32, parsed_u32,
    piece, same_text, strip_start, stripped, take_before, trim, trimmed, trimmed_end, trimmed_start,
    white_space,
};
use vstd::prelude::*;

verus! {

/// The number that a piece of a version stands for: what precedes the first
/// `-`, read as a number; 0 where there is no piece or no number.
pub open spec fn version_number(p: Option<Seq<char>>) -> u32 {
    match p {
        Some(s) => match parsed_u32(before(s, '-')) {
            Some(n) => n,
            None => 0,
        },
        None => 0,
    }
}

/// The three numbers of a version: of the text without surrounding white space
/// and without leading `v`s, the first three pieces between dots.
pub open spec fn version_of(v: Seq<char>) -> (u32, u32, u32) {
    let c = stripped(trimmed(v), 'v');
    (
        version_number(piece(c, '.', 0)),
        version_number(piece(c, '.', 1)),
        version_number(piece(c, '.', 2)),
    )
}

/// Whether version `a` is higher than version `b`.
pub open spec fn higher(a: (u32, u32, u32), b: (u32, u32, u32)) -> bool {
    a.0 > b.0 || (a.0 == b.0 && (a.1 > b.1 || (a.1 == b.1 && a.2 > b.2)))
}

/// Whether a text names no version number other than 0.0.0.
pub open spec fn unnumbered(v: Seq<char>) -> bool {
    version_of(v) == (0u32, 0u32, 0u32)
}

/// Whether `latest` names a newer version than `current`: a higher one, or,
/// where neither has numbers, another one.
pub open spec fn newer(latest: Seq<char>, current: Seq<char>) -> bool {
    if unnumbered(latest) && unnumbered(current) {
        stripped(latest, 'v') != stripped(current, 'v')
    } else {
        higher(version_of(latest), version_of(current))
    }
}

/// The number that a piece of a version stands for.
fn piece_number(cleaned: &str, k: usize) -> (r: u32)
    ensures
        r == version_number(piece(cleaned@, '.', k as nat)),
{
    match nth_piece(cleaned, '.', k) {
        Some(p) => {
            let head: String = take_before(p.as_str(), '-');
            match parse_u32(head.as_str()) {
                Some(n) => n,
                None => 0,
            }
        },
        None => 0,
    }
}

impl Vault64App {
    /// The three numbers of a version.
    pub fn version_tuple(v: &str) -> (r: (u32, u32, u32))
        ensures
            r == version_of(v@),
    {
        let inner: String = trim(v);
        let cleaned: String = strip_start(inner.as_str(), 'v');
        (
            piece_number(cleaned.as_str(), 0),
            piece_number(cleaned.as_str(), 1),
            piece_number(cleaned.as_str(), 2),
        )
    }

    /// Whether `latest` names a newer version than `current`.
    pub fn is_newer_version(latest: &str, current: &str) -> (r: bool)
        ensures
            r == newer(latest@, current@),
    {
        let l: (u32, u32, u32) = Self::version_tuple(latest);
        let c: (u32, u32, u32) = Self::version_tuple(current);
        if l.0 != 0 || l.1 != 0 || l.2 != 0 || c.0 != 0 || c.1 != 0 || c.2 != 0 {
            l.0 > c.0 || (l.0 == c.0 && (l.1 > c.1 || (l.1 == c.1 && l.2 > c.2)))
        } else {
            let a: String = strip_start(latest, 'v');
            let b: String = strip_start(current, 'v');
            !same_text(a.as_str(), b.as_str())
        }
    }
}

/// No version is newer than itself.
pub proof fn law_newer_irreflexive(v: Seq<char>)
    ensures
        !newer(v, v),
{
}

/// Of two versions of which one has a number, at most one is newer than the
/// other, and exactly one where the numbers differ.
pub proof fn law_newer_asymmetric(a: Seq<char>, b: Seq<char>)
    requires
        !unnumbered(a) || !unnumbered(b),
    ensures
        !(newer(a, b) && newer(b, a)),
        version_of(a) != version_of(b) ==> newer(a, b) || newer(b, a),
{
}

/// Newer than newer is newer, where one of the versions has a number to go by.
pub proof fn law_newer_transitive(a: Seq<char>, b: Seq<char>, c: Seq<char>)
    requires
        !unnumbered(a) || !unnumbered(b) || !unnumbered(c),
        newer(a, b),
        newer(b, c),
    ensures
        newer(a, c),
{
}

/// A version written as three numbers with dots between them.
pub open spec fn version_text(a: u32, b: u32, c: u32) -> Seq<char> {
    decimal_text(a as nat).push('.') + decimal_text(b as nat).push('.') + decimal_text(c as nat)
}

/// A text that neither begins nor ends with white space is left as it is.
proof fn lemma_trimmed_same(s: Seq<char>)
    requires
        s.len() > 0,
        !white_space(s[0]),
        !white_space(s.last()),
    ensures
        trimmed(s) == s,
{
}

/// A piece of digits before the first dot is a number of the version.
proof fn lemma_number_piece(n: u32, rest: Seq<char>)
    requires
        rest.len() == 0 || rest[0] == '.',
    ensures
        first_index(decimal_text(n as nat) + rest, '.') == decimal_text(n as nat).len(),
        before(decimal_text(n as nat) + rest, '.') == decimal_text(n as nat),
        version_number(Some(decimal_text(n as nat))) == n,
{
    let d = decimal_text(n as nat);
    lemma_decimal_value(n as nat);
    law_decimal_round_trip(n);
    let s = d + rest;
    assert forall|j: int| 0 <= j < d.len() implies s[j] != '.' by {
        assert(digit(d[j]));
    }
    lemma_first_index_is(s, '.', d.len() as int);
    assert(s.take(d.len() as int) == d);
    assert forall|j: int| 0 <= j < d.len() implies d[j] != '-' by {
        assert(digit(d[j]));
    }
    lemma_first_index_is(d, '-', d.len() as int);
    assert(d.take(d.len() as int) == d);
}

/// The pieces of a version written as three numbers are these numbers.
proof fn lemma_version_pieces(a: u32, b: u32, c: u32)
    ensures
        piece(version_text(a, b, c), '.', 0) == Some(decimal_text(a as nat)),
        piece(version_text(a, b, c), '.', 1) == Some(decimal_text(b as nat)),
        piece(version_text(a, b, c), '.', 2) == Some(decimal_text(c as nat)),
{
    let (da, db, dc) = (decimal_text(a as nat), decimal_text(b as nat), decimal_text(c as nat));
    let s = version_text(a, b, c);
    let s1 = db.push('.') + dc;
    let none = Seq::<char>::empty();
    assert(s == da + (seq!['.'] + s1));
    lemma_number_piece(a, seq!['.'] + s1);
    assert(s.skip(da.len() as int + 1) == s1);
    assert(s1 == db + (seq!['.'] + dc));
    lemma_number_piece(b, seq!['.'] + dc);
    assert(s1.skip(db.len() as int + 1) == dc);
    assert(dc == dc + none);
    lemma_number_piece(c, none);
    assert(piece(s, '.', 1) == piece(s1, '.', 0));
    assert(piece(s1, '.', 1) == piece(dc, '.', 0));
    assert(piece(s, '.', 2) == piece(s1, '.', 1));
}

/// Nothing is cut from a version written as three numbers but a leading `v`.
proof fn lemma_version_text_clean(a: u32, b: u32, c: u32)
    ensures
        stripped(trimmed(version_text(a, b, c)), 'v') == version_text(a, b, c),
        stripped(trimmed(seq!['v'] + version_text(a, b, c)), 'v') == version_text(a, b, c),
{
    let (da, dc) = (decimal_text(a as nat), decimal_text(c as nat));
    let s = version_text(a, b, c);
    let v = seq!['v'] + s;
    lemma_decimal_value(a as nat);
    lemma_decimal_value(c as nat);
    assert(digit(da[0]) && digit(dc[dc.len() - 1]));
    assert(s[0] == da[0]);
    assert(s.last() == dc[dc.len() - 1]);
    assert(v.last() == s.last());
    lemma_trimmed_same(s);
    lemma_trimmed_same(v);
    assert(v.drop_first() == s);
    assert(stripped(s, 'v') == s);
}

/// Three numbers written as a version, with or without a leading `v`, are read
/// back as these numbers.
pub proof fn law_version_round_trip(a: u32, b: u32, c: u32)
    ensures
        version_of(version_text(a, b, c)) == (a, b, c),
        version_of(seq!['v'] + version_text(a, b, c)) == (a, b, c),
{
    lemma_version_pieces(a, b, c);
    lemma_version_text_clean(a, b, c);
    lemma_number_piece(a, Seq::empty());
    lemma_number_piece(b, Seq::empty());
    lemma_number_piece(c, Seq::empty());
}

/// White space around a version makes no difference.
pub proof fn law_outer_space_ignored(v: Seq<char>)
    ensures
        version_of(trimmed(v)) == version_of(v),
{
    law_trimming_is_final(v);
}

/// A leading `v` makes no difference to a version that does not begin with
/// white space, or that is nothing but white space.
pub proof fn law_leading_v_ignored(v: Seq<char>)
    requires
        trimmed(v).len() == 0 || !white_space(v[0]),
    ensures
        version_of(seq!['v'] + v) == version_of(v),
{
    let w = seq!['v'] + v;
    assert(trimmed_start(w) == w);
    if trimmed(v).len() == 0 {
        lemma_blank(v, Seq::empty());
        let none = Seq::<char>::empty();
        assert(none + seq!['v'] + v == w);
        lemma_trimmed_end_behind(none, 'v', v);
        assert(trimmed(w) == seq!['v']);
        assert(seq!['v'].drop_first() == none);
        assert(stripped(none, 'v') == none);
        assert(stripped(trimmed(w), 'v') == none);
        assert(trimmed(v) == none);
    } else {
        assert(trimmed_start(v) == v);
        lemma_trimmed_end_prefixed('v', v);
        let t = trimmed_end(v);
        assert((seq!['v'] + t).drop_first() == t);
    }
}

/// Trimming the end of a text that begins with a visible character leaves that
/// character, and a character put before the text stays before it.
proof fn lemma_trimmed_end_prefixed(c: char, v: Seq<char>)
    requires
        v.len() > 0,
        !white_space(v[0]),
    ensures
        trimmed_end(seq![c] + v) == seq![c] + trimmed_end(v),
    decreases v.len(),
{
    let w = seq![c] + v;
    assert(w.last() == v.last());
    if white_space(v.last()) {
        assert(v.len() > 1);
        assert(w.drop_last() == seq![c] + v.drop_last());
        assert(v.drop_last()[0] == v[0]);
        lemma_trimmed_end_prefixed(c, v.drop_last());
    }
}

/// Of two versions written as three numbers, with or without a leading `v`, the
/// one with the higher numbers is the newer one.
pub proof fn law_versions_compare_by_numbers(l: (u32, u32, u32), c: (u32, u32, u32))
    ensures
        newer(version_text(l.0, l.1, l.2), version_text(c.0, c.1, c.2)) == higher(l, c),
        newer(seq!['v'] + version_text(l.0, l.1, l.2), seq!['v'] + version_text(c.0, c.1, c.2))
            == higher(l, c),
{
    law_version_round_trip(l.0, l.1, l.2);
    law_version_round_trip(c.0, c.1, c.2);
}

/// A pre-release tail makes no difference to the number that a piece of a
/// version stands for, whatever the piece and the tail.
pub proof fn law_prerelease_tail_ignored(p: Seq<char>, tail: Seq<char>)
    ensures
        version_number(Some(p + seq!['-'] + tail)) == version_number(Some(p)),
{
    let s = p + seq!['-'] + tail;
    lemma_first_index(p, '-');
    let k = first_index(p, '-');
    assert(s[k] == '-') by {
        if k < p.len() {
            assert(s[k] == p[k]);
        }
    }
    assert forall|j: int| 0 <= j < k implies s[j] != '-' by {
        assert(s[j] == p[j]);
    }
    lemma_first_index_is(s, '-', k);
    assert(before(s, '-') == before(p, '-'));
}

/// The first pieces of a text are the same whatever follows the dot after them.
proof fn lemma_piece_prefix(s: Seq<char>, rest: Seq<char>, k: nat)
    requires
        piece(s, '.', k) is Some,
    ensures
        piece(s + seq!['.'] + rest, '.', k) == piece(s, '.', k),
    decreases k,
{
    let w = s + seq!['.'] + rest;
    lemma_first_index(s, '.');
    let i = first_index(s, '.');
    assert(w[i] == '.') by {
        if i < s.len() {
            assert(w[i] == s[i]);
        }
    }
    assert forall|j: int| 0 <= j < i implies w[j] != '.' by {
        assert(w[j] == s[j]);
    }
    lemma_first_index_is(w, '.', i);
    if k == 0 {
        assert(w.take(i) == s.take(i));
    } else {
        lemma_piece_prefix(s.skip(i + 1), rest, (k - 1) as nat);
        assert(w.skip(i + 1) == s.skip(i + 1) + seq!['.'] + rest);
    }
}

/// Trimming the end of a text leaves what stands up to a visible character, and
/// trims what follows it.
proof fn lemma_trimmed_end_behind(head: Seq<char>, c: char, rest: Seq<char>)
    requires
        !white_space(c),
    ensures
        trimmed_end(head + seq![c] + rest) == head + seq![c] + trimmed_end(rest),
    decreases rest.len(),
{
    let w = head + seq![c] + rest;
    if rest.len() == 0 {
        assert(w.last() == c);
        assert(w == head + seq![c] + trimmed_end(rest));
    } else {
        assert(w.last() == rest.last());
        if white_space(rest.last()) {
            assert(w.drop_last() == head + seq![c] + rest.drop_last());
            lemma_trimmed_end_behind(head, c, rest.drop_last());
        }
    }
}

/// White space is taken off the beginning of a text that has a visible character
/// at its end, whatever follows.
proof fn lemma_trimmed_start_before(s: Seq<char>, rest: Seq<char>)
    requires
        s.len() > 0,
        !white_space(s.last()),
    ensures
        trimmed_start(s + rest) == trimmed_start(s) + rest,
        trimmed_start(s).len() > 0,
        trimmed_start(s).last() == s.last(),
    decreases s.len(),
{
    let w = s + rest;
    assert(w[0] == s[0]);
    if white_space(s[0]) {
        assert(s.len() > 1);
        assert(s.drop_first().last() == s.last());
        assert(w.drop_first() == s.drop_first() + rest);
        lemma_trimmed_start_before(s.drop_first(), rest);
    }
}

/// A leading run of a character is taken off a text, whatever follows that does
/// not begin with the character.
proof fn lemma_stripped_before(s: Seq<char>, c: char, rest: Seq<char>)
    requires
        rest.len() > 0,
        rest[0] != c,
    ensures
        stripped(s + rest, c) == stripped(s, c) + rest,
    decreases s.len(),
{
    let w = s + rest;
    if s.len() == 0 {
        assert(w == rest);
        assert(stripped(s, c) + rest == rest);
    } else {
        assert(w[0] == s[0]);
        if s[0] == c {
            assert(w.drop_first() == s.drop_first() + rest);
            lemma_stripped_before(s.drop_first(), c, rest);
        }
    }
}

/// A pre-release tail leaves the numbers of the pieces that a text has, and
/// makes no further piece unless it holds a dot.
proof fn lemma_tail_keeps_pieces(s: Seq<char>, tail: Seq<char>, k: nat)
    ensures
        piece(s, '.', k) is Some ==> version_number(piece(s + seq!['-'] + tail, '.', k))
            == version_number(piece(s, '.', k)),
        piece(s, '.', k) is None && !tail.contains('.') ==> piece(
            s + seq!['-'] + tail,
            '.',
            k,
        ) is None,
    decreases k,
{
    let w = s + seq!['-'] + tail;
    lemma_first_index(s, '.');
    lemma_first_index(w, '.');
    let i = first_index(s, '.');
    let j = first_index(w, '.');
    if i < s.len() {
        assert(w[i] == s[i]);
        assert forall|m: int| 0 <= m < i implies w[m] != '.' by {
            assert(w[m] == s[m]);
        }
        lemma_first_index_is(w, '.', i);
        assert(w.take(i) == s.take(i));
        if k > 0 {
            assert(w.skip(i + 1) == s.skip(i + 1) + seq!['-'] + tail);
            lemma_tail_keeps_pieces(s.skip(i + 1), tail, (k - 1) as nat);
        }
    } else {
        assert(j > s.len()) by {
            if j < s.len() {
                assert(s[j] == w[j]);
            } else if j == s.len() {
                assert(w[j] == '-');
            }
        }
        if k == 0 {
            let part = w.subrange(s.len() as int + 1, j);
            assert(w.take(j) == s + seq!['-'] + part);
            assert(before(s, '.') == s);
            law_prerelease_tail_ignored(s, part);
        } else if !tail.contains('.') && j < w.len() {
            assert(tail[j - s.len() - 1] == w[j]);
        }
    }
}

/// What follows a version makes no difference to its numbers: a further
/// component where it has three, or a pre-release tail, which may hold dots
/// where the version has three components. The version ends with a visible
/// character, or is nothing but white space.
pub proof fn law_version_suffix_ignored(v: Seq<char>, sep: char, rest: Seq<char>)
    requires
        trimmed(v).len() == 0 || !white_space(v.last()),
        sep == '-' || sep == '.',
        piece(stripped(trimmed(v), 'v'), '.', 2) is Some || (sep == '-' && !rest.contains('.')),
    ensures
        version_of(v + seq![sep] + rest) == version_of(v),
{
    let w = v + seq![sep] + rest;
    let t = trimmed_start(v);
    let kept = trimmed_end(rest);
    let suffix = seq![sep] + kept;
    if trimmed(v).len() == 0 {
        lemma_blank(v, seq![sep] + rest);
        assert(trimmed_start(seq![sep] + rest) == seq![sep] + rest);
        assert(trimmed_start(v + (seq![sep] + rest)) == t + (seq![sep] + rest));
    } else {
        lemma_trimmed_start_before(v, seq![sep] + rest);
    }
    assert(w == v + (seq![sep] + rest));
    assert(t + (seq![sep] + rest) == t + seq![sep] + rest);
    lemma_trimmed_end_behind(t, sep, rest);
    assert(trimmed(w) == t + suffix);
    assert(trimmed(v) == t);
    lemma_stripped_before(t, 'v', suffix);
    let c = stripped(t, 'v');
    assert(stripped(trimmed(w), 'v') == c + seq![sep] + kept);
    if sep == '.' {
        lemma_fewer_pieces(c, 2);
        lemma_fewer_pieces(c, 1);
        lemma_piece_prefix(c, kept, 0);
        lemma_piece_prefix(c, kept, 1);
        lemma_piece_prefix(c, kept, 2);
    } else {
        lemma_trimmed_end_part(rest);
        lemma_tail_keeps_pieces(c, kept, 0);
        lemma_tail_keeps_pieces(c, kept, 1);
        lemma_tail_keeps_pieces(c, kept, 2);
        if piece(c, '.', 2) is Some {
            lemma_fewer_pieces(c, 2);
            lemma_fewer_pieces(c, 1);
        }
    }
}

/// A text that has a piece has those before it.
proof fn lemma_fewer_pieces(s: Seq<char>, k: nat)
    requires
        k > 0,
        piece(s, '.', k) is Some,
    ensures
        piece(s, '.', (k - 1) as nat) is Some,
    decreases k,
{
    if k > 1 {
        lemma_fewer_pieces(s.skip(first_index(s, '.') + 1), (k - 1) as nat);
    }
}

/// A text without trailing white space holds no dot if the text held none.
proof fn lemma_trimmed_end_part(s: Seq<char>)
    ensures
        !s.contains('.') ==> !trimmed_end(s).contains('.'),
    decreases s.len(),
{
    if s.len() > 0 && white_space(s.last()) {
        lemma_trimmed_end_part(s.drop_last());
        if !s.contains('.') {
            assert forall|i: int| 0 <= i < s.len() - 1 implies s.drop_last()[i] != '.' by {
                assert(s.drop_last()[i] == s[i]);
            }
        }
    }
}

/// Of a version between white space, with leading `v`s, what follows the `v`s is
/// read.
proof fn lemma_version_core(left: Seq<char>, n: nat, w: Seq<char>, right: Seq<char>)
    requires
        forall|i: int| 0 <= i < left.len() ==> white_space(#[trigger] left[i]),
        forall|i: int| 0 <= i < right.len() ==> white_space(#[trigger] right[i]),
        w.len() > 0 ==> w[0] != 'v' && !white_space(w[w.len() - 1]),
        w.len() > 0 && n == 0 ==> !white_space(w[0]),
    ensures
        stripped(trimmed(left + (Seq::new(n, |i: int| 'v') + w) + right), 'v') == w,
{
    let inner = Seq::new(n, |i: int| 'v') + w;
    if w.len() > 0 {
        assert(inner[inner.len() - 1] == w[w.len() - 1]);
    } else if n > 0 {
        assert(inner[inner.len() - 1] == 'v');
    }
    if n > 0 {
        assert(inner[0] == 'v');
    } else if w.len() > 0 {
        assert(inner[0] == w[0]);
    }
    law_trimming_leaves_the_inner_text(left, inner, right);
    law_stripping_leaves_the_rest(n, 'v', w);
}

/// The numbers of a version are those of its components, in their order. A
/// component that is missing counts as 0 and leaves the others as they are; what
/// follows the third one, white space around the version and `v`s before it do
/// not count.
pub proof fn law_version_by_components(
    left: Seq<char>,
    n: nat,
    x: Seq<char>,
    y: Seq<char>,
    z: Seq<char>,
    rest: Seq<char>,
    right: Seq<char>,
)
    requires
        forall|i: int| 0 <= i < left.len() ==> white_space(#[trigger] left[i]),
        forall|i: int| 0 <= i < right.len() ==> white_space(#[trigger] right[i]),
        x.len() > 0 ==> x[0] != 'v',
        x.len() > 0 && n == 0 ==> !white_space(x[0]),
        !x.contains('.'),
        !y.contains('.'),
        !z.contains('.'),
    ensures
        ({
            let vs = Seq::new(n, |i: int| 'v');
            let two = x + seq!['.'] + y;
            let three = two + seq!['.'] + z;
            let more = three + seq!['.'] + rest;
            let a = version_number(Some(x));
            let b = version_number(Some(y));
            let c = version_number(Some(z));
            &&& x.len() == 0 || !white_space(x[x.len() - 1]) ==> version_of(
                left + (vs + x) + right,
            ) == (a, 0u32, 0u32)
            &&& !white_space(two[two.len() - 1]) ==> version_of(left + (vs + two) + right) == (
                a,
                b,
                0u32,
            )
            &&& !white_space(three[three.len() - 1]) ==> version_of(left + (vs + three) + right)
                == (a, b, c)
            &&& !white_space(more[more.len() - 1]) ==> version_of(left + (vs + more) + right) == (
                a,
                b,
                c,
            )
        }),
{
    let two = x + seq!['.'] + y;
    let three = two + seq!['.'] + z;
    let more = three + seq!['.'] + rest;
    let zr = z + seq!['.'] + rest;
    let yz = y + seq!['.'] + z;
    let yzr = y + seq!['.'] + zr;
    assert(three == x + seq!['.'] + yz);
    assert(more == x + seq!['.'] + yzr);
    assert(x.len() > 0 ==> two[0] == x[0] && three[0] == x[0] && more[0] == x[0]);
    assert(x.len() == 0 ==> two[0] == '.' && three[0] == '.' && more[0] == '.');
    if x.len() == 0 || !white_space(x[x.len() - 1]) {
        lemma_version_core(left, n, x, right);
        law_pieces_of_a_divided_text(x, '.', rest, 0);
        law_pieces_of_a_divided_text(x, '.', rest, 1);
        assert(piece(x, '.', (0 + 1) as nat) is None);
        assert(piece(x, '.', (1 + 1) as nat) is None);
    }
    if !white_space(two[two.len() - 1]) {
        lemma_version_core(left, n, two, right);
        law_pieces_of_a_divided_text(x, '.', y, 0);
        law_pieces_of_a_divided_text(x, '.', y, 1);
        law_pieces_of_a_divided_text(y, '.', rest, 0);
        assert(piece(two, '.', (0 + 1) as nat) == piece(y, '.', 0));
        assert(piece(two, '.', (1 + 1) as nat) == piece(y, '.', (0 + 1) as nat));
    }
    law_pieces_of_a_divided_text(x, '.', yz, 0);
    law_pieces_of_a_divided_text(x, '.', yz, 1);
    law_pieces_of_a_divided_text(y, '.', z, 0);
    law_pieces_of_a_divided_text(z, '.', rest, 0);
    law_pieces_of_a_divided_text(x, '.', yzr, 0);
    law_pieces_of_a_divided_text(x, '.', yzr, 1);
    law_pieces_of_a_divided_text(y, '.', zr, 0);
    if !white_space(three[three.len() - 1]) {
        lemma_version_core(left, n, three, right);
        assert(piece(three, '.', (0 + 1) as nat) == piece(yz, '.', 0));
        assert(piece(three, '.', (1 + 1) as nat) == piece(yz, '.', 1));
        assert(piece(yz, '.', (0 + 1) as nat) == piece(z, '.', 0));
    }
    if !white_space(more[more.len() - 1]) {
        lemma_version_core(left, n, more, right);
        assert(piece(more, '.', (0 + 1) as nat) == piece(yzr, '.', 0));
        assert(piece(more, '.', (1 + 1) as nat) == piece(yzr, '.', 1));
        assert(piece(yzr, '.', (0 + 1) as nat) == piece(zr, '.', 0));
    }
}

/// The number of a component: the digits before a `-`, with or without a `+`
/// before them, as far as `u32` holds their number; 0 where there is no
/// component, nothing, or anything but digits.
pub proof fn law_number_of_a_component(p: Seq<char>, tail: Seq<char>)
    requires
        !p.contains('-'),
    ensures
        version_number(None) == 0,
        version_number(Some(p + seq!['-'] + tail)) == version_number(Some(p)),
        p.len() > 0 && (forall|i: int| 0 <= i < p.len() ==> '0' <= #[trigger] p[i] <= '9') ==> (
        digits_value(p) <= u32::MAX ==> version_number(Some(p)) == digits_value(p)
            && version_number(Some(seq!['+'] + p)) == digits_value(p)) && (digits_value(p)
            > u32::MAX ==> version_number(Some(p)) == 0 && version_number(Some(seq!['+'] + p)) == 0),
        p.len() == 0 ==> version_number(Some(p)) == 0 && version_number(Some(seq!['+'] + p)) == 0,
        (exists|i: int|
            0 <= i < p.len() && !('0' <= #[trigger] p[i] <= '9') && !(i == 0 && p[0] == '+'))
            ==> version_number(Some(p)) == 0,
{
    law_pieces_of_a_divided_text(p, '-', tail, 0);
    let plus = seq!['+'] + p;
    assert forall|i: int| 0 <= i < plus.len() implies plus[i] != '-' by {
        if i > 0 {
            assert(p.contains(p[i - 1]));
        }
    }
    law_pieces_of_a_divided_text(plus, '-', tail, 0);
    law_what_is_read_as_a_number(p);
}

/// A version of one or two numbers, with or without leading `v`s, is read as
/// these numbers, and as 0 for those that it does not have.
pub proof fn law_short_versions(a: u32, b: u32, n: nat)
    ensures
        ({
            let vs = Seq::new(n, |i: int| 'v');
            let one = decimal_text(a as nat);
            let two = one + seq!['.'] + decimal_text(b as nat);
            &&& version_of(one) == (a, 0u32, 0u32)
            &&& version_of(two) == (a, b, 0u32)
            &&& version_of(vs + one) == (a, 0u32, 0u32)
            &&& version_of(vs + two) == (a, b, 0u32)
        }),
{
    let none = Seq::<char>::empty();
    let da = decimal_text(a as nat);
    let db = decimal_text(b as nat);
    let two = da + seq!['.'] + db;
    lemma_decimal_value(a as nat);
    lemma_decimal_value(b as nat);
    lemma_number_piece(a, none);
    lemma_number_piece(b, none);
    assert forall|j: int| 0 <= j < da.len() implies da[j] != '.' by {
        assert(digit(da[j]));
    }
    assert forall|j: int| 0 <= j < db.len() implies db[j] != '.' by {
        assert(digit(db[j]));
    }
    assert(digit(da[0]) && digit(da[da.len() - 1]) && digit(db[db.len() - 1]));
    assert(two[two.len() - 1] == db[db.len() - 1]);
    law_version_by_components(none, n, da, db, none, none, none);
    law_version_by_components(none, 0, da, db, none, none, none);
    let vs = Seq::new(n, |i: int| 'v');
    assert(none + (vs + da) + none == vs + da);
    assert(none + (vs + two) + none == vs + two);
    let no = Seq::new(0, |i: int| 'v');
    assert(none + (no + da) + none == da);
    assert(none + (no + two) + none == two);
}

/// A version is newer if and only if its three numbers, as the digits of one
/// number to the base of `u32`, make the larger number. Where all six are 0, it
/// is newer if and only if the texts behind the leading `v`s differ.
pub proof fn law_newer_as_one_number(
    latest: Seq<char>,
    current: Seq<char>,
    n: nat,
    x: Seq<char>,
    m: nat,
    y: Seq<char>,
)
    requires
        x.len() > 0 ==> x[0] != 'v',
        y.len() > 0 ==> y[0] != 'v',
    ensures
        ({
            let (l, c) = (version_of(latest), version_of(current));
            let base = 0x1_0000_0000int;
            let of_l = base * base * l.0 + base * l.1 + l.2;
            let of_c = base * base * c.0 + base * c.1 + c.2;
            of_l + of_c > 0 ==> (newer(latest, current) <==> of_l > of_c)
        }),
        latest == Seq::new(n, |i: int| 'v') + x && current == Seq::new(m, |i: int| 'v') + y
            && version_of(latest) == (0u32, 0u32, 0u32) && version_of(current) == (
            0u32,
            0u32,
            0u32,
        ) ==> (newer(latest, current) <==> x != y),
{
    law_stripping_leaves_the_rest(n, 'v', x);
    law_stripping_leaves_the_rest(m, 'v', y);
}

} // verus!
