//! Kinds of update packages, told by the names of their files.
use crate::job::Archive;
use crate::release::{lemma_first_ending, update_choice};
use crate::text::{ascii_lower, finishes_with, lowercase, opt_view, same_text, to_lowercase};
use vstd::prelude::*;
use vstd::utf8::is_ascii_chars;

verus! {

/// The kinds of update packages.
#[derive(Clone, Copy, PartialEq, Eq, Structural, Debug)]
pub enum Package {
    /// The program itself.
    Exe,
    /// Packed files.
    Packed(Archive),
}

/// The position of the last `c` in a text; -1 where there is none.
pub open spec fn last_index(s: Seq<char>, c: char) -> int
    decreases s.len(),
{
    if s.len() == 0 {
        -1
    } else if s.last() == c {
        s.len() - 1
    } else {
        last_index(s.drop_last(), c)
    }
}

/// A name in which every system finds the same parts: it holds no `\` and no
/// `:`, and does not begin with two slashes.
pub open spec fn portable_name(s: Seq<char>) -> bool {
    !s.contains('\\') && !s.contains(':') && !(s.len() >= 2 && s[0] == '/' && s[1] == '/')
}

/// The last of the parts between the slashes of a name, without regard to parts
/// at the end that are empty or `.`.
pub open spec fn final_part(s: Seq<char>) -> Seq<char>
    decreases s.len(),
{
    let k = last_index(s, '/');
    let part = s.skip(k + 1);
    if k >= 0 && (part.len() == 0 || part == seq!['.']) {
        proof {
            lemma_last_index(s, '/');
        }
        final_part(s.take(k))
    } else {
        part
    }
}

/// The extension of one part of a name: what follows its last dot. A part with
/// no dot, or with no dot but its first character, has none; nor has `..`.
pub open spec fn part_extension(s: Seq<char>) -> Option<Seq<char>> {
    let k = last_index(s, '.');
    if k <= 0 || s == seq!['.', '.'] {
        None
    } else {
        Some(s.skip(k + 1))
    }
}

/// The extension of a file name: that of its final part.
pub open spec fn extension(s: Seq<char>) -> Option<Seq<char>> {
    part_extension(final_part(s))
}

/// Calls `std::path::Path::extension`. Of a name that holds no `\` and no `:` and
/// does not begin with two slashes, it is what follows the last dot of the
/// name's final part, if that part has a dot behind its first character. What
/// another name gives depends on the system and is left unsaid.
#[verifier::external_body]
fn extension_of(name: &str) -> (r: Option<String>)
    ensures
        portable_name(name@) ==> opt_view(r) == extension(name@),
{
    match std::path::Path::new(name).extension() {
        Some(e) => e.to_str().map(str::to_owned),
        None => None,
    }
}

/// The kind of package that an extension, in lower case, stands for.
pub open spec fn kind_of(ext: Seq<char>) -> Option<Package> {
    if ext == "exe"@ {
        Some(Package::Exe)
    } else if ext == "7z"@ {
        Some(Package::Packed(Archive::SevenZip))
    } else if ext == "zip"@ {
        Some(Package::Packed(Archive::Zip))
    } else {
        None
    }
}

/// The kind of package that an extension, in lower case, stands for.
pub fn package_kind(ext: &str) -> (r: Option<Package>)
    ensures
        r == kind_of(ext@),
{
    if same_text(ext, "exe") {
        Some(Package::Exe)
    } else if same_text(ext, "7z") {
        Some(Package::Packed(Archive::SevenZip))
    } else if same_text(ext, "zip") {
        Some(Package::Packed(Archive::Zip))
    } else {
        None
    }
}

/// The kind of the package in a file of the given extension, whatever the case
/// of its letters.
pub open spec fn kind_of_extension(ext: Option<Seq<char>>) -> Option<Package> {
    match ext {
        Some(e) => kind_of(lowercase(e)),
        None => None,
    }
}

/// The same, where the extension is of ASCII characters.
pub open spec fn kind_of_ascii_extension(ext: Option<Seq<char>>) -> Option<Package> {
    match ext {
        Some(e) => kind_of(ascii_lower(e)),
        None => None,
    }
}

/// The kind of the package in a file of the given extension.
pub fn extension_kind(ext: Option<String>) -> (r: Option<Package>)
    ensures
        r == kind_of_extension(opt_view(ext)),
        ext matches Some(e) ==> is_ascii_chars(e@) ==> r == kind_of(ascii_lower(e@)),
{
    match ext {
        Some(e) => {
            let lower: String = to_lowercase(e.as_str());
            package_kind(lower.as_str())
        },
        None => {
            None
        },
    }
}

/// The kind of the package in a file of the given name. What a name with a `\`,
/// a `:` or two slashes at its beginning gives depends on the system.
pub fn file_kind(name: &str) -> (r: Option<Package>)
    ensures
        portable_name(name@) ==> r == kind_of_extension(extension(name@)),
        portable_name(name@) && is_ascii_chars(name@) ==> r == kind_of_ascii_extension(
            extension(name@),
        ),
{
    let ext: Option<String> = extension_of(name);
    proof {
        if portable_name(name@) && is_ascii_chars(name@) {
            lemma_ascii_extension(name@);
        }
    }
    extension_kind(ext)
}

/// The last `c` of a text is a `c`, and none follows it.
pub proof fn lemma_last_index(s: Seq<char>, c: char)
    ensures
        -1 <= last_index(s, c) < s.len(),
        last_index(s, c) >= 0 ==> s[last_index(s, c)] == c,
        forall|i: int| last_index(s, c) < i < s.len() ==> s[i] != c,
    decreases s.len(),
{
    if s.len() > 0 && s.last() != c {
        let t = s.drop_last();
        lemma_last_index(t, c);
        assert forall|i: int| last_index(s, c) < i < s.len() implies s[i] != c by {
            if i < t.len() {
                assert(t[i] == s[i]);
            }
        }
    }
}

/// The final part of a name of ASCII characters is of ASCII characters.
proof fn lemma_ascii_final_part(s: Seq<char>)
    requires
        is_ascii_chars(s),
    ensures
        is_ascii_chars(final_part(s)),
    decreases s.len(),
{
    lemma_last_index(s, '/');
    let k = last_index(s, '/');
    assert forall|i: int| 0 <= i < s.len() - k - 1 implies '\0' <= #[trigger] s.skip(k + 1)[i]
        <= '\u{7f}' by {
        assert(s.skip(k + 1)[i] == s[k + 1 + i]);
    }
    if k >= 0 {
        assert forall|i: int| 0 <= i < k implies '\0' <= #[trigger] s.take(k)[i] <= '\u{7f}' by {
            assert(s.take(k)[i] == s[i]);
        }
        lemma_ascii_final_part(s.take(k));
    }
}

/// The extension of a name of ASCII characters is of ASCII characters.
proof fn lemma_ascii_extension(name: Seq<char>)
    requires
        is_ascii_chars(name),
    ensures
        extension(name) matches Some(e) ==> is_ascii_chars(e),
{
    let part = final_part(name);
    lemma_ascii_final_part(name);
    lemma_last_index(part, '.');
    if let Some(e) = extension(name) {
        assert forall|i: int| 0 <= i < e.len() implies '\0' <= #[trigger] e[i] <= '\u{7f}' by {
            assert(e[i] == part[last_index(part, '.') + 1 + i]);
        }
    }
}

/// A name without slashes is its own final part.
pub proof fn law_plain_name_is_final_part(name: Seq<char>)
    requires
        !name.contains('/'),
    ensures
        final_part(name) == name,
{
    lemma_last_index(name, '/');
    assert(last_index(name, '/') == -1);
    assert(name.skip(0) == name);
}

/// A part whose end, in lower case, is a dot and a tail without dots has an
/// extension that is this tail in lower case, if anything precedes the dot.
proof fn lemma_extension_of_ending(part: Seq<char>, tail: Seq<char>)
    requires
        finishes_with(ascii_lower(part), seq!['.'] + tail),
        !tail.contains('.'),
        ascii_lower(part) != seq!['.'] + tail,
        tail.len() > 0,
    ensures
        part_extension(part) is Some,
        ascii_lower(part_extension(part)->0) == tail,
{
    let lower = ascii_lower(part);
    let end = seq!['.'] + tail;
    let k = part.len() - end.len();
    assert(lower.subrange(k, k + end.len()) == end);
    if k == 0 {
        assert(lower.subrange(0, lower.len() as int) == lower);
    }
    assert(lower[k] == end[0]);
    assert forall|i: int| k < i < part.len() implies part[i] != '.' by {
        assert(end[i - k] == lower[i]);
        assert(tail[i - k - 1] == lower[i]);
    }
    lemma_last_index(part, '.');
    assert(part[k] == '.');
    assert(last_index(part, '.') == k);
    assert(part != seq!['.', '.']) by {
        assert(part[k + 1] != '.');
    }
    assert(ascii_lower(part.skip(k + 1)) == tail) by {
        assert forall|i: int| 0 <= i < tail.len() implies ascii_lower(part.skip(k + 1))[i]
            == tail[i] by {
            assert(end[i + 1] == lower[k + 1 + i]);
        }
    }
}

/// A name that has an ending of several characters without a slash has it in
/// its final part.
proof fn lemma_ending_of_final_part(name: Seq<char>, end: Seq<char>)
    requires
        finishes_with(ascii_lower(name), end),
        !end.contains('/'),
        end.len() > 1,
    ensures
        finishes_with(ascii_lower(final_part(name)), end),
{
    let lower = ascii_lower(name);
    let from = name.len() - end.len();
    assert(lower.subrange(from, from + end.len()) == end);
    lemma_last_index(name, '/');
    let k = last_index(name, '/');
    let part = name.skip(k + 1);
    assert(k < from) by {
        if k >= from {
            assert(end[k - from] == lower[k]);
        }
    }
    assert(part.len() > 1);
    assert(part != seq!['.']);
    assert(final_part(name) == part);
    let at = part.len() - end.len();
    assert(ascii_lower(part).subrange(at, at + end.len()) == end) by {
        assert forall|i: int| 0 <= i < end.len() implies ascii_lower(part).subrange(
            at,
            at + end.len(),
        )[i] == end[i] by {
            assert(end[i] == lower[from + i]);
            assert(part[at + i] == name[from + i]);
        }
    }
}

/// A name with one of the endings has the extension that the ending tells,
/// unless its final part is just that ending.
proof fn lemma_ending_tells_extension(name: Seq<char>, end: Seq<char>, tail: Seq<char>)
    requires
        finishes_with(ascii_lower(name), end),
        end == seq!['.'] + tail,
        !tail.contains('.'),
        !tail.contains('/'),
        tail.len() > 0,
        ascii_lower(final_part(name)) != end,
    ensures
        kind_of_ascii_extension(extension(name)) == kind_of(tail),
{
    assert(!end.contains('/')) by {
        if end.contains('/') {
            let i = choose|i: int| 0 <= i < end.len() && end[i] == '/';
            assert(tail[i - 1] == '/');
        }
    }
    lemma_ending_of_final_part(name, end);
    lemma_extension_of_ending(final_part(name), tail);
}

/// The file that is chosen to update the launcher is of a kind that an update
/// can be prepared from, namely the one that its ending tells, unless the final
/// part of its name is just that ending.
pub proof fn law_chosen_update_is_supported(names: Seq<Seq<char>>, i: int)
    requires
        update_choice(Seq::new(names.len(), |k: int| ascii_lower(names[k]))) == Some(i),
        ascii_lower(final_part(names[i])) != ".7z"@,
        ascii_lower(final_part(names[i])) != ".zip"@,
        ascii_lower(final_part(names[i])) != ".exe"@,
    ensures
        0 <= i < names.len(),
        finishes_with(ascii_lower(names[i]), ".7z"@) ==> kind_of_ascii_extension(
            extension(names[i]),
        ) == Some(Package::Packed(Archive::SevenZip)),
        finishes_with(ascii_lower(names[i]), ".zip"@) ==> kind_of_ascii_extension(
            extension(names[i]),
        ) == Some(Package::Packed(Archive::Zip)),
        finishes_with(ascii_lower(names[i]), ".exe"@) ==> kind_of_ascii_extension(
            extension(names[i]),
        ) == Some(Package::Exe),
        kind_of_ascii_extension(extension(names[i])) is Some,
{
    let lowered = Seq::new(names.len(), |k: int| ascii_lower(names[k]));
    lemma_first_ending(lowered, ".7z"@);
    lemma_first_ending(lowered, ".zip"@);
    lemma_first_ending(lowered, ".exe"@);
    assert(lowered[i] == ascii_lower(names[i]));
    reveal_strlit(".7z");
    reveal_strlit(".zip");
    reveal_strlit(".exe");
    reveal_strlit("7z");
    reveal_strlit("zip");
    reveal_strlit("exe");
    assert("zip"@[0] != "exe"@[0]);
    assert("7z"@.len() != "exe"@.len() && "7z"@.len() != "zip"@.len());
    if finishes_with(lowered[i], ".7z"@) {
        assert(".7z"@ == seq!['.'] + "7z"@);
        lemma_ending_tells_extension(names[i], ".7z"@, "7z"@);
    }
    if finishes_with(lowered[i], ".zip"@) {
        assert(".zip"@ == seq!['.'] + "zip"@);
        lemma_ending_tells_extension(names[i], ".zip"@, "zip"@);
    }
    if finishes_with(lowered[i], ".exe"@) {
        assert(".exe"@ == seq!['.'] + "exe"@);
        lemma_ending_tells_extension(names[i], ".exe"@, "exe"@);
    }
}

/// The last part of a name is what follows its last slash; slashes at the end,
/// and `.` after a slash at the end, do not count.
pub proof fn law_final_part_follows_the_last_slash(folders: Seq<char>, part: Seq<char>)
    requires
        !part.contains('/'),
    ensures
        final_part(part) == part,
        part.len() > 0 && part != seq!['.'] ==> final_part(folders + seq!['/'] + part) == part,
        final_part(folders + seq!['/']) == final_part(folders),
        final_part(folders + seq!['/', '.']) == final_part(folders),
{
    law_plain_name_is_final_part(part);
    let none = Seq::<char>::empty();
    lemma_last_slash(folders, part);
    lemma_last_slash(folders, none);
    assert(folders + seq!['/'] + none == folders + seq!['/']);
    lemma_last_slash(folders, seq!['.']);
    assert(folders + seq!['/'] + seq!['.'] == folders + seq!['/', '.']);
}

proof fn lemma_last_slash(folders: Seq<char>, part: Seq<char>)
    requires
        !part.contains('/'),
    ensures
        last_index(folders + seq!['/'] + part, '/') == folders.len(),
        (folders + seq!['/'] + part).skip(folders.len() as int + 1) == part,
        (folders + seq!['/'] + part).take(folders.len() as int) == folders,
{
    let w = folders + seq!['/'] + part;
    let n = folders.len() as int;
    lemma_last_index(w, '/');
    let k = last_index(w, '/');
    assert(w[n] == '/');
    if k > n {
        assert(part[k - n - 1] == w[k]);
        assert(part.contains('/'));
    }
    assert(w.skip(n + 1) == part);
    assert(w.take(n) == folders);
}

/// The extension of a part follows its last dot, if something precedes the dot;
/// a part without a dot has none, nor has one whose only dot is its first
/// character.
pub proof fn law_extension_follows_the_last_dot(stem: Seq<char>, ext: Seq<char>)
    requires
        !ext.contains('.'),
    ensures
        stem.len() > 0 && stem + seq!['.'] + ext != seq!['.', '.'] ==> part_extension(
            stem + seq!['.'] + ext,
        ) == Some(ext),
        part_extension(seq!['.'] + ext) is None,
        part_extension(ext) is None,
        part_extension(seq!['.', '.']) is None,
{
    let w = stem + seq!['.'] + ext;
    let n = stem.len() as int;
    lemma_last_index(w, '.');
    assert(w[n] == '.');
    if last_index(w, '.') > n {
        let k = last_index(w, '.');
        assert(ext[k - n - 1] == w[k]);
    }
    assert(w.skip(n + 1) == ext);
    let v = seq!['.'] + ext;
    lemma_last_index(v, '.');
    if last_index(v, '.') > 0 {
        let k = last_index(v, '.');
        assert(ext[k - 1] == v[k]);
    }
    lemma_last_index(ext, '.');
}

/// The kinds of packages by the characters of the extension in lower case, and
/// no others.
pub proof fn law_kinds_by_extension(ext: Seq<char>)
    ensures
        kind_of(ext) == Some(Package::Exe) <==> ext == seq!['e', 'x', 'e'],
        kind_of(ext) == Some(Package::Packed(Archive::SevenZip)) <==> ext == seq!['7', 'z'],
        kind_of(ext) == Some(Package::Packed(Archive::Zip)) <==> ext == seq!['z', 'i', 'p'],
        kind_of_extension(None) is None,
        kind_of_ascii_extension(None) is None,
        kind_of_extension(Some(ext)) == kind_of(lowercase(ext)),
        kind_of_ascii_extension(Some(ext)) == kind_of(ascii_lower(ext)),
{
    reveal_strlit("exe");
    reveal_strlit("7z");
    reveal_strlit("zip");
    assert("exe"@ == seq!['e', 'x', 'e']);
    assert("7z"@ == seq!['7', 'z']);
    assert("zip"@ == seq!['z', 'i', 'p']);
    assert(seq!['e', 'x', 'e'].len() == 3 && seq!['7', 'z'].len() == 2);
    assert(seq!['e', 'x', 'e'][0] != seq!['z', 'i', 'p'][0]);
}

/// A name is portable if and only if none of its characters is a `\` or a `:`, and
/// it does not begin with two slashes.
pub proof fn law_portable_names(s: Seq<char>, i: int)
    ensures
        0 <= i < s.len() && (s[i] == '\\' || s[i] == ':') ==> !portable_name(s),
        s.len() >= 2 && s[0] == '/' && s[1] == '/' ==> !portable_name(s),
        (forall|k: int| 0 <= k < s.len() ==> #[trigger] s[k] != '\\' && s[k] != ':') && !(s.len() >= 2
            && s[0] == '/' && s[1] == '/') ==> portable_name(s),
{
}

/// The extension of a file, whatever the folders before it, is what follows the
/// last dot of its name, if something precedes the dot.
pub proof fn law_extension_of_a_file(folders: Seq<char>, stem: Seq<char>, ext: Seq<char>)
    requires
        !stem.contains('/'),
        !ext.contains('/'),
        !ext.contains('.'),
        stem.len() > 0,
        stem + seq!['.'] + ext != seq!['.', '.'],
    ensures
        extension(stem + seq!['.'] + ext) == Some(ext),
        extension(folders + seq!['/'] + (stem + seq!['.'] + ext)) == Some(ext),
        extension(ext) is None,
        extension(seq!['.'] + ext) is None,
{
    let part = stem + seq!['.'] + ext;
    assert forall|i: int| 0 <= i < part.len() implies part[i] != '/' by {
        if i < stem.len() {
            assert(stem.contains(stem[i]));
        } else if i > stem.len() {
            assert(ext.contains(ext[i - stem.len() - 1]));
        }
    }
    let hidden = seq!['.'] + ext;
    assert forall|i: int| 0 <= i < hidden.len() implies hidden[i] != '/' by {
        if i > 0 {
            assert(ext.contains(ext[i - 1]));
        }
    }
    assert(part.len() > 0 && part != seq!['.']) by {
        if part == seq!['.'] {
            assert(part.len() == 1);
        }
    }
    law_final_part_follows_the_last_slash(folders, part);
    law_final_part_follows_the_last_slash(folders, ext);
    law_final_part_follows_the_last_slash(folders, hidden);
    law_extension_follows_the_last_dot(stem, ext);
}

} // verus!
