//! Published releases and the packages attached to them.
use crate::launcher::Vault64App;
use crate::text::{
    ascii_lower, contains, contains_text, ends_with, finishes_with, law_lower_case_is_final,
    law_trimming_is_final, law_trimming_leaves_the_inner_text, law_where_a_text_stands,
    lemma_contains_transitive, lemma_trimmed_lower, lowercase, opt_view,
    to_lowercase, trim, trimmed, views, white_space,
};
use vstd::prelude::*;
use vstd::utf8::is_ascii_chars;

verus! {

/// A file attached to a release.
#[derive(Debug)]
pub struct GithubAsset {
    pub name: String,
    pub browser_download_url: String,
    pub size: u64,
}

/// What a `GithubAsset` holds.
#[verifier::ext_equal]
pub struct AssetView {
    pub name: Seq<char>,
    pub browser_download_url: Seq<char>,
    pub size: u64,
}

impl View for GithubAsset {
    type V = AssetView;

    open spec fn view(&self) -> AssetView {
        AssetView {
            name: self.name@,
            browser_download_url: self.browser_download_url@,
            size: self.size,
        }
    }
}

impl Clone for GithubAsset {
    fn clone(&self) -> (r: Self)
        ensures
            r == *self,
    {
        GithubAsset {
            name: self.name.clone(),
            browser_download_url: self.browser_download_url.clone(),
            size: self.size,
        }
    }
}

/// A published release: of the launcher, or of a game.
#[derive(Debug)]
pub struct GithubRelease {
    pub name: Option<String>,
    pub tag_name: String,
    pub body: Option<String>,
    pub assets: Vec<GithubAsset>,
    pub html_url: Option<String>,
}

/// What a `GithubRelease` holds.
#[verifier::ext_equal]
pub struct ReleaseView {
    pub name: Option<Seq<char>>,
    pub tag_name: Seq<char>,
    pub body: Option<Seq<char>>,
    pub assets: Seq<AssetView>,
    pub html_url: Option<Seq<char>>,
}

impl View for GithubRelease {
    type V = ReleaseView;

    open spec fn view(&self) -> ReleaseView {
        ReleaseView {
            name: opt_view(self.name),
            tag_name: self.tag_name@,
            body: opt_view(self.body),
            assets: views(self.assets@),
            html_url: opt_view(self.html_url),
        }
    }
}

/// A copy of an optional text.
pub fn clone_opt(o: &Option<String>) -> (r: Option<String>)
    ensures
        r == *o,
{
    match o {
        Some(s) => Some(s.clone()),
        None => None,
    }
}

impl Clone for GithubRelease {
    fn clone(&self) -> (r: Self)
        ensures
            r@ == self@,
    {
        let n: usize = self.assets.len();
        let mut assets: Vec<GithubAsset> = Vec::new();
        let mut i: usize = 0;
        while i < n
            invariant
                i <= n == self.assets@.len(),
                assets@ == self.assets@.take(i as int),
            decreases n - i,
        {
            assets.push(self.assets[i].clone());
            i += 1;
        }
        assert(assets@ == self.assets@);
        GithubRelease {
            name: clone_opt(&self.name),
            tag_name: self.tag_name.clone(),
            body: clone_opt(&self.body),
            assets,
            html_url: clone_opt(&self.html_url),
        }
    }
}

/// The position of the first of the names that ends with `suffix`.
pub open spec fn first_ending(names: Seq<Seq<char>>, suffix: Seq<char>) -> Option<int>
    decreases names.len(),
{
    if names.len() == 0 {
        None
    } else if finishes_with(names[0], suffix) {
        Some(0)
    } else {
        match first_ending(names.drop_first(), suffix) {
            Some(i) => Some(i + 1),
            None => None,
        }
    }
}

/// A first ending is a position whose name has the suffix, with none before it;
/// there is one as soon as some name has the suffix.
pub proof fn lemma_first_ending(names: Seq<Seq<char>>, suffix: Seq<char>)
    ensures
        first_ending(names, suffix) matches Some(i) ==> 0 <= i < names.len() && finishes_with(
            names[i],
            suffix,
        ) && forall|j: int| 0 <= j < i ==> !finishes_with(#[trigger] names[j], suffix),
        first_ending(names, suffix) is None ==> forall|j: int|
            0 <= j < names.len() ==> !finishes_with(#[trigger] names[j], suffix),
    decreases names.len(),
{
    if names.len() > 0 && !finishes_with(names[0], suffix) {
        let rest = names.drop_first();
        lemma_first_ending(rest, suffix);
        assert forall|j: int|
            0 <= j < names.len() && (first_ending(names, suffix) matches Some(i) ==> j
                < i) implies !finishes_with(#[trigger] names[j], suffix) by {
            if j > 0 {
                assert(rest[j - 1] == names[j]);
            }
        }
    }
}

/// The position of the first of the names that ends with `suffix`.
pub fn find_ending(names: &Vec<String>, suffix: &str) -> (r: Option<usize>)
    ensures
        r is Some <==> first_ending(views(names@), suffix@) is Some,
        r matches Some(i) ==> first_ending(views(names@), suffix@) == Some(i as int) && i
            < names@.len(),
{
    let n: usize = names.len();
    let mut i: usize = 0;
    let ghost all = views(names@);
    assert(all.skip(0) == all);
    while i < n
        invariant
            i <= n == names@.len(),
            all == views(names@),
            first_ending(all, suffix@) == (match first_ending(all.skip(i as int), suffix@) {
                Some(k) => Some(k + i),
                None => None,
            }),
        decreases n - i,
    {
        assert(all.skip(i as int)[0] == names@[i as int]@);
        if ends_with(names[i].as_str(), suffix) {
            return Some(i);
        }
        assert(all.skip(i as int).drop_first() == all.skip(i + 1));
        i += 1;
    }
    None
}

/// Which of the named files updates the launcher: the first `.7z`, else the
/// first `.zip`, else the first `.exe`.
pub open spec fn update_choice(names: Seq<Seq<char>>) -> Option<int> {
    match first_ending(names, ".7z"@) {
        Some(i) => Some(i),
        None => match first_ending(names, ".zip"@) {
            Some(i) => Some(i),
            None => first_ending(names, ".exe"@),
        },
    }
}

/// Which of the files updates the launcher, by their names in lower case.
pub fn choose_update(names: &Vec<String>) -> (r: Option<usize>)
    ensures
        r is Some <==> update_choice(views(names@)) is Some,
        r matches Some(i) ==> update_choice(views(names@)) == Some(i as int) && i < names@.len(),
{
    match find_ending(names, ".7z") {
        Some(i) => Some(i),
        None => match find_ending(names, ".zip") {
            Some(i) => Some(i),
            None => find_ending(names, ".exe"),
        },
    }
}

/// The names of the files, each in lower case.
pub open spec fn lowered_names(assets: Seq<AssetView>) -> Seq<Seq<char>> {
    Seq::new(assets.len(), |i: int| lowercase(assets[i].name))
}

/// The names of the files, each with `A` to `Z` in lower case.
pub open spec fn ascii_lowered_names(assets: Seq<AssetView>) -> Seq<Seq<char>> {
    Seq::new(assets.len(), |i: int| ascii_lower(assets[i].name))
}

/// Whether the names of the files are made of ASCII characters.
pub open spec fn ascii_names(assets: Seq<AssetView>) -> bool {
    forall|i: int| 0 <= i < assets.len() ==> is_ascii_chars(#[trigger] assets[i].name)
}

/// The file at an optional position.
pub open spec fn asset_at(assets: Seq<AssetView>, i: Option<int>) -> Option<AssetView> {
    match i {
        Some(i) => Some(assets[i]),
        None => None,
    }
}

impl GithubRelease {
    /// The names of the files, each in lower case.
    fn lower_names(&self) -> (r: Vec<String>)
        ensures
            views(r@) == lowered_names(self@.assets),
            ascii_names(self@.assets) ==> views(r@) == ascii_lowered_names(self@.assets),
    {
        let n: usize = self.assets.len();
        let mut r: Vec<String> = Vec::new();
        let mut i: usize = 0;
        while i < n
            invariant
                i <= n == self.assets@.len(),
                r@.len() == i,
                forall|j: int| 0 <= j < i ==> (#[trigger] r@[j])@ == lowercase(self.assets@[j].name@),
                forall|j: int|
                    0 <= j < i && is_ascii_chars(self.assets@[j].name@) ==> (#[trigger] r@[j])@
                        == ascii_lower(self.assets@[j].name@),
            decreases n - i,
        {
            r.push(to_lowercase(self.assets[i].name.as_str()));
            i += 1;
        }
        assert(views(r@) == lowered_names(self@.assets));
        proof {
            if ascii_names(self@.assets) {
                assert forall|j: int| 0 <= j < n implies views(r@)[j] == ascii_lowered_names(
                    self@.assets,
                )[j] by {
                    assert(is_ascii_chars(self@.assets[j].name));
                }
                assert(views(r@) == ascii_lowered_names(self@.assets));
            }
        }
        r
    }

    /// The package that installs a game: the first file whose name ends, in
    /// lower case, with `.7z`.
    pub fn game_package(&self) -> (r: Option<GithubAsset>)
        ensures
            opt_view(r) == package_of(self@),
            ascii_names(self@.assets) ==> opt_view(r) == asset_at(
                self@.assets,
                first_ending(ascii_lowered_names(self@.assets), ".7z"@),
            ),
    {
        match find_ending(&self.lower_names(), ".7z") {
            Some(i) => Some(self.assets[i].clone()),
            None => None,
        }
    }

    /// The name under which a game is shown: its title, or else its tag.
    pub fn game_name(&self) -> (r: String)
        ensures
            r@ == self@.game_name(),
    {
        match &self.name {
            Some(s) => s.clone(),
            None => self.tag_name.clone(),
        }
    }
}

/// The package that installs a game.
pub open spec fn package_of(release: ReleaseView) -> Option<AssetView> {
    asset_at(release.assets, first_ending(lowered_names(release.assets), ".7z"@))
}

/// The file that updates the launcher.
pub open spec fn update_asset_of(release: ReleaseView) -> Option<AssetView> {
    asset_at(release.assets, update_choice(lowered_names(release.assets)))
}

impl ReleaseView {
    /// The name under which a game is shown: its title, or else its tag.
    pub open spec fn game_name(self) -> Seq<char> {
        match self.name {
            Some(s) => s,
            None => self.tag_name,
        }
    }
}

/// Whether a release fits what was searched for, all texts being in lower case:
/// it stands in the name, the tag or the description. Nothing searched for fits.
pub open spec fn texts_match(
    query: Seq<char>,
    name: Seq<char>,
    tag: Seq<char>,
    body: Seq<char>,
) -> bool {
    query.len() == 0 || contains_text(name, query) || contains_text(tag, query) || contains_text(
        body,
        query,
    )
}

/// Whether a release fits what was searched for, all texts being in lower case.
pub fn match_texts(query: &str, name: &str, tag: &str, body: &str) -> (r: bool)
    ensures
        r == texts_match(query@, name@, tag@, body@),
{
    query.is_empty() || contains(name, query) || contains(tag, query) || contains(body, query)
}

/// The description of a release; empty where it has none.
pub open spec fn body_text(release: ReleaseView) -> Seq<char> {
    match release.body {
        Some(b) => b,
        None => Seq::empty(),
    }
}

/// Whether a release fits what was searched for, whatever the case of the
/// letters and the white space around the query.
pub open spec fn release_matches(release: ReleaseView, query: Seq<char>) -> bool {
    texts_match(
        lowercase(trimmed(query)),
        lowercase(release.game_name()),
        lowercase(release.tag_name),
        lowercase(body_text(release)),
    )
}

/// Whether a release fits what was searched for, where that is of ASCII
/// characters.
pub open spec fn ascii_query_matches(release: ReleaseView, query: Seq<char>) -> bool {
    texts_match(
        ascii_lower(trimmed(query)),
        lowercase(release.game_name()),
        lowercase(release.tag_name),
        lowercase(body_text(release)),
    )
}

/// Whether a release fits what was searched for, where all texts are of ASCII
/// characters.
pub open spec fn ascii_release_matches(release: ReleaseView, query: Seq<char>) -> bool {
    texts_match(
        ascii_lower(trimmed(query)),
        ascii_lower(release.game_name()),
        ascii_lower(release.tag_name),
        ascii_lower(body_text(release)),
    )
}

/// Whether the query and the texts of a release are of ASCII characters.
pub open spec fn ascii_search(release: ReleaseView, query: Seq<char>) -> bool {
    is_ascii_chars(trimmed(query)) && is_ascii_chars(release.game_name()) && is_ascii_chars(
        release.tag_name,
    ) && is_ascii_chars(body_text(release))
}

impl Vault64App {
    /// The file of a release that updates the launcher: the first `.7z`, else
    /// the first `.zip`, else the first `.exe`, whatever the case of the letters.
    pub fn find_update_asset(release: &GithubRelease) -> (r: Option<GithubAsset>)
        ensures
            opt_view(r) == update_asset_of(release@),
            ascii_names(release@.assets) ==> opt_view(r) == asset_at(
                release@.assets,
                update_choice(ascii_lowered_names(release@.assets)),
            ),
    {
        match choose_update(&release.lower_names()) {
            Some(i) => Some(release.assets[i].clone()),
            None => None,
        }
    }

    /// Whether a release fits what was searched for. Everything fits a query of
    /// white space.
    pub fn matches_release(release: &GithubRelease, query: &str) -> (r: bool)
        ensures
            r == release_matches(release@, query@),
            ascii_search(release@, query@) ==> r == ascii_release_matches(release@, query@),
            trimmed(query@).len() == 0 ==> r,
            is_ascii_chars(trimmed(query@)) ==> r == ascii_query_matches(release@, query@),
            is_ascii_chars(trimmed(query@)) ==> lowercase(trimmed(query@)) == ascii_lower(
                trimmed(query@),
            ),
            is_ascii_chars(release@.game_name()) ==> lowercase(release@.game_name())
                == ascii_lower(release@.game_name()),
            is_ascii_chars(release@.tag_name) ==> lowercase(release@.tag_name) == ascii_lower(
                release@.tag_name,
            ),
            is_ascii_chars(body_text(release@)) ==> lowercase(body_text(release@)) == ascii_lower(
                body_text(release@),
            ),
            release@.body is None ==> lowercase(body_text(release@)).len() == 0,
    {
        let inner: String = trim(query);
        let q: String = to_lowercase(inner.as_str());
        let shown: String = release.game_name();
        let name: String = to_lowercase(shown.as_str());
        let tag: String = to_lowercase(release.tag_name.as_str());
        let text: String = match &release.body {
            Some(b) => b.clone(),
            None => String::new(),
        };
        let body: String = to_lowercase(text.as_str());
        match_texts(q.as_str(), name.as_str(), tag.as_str(), body.as_str())
    }
}

/// A file is chosen to update the launcher if and only if one has a fitting
/// name. Where there is a `.7z` it is the first of them, else where there is a
/// `.zip` it is the first of them, else the first `.exe`.
pub proof fn law_update_choice_order(names: Seq<Seq<char>>, j: int)
    requires
        0 <= j < names.len(),
    ensures
        finishes_with(names[j], ".7z"@) ==> (update_choice(names) matches Some(i) && 0 <= i <= j
            && finishes_with(names[i], ".7z"@)),
        finishes_with(names[j], ".zip"@) ==> (update_choice(names) matches Some(i) && 0 <= i
            < names.len() && (finishes_with(names[i], ".7z"@) || (i <= j && finishes_with(
            names[i],
            ".zip"@,
        )))),
        finishes_with(names[j], ".exe"@) ==> (update_choice(names) matches Some(i) && 0 <= i
            < names.len() && (finishes_with(names[i], ".7z"@) || finishes_with(names[i], ".zip"@)
            || (i <= j && finishes_with(names[i], ".exe"@)))),
        update_choice(names) matches Some(i) ==> 0 <= i < names.len() && (finishes_with(
            names[i],
            ".7z"@,
        ) || finishes_with(names[i], ".zip"@) || finishes_with(names[i], ".exe"@)),
{
    lemma_first_ending(names, ".7z"@);
    lemma_first_ending(names, ".zip"@);
    lemma_first_ending(names, ".exe"@);
}

/// White space around what is searched for makes no difference.
pub proof fn law_search_ignores_outer_space(release: ReleaseView, query: Seq<char>)
    ensures
        release_matches(release, trimmed(query)) == release_matches(release, query),
{
    law_trimming_is_final(query);
}

/// The case of the ASCII letters that are searched for makes no difference,
/// whatever the texts of the release; nor does the case of the letters in these
/// texts, where they are of ASCII characters.
pub proof fn law_search_ignores_case(release: ReleaseView, query: Seq<char>, other: ReleaseView)
    requires
        ascii_lower(other.game_name()) == ascii_lower(release.game_name()),
        ascii_lower(other.tag_name) == ascii_lower(release.tag_name),
        ascii_lower(body_text(other)) == ascii_lower(body_text(release)),
    ensures
        ascii_query_matches(release, ascii_lower(query)) == ascii_query_matches(release, query),
        ascii_release_matches(release, ascii_lower(query)) == ascii_release_matches(release, query),
        ascii_release_matches(other, query) == ascii_release_matches(release, query),
{
    lemma_trimmed_lower(query);
    law_lower_case_is_final(trimmed(query));
}

/// Whoever searches for more finds less: what fits a query fits each part of it.
pub proof fn law_longer_search_finds_less(
    query: Seq<char>,
    part: Seq<char>,
    name: Seq<char>,
    tag: Seq<char>,
    body: Seq<char>,
)
    requires
        contains_text(query, part),
        texts_match(query, name, tag, body),
    ensures
        texts_match(part, name, tag, body),
{
    if query.len() == 0 {
        assert(part.len() == 0);
    } else if contains_text(name, query) {
        lemma_contains_transitive(name, query, part);
    } else if contains_text(tag, query) {
        lemma_contains_transitive(tag, query, part);
    } else {
        lemma_contains_transitive(body, query, part);
    }
}

/// A release fits a query if and only if the query is empty or stands at some
/// place in the name, in the tag, or anywhere in the description.
pub proof fn law_fits_where_the_query_stands(
    query: Seq<char>,
    name: Seq<char>,
    tag: Seq<char>,
    body: Seq<char>,
    i: int,
)
    ensures
        query.len() == 0 ==> texts_match(query, name, tag, body),
        0 <= i <= name.len() - query.len() && name.subrange(i, i + query.len()) == query
            ==> texts_match(query, name, tag, body),
        0 <= i <= tag.len() - query.len() && tag.subrange(i, i + query.len()) == query
            ==> texts_match(query, name, tag, body),
        0 <= i <= body.len() - query.len() && body.subrange(i, i + query.len()) == query
            ==> texts_match(query, name, tag, body),
        texts_match(query, name, tag, body) ==> query.len() == 0 || (exists|k: int|
            0 <= k <= name.len() - query.len() && #[trigger] name.subrange(k, k + query.len())
                == query) || (exists|k: int|
            0 <= k <= tag.len() - query.len() && #[trigger] tag.subrange(k, k + query.len())
                == query) || (exists|k: int|
            0 <= k <= body.len() - query.len() && #[trigger] body.subrange(k, k + query.len())
                == query),
{
    let none = Seq::<char>::empty();
    law_where_a_text_stands(name, query, none, none);
    law_where_a_text_stands(tag, query, none, none);
    law_where_a_text_stands(body, query, none, none);
    if 0 <= i <= name.len() - query.len() && name.subrange(i, i + query.len()) == query {
        lemma_stands_in(name, query, i);
    }
    if 0 <= i <= tag.len() - query.len() && tag.subrange(i, i + query.len()) == query {
        lemma_stands_in(tag, query, i);
    }
    if 0 <= i <= body.len() - query.len() && body.subrange(i, i + query.len()) == query {
        lemma_stands_in(body, query, i);
    }
}

/// A text that stands at a position of another one is found in it.
proof fn lemma_stands_in(s: Seq<char>, q: Seq<char>, i: int)
    requires
        0 <= i <= s.len() - q.len(),
        s.subrange(i, i + q.len()) == q,
    ensures
        contains_text(s, q),
{
    let left = s.subrange(0, i);
    let right = s.subrange(i + q.len(), s.len() as int);
    assert(left + q + right == s);
    law_where_a_text_stands(s, q, left, right);
}

/// A search goes by the query without the white space around it, in lower case,
/// and by the whole name, tag and description, in lower case; an absent
/// description counts as an empty one, an absent name as the tag.
pub proof fn law_what_a_search_compares(
    release: ReleaseView,
    left: Seq<char>,
    inner: Seq<char>,
    right: Seq<char>,
)
    requires
        forall|i: int| 0 <= i < left.len() ==> white_space(#[trigger] left[i]),
        forall|i: int| 0 <= i < right.len() ==> white_space(#[trigger] right[i]),
        inner.len() > 0 ==> !white_space(inner[0]) && !white_space(inner[inner.len() - 1]),
    ensures
        release.name matches Some(name) ==> release.game_name() == name,
        release.name is None ==> release.game_name() == release.tag_name,
        ({
            let name = match release.name {
                Some(name) => name,
                None => release.tag_name,
            };
            let body = match release.body {
                Some(body) => body,
                None => Seq::<char>::empty(),
            };
            &&& release_matches(release, left + inner + right) <==> texts_match(
                lowercase(inner),
                lowercase(name),
                lowercase(release.tag_name),
                lowercase(body),
            )
            &&& ascii_query_matches(release, left + inner + right) <==> texts_match(
                ascii_lower(inner),
                lowercase(name),
                lowercase(release.tag_name),
                lowercase(body),
            )
            &&& ascii_release_matches(release, left + inner + right) <==> texts_match(
                ascii_lower(inner),
                ascii_lower(name),
                ascii_lower(release.tag_name),
                ascii_lower(body),
            )
        }),
{
    law_trimming_leaves_the_inner_text(left, inner, right);
}

/// Whether a name ends with the given characters.
spec fn ends(name: Seq<char>, end: Seq<char>) -> bool {
    name.len() >= end.len() && name.subrange(name.len() - end.len(), name.len() as int) == end
}

proof fn lemma_ends(name: Seq<char>, end: Seq<char>)
    ensures
        ends(name, end) <==> finishes_with(name, end),
{
    if ends(name, end) {
        let left = name.subrange(0, name.len() - end.len());
        assert(left + end == name);
        law_where_a_text_stands(name, end, left, Seq::empty());
    }
    law_where_a_text_stands(name, end, Seq::empty(), Seq::empty());
}

/// Whether the name of a file, in lower case, ends with the given characters.
pub open spec fn asset_ends(release: ReleaseView, k: int, end: Seq<char>) -> bool {
    let name = lowercase(release.assets[k].name);
    name.len() >= end.len() && name.subrange(name.len() - end.len(), name.len() as int) == end
}

/// The package of a game is the first file whose name, in lower case, ends with
/// `.`, `7` and `z`, and there is none if and only if no file has such a name.
pub proof fn law_game_package_is_the_first_7z(release: ReleaseView, j: int)
    ensures
        ({
            let end = seq!['.', '7', 'z'];
            &&& 0 <= j < release.assets.len() && asset_ends(release, j, end) && (forall|k: int|
                0 <= k < j ==> !(#[trigger] asset_ends(release, k, end))) ==> package_of(release)
                == Some(release.assets[j])
            &&& package_of(release) is None <==> forall|k: int|
                0 <= k < release.assets.len() ==> !(#[trigger] asset_ends(release, k, end))
        }),
{
    let names = lowered_names(release.assets);
    let end = seq!['.', '7', 'z'];
    reveal_strlit(".7z");
    assert(".7z"@ == end);
    lemma_first_ending(names, end);
    assert forall|k: int| 0 <= k < names.len() implies (finishes_with(names[k], end)
        <==> #[trigger] asset_ends(release, k, end)) by {
        lemma_ends(names[k], end);
    }
    if let Some(i) = first_ending(names, end) {
        assert(asset_ends(release, i, end));
    }
}

/// The launcher is updated from the first `.7z`, whatever other files there are;
/// without one from the first `.zip`; without either from the first `.exe`; and
/// without any of them not at all. The names count in lower case.
pub proof fn law_update_file_by_kind_and_order(release: ReleaseView, j: int)
    ensures
        ({
            let packed = seq!['.', '7', 'z'];
            let zip = seq!['.', 'z', 'i', 'p'];
            let exe = seq!['.', 'e', 'x', 'e'];
            let n = release.assets.len();
            let no_packed = forall|k: int|
                0 <= k < n ==> !(#[trigger] asset_ends(release, k, packed));
            let no_zip = forall|k: int| 0 <= k < n ==> !(#[trigger] asset_ends(release, k, zip));
            let no_exe = forall|k: int| 0 <= k < n ==> !(#[trigger] asset_ends(release, k, exe));
            let chosen = update_asset_of(release) == Some(release.assets[j]);
            &&& 0 <= j < n && asset_ends(release, j, packed) && (forall|k: int|
                0 <= k < j ==> !(#[trigger] asset_ends(release, k, packed))) ==> chosen
            &&& no_packed && 0 <= j < n && asset_ends(release, j, zip) && (forall|k: int|
                0 <= k < j ==> !(#[trigger] asset_ends(release, k, zip))) ==> chosen
            &&& no_packed && no_zip && 0 <= j < n && asset_ends(release, j, exe) && (forall|k: int|
                0 <= k < j ==> !(#[trigger] asset_ends(release, k, exe))) ==> chosen
            &&& no_packed && no_zip && no_exe ==> update_asset_of(release) is None
        }),
{
    let names = lowered_names(release.assets);
    let packed = seq!['.', '7', 'z'];
    let zip = seq!['.', 'z', 'i', 'p'];
    let exe = seq!['.', 'e', 'x', 'e'];
    reveal_strlit(".7z");
    reveal_strlit(".zip");
    reveal_strlit(".exe");
    assert(".7z"@ == packed);
    assert(".zip"@ == zip);
    assert(".exe"@ == exe);
    lemma_first_ending(names, packed);
    lemma_first_ending(names, zip);
    lemma_first_ending(names, exe);
    assert forall|k: int, end: Seq<char>| 0 <= k < names.len() implies (finishes_with(
        names[k],
        end,
    ) <==> #[trigger] asset_ends(release, k, end)) by {
        lemma_ends(names[k], end);
    }
    if let Some(i) = first_ending(names, packed) {
        assert(asset_ends(release, i, packed));
    }
    if let Some(i) = first_ending(names, zip) {
        assert(asset_ends(release, i, zip));
    }
    if let Some(i) = first_ending(names, exe) {
        assert(asset_ends(release, i, exe));
    }
}

/// The names of the files are of ASCII if and only if each of them is; a search is
/// if and only if the query without the white space around it, the name or else
/// the tag, the tag, and the description, if there is one, all are.
pub proof fn law_what_is_of_ascii(release: ReleaseView, query: Seq<char>, i: int)
    ensures
        (forall|k: int|
            0 <= k < release.assets.len() ==> is_ascii_chars(#[trigger] release.assets[k].name))
            ==> ascii_names(release.assets),
        0 <= i < release.assets.len() && !is_ascii_chars(release.assets[i].name) ==> !ascii_names(
            release.assets,
        ),
        ascii_search(release, query) <==> is_ascii_chars(trimmed(query)) && is_ascii_chars(
            release.tag_name,
        ) && (release.name matches Some(name) ==> is_ascii_chars(name)) && (
        release.body matches Some(body) ==> is_ascii_chars(body)),
{
}

} // verus!
