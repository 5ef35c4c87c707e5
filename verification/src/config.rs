//! The settings that are kept between runs.
use crate::text::{opt_view, same_text, views};
use vstd::prelude::*;

verus! {

/// The colour themes.
#[derive(Clone, Copy, PartialEq, Eq, Structural, Debug)]
pub enum AppTheme {
    Dark,
    Light,
    Neon,
}

impl Default for AppTheme {
    fn default() -> (r: Self)
        ensures
            r == AppTheme::Dark,
    {
        AppTheme::Dark
    }
}

/// The settings: who is remembered, which games are in the library, the theme.
#[derive(Debug)]
pub struct AppConfig {
    pub remembered_username: Option<String>,
    pub library: Vec<String>,
    pub theme: AppTheme,
}

/// What an `AppConfig` holds.
#[verifier::ext_equal]
pub struct ConfigView {
    pub remembered_username: Option<Seq<char>>,
    pub library: Seq<Seq<char>>,
    pub theme: AppTheme,
}

impl View for AppConfig {
    type V = ConfigView;

    open spec fn view(&self) -> ConfigView {
        ConfigView {
            remembered_username: opt_view(self.remembered_username),
            library: views(self.library@),
            theme: self.theme,
        }
    }
}

/// The settings of a first run.
pub open spec fn default_config() -> ConfigView {
    ConfigView { remembered_username: None, library: Seq::empty(), theme: AppTheme::Dark }
}

impl Default for AppConfig {
    fn default() -> (r: Self)
        ensures
            r@ == default_config(),
    {
        let r = AppConfig {
            remembered_username: None,
            library: Vec::new(),
            theme: AppTheme::default(),
        };
        assert(r@.library == Seq::<Seq<char>>::empty());
        r
    }
}

/// A library after a game was added: at the end, unless it is already there.
pub open spec fn library_with(library: Seq<Seq<char>>, game: Seq<char>) -> Seq<Seq<char>> {
    if library.contains(game) {
        library
    } else {
        library.push(game)
    }
}

/// A library after a game was removed, wherever it stood.
pub open spec fn library_without(library: Seq<Seq<char>>, game: Seq<char>) -> Seq<Seq<char>> {
    library.filter(|g: Seq<char>| g != game)
}

impl AppConfig {
    /// Whether a game is in the library.
    pub fn in_library(&self, game: &str) -> (r: bool)
        ensures
            r == self@.library.contains(game@),
    {
        let n: usize = self.library.len();
        let mut i: usize = 0;
        while i < n
            invariant
                i <= n == self.library@.len(),
                forall|j: int| 0 <= j < i ==> self.library@[j]@ != game@,
            decreases n - i,
        {
            if same_text(self.library[i].as_str(), game) {
                assert(self@.library[i as int] == game@);
                return true;
            }
            i += 1;
        }
        assert(!self@.library.contains(game@));
        false
    }

    /// Adds a game to the library unless it is there; tells whether it was added.
    pub fn add_to_library(&mut self, game: &str) -> (added: bool)
        ensures
            final(self)@ == (ConfigView {
                library: library_with(old(self)@.library, game@),
                ..old(self)@
            }),
            added == !old(self)@.library.contains(game@),
    {
        if self.in_library(game) {
            false
        } else {
            self.library.push(game.to_owned());
            assert(self@.library == old(self)@.library.push(game@));
            true
        }
    }

    /// Removes a game from the library.
    pub fn remove_from_library(&mut self, game: &str)
        ensures
            final(self)@ == (ConfigView {
                library: library_without(old(self)@.library, game@),
                ..old(self)@
            }),
    {
        let n: usize = self.library.len();
        let mut kept: Vec<String> = Vec::new();
        let mut i: usize = 0;
        let ghost all = self@.library;
        let ghost keep = |g: Seq<char>| g != game@;
        assert(views(kept@) == all.take(0).filter(keep));
        while i < n
            invariant
                i <= n == self.library@.len(),
                *self == *old(self),
                all == self@.library,
                keep == (|g: Seq<char>| g != game@),
                views(kept@) == all.take(i as int).filter(keep),
            decreases n - i,
        {
            reveal(Seq::filter);
            assert(all.take(i + 1).drop_last() == all.take(i as int));
            assert(all.take(i + 1).last() == self.library@[i as int]@);
            if !same_text(self.library[i].as_str(), game) {
                let ghost before_push = kept@;
                kept.push(self.library[i].clone());
                assert(views(kept@) == views(before_push).push(self.library@[i as int]@));
            }
            i += 1;
        }
        assert(all.take(n as int) == all);
        self.library = kept;
    }
}

/// After a game is added the library has it, keeps what it had in its order,
/// and lists no game twice if it did not before.
pub proof fn law_added_game_is_listed(library: Seq<Seq<char>>, game: Seq<char>)
    ensures
        library_with(library, game).contains(game),
        library.is_prefix_of(library_with(library, game)),
        library.no_duplicates() ==> library_with(library, game).no_duplicates(),
        library_with(library_with(library, game), game) == library_with(library, game),
{
    let after = library_with(library, game);
    if !library.contains(game) {
        assert(after[library.len() as int] == game);
    }
}

/// After a game is removed the library does not have it and has every other
/// game that it had, and no further one.
pub proof fn law_removed_game_is_gone(library: Seq<Seq<char>>, game: Seq<char>)
    ensures
        !library_without(library, game).contains(game),
        forall|g: Seq<char>|
            g != game ==> (#[trigger] library_without(library, game).contains(g)
                <==> library.contains(g)),
        library.no_duplicates() ==> library_without(library, game).no_duplicates(),
    decreases library.len(),
{
    reveal(Seq::filter);
    let after = library_without(library, game);
    if library.len() > 0 {
        let rest = library.drop_last();
        let rest_after = library_without(rest, game);
        law_removed_game_is_gone(rest, game);
        assert(library == rest.push(library.last()));
        if library.last() != game {
            assert(after == rest_after.push(library.last()));
            assert forall|g: Seq<char>| g != game implies (#[trigger] after.contains(g)
                <==> library.contains(g)) by {
                if after.contains(g) {
                    let k = choose|k: int| 0 <= k < after.len() && after[k] == g;
                    if k < rest_after.len() {
                        assert(rest_after[k] == g);
                        assert(library_without(rest, game).contains(g));
                        assert(rest.contains(g));
                        let m = choose|m: int| 0 <= m < rest.len() && rest[m] == g;
                        assert(library[m] == g);
                    } else {
                        assert(library[library.len() - 1] == g);
                    }
                }
                if library.contains(g) {
                    let m = choose|m: int| 0 <= m < library.len() && library[m] == g;
                    if m < rest.len() {
                        assert(rest[m] == g);
                        assert(rest_after.contains(g));
                        let k = choose|k: int| 0 <= k < rest_after.len() && rest_after[k] == g;
                        assert(after[k] == g);
                    } else {
                        assert(after[after.len() - 1] == g);
                    }
                }
            }
            if library.no_duplicates() {
                assert(rest.no_duplicates());
                assert(!rest.contains(library.last()));
                assert(!library_without(rest, game).contains(library.last()));
                assert forall|i: int, j: int| 0 <= i < after.len() && 0 <= j < after.len() && i
                    != j implies after[i] != after[j] by {
                    if i == rest_after.len() {
                        assert(rest_after[j] == after[j]);
                    } else if j == rest_after.len() {
                        assert(rest_after[i] == after[i]);
                    } else {
                        assert(rest_after[i] == after[i]);
                        assert(rest_after[j] == after[j]);
                    }
                }
            }
        } else {
            assert(after == rest_after);
            assert forall|g: Seq<char>| g != game implies (#[trigger] after.contains(g)
                <==> library.contains(g)) by {
                if library.contains(g) {
                    let m = choose|m: int| 0 <= m < library.len() && library[m] == g;
                    assert(rest[m] == g);
                }
                if rest.contains(g) {
                    let m = choose|m: int| 0 <= m < rest.len() && rest[m] == g;
                    assert(library[m] == g);
                }
            }
            if library.no_duplicates() {
                assert(rest.no_duplicates());
            }
        }
    }
}

/// Removing a game that was just added gives the library back.
pub proof fn law_removal_undoes_addition(library: Seq<Seq<char>>, game: Seq<char>)
    requires
        !library.contains(game),
    ensures
        library_without(library_with(library, game), game) == library,
{
    reveal(Seq::filter);
    assert(library.push(game).drop_last() == library);
    lemma_filter_keeps_all(library, game);
}

/// Removing a game that is not there changes nothing.
pub proof fn lemma_filter_keeps_all(library: Seq<Seq<char>>, game: Seq<char>)
    requires
        !library.contains(game),
    ensures
        library_without(library, game) == library,
    decreases library.len(),
{
    reveal(Seq::filter);
    if library.len() > 0 {
        let rest = library.drop_last();
        assert(library.last() == library[library.len() - 1]);
        assert forall|i: int| 0 <= i < rest.len() implies rest[i] != game by {
            assert(library[i] == rest[i]);
        }
        lemma_filter_keeps_all(rest, game);
        assert(rest.push(library.last()) == library);
    }
}

/// Removal goes through the library game by game and keeps the order: what it
/// leaves of two lists, one after the other, is what it leaves of each; of one
/// game it leaves nothing if it is the game, and else the game.
pub proof fn law_removal_keeps_the_order(a: Seq<Seq<char>>, b: Seq<Seq<char>>, game: Seq<char>)
    ensures
        library_without(a + b, game) == library_without(a, game) + library_without(b, game),
        library_without(seq![game], game) == Seq::<Seq<char>>::empty(),
        a.len() == 1 && a[0] != game ==> library_without(a, game) == a,
    decreases b.len(),
{
    reveal(Seq::filter);
    if b.len() == 0 {
        assert(a + b == a);
        assert(library_without(b, game) == Seq::<Seq<char>>::empty());
    } else {
        assert((a + b).drop_last() == a + b.drop_last());
        law_removal_keeps_the_order(a, b.drop_last(), game);
        assert(library_without(a + b, game) == library_without(a, game) + library_without(b, game));
    }
    let one = seq![game];
    assert(one.drop_last() == Seq::<Seq<char>>::empty());
    if a.len() == 1 && a[0] != game {
        assert(a.drop_last() == Seq::<Seq<char>>::empty());
        assert(a.last() == a[0]);
        assert(Seq::<Seq<char>>::empty().push(a[0]) == a);
    }
}

/// On a first run nobody is remembered, the library is empty and the theme is
/// the dark one.
pub proof fn law_first_run()
    ensures
        default_config().remembered_username is None,
        default_config().library.len() == 0,
        default_config().theme == AppTheme::Dark,
{
}

} // verus!
