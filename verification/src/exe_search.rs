//! The search for a game's executable in its folder and the folders below.
use crate::text::{ascii_lower, lowercase, same_text, to_lowercase};
use vstd::prelude::*;
use vstd::utf8::is_ascii_chars;

verus! {

/// What an entry of a folder is to the search. `P` is how places are written.
#[derive(Debug)]
pub enum SearchEntry<P> {
    /// A folder, to be looked into.
    Folder(P),
    /// A file that can be started.
    Executable(P),
    /// Anything else.
    Other,
}

/// What the search wants next.
#[derive(Debug)]
pub enum SearchStep<P> {
    /// The entries of a folder.
    List(P),
    /// Nothing: this executable was found.
    Found(P),
    /// Nothing: there is no executable.
    Nothing,
}

/// Whether a file with this extension, in lower case, can be started.
pub open spec fn exe_extension(lowered: Seq<char>) -> bool {
    lowered == "exe"@
}

/// Whether a file with this extension, in lower case, can be started.
pub fn is_exe_extension(lowered: &str) -> (r: bool)
    ensures
        r == exe_extension(lowered@),
{
    same_text(lowered, "exe")
}

/// What an entry is to the search, given whether it is a folder, whether it is
/// a file, and whether its extension is that of an executable.
pub open spec fn sorted_entry<P>(path: P, is_dir: bool, is_file: bool, exe: bool) -> SearchEntry<P> {
    if is_dir {
        SearchEntry::Folder(path)
    } else if is_file && exe {
        SearchEntry::Executable(path)
    } else {
        SearchEntry::Other
    }
}

/// What an entry is to the search, given its extension in lower case, if it has
/// one.
pub open spec fn named_entry<P>(
    path: P,
    is_dir: bool,
    is_file: bool,
    lowered: Option<Seq<char>>,
) -> SearchEntry<P> {
    sorted_entry(
        path,
        is_dir,
        is_file,
        match lowered {
            Some(e) => exe_extension(e),
            None => false,
        },
    )
}

/// What an entry is to the search. The extension is compared without regard to
/// the case of its letters.
pub fn sort_entry<P>(path: P, is_dir: bool, is_file: bool, extension: Option<String>) -> (r:
    SearchEntry<P>)
    ensures
        r == sorted_entry(
            path,
            is_dir,
            is_file,
            match extension {
                Some(e) => exe_extension(lowercase(e@)),
                None => false,
            },
        ),
        extension matches Some(e) ==> is_ascii_chars(e@) ==> r == sorted_entry(
            path,
            is_dir,
            is_file,
            exe_extension(ascii_lower(e@)),
        ),
        r == named_entry(
            path,
            is_dir,
            is_file,
            match extension {
                Some(e) => Some(lowercase(e@)),
                None => None,
            },
        ),
        extension matches Some(e) ==> is_ascii_chars(e@) ==> r == named_entry(
            path,
            is_dir,
            is_file,
            Some(ascii_lower(e@)),
        ),
        !is_dir && is_file && (extension matches Some(e) && is_ascii_chars(e@) && ascii_lower(e@)
            == seq!['e', 'x', 'e']) ==> r == SearchEntry::Executable(path),
        !is_dir && !(is_file && (extension matches Some(e) && (is_ascii_chars(e@) ==> ascii_lower(
            e@,
        ) == seq!['e', 'x', 'e']))) ==> r == SearchEntry::<P>::Other,
{
    proof {
        reveal_strlit("exe");
        assert("exe"@ == seq!['e', 'x', 'e']);
    }
    if is_dir {
        SearchEntry::Folder(path)
    } else if is_file {
        match extension {
            Some(e) => {
                let lowered: String = to_lowercase(e.as_str());
                if is_exe_extension(lowered.as_str()) {
                    SearchEntry::Executable(path)
                } else {
                    SearchEntry::Other
                }
            },
            None => SearchEntry::Other,
        }
    } else {
        SearchEntry::Other
    }
}

/// What comes of looking at the entries in order up to the first folder or
/// executable: the entries after it, and what is wanted next.
pub open spec fn advanced<P>(todo: Seq<SearchEntry<P>>) -> (Seq<SearchEntry<P>>, SearchStep<P>)
    decreases todo.len(),
{
    if todo.len() == 0 {
        (todo, SearchStep::Nothing)
    } else {
        match todo[0] {
            SearchEntry::Folder(p) => (todo.drop_first(), SearchStep::List(p)),
            SearchEntry::Executable(p) => (todo.drop_first(), SearchStep::Found(p)),
            SearchEntry::Other => advanced(todo.drop_first()),
        }
    }
}

/// A search under way.
#[derive(Debug)]
pub struct ExeSearch<P> {
    /// The entries still to be looked at, the next one last.
    stack: Vec<SearchEntry<P>>,
}

impl<P> View for ExeSearch<P> {
    type V = Seq<SearchEntry<P>>;

    /// The entries still to be looked at, in order.
    closed spec fn view(&self) -> Seq<SearchEntry<P>> {
        self.stack@.reverse()
    }
}

impl<P> ExeSearch<P> {
    /// A search that has not looked at anything yet.
    pub fn new() -> (r: ExeSearch<P>)
        ensures
            r@ == Seq::<SearchEntry<P>>::empty(),
    {
        let r = ExeSearch { stack: Vec::new() };
        assert(r@ == Seq::<SearchEntry<P>>::empty());
        r
    }

    /// Takes in the entries of the folder that was to be listed: they come
    /// before what was still to be looked at.
    pub fn listed(&mut self, entries: Vec<SearchEntry<P>>) -> (step: SearchStep<P>)
        ensures
            final(self)@ == advanced(entries@ + old(self)@).0,
            step == advanced(entries@ + old(self)@).1,
    {
        let mut left: Vec<SearchEntry<P>> = entries;
        let ghost all = entries@ + self@;
        while left.len() > 0
            invariant
                left@ + self.stack@.reverse() == all,
            decreases left@.len(),
        {
            let ghost kept = self.stack@;
            let ghost front = left@;
            match left.pop() {
                Some(entry) => {
                    self.stack.push(entry);
                    assert(self.stack@.reverse() == seq![entry] + kept.reverse());
                    assert(left@ + self.stack@.reverse() == front + kept.reverse());
                },
                None => {},
            }
        }
        assert(self.stack@.reverse() == all);
        while self.stack.len() > 0
            invariant
                all == entries@ + old(self)@,
                advanced(self.stack@.reverse()) == advanced(all),
            decreases self.stack@.len(),
        {
            let ghost now = self.stack@.reverse();
            match self.stack.pop() {
                Some(entry) => {
                    assert(now[0] == entry);
                    assert(now.drop_first() == self.stack@.reverse());
                    match entry {
                        SearchEntry::Folder(p) => {
                            return SearchStep::List(p);
                        },
                        SearchEntry::Executable(p) => {
                            return SearchStep::Found(p);
                        },
                        SearchEntry::Other => {},
                    }
                },
                None => {},
            }
        }
        assert(self.stack@.reverse().len() == 0);
        SearchStep::Nothing
    }
}

/// A folder with all that lies below it, an executable, or anything else.
pub enum Tree<P> {
    Folder(P, Seq<Tree<P>>),
    Executable(P),
    Other,
}

/// The first executable in a tree: the entries of a folder are taken in order,
/// each with all that lies below it before the next.
pub open spec fn first_exe<P>(tree: Tree<P>) -> Option<P>
    decreases tree,
{
    match tree {
        Tree::Folder(_, entries) => first_exe_in(entries),
        Tree::Executable(p) => Some(p),
        Tree::Other => None,
    }
}

/// The first executable in a row of trees.
pub open spec fn first_exe_in<P>(trees: Seq<Tree<P>>) -> Option<P>
    decreases trees,
{
    if trees.len() == 0 {
        None
    } else {
        match first_exe(trees[0]) {
            Some(p) => Some(p),
            None => first_exe_in(trees.drop_first()),
        }
    }
}

/// The number of entries in a tree.
pub open spec fn tree_size<P>(tree: Tree<P>) -> nat
    decreases tree,
{
    match tree {
        Tree::Folder(_, entries) => 1 + forest_size(entries),
        _ => 1,
    }
}

/// The number of entries in a row of trees.
pub open spec fn forest_size<P>(trees: Seq<Tree<P>>) -> nat
    decreases trees,
{
    if trees.len() == 0 {
        0
    } else {
        tree_size(trees[0]) + forest_size(trees.drop_first())
    }
}

/// What a tree is to the search before it is looked into.
pub open spec fn tree_entry<P>(tree: Tree<P>) -> SearchEntry<P> {
    match tree {
        Tree::Folder(p, _) => SearchEntry::Folder(p),
        Tree::Executable(p) => SearchEntry::Executable(p),
        Tree::Other => SearchEntry::Other,
    }
}

/// What a row of trees is to the search.
pub open spec fn tree_entries<P>(trees: Seq<Tree<P>>) -> Seq<SearchEntry<P>> {
    Seq::new(trees.len(), |i: int| tree_entry(trees[i]))
}

/// The position of the folder that the search wants listed.
pub open spec fn wanted_index<P>(trees: Seq<Tree<P>>) -> int {
    trees.len() - advanced(tree_entries(trees)).0.len() - 1
}

/// What the search ends with when each folder that it wants listed is answered
/// with the folder's entries.
pub open spec fn search_result<P>(trees: Seq<Tree<P>>) -> Option<P>
    decreases forest_size(trees),
{
    match advanced(tree_entries(trees)).1 {
        SearchStep::Nothing => None,
        SearchStep::Found(p) => Some(p),
        SearchStep::List(_) => match trees[wanted_index(trees)] {
            Tree::Folder(_, entries) => {
                proof {
                    lemma_wanted_folder(trees);
                }
                search_result(entries + trees.skip(wanted_index(trees) + 1))
            },
            _ => None,
        },
    }
}

proof fn lemma_first_exe_in_two<P>(a: Seq<Tree<P>>, b: Seq<Tree<P>>)
    ensures
        first_exe_in(a + b) == (match first_exe_in(a) {
            Some(p) => Some(p),
            None => first_exe_in(b),
        }),
        forest_size(a + b) == forest_size(a) + forest_size(b),
    decreases a.len(),
{
    if a.len() == 0 {
        assert(a + b == b);
    } else {
        lemma_first_exe_in_two(a.drop_first(), b);
        assert((a + b).drop_first() == a.drop_first() + b);
    }
}

/// The folder that is wanted is one of the trees, and what is left to look at
/// is what comes after it; the executables before it were none.
pub proof fn lemma_wanted_folder<P>(trees: Seq<Tree<P>>)
    ensures
        match advanced(tree_entries(trees)).1 {
            SearchStep::Nothing => first_exe_in(trees) is None,
            SearchStep::Found(p) => first_exe_in(trees) == Some(p),
            SearchStep::List(p) => {
                let k = wanted_index(trees);
                let rest = trees.skip(k + 1);
                &&& 0 <= k < trees.len()
                &&& advanced(tree_entries(trees)).0 == tree_entries(rest)
                &&& match trees[k] {
                    Tree::Folder(q, entries) => p == q && forest_size(entries + rest)
                        < forest_size(trees) && first_exe_in(trees) == first_exe_in(entries + rest),
                    _ => false,
                }
            },
        },
    decreases trees.len(),
{
    let todo = tree_entries(trees);
    if trees.len() > 0 {
        let tail = trees.drop_first();
        assert(todo.drop_first() == tree_entries(tail));
        assert(todo[0] == tree_entry(trees[0]));
        match trees[0] {
            Tree::Folder(p, entries) => {
                assert(trees.skip(1) == tail);
                assert(wanted_index(trees) == 0);
                lemma_first_exe_in_two(entries, tail);
                assert(first_exe(trees[0]) == first_exe_in(entries));
                assert(tree_size(trees[0]) == 1 + forest_size(entries));
            },
            Tree::Executable(p) => {
                assert(first_exe(trees[0]) == Some(p));
            },
            Tree::Other => {
                assert(first_exe(trees[0]) is None);
                lemma_wanted_folder(tail);
                if advanced(todo).1 is List {
                    let k = wanted_index(tail);
                    assert(wanted_index(trees) == k + 1);
                    assert(tail[k] == trees[k + 1]);
                    assert(tail.skip(k + 1) == trees.skip(k + 2));
                }
            },
        }
    }
}

/// The search finds the first executable, each folder being looked into where
/// it stands among its neighbours; it finds one if and only if there is one.
pub proof fn law_search_is_depth_first<P>(trees: Seq<Tree<P>>)
    ensures
        search_result(trees) == first_exe_in(trees),
    decreases forest_size(trees),
{
    lemma_wanted_folder(trees);
    if advanced(tree_entries(trees)).1 is List {
        let k = wanted_index(trees);
        match trees[k] {
            Tree::Folder(_, entries) => {
                law_search_is_depth_first(entries + trees.skip(k + 1));
            },
            _ => {},
        }
    }
}

/// A file is an executable if and only if its extension, with `A` to `Z` in lower
/// case, is made of the characters `e`, `x` and `e`; every other file, and
/// whatever is neither a file nor a folder, is passed over. A folder is looked
/// into whatever it is called.
pub proof fn law_executables_end_with_exe<P>(path: P, extension: Seq<char>, is_file: bool, exe: bool)
    ensures
        exe_extension(extension) <==> extension.len() == 3 && extension[0] == 'e' && extension[1]
            == 'x' && extension[2] == 'e',
        ascii_lower(extension) == seq!['e', 'x', 'e'] <==> sorted_entry(
            path,
            false,
            true,
            exe_extension(ascii_lower(extension)),
        ) == SearchEntry::Executable(path),
        ascii_lower(extension) != seq!['e', 'x', 'e'] <==> sorted_entry(
            path,
            false,
            true,
            exe_extension(ascii_lower(extension)),
        ) == SearchEntry::<P>::Other,
        sorted_entry(path, false, true, false) == SearchEntry::<P>::Other,
        sorted_entry(path, false, false, exe) == SearchEntry::<P>::Other,
        sorted_entry(path, true, is_file, exe) == SearchEntry::Folder(path),
{
    reveal_strlit("exe");
    assert("exe"@ == seq!['e', 'x', 'e']);
    if extension.len() == 3 && extension[0] == 'e' && extension[1] == 'x' && extension[2] == 'e' {
        assert(extension == seq!['e', 'x', 'e']);
    }
}

/// Entries that are neither folders nor executables are passed over; the first
/// other one decides, and what follows it is left for later.
pub proof fn law_first_of_interest_decides<P>(
    others: Seq<SearchEntry<P>>,
    path: P,
    rest: Seq<SearchEntry<P>>,
)
    requires
        forall|i: int| 0 <= i < others.len() ==> (#[trigger] others[i]) is Other,
    ensures
        advanced(others).1 == SearchStep::<P>::Nothing,
        advanced(others).0.len() == 0,
        advanced(others + seq![SearchEntry::Folder(path)] + rest) == (rest, SearchStep::List(path)),
        advanced(others + seq![SearchEntry::Executable(path)] + rest) == (
            rest,
            SearchStep::Found(path),
        ),
    decreases others.len(),
{
    let folder = others + seq![SearchEntry::Folder(path)] + rest;
    let file = others + seq![SearchEntry::Executable(path)] + rest;
    if others.len() == 0 {
        assert(folder[0] == SearchEntry::Folder(path));
        assert(folder.drop_first() == rest);
        assert(file[0] == SearchEntry::Executable(path));
        assert(file.drop_first() == rest);
    } else {
        let tail = others.drop_first();
        assert forall|i: int| 0 <= i < tail.len() implies (#[trigger] tail[i]) is Other by {
            assert(tail[i] == others[i + 1]);
        }
        law_first_of_interest_decides(tail, path, rest);
        assert(others[0] is Other);
        assert(folder[0] == others[0]);
        assert(folder.drop_first() == tail + seq![SearchEntry::Folder(path)] + rest);
        assert(file[0] == others[0]);
        assert(file.drop_first() == tail + seq![SearchEntry::Executable(path)] + rest);
    }
}

/// The first executable of a row is that of its first tree, if that has one, and
/// else that of the others; a folder has that of its entries, an executable
/// itself, and anything else none.
pub proof fn law_first_executable_of_a_row<P>(
    path: P,
    entries: Seq<Tree<P>>,
    rest: Seq<Tree<P>>,
)
    ensures
        first_exe_in(Seq::<Tree<P>>::empty()) is None,
        first_exe_in(seq![Tree::Executable(path)] + rest) == Some(path),
        first_exe_in(seq![Tree::Other] + rest) == first_exe_in(rest),
        first_exe_in(seq![Tree::Folder(path, entries)] + rest) == first_exe_in(entries + rest),
{
    let a = seq![Tree::Executable(path)] + rest;
    let b = seq![Tree::Other] + rest;
    let c = seq![Tree::Folder(path, entries)] + rest;
    assert(a[0] == Tree::Executable(path));
    assert(first_exe(a[0]) == Some(path));
    assert(b[0] == Tree::<P>::Other);
    assert(first_exe(b[0]) is None);
    assert(b.drop_first() == rest);
    assert(c[0] == Tree::Folder(path, entries));
    assert(first_exe(c[0]) == first_exe_in(entries));
    assert(c.drop_first() == rest);
    lemma_first_exe_in_two(entries, rest);
}

/// Of an entry and its extension in lower case: a folder is looked into; a file is
/// an executable if and only if its extension is made of the characters `e`, `x`
/// and `e`; every other file, one without an extension, and whatever is neither a
/// file nor a folder, is passed over.
pub proof fn law_what_an_entry_is<P>(
    path: P,
    is_file: bool,
    lowered: Seq<char>,
    extension: Option<Seq<char>>,
)
    ensures
        lowered == seq!['e', 'x', 'e'] <==> named_entry(path, false, true, Some(lowered))
            == SearchEntry::Executable(path),
        lowered != seq!['e', 'x', 'e'] <==> named_entry(path, false, true, Some(lowered))
            == SearchEntry::<P>::Other,
        named_entry(path, false, true, None) == SearchEntry::<P>::Other,
        named_entry(path, false, false, extension) == SearchEntry::<P>::Other,
        named_entry(path, true, is_file, extension) == SearchEntry::Folder(path),
{
    law_executables_end_with_exe(path, lowered, is_file, true);
    reveal_strlit("exe");
    assert("exe"@ == seq!['e', 'x', 'e']);
}

} // verus!
