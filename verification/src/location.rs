//! Places in the file system, named by a known folder and the names below it.
use crate::text::views;
use vstd::prelude::*;

verus! {

/// The folders from which places are named.
#[derive(Clone, Copy, PartialEq, Eq, Structural, Debug)]
pub enum Base {
    /// The system's folder for temporary files.
    SystemTemp,
    /// The folder of the running program.
    ProgramDir,
    /// The folder of the installed games.
    GamesDir,
    /// The folder of the settings file.
    ConfigDir,
}

/// A place: a folder and the names that lead down from it.
#[derive(Debug)]
pub struct Location {
    pub base: Base,
    pub parts: Vec<String>,
}

/// What a `Location` names.
#[verifier::ext_equal]
pub struct LocationView {
    pub base: Base,
    pub parts: Seq<Seq<char>>,
}

impl View for Location {
    type V = LocationView;

    open spec fn view(&self) -> LocationView {
        LocationView { base: self.base, parts: views(self.parts@) }
    }
}

/// The folder itself.
pub open spec fn folder(base: Base) -> LocationView {
    LocationView { base, parts: Seq::empty() }
}

impl LocationView {
    /// The entry of the given name in this folder; the folder itself where the
    /// name is empty.
    pub open spec fn child(self, name: Seq<char>) -> LocationView {
        if name.len() == 0 {
            self
        } else {
            LocationView { base: self.base, parts: self.parts.push(name) }
        }
    }

    /// Whether this place is `outer` or lies below it.
    pub open spec fn within(self, outer: LocationView) -> bool {
        self.base == outer.base && outer.parts.is_prefix_of(self.parts)
    }

    /// Whether one of the two places lies in the other.
    pub open spec fn overlaps(self, other: LocationView) -> bool {
        self.within(other) || other.within(self)
    }
}

impl Location {
    /// The folder itself.
    pub fn folder(base: Base) -> (r: Location)
        ensures
            r@ == folder(base),
    {
        let r = Location { base, parts: Vec::new() };
        assert(r@.parts == Seq::<Seq<char>>::empty());
        r
    }

    /// The entry of the given name in this folder; the folder itself where the
    /// name is empty.
    pub fn child(&self, name: &str) -> (r: Location)
        ensures
            r@ == self@.child(name@),
    {
        let mut r = self.clone();
        if name.is_empty() {
            return r;
        }
        let ghost above = r.parts@;
        r.parts.push(name.to_owned());
        assert(views(r.parts@) == views(above).push(name@));
        r
    }
}

impl Clone for Location {
    fn clone(&self) -> (r: Self)
        ensures
            r@ == self@,
    {
        let n: usize = self.parts.len();
        let mut parts: Vec<String> = Vec::new();
        let mut i: usize = 0;
        while i < n
            invariant
                i <= n == self.parts@.len(),
                parts@ == self.parts@.take(i as int),
            decreases n - i,
        {
            parts.push(self.parts[i].clone());
            i += 1;
        }
        assert(parts@ == self.parts@);
        Location { base: self.base, parts }
    }
}

/// A name leads one step down; nothing leads nowhere. A place lies in another one
/// if and only if its names begin with the names of the other.
pub proof fn law_names_lead_down(l: LocationView, name: Seq<char>, other: LocationView, i: int)
    ensures
        folder(l.base).base == l.base && folder(l.base).parts.len() == 0,
        name.len() == 0 ==> l.child(name) == l,
        name.len() > 0 ==> l.child(name).parts.len() == l.parts.len() + 1 && l.child(name).parts[
            l.parts.len() as int] == name,
        l.child(name).base == l.base,
        0 <= i < l.parts.len() ==> l.child(name).parts[i] == l.parts[i],
        l.child(name).within(l),
        name.len() > 0 ==> !l.within(l.child(name)),
        l.within(other) <==> l.base == other.base && other.parts.len() <= l.parts.len()
            && l.parts.subrange(0, other.parts.len() as int) == other.parts,
        l.overlaps(other) <==> l.within(other) || other.within(l),
{
    if l.base == other.base && other.parts.len() <= l.parts.len() && l.parts.subrange(
        0,
        other.parts.len() as int,
    ) == other.parts {
        assert(other.parts.is_prefix_of(l.parts));
    }
    if l.within(other) {
        assert(l.parts.subrange(0, other.parts.len() as int) == other.parts);
    }
    assert(l.parts.is_prefix_of(l.parts.push(name)));
}

} // verus!
