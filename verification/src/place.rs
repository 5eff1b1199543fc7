//! Places in the file system, as a root and the names that lead on from it.

use vstd::prelude::*;

verus! {

/// A place below `root`: each segment is joined to the path before it.
///
/// The root is opaque here, so that a path which is no Unicode text is carried
/// through unchanged.
#[derive(Debug)]
pub struct Location<P> {
    pub root: P,
    pub segments: Vec<String>,
}

/// The texts of `names`, in order.
pub open spec fn texts(names: Seq<String>) -> Seq<Seq<char>> {
    names.map_values(|name: String| name@)
}

impl<P> Location<P> {
    /// The names that lead from the root to the place.
    pub open spec fn trail(&self) -> Seq<Seq<char>> {
        texts(self.segments@)
    }

    /// The root itself.
    pub fn at(root: P) -> (place: Self)
        ensures
            place.root == root,
            place.trail() == Seq::<Seq<char>>::empty(),
    {
        let place = Location { root, segments: Vec::new() };
        assert(place.trail() =~= Seq::<Seq<char>>::empty());
        place
    }

    /// The place called `segment` in this one.
    pub fn join(self, segment: &str) -> (place: Self)
        ensures
            place.root == self.root,
            place.trail() == self.trail().push(segment@),
    {
        let ghost before = self.trail();
        let mut segments = self.segments;
        segments.push(segment.to_owned());
        let place = Location { root: self.root, segments };
        assert(place.trail() =~= before.push(segment@));
        place
    }

    /// The last name on the way to the place, if there is any.
    pub fn file_name(&self) -> (name: Option<&str>)
        ensures
            match name {
                Some(name) => self.trail().len() > 0 && name@ == self.trail().last(),
                None => self.trail().len() == 0,
            },
    {
        let n = self.segments.len();
        if n == 0 {
            None
        } else {
            Some(self.segments[n - 1].as_str())
        }
    }
}

impl Location<String> {
    /// Another value for the same place.
    pub fn copy(&self) -> (place: Self)
        ensures
            place.root@ == self.root@,
            place.trail() == self.trail(),
    {
        let mut segments: Vec<String> = Vec::new();
        let mut i: usize = 0;
        while i < self.segments.len()
            invariant
                i <= self.segments.len(),
                segments@.len() == i,
                forall|j: int| 0 <= j < i ==> (#[trigger] segments@[j])@ == self.segments@[j]@,
            decreases self.segments.len() - i,
        {
            segments.push(self.segments[i].clone());
            i += 1;
        }
        assert(texts(segments@) =~= texts(self.segments@));
        Location { root: self.root.clone(), segments }
    }
}

}
