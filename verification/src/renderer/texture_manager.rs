use vstd::prelude::*;

verus! {

/// The slot of `path` among the loaded paths, if it has one.
pub open spec fn slot_of(paths: Seq<Seq<char>>, path: Seq<char>) -> Option<int> {
    if paths.contains(path) {
        Some(choose|i: int| 0 <= i < paths.len() && paths[i] == path)
    } else {
        None
    }
}

/// No path occurs twice.
pub open spec fn distinct(paths: Seq<Seq<char>>) -> bool {
    forall|a: int, b: int| 0 <= a < b < paths.len() ==> paths[a] != paths[b]
}

/// In a list without repeats, the slot of a path is the one place it occurs.
pub proof fn lemma_slot_unique(paths: Seq<Seq<char>>, path: Seq<char>, i: int)
    requires
        distinct(paths),
        0 <= i < paths.len(),
        paths[i] == path,
    ensures
        slot_of(paths, path) == Some(i),
{
    assert(paths.contains(path));
    let j = choose|j: int| 0 <= j < paths.len() && paths[j] == path;
    if j != i {
        if j < i {
            assert(paths[j] != paths[i]);
        } else {
            assert(paths[i] != paths[j]);
        }
    }
}

/// The index a path is given stays its index: loading another path leaves it, and the
/// path just loaded gets the next index.
pub proof fn law_slots_are_stable(paths: Seq<Seq<char>>, loaded: Seq<char>, other: Seq<char>)
    requires
        distinct(paths.push(loaded)),
    ensures
        slot_of(paths.push(loaded), loaded) == Some(paths.len() as int),
        paths.contains(other) ==> slot_of(paths.push(loaded), other) == slot_of(paths, other),
{
    let all = paths.push(loaded);
    lemma_slot_unique(all, loaded, paths.len() as int);
    if paths.contains(other) {
        let k = choose|k: int| 0 <= k < paths.len() && paths[k] == other;
        assert forall|a: int, b: int| 0 <= a < b < paths.len() implies paths[a] != paths[b] by {
            assert(all[a] != all[b]);
        }
        lemma_slot_unique(paths, other, k);
        assert(all[k] == other);
        lemma_slot_unique(all, other, k);
    }
}

/// Over paths without repeats the slots are dense: each loaded path has the slot where it
/// stands, every slot a path has lies below the number loaded and holds that path, and a
/// path that was not loaded has none.
pub proof fn law_slots_dense(paths: Seq<Seq<char>>)
    requires
        distinct(paths),
    ensures
        forall|i: int| 0 <= i < paths.len() ==> slot_of(paths, #[trigger] paths[i]) == Some(i),
        forall|p: Seq<char>|
            #[trigger] slot_of(paths, p) matches Some(i) ==> 0 <= i < paths.len() && paths[i]
                == p,
        forall|p: Seq<char>| #[trigger] slot_of(paths, p) is None <==> !paths.contains(p),
{
    assert forall|i: int| 0 <= i < paths.len() implies slot_of(paths, #[trigger] paths[i]) == Some(
        i,
    ) by {
        lemma_slot_unique(paths, paths[i], i);
    }
}

/// The slots of the loaded textures: slot `i` holds the `i`-th path loaded. Each path has
/// one slot, so the index a path is given stays its index.
pub struct TextureSlots {
    paths: Vec<String>,
}

impl View for TextureSlots {
    type V = Seq<Seq<char>>;

    /// The paths by slot.
    closed spec fn view(&self) -> Seq<Seq<char>> {
        Seq::new(self.paths@.len(), |i: int| self.paths@[i]@)
    }
}

impl TextureSlots {
    #[verifier::type_invariant]
    spec fn well_formed(self) -> bool {
        &&& distinct(Seq::new(self.paths@.len(), |i: int| self.paths@[i]@))
        &&& self.paths@.len() <= u32::MAX
    }


    /// No texture loaded.
    pub fn new() -> (s: Self)
        ensures
            s.view() == Seq::<Seq<char>>::empty(),
    {
        let s = TextureSlots { paths: Vec::new() };
        assert(s.view() =~= Seq::<Seq<char>>::empty());
        s
    }

    /// The number of loaded textures.
    pub fn len(&self) -> (n: usize)
        ensures
            n == self.view().len(),
    {
        self.paths.len()
    }

    /// The index of `path` if it has been loaded.
    pub fn get_index(&self, path: &str) -> (r: Option<u32>)
        ensures
            distinct(self.view()),
            r == match slot_of(self.view(), path@) {
                Some(i) => Some(i as u32),
                None => None::<u32>,
            },
    {
        proof {
            use_type_invariant(self);
        }
        let mut i: usize = 0;
        let wanted = path.to_owned();
        while i < self.paths.len()
            invariant
                wanted@ == path@,
                distinct(self.view()),
                i <= self.paths@.len() <= u32::MAX,
                forall|k: int| 0 <= k < i ==> self.paths@[k]@ != path@,
            decreases self.paths@.len() - i,
        {
            if self.paths[i] == wanted {
                assert(self.view()[i as int] == path@);
                proof {
                    lemma_slot_unique(self.view(), path@, i as int);
                }
                return Some(i as u32);
            }
            i = i + 1;
        }
        proof {
            if self.view().contains(path@) {
                let k = choose|k: int| 0 <= k < self.view().len() && self.view()[k] == path@;
                assert(self.paths@[k]@ == path@);
            }
        }
        None
    }

    /// Gives `path`, which has not been loaded yet, the next slot and returns its index.
    pub fn insert(&mut self, path: &str) -> (index: u32)
        requires
            !old(self).view().contains(path@),
            old(self).view().len() < u32::MAX,
        ensures
            final(self).view() == old(self).view().push(path@),
            distinct(final(self).view()),
            index == old(self).view().len(),
    {
        proof {
            use_type_invariant(&*self);
        }
        let index = self.paths.len() as u32;
        let ghost before = self.view();
        let mut paths: Vec<String> = Vec::new();
        std::mem::swap(&mut paths, &mut self.paths);
        paths.push(path.to_owned());
        assert(Seq::new(paths@.len(), |i: int| paths@[i]@) =~= before.push(path@));
        self.paths = paths;
        proof {
            use_type_invariant(&*self);
        }
        index
    }

    /// The path in slot `index`, if that many textures have been loaded.
    pub fn get(&self, index: u32) -> (r: Option<&String>)
        ensures
            match r {
                Some(p) => index < self@.len() && p@ == self@[index as int],
                None => index >= self@.len(),
            },
    {
        if (index as usize) < self.paths.len() {
            Some(&self.paths[index as usize])
        } else {
            None
        }
    }

    /// Records how loading `path`, which has no slot yet, went: a texture that loaded
    /// takes the next slot, whose index is returned; one that failed to load leaves the
    /// slots as they were.
    pub fn record_load(&mut self, path: &str, loaded: bool) -> (r: Option<u32>)
        requires
            !old(self)@.contains(path@),
            old(self)@.len() < u32::MAX,
        ensures
            loaded ==> final(self)@ == old(self)@.push(path@) && r == Some(
                old(self)@.len() as u32,
            ),
            !loaded ==> final(self)@ == old(self)@ && r == None::<u32>,
    {
        if loaded {
            Some(self.insert(path))
        } else {
            None
        }
    }
}

} // verus!
