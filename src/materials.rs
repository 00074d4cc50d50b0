use vstd::prelude::*;

verus! {

/// A shape refers to a material name that the scene does not define.
pub struct UnknownMaterial {
    pub name: String,
}

/// The materials of a scene under their names; a name maps to at most one
/// material, and inserting under a known name replaces its material.
pub struct MaterialTable<M> {
    names: Vec<String>,
    materials: Vec<M>,
}

impl<M> View for MaterialTable<M> {
    type V = Map<Seq<char>, M>;

    closed spec fn view(&self) -> Map<Seq<char>, M> {
        Map::new(
            |k: Seq<char>| exists|i: int| 0 <= i < self.names@.len() && #[trigger] self.names@[i]@ == k,
            |k: Seq<char>|
                self.materials@[choose|i: int|
                    0 <= i < self.names@.len() && #[trigger] self.names@[i]@ == k],
        )
    }
}

impl<M> MaterialTable<M> {
    /// Names and materials pair up one for one, and no name repeats.
    pub closed spec fn wf(&self) -> bool {
        &&& self.names@.len() == self.materials@.len()
        &&& forall|i: int, j: int|
            0 <= i < j < self.names@.len() ==> #[trigger] self.names@[i]@ != #[trigger] self.names@[j]@
    }

    proof fn lemma_slot(&self, i: int)
        requires
            self.wf(),
            0 <= i < self.names@.len(),
        ensures
            self@.contains_key(self.names@[i]@),
            self@[self.names@[i]@] == self.materials@[i],
    {
        let k = self.names@[i]@;
        let j = choose|j: int| 0 <= j < self.names@.len() && #[trigger] self.names@[j]@ == k;
        assert(0 <= j < self.names@.len() && self.names@[j]@ == k);
        if j < i {
            assert(self.names@[j]@ != self.names@[i]@);
        } else if i < j {
            assert(self.names@[i]@ != self.names@[j]@);
        }
    }

    pub fn new() -> (r: Self)
        ensures
            r.wf(),
            r@ == Map::<Seq<char>, M>::empty(),
    {
        let r = MaterialTable { names: Vec::new(), materials: Vec::new() };
        assert(r@ =~= Map::<Seq<char>, M>::empty());
        r
    }

    /// The slot that holds `name`, if any.
    fn position(&self, name: &String) -> (r: Option<usize>)
        ensures
            r matches Some(i) ==> i < self.names@.len() && self.names@[i as int]@ == name@,
            r is None ==> forall|i: int| 0 <= i < self.names@.len() ==> self.names@[i]@ != name@,
    {
        let mut i: usize = 0;
        while i < self.names.len()
            invariant
                i <= self.names@.len(),
                forall|j: int| 0 <= j < i ==> self.names@[j]@ != name@,
            decreases self.names@.len() - i,
        {
            if self.names[i] == *name {
                return Some(i);
            }
            i = i + 1;
        }
        None
    }

    /// Puts `material` under `name`, replacing what was there.
    pub fn insert(&mut self, name: String, material: M)
        requires
            old(self).wf(),
        ensures
            final(self).wf(),
            final(self)@ == old(self)@.insert(name@, material),
    {
        let ghost before = self@;
        match self.position(&name) {
            Some(i) => {
                self.materials.set(i, material);
                proof {
                    assert forall|j: int| 0 <= j < self.names@.len() && self.names@[j]@ == name@ implies j == i by {
                        if j != i {
                            if j < i {
                                assert(self.names@[j]@ != self.names@[i as int]@);
                            } else {
                                assert(self.names@[i as int]@ != self.names@[j]@);
                            }
                        }
                    }
                }
                assert(self@ =~= before.insert(name@, material));
            },
            None => {
                let ghost k = name@;
                let ghost old_table = *self;
                self.names.push(name);
                self.materials.push(material);
                proof {
                    let n = old_table.names@.len();
                    assert(self.names@[n as int]@ == k);
                    assert forall|i: int, j: int|
                        0 <= i < j < self.names@.len() implies #[trigger] self.names@[i]@
                        != #[trigger] self.names@[j]@ by {
                        if j < n {
                            assert(old_table.names@[i]@ != old_table.names@[j]@);
                        }
                    }
                    assert forall|key: Seq<char>| #[trigger]
                        self@.contains_key(key) == before.insert(k, material).contains_key(
                            key,
                        ) by {
                        if before.contains_key(key) {
                            let i = choose|i: int|
                                0 <= i < old_table.names@.len() && #[trigger] old_table.names@[i]@
                                    == key;
                            assert(self.names@[i]@ == key);
                        }
                        if key == k {
                            self.lemma_slot(n as int);
                        }
                    }
                    assert forall|key: Seq<char>| #[trigger]
                        self@.contains_key(key) implies self@[key] == before.insert(
                        k,
                        material,
                    )[key] by {
                        let i = choose|i: int|
                            0 <= i < self.names@.len() && #[trigger] self.names@[i]@ == key;
                        self.lemma_slot(i);
                        if i < n {
                            old_table.lemma_slot(i);
                            assert(old_table.names@[i] == self.names@[i]);
                        }
                    }
                }
                assert(self@ =~= before.insert(k, material));
            },
        }
    }

    /// The material under `name`.
    pub fn get(&self, name: &String) -> (r: Result<&M, UnknownMaterial>)
        requires
            self.wf(),
        ensures
            r is Ok <==> self@.contains_key(name@),
            r matches Ok(m) ==> *m == self@[name@],
            r matches Err(e) ==> e.name@ == name@,
    {
        match self.position(name) {
            Some(i) => {
                Ok(&self.materials[i])
            },
            None => Err(UnknownMaterial { name: name.clone() }),
        }
    }
}

} // verus!
