use vstd::prelude::*;

verus! {

/// One host-implemented primitive of a builtins artifact: the well-known
/// import field `name`, the host symbol that implements it, and its declared
/// signature identifier.
pub struct BuiltinEntry {
    pub name: String,
    pub symbol: String,
    pub sig: u32,
}

/// The mapping denoted by a sequence of builtin entries; a later entry wins,
/// so on a duplicate-free sequence each entry is the defining one.
pub open spec fn builtins_map_of(entries: Seq<BuiltinEntry>) -> Map<Seq<char>, (Seq<char>, u32)>
    decreases entries.len(),
{
    if entries.len() == 0 {
        Map::empty()
    } else {
        builtins_map_of(entries.drop_last()).insert(
            entries.last().name@,
            (entries.last().symbol@, entries.last().sig),
        )
    }
}

/// The primitives a builtins artifact defines, read as a mapping from import
/// field name to `(host symbol, signature)`.
pub struct Builtins {
    entries: Vec<BuiltinEntry>,
}

impl View for Builtins {
    type V = Map<Seq<char>, (Seq<char>, u32)>;

    closed spec fn view(&self) -> Map<Seq<char>, (Seq<char>, u32)> {
        builtins_map_of(self.entries@)
    }
}

proof fn lemma_builtins_map_of_contains(entries: Seq<BuiltinEntry>, k: Seq<char>)
    ensures
        builtins_map_of(entries).dom().contains(k) <==> exists|i: int|
            0 <= i < entries.len() && (#[trigger] entries[i]).name@ == k,
    decreases entries.len(),
{
    if entries.len() > 0 {
        lemma_builtins_map_of_contains(entries.drop_last(), k);
        if entries.last().name@ == k {
            assert(entries[entries.len() - 1].name@ == k);
        } else if builtins_map_of(entries).dom().contains(k) {
            let i = choose|i: int|
                0 <= i < entries.drop_last().len() && (#[trigger] entries.drop_last()[i]).name@
                    == k;
            assert(entries[i].name@ == k);
        } else {
            assert forall|i: int| 0 <= i < entries.len() implies (#[trigger] entries[i]).name@
                != k by {
                if i < entries.len() - 1 {
                    assert(entries.drop_last()[i] == entries[i]);
                }
            }
        }
    }
}

proof fn lemma_builtins_map_of_value(entries: Seq<BuiltinEntry>, i: int)
    requires
        0 <= i < entries.len(),
        forall|j: int| i < j < entries.len() ==> (#[trigger] entries[j]).name@ != entries[i].name@,
    ensures
        builtins_map_of(entries).dom().contains(entries[i].name@),
        builtins_map_of(entries)[entries[i].name@] == (entries[i].symbol@, entries[i].sig),
    decreases entries.len(),
{
    if i < entries.len() - 1 {
        assert forall|j: int|
            i < j < entries.drop_last().len() implies (#[trigger] entries.drop_last()[j]).name@
            != entries.drop_last()[i].name@ by {
            assert(entries.drop_last()[j] == entries[j]);
        }
        lemma_builtins_map_of_value(entries.drop_last(), i);
        assert(entries.drop_last()[i] == entries[i]);
    }
}

impl Builtins {
    /// No primitive name is defined twice in the backing store.
    pub closed spec fn wf(self) -> bool {
        forall|i: int, j: int|
            0 <= i < j < self.entries@.len() ==> (#[trigger] self.entries@[i]).name@ != (
            #[trigger] self.entries@[j]).name@
    }

    /// An artifact defining no primitives.
    pub fn empty() -> (r: Builtins)
        ensures
            r.wf(),
            r@ == Map::<Seq<char>, (Seq<char>, u32)>::empty(),
    {
        Builtins { entries: Vec::new() }
    }

    /// Adds a primitive definition.
    ///
    /// Returns `true` and installs the definition when the name is new or the
    /// definition repeats an identical one; returns `false` and changes
    /// nothing when the name is already defined differently.
    pub fn define(&mut self, name: String, symbol: String, sig: u32) -> (r: bool)
        requires
            old(self).wf(),
        ensures
            final(self).wf(),
            r == (!old(self)@.dom().contains(name@) || old(self)@[name@] == (symbol@, sig)),
            r ==> final(self)@ == old(self)@.insert(name@, (symbol@, sig)),
            !r ==> *final(self) == *old(self),
    {
        let found: bool = match self.lookup(&name) {
            Some(e) => {
                if e.symbol.eq(&symbol) && e.sig == sig {
                    true
                } else {
                    return false;
                }
            },
            None => false,
        };
        if found {
            proof {
                assert(self@ =~= self@.insert(name@, (symbol@, sig)));
            }
            return true;
        }
        proof {
            lemma_builtins_map_of_contains(self.entries@, name@);
        }
        let ghost pre = self.entries@;
        self.entries.push(BuiltinEntry { name, symbol, sig });
        proof {
            assert(self.entries@.drop_last() =~= pre);
            assert forall|i: int, j: int| 0 <= i < j < self.entries@.len() implies (
            #[trigger] self.entries@[i]).name@ != (#[trigger] self.entries@[j]).name@ by {
                if j < self.entries@.len() - 1 {
                    assert(self.entries@[i] == pre[i] && self.entries@[j] == pre[j]);
                } else {
                    assert(self.entries@[i] == pre[i]);
                }
            }
        }
        true
    }

    /// Resolves a primitive name to its defining entry, or `None` when the
    /// artifact does not define it.
    pub fn lookup(&self, name: &String) -> (r: Option<&BuiltinEntry>)
        requires
            self.wf(),
        ensures
            match r {
                Some(e) => self@.dom().contains(name@) && e.name@ == name@ && self@[name@] == (
                    e.symbol@,
                    e.sig,
                ),
                None => !self@.dom().contains(name@),
            },
    {
        let n: usize = self.entries.len();
        let mut i: usize = 0;
        while i < n
            invariant
                i <= n,
                n == self.entries.len(),
                self.wf(),
                forall|j: int| 0 <= j < i ==> (#[trigger] self.entries@[j]).name@ != name@,
            decreases n - i,
        {
            let e = &self.entries[i];
            if e.name.eq(name) {
                proof {
                    lemma_builtins_map_of_value(self.entries@, i as int);
                }
                return Some(e);
            }
            i += 1;
        }
        proof {
            lemma_builtins_map_of_contains(self.entries@, name@);
        }
        None
    }
}

} // verus!
