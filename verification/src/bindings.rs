use crate::error::LucetcError;
use vstd::prelude::*;

verus! {

/// One entry of the registry: an import `(namespace, field)` bound to a host
/// symbol name.
pub struct BindingEntry {
    pub namespace: String,
    pub field: String,
    pub symbol: String,
}

impl BindingEntry {
    /// The import name this entry binds.
    pub open spec fn key(self) -> (Seq<char>, Seq<char>) {
        (self.namespace@, self.field@)
    }
}

/// The mapping denoted by a sequence of entries; a later entry wins, so on a
/// duplicate-free sequence each entry's symbol is the bound one.
pub open spec fn map_of(entries: Seq<BindingEntry>) -> Map<(Seq<char>, Seq<char>), Seq<char>>
    decreases entries.len(),
{
    if entries.len() == 0 {
        Map::empty()
    } else {
        map_of(entries.drop_last()).insert(entries.last().key(), entries.last().symbol@)
    }
}

/// Two registries are compatible when they agree on every import both bind;
/// merging them can then fail nowhere.
pub open spec fn compatible(
    a: Map<(Seq<char>, Seq<char>), Seq<char>>,
    b: Map<(Seq<char>, Seq<char>), Seq<char>>,
) -> bool {
    forall|k: (Seq<char>, Seq<char>)|
        #[trigger] a.dom().contains(k) && #[trigger] b.dom().contains(k) ==> a[k] == b[k]
}

/// Consistency of a field-to-symbol pair list: no field is given two symbols.
pub open spec fn consistent_pairs(pairs: Seq<(Seq<char>, Seq<char>)>) -> bool {
    forall|i: int, j: int|
        0 <= i < pairs.len() && 0 <= j < pairs.len() && (#[trigger] pairs[i]).0 == (
        #[trigger] pairs[j]).0 ==> pairs[i].1 == pairs[j].1
}

/// The mapping a field-to-symbol pair list denotes under the reserved `env`
/// namespace.
pub open spec fn env_map_of(pairs: Seq<(Seq<char>, Seq<char>)>) -> Map<
    (Seq<char>, Seq<char>),
    Seq<char>,
>
    decreases pairs.len(),
{
    if pairs.len() == 0 {
        Map::empty()
    } else {
        env_map_of(pairs.drop_last()).insert(("env"@, pairs.last().0), pairs.last().1)
    }
}

/// An accumulating mapping from import names `(namespace, field)` to host
/// symbol names, with a merge discipline that rejects conflicting
/// redefinitions.
pub struct Bindings {
    entries: Vec<BindingEntry>,
}

impl View for Bindings {
    type V = Map<(Seq<char>, Seq<char>), Seq<char>>;

    closed spec fn view(&self) -> Map<(Seq<char>, Seq<char>), Seq<char>> {
        map_of(self.entries@)
    }
}

proof fn lemma_map_of_contains(entries: Seq<BindingEntry>, k: (Seq<char>, Seq<char>))
    ensures
        map_of(entries).dom().contains(k) <==> exists|i: int|
            0 <= i < entries.len() && (#[trigger] entries[i]).key() == k,
    decreases entries.len(),
{
    if entries.len() > 0 {
        lemma_map_of_contains(entries.drop_last(), k);
        if entries.last().key() == k {
            assert(entries[entries.len() - 1].key() == k);
        } else if map_of(entries).dom().contains(k) {
            let i = choose|i: int|
                0 <= i < entries.drop_last().len() && (#[trigger] entries.drop_last()[i]).key()
                    == k;
            assert(entries[i].key() == k);
        } else {
            assert forall|i: int| 0 <= i < entries.len() implies (#[trigger] entries[i]).key()
                != k by {
                if i < entries.len() - 1 {
                    assert(entries.drop_last()[i] == entries[i]);
                }
            }
        }
    }
}

proof fn lemma_map_of_value(entries: Seq<BindingEntry>, i: int)
    requires
        0 <= i < entries.len(),
        forall|j: int| i < j < entries.len() ==> (#[trigger] entries[j]).key() != entries[i].key(),
    ensures
        map_of(entries).dom().contains(entries[i].key()),
        map_of(entries)[entries[i].key()] == entries[i].symbol@,
    decreases entries.len(),
{
    if i < entries.len() - 1 {
        assert forall|j: int|
            i < j < entries.drop_last().len() implies (#[trigger] entries.drop_last()[j]).key()
            != entries.drop_last()[i].key() by {
            assert(entries.drop_last()[j] == entries[j]);
        }
        lemma_map_of_value(entries.drop_last(), i);
        assert(entries.drop_last()[i] == entries[i]);
    }
}

proof fn lemma_env_map_of_contains(pairs: Seq<(Seq<char>, Seq<char>)>, k: (Seq<char>, Seq<char>))
    ensures
        env_map_of(pairs).dom().contains(k) <==> (k.0 == "env"@ && exists|i: int|
            0 <= i < pairs.len() && (#[trigger] pairs[i]).0 == k.1),
    decreases pairs.len(),
{
    if pairs.len() > 0 {
        lemma_env_map_of_contains(pairs.drop_last(), k);
        if ("env"@, pairs.last().0) == k {
            assert(pairs[pairs.len() - 1].0 == k.1);
        } else if env_map_of(pairs).dom().contains(k) {
            let i = choose|i: int|
                0 <= i < pairs.drop_last().len() && (#[trigger] pairs.drop_last()[i]).0 == k.1;
            assert(pairs[i].0 == k.1);
        } else {
            assert forall|i: int|
                0 <= i < pairs.len() implies !(k.0 == "env"@ && (#[trigger] pairs[i]).0
                == k.1) by {
                if i < pairs.len() - 1 {
                    assert(pairs.drop_last()[i] == pairs[i]);
                }
            }
        }
    }
}

proof fn lemma_env_map_of_value(pairs: Seq<(Seq<char>, Seq<char>)>, i: int)
    requires
        0 <= i < pairs.len(),
        forall|j: int| i < j < pairs.len() ==> (#[trigger] pairs[j]).0 != pairs[i].0,
    ensures
        env_map_of(pairs).dom().contains(("env"@, pairs[i].0)),
        env_map_of(pairs)[("env"@, pairs[i].0)] == pairs[i].1,
    decreases pairs.len(),
{
    if i < pairs.len() - 1 {
        assert forall|j: int|
            i < j < pairs.drop_last().len() implies (#[trigger] pairs.drop_last()[j]).0
            != pairs.drop_last()[i].0 by {
            assert(pairs.drop_last()[j] == pairs[j]);
        }
        lemma_env_map_of_value(pairs.drop_last(), i);
        assert(pairs.drop_last()[i] == pairs[i]);
    }
}

/// Merging the same conflict-free registry twice yields the same registry as
/// merging it once: the second merge can conflict nowhere, and it changes
/// nothing.
pub proof fn lemma_extend_idempotent(
    a: Map<(Seq<char>, Seq<char>), Seq<char>>,
    b: Map<(Seq<char>, Seq<char>), Seq<char>>,
)
    requires
        compatible(a, b),
    ensures
        compatible(a.union_prefer_right(b), b),
        a.union_prefer_right(b).union_prefer_right(b) == a.union_prefer_right(b),
{
    assert(a.union_prefer_right(b).union_prefer_right(b) =~= a.union_prefer_right(b));
}

impl Bindings {
    /// No import name is bound twice in the backing store; `lookup` is then a
    /// function of the denoted mapping.
    pub closed spec fn wf(self) -> bool {
        forall|i: int, j: int|
            0 <= i < j < self.entries@.len() ==> (#[trigger] self.entries@[i]).key() != (
            #[trigger] self.entries@[j]).key()
    }

    /// A fresh registry binding nothing.
    pub fn empty() -> (r: Bindings)
        ensures
            r.wf(),
            r@ == Map::<(Seq<char>, Seq<char>), Seq<char>>::empty(),
    {
        Bindings { entries: Vec::new() }
    }

    /// An exact copy of this registry.
    pub fn duplicate(&self) -> (r: Bindings)
        ensures
            r@ == self@,
            self.wf() ==> r.wf(),
    {
        let n: usize = self.entries.len();
        let mut out: Vec<BindingEntry> = Vec::new();
        let mut i: usize = 0;
        while i < n
            invariant
                i <= n,
                n == self.entries.len(),
                out@ == self.entries@.subrange(0, i as int),
            decreases n - i,
        {
            let e = &self.entries[i];
            out.push(
                BindingEntry {
                    namespace: e.namespace.clone(),
                    field: e.field.clone(),
                    symbol: e.symbol.clone(),
                },
            );
            proof {
                assert(out@ =~= self.entries@.subrange(0, i + 1 as int));
            }
            i += 1;
        }
        proof {
            assert(self.entries@.subrange(0, n as int) =~= self.entries@);
        }
        Bindings { entries: out }
    }

    /// Constructs a registry whose only namespace is the reserved `env`
    /// namespace, populated from the given field-to-symbol pairs.
    ///
    /// Returns `Ok` exactly when no field is paired with two different
    /// symbols; an identical re-declaration of a field is idempotent.
    pub fn env(map: Vec<(String, String)>) -> (r: Result<Bindings, LucetcError>)
        ensures
            match r {
                Ok(b) => {
                    &&& b.wf()
                    &&& consistent_pairs(map.deep_view())
                    &&& b@ == env_map_of(map.deep_view())
                    &&& forall|k: (Seq<char>, Seq<char>)| #[trigger]
                        b@.dom().contains(k) ==> k.0 == "env"@
                },
                Err(e) => {
                    &&& !consistent_pairs(map.deep_view())
                    &&& (match e {
                        LucetcError::BindingsConflict { namespace, field, existing, incoming } => {
                            &&& namespace@ == "env"@
                            &&& existing@ != incoming@
                            &&& (exists|p: int|
                                0 <= p < map.deep_view().len() && #[trigger] map.deep_view()[p]
                                    == (field@, existing@))
                            &&& (exists|q: int|
                                0 <= q < map.deep_view().len() && #[trigger] map.deep_view()[q]
                                    == (field@, incoming@))
                        },
                        _ => false,
                    })
                },
            },
    {
        let env_ns: String = String::from_str("env");
        let mut b = Bindings::empty();
        let n: usize = map.len();
        let ghost dv = map.deep_view();
        let mut i: usize = 0;
        while i < n
            invariant
                i <= n,
                n == map@.len(),
                dv == map.deep_view(),
                dv.len() == n,
                env_ns@ == "env"@,
                b.wf(),
                b@ == env_map_of(dv.subrange(0, i as int)),
                forall|j: int|
                    0 <= j < i ==> b@.dom().contains(("env"@, (#[trigger] dv[j]).0)) && b@[
                        ("env"@, dv[j].0)
                    ] == dv[j].1,
                forall|k: (Seq<char>, Seq<char>)| #[trigger] b@.dom().contains(k) ==> k.0
                    == "env"@,
            decreases n - i,
        {
            let p = &map[i];
            proof {
                assert(dv[i as int] == (map@[i as int].0.deep_view(), map@[i as int].1.deep_view()));
                assert(dv[i as int] == (p.0@, p.1@));
                assert(dv.subrange(0, (i + 1) as int) =~= dv.subrange(0, i as int).push(
                    dv[i as int],
                ));
                assert(dv.subrange(0, (i + 1) as int).drop_last() =~= dv.subrange(0, i as int));
                assert(dv.subrange(0, (i + 1) as int).last() == dv[i as int]);
                assert(env_map_of(dv.subrange(0, (i + 1) as int)) == env_map_of(
                    dv.subrange(0, i as int),
                ).insert(("env"@, dv[i as int].0), dv[i as int].1));
            }
            let mut do_push: bool = false;
            match b.lookup(&env_ns, &p.0) {
                Some(sym) => {
                    if !sym.eq(&p.1) {
                        let existing = sym.clone();
                        proof {
                            let ghost sub = dv.subrange(0, i as int);
                            lemma_env_map_of_contains(sub, ("env"@, dv[i as int].0));
                            let j = choose|j: int|
                                0 <= j < sub.len() && (#[trigger] sub[j]).0 == dv[i as int].0;
                            assert(dv[j] == sub[j]);
                            assert(b@[("env"@, dv[j].0)] == dv[j].1);
                            assert(dv[j] == (p.0@, existing@));
                            assert(dv[i as int] == (p.0@, p.1@));
                            assert(!consistent_pairs(dv));
                        }
                        return Err(LucetcError::BindingsConflict {
                            namespace: env_ns,
                            field: p.0.clone(),
                            existing,
                            incoming: p.1.clone(),
                        });
                    }
                },
                None => {
                    do_push = true;
                },
            }
            if do_push {
                b.push_absent(env_ns.clone(), p.0.clone(), p.1.clone());
            } else {
                proof {
                    assert(b@ =~= env_map_of(dv.subrange(0, (i + 1) as int)));
                }
            }
            i += 1;
        }
        proof {
            assert(dv.subrange(0, n as int) =~= dv);
            assert forall|p: int, q: int|
                0 <= p < dv.len() && 0 <= q < dv.len() && (#[trigger] dv[p]).0 == (
            #[trigger] dv[q]).0 implies dv[p].1 == dv[q].1 by {
                assert(b@[("env"@, dv[p].0)] == dv[p].1);
                assert(b@[("env"@, dv[q].0)] == dv[q].1);
            }
        }
        Ok(b)
    }

    /// Appends a binding for an import name that is not yet bound.
    fn push_absent(&mut self, namespace: String, field: String, symbol: String)
        requires
            old(self).wf(),
            !old(self)@.dom().contains((namespace@, field@)),
        ensures
            final(self).wf(),
            final(self)@ == old(self)@.insert((namespace@, field@), symbol@),
    {
        proof {
            lemma_map_of_contains(self.entries@, (namespace@, field@));
        }
        let ghost pre = self.entries@;
        self.entries.push(BindingEntry { namespace, field, symbol });
        proof {
            assert(self.entries@.drop_last() =~= pre);
            assert forall|i: int, j: int| 0 <= i < j < self.entries@.len() implies (
            #[trigger] self.entries@[i]).key() != (#[trigger] self.entries@[j]).key() by {
                if j < self.entries@.len() - 1 {
                    assert(self.entries@[i] == pre[i] && self.entries@[j] == pre[j]);
                } else {
                    assert(self.entries@[i] == pre[i]);
                }
            }
        }
    }

    /// Merges `other` into this registry.
    ///
    /// For each binding of `other`: an absent import name is inserted, an
    /// identical re-declaration is a no-op, and a name already bound to a
    /// different symbol fails the whole merge with `BindingsConflict` naming
    /// the import and both symbols. The merge is atomic in observable state:
    /// on failure the registry is exactly its pre-call value.
    pub fn extend(&mut self, other: Bindings) -> (r: Result<(), LucetcError>)
        requires
            old(self).wf(),
            other.wf(),
        ensures
            final(self).wf(),
            match r {
                Ok(()) => {
                    &&& compatible(old(self)@, other@)
                    &&& final(self)@ == old(self)@.union_prefer_right(other@)
                },
                Err(e) => {
                    &&& *final(self) == *old(self)
                    &&& !compatible(old(self)@, other@)
                    &&& (match e {
                        LucetcError::BindingsConflict { namespace, field, existing, incoming } => {
                            &&& old(self)@.dom().contains((namespace@, field@))
                            &&& other@.dom().contains((namespace@, field@))
                            &&& existing@ == old(self)@[(namespace@, field@)]
                            &&& incoming@ == other@[(namespace@, field@)]
                            &&& existing@ != incoming@
                        },
                        _ => false,
                    })
                },
            },
    {
        let n: usize = other.entries.len();
        let mut i: usize = 0;
        while i < n
            invariant
                i <= n,
                n == other.entries.len(),
                *self == *old(self),
                self.wf(),
                other.wf(),
                forall|j: int|
                    0 <= j < i ==> (self@.dom().contains((#[trigger] other.entries@[j]).key())
                        ==> self@[other.entries@[j].key()] == other.entries@[j].symbol@),
            decreases n - i,
        {
            let oe = &other.entries[i];
            let conflict: Option<String> = match self.lookup(&oe.namespace, &oe.field) {
                Some(sym) => if sym.eq(&oe.symbol) {
                    None
                } else {
                    Some(sym.clone())
                },
                None => None,
            };
            if let Some(existing) = conflict {
                proof {
                    assert forall|j: int|
                        i < j < other.entries@.len() implies (#[trigger] other.entries@[j]).key()
                        != other.entries@[i as int].key() by {}
                    lemma_map_of_value(other.entries@, i as int);
                    assert(self@[oe.key()] != other@[oe.key()]);
                    assert(!compatible(self@, other@));
                }
                return Err(LucetcError::BindingsConflict {
                    namespace: oe.namespace.clone(),
                    field: oe.field.clone(),
                    existing,
                    incoming: oe.symbol.clone(),
                });
            }
            i += 1;
        }
        proof {
            assert forall|k: (Seq<char>, Seq<char>)|
                #[trigger] self@.dom().contains(k) && #[trigger] other@.dom().contains(
                    k,
                ) implies self@[k] == other@[k] by {
                lemma_map_of_contains(other.entries@, k);
                let j = choose|j: int|
                    0 <= j < other.entries@.len() && (#[trigger] other.entries@[j]).key() == k;
                assert forall|l: int|
                    j < l < other.entries@.len() implies (#[trigger] other.entries@[l]).key()
                    != other.entries@[j].key() by {}
                lemma_map_of_value(other.entries@, j);
            }
            assert(compatible(self@, other@));
        }
        let ghost m0 = self@;
        let mut i: usize = 0;
        while i < n
            invariant
                i <= n,
                n == other.entries.len(),
                self.wf(),
                other.wf(),
                m0 == old(self)@,
                compatible(m0, other@),
                self@ == m0.union_prefer_right(map_of(other.entries@.subrange(0, i as int))),
                forall|j: int|
                    0 <= j < n ==> (m0.dom().contains((#[trigger] other.entries@[j]).key())
                        ==> m0[other.entries@[j].key()] == other.entries@[j].symbol@),
            decreases n - i,
        {
            let oe = &other.entries[i];
            let ghost dv = other.entries@;
            let ghost mi = map_of(dv.subrange(0, i as int));
            proof {
                assert(dv.subrange(0, (i + 1) as int) =~= dv.subrange(0, i as int).push(
                    dv[i as int],
                ));
                assert(dv.subrange(0, (i + 1) as int).drop_last() =~= dv.subrange(0, i as int));
                assert(dv.subrange(0, (i + 1) as int).last() == dv[i as int]);
                assert(map_of(dv.subrange(0, (i + 1) as int)) == mi.insert(
                    dv[i as int].key(),
                    dv[i as int].symbol@,
                ));
                lemma_map_of_contains(dv.subrange(0, i as int), dv[i as int].key());
                assert forall|j: int|
                    0 <= j < i implies (#[trigger] dv.subrange(0, i as int)[j]).key() != dv[
                    i as int].key() by {
                    assert(dv.subrange(0, i as int)[j] == dv[j]);
                }
                assert(!mi.dom().contains(dv[i as int].key()));
            }
            let present: bool = match self.lookup(&oe.namespace, &oe.field) {
                Some(_) => true,
                None => false,
            };
            if !present {
                self.push_absent(oe.namespace.clone(), oe.field.clone(), oe.symbol.clone());
                proof {
                    assert(self@ =~= m0.union_prefer_right(
                        map_of(dv.subrange(0, (i + 1) as int)),
                    ));
                }
            } else {
                proof {
                    assert(m0.dom().contains(dv[i as int].key()));
                    assert(m0[dv[i as int].key()] == dv[i as int].symbol@);
                    assert(self@ =~= m0.union_prefer_right(
                        map_of(dv.subrange(0, (i + 1) as int)),
                    ));
                }
            }
            i += 1;
        }
        proof {
            assert(other.entries@.subrange(0, n as int) =~= other.entries@);
            assert(self@ =~= m0.union_prefer_right(other@));
        }
        Ok(())
    }

    /// Resolves an import name to the symbol this registry binds it to, or
    /// `None` when the name is not bound.
    pub fn lookup(&self, namespace: &String, field: &String) -> (r: Option<&String>)
        requires
            self.wf(),
        ensures
            match r {
                Some(sym) => self@.dom().contains((namespace@, field@)) && sym@ == self@[
                    (namespace@, field@)
                ],
                None => !self@.dom().contains((namespace@, field@)),
            },
    {
        let n: usize = self.entries.len();
        let mut i: usize = 0;
        while i < n
            invariant
                i <= n,
                n == self.entries.len(),
                self.wf(),
                forall|j: int|
                    0 <= j < i ==> (#[trigger] self.entries@[j]).key() != (namespace@, field@),
            decreases n - i,
        {
            let e = &self.entries[i];
            if e.namespace.eq(namespace) && e.field.eq(field) {
                proof {
                    lemma_map_of_value(self.entries@, i as int);
                }
                return Some(&e.symbol);
            }
            i += 1;
        }
        proof {
            lemma_map_of_contains(self.entries@, (namespace@, field@));
        }
        None
    }
}

} // verus!
