use vstd::prelude::*;
use crate::text::{text_le, text_le_exec, lemma_text_le_total, lemma_text_le_transitive, lemma_text_le_antisymmetric};
use crate::translator::Translator;

verus! {

/// The character sequences held by a list of strings.
pub open spec fn names_of(v: Seq<String>) -> Seq<Seq<char>> {
    v.map_values(|s: String| s@)
}

pub open spec fn names_unique(ts: Seq<Translator>) -> bool {
    forall|i: int, j: int|
        0 <= i < ts.len() && 0 <= j < ts.len() && i != j ==> ts[i].table_name@
            != ts[j].table_name@
}

pub open spec fn is_registered(ts: Seq<Translator>, name: Seq<char>) -> bool {
    exists|i: int| 0 <= i < ts.len() && ts[i].table_name@ == name
}

/// Table `a` declares table `b` among its pull dependencies.
pub open spec fn depends_on(ts: Seq<Translator>, a: Seq<char>, b: Seq<char>) -> bool {
    exists|i: int, j: int|
        0 <= i < ts.len() && ts[i].table_name@ == a && 0 <= j < ts[i].dependencies@.len()
            && #[trigger] ts[i].dependencies@[j]@ == b
}

/// The registered tables among the names of a batch.
pub open spec fn present_tables(ts: Seq<Translator>, input: Seq<String>) -> Set<Seq<char>> {
    Set::new(|n: Seq<char>| names_of(input).contains(n) && is_registered(ts, n))
}

pub open spec fn has_missing_dependency(ts: Seq<Translator>, present: Set<Seq<char>>) -> bool {
    exists|a: Seq<char>, b: Seq<char>|
        present.contains(a) && #[trigger] depends_on(ts, a, b) && !is_registered(ts, b)
}

/// A non-empty group of present tables each of which depends on another of the group.
pub open spec fn is_cyclic_group(
    ts: Seq<Translator>,
    present: Set<Seq<char>>,
    group: Set<Seq<char>>,
) -> bool {
    &&& group.subset_of(present)
    &&& exists|x: Seq<char>| group.contains(x)
    &&& forall|x: Seq<char>|
        #[trigger] group.contains(x) ==> exists|b: Seq<char>|
            depends_on(ts, x, b) && #[trigger] group.contains(b)
}

pub open spec fn has_cycle(ts: Seq<Translator>, present: Set<Seq<char>>) -> bool {
    exists|group: Set<Seq<char>>| is_cyclic_group(ts, present, group)
}

/// `x` can come next after `placed`: it is present, not yet placed, and all of its
/// present dependencies are placed.
pub open spec fn ready(
    ts: Seq<Translator>,
    present: Set<Seq<char>>,
    placed: Seq<Seq<char>>,
    x: Seq<char>,
) -> bool {
    &&& present.contains(x)
    &&& !placed.contains(x)
    &&& forall|b: Seq<char>|
        #[trigger] depends_on(ts, x, b) && present.contains(b) ==> placed.contains(b)
}

/// Each element of the prefix was ready when placed, and was the least ready table by name.
pub open spec fn is_least_ready_prefix(
    ts: Seq<Translator>,
    present: Set<Seq<char>>,
    order: Seq<Seq<char>>,
) -> bool {
    forall|i: int|
        0 <= i < order.len() ==> {
            &&& ready(ts, present, order.take(i), #[trigger] order[i])
            &&& forall|x: Seq<char>|
                ready(ts, present, order.take(i), x) ==> text_le(order[i], x)
        }
}

/// The integration order of the present tables: every present table once, each placed
/// after its present dependencies, ties broken by the smallest name.
pub open spec fn is_resolved_order(
    ts: Seq<Translator>,
    present: Set<Seq<char>>,
    order: Seq<Seq<char>>,
) -> bool {
    &&& is_least_ready_prefix(ts, present, order)
    &&& forall|x: Seq<char>| present.contains(x) ==> order.contains(x)
}

/// One of the first `i` strings holds the characters `n`.
pub open spec fn listed_before(v: Seq<String>, i: int, n: Seq<char>) -> bool {
    exists|k: int| 0 <= k < i && #[trigger] v[k]@ == n
}

/// A table name that is registered twice.
#[derive(Debug)]
pub struct DuplicateTableError {
    pub table_name: String,
}

/// Why a batch's tables cannot be put in integration order.
#[derive(Debug)]
pub enum DependencyGraphError {
    /// A present table depends on a table that no translator owns.
    MissingDependency { table_name: String, dependency: String },
    /// The present tables depend on each other in a circle.
    Cycle,
}

/// The catalogue of translators, one per legacy table name.
pub struct TranslatorRegistry {
    translators: Vec<Translator>,
}

impl TranslatorRegistry {
    pub closed spec fn spec_translators(&self) -> Seq<Translator> {
        self.translators@
    }

    pub closed spec fn wf(&self) -> bool {
        names_unique(self.translators@)
    }

    pub fn new() -> (r: Self)
        ensures
            r.wf(),
            r.spec_translators().len() == 0,
    {
        TranslatorRegistry { translators: Vec::new() }
    }

    /// The registry of every table this engine synchronises.
    pub fn all_translators() -> (r: Self)
        ensures
            r.wf(),
            r.spec_translators().len() == 3,
            r.spec_translators()[0].table_name@ == "name"@,
            r.spec_translators()[1].table_name@ == "master_list"@,
            r.spec_translators()[2].table_name@ == "master_list_name_join"@,
            r.spec_translators()[0].dependencies@.len() == 0,
            r.spec_translators()[1].dependencies@.len() == 0,
            names_of(r.spec_translators()[2].dependencies@) == seq!["name"@, "master_list"@],
            r.spec_translators()[0].mapping == crate::translator::TableMapping::Name,
            r.spec_translators()[1].mapping == crate::translator::TableMapping::MasterList,
            r.spec_translators()[2].mapping == crate::translator::TableMapping::MasterListNameJoin,
    {
        proof {
            reveal_strlit("name");
            reveal_strlit("master_list");
            reveal_strlit("master_list_name_join");
        }
        let mut r = TranslatorRegistry::new();
        let name = Translator::name_translation();
        let list = Translator::master_list_translation();
        let join = Translator::master_list_name_join_translation();
        proof {
            assert(name.table_name@ == "name"@);
            assert(list.table_name@ == "master_list"@);
            assert(name.table_name@.len() == 4);
            assert(list.table_name@.len() == 11);
            assert(join.table_name@.len() == 21);
            assert(name.table_name@ != list.table_name@);
            assert(name.table_name@ != join.table_name@);
            assert(list.table_name@ != join.table_name@);
        }
        let _ = r.register(name);
        let _ = r.register(list);
        let _ = r.register(join);
        proof {
            assert(names_of(r.spec_translators()[2].dependencies@) =~= seq!["name"@, "master_list"@]);
        }
        r
    }

    pub fn translators(&self) -> (r: &Vec<Translator>)
        ensures
            r@ == self.spec_translators(),
    {
        &self.translators
    }

    /// Adds a translator unless its table already has one.
    pub fn register(&mut self, translator: Translator) -> (r: Result<(), DuplicateTableError>)
        requires
            old(self).wf(),
        ensures
            final(self).wf(),
            r is Ok <==> !is_registered(old(self).spec_translators(), translator.table_name@),
            r is Ok ==> final(self).spec_translators() == old(
                self,
            ).spec_translators().push(translator),
            r matches Err(e) ==> e.table_name@ == translator.table_name@
                && final(self).spec_translators() == old(self).spec_translators(),
    {
        match self.find(&translator.table_name) {
            Some(_) => Err(DuplicateTableError { table_name: translator.table_name }),
            None => {
                self.translators.push(translator);
                Ok(())
            },
        }
    }

    /// The position of the translator that owns a table.
    pub fn find(&self, table_name: &String) -> (r: Option<usize>)
        ensures
            match r {
                Some(i) => i < self.spec_translators().len()
                    && self.spec_translators()[i as int].table_name@ == table_name@ && (self.wf()
                    ==> forall|j: int|
                    0 <= j < self.spec_translators().len()
                        && #[trigger] self.spec_translators()[j].table_name@ == table_name@ ==> j
                        == i),
                None => !is_registered(self.spec_translators(), table_name@),
            },
    {
        let mut i: usize = 0;
        while i < self.translators.len()
            invariant
                i <= self.translators@.len(),
                forall|k: int| 0 <= k < i ==> self.translators@[k].table_name@ != table_name@,
            decreases self.translators@.len() - i,
        {
            if self.translators[i].table_name == *table_name {
                return Some(i);
            }
            i = i + 1;
        }
        None
    }
}


impl TranslatorRegistry {
    /// The registered tables named in a batch, each once.
    fn collect_present(&self, table_names: &Vec<String>) -> (r: Vec<String>)
        ensures
            names_of(r@).no_duplicates(),
            forall|n: Seq<char>|
                names_of(r@).contains(n) <==> present_tables(
                    self.spec_translators(),
                    table_names@,
                ).contains(n),
    {
        let ghost ts = self.spec_translators();
        let mut r: Vec<String> = Vec::new();
        let mut i: usize = 0;
        while i < table_names.len()
            invariant
                ts == self.spec_translators(),
                i <= table_names@.len(),
                names_of(r@).no_duplicates(),
                forall|n: Seq<char>| #[trigger]
                    names_of(r@).contains(n) <==> (listed_before(table_names@, i as int, n)
                        && is_registered(ts, n)),
            decreases table_names@.len() - i,
        {
            let name = &table_names[i];
            let ghost before = names_of(r@);
            let found = self.find(name);
            let fresh = found.is_some() && !contains_name(&r, name);
            if fresh {
                r.push(name.clone());
                proof {
                    assert(names_of(r@) =~= before.push(name@));
                }
            }
            proof {
                if let Some(t) = found {
                    assert(ts[t as int].table_name@ == name@);
                    assert(is_registered(ts, name@));
                }
                assert(table_names@[i as int]@ == name@);
                assert forall|n: Seq<char>| #[trigger]
                    names_of(r@).contains(n) <==> (listed_before(table_names@, i + 1, n)
                        && is_registered(ts, n)) by {
                    if n == name@ {
                        assert(listed_before(table_names@, i + 1, n));
                        if fresh {
                            assert(names_of(r@)[before.len() as int] == n);
                        } else if found.is_some() {
                            assert(before.contains(n));
                        } else {
                            if before.contains(n) {
                                assert(is_registered(ts, n));
                            }
                        }
                    } else {
                        if names_of(r@).contains(n) {
                            if fresh {
                                let k = choose|k: int|
                                    0 <= k < names_of(r@).len() && names_of(r@)[k] == n;
                                assert(k < before.len());
                                assert(before[k] == n);
                            }
                            assert(before.contains(n));
                        }
                        if before.contains(n) && fresh {
                            let k = choose|k: int| 0 <= k < before.len() && before[k] == n;
                            assert(names_of(r@)[k] == n);
                        }
                        if listed_before(table_names@, i + 1, n) {
                            let k = choose|k: int|
                                0 <= k < i + 1 && #[trigger] table_names@[k]@ == n;
                            assert(k < i);
                            assert(listed_before(table_names@, i as int, n));
                        }
                        if listed_before(table_names@, i as int, n) {
                            let k = choose|k: int| 0 <= k < i && #[trigger] table_names@[k]@ == n;
                            assert(listed_before(table_names@, i + 1, n));
                        }
                    }
                }
            }
            i = i + 1;
        }
        proof {
            assert forall|n: Seq<char>|
                names_of(r@).contains(n) <==> present_tables(ts, table_names@).contains(n) by {
                if listed_before(table_names@, i as int, n) {
                    let k = choose|k: int| 0 <= k < i && #[trigger] table_names@[k]@ == n;
                    assert(names_of(table_names@)[k] == n);
                }
                if names_of(table_names@).contains(n) {
                    let k = choose|k: int|
                        0 <= k < names_of(table_names@).len() && names_of(table_names@)[k] == n;
                    assert(table_names@[k]@ == n);
                    assert(listed_before(table_names@, i as int, n));
                }
            }
        }
        r
    }

    /// A present table together with a dependency that no translator owns, if any.
    fn find_missing_dependency(&self, present: &Vec<String>) -> (r: Option<(String, String)>)
        requires
            self.wf(),
        ensures
            match r {
                Some((a, b)) => names_of(present@).contains(a@) && depends_on(
                    self.spec_translators(),
                    a@,
                    b@,
                ) && !is_registered(self.spec_translators(), b@),
                None => forall|a: Seq<char>, b: Seq<char>|
                    names_of(present@).contains(a) && #[trigger] depends_on(
                        self.spec_translators(),
                        a,
                        b,
                    ) ==> is_registered(self.spec_translators(), b),
            },
    {
        let ghost ts = self.spec_translators();
        let mut i: usize = 0;
        while i < present.len()
            invariant
                ts == self.spec_translators(),
                names_unique(ts),
                i <= present@.len(),
                forall|k: int, b: Seq<char>|
                    0 <= k < i && #[trigger] depends_on(ts, present@[k]@, b) ==> is_registered(
                        ts,
                        b,
                    ),
            decreases present@.len() - i,
        {
            let name = &present[i];
            match self.find(name) {
                None => {},
                Some(idx) => {
                    let deps = &self.translators[idx].dependencies;
                    let mut j: usize = 0;
                    while j < deps.len()
                        invariant
                            ts == self.spec_translators(),
                            i < present@.len(),
                            name@ == present@[i as int]@,
                            idx < ts.len(),
                            ts[idx as int].table_name@ == name@,
                            deps@ == ts[idx as int].dependencies@,
                            j <= deps@.len(),
                            forall|m: int| 0 <= m < j ==> is_registered(ts, #[trigger] deps@[m]@),
                        decreases deps@.len() - j,
                    {
                        if self.find(&deps[j]).is_none() {
                            proof {
                                assert(names_of(present@)[i as int] == name@);
                                assert(ts[idx as int].dependencies@[j as int]@ == deps@[j as int]@);
                            }
                            return Some((name.clone(), deps[j].clone()));
                        }
                        j = j + 1;
                    }
                    proof {
                        assert forall|b: Seq<char>| #[trigger]
                            depends_on(ts, present@[i as int]@, b) implies is_registered(
                            ts,
                            b,
                        ) by {
                            let (i2, j2) = choose|i2: int, j2: int|
                                0 <= i2 < ts.len() && ts[i2].table_name@ == present@[i as int]@
                                    && 0 <= j2 < ts[i2].dependencies@.len()
                                    && #[trigger] ts[i2].dependencies@[j2]@ == b;
                            assert(i2 == idx);
                            assert(deps@[j2]@ == b);
                        }
                    }
                },
            }
            i = i + 1;
        }
        proof {
            assert forall|a: Seq<char>, b: Seq<char>|
                names_of(present@).contains(a) && #[trigger] depends_on(ts, a, b) implies is_registered(
                ts,
                b,
            ) by {
                let k = choose|k: int| 0 <= k < names_of(present@).len() && names_of(present@)[k] == a;
                assert(present@[k]@ == a);
            }
        }
        None
    }

    /// Whether every present dependency of `x` is already placed.
    fn dependencies_placed(&self, present: &Vec<String>, placed: &Vec<String>, x: &String) -> (r:
        bool)
        requires
            self.wf(),
            is_registered(self.spec_translators(), x@),
        ensures
            r == forall|b: Seq<char>|
                #[trigger] depends_on(self.spec_translators(), x@, b) && names_of(
                    present@,
                ).contains(b) ==> names_of(placed@).contains(b),
    {
        let ghost ts = self.spec_translators();
        let idx = match self.find(x) {
            Some(idx) => idx,
            None => { return true; },
        };
        let deps = &self.translators[idx].dependencies;
        let mut j: usize = 0;
        while j < deps.len()
            invariant
                ts == self.spec_translators(),
                idx < ts.len(),
                ts[idx as int].table_name@ == x@,
                deps@ == ts[idx as int].dependencies@,
                j <= deps@.len(),
                forall|m: int|
                    0 <= m < j && names_of(present@).contains(#[trigger] deps@[m]@) ==> names_of(
                        placed@,
                    ).contains(deps@[m]@),
            decreases deps@.len() - j,
        {
            if contains_name(present, &deps[j]) && !contains_name(placed, &deps[j]) {
                proof {
                    assert(depends_on(ts, x@, deps@[j as int]@));
                }
                return false;
            }
            j = j + 1;
        }
        proof {
            assert forall|b: Seq<char>|
                #[trigger] depends_on(ts, x@, b) && names_of(present@).contains(
                    b,
                ) implies names_of(placed@).contains(b) by {
                let (i2, j2) = choose|i2: int, j2: int|
                    0 <= i2 < ts.len() && ts[i2].table_name@ == x@ && 0 <= j2
                        < ts[i2].dependencies@.len() && #[trigger] ts[i2].dependencies@[j2]@ == b;
                assert(i2 == idx);
                assert(deps@[j2]@ == b);
            }
        }
        true
    }

    /// The position of the least-named present table that can come next, if any.
    fn pick_next(&self, present: &Vec<String>, placed: &Vec<String>, pset: Ghost<Set<Seq<char>>>) -> (r:
        Option<usize>)
        requires
            self.wf(),
            forall|n: Seq<char>| names_of(present@).contains(n) <==> pset@.contains(n),
            forall|n: Seq<char>| pset@.contains(n) ==> is_registered(self.spec_translators(), n),
        ensures
            match r {
                Some(b) => b < present@.len() && ready(
                    self.spec_translators(),
                    pset@,
                    names_of(placed@),
                    present@[b as int]@,
                ) && forall|x: Seq<char>|
                    ready(self.spec_translators(), pset@, names_of(placed@), x) ==> text_le(
                        present@[b as int]@,
                        x,
                    ),
                None => forall|x: Seq<char>|
                    !ready(self.spec_translators(), pset@, names_of(placed@), x),
            },
    {
        let ghost ts = self.spec_translators();
        let ghost done = names_of(placed@);
        let ghost pset = pset@;
        let mut best: Option<usize> = None;
        let mut i: usize = 0;
        while i < present.len()
            invariant
                ts == self.spec_translators(),
                self.wf(),
                done == names_of(placed@),
                forall|n: Seq<char>| names_of(present@).contains(n) <==> pset.contains(n),
                forall|n: Seq<char>| pset.contains(n) ==> is_registered(ts, n),
                i <= present@.len(),
                match best {
                    Some(b) => b < present@.len() && ready(ts, pset, done, present@[b as int]@)
                        && forall|k: int|
                        0 <= k < i && ready(ts, pset, done, #[trigger] present@[k]@) ==> text_le(
                            present@[b as int]@,
                            present@[k]@,
                        ),
                    None => forall|k: int|
                        0 <= k < i ==> !ready(ts, pset, done, #[trigger] present@[k]@),
                },
            decreases present@.len() - i,
        {
            let x = &present[i];
            proof {
                assert(names_of(present@)[i as int] == x@);
                assert(pset.contains(x@));
            }
            if !contains_name(placed, x) && self.dependencies_placed(present, placed, x) {
                proof {
                    assert forall|b: Seq<char>|
                        #[trigger] depends_on(ts, x@, b) && pset.contains(b) implies done.contains(
                        b,
                    ) by {
                        assert(names_of(present@).contains(b));
                    }
                    assert(ready(ts, pset, done, x@));
                }
                match best {
                    None => {
                        proof {
                            lemma_text_le_total(x@, x@);
                            assert forall|k: int|
                                0 <= k < i + 1 && ready(
                                    ts,
                                    pset,
                                    done,
                                    #[trigger] present@[k]@,
                                ) implies text_le(x@, present@[k]@) by {
                                if k == i {
                                    assert(present@[k]@ == x@);
                                }
                            }
                        }
                        best = Some(i);
                    },
                    Some(b) => {
                        let keep = text_le_exec(&present[b], x);
                        if !keep {
                            proof {
                                lemma_text_le_total(present@[b as int]@, x@);
                                assert forall|k: int|
                                    0 <= k < i + 1 && ready(
                                        ts,
                                        pset,
                                        done,
                                        #[trigger] present@[k]@,
                                    ) implies text_le(x@, present@[k]@) by {
                                    if k < i {
                                        lemma_text_le_transitive(
                                            x@,
                                            present@[b as int]@,
                                            present@[k]@,
                                        );
                                    } else {
                                        lemma_text_le_total(x@, x@);
                                    }
                                }
                            }
                            best = Some(i);
                        } else {
                            proof {
                                assert forall|k: int|
                                    0 <= k < i + 1 && ready(
                                        ts,
                                        pset,
                                        done,
                                        #[trigger] present@[k]@,
                                    ) implies text_le(present@[b as int]@, present@[k]@) by {
                                    if k == i {
                                        assert(present@[k]@ == x@);
                                    }
                                }
                            }
                        }
                    },
                }
            } else {
                proof {
                    if ready(ts, pset, done, x@) {
                        assert forall|b: Seq<char>|
                            #[trigger] depends_on(ts, x@, b) && names_of(present@).contains(
                                b,
                            ) implies names_of(placed@).contains(b) by {
                            assert(pset.contains(b));
                        }
                    }
                }
            }
            i = i + 1;
        }
        proof {
            assert forall|x: Seq<char>| ready(ts, pset, done, x) implies (match best {
                Some(b) => text_le(present@[b as int]@, x),
                None => false,
            }) by {
                let k = choose|k: int|
                    0 <= k < names_of(present@).len() && names_of(present@)[k] == x;
                assert(present@[k]@ == x);
            }
        }
        best
    }

    /// Orders the registered tables named in a batch for integration: each table after the
    /// present tables it depends on, ties broken by the smallest table name.
    pub fn resolve_order(&self, table_names: &Vec<String>) -> (r: Result<
        Vec<String>,
        DependencyGraphError,
    >)
        requires
            self.wf(),
        ensures
            ({
                let ts = self.spec_translators();
                let present = present_tables(ts, table_names@);
                match r {
                    Ok(order) => !has_missing_dependency(ts, present) && is_resolved_order(
                        ts,
                        present,
                        names_of(order@),
                    ),
                    Err(DependencyGraphError::MissingDependency { table_name, dependency }) => {
                        &&& present.contains(table_name@)
                        &&& depends_on(ts, table_name@, dependency@)
                        &&& !is_registered(ts, dependency@)
                    },
                    Err(DependencyGraphError::Cycle) => !has_missing_dependency(ts, present)
                        && has_cycle(ts, present),
                }
            }),
            has_cycle(self.spec_translators(), present_tables(self.spec_translators(), table_names@))
                ==> r is Err,
    {
        let ghost ts = self.spec_translators();
        let ghost pset = present_tables(ts, table_names@);
        let present = self.collect_present(table_names);
        if let Some((a, b)) = self.find_missing_dependency(&present) {
            return Err(DependencyGraphError::MissingDependency { table_name: a, dependency: b });
        }
        proof {
            assert(!has_missing_dependency(ts, pset)) by {
                if has_missing_dependency(ts, pset) {
                    let (a, b) = choose|a: Seq<char>, b: Seq<char>|
                        pset.contains(a) && #[trigger] depends_on(ts, a, b) && !is_registered(
                            ts,
                            b,
                        );
                    assert(names_of(present@).contains(a));
                }
            }
        }
        let mut placed: Vec<String> = Vec::new();
        while placed.len() < present.len()
            invariant
                ts == self.spec_translators(),
                self.wf(),
                pset == present_tables(ts, table_names@),
                forall|n: Seq<char>| pset.contains(n) ==> is_registered(ts, n),
                !has_missing_dependency(ts, pset),
                names_of(present@).no_duplicates(),
                forall|n: Seq<char>| names_of(present@).contains(n) <==> pset.contains(n),
                names_of(placed@).no_duplicates(),
                forall|k: int|
                    0 <= k < placed@.len() ==> pset.contains(#[trigger] names_of(placed@)[k]),
                is_least_ready_prefix(ts, pset, names_of(placed@)),
            decreases present@.len() - placed@.len(),
        {
            let ghost done = names_of(placed@);
            match self.pick_next(&present, &placed, Ghost(pset)) {
                None => {
                    proof {
                        lemma_stuck_means_cycle(ts, pset, done, names_of(present@));
                    }
                    return Err(DependencyGraphError::Cycle);
                },
                Some(b) => {
                    let chosen = present[b].clone();
                    proof {
                        assert(names_of(present@)[b as int] == chosen@);
                        lemma_extend_prefix(ts, pset, done, chosen@);
                    }
                    placed.push(chosen);
                    proof {
                        assert(names_of(placed@) =~= done.push(chosen@));
                    }
                },
            }
        }
        proof {
            let done = names_of(placed@);
            assert forall|x: Seq<char>| pset.contains(x) implies done.contains(x) by {
                lemma_all_placed(done, names_of(present@), x);
            }
            if has_cycle(ts, pset) {
                lemma_cycle_has_no_order(ts, pset, done);
            }
        }
        Ok(placed)
    }
}

/// Placing the least ready table keeps the order a least-ready prefix.
proof fn lemma_extend_prefix(
    ts: Seq<Translator>,
    present: Set<Seq<char>>,
    done: Seq<Seq<char>>,
    c: Seq<char>,
)
    requires
        is_least_ready_prefix(ts, present, done),
        ready(ts, present, done, c),
        forall|x: Seq<char>| ready(ts, present, done, x) ==> text_le(c, x),
    ensures
        is_least_ready_prefix(ts, present, done.push(c)),
{
    let now = done.push(c);
    assert(now.take(done.len() as int) =~= done);
    assert forall|m: int| 0 <= m < now.len() implies {
        &&& ready(ts, present, now.take(m), #[trigger] now[m])
        &&& forall|x: Seq<char>| ready(ts, present, now.take(m), x) ==> text_le(now[m], x)
    } by {
        if m < done.len() {
            assert(now.take(m) =~= done.take(m));
        }
    }
}

/// When no present table can come next while some are unplaced, the unplaced ones form a
/// cyclic group.
proof fn lemma_stuck_means_cycle(
    ts: Seq<Translator>,
    present: Set<Seq<char>>,
    done: Seq<Seq<char>>,
    listed: Seq<Seq<char>>,
)
    requires
        done.no_duplicates(),
        listed.no_duplicates(),
        done.len() < listed.len(),
        forall|n: Seq<char>| listed.contains(n) <==> present.contains(n),
        forall|x: Seq<char>| !ready(ts, present, done, x),
    ensures
        has_cycle(ts, present),
{
    lemma_unplaced_exists(done, listed);
    let group = Set::new(|n: Seq<char>| present.contains(n) && !done.contains(n));
    let w = choose|w: Seq<char>| listed.contains(w) && !done.contains(w);
    assert(group.contains(w));
    assert forall|x: Seq<char>| #[trigger] group.contains(x) implies exists|b: Seq<char>|
        depends_on(ts, x, b) && #[trigger] group.contains(b) by {
        assert(!ready(ts, present, done, x));
        let b = choose|b: Seq<char>|
            #[trigger] depends_on(ts, x, b) && present.contains(b) && !done.contains(b);
        assert(group.contains(b));
    }
    assert(is_cyclic_group(ts, present, group));
}

/// Fewer distinct placed names than distinct present names leave a present name unplaced.
proof fn lemma_unplaced_exists(placed: Seq<Seq<char>>, present: Seq<Seq<char>>)
    requires
        placed.no_duplicates(),
        present.no_duplicates(),
        placed.len() < present.len(),
    ensures
        exists|x: Seq<char>| present.contains(x) && !placed.contains(x),
{
    if forall|x: Seq<char>| present.contains(x) ==> placed.contains(x) {
        placed.unique_seq_to_set();
        present.unique_seq_to_set();
        assert(present.to_set().subset_of(placed.to_set()));
        vstd::set_lib::lemma_len_subset(present.to_set(), placed.to_set());
    }
}

/// As many distinct placed names, all present, as distinct present names cover them all.
proof fn lemma_all_placed(placed: Seq<Seq<char>>, present: Seq<Seq<char>>, x: Seq<char>)
    requires
        placed.no_duplicates(),
        present.no_duplicates(),
        placed.len() >= present.len(),
        forall|k: int| 0 <= k < placed.len() ==> present.contains(#[trigger] placed[k]),
        present.contains(x),
    ensures
        placed.contains(x),
{
    if !placed.contains(x) {
        placed.unique_seq_to_set();
        present.unique_seq_to_set();
        assert(placed.to_set().subset_of(present.to_set().remove(x)));
        vstd::set_lib::lemma_len_subset(placed.to_set(), present.to_set().remove(x));
    }
}

/// Whether a list of strings holds a string with the given characters.
pub(crate) fn contains_name(v: &Vec<String>, name: &String) -> (r: bool)
    ensures
        r == names_of(v@).contains(name@),
{
    let mut i: usize = 0;
    while i < v.len()
        invariant
            i <= v@.len(),
            forall|k: int| 0 <= k < i ==> v@[k]@ != name@,
        decreases v@.len() - i,
    {
        if v[i] == *name {
            proof {
                assert(names_of(v@)[i as int] == name@);
            }
            return true;
        }
        i = i + 1;
    }
    proof {
        if names_of(v@).contains(name@) {
            let k = choose|k: int| 0 <= k < names_of(v@).len() && names_of(v@)[k] == name@;
            assert(v@[k]@ == name@);
        }
    }
    false
}

} // verus!

verus! {

/// In a resolved order, a table comes after every present table it depends on.
pub proof fn lemma_dependency_precedes(
    ts: Seq<Translator>,
    present: Set<Seq<char>>,
    order: Seq<Seq<char>>,
    a: Seq<char>,
    b: Seq<char>,
)
    requires
        is_resolved_order(ts, present, order),
        present.contains(a),
        present.contains(b),
        depends_on(ts, b, a),
    ensures
        exists|i: int, j: int| 0 <= i < j < order.len() && order[i] == a && order[j] == b,
{
    assert(order.contains(b));
    let j = choose|j: int| 0 <= j < order.len() && order[j] == b;
    assert(ready(ts, present, order.take(j), order[j]));
    assert(order.take(j).contains(a));
    let i = choose|i: int| 0 <= i < order.take(j).len() && order.take(j)[i] == a;
    assert(order[i] == a);
}

/// No table of a cyclic group is ever placed: the first one placed would need another
/// member placed before it.
proof fn lemma_group_never_placed(
    ts: Seq<Translator>,
    present: Set<Seq<char>>,
    order: Seq<Seq<char>>,
    group: Set<Seq<char>>,
    i: int,
)
    requires
        is_least_ready_prefix(ts, present, order),
        is_cyclic_group(ts, present, group),
        0 <= i < order.len(),
    ensures
        forall|k: int| 0 <= k <= i ==> !group.contains(#[trigger] order[k]),
    decreases i,
{
    if i > 0 {
        lemma_group_never_placed(ts, present, order, group, i - 1);
    }
    if group.contains(order[i]) {
        let b = choose|b: Seq<char>| depends_on(ts, order[i], b) && #[trigger] group.contains(b);
        assert(ready(ts, present, order.take(i), order[i]));
        assert(present.contains(b));
        assert(order.take(i).contains(b));
        let k = choose|k: int| 0 <= k < order.take(i).len() && order.take(i)[k] == b;
        assert(order[k] == b);
    }
}

/// When the present tables depend on each other in a circle, no integration order exists.
pub proof fn lemma_cycle_has_no_order(ts: Seq<Translator>, present: Set<Seq<char>>, order: Seq<Seq<char>>)
    requires
        has_cycle(ts, present),
    ensures
        !is_resolved_order(ts, present, order),
{
    if is_resolved_order(ts, present, order) {
        let group = choose|group: Set<Seq<char>>| is_cyclic_group(ts, present, group);
        let x = choose|x: Seq<char>| group.contains(x);
        assert(order.contains(x));
        let k = choose|k: int| 0 <= k < order.len() && order[k] == x;
        lemma_group_never_placed(ts, present, order, group, order.len() - 1);
    }
}

/// Two resolved orders of the same tables agree on their first `k` tables.
proof fn lemma_orders_agree_upto(
    ts: Seq<Translator>,
    present: Set<Seq<char>>,
    o1: Seq<Seq<char>>,
    o2: Seq<Seq<char>>,
    k: int,
)
    requires
        is_least_ready_prefix(ts, present, o1),
        is_least_ready_prefix(ts, present, o2),
        0 <= k <= o1.len(),
        k <= o2.len(),
    ensures
        o1.take(k) == o2.take(k),
    decreases k,
{
    if k > 0 {
        lemma_orders_agree_upto(ts, present, o1, o2, k - 1);
        let p = o1.take(k - 1);
        assert(ready(ts, present, o1.take(k - 1), o1[k - 1]));
        assert(ready(ts, present, o2.take(k - 1), o2[k - 1]));
        assert(text_le(o1[k - 1], o2[k - 1]));
        assert(text_le(o2[k - 1], o1[k - 1]));
        lemma_text_le_antisymmetric(o1[k - 1], o2[k - 1]);
        assert(o1.take(k) =~= p.push(o1[k - 1]));
        assert(o2.take(k) =~= o2.take(k - 1).push(o2[k - 1]));
    }
}

/// The integration order of a set of tables is unique: there is exactly one resolved order.
pub proof fn lemma_resolved_order_unique(
    ts: Seq<Translator>,
    present: Set<Seq<char>>,
    o1: Seq<Seq<char>>,
    o2: Seq<Seq<char>>,
)
    requires
        is_resolved_order(ts, present, o1),
        is_resolved_order(ts, present, o2),
    ensures
        o1 == o2,
{
    if o1.len() > o2.len() {
        lemma_orders_agree_upto(ts, present, o1, o2, o2.len() as int);
        assert(o1.take(o2.len() as int) =~= o2);
        assert(ready(ts, present, o1.take(o2.len() as int), o1[o2.len() as int]));
        assert(o2.contains(o1[o2.len() as int]));
    } else if o2.len() > o1.len() {
        lemma_orders_agree_upto(ts, present, o1, o2, o1.len() as int);
        assert(o2.take(o1.len() as int) =~= o1);
        assert(ready(ts, present, o2.take(o1.len() as int), o2[o1.len() as int]));
        assert(o1.contains(o2[o1.len() as int]));
    } else {
        lemma_orders_agree_upto(ts, present, o1, o2, o1.len() as int);
        assert(o1.take(o1.len() as int) =~= o1);
        assert(o2.take(o2.len() as int) =~= o2);
    }
}

/// A table appears at most once in a resolved order.
proof fn lemma_order_positions_unique(
    ts: Seq<Translator>,
    present: Set<Seq<char>>,
    order: Seq<Seq<char>>,
    p: int,
    q: int,
)
    requires
        is_least_ready_prefix(ts, present, order),
        0 <= p < order.len(),
        0 <= q < order.len(),
        order[p] == order[q],
    ensures
        p == q,
{
    if p < q {
        assert(ready(ts, present, order.take(q), order[q]));
        assert(order.take(q)[p] == order[q]);
    } else if q < p {
        assert(ready(ts, present, order.take(p), order[p]));
        assert(order.take(p)[q] == order[p]);
    }
}

/// In a resolved order, a table comes after every table it reaches through a chain of
/// dependencies among the present tables: `chain[0]` depends on `chain[1]`, which depends
/// on `chain[2]`, and so on.
pub proof fn lemma_dependency_chain_precedes(
    ts: Seq<Translator>,
    present: Set<Seq<char>>,
    order: Seq<Seq<char>>,
    chain: Seq<Seq<char>>,
)
    requires
        is_resolved_order(ts, present, order),
        chain.len() >= 2,
        forall|k: int| 0 <= k < chain.len() ==> present.contains(#[trigger] chain[k]),
        forall|k: int| 0 <= k < chain.len() - 1 ==> depends_on(ts, #[trigger] chain[k], chain[k + 1]),
    ensures
        exists|i: int, j: int|
            0 <= i < j < order.len() && order[i] == chain.last() && order[j] == chain[0],
    decreases chain.len(),
{
    assert(present.contains(chain[0]) && present.contains(chain[1]));
    assert(depends_on(ts, chain[0], chain[1]));
    lemma_dependency_precedes(ts, present, order, chain[1], chain[0]);
    let (i2, j2) = choose|i2: int, j2: int|
        0 <= i2 < j2 < order.len() && order[i2] == chain[1] && order[j2] == chain[0];
    if chain.len() > 2 {
        let rest = chain.drop_first();
        assert forall|k: int| 0 <= k < rest.len() implies present.contains(#[trigger] rest[k]) by {
            assert(rest[k] == chain[k + 1]);
        }
        assert forall|k: int| 0 <= k < rest.len() - 1 implies depends_on(
            ts,
            #[trigger] rest[k],
            rest[k + 1],
        ) by {
            assert(rest[k] == chain[k + 1]);
            assert(rest[k + 1] == chain[k + 2]);
        }
        lemma_dependency_chain_precedes(ts, present, order, rest);
        let (i1, j1) = choose|i1: int, j1: int|
            0 <= i1 < j1 < order.len() && order[i1] == rest.last() && order[j1] == rest[0];
        lemma_order_positions_unique(ts, present, order, j1, i2);
        assert(order[i1] == chain.last());
    }
}

/// With the join translator's declared dependencies, a batch holding names and joins
/// integrates the names first, and likewise master lists.
pub proof fn lemma_join_after_name_and_master_list(
    ts: Seq<Translator>,
    present: Set<Seq<char>>,
    order: Seq<Seq<char>>,
    join: int,
)
    requires
        0 <= join < ts.len(),
        ts[join].table_name@ == "master_list_name_join"@,
        names_of(ts[join].dependencies@) == seq!["name"@, "master_list"@],
        is_resolved_order(ts, present, order),
        present.contains("master_list_name_join"@),
    ensures
        present.contains("name"@) ==> exists|i: int, j: int|
            0 <= i < j < order.len() && order[i] == "name"@ && order[j] == "master_list_name_join"@,
        present.contains("master_list"@) ==> exists|i: int, j: int|
            0 <= i < j < order.len() && order[i] == "master_list"@ && order[j]
                == "master_list_name_join"@,
{
    let deps = ts[join].dependencies@;
    assert(names_of(deps).len() == 2);
    assert(deps.len() == 2);
    assert(names_of(deps)[0] == "name"@);
    assert(names_of(deps)[1] == "master_list"@);
    assert(deps[0]@ == "name"@);
    assert(deps[1]@ == "master_list"@);
    assert(depends_on(ts, "master_list_name_join"@, "name"@));
    assert(depends_on(ts, "master_list_name_join"@, "master_list"@));
    if present.contains("name"@) {
        lemma_dependency_precedes(ts, present, order, "name"@, "master_list_name_join"@);
    }
    if present.contains("master_list"@) {
        lemma_dependency_precedes(ts, present, order, "master_list"@, "master_list_name_join"@);
    }
}

} // verus!
