//! The registry of parsed records and the read-only query surface over
//! it.
//!
//! The registry is the arena owning every record the producer (a parser
//! for the description language) built: two disjoint namespaces, one of
//! abstract classes and one of concrete definitions, each kept in
//! insertion order with names unique within the namespace. The
//! `RecordKeeper` borrows a populated registry and answers point
//! lookups, bulk enumeration, and the derived-definitions query.

use vstd::prelude::*;

use crate::names::name_seq;
use crate::names::nul_free;
use crate::names::str_nul_free;
use crate::record::record_names;
use crate::record::Record;
use crate::record::RecordIterator;
use crate::record::RecordMap;

verus! {

/// One concrete definition: its name, and the names of every class it
/// derives from — direct or transitive, as the producer declared them.
struct DefEntry {
    name: String,
    superclasses: Vec<String>,
}

/// The spec-level image of one definition.
pub struct DefView {
    pub name: Seq<char>,
    pub superclasses: Seq<Seq<char>>,
}

/// Whether the definition derives from the class named `c`.
pub open spec fn derives_from(d: DefView, c: Seq<char>) -> bool {
    d.superclasses.contains(c)
}

/// The names of the definitions among `defs` deriving from the class
/// named `c`, in the order `defs` lists them.
pub open spec fn derived_names(defs: Seq<DefView>, c: Seq<char>) -> Seq<Seq<char>>
    decreases defs.len(),
{
    if defs.len() == 0 {
        Seq::empty()
    } else if derives_from(defs.last(), c) {
        derived_names(defs.drop_last(), c).push(defs.last().name)
    } else {
        derived_names(defs.drop_last(), c)
    }
}

/// The spec-level image of one definition entry.
spec fn def_view_of(d: DefEntry) -> DefView {
    DefView { name: d.name@, superclasses: name_seq(d.superclasses@) }
}

/// The arena owning all parsed records. A producer populates it once,
/// through `add_class` and `add_def`; every query then borrows it
/// read-only through a `RecordKeeper`.
pub struct Registry {
    classes: Vec<String>,
    defs: Vec<DefEntry>,
}

impl Registry {
    /// Names are unique within each namespace and never embed a null
    /// character, so a name identifies at most one record per namespace
    /// and a malformed name can never be found.
    #[verifier::type_invariant]
    spec fn wf(self) -> bool {
        &&& forall|i: int, j: int|
            #![trigger self.classes@[i], self.classes@[j]]
            0 <= i < j < self.classes@.len() ==> self.classes@[i]@ != self.classes@[j]@
        &&& forall|i: int| 0 <= i < self.classes@.len() ==> nul_free((#[trigger] self.classes@[i])@)
        &&& forall|i: int, j: int|
            #![trigger self.defs@[i], self.defs@[j]]
            0 <= i < j < self.defs@.len() ==> self.defs@[i].name@ != self.defs@[j].name@
        &&& forall|i: int| 0 <= i < self.defs@.len() ==> nul_free((#[trigger] self.defs@[i]).name@)
    }

    /// The class namespace, by name, in insertion order.
    pub closed spec fn class_names(self) -> Seq<Seq<char>> {
        name_seq(self.classes@)
    }

    /// The definition namespace, in insertion order.
    pub closed spec fn defs_view(self) -> Seq<DefView> {
        self.defs@.map_values(|d: DefEntry| def_view_of(d))
    }

    /// The definition namespace, by name, in insertion order.
    pub open spec fn def_names(self) -> Seq<Seq<char>> {
        self.defs_view().map_values(|d: DefView| d.name)
    }

    /// An empty registry.
    pub fn new() -> (r: Registry)
        ensures
            r.class_names() == Seq::<Seq<char>>::empty(),
            r.defs_view() == Seq::<DefView>::empty(),
    {
        let r = Registry { classes: Vec::new(), defs: Vec::new() };
        proof {
            assert(r.class_names() =~= Seq::<Seq<char>>::empty());
            assert(r.defs_view() =~= Seq::<DefView>::empty());
        }
        r
    }

    /// Record a class at the end of the class namespace. The request is
    /// refused — and the registry left unchanged — when the name embeds
    /// a null character or a class of that name already exists.
    pub fn add_class(&mut self, name: String) -> (r: bool)
        ensures
            r <==> (nul_free(name@) && !old(self).class_names().contains(name@)),
            r ==> final(self).class_names() == old(self).class_names().push(name@),
            r ==> final(self).defs_view() == old(self).defs_view(),
            !r ==> *final(self) == *old(self),
    {
        proof {
            use_type_invariant(&*self);
        }
        if !str_nul_free(name.as_str()) {
            return false;
        }
        if self.class_index(&name).is_some() {
            return false;
        }
        let ghost before = *self;
        let ghost gname = name@;
        proof {
            assert forall|i: int|
                0 <= i < before.classes@.len() implies (#[trigger] before.classes@[i])@
                != gname by {
                if before.classes@[i]@ == gname {
                    assert(before.class_names()[i] == gname);
                    assert(before.class_names().contains(gname));
                }
            }
        }
        let mut tmp = Registry { classes: Vec::new(), defs: Vec::new() };
        std::mem::swap(&mut tmp, self);
        let Registry { mut classes, defs } = tmp;
        classes.push(name);
        let mut rebuilt = Registry { classes, defs };
        std::mem::swap(&mut rebuilt, self);
        proof {
            assert(self.class_names() =~= before.class_names().push(gname));
            assert(self.defs_view() =~= before.defs_view());
        }
        true
    }

    /// Record a definition at the end of the definition namespace,
    /// deriving from the named superclasses. The request is refused —
    /// and the registry left unchanged — when the name embeds a null
    /// character or a definition of that name already exists.
    pub fn add_def(&mut self, name: String, superclasses: Vec<String>) -> (r: bool)
        ensures
            r <==> (nul_free(name@) && !old(self).def_names().contains(name@)),
            r ==> final(self).defs_view() == old(self).defs_view().push(
                DefView { name: name@, superclasses: name_seq(superclasses@) },
            ),
            r ==> final(self).class_names() == old(self).class_names(),
            !r ==> *final(self) == *old(self),
    {
        proof {
            use_type_invariant(&*self);
        }
        if !str_nul_free(name.as_str()) {
            return false;
        }
        if self.def_index(&name).is_some() {
            return false;
        }
        let ghost before = *self;
        let ghost gname = name@;
        let ghost new_def = DefView { name: name@, superclasses: name_seq(superclasses@) };
        proof {
            assert forall|i: int|
                0 <= i < before.defs@.len() implies (#[trigger] before.defs@[i]).name@
                != gname by {
                if before.defs@[i].name@ == gname {
                    assert(before.def_names()[i] == gname);
                    assert(before.def_names().contains(gname));
                }
            }
        }
        let mut tmp = Registry { classes: Vec::new(), defs: Vec::new() };
        std::mem::swap(&mut tmp, self);
        let Registry { classes, mut defs } = tmp;
        defs.push(DefEntry { name, superclasses });
        let mut rebuilt = Registry { classes, defs };
        std::mem::swap(&mut rebuilt, self);
        proof {
            assert(self.defs_view() =~= before.defs_view().push(new_def));
            assert(self.class_names() =~= before.class_names());
        }
        true
    }

    /// Where the class of that name sits in the class namespace.
    fn class_index(&self, name: &String) -> (r: Option<usize>)
        ensures
            match r {
                Some(i) => i < self.class_names().len() && self.class_names()[i as int] == name@,
                None => !self.class_names().contains(name@),
            },
    {
        let mut i: usize = 0;
        while i < self.classes.len()
            invariant
                i <= self.classes.len(),
                forall|j: int| 0 <= j < i ==> self.class_names()[j] != name@,
            decreases self.classes.len() - i,
        {
            if self.classes[i].eq(name) {
                return Some(i);
            }
            i += 1;
        }
        None
    }

    /// Where the definition of that name sits in the definition
    /// namespace.
    fn def_index(&self, name: &String) -> (r: Option<usize>)
        ensures
            match r {
                Some(i) => i < self.def_names().len() && self.def_names()[i as int] == name@,
                None => !self.def_names().contains(name@),
            },
    {
        let mut i: usize = 0;
        while i < self.defs.len()
            invariant
                i <= self.defs.len(),
                forall|j: int| 0 <= j < i ==> self.def_names()[j] != name@,
            decreases self.defs.len() - i,
        {
            if self.defs[i].name.eq(name) {
                return Some(i);
            }
            i += 1;
        }
        None
    }
}

/// Returned by the derived-definitions query for a name that embeds a
/// null character. The registry's lookup primitive cannot represent
/// such a name, and this query surfaces that as an explicit error
/// rather than folding it into an empty result or ending the process.
#[derive(Clone, Copy, Debug, PartialEq, Eq, Structural)]
pub struct InvalidName;

/// The read-only query surface: a capability to query one populated
/// registry, borrowing it for the duration of each call and holding no
/// state of its own.
pub struct RecordKeeper<'a> {
    registry: &'a Registry,
}

impl<'a> RecordKeeper<'a> {
    /// The registry this keeper answers queries about.
    pub closed spec fn registry(self) -> Registry {
        *self.registry
    }

    /// A keeper over a populated registry.
    pub fn new(registry: &'a Registry) -> (k: RecordKeeper<'a>)
        ensures
            k.registry() == *registry,
    {
        RecordKeeper { registry }
    }

    /// All class records, in registry insertion order.
    pub fn classes(&self) -> (m: RecordMap)
        ensures
            m@ == self.registry().class_names(),
    {
        let mut records: Vec<Record> = Vec::new();
        let mut i: usize = 0;
        while i < self.registry.classes.len()
            invariant
                i <= self.registry.classes.len(),
                records@.len() == i,
                forall|k: int|
                    0 <= k < i ==> (#[trigger] records@[k])@ == self.registry().class_names()[k],
            decreases self.registry.classes.len() - i,
        {
            records.push(Record::new(self.registry.classes[i].clone()));
            i += 1;
        }
        proof {
            assert(record_names(records@) =~= self.registry().class_names());
        }
        RecordMap::from_records(records)
    }

    /// All definition records, in registry insertion order.
    pub fn defs(&self) -> (m: RecordMap)
        ensures
            m@ == self.registry().def_names(),
    {
        let mut records: Vec<Record> = Vec::new();
        let mut i: usize = 0;
        while i < self.registry.defs.len()
            invariant
                i <= self.registry.defs.len(),
                records@.len() == i,
                forall|k: int|
                    0 <= k < i ==> (#[trigger] records@[k])@ == self.registry().def_names()[k],
            decreases self.registry.defs.len() - i,
        {
            records.push(Record::new(self.registry.defs[i].name.clone()));
            i += 1;
        }
        proof {
            assert(record_names(records@) =~= self.registry().def_names());
        }
        RecordMap::from_records(records)
    }

    /// Look a class up by exact name. Returns the class record when the
    /// class namespace holds the name; "not found" both when it does
    /// not and when the name embeds a null character — a malformed name
    /// can never be stored, so the two cases coincide here.
    pub fn get_class(&self, name: &str) -> (r: Option<Record>)
        ensures
            r is Some <==> self.registry().class_names().contains(name@),
            r matches Some(rec) ==> rec@ == name@,
            !nul_free(name@) ==> r is None,
    {
        proof {
            use_type_invariant(&*self.registry);
        }
        let key: String = name.to_owned();
        match self.registry.class_index(&key) {
            Some(i) => {
                proof {
                    assert(self.registry().class_names().contains(name@));
                    assert(nul_free(self.registry.classes@[i as int]@));
                }
                Some(Record::new(self.registry.classes[i].clone()))
            },
            None => None,
        }
    }

    /// Look a definition up by exact name; the same contract as
    /// `get_class`, in the definition namespace.
    pub fn get_def(&self, name: &str) -> (r: Option<Record>)
        ensures
            r is Some <==> self.registry().def_names().contains(name@),
            r matches Some(rec) ==> rec@ == name@,
            !nul_free(name@) ==> r is None,
    {
        proof {
            use_type_invariant(&*self.registry);
        }
        let key: String = name.to_owned();
        match self.registry.def_index(&key) {
            Some(i) => {
                proof {
                    assert(self.registry().def_names().contains(name@));
                    assert(nul_free(self.registry.defs@[i as int].name@));
                }
                Some(Record::new(self.registry.defs[i].name.clone()))
            },
            None => None,
        }
    }

    /// Every definition deriving from the class named `name`, as a
    /// one-shot stream in registry insertion order. The whole result is
    /// computed before the stream is returned; a class nothing derives
    /// from — or a name no class bears — yields an empty stream.
    ///
    /// A name that embeds a null character is refused with an explicit
    /// `InvalidName` error: the point lookups fold such a name into
    /// "not found", but this query flags it distinctly, keeping a hard
    /// signal on the path where the registry interface could not have
    /// carried the name at all.
    pub fn get_all_derived_definitions(&self, name: &str) -> (r: Result<
        RecordIterator,
        InvalidName,
    >)
        ensures
            r is Ok <==> nul_free(name@),
            r matches Ok(it) ==> it.backing() == derived_names(self.registry().defs_view(), name@)
                && it.pos() == 0,
    {
        if !str_nul_free(name) {
            return Err(InvalidName);
        }
        let key: String = name.to_owned();
        let ghost dv = self.registry().defs_view();
        let ghost gname = name@;
        let mut records: Vec<Record> = Vec::new();
        let mut i: usize = 0;
        proof {
            assert(record_names(records@) =~= derived_names(dv.take(0), gname));
        }
        while i < self.registry.defs.len()
            invariant
                i <= self.registry.defs.len(),
                dv == self.registry().defs_view(),
                gname == name@,
                key@ == gname,
                record_names(records@) == derived_names(dv.take(i as int), gname),
            decreases self.registry.defs.len() - i,
        {
            proof {
                assert(dv.take(i + 1).drop_last() =~= dv.take(i as int));
                assert(dv.take(i + 1).last() == dv[i as int]);
            }
            let d = &self.registry.defs[i];
            if contains_name(&d.superclasses, &key) {
                let ghost prev = records@;
                records.push(Record::new(d.name.clone()));
                proof {
                    assert(derives_from(dv[i as int], gname));
                    assert(record_names(records@) =~= record_names(prev).push(
                        dv[i as int].name,
                    ));
                    assert(derived_names(dv.take(i + 1), gname) == derived_names(
                        dv.take(i as int),
                        gname,
                    ).push(dv[i as int].name));
                }
            } else {
                proof {
                    assert(!derives_from(dv[i as int], gname));
                    assert(derived_names(dv.take(i + 1), gname) == derived_names(
                        dv.take(i as int),
                        gname,
                    ));
                }
            }
            i += 1;
        }
        proof {
            assert(dv.take(i as int) =~= dv);
        }
        Ok(RecordIterator::from_records(records))
    }
}

/// A name absent from both namespaces is found in neither: whatever the
/// point lookups returned for it, if each result meets its lookup's
/// contract — present exactly when the namespace holds the name — both
/// are "not found".
pub proof fn lemma_absent_name_not_found(
    reg: Registry,
    name: Seq<char>,
    class_result: Option<Record>,
    def_result: Option<Record>,
)
    requires
        class_result is Some <==> reg.class_names().contains(name),
        def_result is Some <==> reg.def_names().contains(name),
        !reg.class_names().contains(name),
        !reg.def_names().contains(name),
    ensures
        class_result is None,
        def_result is None,
{
}

/// Enumeration is stable: any two maps drawn from one registry's class
/// namespace are identical in content and order, and likewise for the
/// definition namespace; each holds exactly as many entries as the
/// registry knows in that namespace.
pub proof fn lemma_enumeration_repeatable(
    reg: Registry,
    c1: RecordMap,
    c2: RecordMap,
    d1: RecordMap,
    d2: RecordMap,
)
    requires
        c1@ == reg.class_names(),
        c2@ == reg.class_names(),
        d1@ == reg.def_names(),
        d2@ == reg.def_names(),
    ensures
        c1@ == c2@,
        d1@ == d2@,
        c1@.len() == reg.class_names().len(),
        d1@.len() == reg.def_names().len(),
{
}

/// A class no definition derives from yields an empty result sequence.
pub proof fn lemma_no_derived_definitions(defs: Seq<DefView>, c: Seq<char>)
    requires
        forall|i: int| 0 <= i < defs.len() ==> !derives_from(#[trigger] defs[i], c),
    ensures
        derived_names(defs, c) == Seq::<Seq<char>>::empty(),
    decreases defs.len(),
{
    if defs.len() > 0 {
        assert(!derives_from(defs[defs.len() - 1], c));
        assert forall|i: int|
            0 <= i < defs.drop_last().len() implies !derives_from(
            #[trigger] defs.drop_last()[i],
            c,
        ) by {
            assert(defs.drop_last()[i] == defs[i]);
        }
        lemma_no_derived_definitions(defs.drop_last(), c);
    }
}

/// Whether `n` is the name of a definition among `defs` deriving from
/// the class named `c`.
pub open spec fn names_a_deriving_def(defs: Seq<DefView>, c: Seq<char>, n: Seq<char>) -> bool {
    exists|i: int| 0 <= i < defs.len() && derives_from(#[trigger] defs[i], c) && defs[i].name == n
}

/// The derived-definitions result is sound and complete: it holds the
/// name of every definition deriving from `c`, and every name it holds
/// is the name of such a definition.
pub proof fn lemma_derived_names_exact(defs: Seq<DefView>, c: Seq<char>)
    ensures
        forall|i: int|
            0 <= i < defs.len() && derives_from(#[trigger] defs[i], c) ==> derived_names(
                defs,
                c,
            ).contains(defs[i].name),
        forall|k: int|
            0 <= k < derived_names(defs, c).len() ==> names_a_deriving_def(
                defs,
                c,
                #[trigger] derived_names(defs, c)[k],
            ),
    decreases defs.len(),
{
    if defs.len() > 0 {
        let rest = defs.drop_last();
        let whole = derived_names(defs, c);
        let prefix = derived_names(rest, c);
        lemma_derived_names_exact(rest, c);
        assert forall|i: int|
            0 <= i < defs.len() && derives_from(#[trigger] defs[i], c) implies whole.contains(
            defs[i].name,
        ) by {
            if i < defs.len() - 1 {
                assert(rest[i] == defs[i]);
                let k = choose|k: int| 0 <= k < prefix.len() && prefix[k] == rest[i].name;
                assert(whole[k] == defs[i].name);
            } else {
                assert(defs.last() == defs[i]);
                assert(whole.last() == defs[i].name);
            }
        }
        assert forall|k: int|
            0 <= k < whole.len() implies names_a_deriving_def(defs, c, #[trigger] whole[k]) by {
            if k < prefix.len() {
                assert(prefix[k] == whole[k]);
                let i = choose|i: int|
                    0 <= i < rest.len() && derives_from(rest[i], c) && rest[i].name == prefix[k];
                assert(rest[i] == defs[i]);
                assert(derives_from(defs[i], c) && defs[i].name == whole[k]);
            } else {
                assert(derives_from(defs.last(), c));
                assert(whole[k] == defs.last().name);
                assert(defs.last() == defs[defs.len() - 1]);
                assert(derives_from(defs[defs.len() - 1], c) && defs[defs.len() - 1].name
                    == whole[k]);
            }
        }
    } else {
        assert(derived_names(defs, c) =~= Seq::<Seq<char>>::empty());
    }
}

/// Whether one of the names in `v` is `key`.
fn contains_name(v: &Vec<String>, key: &String) -> (r: bool)
    ensures
        r == name_seq(v@).contains(key@),
{
    let mut i: usize = 0;
    while i < v.len()
        invariant
            i <= v.len(),
            forall|j: int| 0 <= j < i ==> (#[trigger] v@[j])@ != key@,
        decreases v.len() - i,
    {
        if v[i].eq(key) {
            proof {
                assert(name_seq(v@)[i as int] == key@);
            }
            return true;
        }
        i += 1;
    }
    proof {
        assert forall|j: int| 0 <= j < v@.len() implies name_seq(v@)[j] != key@ by {
            assert(name_seq(v@)[j] == v@[j]@);
        }
    }
    false
}

} // verus!
