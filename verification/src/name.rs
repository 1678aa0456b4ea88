use vstd::prelude::*;

use crate::text::str_eq;

verus! {

/// Integer IDs representing names. IDs represent strings, not objects: they
/// do not identify an object uniquely.
pub type Id = usize;

/// The ID that no name is ever given.
pub const NO_ID: Id = usize::MAX;

/// A two-way table between names and the IDs handed out for them.
///
/// IDs are handed out in order, starting at 0: the name with ID `i` is the
/// `i`-th distinct name that was looked up.
#[derive(Debug, Clone)]
pub struct NameMap {
    names: Vec<String>,
}

/// True iff no name occurs twice in `names`.
pub open spec fn distinct_names(names: Seq<Seq<char>>) -> bool {
    forall|i: int, j: int|
        0 <= i < names.len() && 0 <= j < names.len() && i != j ==> names[i] != names[j]
}

impl View for NameMap {
    /// The names, indexed by their ID.
    type V = Seq<Seq<char>>;

    closed spec fn view(&self) -> Seq<Seq<char>> {
        self.names@.map_values(|s: String| s@)
    }
}

impl NameMap {
    /// Well-formedness: every name has exactly one ID, and there are at most
    /// `NO_ID` names, so that every ID is below `NO_ID`.
    pub open spec fn wf(&self) -> bool {
        &&& distinct_names(self@)
        &&& self@.len() <= NO_ID
    }

    /// The ID that `name` has in `names`, if any.
    pub open spec fn spec_id_of(names: Seq<Seq<char>>, name: Seq<char>) -> Option<Id> {
        if exists|i: int| 0 <= i < names.len() && names[i] == name {
            Some((choose|i: int| 0 <= i < names.len() && names[i] == name) as Id)
        } else {
            None
        }
    }

    /// An empty table.
    pub fn new() -> (m: NameMap)
        ensures
            m.wf(),
            m@ == Seq::<Seq<char>>::empty(),
    {
        let m = NameMap { names: Vec::new() };
        assert(m@ =~= Seq::<Seq<char>>::empty());
        m
    }

    /// The number of IDs handed out so far; the next new name gets this ID.
    pub fn len(&self) -> (n: usize)
        ensures
            n == self@.len(),
    {
        self.names.len()
    }

    /// Returns the name with ID `id`. The ID must have been handed out.
    pub fn name(&self, id: Id) -> (s: &str)
        requires
            id < self@.len(),
        ensures
            s@ == self@[id as int],
    {
        self.names[id].as_str()
    }

    /// Returns the ID of `name`, handing out the next ID if the name is new.
    pub fn name_to_id(&mut self, name: &str) -> (id: Id)
        requires
            old(self).wf(),
        ensures
            final(self).wf(),
            id < final(self)@.len(),
            final(self)@[id as int] == name@,
            Self::spec_id_of(final(self)@, name@) == Some(id),
            (final(self)@, id) == spec_lookup(old(self)@, name@),
    {
        let n = self.names.len();
        let mut i: usize = 0;
        while i < n
            invariant
                n == self.names.len(),
                n == self@.len(),
                self.wf(),
                0 <= i <= n,
                forall|k: int| 0 <= k < i ==> self@[k] != name@,
            decreases n - i,
        {
            proof {
                assert(self@[i as int] == self.names@[i as int]@);
            }
            if str_eq(self.names[i].as_str(), name) {
                proof {
                    assert(self@[i as int] == name@);
                    let j = choose|j: int| 0 <= j < self@.len() && self@[j] == name@;
                    assert(j == i as int);
                    assert(Self::spec_id_of(self@, name@) == Some(i));
                }
                return i;
            }
            i = i + 1;
        }
        proof {
            assert(!(exists|k: int| 0 <= k < self@.len() && self@[k] == name@));
        }
        let id = self.add_name(name);
        proof {
            assert(self@[id as int] == name@);
            let j = choose|j: int| 0 <= j < self@.len() && self@[j] == name@;
            assert(j == id as int);
        }
        id
    }

    fn add_name(&mut self, name: &str) -> (id: Id)
        requires
            old(self).wf(),
            forall|k: int| 0 <= k < old(self)@.len() ==> old(self)@[k] != name@,
        ensures
            final(self).wf(),
            id == old(self)@.len(),
            final(self)@ == old(self)@.push(name@),
    {
        let id = self.names.len();
        self.names.push(name.to_owned());
        proof {
            // A vector never holds more than `usize::MAX` items.
            vstd::std_specs::vec::axiom_spec_len(&self.names);
        }
        assert(self@ =~= old(self)@.push(name@));
        id
    }
}

/// In a well-formed table, the ID that a name has gives that name back, and
/// two names with the same ID are the same name.
pub proof fn lemma_ids_identify_names(m: NameMap, a: Seq<char>, b: Seq<char>)
    requires
        m.wf(),
    ensures
        NameMap::spec_id_of(m@, a) matches Some(i) ==> i < m@.len() && m@[i as int] == a,
        NameMap::spec_id_of(m@, a) is Some && NameMap::spec_id_of(m@, a) == NameMap::spec_id_of(
            m@,
            b,
        ) ==> a == b,
{
}

/// The table and the ID that looking `name` up in `names` gives: its ID if it
/// has one, else the next ID, with the name added.
pub open spec fn spec_lookup(names: Seq<Seq<char>>, name: Seq<char>) -> (Seq<Seq<char>>, Id) {
    match NameMap::spec_id_of(names, name) {
        Some(i) => (names, i),
        None => (names.push(name), names.len() as Id),
    }
}

/// Looking a name up a second time gives the same ID and leaves the table as
/// it is; and a lookup keeps the ID of every name that had one.
pub proof fn lemma_lookup_is_stable(names: Seq<Seq<char>>, name: Seq<char>, other: Seq<char>)
    requires
        distinct_names(names),
    ensures
        spec_lookup(spec_lookup(names, name).0, name) == spec_lookup(names, name),
        NameMap::spec_id_of(names, other) is Some ==> NameMap::spec_id_of(
            spec_lookup(names, name).0,
            other,
        ) == NameMap::spec_id_of(names, other),
{
    let after = spec_lookup(names, name).0;
    match NameMap::spec_id_of(names, name) {
        Some(i) => {},
        None => {
            assert(after[names.len() as int] == name);
            let j = choose|j: int| 0 <= j < after.len() && after[j] == name;
            assert(j == names.len());
            if NameMap::spec_id_of(names, other) is Some {
                let k = choose|k: int| 0 <= k < names.len() && names[k] == other;
                assert(after[k] == other);
                let k2 = choose|k2: int| 0 <= k2 < after.len() && after[k2] == other;
                assert(k2 == k);
            }
        },
    }
}

/// The table and the IDs that looking up each of `ss` in turn gives.
pub open spec fn lookup_seq(names: Seq<Seq<char>>, ss: Seq<Seq<char>>) -> (Seq<Seq<char>>, Seq<Id>)
    decreases ss.len(),
{
    if ss.len() == 0 {
        (names, Seq::empty())
    } else {
        let (n1, ids) = lookup_seq(names, ss.drop_last());
        let (n2, id) = spec_lookup(n1, ss.last());
        (n2, ids.push(id))
    }
}

/// A lookup keeps the table well formed and only ever adds names.
pub proof fn lemma_lookup_grows(names: Seq<Seq<char>>, name: Seq<char>)
    requires
        distinct_names(names),
        spec_lookup(names, name).0.len() <= NO_ID,
    ensures
        distinct_names(spec_lookup(names, name).0),
        spec_lookup(names, name).0.len() <= names.len() + 1,
        names.is_prefix_of(spec_lookup(names, name).0),
        spec_lookup(names, name).1 < spec_lookup(names, name).0.len(),
        spec_lookup(names, name).0[spec_lookup(names, name).1 as int] == name,
{
    match NameMap::spec_id_of(names, name) {
        Some(i) => {
            let k = choose|k: int| 0 <= k < names.len() && names[k] == name;
        },
        None => {
            assert(names.is_prefix_of(names.push(name)));
        },
    }
}

/// Looking up names one after another gives each the ID that the final table
/// holds it under; two of them get the same ID exactly when they are the same
/// name.
pub proof fn lemma_lookup_seq_ids(names: Seq<Seq<char>>, ss: Seq<Seq<char>>)
    requires
        distinct_names(names),
        lookup_seq(names, ss).0.len() <= NO_ID,
    ensures
        distinct_names(lookup_seq(names, ss).0),
        lookup_seq(names, ss).0.len() <= names.len() + ss.len(),
        lookup_seq(names, ss).1.len() == ss.len(),
        names.is_prefix_of(lookup_seq(names, ss).0),
        forall|k: int|
            0 <= k < ss.len() ==> {
                let fin = lookup_seq(names, ss).0;
                let id = #[trigger] lookup_seq(names, ss).1[k];
                id < fin.len() && fin[id as int] == ss[k]
            },
        forall|j: int, k: int|
            0 <= j < ss.len() && 0 <= k < ss.len() ==> (lookup_seq(names, ss).1[j]
                == lookup_seq(names, ss).1[k] <==> ss[j] == ss[k]),
    decreases ss.len(),
{
    if ss.len() > 0 {
        let pre = ss.drop_last();
        let (n1, ids) = lookup_seq(names, pre);
        assert(n1.len() <= lookup_seq(names, ss).0.len());
        lemma_lookup_seq_ids(names, pre);
        lemma_lookup_grows(n1, ss.last());
        let (n2, id) = spec_lookup(n1, ss.last());
        let fin = lookup_seq(names, ss).0;
        let all = lookup_seq(names, ss).1;
        assert(fin == n2);
        assert(all == ids.push(id));
        assert forall|k: int| 0 <= k < ss.len() implies ({
            let i = #[trigger] all[k];
            i < fin.len() && fin[i as int] == ss[k]
        }) by {
            if k < pre.len() {
                assert(all[k] == ids[k]);
                assert(pre[k] == ss[k]);
                assert(n1.is_prefix_of(n2));
                assert(fin[ids[k] as int] == n1[ids[k] as int]);
            }
        }
        assert forall|j: int, k: int|
            0 <= j < ss.len() && 0 <= k < ss.len() implies (all[j] == all[k] <==> ss[j] == ss[k]) by {
            let ij = all[j];
            let ik = all[k];
            assert(ij < fin.len() && fin[ij as int] == ss[j]);
            assert(ik < fin.len() && fin[ik as int] == ss[k]);
            if ss[j] == ss[k] && ij != ik {
                assert(fin[ij as int] == fin[ik as int]);
            }
        }
        assert(names.is_prefix_of(n2)) by {
            assert(names.is_prefix_of(n1));
            assert(n1.is_prefix_of(n2));
        }
    }
}

/// Whether table `b` holds every name of table `a` under the same ID.
pub open spec fn names_extend(a: Seq<Seq<char>>, b: Seq<Seq<char>>) -> bool {
    &&& a.len() <= b.len()
    &&& forall|i: int| 0 <= i < a.len() ==> #[trigger] b[i] == a[i]
}

/// A lookup keeps every name under its ID, and the ID it gives holds the
/// name looked up.
pub proof fn lemma_lookup_extends(names: Seq<Seq<char>>, s: Seq<char>)
    ensures
        names_extend(names, spec_lookup(names, s).0),
        spec_lookup(names, s).0.len() <= NO_ID ==> {
            &&& spec_lookup(names, s).1 < spec_lookup(names, s).0.len()
            &&& spec_lookup(names, s).0[spec_lookup(names, s).1 as int] == s
        },
{
    if exists|i: int| 0 <= i < names.len() && names[i] == s {
        let i = choose|i: int| 0 <= i < names.len() && names[i] == s;
    }
}

/// Lookups in turn keep every name under its ID, and each ID they give holds
/// its name in the final table.
pub proof fn lemma_lookup_seq_extends(names: Seq<Seq<char>>, ss: Seq<Seq<char>>)
    ensures
        names_extend(names, lookup_seq(names, ss).0),
        lookup_seq(names, ss).1.len() == ss.len(),
        lookup_seq(names, ss).0.len() <= NO_ID ==> forall|k: int|
            0 <= k < ss.len() ==> {
                let fin = lookup_seq(names, ss).0;
                let id = #[trigger] lookup_seq(names, ss).1[k];
                id < fin.len() && fin[id as int] == ss[k]
            },
    decreases ss.len(),
{
    if ss.len() > 0 {
        let pre = ss.drop_last();
        let (n1, ids) = lookup_seq(names, pre);
        lemma_lookup_seq_extends(names, pre);
        lemma_lookup_extends(n1, ss.last());
        let (n2, id) = spec_lookup(n1, ss.last());
        let all = lookup_seq(names, ss).1;
        assert(all == ids.push(id));
        if n2.len() <= NO_ID {
            assert forall|k: int| 0 <= k < ss.len() implies ({
                let i = #[trigger] all[k];
                i < n2.len() && n2[i as int] == ss[k]
            }) by {
                if k < pre.len() {
                    assert(all[k] == ids[k]);
                    assert(pre[k] == ss[k]);
                    assert(n2[ids[k] as int] == n1[ids[k] as int]);
                }
            }
        }
    }
}

/// Lookups only ever lengthen the table.
proof fn lemma_lookup_seq_longer(names: Seq<Seq<char>>, ss: Seq<Seq<char>>)
    ensures
        lookup_seq(names, ss).0.len() >= names.len(),
    decreases ss.len(),
{
    if ss.len() > 0 {
        lemma_lookup_seq_longer(names, ss.drop_last());
    }
}

/// The ID that a lookup hands out for `s` gives `s` back however many
/// lookups follow it.
pub proof fn lemma_name_survives_lookups(names: Seq<Seq<char>>, s: Seq<char>, later: Seq<Seq<char>>)
    requires
        distinct_names(names),
        lookup_seq(spec_lookup(names, s).0, later).0.len() <= NO_ID,
    ensures
        ({
            let (n1, id) = spec_lookup(names, s);
            let fin = lookup_seq(n1, later).0;
            id < fin.len() && fin[id as int] == s
        }),
{
    let (n1, id) = spec_lookup(names, s);
    lemma_lookup_seq_longer(n1, later);
    lemma_lookup_grows(names, s);
    lemma_lookup_seq_ids(n1, later);
    let fin = lookup_seq(n1, later).0;
    assert(fin[id as int] == n1[id as int]);
}

} // verus!
