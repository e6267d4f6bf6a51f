use vstd::prelude::*;

verus! {

/// A package's name and version, as its descriptor gives them.
#[derive(Clone, Debug)]
pub struct PackageMeta {
    pub name: String,
    pub version: String,
}

impl PackageMeta {
    pub fn new(name: &str, version: &str) -> (r: PackageMeta)
        ensures
            r.name@ == name@,
            r.version@ == version@,
    {
        PackageMeta { name: name.to_owned(), version: version.to_owned() }
    }
}

/// The index of the entry named `name`, or -1.
pub open spec fn find_entry(entries: Seq<(Seq<char>, Seq<char>)>, name: Seq<char>) -> int
    decreases entries.len(),
{
    if entries.len() == 0 {
        -1
    } else if entries.last().0 == name {
        entries.len() - 1
    } else {
        find_entry(entries.drop_last(), name)
    }
}

/// The version recorded for a name.
pub open spec fn lookup(entries: Seq<(Seq<char>, Seq<char>)>, name: Seq<char>) -> Option<Seq<char>> {
    let i = find_entry(entries, name);
    if i >= 0 {
        Some(entries[i].1)
    } else {
        None
    }
}

pub open spec fn names_unique(entries: Seq<(Seq<char>, Seq<char>)>) -> bool {
    forall|i: int, j: int|
        0 <= i < j < entries.len() ==> #[trigger] entries[i].0 != #[trigger] entries[j].0
}

/// The entries after recording `version` for `name`: an entry of that name
/// takes the new version in its place, else the pair is appended.
pub open spec fn spec_insert(
    entries: Seq<(Seq<char>, Seq<char>)>,
    name: Seq<char>,
    version: Seq<char>,
) -> Seq<(Seq<char>, Seq<char>)> {
    let i = find_entry(entries, name);
    if i >= 0 {
        entries.update(i, (name, version))
    } else {
        entries.push((name, version))
    }
}

pub proof fn lemma_find_entry(entries: Seq<(Seq<char>, Seq<char>)>, name: Seq<char>)
    ensures
        -1 <= find_entry(entries, name) < entries.len(),
        find_entry(entries, name) >= 0 ==> entries[find_entry(entries, name)].0 == name,
        find_entry(entries, name) == -1 ==> forall|j: int| 0 <= j < entries.len() ==> #[trigger] entries[j].0 != name,
    decreases entries.len(),
{
    if entries.len() > 0 {
        lemma_find_entry(entries.drop_last(), name);
        if entries.last().0 != name && find_entry(entries, name) == -1 {
            assert forall|j: int| 0 <= j < entries.len() implies #[trigger] entries[j].0 != name by {
                if j < entries.len() - 1 {
                    assert(entries[j] == entries.drop_last()[j]);
                }
            }
        }
    }
}

pub proof fn lemma_find_unique(entries: Seq<(Seq<char>, Seq<char>)>, name: Seq<char>, k: int)
    requires
        names_unique(entries),
        0 <= k < entries.len(),
        entries[k].0 == name,
    ensures
        find_entry(entries, name) == k,
    decreases entries.len(),
{
    if k < entries.len() - 1 {
        assert(entries.last().0 != name);
        let prev = entries.drop_last();
        assert(prev[k] == entries[k]);
        assert(names_unique(prev)) by {
            assert forall|i: int, j: int| 0 <= i < j < prev.len() implies #[trigger] prev[i].0 != #[trigger] prev[j].0 by {
                assert(prev[i] == entries[i] && prev[j] == entries[j]);
            }
        }
        lemma_find_unique(prev, name, k);
    }
}

/// A name-to-version mapping; each name appears once, in the order in which
/// names were first recorded.
pub struct PackageMetaList {
    packages: Vec<PackageMeta>,
}

impl View for PackageMetaList {
    type V = Seq<(Seq<char>, Seq<char>)>;

    closed spec fn view(&self) -> Seq<(Seq<char>, Seq<char>)> {
        self.packages@.map_values(|p: PackageMeta| (p.name@, p.version@))
    }
}

impl PackageMetaList {
    pub open spec fn wf(&self) -> bool {
        names_unique(self@)
    }

    pub fn new() -> (r: PackageMetaList)
        ensures
            r@ == Seq::<(Seq<char>, Seq<char>)>::empty(),
            r.wf(),
    {
        let r = PackageMetaList { packages: Vec::new() };
        assert(r@ =~= Seq::<(Seq<char>, Seq<char>)>::empty());
        r
    }

    pub fn len(&self) -> (r: usize)
        ensures
            r == self@.len(),
    {
        self.packages.len()
    }

    /// The entry at a position.
    pub fn entry(&self, i: usize) -> (r: &PackageMeta)
        requires
            i < self@.len(),
        ensures
            (r.name@, r.version@) == self@[i as int],
    {
        &self.packages[i]
    }

    fn position(&self, name: &str) -> (r: Option<usize>)
        ensures
            r matches Some(i) ==> find_entry(self@, name@) == i && i < self@.len(),
            r is None ==> find_entry(self@, name@) == -1,
    {
        let key = name.to_owned();
        let mut i: usize = self.packages.len();
        assert(self@.subrange(0, i as int) =~= self@);
        while i > 0
            invariant
                i <= self@.len(),
                self@.len() == self.packages@.len(),
                find_entry(self@, name@) == find_entry(self@.subrange(0, i as int), name@),
                key@ == name@,
            decreases i,
        {
            let prefix = Ghost(self@.subrange(0, i as int));
            assert(prefix@.last() == self@[i - 1]);
            if self.packages[i - 1].name == key {
                return Some(i - 1);
            }
            assert(prefix@.drop_last() =~= self@.subrange(0, i - 1));
            i = i - 1;
        }
        None
    }

    /// The version recorded for a name.
    pub fn get(&self, name: &str) -> (r: Option<&String>)
        ensures
            r matches Some(v) ==> lookup(self@, name@) == Some(v@),
            r is None ==> lookup(self@, name@) is None,
    {
        proof {
            lemma_find_entry(self@, name@);
        }
        match self.position(name) {
            Some(i) => {
                assert(self@[i as int] == (self.packages@[i as int].name@, self.packages@[i as int].version@));
                Some(&self.packages[i].version)
            },
            None => None,
        }
    }

    /// Records `version` for `name`, replacing an earlier version of it.
    pub fn insert(&mut self, name: &str, version: &str)
        requires
            old(self).wf(),
        ensures
            final(self).wf(),
            final(self)@ == spec_insert(old(self)@, name@, version@),
            lookup(final(self)@, name@) == Some(version@),
    {
        proof {
            lemma_find_entry(self@, name@);
        }
        let entry = PackageMeta::new(name, version);
        match self.position(name) {
            Some(i) => {
                self.packages.set(i, entry);
            },
            None => {
                self.packages.push(entry);
            },
        }
        let ghost old_e = old(self)@;
        let ghost k = find_entry(old_e, name@);
        assert(self@ =~= spec_insert(old_e, name@, version@));
        proof {
            let e = self@;
            if k == -1 {
                assert forall|i: int, j: int| 0 <= i < j < e.len() implies #[trigger] e[i].0 != #[trigger] e[j].0 by {
                    if j < e.len() - 1 {
                        assert(e[i] == old_e[i] && e[j] == old_e[j]);
                    } else {
                        assert(old_e[i].0 != name@);
                    }
                }
                lemma_find_unique(e, name@, e.len() - 1);
            } else {
                assert forall|i: int, j: int| 0 <= i < j < e.len() implies #[trigger] e[i].0 != #[trigger] e[j].0 by {
                    assert(e[i].0 == old_e[i].0 && e[j].0 == old_e[j].0);
                }
                lemma_find_unique(e, name@, k);
            }
        }
    }
}

} // verus!
