use crate::meta::{lookup, names_unique, PackageMetaList};
use version_compare::Cmp;
use vstd::prelude::*;

verus! {

/// How one version compares to another.
#[derive(Clone, Copy, Debug, PartialEq, Eq, Structural)]
pub enum VersionCmp {
    Eq,
    Ne,
    Lt,
    Le,
    Ge,
    Gt,
}

/// How version-compare orders two version strings; `None` where either
/// does not parse.
pub uninterp spec fn version_cmp_of(a: Seq<char>, b: Seq<char>) -> Option<VersionCmp>;

/// Relies on `version_compare::compare`: the order of two version strings,
/// or an error where either is not a version.
#[verifier::external_body]
fn compare_versions(a: &str, b: &str) -> (r: Option<VersionCmp>)
    ensures
        r == version_cmp_of(a@, b@),
{
    match version_compare::compare(a, b) {
        Ok(Cmp::Eq) => Some(VersionCmp::Eq),
        Ok(Cmp::Ne) => Some(VersionCmp::Ne),
        Ok(Cmp::Lt) => Some(VersionCmp::Lt),
        Ok(Cmp::Le) => Some(VersionCmp::Le),
        Ok(Cmp::Ge) => Some(VersionCmp::Ge),
        Ok(Cmp::Gt) => Some(VersionCmp::Gt),
        Err(()) => None,
    }
}

/// A package with its installed version and the manifest's version.
#[derive(Clone, Debug)]
pub struct VersionChange {
    pub name: String,
    pub from: String,
    pub to: String,
}

pub open spec fn change_view(c: VersionChange) -> (Seq<char>, Seq<char>, Seq<char>) {
    (c.name@, c.from@, c.to@)
}

pub open spec fn changes_view(cs: Seq<VersionChange>) -> Seq<(Seq<char>, Seq<char>, Seq<char>)> {
    cs.map_values(|c: VersionChange| change_view(c))
}

/// The manifest's version of a package; empty where the manifest lacks it.
pub open spec fn remote_version(remote: Seq<(Seq<char>, Seq<char>)>, name: Seq<char>) -> Seq<char> {
    match lookup(remote, name) {
        Some(v) => v,
        None => Seq::empty(),
    }
}

/// An installed package paired with the manifest's version of it.
pub open spec fn change_of(
    entry: (Seq<char>, Seq<char>),
    remote: Seq<(Seq<char>, Seq<char>)>,
) -> (Seq<char>, Seq<char>, Seq<char>) {
    (entry.0, entry.1, remote_version(remote, entry.0))
}

/// The installed packages whose comparison says the manifest's version is
/// newer, in the order of the installed list.
pub open spec fn spec_upgrades(
    local: Seq<(Seq<char>, Seq<char>)>,
    remote: Seq<(Seq<char>, Seq<char>)>,
    cmps: Seq<Option<VersionCmp>>,
) -> Seq<(Seq<char>, Seq<char>, Seq<char>)>
    decreases local.len(),
{
    if local.len() == 0 || cmps.len() == 0 {
        Seq::empty()
    } else {
        let prev = spec_upgrades(local.drop_last(), remote, cmps.drop_last());
        if cmps.last() == Some(VersionCmp::Lt) {
            prev.push(change_of(local.last(), remote))
        } else {
            prev
        }
    }
}

/// The installed packages whose versions could not be compared.
pub open spec fn spec_unparsable(
    local: Seq<(Seq<char>, Seq<char>)>,
    remote: Seq<(Seq<char>, Seq<char>)>,
    cmps: Seq<Option<VersionCmp>>,
) -> Seq<(Seq<char>, Seq<char>, Seq<char>)>
    decreases local.len(),
{
    if local.len() == 0 || cmps.len() == 0 {
        Seq::empty()
    } else {
        let prev = spec_unparsable(local.drop_last(), remote, cmps.drop_last());
        if cmps.last() is None {
            prev.push(change_of(local.last(), remote))
        } else {
            prev
        }
    }
}

/// The comparison of each installed version with the manifest's version.
pub open spec fn version_cmps(
    local: Seq<(Seq<char>, Seq<char>)>,
    remote: Seq<(Seq<char>, Seq<char>)>,
) -> Seq<Option<VersionCmp>> {
    Seq::new(local.len(), |i: int| version_cmp_of(local[i].1, remote_version(remote, local[i].0)))
}

/// The result of planning: the packages to upgrade, and those whose
/// versions could not be compared, which are reported and skipped.
pub struct UpgradePlan {
    pub upgrades: Vec<VersionChange>,
    pub unparsable: Vec<VersionChange>,
}

fn manifest_version(remote: &PackageMetaList, name: &str) -> (r: String)
    ensures
        r@ == remote_version(remote@, name@),
{
    match remote.get(name) {
        Some(v) => v.clone(),
        None => String::new(),
    }
}

/// Builds the plan from the comparison of each installed package's version
/// with the manifest's (`cmps[i]` for the `i`-th installed package).
pub fn plan_with(local: &PackageMetaList, remote: &PackageMetaList, cmps: &Vec<Option<VersionCmp>>) -> (r: UpgradePlan)
    requires
        cmps@.len() == local@.len(),
    ensures
        changes_view(r.upgrades@) == spec_upgrades(local@, remote@, cmps@),
        changes_view(r.unparsable@) == spec_unparsable(local@, remote@, cmps@),
{
    let mut upgrades: Vec<VersionChange> = Vec::new();
    let mut unparsable: Vec<VersionChange> = Vec::new();
    let n = local.len();
    let mut i: usize = 0;
    while i < n
        invariant
            n == local@.len(),
            cmps@.len() == n,
            0 <= i <= n,
            changes_view(upgrades@) == spec_upgrades(local@.subrange(0, i as int), remote@, cmps@.subrange(0, i as int)),
            changes_view(unparsable@) == spec_unparsable(local@.subrange(0, i as int), remote@, cmps@.subrange(0, i as int)),
        decreases n - i,
    {
        let entry = local.entry(i);
        let to = manifest_version(remote, entry.name.as_str());
        let change = VersionChange { name: entry.name.clone(), from: entry.version.clone(), to };
        let ghost l = local@.subrange(0, i + 1);
        let ghost c = cmps@.subrange(0, i + 1);
        assert(l.drop_last() =~= local@.subrange(0, i as int));
        assert(c.drop_last() =~= cmps@.subrange(0, i as int));
        assert(l.last() == local@[i as int]);
        assert(c.last() == cmps@[i as int]);
        assert(change_view(change) == change_of(local@[i as int], remote@));
        match cmps[i] {
            Some(VersionCmp::Lt) => {
                let ghost before = upgrades@;
                upgrades.push(change);
                assert(changes_view(upgrades@) =~= changes_view(before).push(change_view(change)));
            },
            None => {
                let ghost before = unparsable@;
                unparsable.push(change);
                assert(changes_view(unparsable@) =~= changes_view(before).push(change_view(change)));
            },
            _ => {},
        }
        i = i + 1;
    }
    assert(local@.subrange(0, n as int) =~= local@);
    assert(cmps@.subrange(0, n as int) =~= cmps@);
    UpgradePlan { upgrades, unparsable }
}

proof fn lemma_unique_prefix(local: Seq<(Seq<char>, Seq<char>)>)
    requires
        names_unique(local),
        local.len() > 0,
    ensures
        names_unique(local.drop_last()),
{
    let prev = local.drop_last();
    assert forall|i: int, j: int| 0 <= i < j < prev.len() implies #[trigger] prev[i].0 != #[trigger] prev[j].0 by {
        assert(prev[i] == local[i] && prev[j] == local[j]);
    }
}

proof fn lemma_upgrades_come_from(
    local: Seq<(Seq<char>, Seq<char>)>,
    remote: Seq<(Seq<char>, Seq<char>)>,
    cmps: Seq<Option<VersionCmp>>,
    k: int,
)
    requires
        cmps.len() == local.len(),
        0 <= k < spec_upgrades(local, remote, cmps).len(),
    ensures
        exists|j: int| 0 <= j < local.len() && spec_upgrades(local, remote, cmps)[k] == change_of(#[trigger] local[j], remote),
    decreases local.len(),
{
    let prev = spec_upgrades(local.drop_last(), remote, cmps.drop_last());
    if k < prev.len() {
        lemma_upgrades_come_from(local.drop_last(), remote, cmps.drop_last(), k);
        let j = choose|j: int| 0 <= j < local.drop_last().len() && prev[k] == change_of(#[trigger] local.drop_last()[j], remote);
        assert(local.drop_last()[j] == local[j]);
    } else {
        assert(spec_upgrades(local, remote, cmps)[k] == change_of(local[local.len() - 1], remote));
    }
}

/// An installed package is in the upgrade list exactly when the comparison
/// of its version with the manifest's says that the manifest's is newer: a
/// package whose version equals or exceeds the manifest's is left out.
pub proof fn lemma_upgrade_set(
    local: Seq<(Seq<char>, Seq<char>)>,
    remote: Seq<(Seq<char>, Seq<char>)>,
    cmps: Seq<Option<VersionCmp>>,
    i: int,
)
    requires
        names_unique(local),
        cmps.len() == local.len(),
        0 <= i < local.len(),
    ensures
        spec_upgrades(local, remote, cmps).contains(change_of(local[i], remote)) <==> cmps[i] == Some(VersionCmp::Lt),
    decreases local.len(),
{
    let n = local.len() - 1;
    let x = change_of(local[i], remote);
    let prev = spec_upgrades(local.drop_last(), remote, cmps.drop_last());
    let all = spec_upgrades(local, remote, cmps);
    lemma_unique_prefix(local);
    if i == n {
        if cmps[i] == Some(VersionCmp::Lt) {
            assert(all[prev.len() as int] == x);
        } else {
            assert(all == prev);
            if prev.contains(x) {
                let k = choose|k: int| 0 <= k < prev.len() && prev[k] == x;
                lemma_upgrades_come_from(local.drop_last(), remote, cmps.drop_last(), k);
                let j = choose|j: int| 0 <= j < local.drop_last().len() && prev[k] == change_of(#[trigger] local.drop_last()[j], remote);
                assert(local.drop_last()[j] == local[j]);
                assert(local[j].0 != local[i].0);
            }
        }
    } else {
        lemma_upgrade_set(local.drop_last(), remote, cmps.drop_last(), i);
        assert(local.drop_last()[i] == local[i]);
        assert(cmps.drop_last()[i] == cmps[i]);
        if cmps.last() == Some(VersionCmp::Lt) {
            let y = change_of(local.last(), remote);
            assert(local[n].0 != local[i].0);
            assert(all == prev.push(y));
            if prev.contains(x) {
                let k = choose|k: int| 0 <= k < prev.len() && prev[k] == x;
                assert(all[k] == x);
            }
            if all.contains(x) {
                let k = choose|k: int| 0 <= k < all.len() && all[k] == x;
                if k < prev.len() {
                    assert(prev[k] == x);
                }
            }
        } else {
            assert(all == prev);
        }
    }
}

/// The lower-case form of a text, as `str::to_lowercase` gives it.
pub uninterp spec fn lower_of(s: Seq<char>) -> Seq<char>;

/// Relies on `str::to_lowercase`: the result depends on the characters
/// alone, and an empty text stays empty.
#[verifier::external_body]
fn lowercase(s: &str) -> (r: String)
    ensures
        r@ == lower_of(s@),
        s@.len() == 0 ==> r@.len() == 0,
{
    s.to_lowercase()
}

/// The answers, in lower case, that confirm an upgrade.
pub open spec fn is_yes(answer: Seq<char>) -> bool {
    answer == ""@ || answer == "y"@ || answer == "yes"@
}

/// Whether an answer already in lower case confirms an upgrade: an empty
/// answer, `y` or `yes`.
pub fn accepts_answer(lowered: &str) -> (r: bool)
    ensures
        r == is_yes(lowered@),
{
    let a = lowered.to_owned();
    a == "".to_owned() || a == "y".to_owned() || a == "yes".to_owned()
}

/// Whether the line typed at the upgrade prompt confirms it, in any case.
pub fn confirms_upgrade(line: &str) -> (r: bool)
    ensures
        r == is_yes(lower_of(line@)),
{
    let lowered = lowercase(line);
    accepts_answer(lowered.as_str())
}

/// Plans an upgrade: each installed package is compared with the
/// manifest's version of it (empty where the manifest lacks it); those for
/// which the manifest's is newer are upgraded, and those whose versions do
/// not parse are set apart without stopping the rest.
pub fn plan_upgrades(local: &PackageMetaList, remote: &PackageMetaList) -> (r: UpgradePlan)
    ensures
        changes_view(r.upgrades@) == spec_upgrades(local@, remote@, version_cmps(local@, remote@)),
        changes_view(r.unparsable@) == spec_unparsable(local@, remote@, version_cmps(local@, remote@)),
{
    let n = local.len();
    let mut cmps: Vec<Option<VersionCmp>> = Vec::new();
    let mut i: usize = 0;
    while i < n
        invariant
            n == local@.len(),
            0 <= i <= n,
            cmps@ == version_cmps(local@, remote@).subrange(0, i as int),
        decreases n - i,
    {
        let entry = local.entry(i);
        let to = manifest_version(remote, entry.name.as_str());
        let c = compare_versions(entry.version.as_str(), to.as_str());
        cmps.push(c);
        assert(cmps@ =~= version_cmps(local@, remote@).subrange(0, i + 1));
        i = i + 1;
    }
    assert(cmps@ =~= version_cmps(local@, remote@));
    plan_with(local, remote, &cmps)
}

} // verus!
