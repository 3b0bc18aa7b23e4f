use crate::manifest::{manifest_identity, package_id_from_manifest, vendor_dir_of, PackageId, PackageIdModel};
use vstd::prelude::*;

verus! {

/// The view of each string in a sequence.
pub open spec fn texts(s: Seq<String>) -> Seq<Seq<char>> {
    s.map_values(|x: String| x@)
}

/// The view of each identity in a sequence.
pub open spec fn ids(s: Seq<PackageId>) -> Seq<PackageIdModel> {
    s.map_values(|x: PackageId| x@)
}

/// Whether a text is the vendor directory of one of the packages.
pub open spec fn claimed(pkgs: Seq<PackageIdModel>, d: Seq<char>) -> bool {
    exists|i: int| 0 <= i < pkgs.len() && vendor_dir_of(pkgs[i]) == d
}

/// Whether a package is left out of the real build: its name is excluded by
/// configuration, or the feature-resolved graph does not reach it.
pub open spec fn removed_spec(
    p: PackageIdModel,
    remove_crates: Seq<Seq<char>>,
    resolved: Seq<PackageIdModel>,
) -> bool {
    remove_crates.contains(p.name) || !resolved.contains(p)
}

/// Whether patches are skipped for a package name: `None` applies all
/// patches, an empty list skips all, a non-empty list skips the names in it.
pub open spec fn skip_spec(no_patches: Option<Seq<Seq<char>>>, name: Seq<char>) -> bool {
    match no_patches {
        None => false,
        Some(v) => v.len() == 0 || v.contains(name),
    }
}

/// What is done for one package.
#[derive(Clone, Copy, Debug, PartialEq, Eq, Structural)]
pub enum Step {
    /// The vendor directory already declares the package's identity.
    Skip,
    /// The package is removed: a placeholder is synthesized in its directory.
    Placeholder,
    /// The archive is fetched, then the patches applied unless `patch` is false.
    Fetch { patch: bool },
}

/// The step for a package, given the identity that its vendor directory
/// currently declares (if any).
pub open spec fn plan_step(
    p: PackageIdModel,
    vendored: Option<PackageIdModel>,
    removed: bool,
    skip: bool,
) -> Step {
    if vendored == Some(p) {
        Step::Skip
    } else if removed {
        Step::Placeholder
    } else {
        Step::Fetch { patch: !skip }
    }
}

/// The identity that a manifest text, when there is one, declares.
pub open spec fn declared(m: Option<String>) -> Option<PackageIdModel> {
    match m {
        Some(t) => manifest_identity(t@),
        None => None,
    }
}

/// The work of one reconciliation run: a step per package, in the order of
/// the package set, then the directories to delete.
pub struct Plan {
    pub steps: Vec<Step>,
    pub delete: Vec<String>,
}

/// Whether a list of names holds a given name.
pub fn contains_text(v: &Vec<String>, s: &String) -> (r: bool)
    ensures
        r == texts(v@).contains(s@),
{
    let mut i: usize = 0;
    while i < v.len()
        invariant
            i <= v.len(),
            forall|k: int| 0 <= k < i ==> texts(v@)[k] != s@,
        decreases v.len() - i,
    {
        if v[i] == *s {
            assert(texts(v@)[i as int] == s@);
            return true;
        }
        i += 1;
    }
    false
}

/// Whether a list of identities holds a given identity.
pub fn contains_id(v: &Vec<PackageId>, p: &PackageId) -> (r: bool)
    ensures
        r == ids(v@).contains(p@),
{
    let mut i: usize = 0;
    while i < v.len()
        invariant
            i <= v.len(),
            forall|k: int| 0 <= k < i ==> ids(v@)[k] != p@,
        decreases v.len() - i,
    {
        if v[i].same_as(p) {
            assert(ids(v@)[i as int] == p@);
            return true;
        }
        i += 1;
    }
    false
}

/// The set of package identities that the feature-resolved dependency
/// graph reaches, each once, in the order first met.
pub fn get_guppy_resolved_package_ids(dependencies: &Vec<PackageId>) -> (r: Vec<PackageId>)
    ensures
        forall|p: PackageIdModel| ids(r@).contains(p) <==> ids(dependencies@).contains(p),
        ids(r@).no_duplicates(),
{
    let mut r: Vec<PackageId> = Vec::new();
    let mut i: usize = 0;
    while i < dependencies.len()
        invariant
            i <= dependencies.len(),
            forall|p: PackageIdModel| ids(r@).contains(p) <==> ids(dependencies@.take(i as int)).contains(p),
            ids(r@).no_duplicates(),
        decreases dependencies.len() - i,
    {
        let d = &dependencies[i];
        let ghost before = r@;
        if !contains_id(&r, d) {
            r.push(d.copy());
            proof {
                assert(ids(r@) =~= ids(before).push(d@));
            }
        }
        proof {
            assert(dependencies@.take(i + 1) =~= dependencies@.take(i as int).push(*d));
            assert(ids(dependencies@.take(i + 1)) =~= ids(dependencies@.take(i as int)).push(d@));
            assert forall|p: PackageIdModel| ids(r@).contains(p) <==> ids(dependencies@.take(i + 1)).contains(p) by {
                lemma_push_contains_id(ids(dependencies@.take(i as int)), d@, p);
                if r@.len() > before.len() {
                    lemma_push_contains_id(ids(before), d@, p);
                }
            }
        }
        i += 1;
    }
    assert(dependencies@.take(dependencies.len() as int) =~= dependencies@);
    r
}

proof fn lemma_push_contains_id(s: Seq<PackageIdModel>, a: PackageIdModel, x: PackageIdModel)
    ensures
        s.push(a).contains(x) == (s.contains(x) || x == a),
{
    if s.contains(x) {
        let k = choose|k: int| 0 <= k < s.len() && s[k] == x;
        assert(s.push(a)[k] == x);
    }
    if x == a {
        assert(s.push(a)[s.len() as int] == x);
    }
    if s.push(a).contains(x) && x != a {
        let k = choose|k: int| 0 <= k < s.push(a).len() && s.push(a)[k] == x;
        assert(s[k] == x);
    }
}

/// Whether a package is removed from the real build.
pub fn is_removed(p: &PackageId, remove_crates: &Vec<String>, resolved: &Vec<PackageId>) -> (r: bool)
    ensures
        r == removed_spec(p@, texts(remove_crates@), ids(resolved@)),
{
    contains_text(remove_crates, &p.name) || !contains_id(resolved, p)
}

/// Whether patches are skipped for the named package.
pub fn skip_patches(no_patches: &Option<Vec<String>>, name: &String) -> (r: bool)
    ensures
        r == skip_spec(
            match no_patches {
                Some(v) => Some(texts(v@)),
                None => None,
            },
            name@,
        ),
{
    match no_patches {
        None => false,
        Some(v) => v.len() == 0 || contains_text(v, name),
    }
}

/// Whether a name is the name of one of the packages.
pub open spec fn is_package_name(pkgs: Seq<PackageIdModel>, n: Seq<char>) -> bool {
    exists|j: int| 0 <= j < pkgs.len() && pkgs[j].name == n
}

fn has_package_named(packages: &Vec<PackageId>, n: &String) -> (r: bool)
    ensures
        r == is_package_name(ids(packages@), n@),
{
    let mut j: usize = 0;
    while j < packages.len()
        invariant
            j <= packages.len(),
            forall|k: int| 0 <= k < j ==> ids(packages@)[k].name != n@,
        decreases packages.len() - j,
    {
        if packages[j].name == *n {
            assert(ids(packages@)[j as int].name == n@);
            return true;
        }
        j += 1;
    }
    false
}

/// Checks, before any work, that every package named in the per-package
/// configuration is in the package set; the error carries the first name
/// that is not.
pub fn check_config(config_names: &Vec<String>, packages: &Vec<PackageId>) -> (r: Result<(), String>)
    ensures
        r.is_ok() <==> forall|i: int|
            0 <= i < config_names.len() ==> is_package_name(ids(packages@), #[trigger] texts(config_names@)[i]),
        r matches Err(n) ==> texts(config_names@).contains(n@) && !is_package_name(ids(packages@), n@),
{
    let mut i: usize = 0;
    while i < config_names.len()
        invariant
            i <= config_names.len(),
            forall|k: int| 0 <= k < i ==> is_package_name(ids(packages@), #[trigger] texts(config_names@)[k]),
        decreases config_names.len() - i,
    {
        if !has_package_named(packages, &config_names[i]) {
            let n = config_names[i].clone();
            assert(texts(config_names@)[i as int] == n@);
            return Err(n);
        }
        i += 1;
    }
    Ok(())
}

/// The identities that the packages' manifests declare, one per package.
pub fn read_manifests(manifests: &Vec<Option<String>>) -> (r: Vec<Option<PackageId>>)
    ensures
        r.len() == manifests.len(),
        forall|i: int| 0 <= i < r.len() ==> opt_id(#[trigger] r[i]) == declared(manifests[i]),
{
    let mut r: Vec<Option<PackageId>> = Vec::new();
    let mut i: usize = 0;
    while i < manifests.len()
        invariant
            i <= manifests.len(),
            r.len() == i,
            forall|k: int| 0 <= k < i ==> opt_id(#[trigger] r[k]) == declared(manifests[k]),
        decreases manifests.len() - i,
    {
        let m = match &manifests[i] {
            Some(t) => package_id_from_manifest(t.as_str()),
            None => None,
        };
        r.push(m);
        i += 1;
    }
    r
}

pub open spec fn opt_id(o: Option<PackageId>) -> Option<PackageIdModel> {
    match o {
        Some(x) => Some(x@),
        None => None,
    }
}

pub open spec fn opt_texts(o: Option<Vec<String>>) -> Option<Seq<Seq<char>>> {
    match o {
        Some(v) => Some(texts(v@)),
        None => None,
    }
}

proof fn lemma_push_contains(s: Seq<Seq<char>>, a: Seq<char>, x: Seq<char>)
    ensures
        s.push(a).contains(x) == (s.contains(x) || x == a),
{
    if s.contains(x) {
        let k = choose|k: int| 0 <= k < s.len() && s[k] == x;
        assert(s.push(a)[k] == x);
    }
    if x == a {
        assert(s.push(a)[s.len() as int] == x);
    }
    if s.push(a).contains(x) && x != a {
        let k = choose|k: int| 0 <= k < s.push(a).len() && s.push(a)[k] == x;
        assert(s[k] == x);
    }
}

/// Plans a reconciliation run.
///
/// `manifests[i]` is the text of the manifest found in the vendor directory
/// of `packages[i]`, or `None` where there is none to read; `existing` lists
/// the directories now under the vendor root. A package whose directory
/// already declares its identity is skipped; otherwise a removed package
/// gets a placeholder and a kept one is fetched, then patched unless
/// `no_patches` says otherwise. Every existing directory that no package
/// claims is deleted, each once.
pub fn plan_vendor(
    packages: &Vec<PackageId>,
    manifests: &Vec<Option<String>>,
    existing: &Vec<String>,
    remove_crates: &Vec<String>,
    resolved: &Vec<PackageId>,
    no_patches: &Option<Vec<String>>,
) -> (r: Plan)
    requires
        manifests.len() == packages.len(),
    ensures
        r.steps.len() == packages.len(),
        forall|i: int|
            0 <= i < packages.len() ==> #[trigger] r.steps[i] == plan_step(
                packages[i]@,
                declared(manifests[i]),
                removed_spec(packages[i]@, texts(remove_crates@), ids(resolved@)),
                skip_spec(opt_texts(*no_patches), packages[i].name@),
            ),
        forall|d: Seq<char>|
            texts(r.delete@).contains(d) <==> texts(existing@).contains(d) && !claimed(
                ids(packages@),
                d,
            ),
        texts(r.delete@).no_duplicates(),
{
    let vendored = read_manifests(manifests);
    let mut dirs: Vec<String> = Vec::new();
    let mut steps: Vec<Step> = Vec::new();
    let mut i: usize = 0;
    while i < packages.len()
        invariant
            i <= packages.len(),
            vendored.len() == packages.len(),
            manifests.len() == packages.len(),
            forall|k: int| 0 <= k < vendored.len() ==> opt_id(#[trigger] vendored[k]) == declared(manifests[k]),
            dirs.len() == i,
            steps.len() == i,
            forall|k: int| 0 <= k < i ==> #[trigger] texts(dirs@)[k] == vendor_dir_of(ids(packages@)[k]),
            forall|k: int|
                0 <= k < i ==> #[trigger] steps[k] == plan_step(
                    packages[k]@,
                    declared(manifests[k]),
                    removed_spec(packages[k]@, texts(remove_crates@), ids(resolved@)),
                    skip_spec(opt_texts(*no_patches), packages[k].name@),
                ),
        decreases packages.len() - i,
    {
        let p = &packages[i];
        let ghost old_dirs = dirs@;
        dirs.push(p.vendor_dir());
        proof {
            assert(texts(dirs@) =~= texts(old_dirs).push(vendor_dir_of(packages[i as int]@)));
        }
        let already = match &vendored[i] {
            Some(v) => v.same_as(p),
            None => false,
        };
        let step = if already {
            Step::Skip
        } else if is_removed(p, remove_crates, resolved) {
            Step::Placeholder
        } else {
            Step::Fetch { patch: !skip_patches(no_patches, &p.name) }
        };
        steps.push(step);
        proof {
            assert(texts(dirs@)[i as int] == vendor_dir_of(ids(packages@)[i as int]));
        }
        i += 1;
    }
    let mut delete: Vec<String> = Vec::new();
    let mut j: usize = 0;
    while j < existing.len()
        invariant
            j <= existing.len(),
            dirs.len() == packages.len(),
            forall|k: int| 0 <= k < dirs.len() ==> #[trigger] texts(dirs@)[k] == vendor_dir_of(ids(packages@)[k]),
            forall|d: Seq<char>|
                texts(delete@).contains(d) <==> texts(existing@.take(j as int)).contains(d) && !claimed(
                    ids(packages@),
                    d,
                ),
            texts(delete@).no_duplicates(),
        decreases existing.len() - j,
    {
        let d = &existing[j];
        let is_claimed = contains_text(&dirs, d);
        proof {
            if is_claimed {
                let k = choose|k: int| 0 <= k < texts(dirs@).len() && texts(dirs@)[k] == d@;
                assert(vendor_dir_of(ids(packages@)[k]) == d@);
            } else {
                assert forall|k: int| 0 <= k < ids(packages@).len() implies vendor_dir_of(ids(packages@)[k]) != d@ by {
                    assert(texts(dirs@)[k] == vendor_dir_of(ids(packages@)[k]));
                }
            }
        }
        let ghost before = delete@;
        if !is_claimed && !contains_text(&delete, d) {
            delete.push(d.clone());
            proof {
                assert(texts(delete@) =~= texts(before).push(d@));
            }
        }
        proof {
            assert(existing@.take(j + 1) =~= existing@.take(j as int).push(existing@[j as int]));
            assert(texts(existing@.take(j + 1)) =~= texts(existing@.take(j as int)).push(d@));
            assert forall|x: Seq<char>|
                texts(delete@).contains(x) <==> texts(existing@.take(j + 1)).contains(x) && !claimed(
                    ids(packages@),
                    x,
                ) by {
                lemma_push_contains(texts(existing@.take(j as int)), d@, x);
                if delete@.len() > before.len() {
                    lemma_push_contains(texts(before), d@, x);
                }
            }
        }
        j += 1;
    }
    proof {
        assert(existing@.take(existing.len() as int) =~= existing@);
    }
    Plan { steps, delete }
}

} // verus!
