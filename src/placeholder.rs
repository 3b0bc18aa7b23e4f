//! The metadata of a placeholder package: the manifest-level shape of a
//! package that is left out of the build but must still exist.
use crate::manifest::PackageId;
use crate::plan::texts;
use crate::version::{Version, VersionModel};
use vstd::prelude::*;

verus! {

/// The kind of a resolved dependency edge.
#[derive(Clone, Copy, Debug, PartialEq, Eq, Structural)]
pub enum DepKind {
    Normal,
    Development,
    Build,
    Unknown,
}

/// A dependency as the package's manifest declares it.
#[derive(Clone, Debug)]
pub struct DeclaredDep {
    /// The package name of the dependency.
    pub name: String,
    /// The version requirement, as text.
    pub req: String,
    pub uses_default_features: bool,
    pub features: Vec<String>,
}

/// A dependency edge of the resolved graph, to the package at index `pkg`
/// of the package set.
#[derive(Clone, Debug)]
pub struct ResolvedDep {
    pub pkg: usize,
    pub kinds: Vec<DepKind>,
}

/// A package of the full set, with its declared dependencies, its declared
/// feature names and its resolved dependency edges.
#[derive(Clone, Debug)]
pub struct PackageInfo {
    pub id: PackageId,
    pub dependencies: Vec<DeclaredDep>,
    pub features: Vec<String>,
    pub resolved: Vec<ResolvedDep>,
}

/// One dependency of a placeholder's manifest.
#[derive(Clone, Debug)]
pub struct PlaceholderDependency {
    pub name: String,
    pub version: String,
    pub default_features: bool,
    pub features: Vec<String>,
}

/// What the placeholder manifest and stub source are rendered from.
#[derive(Clone, Debug)]
pub struct PlaceholderCrate {
    pub name: String,
    pub version: Version,
    pub dependencies: Vec<PlaceholderDependency>,
    pub features: Vec<String>,
}

/// A resolved edge of build or normal kind whose target package is not
/// among the declared dependencies: the two sources of graph data disagree.
#[derive(Clone, Debug)]
pub struct MissingDependency {
    /// The package name of the edge's target.
    pub dependency: String,
    /// The package whose placeholder was asked for.
    pub package: PackageId,
}

pub struct DependencyModel {
    pub name: Seq<char>,
    pub version: Seq<char>,
    pub default_features: bool,
    pub features: Seq<Seq<char>>,
}

impl View for PlaceholderDependency {
    type V = DependencyModel;

    open spec fn view(&self) -> DependencyModel {
        DependencyModel {
            name: self.name@,
            version: self.version@,
            default_features: self.default_features,
            features: texts(self.features@),
        }
    }
}

pub open spec fn dep_views(s: Seq<PlaceholderDependency>) -> Seq<DependencyModel> {
    s.map_values(|d: PlaceholderDependency| d@)
}

/// Whether an edge is used when building or running: of build or normal kind.
pub open spec fn is_runtime_edge(e: ResolvedDep) -> bool {
    exists|k: int| 0 <= k < e.kinds.len() && (e.kinds[k] == DepKind::Build || e.kinds[k] == DepKind::Normal)
}

/// Whether `j` is the first declared dependency named `nm`.
pub open spec fn is_first_named(decl: Seq<DeclaredDep>, nm: Seq<char>, j: int) -> bool {
    0 <= j < decl.len() && decl[j].name@ == nm && forall|l: int| 0 <= l < j ==> decl[l].name@ != nm
}

/// The first declared dependency named `nm`, if any.
pub open spec fn first_named(decl: Seq<DeclaredDep>, nm: Seq<char>) -> Option<DeclaredDep> {
    if exists|j: int| is_first_named(decl, nm, j) {
        Some(decl[choose|j: int| is_first_named(decl, nm, j)])
    } else {
        None
    }
}

/// The placeholder dependency made from a declared one.
pub open spec fn dep_model(nm: Seq<char>, d: DeclaredDep) -> DependencyModel {
    DependencyModel {
        name: nm,
        version: d.req@,
        default_features: d.uses_default_features,
        features: texts(d.features@),
    }
}

/// The placeholder dependencies for the first `n` resolved edges of a
/// package, in edge order, or the package name of the first runtime edge
/// whose target is not declared.
pub open spec fn placeholder_deps(pkgs: Seq<PackageInfo>, p: PackageInfo, n: nat) -> Result<
    Seq<DependencyModel>,
    Seq<char>,
>
    decreases n,
{
    if n == 0 {
        Ok(Seq::empty())
    } else {
        match placeholder_deps(pkgs, p, (n - 1) as nat) {
            Err(e) => Err(e),
            Ok(s) => {
                let e = p.resolved@[n - 1];
                if !is_runtime_edge(e) {
                    Ok(s)
                } else {
                    let nm = pkgs[e.pkg as int].id.name@;
                    match first_named(p.dependencies@, nm) {
                        Some(d) => Ok(s.push(dep_model(nm, d))),
                        None => Err(nm),
                    }
                }
            },
        }
    }
}

/// Whether every resolved edge of every package targets a package of the set.
pub open spec fn edges_in_set(pkgs: Seq<PackageInfo>) -> bool {
    forall|i: int, k: int|
        0 <= i < pkgs.len() && 0 <= k < pkgs[i].resolved.len() ==> #[trigger] pkgs[i].resolved@[k].pkg
            < pkgs.len()
}

/// Lexicographic order of texts, by character.
pub open spec fn text_lt(a: Seq<char>, b: Seq<char>) -> bool {
    exists|k: int|
        0 <= k <= a.len() && k < b.len() && a.take(k) == b.take(k) && (k == a.len() || a[k] < b[k])
}

/// Whether texts stand in non-decreasing lexicographic order.
pub open spec fn sorted_texts(s: Seq<Seq<char>>) -> bool {
    forall|i: int, j: int| 0 <= i < j < s.len() ==> !text_lt(#[trigger] s[j], #[trigger] s[i])
}

/// Relies on `slice::sort_unstable` over `String`, whose order compares
/// the UTF-8 bytes and so the characters lexicographically: the same
/// texts, in non-decreasing order.
#[verifier::external_body]
pub(crate) fn sort_texts(v: &mut Vec<String>)
    ensures
        texts(final(v)@).to_multiset() == texts(old(v)@).to_multiset(),
        sorted_texts(texts(final(v)@)),
{
    v.sort_unstable()
}

/// A copy of a list of texts.
pub fn copy_texts(v: &Vec<String>) -> (r: Vec<String>)
    ensures
        texts(r@) == texts(v@),
{
    let mut r: Vec<String> = Vec::new();
    let mut i: usize = 0;
    while i < v.len()
        invariant
            i <= v.len(),
            texts(r@) == texts(v@.take(i as int)),
        decreases v.len() - i,
    {
        r.push(v[i].clone());
        proof {
            assert(v@.take(i + 1) =~= v@.take(i as int).push(v@[i as int]));
            assert(texts(v@.take(i + 1)) =~= texts(v@.take(i as int)).push(v@[i as int]@));
            assert(texts(r@) =~= texts(v@.take(i + 1)));
        }
        i += 1;
    }
    assert(v@.take(v.len() as int) =~= v@);
    r
}

fn runtime_edge(e: &ResolvedDep) -> (r: bool)
    ensures
        r == is_runtime_edge(*e),
{
    let mut k: usize = 0;
    while k < e.kinds.len()
        invariant
            k <= e.kinds.len(),
            forall|l: int| 0 <= l < k ==> !(e.kinds[l] == DepKind::Build || e.kinds[l] == DepKind::Normal),
        decreases e.kinds.len() - k,
    {
        if e.kinds[k] == DepKind::Build || e.kinds[k] == DepKind::Normal {
            return true;
        }
        k += 1;
    }
    false
}

fn find_declared(decl: &Vec<DeclaredDep>, nm: &String) -> (r: Option<usize>)
    ensures
        match r {
            Some(j) => is_first_named(decl@, nm@, j as int) && first_named(decl@, nm@) == Some(decl@[j as int]),
            None => first_named(decl@, nm@).is_none(),
        },
{
    let mut j: usize = 0;
    while j < decl.len()
        invariant
            j <= decl.len(),
            forall|l: int| 0 <= l < j ==> decl@[l].name@ != nm@,
        decreases decl.len() - j,
    {
        if decl[j].name == *nm {
            assert(is_first_named(decl@, nm@, j as int));
            let ghost c = choose|c: int| is_first_named(decl@, nm@, c);
            assert(c == j as int) by {
                if c < j {
                } else if c > j {
                    assert(decl@[j as int].name@ == nm@);
                }
            }
            return Some(j);
        }
        j += 1;
    }
    None
}

/// Derives the placeholder for the package at `index`.
///
/// Its dependencies are the package's resolved edges of build or normal
/// kind, in edge order, each under its target's package name and with the
/// requirement, default-features flag and features of the first declared
/// dependency of that name; development-only edges are left out. Its
/// features are the package's declared feature names, sorted. The error
/// names the first such edge whose target is not declared.
pub fn placeholder_crate_metadata(index: usize, packages: &Vec<PackageInfo>) -> (r: Result<
    PlaceholderCrate,
    MissingDependency,
>)
    requires
        index < packages.len(),
        edges_in_set(packages@),
    ensures
        match (r, placeholder_deps(packages@, packages@[index as int], packages@[index as int].resolved.len() as nat)) {
            (Ok(c), Ok(deps)) => {
                &&& c.name@ == packages@[index as int].id.name@
                &&& c.version@ == packages@[index as int].id.version@
                &&& dep_views(c.dependencies@) == deps
                &&& texts(c.features@).to_multiset() == texts(packages@[index as int].features@).to_multiset()
                &&& sorted_texts(texts(c.features@))
            },
            (Err(e), Err(nm)) => e.dependency@ == nm && e.package@ == packages@[index as int].id@,
            _ => false,
        },
{
    let package = &packages[index];
    let mut deps: Vec<PlaceholderDependency> = Vec::new();
    let mut i: usize = 0;
    assert(dep_views(deps@) =~= Seq::<DependencyModel>::empty());
    while i < package.resolved.len()
        invariant
            index < packages.len(),
            package == packages@[index as int],
            edges_in_set(packages@),
            i <= package.resolved.len(),
            placeholder_deps(packages@, *package, i as nat) == Ok::<Seq<DependencyModel>, Seq<char>>(dep_views(deps@)),
        decreases package.resolved.len() - i,
    {
        let e = &package.resolved[i];
        proof {
            assert(packages@[index as int].resolved@[i as int].pkg < packages.len());
        }
        if runtime_edge(e) {
            let nm = &packages[e.pkg].id.name;
            match find_declared(&package.dependencies, nm) {
                Some(j) => {
                    let d = &package.dependencies[j];
                    let ghost before = deps@;
                    deps.push(
                        PlaceholderDependency {
                            name: nm.clone(),
                            version: d.req.clone(),
                            default_features: d.uses_default_features,
                            features: copy_texts(&d.features),
                        },
                    );
                    proof {
                        assert(dep_views(deps@) =~= dep_views(before).push(dep_model(nm@, *d)));
                    }
                },
                None => {
                    proof {
                        lemma_deps_err_stays(packages@, *package, (i + 1) as nat, package.resolved.len() as nat);
                    }
                    return Err(MissingDependency { dependency: nm.clone(), package: package.id.copy() });
                },
            }
        }
        i += 1;
    }
    let mut features = copy_texts(&package.features);
    sort_texts(&mut features);
    Ok(
        PlaceholderCrate {
            name: package.id.name.clone(),
            version: package.id.version.copy(),
            dependencies: deps,
            features,
        },
    )
}

/// Once an edge fails, the later edges keep the same failure.
proof fn lemma_deps_err_stays(pkgs: Seq<PackageInfo>, p: PackageInfo, n: nat, m: nat)
    requires
        n <= m,
        placeholder_deps(pkgs, p, n).is_err(),
    ensures
        placeholder_deps(pkgs, p, m) == placeholder_deps(pkgs, p, n),
    decreases m - n,
{
    if n < m {
        lemma_deps_err_stays(pkgs, p, n, (m - 1) as nat);
    }
}

} // verus!
