//! A model of the vendor tree and of what carrying out a plan does to it,
//! with the laws that a run establishes.
use crate::manifest::{vendor_dir_of, PackageIdModel};
use crate::plan::{claimed, plan_step, Step};
use vstd::prelude::*;

verus! {

/// The vendor tree, seen as the identity that the manifest of each top-level
/// directory declares (`None` where it declares none that can be read).
pub type Tree = Map<Seq<char>, Option<PackageIdModel>>;

/// The identity that a package's vendor directory declares now, if any.
pub open spec fn seen(tree: Tree, p: PackageIdModel) -> Option<PackageIdModel> {
    if tree.contains_key(vendor_dir_of(p)) {
        tree[vendor_dir_of(p)]
    } else {
        None
    }
}

/// The tree after the first `n` steps. A fetched archive and a synthesized
/// placeholder both leave a directory whose manifest declares the package's
/// own identity; a skipped package leaves its directory as it was.
pub open spec fn apply_steps(tree: Tree, pkgs: Seq<PackageIdModel>, steps: Seq<Step>, n: nat) -> Tree
    decreases n,
{
    if n == 0 {
        tree
    } else {
        let t = apply_steps(tree, pkgs, steps, (n - 1) as nat);
        if steps[n - 1] == Step::Skip {
            t
        } else {
            t.insert(vendor_dir_of(pkgs[n - 1]), Some(pkgs[n - 1]))
        }
    }
}

/// The tree after all steps and the deletions.
pub open spec fn after_run(
    tree: Tree,
    pkgs: Seq<PackageIdModel>,
    steps: Seq<Step>,
    delete: Set<Seq<char>>,
) -> Tree {
    apply_steps(tree, pkgs, steps, pkgs.len()).remove_keys(delete)
}

/// No two distinct packages share a vendor directory name.
pub open spec fn distinct_dirs(pkgs: Seq<PackageIdModel>) -> bool {
    forall|i: int, j: int|
        0 <= i < pkgs.len() && 0 <= j < pkgs.len() && vendor_dir_of(pkgs[i]) == vendor_dir_of(pkgs[j])
            ==> pkgs[i] == pkgs[j]
}

/// The plan that the planner makes for this tree, whatever the removed
/// and patch-skip flags were: a step per package from what its directory
/// declares, and the deletion of every directory that no package claims.
pub open spec fn planned(
    tree: Tree,
    pkgs: Seq<PackageIdModel>,
    removed: Seq<bool>,
    skip: Seq<bool>,
    steps: Seq<Step>,
    delete: Set<Seq<char>>,
) -> bool {
    &&& steps.len() == pkgs.len()
    &&& removed.len() == pkgs.len()
    &&& skip.len() == pkgs.len()
    &&& forall|i: int|
        0 <= i < pkgs.len() ==> #[trigger] steps[i] == plan_step(pkgs[i], seen(tree, pkgs[i]), removed[i], skip[i])
    &&& forall|d: Seq<char>| delete.contains(d) <==> tree.contains_key(d) && !claimed(pkgs, d)
}

/// Whether one of the first `n` packages has `d` as its vendor directory.
pub open spec fn claimed_upto(pkgs: Seq<PackageIdModel>, n: int, d: Seq<char>) -> bool {
    exists|i: int| 0 <= i < n && vendor_dir_of(pkgs[i]) == d
}

proof fn lemma_apply_steps(
    tree: Tree,
    pkgs: Seq<PackageIdModel>,
    removed: Seq<bool>,
    skip: Seq<bool>,
    steps: Seq<Step>,
    delete: Set<Seq<char>>,
    n: nat,
)
    requires
        planned(tree, pkgs, removed, skip, steps, delete),
        distinct_dirs(pkgs),
        n <= pkgs.len(),
    ensures
        forall|i: int|
            0 <= i < n ==> apply_steps(tree, pkgs, steps, n).contains_key(#[trigger] vendor_dir_of(pkgs[i]))
                && apply_steps(tree, pkgs, steps, n)[vendor_dir_of(pkgs[i])] == Some(pkgs[i]),
        forall|d: Seq<char>|
            #![trigger apply_steps(tree, pkgs, steps, n).contains_key(d)]
            #![trigger tree.contains_key(d)]
            !claimed_upto(pkgs, n as int, d) ==> (apply_steps(tree, pkgs, steps, n).contains_key(d)
                == tree.contains_key(d) && (tree.contains_key(d) ==> apply_steps(tree, pkgs, steps, n)[d]
                == tree[d])),
    decreases n,
{
    if n > 0 {
        lemma_apply_steps(tree, pkgs, removed, skip, steps, delete, (n - 1) as nat);
        let m = (n - 1) as int;
        let key = vendor_dir_of(pkgs[m]);
        let t = apply_steps(tree, pkgs, steps, (n - 1) as nat);
        let u = apply_steps(tree, pkgs, steps, n);
        assert(u == if steps[m] == Step::Skip {
            t
        } else {
            t.insert(key, Some(pkgs[m]))
        });
        assert forall|d: Seq<char>| !claimed_upto(pkgs, n as int, d) implies (u.contains_key(d)
            == tree.contains_key(d) && (tree.contains_key(d) ==> u[d] == tree[d])) by {
            assert(key != d);
            assert(!claimed_upto(pkgs, m, d));
            assert(t.contains_key(d) == tree.contains_key(d));
        }
        if steps[m] == Step::Skip {
            assert(steps[m] == plan_step(pkgs[m], seen(tree, pkgs[m]), removed[m], skip[m]));
            assert(seen(tree, pkgs[m]) == Some(pkgs[m]));
            if claimed_upto(pkgs, m, key) {
                let i = choose|i: int| 0 <= i < m && vendor_dir_of(pkgs[i]) == key;
                assert(pkgs[i] == pkgs[m]);
            } else {
                assert(t.contains_key(key) == tree.contains_key(key));
            }
        } else {
            assert forall|i: int| 0 <= i < m implies u[#[trigger] vendor_dir_of(pkgs[i])] == Some(pkgs[i]) by {
                if vendor_dir_of(pkgs[i]) == key {
                    assert(pkgs[i] == pkgs[m]);
                }
            }
        }
    }
}

/// After a run, every package of the set has its vendor directory, and
/// that directory declares exactly the package's identity.
pub proof fn lemma_run_complete(
    tree: Tree,
    pkgs: Seq<PackageIdModel>,
    removed: Seq<bool>,
    skip: Seq<bool>,
    steps: Seq<Step>,
    delete: Set<Seq<char>>,
)
    requires
        planned(tree, pkgs, removed, skip, steps, delete),
        distinct_dirs(pkgs),
    ensures
        forall|i: int|
            0 <= i < pkgs.len() ==> after_run(tree, pkgs, steps, delete).contains_key(
                #[trigger] vendor_dir_of(pkgs[i]),
            ) && after_run(tree, pkgs, steps, delete)[vendor_dir_of(pkgs[i])] == Some(pkgs[i]),
        forall|d: Seq<char>, i: int|
            0 <= i < pkgs.len() && after_run(tree, pkgs, steps, delete).contains_key(d)
                && #[trigger] after_run(tree, pkgs, steps, delete)[d] == Some(#[trigger] pkgs[i])
                ==> d == vendor_dir_of(pkgs[i]),
{
    lemma_apply_steps(tree, pkgs, removed, skip, steps, delete, pkgs.len());
    lemma_run_exclusive(tree, pkgs, removed, skip, steps, delete);
    let after = after_run(tree, pkgs, steps, delete);
    assert forall|i: int| 0 <= i < pkgs.len() implies after.contains_key(#[trigger] vendor_dir_of(pkgs[i]))
        && after[vendor_dir_of(pkgs[i])] == Some(pkgs[i]) by {
        assert(claimed(pkgs, vendor_dir_of(pkgs[i])));
    }
    assert forall|d: Seq<char>, i: int|
        0 <= i < pkgs.len() && after.contains_key(d) && #[trigger] after[d] == Some(#[trigger] pkgs[i])
        implies d == vendor_dir_of(pkgs[i]) by {
        let k = choose|k: int| 0 <= k < pkgs.len() && vendor_dir_of(pkgs[k]) == d && after[d] == Some(pkgs[k]);
        assert(pkgs[k] == pkgs[i]);
    }
}

/// After a run, every directory left under the vendor root is the vendor
/// directory of a package of the set, and declares that package.
pub proof fn lemma_run_exclusive(
    tree: Tree,
    pkgs: Seq<PackageIdModel>,
    removed: Seq<bool>,
    skip: Seq<bool>,
    steps: Seq<Step>,
    delete: Set<Seq<char>>,
)
    requires
        planned(tree, pkgs, removed, skip, steps, delete),
        distinct_dirs(pkgs),
    ensures
        forall|d: Seq<char>|
            #[trigger] after_run(tree, pkgs, steps, delete).contains_key(d) ==> exists|i: int|
                0 <= i < pkgs.len() && vendor_dir_of(pkgs[i]) == d && after_run(tree, pkgs, steps, delete)[d]
                    == Some(pkgs[i]),
{
    lemma_apply_steps(tree, pkgs, removed, skip, steps, delete, pkgs.len());
    let t = apply_steps(tree, pkgs, steps, pkgs.len());
    assert forall|d: Seq<char>| #[trigger] after_run(tree, pkgs, steps, delete).contains_key(d) implies exists|i: int|
        0 <= i < pkgs.len() && vendor_dir_of(pkgs[i]) == d && after_run(tree, pkgs, steps, delete)[d] == Some(pkgs[i]) by {
        assert(!delete.contains(d));
        assert(t.contains_key(d));
        if !claimed(pkgs, d) {
            assert(!claimed_upto(pkgs, pkgs.len() as int, d));
            assert(!tree.contains_key(d));
        }
        let i = choose|i: int| 0 <= i < pkgs.len() && vendor_dir_of(pkgs[i]) == d;
        assert(t[vendor_dir_of(pkgs[i])] == Some(pkgs[i]));
    }
}

/// A second run on the tree that a run left, with the same package set,
/// skips every package, whatever its flags, and deletes nothing: no fetch,
/// no patch and no placeholder is made again.
pub proof fn lemma_run_idempotent(
    tree: Tree,
    pkgs: Seq<PackageIdModel>,
    removed: Seq<bool>,
    skip: Seq<bool>,
    steps: Seq<Step>,
    delete: Set<Seq<char>>,
    removed2: Seq<bool>,
    skip2: Seq<bool>,
    steps2: Seq<Step>,
    delete2: Set<Seq<char>>,
)
    requires
        planned(tree, pkgs, removed, skip, steps, delete),
        distinct_dirs(pkgs),
        planned(after_run(tree, pkgs, steps, delete), pkgs, removed2, skip2, steps2, delete2),
    ensures
        forall|i: int| 0 <= i < pkgs.len() ==> #[trigger] steps2[i] == Step::Skip,
        delete2 == Set::<Seq<char>>::empty(),
{
    lemma_run_complete(tree, pkgs, removed, skip, steps, delete);
    lemma_run_exclusive(tree, pkgs, removed, skip, steps, delete);
    let after = after_run(tree, pkgs, steps, delete);
    assert forall|i: int| 0 <= i < pkgs.len() implies #[trigger] steps2[i] == Step::Skip by {
        assert(after.contains_key(vendor_dir_of(pkgs[i])));
    }
    assert forall|d: Seq<char>| !delete2.contains(d) by {
        if after.contains_key(d) {
            let i = choose|i: int| 0 <= i < pkgs.len() && vendor_dir_of(pkgs[i]) == d && after[d] == Some(pkgs[i]);
            assert(claimed(pkgs, d));
        }
    }
    assert(delete2 =~= Set::<Seq<char>>::empty());
}

} // verus!
