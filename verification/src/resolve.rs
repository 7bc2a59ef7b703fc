//! Package resolution: attributing a crate identity to exactly one
//! package of the build graph.

use vstd::prelude::*;
use vstd::string::StrSliceExecFns;
use crate::model::{result_view, Error, PackageRecord, SpecErrorValue, SpecPackageRecord};

verus! {

/// A target name with every hyphen replaced by an underscore: the form
/// under which build targets are compared with crate identities.
pub open spec fn spec_normalized(name: Seq<char>) -> Seq<char> {
    Seq::new(name.len(), |i: int| if name[i] == '-' { '_' } else { name[i] })
}

/// A package matches a crate identity when at least one of its build
/// targets carries that name after normalization.
pub open spec fn spec_package_matches(p: SpecPackageRecord, crate_name: Seq<char>) -> bool {
    exists|j: int| 0 <= j < p.targets.len() && spec_normalized(#[trigger] p.targets[j]) == crate_name
}

/// How many packages of the graph match the crate identity.
pub open spec fn spec_match_count(packages: Seq<SpecPackageRecord>, crate_name: Seq<char>) -> nat
    decreases packages.len(),
{
    if packages.len() == 0 {
        0
    } else {
        (if spec_package_matches(packages[0], crate_name) {
            1nat
        } else {
            0nat
        }) + spec_match_count(packages.drop_first(), crate_name)
    }
}

/// The first matching package, scanning in graph order.
pub open spec fn spec_first_match(
    packages: Seq<SpecPackageRecord>,
    crate_name: Seq<char>,
) -> Option<SpecPackageRecord>
    decreases packages.len(),
{
    if packages.len() == 0 {
        None
    } else if spec_package_matches(packages[0], crate_name) {
        Some(packages[0])
    } else {
        spec_first_match(packages.drop_first(), crate_name)
    }
}

/// Resolution of a crate identity against the build graph: the one
/// matching package; no match and more than one match are the two
/// attribution errors, the latter reporting how many packages clashed.
pub open spec fn spec_find_package(
    packages: Seq<SpecPackageRecord>,
    crate_name: Seq<char>,
) -> Result<SpecPackageRecord, SpecErrorValue> {
    let count = spec_match_count(packages, crate_name);
    if count == 0 {
        Err(SpecErrorValue::PackageNotFound { crate_name })
    } else if count == 1 {
        match spec_first_match(packages, crate_name) {
            Some(p) => Ok(p),
            None => Err(SpecErrorValue::PackageNotFound { crate_name }),
        }
    } else {
        Err(SpecErrorValue::PackageAmbiguous { crate_name, count })
    }
}

/// Appending one package extends the count and the first match in the
/// obvious way.
proof fn lemma_match_extend(
    packages: Seq<SpecPackageRecord>,
    p: SpecPackageRecord,
    crate_name: Seq<char>,
)
    ensures
        spec_match_count(packages.push(p), crate_name) == spec_match_count(packages, crate_name)
            + (if spec_package_matches(p, crate_name) {
            1nat
        } else {
            0nat
        }),
        spec_first_match(packages.push(p), crate_name) == (if spec_first_match(
            packages,
            crate_name,
        ) is Some {
            spec_first_match(packages, crate_name)
        } else if spec_package_matches(p, crate_name) {
            Some(p)
        } else {
            None
        }),
    decreases packages.len(),
{
    if packages.len() == 0 {
        assert(packages.push(p).drop_first() =~= packages);
    } else {
        assert(packages.push(p).drop_first() =~= packages.drop_first().push(p));
        lemma_match_extend(packages.drop_first(), p, crate_name);
    }
}

/// True when `target`, with hyphens read as underscores, spells
/// `crate_name`.
fn names_match(target: &String, crate_name: &String) -> (r: bool)
    ensures
        r == (spec_normalized(target@) == crate_name@),
{
    let t = target.as_str();
    let c = crate_name.as_str();
    let n: usize = t.unicode_len();
    if n != c.unicode_len() {
        return false;
    }
    let mut i: usize = 0;
    while i < n
        invariant
            0 <= i <= n,
            n == t@.len(),
            n == c@.len(),
            t@ == target@,
            c@ == crate_name@,
            forall|j: int|
                0 <= j < i ==> (if t@[j] == '-' {
                    '_'
                } else {
                    t@[j]
                }) == c@[j],
        decreases n - i,
    {
        let tc = t.get_char(i);
        let cc = c.get_char(i);
        let mapped = if tc == '-' {
            '_'
        } else {
            tc
        };
        if mapped != cc {
            assert(spec_normalized(target@)[i as int] != crate_name@[i as int]);
            return false;
        }
        i = i + 1;
    }
    assert(spec_normalized(target@) =~= crate_name@);
    true
}

/// Whether the package exposes a target named like the crate identity.
fn package_matches(p: &PackageRecord, crate_name: &String) -> (r: bool)
    ensures
        r == spec_package_matches(p.deep_view(), crate_name@),
{
    let n: usize = p.targets.len();
    let mut i: usize = 0;
    while i < n
        invariant
            0 <= i <= n,
            n == p.targets.len(),
            p.deep_view().targets.len() == n,
            forall|j: int|
                0 <= j < i ==> spec_normalized(#[trigger] p.deep_view().targets[j]) != crate_name@,
        decreases n - i,
    {
        proof {
            assert(p.deep_view().targets[i as int] == p.targets@[i as int]@);
        }
        if names_match(&p.targets[i], crate_name) {
            return true;
        }
        i = i + 1;
    }
    false
}

/// Map the crate identity extracted from the binary to a package of the
/// build graph: the package with a build target of that name, hyphens
/// normalized to underscores. No such package, or more than one, is
/// fatal for the run.
pub fn find_package_by_crate_name(packages: &Vec<PackageRecord>, crate_name: &String) -> (r: Result<
    PackageRecord,
    Error,
>)
    ensures
        result_view(r) == spec_find_package(packages.deep_view(), crate_name@),
{
    let ghost all = packages.deep_view();
    let n: usize = packages.len();
    let mut count: usize = 0;
    let mut found: Option<usize> = None;
    let mut i: usize = 0;
    proof {
        assert(all.subrange(0, 0) =~= Seq::<SpecPackageRecord>::empty());
    }
    while i < n
        invariant
            0 <= i <= n,
            n == packages.len(),
            all == packages.deep_view(),
            all.len() == n,
            count <= i,
            count == spec_match_count(all.subrange(0, i as int), crate_name@),
            match found {
                Some(k) => 0 <= k < i && spec_first_match(all.subrange(0, i as int), crate_name@)
                    == Some(all[k as int]) && count > 0,
                None => spec_first_match(all.subrange(0, i as int), crate_name@) is None && count
                    == 0,
            },
        decreases n - i,
    {
        proof {
            assert(all.subrange(0, i + 1) =~= all.subrange(0, i as int).push(all[i as int]));
            lemma_match_extend(all.subrange(0, i as int), all[i as int], crate_name@);
            assert(all[i as int] == packages@[i as int].deep_view());
        }
        if package_matches(&packages[i], crate_name) {
            count = count + 1;
            if found.is_none() {
                found = Some(i);
            }
        }
        i = i + 1;
    }
    proof {
        assert(all.subrange(0, n as int) =~= all);
    }
    if count == 1 {
        match found {
            Some(k) => Ok(packages[k].clone_record()),
            None => Err(Error::PackageNotFound { crate_name: crate_name.clone() }),
        }
    } else if count == 0 {
        Err(Error::PackageNotFound { crate_name: crate_name.clone() })
    } else {
        Err(Error::PackageAmbiguous { crate_name: crate_name.clone(), count })
    }
}

} // verus!
