//! Which installed executables an environment exposes, found from what its prefix holds.
use crate::entries::{entries_view, Entry};
use crate::targets::{contains_string, request_names, requests_view, PackageRequest};
use crate::task::views;
use vstd::prelude::*;

verus! {

/// A package installed in an environment's prefix: its normalized name and the names of the
/// executables it ships, in the order they were found.
#[derive(Debug, Clone)]
pub struct InstalledPackage {
    pub name: String,
    pub executables: Vec<String>,
}

impl View for InstalledPackage {
    type V = (Seq<char>, Seq<Seq<char>>);

    open spec fn view(&self) -> (Seq<char>, Seq<Seq<char>>) {
        (self.name@, views(self.executables@))
    }
}

pub open spec fn prefix_view(v: Seq<InstalledPackage>) -> Seq<(Seq<char>, Seq<Seq<char>>)> {
    v.map_values(|p: InstalledPackage| p@)
}

/// A name exposed from another package than the requested one: the exposed name and the
/// package that ships the executable.
#[derive(Debug, Clone)]
pub struct AutoExposed {
    pub exposed_name: String,
    pub provider: String,
}

impl View for AutoExposed {
    type V = (Seq<char>, Seq<char>);

    open spec fn view(&self) -> (Seq<char>, Seq<char>) {
        (self.exposed_name@, self.provider@)
    }
}

/// The mappings to add, in order, and the names exposed from other packages.
#[derive(Debug, Clone)]
pub struct ExposurePlan {
    pub mappings: Vec<Entry>,
    pub auto_exposed: Vec<AutoExposed>,
}

pub open spec fn plan_view(p: ExposurePlan) -> (Seq<(Seq<char>, Seq<char>)>, Seq<
    (Seq<char>, Seq<char>),
>) {
    (entries_view(p.mappings@), p.auto_exposed@.map_values(|w: AutoExposed| w@))
}

/// `i` is the first package of `prefix` named `name`.
pub open spec fn is_designated(prefix: Seq<(Seq<char>, Seq<Seq<char>>)>, name: Seq<char>, i: int) -> bool {
    &&& 0 <= i < prefix.len()
    &&& prefix[i].0 == name
    &&& forall|j: int| 0 <= j < i ==> prefix[j].0 != name
}

/// `i` is the first package of `prefix` that ships an executable named `name`.
pub open spec fn is_provider(prefix: Seq<(Seq<char>, Seq<Seq<char>>)>, name: Seq<char>, i: int) -> bool {
    &&& 0 <= i < prefix.len()
    &&& prefix[i].1.contains(name)
    &&& forall|j: int| 0 <= j < i ==> !prefix[j].1.contains(name)
}

/// Each executable exposed under its own name.
pub open spec fn one_to_one(exes: Seq<Seq<char>>) -> Seq<(Seq<char>, Seq<char>)> {
    exes.map_values(|e: Seq<char>| (e, e))
}

/// What exposing the requested package `name` adds: each executable it ships, and where none
/// is named `name`, the executable `name` of the first package that ships one. `None` where
/// the prefix holds no package `name`.
pub open spec fn package_plan(prefix: Seq<(Seq<char>, Seq<Seq<char>>)>, name: Seq<char>) -> Option<
    (Seq<(Seq<char>, Seq<char>)>, Seq<(Seq<char>, Seq<char>)>),
> {
    if exists|i: int| is_designated(prefix, name, i) {
        let exes = prefix[choose|i: int| is_designated(prefix, name, i)].1;
        if exes.contains(name) {
            Some((one_to_one(exes), Seq::empty()))
        } else if exists|j: int| is_provider(prefix, name, j) {
            let provider = prefix[choose|j: int| is_provider(prefix, name, j)].0;
            Some((one_to_one(exes).push((name, name)), seq![(name, provider)]))
        } else {
            Some((one_to_one(exes), Seq::empty()))
        }
    } else {
        None
    }
}

/// The plans of the requested packages `names`, one after the other; `None` where one of them
/// is missing from the prefix.
pub open spec fn exposure_plan(prefix: Seq<(Seq<char>, Seq<Seq<char>>)>, names: Seq<Seq<char>>) -> Option<
    (Seq<(Seq<char>, Seq<char>)>, Seq<(Seq<char>, Seq<char>)>),
>
    decreases names.len(),
{
    if names.len() == 0 {
        Some((Seq::empty(), Seq::empty()))
    } else {
        match exposure_plan(prefix, names.drop_last()) {
            None => None,
            Some(before) => match package_plan(prefix, names.last()) {
                None => None,
                Some(more) => Some((before.0 + more.0, before.1 + more.1)),
            },
        }
    }
}

fn find_designated(prefix: &Vec<InstalledPackage>, name: &String) -> (r: Option<usize>)
    ensures
        r is Some <==> exists|i: int| is_designated(prefix_view(prefix@), name@, i),
        r is Some ==> is_designated(prefix_view(prefix@), name@, r->0 as int),
{
    let ghost p = prefix_view(prefix@);
    let mut i: usize = 0;
    while i < prefix.len()
        invariant
            i <= prefix.len(),
            p == prefix_view(prefix@),
            forall|j: int| 0 <= j < i ==> p[j].0 != name@,
        decreases prefix.len() - i,
    {
        if prefix[i].name == *name {
            assert(is_designated(p, name@, i as int));
            return Some(i);
        }
        i = i + 1;
    }
    None
}

fn find_provider(prefix: &Vec<InstalledPackage>, name: &String) -> (r: Option<usize>)
    ensures
        r is Some <==> exists|i: int| is_provider(prefix_view(prefix@), name@, i),
        r is Some ==> is_provider(prefix_view(prefix@), name@, r->0 as int),
{
    let ghost p = prefix_view(prefix@);
    let mut i: usize = 0;
    while i < prefix.len()
        invariant
            i <= prefix.len(),
            p == prefix_view(prefix@),
            forall|j: int| 0 <= j < i ==> !p[j].1.contains(name@),
        decreases prefix.len() - i,
    {
        if contains_string(&prefix[i].executables, name) {
            assert(is_provider(p, name@, i as int));
            return Some(i);
        }
        i = i + 1;
    }
    None
}

/// What exposing one requested package adds, or `None` where the prefix holds no such
/// package.
pub fn plan_package(prefix: &Vec<InstalledPackage>, name: &String) -> (r: Option<ExposurePlan>)
    ensures
        match package_plan(prefix_view(prefix@), name@) {
            Some(p) => r is Some && plan_view(r->0) == p,
            None => r is None,
        },
{
    let ghost p = prefix_view(prefix@);
    match find_designated(prefix, name) {
        None => None,
        Some(d) => {
            proof {
                let c = choose|c: int| is_designated(p, name@, c);
                assert(c == d) by {
                    if c < d {
                        assert(p[c].0 != name@);
                    }
                    if d < c {
                        assert(p[d as int].0 != name@);
                    }
                }
            }
            let exes = &prefix[d].executables;
            let mut mappings: Vec<Entry> = Vec::new();
            let mut i: usize = 0;
            while i < exes.len()
                invariant
                    i <= exes.len(),
                    entries_view(mappings@) == one_to_one(views(exes@).take(i as int)),
                decreases exes.len() - i,
            {
                let ghost prev = entries_view(mappings@);
                let ghost e = exes@[i as int]@;
                mappings.push(Entry { key: exes[i].clone(), value: exes[i].clone() });
                assert(entries_view(mappings@) =~= prev.push((e, e)));
                assert(one_to_one(views(exes@).take(i + 1)) =~= one_to_one(
                    views(exes@).take(i as int),
                ).push((e, e)));
                i = i + 1;
            }
            assert(views(exes@).take(exes.len() as int) =~= views(exes@));
            let mut auto_exposed: Vec<AutoExposed> = Vec::new();
            if !contains_string(exes, name) {
                match find_provider(prefix, name) {
                    Some(j) => {
                        proof {
                            let c = choose|c: int| is_provider(p, name@, c);
                            assert(c == j) by {
                                if c < j {
                                    assert(!p[c].1.contains(name@));
                                }
                                if j < c {
                                    assert(!p[j as int].1.contains(name@));
                                }
                            }
                        }
                        let ghost before = entries_view(mappings@);
                        mappings.push(Entry { key: name.clone(), value: name.clone() });
                        assert(entries_view(mappings@) =~= before.push((name@, name@)));
                        auto_exposed.push(AutoExposed { exposed_name: name.clone(), provider: prefix[j].name.clone() });
                    },
                    None => {},
                }
            }
            let r = ExposurePlan { mappings, auto_exposed };
            assert(plan_view(r) =~= package_plan(p, name@)->0);
            Some(r)
        },
    }
}

/// Plans the exposure of the requested packages in `requests`, in order, from what `prefix`
/// holds; `None` where a requested package is missing from the prefix.
pub fn plan_exposure(requests: &Vec<PackageRequest>, prefix: &Vec<InstalledPackage>) -> (r: Option<
    ExposurePlan,
>)
    ensures
        match exposure_plan(prefix_view(prefix@), request_names(requests_view(requests@))) {
            Some(p) => r is Some && plan_view(r->0) == p,
            None => r is None,
        },
{
    let ghost names = request_names(requests_view(requests@));
    let ghost p = prefix_view(prefix@);
    let mut mappings: Vec<Entry> = Vec::new();
    let mut auto_exposed: Vec<AutoExposed> = Vec::new();
    let mut i: usize = 0;
    while i < requests.len()
        invariant
            i <= requests.len(),
            names == request_names(requests_view(requests@)),
            p == prefix_view(prefix@),
            exposure_plan(p, names.take(i as int)) == Some(
                plan_view(ExposurePlan { mappings, auto_exposed }),
            ),
        decreases requests.len() - i,
    {
        proof {
            assert(names.take(i + 1).drop_last() =~= names.take(i as int));
            assert(names.take(i + 1).last() == requests@[i as int].name@);
        }
        match plan_package(prefix, &requests[i].name) {
            None => {
                assert(exposure_plan(p, names.take(i + 1)) is None);
                assert(names.take(requests.len() as int).take(i + 1) =~= names.take(i + 1));
                proof {
                    lemma_plan_prefix_none(p, names, i as int + 1, requests.len() as int);
                }
                assert(names.take(requests.len() as int) =~= names);
                return None;
            },
            Some(more) => {
                let ghost bm = entries_view(mappings@);
                let ghost ba = auto_exposed@.map_values(|w: AutoExposed| w@);
                let mut m = more.mappings;
                let mut a = more.auto_exposed;
                let ghost mv = entries_view(m@);
                let ghost av = a@.map_values(|w: AutoExposed| w@);
                mappings.append(&mut m);
                auto_exposed.append(&mut a);
                assert(entries_view(mappings@) =~= bm + mv);
                assert(auto_exposed@.map_values(|w: AutoExposed| w@) =~= ba + av);
            },
        }
        i = i + 1;
    }
    assert(names.take(requests.len() as int) =~= names);
    Some(ExposurePlan { mappings, auto_exposed })
}

/// Once the plan of the first `k` names is `None`, so is that of the first `n`.
proof fn lemma_plan_prefix_none(
    prefix: Seq<(Seq<char>, Seq<Seq<char>>)>,
    names: Seq<Seq<char>>,
    k: int,
    n: int,
)
    requires
        0 <= k <= n <= names.len(),
        exposure_plan(prefix, names.take(k)) is None,
    ensures
        exposure_plan(prefix, names.take(n)) is None,
    decreases n - k,
{
    if k < n {
        assert(names.take(k + 1).drop_last() =~= names.take(k));
        lemma_plan_prefix_none(prefix, names, k + 1, n);
    }
}

/// Every mapping that discovery adds for a requested package either exposes an executable
/// that the package ships under its own name, or exposes the package's own name, which then
/// is an executable that some installed package ships.
pub proof fn lemma_discovered_mappings_exist(
    prefix: Seq<(Seq<char>, Seq<Seq<char>>)>,
    name: Seq<char>,
)
    requires
        package_plan(prefix, name) is Some,
    ensures
        ({
            let d = choose|i: int| is_designated(prefix, name, i);
            let ms = package_plan(prefix, name).unwrap().0;
            forall|k: int|
                0 <= k < ms.len() ==> {
                    ||| ms[k].0 == ms[k].1 && prefix[d].1.contains(ms[k].1)
                    ||| ms[k].0 == name && ms[k].1 == name && exists|j: int|
                        0 <= j < prefix.len() && #[trigger] prefix[j].1.contains(name)
                }
        }),
{
    let d = choose|i: int| is_designated(prefix, name, i);
    let exes = prefix[d].1;
    let ms = package_plan(prefix, name).unwrap().0;
    assert forall|k: int| 0 <= k < ms.len() implies {
        ||| ms[k].0 == ms[k].1 && prefix[d].1.contains(ms[k].1)
        ||| ms[k].0 == name && ms[k].1 == name && exists|j: int|
            0 <= j < prefix.len() && #[trigger] prefix[j].1.contains(name)
    } by {
        if k < exes.len() {
            assert(ms[k] == (exes[k], exes[k]));
        } else {
            let j = choose|j: int| is_provider(prefix, name, j);
            assert(prefix[j].1.contains(name));
        }
    }
}

/// A package that ships no executable of its own name, where no installed package ships one,
/// is exposed with its own executables only, and nothing is reported as exposed from another
/// package.
pub proof fn lemma_no_fallback_without_match(
    prefix: Seq<(Seq<char>, Seq<Seq<char>>)>,
    name: Seq<char>,
    d: int,
)
    requires
        is_designated(prefix, name, d),
        forall|j: int| 0 <= j < prefix.len() ==> !(#[trigger] prefix[j].1).contains(name),
    ensures
        package_plan(prefix, name) == Some((one_to_one(prefix[d].1), Seq::<(Seq<char>, Seq<char>)>::empty())),
{
    let c = choose|c: int| is_designated(prefix, name, c);
    assert(c == d) by {
        if c < d {
            assert(prefix[c].0 != name);
        }
        if d < c {
            assert(prefix[d].0 != name);
        }
    }
    assert(!prefix[d].1.contains(name));
    assert(!exists|j: int| is_provider(prefix, name, j));
}

/// Every mapping that discovery adds, over all requested packages, exposes an executable under
/// its own name, and that executable is shipped by some installed package.
pub proof fn lemma_discovered_executables_exist(
    prefix: Seq<(Seq<char>, Seq<Seq<char>>)>,
    names: Seq<Seq<char>>,
)
    requires
        exposure_plan(prefix, names) is Some,
    ensures
        ({
            let ms = exposure_plan(prefix, names).unwrap().0;
            forall|k: int|
                0 <= k < ms.len() ==> ms[k].0 == ms[k].1 && exists|j: int|
                    0 <= j < prefix.len() && #[trigger] prefix[j].1.contains(ms[k].1)
        }),
    decreases names.len(),
{
    if names.len() > 0 {
        let before = exposure_plan(prefix, names.drop_last()).unwrap().0;
        let name = names.last();
        lemma_discovered_executables_exist(prefix, names.drop_last());
        lemma_discovered_mappings_exist(prefix, name);
        let more = package_plan(prefix, name).unwrap().0;
        let ms = exposure_plan(prefix, names).unwrap().0;
        assert(ms == before + more);
        let d = choose|i: int| is_designated(prefix, name, i);
        assert forall|k: int| 0 <= k < ms.len() implies ms[k].0 == ms[k].1 && exists|j: int|
            0 <= j < prefix.len() && #[trigger] prefix[j].1.contains(ms[k].1) by {
            if k < before.len() {
                assert(ms[k] == before[k]);
            } else {
                assert(ms[k] == more[k - before.len()]);
                if prefix[d].1.contains(more[k - before.len()].1) {
                    assert(prefix[d].1.contains(ms[k].1));
                }
            }
        }
    }
}

} // verus!
