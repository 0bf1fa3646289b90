//! The manifest: the environments it defines, and the changes an installation makes to it.
use crate::entries::{copy_entries, entries_view, put_entries, put_entry, upsert_all, Entry};
use crate::targets::{requests_view, PackageRequest};
use crate::task::{copy_strings, views};
use vstd::prelude::*;

verus! {

pub open spec fn opt_view(o: Option<String>) -> Option<Seq<char>> {
    match o {
        Some(s) => Some(s@),
        None => None,
    }
}

/// One environment of the manifest.
#[derive(Debug, Clone)]
pub struct Environment {
    pub name: String,
    pub channels: Vec<String>,
    pub platform: Option<String>,
    /// Package name and spec, one entry per package.
    pub dependencies: Vec<Entry>,
    /// Exposed name and executable name, one entry per exposed name.
    pub exposed: Vec<Entry>,
}

/// What an [`Environment`] holds, as mathematical values.
pub struct EnvironmentModel {
    pub name: Seq<char>,
    pub channels: Seq<Seq<char>>,
    pub platform: Option<Seq<char>>,
    pub dependencies: Seq<(Seq<char>, Seq<char>)>,
    pub exposed: Seq<(Seq<char>, Seq<char>)>,
}

impl View for Environment {
    type V = EnvironmentModel;

    open spec fn view(&self) -> EnvironmentModel {
        EnvironmentModel {
            name: self.name@,
            channels: views(self.channels@),
            platform: opt_view(self.platform),
            dependencies: entries_view(self.dependencies@),
            exposed: entries_view(self.exposed@),
        }
    }
}

/// The environment that installing into `name` defines before anything is exposed.
pub open spec fn fresh_environment(
    name: Seq<char>,
    channels: Seq<Seq<char>>,
    platform: Option<Seq<char>>,
    requests: Seq<(Seq<char>, Seq<char>)>,
) -> EnvironmentModel {
    EnvironmentModel {
        name,
        channels,
        platform,
        dependencies: upsert_all(Seq::empty(), requests),
        exposed: Seq::empty(),
    }
}

/// `i` is the first environment of `m` named `name`.
pub open spec fn is_first_env(m: Seq<EnvironmentModel>, name: Seq<char>, i: int) -> bool {
    &&& 0 <= i < m.len()
    &&& m[i].name == name
    &&& forall|j: int| 0 <= j < i ==> m[j].name != name
}

/// No two environments of `m` share a name.
pub open spec fn env_names_unique(m: Seq<EnvironmentModel>) -> bool {
    forall|i: int, j: int| 0 <= i < m.len() && 0 <= j < m.len() && i != j ==> m[i].name != m[j].name
}

pub open spec fn has_env(m: Seq<EnvironmentModel>, name: Seq<char>) -> bool {
    exists|i: int| 0 <= i < m.len() && m[i].name == name
}

/// `m` without its environment named `name`.
pub open spec fn without_env(m: Seq<EnvironmentModel>, name: Seq<char>) -> Seq<EnvironmentModel> {
    if exists|i: int| is_first_env(m, name, i) {
        m.remove(choose|i: int| is_first_env(m, name, i))
    } else {
        m
    }
}

/// `m` after (re)defining the environment `name`: any earlier definition is dropped and the
/// fresh one comes last.
pub open spec fn redefined(
    m: Seq<EnvironmentModel>,
    name: Seq<char>,
    channels: Seq<Seq<char>>,
    platform: Option<Seq<char>>,
    requests: Seq<(Seq<char>, Seq<char>)>,
) -> Seq<EnvironmentModel> {
    without_env(m, name).push(fresh_environment(name, channels, platform, requests))
}

/// `m` with `entries` exposed, in turn, from its environment at `i`.
pub open spec fn with_exposed(
    m: Seq<EnvironmentModel>,
    i: int,
    entries: Seq<(Seq<char>, Seq<char>)>,
) -> Seq<EnvironmentModel> {
    m.update(i, EnvironmentModel { exposed: upsert_all(m[i].exposed, entries), ..m[i] })
}

/// The environments of one manifest, in order; names are distinct.
#[derive(Debug, Clone)]
pub struct Manifest {
    pub environments: Vec<Environment>,
}

impl View for Manifest {
    type V = Seq<EnvironmentModel>;

    open spec fn view(&self) -> Seq<EnvironmentModel> {
        self.environments@.map_values(|e: Environment| e@)
    }
}

impl Manifest {
    /// No two environments share a name.
    pub open spec fn wf(&self) -> bool {
        env_names_unique(self@)
    }

    pub fn new() -> (r: Manifest)
        ensures
            r@ == Seq::<EnvironmentModel>::empty(),
            r.wf(),
    {
        let r = Manifest { environments: Vec::new() };
        assert(r@ =~= Seq::<EnvironmentModel>::empty());
        r
    }

    /// The position of the environment named `name`, if there is one.
    pub fn find_environment(&self, name: &String) -> (r: Option<usize>)
        ensures
            r is Some <==> has_env(self@, name@),
            r is Some ==> is_first_env(self@, name@, r->0 as int),
    {
        let mut i: usize = 0;
        while i < self.environments.len()
            invariant
                i <= self.environments.len(),
                forall|j: int| 0 <= j < i ==> self@[j].name != name@,
            decreases self.environments.len() - i,
        {
            if self.environments[i].name == *name {
                assert(self@[i as int].name == name@);
                return Some(i);
            }
            i = i + 1;
        }
        None
    }

    pub fn has_environment(&self, name: &String) -> (r: bool)
        ensures
            r == has_env(self@, name@),
    {
        self.find_environment(name).is_some()
    }

    /// Removes the environment named `name`, if there is one.
    pub fn remove_environment(&mut self, name: &String)
        ensures
            final(self)@ == without_env(old(self)@, name@),
            old(self).wf() ==> final(self).wf(),
    {
        match self.find_environment(name) {
            Some(i) => {
                proof {
                    let m = self@;
                    let c = choose|c: int| is_first_env(m, name@, c);
                    assert(c == i) by {
                        if c < i {
                            assert(m[c].name != name@);
                        }
                        if i < c {
                            assert(m[i as int].name != name@);
                        }
                    }
                }
                let ghost m = self@;
                self.environments.remove(i);
                assert(self@ =~= m.remove(i as int));
                proof {
                    if env_names_unique(m) {
                        assert forall|a: int, b: int|
                            0 <= a < self@.len() && 0 <= b < self@.len() && a != b implies self@[a].name
                            != self@[b].name by {
                            let a2 = if a < i { a } else { a + 1 };
                            let b2 = if b < i { b } else { b + 1 };
                            assert(self@[a] == m[a2]);
                            assert(self@[b] == m[b2]);
                        }
                    }
                }
            },
            None => {
                assert(!exists|c: int| is_first_env(self@, name@, c));
            },
        }
    }

    /// Defines the environment `name` anew, with its channels, platform and the requested
    /// packages as dependencies, in the order given.
    pub fn define_environment(
        &mut self,
        name: &String,
        channels: Vec<String>,
        platform: Option<String>,
        requests: &Vec<PackageRequest>,
    )
        ensures
            final(self)@ == redefined(
                old(self)@,
                name@,
                views(channels@),
                opt_view(platform),
                requests_view(requests@),
            ),
            old(self).wf() ==> final(self).wf(),
    {
        proof {
            lemma_without_env(old(self)@, name@);
        }
        self.remove_environment(name);
        let mut deps: Vec<Entry> = Vec::new();
        let mut i: usize = 0;
        while i < requests.len()
            invariant
                i <= requests.len(),
                entries_view(deps@) == upsert_all(
                    Seq::empty(),
                    requests_view(requests@).take(i as int),
                ),
            decreases requests.len() - i,
        {
            put_entry(&mut deps, requests[i].name.clone(), requests[i].spec.clone());
            proof {
                let rs = requests_view(requests@);
                assert(rs.take(i + 1).drop_last() =~= rs.take(i as int));
            }
            i = i + 1;
        }
        assert(requests_view(requests@).take(requests.len() as int) =~= requests_view(requests@));
        let ghost m = self@;
        let env = Environment {
            name: name.clone(),
            channels,
            platform,
            dependencies: deps,
            exposed: Vec::new(),
        };
        assert(entries_view(env.exposed@) =~= Seq::empty());
        self.environments.push(env);
        assert(self@ =~= m.push(env@));
        proof {
            if env_names_unique(old(self)@) {
                assert forall|a: int, b: int|
                    0 <= a < self@.len() && 0 <= b < self@.len() && a != b implies self@[a].name
                    != self@[b].name by {
                    if a < m.len() && b < m.len() {
                        assert(self@[a] == m[a] && self@[b] == m[b]);
                    } else if a < m.len() {
                        assert(self@[a] == m[a]);
                    } else {
                        assert(self@[b] == m[b]);
                    }
                }
            }
        }
    }

    /// Exposes `entries`, in turn, from the environment at position `i`.
    pub fn add_exposed_mappings(&mut self, i: usize, entries: &Vec<Entry>)
        requires
            i < old(self)@.len(),
        ensures
            final(self)@ == with_exposed(old(self)@, i as int, entries_view(entries@)),
            old(self).wf() ==> final(self).wf(),
    {
        let ghost m = self@;
        let mut env = self.environments.remove(i);
        put_entries(&mut env.exposed, entries);
        self.environments.insert(i, env);
        assert(self@ =~= with_exposed(m, i as int, entries_view(entries@)));
        assert(forall|k: int| 0 <= k < m.len() ==> self@[k].name == m[k].name);
    }
}

pub(crate) fn copy_option(o: &Option<String>) -> (r: Option<String>)
    ensures
        opt_view(r) == opt_view(*o),
{
    match o {
        Some(s) => Some(s.clone()),
        None => None,
    }
}

impl Environment {
    /// A copy with the same contents.
    pub fn duplicate(&self) -> (r: Environment)
        ensures
            r@ == self@,
    {
        Environment {
            name: self.name.clone(),
            channels: copy_strings(&self.channels),
            platform: copy_option(&self.platform),
            dependencies: copy_entries(&self.dependencies),
            exposed: copy_entries(&self.exposed),
        }
    }
}

impl Manifest {
    /// A copy with the same contents.
    pub fn duplicate(&self) -> (r: Manifest)
        ensures
            r@ == self@,
    {
        let mut envs: Vec<Environment> = Vec::new();
        let mut i: usize = 0;
        while i < self.environments.len()
            invariant
                i <= self.environments.len(),
                envs@.map_values(|e: Environment| e@) == self@.take(i as int),
            decreases self.environments.len() - i,
        {
            let ghost prev = envs@.map_values(|e: Environment| e@);
            let e = self.environments[i].duplicate();
            let ghost ev = e@;
            envs.push(e);
            assert(envs@.map_values(|e: Environment| e@) =~= prev.push(ev));
            assert(self@.take(i + 1) =~= self@.take(i as int).push(ev));
            i = i + 1;
        }
        assert(self@.take(self.environments.len() as int) =~= self@);
        Manifest { environments: envs }
    }
}

/// Installing twice into one environment with the same input defines it the same way: the
/// second definition replaces the first, whatever the manifest held before.
pub proof fn lemma_reinstall_idempotent(
    m: Seq<EnvironmentModel>,
    name: Seq<char>,
    channels: Seq<Seq<char>>,
    platform: Option<Seq<char>>,
    rs: Seq<(Seq<char>, Seq<char>)>,
    exposed: Seq<(Seq<char>, Seq<char>)>,
)
    requires
        env_names_unique(m),
    ensures
        ({
            let once = redefined(m, name, channels, platform, rs);
            let twice = redefined(once, name, channels, platform, rs);
            &&& twice.last() == once.last()
            &&& with_exposed(twice, twice.len() - 1, exposed).last() == with_exposed(
                once,
                once.len() - 1,
                exposed,
            ).last()
            &&& twice.len() == once.len()
            &&& !has_env(twice.drop_last(), name)
        }),
{
    let once = redefined(m, name, channels, platform, rs);
    let w = without_env(m, name);
    lemma_without_env(m, name);
    assert(once.drop_last() =~= w);
    assert forall|j: int| 0 <= j < once.len() - 1 implies once[j].name != name by {
        assert(once[j] == w[j]);
    }
    assert(is_first_env(once, name, once.len() - 1));
    let c = choose|c: int| is_first_env(once, name, c);
    assert(c == once.len() - 1) by {
        if c < once.len() - 1 {
            assert(w[c].name == name);
        }
    }
    assert(without_env(once, name) =~= w);
}

/// Dropping the environment `name` from a manifest whose names are distinct leaves none of
/// that name; with repeated names, it drops the first.
proof fn lemma_without_env(m: Seq<EnvironmentModel>, name: Seq<char>)
    ensures
        has_env(m, name) ==> without_env(m, name).len() == m.len() - 1,
        !has_env(m, name) ==> without_env(m, name) == m,
        env_names_unique(m) ==> !has_env(
            without_env(m, name),
            name,
        ),
{
    if has_env(m, name) {
        let k = choose|k: int| 0 <= k < m.len() && m[k].name == name;
        lemma_first_env_exists(m, name, k);
    } else {
        assert(!exists|i: int| is_first_env(m, name, i));
    }
}

proof fn lemma_first_env_exists(m: Seq<EnvironmentModel>, name: Seq<char>, k: int)
    requires
        0 <= k < m.len(),
        m[k].name == name,
    ensures
        exists|i: int| is_first_env(m, name, i),
    decreases k,
{
    if exists|j: int| 0 <= j < k && m[j].name == name {
        let j = choose|j: int| 0 <= j < k && m[j].name == name;
        lemma_first_env_exists(m, name, j);
    } else {
        assert(is_first_env(m, name, k));
    }
}

} // verus!
