//! Requested packages and the environments they are installed into.
use crate::manifest::opt_view;
use crate::task::views;
use vstd::prelude::*;

verus! {

/// A requested package: its normalized name and the spec it is requested with.
#[derive(Debug, Clone)]
pub struct PackageRequest {
    pub name: String,
    pub spec: String,
}

impl View for PackageRequest {
    type V = (Seq<char>, Seq<char>);

    open spec fn view(&self) -> (Seq<char>, Seq<char>) {
        (self.name@, self.spec@)
    }
}

pub open spec fn requests_view(v: Seq<PackageRequest>) -> Seq<(Seq<char>, Seq<char>)> {
    v.map_values(|r: PackageRequest| r@)
}

/// Why an installation did not complete.
#[derive(Debug, Clone, Copy, PartialEq, Eq, Structural)]
pub enum InstallError {
    /// A package or environment name that breaks its grammar.
    InvalidIdentifier,
    /// Explicit mappings were given while the packages go to other than one environment.
    AmbiguousMapping,
    /// A stage of installing one environment failed; where the environment existed before,
    /// it was restored.
    Failed(Stage),
    /// A stage failed, and restoring the environment afterwards failed too.
    RevertFailed(Stage),
}

/// The stages of installing one environment that can fail.
#[derive(Debug, Clone, Copy, PartialEq, Eq, Structural)]
pub enum Stage {
    /// Solving, fetching and linking the environment's packages.
    Install,
    /// Reading what the environment's prefix holds.
    Discovery,
    /// Publishing the environment's exposed names.
    Publish,
    /// Writing the manifest.
    Save,
}

/// The characters an environment name is made of.
pub open spec fn is_env_name_char(c: char) -> bool {
    ('a' <= c && c <= 'z') || ('0' <= c && c <= '9') || c == '-' || c == '_' || c == '.'
}

pub open spec fn is_valid_env_name(s: Seq<char>) -> bool {
    s.len() > 0 && forall|i: int| 0 <= i < s.len() ==> is_env_name_char(s[i])
}

/// Whether `name` is a valid environment name.
pub fn check_env_name(name: &String) -> (r: bool)
    ensures
        r == is_valid_env_name(name@),
{
    let mut ok = true;
    let mut nonempty = false;
    for c in it: name.as_str().chars()
        invariant
            it.seq() == name@,
            nonempty == (it.index() > 0),
            ok == forall|i: int| 0 <= i < it.index() ==> is_env_name_char(it.seq()[i]),
    {
        if !(('a' <= c && c <= 'z') || ('0' <= c && c <= '9') || c == '-' || c == '_' || c
            == '.') {
            ok = false;
        }
        nonempty = true;
    }
    ok && nonempty
}

/// The names of `s`, each at its first place.
pub open spec fn distinct(s: Seq<Seq<char>>) -> Seq<Seq<char>>
    decreases s.len(),
{
    if s.len() == 0 {
        Seq::empty()
    } else {
        let d = distinct(s.drop_last());
        if d.contains(s.last()) {
            d
        } else {
            d.push(s.last())
        }
    }
}

pub open spec fn request_names(rs: Seq<(Seq<char>, Seq<char>)>) -> Seq<Seq<char>> {
    rs.map_values(|r: (Seq<char>, Seq<char>)| r.0)
}

/// The environments that a command installs into: the one it names, or one per distinct
/// requested package, named after it.
pub open spec fn resolved_names(
    rs: Seq<(Seq<char>, Seq<char>)>,
    environment: Option<Seq<char>>,
    has_mappings: bool,
) -> Result<Seq<Seq<char>>, InstallError> {
    match environment {
        Some(n) => if is_valid_env_name(n) {
            Ok(seq![n])
        } else {
            Err(InstallError::InvalidIdentifier)
        },
        None => if exists|i: int| 0 <= i < rs.len() && !is_valid_env_name(#[trigger] rs[i].0) {
            Err(InstallError::InvalidIdentifier)
        } else if has_mappings && distinct(request_names(rs)).len() != 1 {
            Err(InstallError::AmbiguousMapping)
        } else {
            Ok(distinct(request_names(rs)))
        },
    }
}

pub(crate) fn contains_string(v: &Vec<String>, s: &String) -> (r: bool)
    ensures
        r == views(v@).contains(s@),
{
    let mut i: usize = 0;
    while i < v.len()
        invariant
            i <= v.len(),
            forall|j: int| 0 <= j < i ==> v@[j]@ != s@,
        decreases v.len() - i,
    {
        if v[i] == *s {
            assert(views(v@)[i as int] == s@);
            return true;
        }
        i = i + 1;
    }
    assert forall|j: int| 0 <= j < v.len() implies views(v@)[j] != s@ by {}
    false
}

/// Resolves the names of the environments to install into, before anything is changed.
pub fn resolve_environment_names(
    requests: &Vec<PackageRequest>,
    environment: &Option<String>,
    has_mappings: bool,
) -> (r: Result<Vec<String>, InstallError>)
    ensures
        match resolved_names(requests_view(requests@), opt_view(*environment), has_mappings) {
            Ok(names) => r is Ok && views(r->Ok_0@) == names,
            Err(e) => r == Err::<Vec<String>, InstallError>(e),
        },
{
    match environment {
        Some(name) => {
            if check_env_name(name) {
                let mut v: Vec<String> = Vec::new();
                v.push(name.clone());
                assert(views(v@) =~= seq![name@]);
                Ok(v)
            } else {
                Err(InstallError::InvalidIdentifier)
            }
        },
        None => {
            let ghost rs = requests_view(requests@);
            let mut names: Vec<String> = Vec::new();
            let mut i: usize = 0;
            while i < requests.len()
                invariant
                    i <= requests.len(),
                    rs == requests_view(requests@),
                    environment is None,
                    forall|j: int| 0 <= j < i ==> is_valid_env_name(#[trigger] rs[j].0),
                    views(names@) == distinct(request_names(rs.take(i as int))),
                decreases requests.len() - i,
            {
                let name = &requests[i].name;
                if !check_env_name(name) {
                    assert(rs[i as int] == requests@[i as int]@);
                    assert(!is_valid_env_name(rs[i as int].0));

                    return Err(InstallError::InvalidIdentifier);
                }
                proof {
                    assert(request_names(rs.take(i + 1)).drop_last() =~= request_names(
                        rs.take(i as int),
                    ));
                }
                if !contains_string(&names, name) {
                    names.push(name.clone());
                    assert(views(names@) =~= distinct(request_names(rs.take(i + 1))));
                }
                i = i + 1;
            }
            assert(rs.take(requests.len() as int) =~= rs);
            if has_mappings && names.len() != 1 {
                Err(InstallError::AmbiguousMapping)
            } else {
                Ok(names)
            }
        },
    }
}

/// The requests that go to the environment `env`: all of them where there is one environment,
/// else those of the packages named `env`.
pub open spec fn requests_for(
    rs: Seq<(Seq<char>, Seq<char>)>,
    env: Seq<char>,
    multiple: bool,
) -> Seq<(Seq<char>, Seq<char>)> {
    if multiple {
        rs.filter(|r: (Seq<char>, Seq<char>)| r.0 == env)
    } else {
        rs
    }
}

pub(crate) fn copy_request(r: &PackageRequest) -> (c: PackageRequest)
    ensures
        c@ == r@,
{
    PackageRequest { name: r.name.clone(), spec: r.spec.clone() }
}

/// Selects the requests that go to the environment `env`.
pub fn select_requests(requests: &Vec<PackageRequest>, env: &String, multiple: bool) -> (r: Vec<
    PackageRequest,
>)
    ensures
        requests_view(r@) == requests_for(requests_view(requests@), env@, multiple),
{
    let ghost rs = requests_view(requests@);
    let ghost f = |r: (Seq<char>, Seq<char>)| r.0 == env@;
    let mut out: Vec<PackageRequest> = Vec::new();
    let mut i: usize = 0;
    while i < requests.len()
        invariant
            i <= requests.len(),
            rs == requests_view(requests@),
            f == (|r: (Seq<char>, Seq<char>)| r.0 == env@),
            requests_view(out@) == if multiple {
                rs.take(i as int).filter(f)
            } else {
                rs.take(i as int)
            },
        decreases requests.len() - i,
    {
        proof {
            assert(rs.take(i + 1).drop_last() =~= rs.take(i as int));
            reveal(Seq::filter);
        }
        if !multiple || requests[i].name == *env {
            let c = copy_request(&requests[i]);
            out.push(c);
            assert(requests_view(out@) =~= if multiple {
                rs.take(i + 1).filter(f)
            } else {
                rs.take(i + 1)
            });
        } else {
            assert(requests_view(out@) =~= rs.take(i + 1).filter(f));
        }
        i = i + 1;
    }
    assert(rs.take(requests.len() as int) =~= rs);
    out
}

/// `distinct(s)` holds each name of `s` once.
proof fn lemma_distinct(s: Seq<Seq<char>>)
    ensures
        distinct(s).no_duplicates(),
        distinct(s).to_set() == s.to_set(),
    decreases s.len(),
{
    if s.len() > 0 {
        let d = distinct(s.drop_last());
        lemma_distinct(s.drop_last());
        assert(s =~= s.drop_last().push(s.last()));
        s.drop_last().lemma_push_to_set_commute(s.last());
        if !d.contains(s.last()) {
            d.lemma_push_to_set_commute(s.last());
            assert(distinct(s) == d.push(s.last()));
            assert forall|i: int, j: int|
                0 <= i < distinct(s).len() && 0 <= j < distinct(s).len() && i != j implies
                distinct(s)[i] != distinct(s)[j] by {
                if i < d.len() && j < d.len() {
                } else if i == d.len() {
                    assert(d[j] == distinct(s)[j]);
                } else {
                    assert(d[i] == distinct(s)[i]);
                }
            }
        } else {
            assert(d.to_set().contains(s.last()));
            assert(d.to_set().insert(s.last()) =~= d.to_set());
        }
    }
}

/// Keeping the items of `s` that all meet `f` keeps `s` whole.
proof fn lemma_filter_all(s: Seq<(Seq<char>, Seq<char>)>, f: spec_fn((Seq<char>, Seq<char>)) -> bool)
    requires
        forall|i: int| 0 <= i < s.len() ==> f(#[trigger] s[i]),
    ensures
        s.filter(f) == s,
    decreases s.len(),
{
    reveal(Seq::filter);
    if s.len() > 0 {
        lemma_filter_all(s.drop_last(), f);
        assert(s.drop_last().push(s.last()) =~= s);
    }
}

/// With no environment named, the requested packages go to one environment for each distinct
/// package name, and each environment gets exactly the requests of the packages named after
/// it.
pub proof fn lemma_one_environment_per_name(rs: Seq<(Seq<char>, Seq<char>)>, has_mappings: bool)
    requires
        resolved_names(rs, None, has_mappings) is Ok,
    ensures
        ({
            let names = resolved_names(rs, None, has_mappings)->Ok_0;
            &&& names.no_duplicates()
            &&& names.to_set() == request_names(rs).to_set()
            &&& names.len() == request_names(rs).to_set().len()
            &&& forall|i: int|
                0 <= i < names.len() ==> requests_for(rs, #[trigger] names[i], names.len() > 1)
                    == rs.filter(|r: (Seq<char>, Seq<char>)| r.0 == names[i])
        }),
{
    let names = distinct(request_names(rs));
    lemma_distinct(request_names(rs));
    names.unique_seq_to_set();
    assert forall|i: int| 0 <= i < names.len() implies requests_for(
        rs,
        #[trigger] names[i],
        names.len() > 1,
    ) == rs.filter(|r: (Seq<char>, Seq<char>)| r.0 == names[i]) by {
        if names.len() <= 1 {
            let f = |r: (Seq<char>, Seq<char>)| r.0 == names[i];
            assert forall|k: int| 0 <= k < rs.len() implies f(#[trigger] rs[k]) by {
                assert(request_names(rs)[k] == rs[k].0);
                assert(request_names(rs).to_set().contains(rs[k].0));
                assert(names.to_set().contains(rs[k].0));
                let j = choose|j: int| 0 <= j < names.len() && names[j] == rs[k].0;
                assert(j == i);
            }
            lemma_filter_all(rs, f);
        }
    }
}

/// Explicit mappings with other than exactly one target environment are refused before
/// anything is changed.
pub proof fn lemma_mappings_need_one_environment(rs: Seq<(Seq<char>, Seq<char>)>)
    requires
        forall|i: int| 0 <= i < rs.len() ==> is_valid_env_name(#[trigger] rs[i].0),
        distinct(request_names(rs)).len() != 1,
    ensures
        resolved_names(rs, None, true) == Err::<Seq<Seq<char>>, InstallError>(
            InstallError::AmbiguousMapping,
        ),
{
}

/// The characters that end the name part of a match spec: ASCII whitespace and the first
/// characters of a version constraint or a bracket.
pub open spec fn is_spec_delimiter(c: char) -> bool {
    c == ' ' || c == '\t' || c == '\n' || c == '\x0C' || c == '\r' || c == '>' || c == '<' || c
        == '=' || c == '!' || c == '~' || c == ';' || c == '['
}

/// The name part of a match spec: what comes before its first delimiter.
pub open spec fn spec_name_part(s: Seq<char>) -> Seq<char>
    decreases s.len(),
{
    if s.len() == 0 || is_spec_delimiter(s[0]) {
        Seq::empty()
    } else {
        seq![s[0]] + spec_name_part(s.drop_first())
    }
}

pub open spec fn is_package_name_char(c: char) -> bool {
    ('a' <= c && c <= 'z') || ('A' <= c && c <= 'Z') || ('0' <= c && c <= '9') || c == '-' || c
        == '_' || c == '.'
}

/// `lower` is `s` with each ASCII capital letter made small.
pub open spec fn is_ascii_lowercase_of(s: Seq<char>, lower: Seq<char>) -> bool {
    &&& lower.len() == s.len()
    &&& forall|i: int|
        0 <= i < s.len() ==> if 'A' <= #[trigger] s[i] && s[i] <= 'Z' {
            lower[i] as u32 == s[i] as u32 + 32
        } else {
            lower[i] == s[i]
        }
}

/// The name part of the match spec `s` is a valid package name.
pub open spec fn has_valid_name(s: Seq<char>) -> bool {
    forall|i: int|
        0 <= i < spec_name_part(s).len() ==> is_package_name_char(#[trigger] spec_name_part(s)[i])
}

/// Relies on `PackageName::from_matchspec_str` and `PackageName::as_normalized`: the name is
/// the text before the first ASCII whitespace or any of `> < = ! ~ ; [`; it is accepted where
/// it holds only ASCII letters, digits, `-`, `_` and `.`, and normalized to lower case.
#[verifier::external_body]
fn normalized_name_of_spec(spec: &str) -> (r: Option<String>)
    ensures
        r is Some <==> has_valid_name(spec@),
        r is Some ==> is_ascii_lowercase_of(spec_name_part(spec@), r->0@),
{
    rattler_conda_types::PackageName::from_matchspec_str(spec).ok().map(
        |n| n.as_normalized().to_string(),
    )
}

impl PackageRequest {
    /// The request that a match spec makes: the normalized name of its package, and the spec.
    /// A spec whose name holds other characters than ASCII letters, digits, `-`, `_` and `.`
    /// is refused.
    pub fn from_spec(spec: String) -> (r: Result<PackageRequest, InstallError>)
        ensures
            (r is Ok) == has_valid_name(spec@),
            r is Ok ==> is_ascii_lowercase_of(spec_name_part(spec@), r->Ok_0.name@),
            r is Ok ==> r->Ok_0.spec@ == spec@,
            r is Err ==> r->Err_0 == InstallError::InvalidIdentifier,
    {
        match normalized_name_of_spec(spec.as_str()) {
            Some(name) => Ok(PackageRequest { name, spec }),
            None => Err(InstallError::InvalidIdentifier),
        }
    }
}

/// The requests that the match specs `specs` make, in order; refused where one of them names
/// no valid package.
pub fn requests_from_specs(specs: &Vec<String>) -> (r: Result<Vec<PackageRequest>, InstallError>)
    ensures
        (r is Ok) == forall|k: int| 0 <= k < specs.len() ==> has_valid_name(#[trigger] specs@[k]@),
        r is Err ==> r->Err_0 == InstallError::InvalidIdentifier,
        r is Ok ==> r->Ok_0.len() == specs.len() && forall|k: int|
            0 <= k < specs.len() ==> {
                &&& is_ascii_lowercase_of(spec_name_part(specs@[k]@), #[trigger] r->Ok_0@[k].name@)
                &&& r->Ok_0@[k].spec@ == specs@[k]@
            },
{
    let mut out: Vec<PackageRequest> = Vec::new();
    let mut i: usize = 0;
    while i < specs.len()
        invariant
            i <= specs.len(),
            out.len() == i,
            forall|k: int| 0 <= k < i ==> has_valid_name(#[trigger] specs@[k]@),
            forall|k: int|
                0 <= k < i ==> {
                    &&& is_ascii_lowercase_of(spec_name_part(specs@[k]@), #[trigger] out@[k].name@)
                    &&& out@[k].spec@ == specs@[k]@
                },
        decreases specs.len() - i,
    {
        match PackageRequest::from_spec(specs[i].clone()) {
            Ok(req) => {
                let ghost prev = out@;
                out.push(req);
                assert forall|k: int| 0 <= k < i + 1 implies {
                    &&& is_ascii_lowercase_of(spec_name_part(specs@[k]@), #[trigger] out@[k].name@)
                    &&& out@[k].spec@ == specs@[k]@
                } by {
                    if k < i {
                        assert(out@[k] == prev[k]);
                    }
                }
            },
            Err(e) => {
                return Err(e);
            },
        }
        i = i + 1;
    }
    Ok(out)
}

} // verus!
