use vstd::prelude::*;

use crate::dashboard::{Backend, MooncakeSource, OS};

verus! {

/// The declaration file: repositories and registry packages to test.
#[derive(Debug, Clone)]
pub struct ReposConfig {
    pub github_repos: Vec<GithubRepo>,
    pub mooncakes: Vec<Mooncake>,
}

/// A repository declaration, with optional OS and backend overrides.
#[derive(Debug, Clone)]
pub struct GithubRepo {
    pub name: String,
    pub link: String,
    pub branch: String,
    pub running_os: Option<Vec<OS>>,
    pub running_backend: Option<Vec<Backend>>,
}

/// A registry package declaration, with optional OS and backend overrides.
#[derive(Debug, Clone)]
pub struct Mooncake {
    pub name: String,
    pub version: String,
    pub running_os: Option<Vec<OS>>,
    pub running_backend: Option<Vec<Backend>>,
}

/// Fully-qualified package names to leave out of a registry listing.
#[derive(Debug, Clone)]
pub struct ExcludeConfig {
    pub exclude: Vec<String>,
}

/// The operating systems of a declaration that names none.
pub open spec fn default_os() -> Seq<OS> {
    seq![OS::Linux, OS::MacOS, OS::Windows]
}

/// The backends of a declaration that names none.
pub open spec fn default_backends() -> Seq<Backend> {
    seq![Backend::WasmGC, Backend::Wasm, Backend::Js, Backend::Native]
}

/// The override if there is one, else `default`.
pub open spec fn or_default<T>(o: Option<Vec<T>>, default: Seq<T>) -> Seq<T> {
    match o {
        Some(v) => v@,
        None => default,
    }
}

/// `s` is the source made of repository `r`, at index `i`.
pub open spec fn repo_source(s: MooncakeSource, r: GithubRepo, i: int) -> bool {
    s matches MooncakeSource::Git { url, rev, running_os, running_backend, index } && {
        &&& url == r.link
        &&& rev@ == seq![r.branch]
        &&& running_os@ == or_default(r.running_os, default_os())
        &&& running_backend@ == or_default(r.running_backend, default_backends())
        &&& index == i
    }
}

/// `s` is the source made of package `m`, at index `i`.
pub open spec fn package_source(s: MooncakeSource, m: Mooncake, i: int) -> bool {
    s matches MooncakeSource::MooncakesIO { name, version, running_os, running_backend, index } && {
        &&& name == m.name
        &&& version@ == seq![m.version]
        &&& running_os@ == or_default(m.running_os, default_os())
        &&& running_backend@ == or_default(m.running_backend, default_backends())
        &&& index == i
    }
}

/// `s` is the ad-hoc repository `url`, with no revisions and the defaults.
pub open spec fn adhoc_source(s: MooncakeSource, url: String) -> bool {
    s matches MooncakeSource::Git { url: u, rev, running_os, running_backend, index } && {
        &&& u == url
        &&& rev@.len() == 0
        &&& running_os@ == default_os()
        &&& running_backend@ == default_backends()
        &&& index == 0
    }
}

fn copy_vec<T: Copy>(v: &Vec<T>) -> (r: Vec<T>)
    ensures
        r@ == v@,
{
    let mut r: Vec<T> = Vec::new();
    let mut i: usize = 0;
    while i < v.len()
        invariant
            i <= v@.len(),
            r@ == v@.take(i as int),
        decreases v.len() - i,
    {
        r.push(v[i]);
        assert(r@ =~= v@.take(i + 1));
        i += 1;
    }
    assert(v@.take(v@.len() as int) =~= v@);
    r
}

fn default_os_vec() -> (r: Vec<OS>)
    ensures
        r@ == default_os(),
{
    let r = vec![OS::Linux, OS::MacOS, OS::Windows];
    assert(r@ =~= default_os());
    r
}

fn default_backend_vec() -> (r: Vec<Backend>)
    ensures
        r@ == default_backends(),
{
    let r = vec![Backend::WasmGC, Backend::Wasm, Backend::Js, Backend::Native];
    assert(r@ =~= default_backends());
    r
}

fn os_or_default(o: &Option<Vec<OS>>) -> (r: Vec<OS>)
    ensures
        r@ == or_default(*o, default_os()),
{
    match o {
        Some(v) => copy_vec(v),
        None => default_os_vec(),
    }
}

fn backends_or_default(o: &Option<Vec<Backend>>) -> (r: Vec<Backend>)
    ensures
        r@ == or_default(*o, default_backends()),
{
    match o {
        Some(v) => copy_vec(v),
        None => default_backend_vec(),
    }
}

/// The source list of a run: the ad-hoc repository if one is given, then the
/// declared repositories, then the declared packages, indexed from zero in
/// that order.
pub fn get_mooncake_sources(repo_url: &Option<String>, repos: &Option<ReposConfig>) -> (r: Vec<
    MooncakeSource,
>)
    requires
        repos matches Some(c) ==> c.github_repos@.len() + c.mooncakes@.len() < usize::MAX,
    ensures
        forall|i: int| 0 <= i < r@.len() ==> #[trigger] r@[i].index_of() == i,
        ({
            let k: int = if repo_url is Some {
                1
            } else {
                0
            };
            &&& repo_url matches Some(u) ==> adhoc_source(r@[0], *u)
            &&& match *repos {
                None => r@.len() == k,
                Some(c) => {
                    &&& r@.len() == k + c.github_repos@.len() + c.mooncakes@.len()
                    &&& forall|j: int|
                        0 <= j < c.github_repos@.len() ==> repo_source(
                            #[trigger] r@[k + j],
                            c.github_repos@[j],
                            k + j,
                        )
                    &&& forall|j: int|
                        0 <= j < c.mooncakes@.len() ==> package_source(
                            #[trigger] r@[k + c.github_repos@.len() + j],
                            c.mooncakes@[j],
                            k + c.github_repos@.len() + j,
                        )
                },
            }
        }),
{
    let mut list: Vec<MooncakeSource> = Vec::new();
    if let Some(u) = repo_url {
        list.push(
            MooncakeSource::Git {
                url: u.clone(),
                rev: Vec::new(),
                index: 0,
                running_os: default_os_vec(),
                running_backend: default_backend_vec(),
            },
        );
    }
    let ghost k: int = list@.len() as int;
    if let Some(c) = repos {
        let mut j: usize = 0;
        while j < c.github_repos.len()
            invariant
                k <= 1,
                repo_url is Some ==> k == 1 && adhoc_source(list@[0], repo_url->0),
                repo_url is None ==> k == 0,
                c.github_repos@.len() + c.mooncakes@.len() < usize::MAX,
                j <= c.github_repos@.len(),
                list@.len() == k + j,
                forall|i: int| 0 <= i < list@.len() ==> #[trigger] list@[i].index_of() == i,
                forall|i: int|
                    0 <= i < j ==> repo_source(#[trigger] list@[k + i], c.github_repos@[i], k + i),
            decreases c.github_repos.len() - j,
        {
            let repo = &c.github_repos[j];
            let index = list.len();
            list.push(
                MooncakeSource::Git {
                    url: repo.link.clone(),
                    rev: vec![repo.branch.clone()],
                    index,
                    running_os: os_or_default(&repo.running_os),
                    running_backend: backends_or_default(&repo.running_backend),
                },
            );
            proof {
                let s = list@[k + j];
                if let MooncakeSource::Git { rev, .. } = s {
                    assert(rev@ =~= seq![repo.branch]);
                }
            }
            j += 1;
        }
        let g = c.github_repos.len();
        let mut j: usize = 0;
        while j < c.mooncakes.len()
            invariant
                k <= 1,
                repo_url is Some ==> k == 1 && adhoc_source(list@[0], repo_url->0),
                repo_url is None ==> k == 0,
                c.github_repos@.len() + c.mooncakes@.len() < usize::MAX,
                g == c.github_repos@.len(),
                j <= c.mooncakes@.len(),
                list@.len() == k + g + j,
                forall|i: int| 0 <= i < list@.len() ==> #[trigger] list@[i].index_of() == i,
                forall|i: int|
                    0 <= i < g ==> repo_source(#[trigger] list@[k + i], c.github_repos@[i], k + i),
                forall|i: int|
                    0 <= i < j ==> package_source(
                        #[trigger] list@[k + g + i],
                        c.mooncakes@[i],
                        k + g + i,
                    ),
            decreases c.mooncakes.len() - j,
        {
            let m = &c.mooncakes[j];
            let index = list.len();
            list.push(
                MooncakeSource::MooncakesIO {
                    name: m.name.clone(),
                    version: vec![m.version.clone()],
                    running_os: os_or_default(&m.running_os),
                    running_backend: backends_or_default(&m.running_backend),
                    index,
                },
            );
            proof {
                let s = list@[k + g + j];
                if let MooncakeSource::MooncakesIO { version, .. } = s {
                    assert(version@ =~= seq![m.version]);
                }
            }
            j += 1;
        }
    }
    list
}

} // verus!
