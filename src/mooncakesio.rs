use vstd::prelude::*;

use crate::text::{contains_seq, occurs_at, rfind_str};

verus! {

/// Where the registry serves package archives.
pub const BASE_URL: &'static str = "https://moonbitlang-mooncakes.s3.us-west-2.amazonaws.com/user";

/// The `application/x-www-form-urlencoded` form of a key without a value.
pub uninterp spec fn form_encoded(s: Seq<char>) -> Seq<char>;

/// Relies on form_urlencoded's `Serializer::append_key_only` on an empty
/// target, then `finish`: the encoded text of `key`, which depends on `key`
/// alone.
#[verifier::external_body]
fn form_encode_key(key: &str) -> (r: String)
    ensures
        r@ == form_encoded(key@),
{
    form_urlencoded::Serializer::new(String::new()).append_key_only(key).finish()
}

/// The archive URL of package `name` at the version whose encoded form is
/// `encoded_version`.
pub open spec fn archive_url_spec(name: Seq<char>, encoded_version: Seq<char>) -> Seq<char> {
    BASE_URL@ + "/"@ + name + "/"@ + encoded_version + ".zip"@
}

/// The archive URL of package `name` at the version whose encoded form is
/// `encoded_version`.
pub fn archive_url(name: &str, encoded_version: &str) -> (r: String)
    ensures
        r@ == archive_url_spec(name@, encoded_version@),
{
    let mut url = String::from_str(BASE_URL);
    url.append("/");
    url.append(name);
    url.append("/");
    url.append(encoded_version);
    url.append(".zip");
    url
}

/// The archive URL of version `version` of package `name`, the version
/// percent-encoded.
pub fn download_url(name: &str, version: &str) -> (r: String)
    ensures
        r@ == archive_url_spec(name@, form_encoded(version@)),
{
    let encoded = form_encode_key(version);
    archive_url(name, encoded.as_str())
}

/// The registry index under the toolchain home `home`.
pub fn index(home: &str) -> (r: String)
    ensures
        r@ == home@ + "/registry/index"@,
{
    let mut r = String::from_str(home);
    r.append("/registry/index");
    r
}

/// The file name `name` without its extension: everything before the last
/// dot, unless that dot is the first character.
pub open spec fn file_stem(name: Seq<char>, last_dot: Option<usize>) -> Seq<char> {
    match last_dot {
        Some(d) => if d > 0 {
            name.take(d as int)
        } else {
            name
        },
        None => name,
    }
}

/// The index file of package `pkg` of user `user` under the index `base`:
/// `<base>/user/<user>/<pkg>.index`, where an extension of `pkg` gives way
/// to `index`.
pub fn index_of_pkg(base: &str, user: &str, pkg: &str) -> (r: String)
    ensures
        exists|d: Option<usize>|
            {
                &&& (d matches Some(i) ==> occurs_at(pkg@, "."@, i as int) && forall|j: int|
                    i < j ==> !#[trigger] occurs_at(pkg@, "."@, j))
                &&& (d is None ==> forall|j: int| !#[trigger] occurs_at(pkg@, "."@, j))
                &&& r@ == base@ + "/user/"@ + user@ + "/"@ + file_stem(pkg@, d) + ".index"@
            },
{
    let dot = rfind_str(pkg, ".");
    let stem = match dot {
        Some(d) if d > 0 => pkg.substring_char(0, d),
        _ => pkg,
    };
    proof {
        if dot is None {
            assert forall|j: int| !#[trigger] occurs_at(pkg@, "."@, j) by {
                if occurs_at(pkg@, "."@, j) {
                    assert(contains_seq(pkg@, "."@));
                }
            }
        }
    }
    let mut r = String::from_str(base);
    r.append("/user/");
    r.append(user);
    r.append("/");
    r.append(stem);
    r.append(".index");
    assert(r@ == base@ + "/user/"@ + user@ + "/"@ + file_stem(pkg@, dot) + ".index"@);
    r
}

/// Why a registry lookup failed.
#[derive(Debug, Clone)]
pub enum MooncakesDBErrorKind {
    NotFound { key: String },
}

/// A failed registry lookup.
#[derive(Debug, Clone)]
pub struct MooncakesDBError {
    pub kind: MooncakesDBErrorKind,
}

/// The versions listed for `name`, if `name` is a key of `entries`.
pub open spec fn find_versions(entries: Seq<(String, Vec<String>)>, name: Seq<char>) -> Option<
    Seq<String>,
>
    decreases entries.len(),
{
    if entries.len() == 0 {
        None
    } else if entries.last().0@ == name {
        Some(entries.last().1@)
    } else {
        find_versions(entries.drop_last(), name)
    }
}

/// The registry listing: for each package name, its versions, oldest first.
#[derive(Debug, Clone)]
pub struct MooncakesDB {
    pub(crate) db: Vec<(String, Vec<String>)>,
}

impl MooncakesDB {
    /// The packages of the listing, each name once.
    pub open(crate) spec fn entries(&self) -> Seq<(String, Vec<String>)> {
        self.db@
    }

    /// The versions listed for `name`.
    pub open spec fn lookup(&self, name: Seq<char>) -> Option<Seq<String>> {
        find_versions(self.entries(), name)
    }

    pub open spec fn wf(&self) -> bool {
        forall|i: int, j: int|
            0 <= i < j < self.entries().len() ==> #[trigger] self.entries()[i].0@
                != #[trigger] self.entries()[j].0@
    }

    /// An empty listing.
    pub fn new() -> (r: Self)
        ensures
            r.wf(),
            r.entries().len() == 0,
            forall|n: Seq<char>| #[trigger] r.lookup(n) is None,
    {
        MooncakesDB { db: Vec::new() }
    }

    pub(crate) fn position(&self, name: &String) -> (r: Option<usize>)
        requires
            self.wf(),
        ensures
            r matches Some(i) ==> i < self.entries().len() && self.entries()[i as int].0@ == name@,
            r is None ==> forall|i: int|
                0 <= i < self.entries().len() ==> #[trigger] self.entries()[i].0@ != name@,
    {
        let mut i: usize = 0;
        while i < self.db.len()
            invariant
                i <= self.db@.len(),
                forall|k: int| 0 <= k < i ==> #[trigger] self.db@[k].0@ != name@,
            decreases self.db.len() - i,
        {
            if self.db[i].0 == *name {
                return Some(i);
            }
            i += 1;
        }
        None
    }

    /// Lists `versions` for `name`, replacing what was listed for it.
    pub fn insert(&mut self, name: String, versions: Vec<String>)
        requires
            old(self).wf(),
        ensures
            final(self).wf(),
            forall|n: Seq<char>|
                #[trigger] final(self).lookup(n) == if n == name@ {
                    Some(versions@)
                } else {
                    old(self).lookup(n)
                },
    {
        let ghost old_entries = self.db@;
        let ghost key = name@;
        let ghost vs = versions@;
        match self.position(&name) {
            Some(i) => {
                self.db.set(i, (name, versions));
                proof {
                    assert forall|n: Seq<char>|
                        #[trigger] find_versions(self.db@, n) == if n == key {
                            Some(vs)
                        } else {
                            find_versions(old_entries, n)
                        } by {
                        lemma_find_versions_set(old_entries, i as int, self.db@[i as int], n);
                    }
                }
            },
            None => {
                self.db.push((name, versions));
                proof {
                    assert(self.db@.drop_last() =~= old_entries);
                }
            },
        }
    }

    pub fn contains_key(&self, name: &str) -> (r: bool)
        requires
            self.wf(),
        ensures
            r == self.lookup(name@) is Some,
    {
        let key = String::from_str(name);
        match self.position(&key) {
            Some(i) => {
                proof {
                    lemma_find_versions_at(self.db@, i as int);
                }
                true
            },
            None => {
                proof {
                    lemma_find_versions_absent(self.db@, key@);
                }
                false
            },
        }
    }

    /// The newest (last listed) version of `name`.
    pub fn get_latest_version(&self, name: &str) -> (r: Result<String, MooncakesDBError>)
        requires
            self.wf(),
            self.lookup(name@) matches Some(vs) ==> vs.len() > 0,
        ensures
            match self.lookup(name@) {
                Some(vs) => r matches Ok(v) && v@ == vs.last()@,
                None => r matches Err(e) && e.kind matches MooncakesDBErrorKind::NotFound { key } && key@
                    == name@,
            },
    {
        let key = String::from_str(name);
        match self.position(&key) {
            Some(i) => {
                proof {
                    lemma_find_versions_at(self.db@, i as int);
                }
                let versions = &self.db[i].1;
                Ok(versions[versions.len() - 1].clone())
            },
            None => {
                proof {
                    lemma_find_versions_absent(self.db@, key@);
                }
                Err(MooncakesDBError { kind: MooncakesDBErrorKind::NotFound { key } })
            },
        }
    }
}

pub(crate) proof fn lemma_find_versions_at(entries: Seq<(String, Vec<String>)>, i: int)
    requires
        0 <= i < entries.len(),
        forall|a: int, b: int|
            0 <= a < b < entries.len() ==> #[trigger] entries[a].0@ != #[trigger] entries[b].0@,
    ensures
        find_versions(entries, entries[i].0@) == Some(entries[i].1@),
    decreases entries.len(),
{
    if i < entries.len() - 1 {
        lemma_find_versions_at(entries.drop_last(), i);
    }
}

pub(crate) proof fn lemma_find_versions_absent(entries: Seq<(String, Vec<String>)>, name: Seq<char>)
    requires
        forall|i: int| 0 <= i < entries.len() ==> #[trigger] entries[i].0@ != name,
    ensures
        find_versions(entries, name) is None,
    decreases entries.len(),
{
    if entries.len() > 0 {
        lemma_find_versions_absent(entries.drop_last(), name);
    }
}

proof fn lemma_find_versions_set(
    entries: Seq<(String, Vec<String>)>,
    i: int,
    e: (String, Vec<String>),
    n: Seq<char>,
)
    requires
        0 <= i < entries.len(),
        entries[i].0@ == e.0@,
        forall|a: int, b: int|
            0 <= a < b < entries.len() ==> #[trigger] entries[a].0@ != #[trigger] entries[b].0@,
    ensures
        find_versions(entries.update(i, e), n) == if n == e.0@ {
            Some(e.1@)
        } else {
            find_versions(entries, n)
        },
    decreases entries.len(),
{
    let u = entries.update(i, e);
    if i < entries.len() - 1 {
        assert(u.drop_last() =~= entries.drop_last().update(i, e));
        lemma_find_versions_set(entries.drop_last(), i, e, n);
    } else {
        assert(u.drop_last() =~= entries.drop_last());
        if n == e.0@ {
        } else {
        }
    }
}


/// The keyword that marks a package published only to test the registry.
pub const TEST_KEYWORD: &'static str = "mooncakes-test";

/// One line of a package's index file: a published version and its
/// keywords.
#[derive(Debug, Clone)]
pub struct MooncakeInfo {
    pub version: String,
    pub keywords: Option<Vec<String>>,
}

/// The line carries keyword `kw`.
pub open spec fn has_keyword_spec(info: MooncakeInfo, kw: Seq<char>) -> bool {
    match info.keywords {
        Some(ks) => exists|k: int| 0 <= k < ks@.len() && #[trigger] ks@[k]@ == kw,
        None => false,
    }
}

/// Some line of the index carries the test keyword.
pub open spec fn is_test_package(infos: Seq<MooncakeInfo>) -> bool {
    exists|i: int| 0 <= i < infos.len() && #[trigger] has_keyword_spec(infos[i], TEST_KEYWORD@)
}

/// The versions of an index, in the order of its lines.
pub open spec fn versions_of(infos: Seq<MooncakeInfo>) -> Seq<String> {
    infos.map_values(|i: MooncakeInfo| i.version)
}

/// The package name of an index file, given its path below the index's
/// `user` directory: the path up to its last `.index`, or all of it.
pub fn package_name(rel: &str) -> (r: String)
    ensures
        !contains_seq(rel@, ".index"@) ==> r@ == rel@,
        contains_seq(rel@, ".index"@) ==> exists|i: int|
            {
                &&& occurs_at(rel@, ".index"@, i)
                &&& forall|j: int| i < j ==> !#[trigger] occurs_at(rel@, ".index"@, j)
                &&& r@ == rel@.take(i)
            },
{
    match rfind_str(rel, ".index") {
        Some(d) => {
            let r = String::from_str(rel.substring_char(0, d));
            assert(occurs_at(rel@, ".index"@, d as int));
            r
        },
        None => String::from_str(rel),
    }
}

fn has_keyword(keywords: &Vec<String>, keyword: &String) -> (r: bool)
    ensures
        r == exists|k: int| 0 <= k < keywords@.len() && #[trigger] keywords@[k]@ == keyword@,
{
    let mut k: usize = 0;
    while k < keywords.len()
        invariant
            k <= keywords@.len(),
            forall|t: int| 0 <= t < k ==> #[trigger] keywords@[t]@ != keyword@,
        decreases keywords.len() - k,
    {
        if keywords[k] == *keyword {
            return true;
        }
        k += 1;
    }
    false
}

impl MooncakesDB {
    /// Lists package `name` with the versions of its index lines, unless a
    /// line marks it as a test package; tells whether it was listed.
    pub fn add_package(&mut self, name: String, infos: &Vec<MooncakeInfo>) -> (added: bool)
        requires
            old(self).wf(),
        ensures
            final(self).wf(),
            added == !is_test_package(infos@),
            !added ==> final(self).entries() == old(self).entries(),
            added ==> forall|n: Seq<char>|
                #[trigger] final(self).lookup(n) == if n == name@ {
                    Some(versions_of(infos@))
                } else {
                    old(self).lookup(n)
                },
    {
        let test_keyword = String::from_str(TEST_KEYWORD);
        let mut versions: Vec<String> = Vec::new();
        let mut i: usize = 0;
        while i < infos.len()
            invariant
                i <= infos@.len(),
                self.wf(),
                *self == *old(self),
                test_keyword@ == TEST_KEYWORD@,
                versions@ == versions_of(infos@.take(i as int)),
                !is_test_package(infos@.take(i as int)),
            decreases infos.len() - i,
        {
            let info = &infos[i];
            if let Some(ks) = &info.keywords {
                if has_keyword(ks, &test_keyword) {
                    assert(has_keyword_spec(infos@[i as int], TEST_KEYWORD@));
                    return false;
                }
            }
            versions.push(info.version.clone());
            proof {
                let t = infos@.take(i + 1);
                assert(versions@ =~= versions_of(t));
                assert forall|a: int| 0 <= a < t.len() implies !#[trigger] has_keyword_spec(
                    t[a],
                    TEST_KEYWORD@,
                ) by {
                    if a < i {
                        assert(infos@.take(i as int)[a] == t[a]);
                    }
                }
            }
            i += 1;
        }
        assert(infos@.take(infos@.len() as int) =~= infos@);
        self.insert(name, versions);
        true
    }
}

} // verus!
