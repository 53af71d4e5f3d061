use vstd::multiset::Multiset;
use vstd::prelude::*;

use crate::config::Mooncake;
use crate::dashboard::{Backend, OS};
use crate::mooncakesio::{lemma_find_versions_absent, lemma_find_versions_at, MooncakesDB};
use crate::order::{lemma_name_le_transitive, lemma_name_lt_trichotomy, name_le, name_lt, str_lt};
use crate::text::{replace_char, replace_char_str};

verus! {

/// What a package declaration says: name, version and overrides.
pub open spec fn mooncake_view(m: Mooncake) -> (Seq<char>, Seq<char>, Option<Seq<OS>>, Option<Seq<Backend>>) {
    (m.name@, m.version@, opt_view(m.running_os), opt_view(m.running_backend))
}

pub open spec fn opt_view<T>(o: Option<Vec<T>>) -> Option<Seq<T>> {
    match o {
        Some(v) => Some(v@),
        None => None,
    }
}

pub open spec fn views(s: Seq<Mooncake>) -> Seq<(Seq<char>, Seq<char>, Option<Seq<OS>>, Option<Seq<Backend>>)> {
    s.map_values(|m: Mooncake| mooncake_view(m))
}

/// The declarations are in order of name.
pub open spec fn sorted_by_name(s: Seq<Mooncake>) -> bool {
    forall|i: int, j: int| 0 <= i < j < s.len() ==> name_le(#[trigger] s[i].name@, #[trigger] s[j].name@)
}

fn sort_by_name(v: Vec<Mooncake>) -> (r: Vec<Mooncake>)
    ensures
        sorted_by_name(r@),
        views(r@).to_multiset() == views(v@).to_multiset(),
{
    broadcast use vstd::seq_lib::group_to_multiset_ensures, vstd::multiset::group_multiset_axioms;

    let ghost orig = v@;
    let mut rest = v;
    let mut out: Vec<Mooncake> = Vec::new();
    assert(views(out@) =~= Seq::empty());
    assert(views(out@).to_multiset() =~= Multiset::empty());
    assert(views(out@).to_multiset().add(views(rest@).to_multiset()) =~= views(orig).to_multiset());
    while rest.len() > 0
        invariant
            sorted_by_name(out@),
            views(out@).to_multiset().add(views(rest@).to_multiset()) == views(orig).to_multiset(),
        decreases rest.len(),
    {
        let ghost before = rest@;
        let x = rest.pop().unwrap();
        assert(before =~= rest@.push(x));
        assert(views(before) =~= views(rest@).push(mooncake_view(x)));
        let mut p: usize = 0;
        while p < out.len() && str_lt(out[p].name.as_str(), x.name.as_str())
            invariant
                p <= out@.len(),
                forall|k: int| 0 <= k < p ==> name_lt(#[trigger] out@[k].name@, x.name@),
            decreases out.len() - p,
        {
            p += 1;
        }
        let ghost old_out = out@;
        out.insert(p, x);
        assert(views(out@) =~= views(old_out).insert(p as int, mooncake_view(x)));
        assert forall|i: int, j: int| 0 <= i < j < out@.len() implies name_le(
            #[trigger] out@[i].name@,
            #[trigger] out@[j].name@,
        ) by {
            if j == p {
                lemma_name_lt_trichotomy(old_out[i].name@, x.name@);
            } else if i == p {
                lemma_name_lt_trichotomy(old_out[p as int].name@, x.name@);
                if j - 1 > p {
                    lemma_name_le_transitive(x.name@, old_out[p as int].name@, old_out[j - 1].name@);
                }
            } else if i < p && j > p {
                assert(name_le(old_out[i].name@, old_out[j - 1].name@));
            } else if i > p {
                assert(name_le(old_out[i - 1].name@, old_out[j - 1].name@));
            }
        }
        proof {
            vstd::seq_lib::to_multiset_insert(views(old_out), p as int, mooncake_view(x));
            vstd::seq_lib::to_multiset_build(views(rest@), mooncake_view(x));
        }
        assert(views(out@).to_multiset().add(views(rest@).to_multiset()) =~= views(orig).to_multiset());
    }
    assert(views(rest@) =~= Seq::empty());
    assert(views(rest@).to_multiset() =~= Multiset::empty());
    assert(views(out@).to_multiset().add(views(rest@).to_multiset()) =~= views(out@).to_multiset());
    out
}


/// A package name as the registry index writes it, with `/` for `\`.
pub open spec fn registry_name(n: Seq<char>) -> Seq<char> {
    replace_char(n, '\\', '/')
}

/// `n` is one of the excluded names.
pub open spec fn is_excluded(exclude: Seq<String>, n: Seq<char>) -> bool {
    exists|k: int| 0 <= k < exclude.len() && #[trigger] exclude[k]@ == n
}

/// Some declaration names the package `n`.
pub open spec fn is_declared(declared: Seq<Mooncake>, n: Seq<char>) -> bool {
    exists|k: int| 0 <= k < declared.len() && registry_name(#[trigger] declared[k].name@) == n
}

/// The declarations that stay, in order: each that is not excluded and that
/// the registry lists with at least one version, moved to the newest one.
pub open spec fn kept_declarations(
    declared: Seq<Mooncake>,
    db: MooncakesDB,
    exclude: Seq<String>,
) -> Seq<(Seq<char>, Seq<char>, Option<Seq<OS>>, Option<Seq<Backend>>)>
    decreases declared.len(),
{
    if declared.len() == 0 {
        Seq::empty()
    } else {
        let m = declared.last();
        let n = registry_name(m.name@);
        kept_declarations(declared.drop_last(), db, exclude) + match db.lookup(n) {
            Some(vs) => if !is_excluded(exclude, n) && vs.len() > 0 {
                seq![(m.name@, vs.last()@, opt_view(m.running_os), opt_view(m.running_backend))]
            } else {
                Seq::empty()
            },
            None => Seq::empty(),
        }
    }
}

/// The packages that the registry lists and no declaration names, in the
/// order of the listing: each not excluded and with at least one version, at
/// its newest version and without overrides.
pub open spec fn new_packages(
    entries: Seq<(String, Vec<String>)>,
    declared: Seq<Mooncake>,
    exclude: Seq<String>,
) -> Seq<(Seq<char>, Seq<char>, Option<Seq<OS>>, Option<Seq<Backend>>)>
    decreases entries.len(),
{
    if entries.len() == 0 {
        Seq::empty()
    } else {
        let e = entries.last();
        let n = registry_name(e.0@);
        new_packages(entries.drop_last(), declared, exclude) + if !is_declared(declared, n)
            && !is_excluded(exclude, n) && e.1@.len() > 0 {
            seq![(n, e.1@.last()@, None, None)]
        } else {
            Seq::empty()
        }
    }
}

fn contains_string(v: &Vec<String>, n: &String) -> (r: bool)
    ensures
        r == exists|k: int| 0 <= k < v@.len() && #[trigger] v@[k]@ == n@,
{
    let mut i: usize = 0;
    while i < v.len()
        invariant
            i <= v@.len(),
            forall|k: int| 0 <= k < i ==> #[trigger] v@[k]@ != n@,
        decreases v.len() - i,
    {
        if v[i] == *n {
            return true;
        }
        i += 1;
    }
    false
}

fn copy_option_vec<T: Copy>(o: &Option<Vec<T>>) -> (r: Option<Vec<T>>)
    ensures
        opt_view(r) == opt_view(*o),
{
    match o {
        Some(v) => {
            let mut r: Vec<T> = Vec::new();
            let mut i: usize = 0;
            while i < v.len()
                invariant
                    i <= v@.len(),
                    r@ == v@.take(i as int),
                decreases v.len() - i,
            {
                r.push(v[i]);
                assert(r@ =~= v@.take(i + 1));
                i += 1;
            }
            assert(v@.take(v@.len() as int) =~= v@);
            Some(r)
        },
        None => None,
    }
}

fn to_registry_name(name: &String) -> (r: String)
    ensures
        r@ == registry_name(name@),
{
    proof {
        reveal_strlit("/");
    }
    replace_char_str(name.as_str(), '\\', "/")
}

/// The package declarations brought up to date with the registry: the
/// declarations that stay, moved to the newest listed version, then the
/// listed packages that no declaration names, leaving out excluded names and
/// packages without versions, all sorted by name.
pub fn latest_mooncakes(declared: &Vec<Mooncake>, db: &MooncakesDB, exclude: &Vec<String>) -> (r:
    Vec<Mooncake>)
    requires
        db.wf(),
    ensures
        sorted_by_name(r@),
        views(r@).to_multiset() == (kept_declarations(declared@, *db, exclude@) + new_packages(
            db.entries(),
            declared@,
            exclude@,
        )).to_multiset(),
{
    let mut out: Vec<Mooncake> = Vec::new();
    let mut names: Vec<String> = Vec::new();
    let mut j: usize = 0;
    while j < declared.len()
        invariant
            db.wf(),
            j <= declared@.len(),
            names@.len() == j,
            forall|k: int| 0 <= k < j ==> #[trigger] names@[k]@ == registry_name(declared@[k].name@),
            views(out@) == kept_declarations(declared@.take(j as int), *db, exclude@),
        decreases declared.len() - j,
    {
        let m = &declared[j];
        let n = to_registry_name(&m.name);
        assert(declared@.take(j + 1).drop_last() =~= declared@.take(j as int));
        if !contains_string(exclude, &n) {
            match db.position(&n) {
                Some(i) => {
                    proof {
                        lemma_find_versions_at(db.db@, i as int);
                    }
                    let vs = &db.db[i].1;
                    if vs.len() > 0 {
                        out.push(
                            Mooncake {
                                name: m.name.clone(),
                                version: vs[vs.len() - 1].clone(),
                                running_os: copy_option_vec(&m.running_os),
                                running_backend: copy_option_vec(&m.running_backend),
                            },
                        );
                    }
                },
                None => {
                    proof {
                        lemma_find_versions_absent(db.db@, n@);
                    }
                },
            }
        }
        assert(views(out@) =~= kept_declarations(declared@.take(j + 1), *db, exclude@));
        names.push(n);
        j += 1;
    }
    assert(declared@.take(declared@.len() as int) =~= declared@);
    let ghost kept = views(out@);
    let mut i: usize = 0;
    while i < db.db.len()
        invariant
            i <= db.db@.len(),
            names@.len() == declared@.len(),
            forall|k: int| 0 <= k < names@.len() ==> #[trigger] names@[k]@ == registry_name(declared@[k].name@),
            views(out@) == kept + new_packages(db.db@.take(i as int), declared@, exclude@),
        decreases db.db.len() - i,
    {
        let e = &db.db[i];
        let n = to_registry_name(&e.0);
        let ghost before = out@;
        assert(db.db@.take(i + 1).drop_last() =~= db.db@.take(i as int));
        let is_named = contains_string(&names, &n);
        assert(is_named == is_declared(declared@, n@)) by {
            if is_declared(declared@, n@) {
                let k = choose|k: int| 0 <= k < declared@.len() && registry_name(#[trigger] declared@[k].name@) == n@;
                assert(names@[k]@ == n@);
            }
        }
        let excluded = contains_string(exclude, &n);
        let ghost taken = db.db@.take(i + 1);
        assert(taken.last() == db.db@[i as int]);
        if !is_named && !excluded && e.1.len() > 0 {
            out.push(
                Mooncake {
                    name: n,
                    version: e.1[e.1.len() - 1].clone(),
                    running_os: None,
                    running_backend: None,
                },
            );
            assert(views(out@) =~= views(before).push(mooncake_view(out@.last())));
        } else {
            assert(views(out@) =~= views(before));
        }
        assert(views(out@) =~= kept + new_packages(db.db@.take(i + 1), declared@, exclude@));
        i += 1;
    }
    assert(db.db@.take(db.db@.len() as int) =~= db.db@);
    sort_by_name(out)
}

} // verus!
