use vstd::prelude::*;
use crate::entities::{valid_package_fields, DependencyModel, PackageModel, PackageTagRecord};
use crate::errors::RegistryError;
use crate::model::{
    has_package_id, has_package_key, has_tag_id, has_user_id, package_index_by_id, store_wf,
    StoreModel,
};
use crate::payloads::DependencyRequestModel;
use crate::query::{matches_filter, matching_packages, PackageFilterModel};
use crate::store::{insert_package_step, remove_package_step};
use crate::text::contains_seq;

verus! {

/// A creation whose key is free is owed success: from any state with valid
/// fields, a known author, an unused (name, version) key and id space left,
/// the create step returns Ok, and afterwards the key is present. Together
/// with `law_duplicate_create_rejected` this says that creations with
/// pairwise distinct keys all succeed.
pub proof fn law_fresh_create_succeeds(
    pre: StoreModel,
    post: StoreModel,
    name: Seq<char>,
    version: Seq<char>,
    description: Option<Seq<char>>,
    maintainer: Seq<char>,
    architecture: Seq<char>,
    size: i64,
    checksum: Seq<char>,
    storage_path: Seq<char>,
    author_id: u64,
    deps: Seq<DependencyRequestModel>,
    tag_ids: Seq<u64>,
    now: i64,
    r: Result<u64, RegistryError>,
)
    requires
        insert_package_step(
            pre,
            post,
            name,
            version,
            description,
            maintainer,
            architecture,
            size,
            checksum,
            storage_path,
            author_id,
            deps,
            tag_ids,
            now,
            r,
        ),
        valid_package_fields(name, size),
        has_user_id(pre.users, author_id),
        !has_package_key(pre.packages, name, version),
        pre.next_id < u64::MAX,
    ensures
        r is Ok,
        has_package_key(post.packages, name, version),
{
    if r is Ok {
        assert(post.packages[post.packages.len() - 1].name == name);
        assert(post.packages[post.packages.len() - 1].version == version);
    }
}

/// A creation whose (name, version) key is already taken is rejected with
/// ConstraintViolation and leaves the store untouched, whoever the caller
/// is and whatever the rest of the payload says.
pub proof fn law_duplicate_create_rejected(
    pre: StoreModel,
    post: StoreModel,
    name: Seq<char>,
    version: Seq<char>,
    description: Option<Seq<char>>,
    maintainer: Seq<char>,
    architecture: Seq<char>,
    size: i64,
    checksum: Seq<char>,
    storage_path: Seq<char>,
    author_id: u64,
    deps: Seq<DependencyRequestModel>,
    tag_ids: Seq<u64>,
    now: i64,
    r: Result<u64, RegistryError>,
)
    requires
        insert_package_step(
            pre,
            post,
            name,
            version,
            description,
            maintainer,
            architecture,
            size,
            checksum,
            storage_path,
            author_id,
            deps,
            tag_ids,
            now,
            r,
        ),
        valid_package_fields(name, size),
        has_user_id(pre.users, author_id),
        has_package_key(pre.packages, name, version),
    ensures
        r == Err::<u64, RegistryError>(RegistryError::ConstraintViolation),
        post == pre,
{
}

/// A present (name, version) key survives any create step, of that key or
/// of any other.
pub proof fn law_key_persists_across_create(
    pre: StoreModel,
    post: StoreModel,
    name: Seq<char>,
    version: Seq<char>,
    name2: Seq<char>,
    version2: Seq<char>,
    description: Option<Seq<char>>,
    maintainer: Seq<char>,
    architecture: Seq<char>,
    size: i64,
    checksum: Seq<char>,
    storage_path: Seq<char>,
    author_id: u64,
    deps: Seq<DependencyRequestModel>,
    tag_ids: Seq<u64>,
    now: i64,
    r: Result<u64, RegistryError>,
)
    requires
        insert_package_step(
            pre,
            post,
            name2,
            version2,
            description,
            maintainer,
            architecture,
            size,
            checksum,
            storage_path,
            author_id,
            deps,
            tag_ids,
            now,
            r,
        ),
        has_package_key(pre.packages, name, version),
    ensures
        has_package_key(post.packages, name, version),
{
    let i = choose|i: int|
        0 <= i < pre.packages.len() && (#[trigger] pre.packages[i]).name == name && pre.packages[
            i
        ].version == version;
    match r {
        Ok(_) => {
            assert(post.packages[i].name == name && post.packages[i].version == version);
        },
        Err(_) => {
            assert(post.packages[i].name == name && post.packages[i].version == version);
        },
    }
}

/// When several callers race to create one (name, version) key and the
/// store serializes them, there is exactly one winner: once a step has
/// taken the key, the very next create of that key is rejected with
/// ConstraintViolation — and, by `law_key_persists_across_create`, so is
/// every later one, whatever creations happen in between.
pub proof fn law_create_race_single_winner(
    s0: StoreModel,
    s1: StoreModel,
    s2: StoreModel,
    name: Seq<char>,
    version: Seq<char>,
    d1: Option<Seq<char>>,
    m1: Seq<char>,
    a1: Seq<char>,
    z1: i64,
    c1: Seq<char>,
    p1: Seq<char>,
    u1: u64,
    deps1: Seq<DependencyRequestModel>,
    t1: Seq<u64>,
    n1: i64,
    r1: Result<u64, RegistryError>,
    d2: Option<Seq<char>>,
    m2: Seq<char>,
    a2: Seq<char>,
    z2: i64,
    c2: Seq<char>,
    p2: Seq<char>,
    u2: u64,
    deps2: Seq<DependencyRequestModel>,
    t2: Seq<u64>,
    n2: i64,
    r2: Result<u64, RegistryError>,
)
    requires
        insert_package_step(
            s0,
            s1,
            name,
            version,
            d1,
            m1,
            a1,
            z1,
            c1,
            p1,
            u1,
            deps1,
            t1,
            n1,
            r1,
        ),
        insert_package_step(
            s1,
            s2,
            name,
            version,
            d2,
            m2,
            a2,
            z2,
            c2,
            p2,
            u2,
            deps2,
            t2,
            n2,
            r2,
        ),
        r1 is Ok,
        valid_package_fields(name, z2),
        has_user_id(s1.users, u2),
    ensures
        r2 == Err::<u64, RegistryError>(RegistryError::ConstraintViolation),
        s2 == s1,
{
    assert(s1.packages[s1.packages.len() - 1].name == name);
    assert(s1.packages[s1.packages.len() - 1].version == version);
    assert(has_package_key(s1.packages, name, version));
}

/// What a fresh creation stores is exactly what was asked: in the new
/// state, the created id resolves to a package carrying the request fields
/// and the generated id, checksum, storage path and timestamps.
pub proof fn law_get_after_create(
    pre: StoreModel,
    post: StoreModel,
    name: Seq<char>,
    version: Seq<char>,
    description: Option<Seq<char>>,
    maintainer: Seq<char>,
    architecture: Seq<char>,
    size: i64,
    checksum: Seq<char>,
    storage_path: Seq<char>,
    author_id: u64,
    deps: Seq<DependencyRequestModel>,
    tag_ids: Seq<u64>,
    now: i64,
    id: u64,
)
    requires
        store_wf(post),
        insert_package_step(
            pre,
            post,
            name,
            version,
            description,
            maintainer,
            architecture,
            size,
            checksum,
            storage_path,
            author_id,
            deps,
            tag_ids,
            now,
            Ok(id),
        ),
    ensures
        has_package_id(post.packages, id),
        post.packages[package_index_by_id(post.packages, id)] == (PackageModel {
            id,
            name,
            version,
            description,
            maintainer,
            architecture,
            size,
            checksum,
            storage_path,
            author_id,
            created_at: now,
            updated_at: now,
        }),
{
    let last = post.packages.len() - 1;
    assert(post.packages[last].id == id);
    let j = package_index_by_id(post.packages, id);
    assert(0 <= j < post.packages.len() && post.packages[j].id == id);
    if j != last {
        assert(post.packages[j].id != post.packages[last].id);
    }
}

/// Deleting a package removes it and every dependency row and tag link it
/// owned: afterwards the id no longer resolves, no row and no link names
/// it, and the tags themselves — shared or not — are untouched.
pub proof fn law_delete_cascades(pre: StoreModel, post: StoreModel, id: u64)
    requires
        store_wf(pre),
        remove_package_step(pre, post, id, Ok(())),
    ensures
        !has_package_id(post.packages, id),
        forall|i: int|
            0 <= i < post.dependencies.len() ==> (#[trigger] post.dependencies[i]).package_id
                != id,
        forall|i: int|
            0 <= i < post.links.len() ==> (#[trigger] post.links[i]).package_id != id,
        post.tags == pre.tags,
        forall|t: u64| has_tag_id(pre.tags, t) == has_tag_id(post.tags, t),
{
    let at = package_index_by_id(pre.packages, id);
    assert(0 <= at < pre.packages.len() && pre.packages[at].id == id);
    assert forall|j: int| 0 <= j < post.packages.len() implies (#[trigger] post.packages[j]).id
        != id by {
        let j0 = if j < at {
            j
        } else {
            j + 1
        };
        assert(post.packages[j] == pre.packages[j0]);
        if j0 != at {
            assert(pre.packages[j0].id != pre.packages[at].id);
        }
    }
    let dpred = |d: DependencyModel| d.package_id != id;
    assert forall|i: int| 0 <= i < post.dependencies.len() implies (
    #[trigger] post.dependencies[i]).package_id != id by {
        pre.dependencies.lemma_filter_pred(dpred, i);
    }
    let lpred = |l: PackageTagRecord| l.package_id != id;
    assert forall|i: int| 0 <= i < post.links.len() implies (#[trigger] post.links[i]).package_id
        != id by {
        pre.links.lemma_filter_pred(lpred, i);
    }
}

/// A maintainer filter keeps exactly the packages whose maintainer equals
/// the given string — a statement about the set of results, independent of
/// insertion order.
pub proof fn law_find_by_maintainer_exact(
    s: StoreModel,
    m: Seq<char>,
    f: PackageFilterModel,
    p: PackageModel,
)
    requires
        f.name_contains is None,
        f.maintainer == Some(m),
        f.author_id is None,
        f.tag is None,
    ensures
        matching_packages(s, f).contains(p) <==> (s.packages.contains(p) && p.maintainer == m),
{
    let pred = |q: PackageModel| matches_filter(s, q, f);
    if matching_packages(s, f).contains(p) {
        let i = choose|i: int|
            0 <= i < matching_packages(s, f).len() && matching_packages(s, f)[i] == p;
        s.packages.lemma_filter_pred(pred, i);
        s.packages.lemma_filter_contains_rev(pred, p);
    }
    if s.packages.contains(p) && p.maintainer == m {
        let i = choose|i: int| 0 <= i < s.packages.len() && s.packages[i] == p;
        assert(pred(s.packages[i]));
        s.packages.lemma_filter_contains(pred, i);
    }
}

/// A search keeps exactly the union of the packages whose name contains the
/// query and those whose description contains it. Freedom from duplicates
/// is part of the search operation's own contract.
pub proof fn law_search_is_union(s: StoreModel, q: Seq<char>, p: PackageModel)
    ensures
        s.packages.filter(|x: PackageModel| crate::query::matches_search(x, q)).contains(p) <==> (
        s.packages.contains(p) && (contains_seq(p.name, q) || match p.description {
            Some(d) => contains_seq(d, q),
            None => false,
        })),
{
    let pred = |x: PackageModel| crate::query::matches_search(x, q);
    let out = s.packages.filter(pred);
    if out.contains(p) {
        let i = choose|i: int| 0 <= i < out.len() && out[i] == p;
        s.packages.lemma_filter_pred(pred, i);
        s.packages.lemma_filter_contains_rev(pred, p);
    }
    if s.packages.contains(p) && pred(p) {
        let i = choose|i: int| 0 <= i < s.packages.len() && s.packages[i] == p;
        assert(pred(s.packages[i]));
        s.packages.lemma_filter_contains(pred, i);
    }
}

/// A free (name, version) key stays free across a creation of any other
/// key: a create step only ever adds the key it was asked for. With
/// `law_fresh_create_succeeds` this closes the argument that creations
/// with pairwise distinct keys all succeed, in any order.
pub proof fn law_other_create_keeps_key_free(
    pre: StoreModel,
    post: StoreModel,
    name: Seq<char>,
    version: Seq<char>,
    name2: Seq<char>,
    version2: Seq<char>,
    description: Option<Seq<char>>,
    maintainer: Seq<char>,
    architecture: Seq<char>,
    size: i64,
    checksum: Seq<char>,
    storage_path: Seq<char>,
    author_id: u64,
    deps: Seq<DependencyRequestModel>,
    tag_ids: Seq<u64>,
    now: i64,
    r: Result<u64, RegistryError>,
)
    requires
        insert_package_step(
            pre,
            post,
            name2,
            version2,
            description,
            maintainer,
            architecture,
            size,
            checksum,
            storage_path,
            author_id,
            deps,
            tag_ids,
            now,
            r,
        ),
        !has_package_key(pre.packages, name, version),
        !(name2 == name && version2 == version),
    ensures
        !has_package_key(post.packages, name, version),
{
    match r {
        Ok(_) => {
            assert forall|i: int| 0 <= i < post.packages.len() implies !((
            #[trigger] post.packages[i]).name == name && post.packages[i].version == version) by {
                if i < pre.packages.len() {
                    assert(post.packages[i] == pre.packages[i]);
                } else {
                    assert(post.packages[i].name == name2 && post.packages[i].version == version2);
                }
            }
        },
        Err(_) => {},
    }
}

} // verus!
