use vstd::prelude::*;
use crate::entities::{
    DependencyModel, PackageModel, PackageTagRecord, SessionModel, TagModel, UserModel,
};

verus! {

/// Mathematical image of the whole entity store.
#[verifier::ext_equal]
pub ghost struct StoreModel {
    pub users: Seq<UserModel>,
    pub packages: Seq<PackageModel>,
    pub dependencies: Seq<DependencyModel>,
    pub links: Seq<PackageTagRecord>,
    pub tags: Seq<TagModel>,
    pub sessions: Seq<SessionModel>,
    pub next_id: u64,
}

pub open spec fn has_user_id(users: Seq<UserModel>, id: u64) -> bool {
    exists|i: int| 0 <= i < users.len() && (#[trigger] users[i]).id == id
}

pub open spec fn has_username(users: Seq<UserModel>, username: Seq<char>) -> bool {
    exists|i: int| 0 <= i < users.len() && (#[trigger] users[i]).username == username
}

pub open spec fn has_email(users: Seq<UserModel>, email: Seq<char>) -> bool {
    exists|i: int| 0 <= i < users.len() && (#[trigger] users[i]).email == email
}

pub open spec fn has_package_id(packages: Seq<PackageModel>, id: u64) -> bool {
    exists|i: int| 0 <= i < packages.len() && (#[trigger] packages[i]).id == id
}

/// Whether some package already carries the uniqueness key (name, version).
pub open spec fn has_package_key(
    packages: Seq<PackageModel>,
    name: Seq<char>,
    version: Seq<char>,
) -> bool {
    exists|i: int|
        0 <= i < packages.len() && (#[trigger] packages[i]).name == name && packages[i].version
            == version
}

pub open spec fn has_tag_id(tags: Seq<TagModel>, id: u64) -> bool {
    exists|i: int| 0 <= i < tags.len() && (#[trigger] tags[i]).id == id
}

pub open spec fn has_tag_name(tags: Seq<TagModel>, name: Seq<char>) -> bool {
    exists|i: int| 0 <= i < tags.len() && (#[trigger] tags[i]).name == name
}

pub open spec fn has_session_token(sessions: Seq<SessionModel>, token: Seq<char>) -> bool {
    exists|i: int| 0 <= i < sessions.len() && (#[trigger] sessions[i]).token == token
}

/// The index of the user that carries an id; meaningful under `has_user_id`
/// together with the store invariant, which makes that user unique.
pub open spec fn user_index_by_id(users: Seq<UserModel>, id: u64) -> int {
    choose|i: int| 0 <= i < users.len() && (#[trigger] users[i]).id == id
}

pub open spec fn user_index_by_username(users: Seq<UserModel>, username: Seq<char>) -> int {
    choose|i: int| 0 <= i < users.len() && (#[trigger] users[i]).username == username
}

pub open spec fn package_index_by_id(packages: Seq<PackageModel>, id: u64) -> int {
    choose|i: int| 0 <= i < packages.len() && (#[trigger] packages[i]).id == id
}

pub open spec fn tag_index_by_id(tags: Seq<TagModel>, id: u64) -> int {
    choose|i: int| 0 <= i < tags.len() && (#[trigger] tags[i]).id == id
}

pub open spec fn tag_index_by_name(tags: Seq<TagModel>, name: Seq<char>) -> int {
    choose|i: int| 0 <= i < tags.len() && (#[trigger] tags[i]).name == name
}

pub open spec fn session_index_by_token(sessions: Seq<SessionModel>, token: Seq<char>) -> int {
    choose|i: int| 0 <= i < sessions.len() && (#[trigger] sessions[i]).token == token
}

/// Users carry pairwise distinct ids, usernames and emails, all ids below
/// the id counter.
pub open spec fn users_wf(users: Seq<UserModel>, next_id: u64) -> bool {
    &&& forall|i: int, j: int|
        0 <= i < j < users.len() ==> (#[trigger] users[i]).id != (#[trigger] users[j]).id
    &&& forall|i: int, j: int|
        0 <= i < j < users.len() ==> (#[trigger] users[i]).username != (
        #[trigger] users[j]).username
    &&& forall|i: int, j: int|
        0 <= i < j < users.len() ==> (#[trigger] users[i]).email != (#[trigger] users[j]).email
    &&& forall|i: int| 0 <= i < users.len() ==> (#[trigger] users[i]).id < next_id
}

/// Packages carry pairwise distinct ids and (name, version) keys, all ids
/// below the id counter.
pub open spec fn packages_wf(packages: Seq<PackageModel>, next_id: u64) -> bool {
    &&& forall|i: int, j: int|
        0 <= i < j < packages.len() ==> (#[trigger] packages[i]).id != (#[trigger] packages[j]).id
    &&& forall|i: int, j: int|
        0 <= i < j < packages.len() ==> !((#[trigger] packages[i]).name == (
        #[trigger] packages[j]).name && packages[i].version == packages[j].version)
    &&& forall|i: int| 0 <= i < packages.len() ==> (#[trigger] packages[i]).id < next_id
}

/// Tags carry pairwise distinct ids and names, all ids below the id counter.
pub open spec fn tags_wf(tags: Seq<TagModel>, next_id: u64) -> bool {
    &&& forall|i: int, j: int|
        0 <= i < j < tags.len() ==> (#[trigger] tags[i]).id != (#[trigger] tags[j]).id
    &&& forall|i: int, j: int|
        0 <= i < j < tags.len() ==> (#[trigger] tags[i]).name != (#[trigger] tags[j]).name
    &&& forall|i: int| 0 <= i < tags.len() ==> (#[trigger] tags[i]).id < next_id
}

/// Dependency rows are owned: each references an existing package.
pub open spec fn dependencies_wf(
    dependencies: Seq<DependencyModel>,
    packages: Seq<PackageModel>,
) -> bool {
    forall|i: int|
        0 <= i < dependencies.len() ==> has_package_id(
            packages,
            (#[trigger] dependencies[i]).package_id,
        )
}

/// Tag links reference an existing package and an existing tag, and no edge
/// is duplicated.
pub open spec fn links_wf(
    links: Seq<PackageTagRecord>,
    packages: Seq<PackageModel>,
    tags: Seq<TagModel>,
) -> bool {
    &&& forall|i: int|
        0 <= i < links.len() ==> has_package_id(packages, (#[trigger] links[i]).package_id)
            && has_tag_id(tags, links[i].tag_id)
    &&& forall|i: int, j: int|
        0 <= i < j < links.len() ==> !((#[trigger] links[i]).package_id == (
        #[trigger] links[j]).package_id && links[i].tag_id == links[j].tag_id)
}

/// Sessions reference an existing user and carry pairwise distinct tokens.
pub open spec fn sessions_wf(sessions: Seq<SessionModel>, users: Seq<UserModel>) -> bool {
    &&& forall|i: int|
        0 <= i < sessions.len() ==> has_user_id(users, (#[trigger] sessions[i]).user_id)
    &&& forall|i: int, j: int|
        0 <= i < j < sessions.len() ==> (#[trigger] sessions[i]).token != (
        #[trigger] sessions[j]).token
}

/// The store invariant: every constructor establishes it and every operation
/// preserves it.
pub open spec fn store_wf(s: StoreModel) -> bool {
    &&& users_wf(s.users, s.next_id)
    &&& packages_wf(s.packages, s.next_id)
    &&& tags_wf(s.tags, s.next_id)
    &&& dependencies_wf(s.dependencies, s.packages)
    &&& links_wf(s.links, s.packages, s.tags)
    &&& sessions_wf(s.sessions, s.users)
}

/// Appending a user with the fresh id and unused username and email keeps
/// the users well-formed under any strictly larger counter.
pub proof fn lemma_users_wf_push(users: Seq<UserModel>, nu: UserModel, next0: u64, next1: u64)
    requires
        users_wf(users, next0),
        nu.id == next0,
        next0 < next1,
        !has_username(users, nu.username),
        !has_email(users, nu.email),
    ensures
        users_wf(users.push(nu), next1),
{
    let post = users.push(nu);
    assert forall|i: int, j: int| 0 <= i < j < post.len() implies (#[trigger] post[i]).id != (
    #[trigger] post[j]).id && post[i].username != post[j].username && post[i].email
        != post[j].email by {
        if j == post.len() - 1 {
            assert(post[i] == users[i]);
            assert(users[i].id < next0);
            assert(users[i].username != nu.username);
            assert(users[i].email != nu.email);
        } else {
            assert(post[i] == users[i] && post[j] == users[j]);
        }
    }
    assert forall|i: int| 0 <= i < post.len() implies (#[trigger] post[i]).id < next1 by {
        if i < post.len() - 1 {
            assert(post[i] == users[i]);
        }
    }
}

/// The users stay well-formed when the counter only grows.
pub proof fn lemma_users_wf_mono(users: Seq<UserModel>, next0: u64, next1: u64)
    requires
        users_wf(users, next0),
        next0 <= next1,
    ensures
        users_wf(users, next1),
{
}

/// Appending a package with the fresh id and an unused key keeps the
/// packages well-formed under any strictly larger counter.
pub proof fn lemma_packages_wf_push(
    packages: Seq<PackageModel>,
    np: PackageModel,
    next0: u64,
    next1: u64,
)
    requires
        packages_wf(packages, next0),
        np.id == next0,
        next0 < next1,
        !has_package_key(packages, np.name, np.version),
    ensures
        packages_wf(packages.push(np), next1),
{
    let post = packages.push(np);
    assert forall|i: int, j: int| 0 <= i < j < post.len() implies (#[trigger] post[i]).id != (
    #[trigger] post[j]).id && !(post[i].name == post[j].name && post[i].version
        == post[j].version) by {
        if j == post.len() - 1 {
            assert(post[i] == packages[i]);
            assert(packages[i].id < next0);
            assert(!(packages[i].name == np.name && packages[i].version == np.version));
        } else {
            assert(post[i] == packages[i] && post[j] == packages[j]);
        }
    }
    assert forall|i: int| 0 <= i < post.len() implies (#[trigger] post[i]).id < next1 by {
        if i < post.len() - 1 {
            assert(post[i] == packages[i]);
        }
    }
}

/// The packages stay well-formed when the counter only grows.
pub proof fn lemma_packages_wf_mono(packages: Seq<PackageModel>, next0: u64, next1: u64)
    requires
        packages_wf(packages, next0),
        next0 <= next1,
    ensures
        packages_wf(packages, next1),
{
}

/// Appending a tag with the fresh id and an unused name keeps the tags
/// well-formed under any strictly larger counter.
pub proof fn lemma_tags_wf_push(tags: Seq<TagModel>, nt: TagModel, next0: u64, next1: u64)
    requires
        tags_wf(tags, next0),
        nt.id == next0,
        next0 < next1,
        !has_tag_name(tags, nt.name),
    ensures
        tags_wf(tags.push(nt), next1),
{
    let post = tags.push(nt);
    assert forall|i: int, j: int| 0 <= i < j < post.len() implies (#[trigger] post[i]).id != (
    #[trigger] post[j]).id && post[i].name != post[j].name by {
        if j == post.len() - 1 {
            assert(post[i] == tags[i]);
            assert(tags[i].id < next0);
            assert(tags[i].name != nt.name);
        } else {
            assert(post[i] == tags[i] && post[j] == tags[j]);
        }
    }
    assert forall|i: int| 0 <= i < post.len() implies (#[trigger] post[i]).id < next1 by {
        if i < post.len() - 1 {
            assert(post[i] == tags[i]);
        }
    }
}

/// The tags stay well-formed when the counter only grows.
pub proof fn lemma_tags_wf_mono(tags: Seq<TagModel>, next0: u64, next1: u64)
    requires
        tags_wf(tags, next0),
        next0 <= next1,
    ensures
        tags_wf(tags, next1),
{
}

/// An id that resolves keeps resolving after a push.
pub proof fn lemma_has_user_id_push(users: Seq<UserModel>, nu: UserModel, id: u64)
    requires
        has_user_id(users, id),
    ensures
        has_user_id(users.push(nu), id),
{
    let i = choose|i: int| 0 <= i < users.len() && (#[trigger] users[i]).id == id;
    assert(users.push(nu)[i].id == id);
}

/// An id that resolves keeps resolving after a push.
pub proof fn lemma_has_package_id_push(packages: Seq<PackageModel>, np: PackageModel, id: u64)
    requires
        has_package_id(packages, id),
    ensures
        has_package_id(packages.push(np), id),
{
    let i = choose|i: int| 0 <= i < packages.len() && (#[trigger] packages[i]).id == id;
    assert(packages.push(np)[i].id == id);
}

/// An id that resolves keeps resolving after a push.
pub proof fn lemma_has_tag_id_push(tags: Seq<TagModel>, nt: TagModel, id: u64)
    requires
        has_tag_id(tags, id),
    ensures
        has_tag_id(tags.push(nt), id),
{
    let i = choose|i: int| 0 <= i < tags.len() && (#[trigger] tags[i]).id == id;
    assert(tags.push(nt)[i].id == id);
}

/// Sessions stay well-formed when a user is appended.
pub proof fn lemma_sessions_wf_users_push(
    sessions: Seq<SessionModel>,
    users: Seq<UserModel>,
    nu: UserModel,
)
    requires
        sessions_wf(sessions, users),
    ensures
        sessions_wf(sessions, users.push(nu)),
{
    assert forall|i: int| 0 <= i < sessions.len() implies has_user_id(
        users.push(nu),
        (#[trigger] sessions[i]).user_id,
    ) by {
        lemma_has_user_id_push(users, nu, sessions[i].user_id);
    }
}

/// Sessions stay well-formed when the users keep their ids pointwise.
pub proof fn lemma_sessions_wf_same_ids(
    sessions: Seq<SessionModel>,
    users0: Seq<UserModel>,
    users1: Seq<UserModel>,
)
    requires
        sessions_wf(sessions, users0),
        users0.len() == users1.len(),
        forall|k: int| 0 <= k < users0.len() ==> (#[trigger] users1[k]).id == users0[k].id,
    ensures
        sessions_wf(sessions, users1),
{
    assert forall|i: int| 0 <= i < sessions.len() implies has_user_id(
        users1,
        (#[trigger] sessions[i]).user_id,
    ) by {
        let k = choose|k: int|
            0 <= k < users0.len() && (#[trigger] users0[k]).id == sessions[i].user_id;
        assert(users1[k].id == sessions[i].user_id);
    }
}

/// Dependencies stay well-formed when the packages keep their ids pointwise.
pub proof fn lemma_dependencies_wf_same_ids(
    dependencies: Seq<DependencyModel>,
    packages0: Seq<PackageModel>,
    packages1: Seq<PackageModel>,
)
    requires
        dependencies_wf(dependencies, packages0),
        packages0.len() == packages1.len(),
        forall|k: int| 0 <= k < packages0.len() ==> (#[trigger] packages1[k]).id == packages0[k].id,
    ensures
        dependencies_wf(dependencies, packages1),
{
    assert forall|i: int| 0 <= i < dependencies.len() implies has_package_id(
        packages1,
        (#[trigger] dependencies[i]).package_id,
    ) by {
        let k = choose|k: int|
            0 <= k < packages0.len() && (#[trigger] packages0[k]).id == dependencies[i].package_id;
        assert(packages1[k].id == dependencies[i].package_id);
    }
}

/// Links stay well-formed when a package or a tag is appended.
pub proof fn lemma_links_wf_push_entities(
    links: Seq<PackageTagRecord>,
    packages0: Seq<PackageModel>,
    packages1: Seq<PackageModel>,
    tags0: Seq<TagModel>,
    tags1: Seq<TagModel>,
)
    requires
        links_wf(links, packages0, tags0),
        forall|id: u64| has_package_id(packages0, id) ==> #[trigger] has_package_id(packages1, id),
        forall|id: u64| has_tag_id(tags0, id) ==> #[trigger] has_tag_id(tags1, id),
    ensures
        links_wf(links, packages1, tags1),
{
    assert forall|i: int| 0 <= i < links.len() implies has_package_id(
        packages1,
        (#[trigger] links[i]).package_id,
    ) && has_tag_id(tags1, links[i].tag_id) by {
        assert(has_package_id(packages0, links[i].package_id));
        assert(has_tag_id(tags0, links[i].tag_id));
    }
}

/// Links stay well-formed when the packages keep their ids pointwise.
pub proof fn lemma_links_wf_same_ids(
    links: Seq<PackageTagRecord>,
    packages0: Seq<PackageModel>,
    packages1: Seq<PackageModel>,
    tags: Seq<TagModel>,
)
    requires
        links_wf(links, packages0, tags),
        packages0.len() == packages1.len(),
        forall|k: int| 0 <= k < packages0.len() ==> (#[trigger] packages1[k]).id == packages0[k].id,
    ensures
        links_wf(links, packages1, tags),
{
    assert forall|i: int| 0 <= i < links.len() implies has_package_id(
        packages1,
        (#[trigger] links[i]).package_id,
    ) && has_tag_id(tags, links[i].tag_id) by {
        let k = choose|k: int|
            0 <= k < packages0.len() && (#[trigger] packages0[k]).id == links[i].package_id;
        assert(packages1[k].id == links[i].package_id);
    }
}

/// Removing one element of a sequence keeps any pairwise property; stated
/// here for users: the remaining users are still well-formed.
pub proof fn lemma_users_wf_remove(users: Seq<UserModel>, at: int, next_id: u64)
    requires
        users_wf(users, next_id),
        0 <= at < users.len(),
    ensures
        users_wf(users.remove(at), next_id),
{
    let post = users.remove(at);
    assert forall|i: int, j: int| 0 <= i < j < post.len() implies (#[trigger] post[i]).id != (
    #[trigger] post[j]).id && post[i].username != post[j].username && post[i].email
        != post[j].email by {
        let i0 = if i < at { i } else { i + 1 };
        let j0 = if j < at { j } else { j + 1 };
        assert(post[i] == users[i0] && post[j] == users[j0]);
        assert(users[i0].id != users[j0].id);
        assert(users[i0].username != users[j0].username);
        assert(users[i0].email != users[j0].email);
    }
    assert forall|i: int| 0 <= i < post.len() implies (#[trigger] post[i]).id < next_id by {
        let i0 = if i < at { i } else { i + 1 };
        assert(post[i] == users[i0]);
    }
}

/// Removing one package keeps the remaining packages well-formed.
pub proof fn lemma_packages_wf_remove(packages: Seq<PackageModel>, at: int, next_id: u64)
    requires
        packages_wf(packages, next_id),
        0 <= at < packages.len(),
    ensures
        packages_wf(packages.remove(at), next_id),
{
    let post = packages.remove(at);
    assert forall|i: int, j: int| 0 <= i < j < post.len() implies (#[trigger] post[i]).id != (
    #[trigger] post[j]).id && !(post[i].name == post[j].name && post[i].version
        == post[j].version) by {
        let i0 = if i < at { i } else { i + 1 };
        let j0 = if j < at { j } else { j + 1 };
        assert(post[i] == packages[i0] && post[j] == packages[j0]);
        assert(packages[i0].id != packages[j0].id);
        assert(!(packages[i0].name == packages[j0].name && packages[i0].version == packages[
            j0
        ].version));
    }
    assert forall|i: int| 0 <= i < post.len() implies (#[trigger] post[i]).id < next_id by {
        let i0 = if i < at { i } else { i + 1 };
        assert(post[i] == packages[i0]);
    }
}


/// Whether a user other than the one with `except` as id holds `username`.
pub open spec fn username_held_by_another(
    users: Seq<UserModel>,
    username: Seq<char>,
    except: u64,
) -> bool {
    exists|k: int|
        0 <= k < users.len() && (#[trigger] users[k]).username == username && users[k].id != except
}

/// Whether a user other than the one with `except` as id holds `email`.
pub open spec fn email_held_by_another(
    users: Seq<UserModel>,
    email: Seq<char>,
    except: u64,
) -> bool {
    exists|k: int|
        0 <= k < users.len() && (#[trigger] users[k]).email == email && users[k].id != except
}

/// Whether a package other than the one with `except` as id holds the key.
pub open spec fn package_key_held_by_another(
    packages: Seq<PackageModel>,
    name: Seq<char>,
    version: Seq<char>,
    except: u64,
) -> bool {
    exists|k: int|
        0 <= k < packages.len() && (#[trigger] packages[k]).name == name && packages[k].version
            == version && packages[k].id != except
}

/// Replacing one user in place, with its id kept and no clash with the
/// others, keeps the users well-formed.
pub proof fn lemma_users_wf_update(users: Seq<UserModel>, at: int, nu: UserModel, next_id: u64)
    requires
        users_wf(users, next_id),
        0 <= at < users.len(),
        nu.id == users[at].id,
        !username_held_by_another(users, nu.username, nu.id),
        !email_held_by_another(users, nu.email, nu.id),
    ensures
        users_wf(users.update(at, nu), next_id),
{
    let post = users.update(at, nu);
    assert forall|i: int, j: int| 0 <= i < j < post.len() implies (#[trigger] post[i]).id != (
    #[trigger] post[j]).id && post[i].username != post[j].username && post[i].email
        != post[j].email by {
        if i == at {
            assert(post[j] == users[j]);
            assert(users[at].id != users[j].id);
            if users[j].username == nu.username {
                assert(username_held_by_another(users, nu.username, nu.id));
            }
            if users[j].email == nu.email {
                assert(email_held_by_another(users, nu.email, nu.id));
            }
        } else if j == at {
            assert(post[i] == users[i]);
            assert(users[i].id != users[at].id);
            if users[i].username == nu.username {
                assert(username_held_by_another(users, nu.username, nu.id));
            }
            if users[i].email == nu.email {
                assert(email_held_by_another(users, nu.email, nu.id));
            }
        } else {
            assert(post[i] == users[i] && post[j] == users[j]);
        }
    }
    assert forall|i: int| 0 <= i < post.len() implies (#[trigger] post[i]).id < next_id by {
        if i != at {
            assert(post[i] == users[i]);
        } else {
            assert(users[at].id < next_id);
        }
    }
}

/// Replacing one package in place, with its id kept and no key clash with
/// the others, keeps the packages well-formed.
pub proof fn lemma_packages_wf_update(
    packages: Seq<PackageModel>,
    at: int,
    np: PackageModel,
    next_id: u64,
)
    requires
        packages_wf(packages, next_id),
        0 <= at < packages.len(),
        np.id == packages[at].id,
        !package_key_held_by_another(packages, np.name, np.version, np.id),
    ensures
        packages_wf(packages.update(at, np), next_id),
{
    let post = packages.update(at, np);
    assert forall|i: int, j: int| 0 <= i < j < post.len() implies (#[trigger] post[i]).id != (
    #[trigger] post[j]).id && !(post[i].name == post[j].name && post[i].version
        == post[j].version) by {
        if i == at {
            assert(post[j] == packages[j]);
            assert(packages[at].id != packages[j].id);
            if packages[j].name == np.name && packages[j].version == np.version {
                assert(package_key_held_by_another(packages, np.name, np.version, np.id));
            }
        } else if j == at {
            assert(post[i] == packages[i]);
            assert(packages[i].id != packages[at].id);
            if packages[i].name == np.name && packages[i].version == np.version {
                assert(package_key_held_by_another(packages, np.name, np.version, np.id));
            }
        } else {
            assert(post[i] == packages[i] && post[j] == packages[j]);
        }
    }
    assert forall|i: int| 0 <= i < post.len() implies (#[trigger] post[i]).id < next_id by {
        if i != at {
            assert(post[i] == packages[i]);
        } else {
            assert(packages[at].id < next_id);
        }
    }
}

/// Filtering the sessions keeps their tokens pairwise distinct.
pub proof fn lemma_sessions_filter_tokens_distinct(
    sessions: Seq<SessionModel>,
    pred: spec_fn(SessionModel) -> bool,
)
    requires
        forall|i: int, j: int|
            0 <= i < j < sessions.len() ==> (#[trigger] sessions[i]).token != (
            #[trigger] sessions[j]).token,
    ensures
        forall|i: int, j: int|
            0 <= i < j < sessions.filter(pred).len() ==> (#[trigger] sessions.filter(
                pred,
            )[i]).token != (#[trigger] sessions.filter(pred)[j]).token,
    decreases sessions.len(),
{
    reveal(Seq::filter);
    if sessions.len() > 0 {
        let rest = sessions.drop_last();
        let last = sessions.last();
        lemma_sessions_filter_tokens_distinct(rest, pred);
        let rf = rest.filter(pred);
        if pred(last) {
            let out = sessions.filter(pred);
            assert(out == rf.push(last));
            assert forall|i: int, j: int| 0 <= i < j < out.len() implies (
            #[trigger] out[i]).token != (#[trigger] out[j]).token by {
                if j == out.len() - 1 {
                    assert(out[i] == rf[i]);
                    assert(rf.contains(rf[i]));
                    rest.lemma_filter_contains_rev(pred, rf[i]);
                    let k = choose|k: int| 0 <= k < rest.len() && rest[k] == rf[i];
                    assert(sessions[k] == rf[i]);
                    assert(sessions[k].token != last.token);
                } else {
                    assert(out[i] == rf[i] && out[j] == rf[j]);
                }
            }
        }
    }
}

/// Filtering the links keeps their (package, tag) pairs pairwise distinct.
pub proof fn lemma_links_filter_pairs_distinct(
    links: Seq<PackageTagRecord>,
    pred: spec_fn(PackageTagRecord) -> bool,
)
    requires
        forall|i: int, j: int|
            0 <= i < j < links.len() ==> !((#[trigger] links[i]).package_id == (
            #[trigger] links[j]).package_id && links[i].tag_id == links[j].tag_id),
    ensures
        forall|i: int, j: int|
            0 <= i < j < links.filter(pred).len() ==> !((#[trigger] links.filter(
                pred,
            )[i]).package_id == (#[trigger] links.filter(pred)[j]).package_id && links.filter(
                pred,
            )[i].tag_id == links.filter(pred)[j].tag_id),
    decreases links.len(),
{
    reveal(Seq::filter);
    if links.len() > 0 {
        let rest = links.drop_last();
        let last = links.last();
        lemma_links_filter_pairs_distinct(rest, pred);
        let rf = rest.filter(pred);
        if pred(last) {
            let out = links.filter(pred);
            assert(out == rf.push(last));
            assert forall|i: int, j: int| 0 <= i < j < out.len() implies !((
            #[trigger] out[i]).package_id == (#[trigger] out[j]).package_id && out[i].tag_id
                == out[j].tag_id) by {
                if j == out.len() - 1 {
                    assert(out[i] == rf[i]);
                    assert(rf.contains(rf[i]));
                    rest.lemma_filter_contains_rev(pred, rf[i]);
                    let k = choose|k: int| 0 <= k < rest.len() && rest[k] == rf[i];
                    assert(links[k] == rf[i]);
                    assert(!(links[k].package_id == last.package_id && links[k].tag_id
                        == last.tag_id));
                } else {
                    assert(out[i] == rf[i] && out[j] == rf[j]);
                }
            }
        }
    }
}

} // verus!
