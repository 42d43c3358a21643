use vstd::prelude::*;
use crate::entities::{
    DependencyModel, DependencyRecord, PackageRecord, PackageTagRecord, Role, SessionRecord,
    TagRecord, UserRecord, UserModel, PackageModel, TagModel, SessionModel,
    valid_package_fields, valid_tag_fields, valid_user_fields,
};
use crate::payloads::{DependencyRequest, DependencyRequestModel};
use crate::errors::RegistryError;
use crate::model::{
    StoreModel, email_held_by_another, has_email, has_package_id, has_package_key,
    has_session_token, has_tag_id, has_tag_name, has_user_id, has_username,
    lemma_dependencies_wf_same_ids, lemma_has_package_id_push, lemma_has_tag_id_push,
    lemma_links_filter_pairs_distinct, lemma_links_wf_push_entities, lemma_links_wf_same_ids,
    lemma_packages_wf_mono, lemma_packages_wf_push, lemma_packages_wf_remove,
    lemma_packages_wf_update, lemma_sessions_filter_tokens_distinct, lemma_sessions_wf_same_ids,
    lemma_sessions_wf_users_push, lemma_tags_wf_mono, lemma_tags_wf_push, lemma_users_wf_mono,
    lemma_users_wf_push, lemma_users_wf_remove, lemma_users_wf_update,
    package_index_by_id, package_key_held_by_another, session_index_by_token, store_wf,
    tag_index_by_name, user_index_by_id, username_held_by_another,
};

verus! {

/// The entity store: owns the persisted users, packages, dependency rows,
/// tags, package-tag links and sessions, and enforces the uniqueness and
/// referential invariants on every write. Ids are generated from a single
/// counter that is never reused.
pub struct Store {
    pub users: Vec<UserRecord>,
    pub packages: Vec<PackageRecord>,
    pub dependencies: Vec<DependencyRecord>,
    pub links: Vec<PackageTagRecord>,
    pub tags: Vec<TagRecord>,
    pub sessions: Vec<SessionRecord>,
    pub next_id: u64,
}

impl View for Store {
    type V = StoreModel;

    open spec fn view(&self) -> StoreModel {
        StoreModel {
            users: self.users@.map_values(|u: UserRecord| u@),
            packages: self.packages@.map_values(|p: PackageRecord| p@),
            dependencies: self.dependencies@.map_values(|d: DependencyRecord| d@),
            links: self.links@,
            tags: self.tags@.map_values(|t: TagRecord| t@),
            sessions: self.sessions@.map_values(|s: SessionRecord| s@),
            next_id: self.next_id,
        }
    }
}

impl Store {
    /// The store invariant, over the mathematical image.
    pub open spec fn wf(&self) -> bool {
        store_wf(self@)
    }

    /// An empty store. Ids start at 1, so 0 never names an entity.
    pub fn new() -> (s: Store)
        ensures
            s.wf(),
            s@.users == Seq::<UserModel>::empty(),
            s@.packages == Seq::<PackageModel>::empty(),
            s@.dependencies.len() == 0,
            s@.links.len() == 0,
            s@.tags == Seq::<TagModel>::empty(),
            s@.sessions == Seq::<SessionModel>::empty(),
            s@.next_id == 1,
    {
        let s = Store {
            users: Vec::new(),
            packages: Vec::new(),
            dependencies: Vec::new(),
            links: Vec::new(),
            tags: Vec::new(),
            sessions: Vec::new(),
            next_id: 1,
        };
        proof {
            assert(s@.users =~= Seq::<UserModel>::empty());
            assert(s@.packages =~= Seq::<PackageModel>::empty());
            assert(s@.tags =~= Seq::<TagModel>::empty());
            assert(s@.sessions =~= Seq::<SessionModel>::empty());
        }
        s
    }

    /// The position of the user with an id, if any.
    pub fn find_user_by_id(&self, id: u64) -> (r: Option<usize>)
        ensures
            match r {
                Some(i) => i < self@.users.len() && self@.users[i as int].id == id,
                None => !has_user_id(self@.users, id),
            },
    {
        let n = self.users.len();
        let mut i: usize = 0;
        while i < n
            invariant
                n == self.users.len(),
                0 <= i <= n,
                forall|k: int| 0 <= k < i ==> self@.users[k].id != id,
            decreases n - i,
        {
            if self.users[i].id == id {
                return Some(i);
            }
            i += 1;
        }
        None
    }

    /// The position of the user with a username, if any.
    pub fn find_user_by_username(&self, username: &String) -> (r: Option<usize>)
        ensures
            match r {
                Some(i) => i < self@.users.len() && self@.users[i as int].username == username@,
                None => !has_username(self@.users, username@),
            },
    {
        let n = self.users.len();
        let mut i: usize = 0;
        while i < n
            invariant
                n == self.users.len(),
                0 <= i <= n,
                forall|k: int| 0 <= k < i ==> self@.users[k].username != username@,
            decreases n - i,
        {
            if self.users[i].username == *username {
                return Some(i);
            }
            i += 1;
        }
        None
    }

    /// Whether a user other than `except` holds this username.
    pub fn username_held_by_other(&self, username: &String, except: u64) -> (r: bool)
        ensures
            r == username_held_by_another(self@.users, username@, except),
    {
        let n = self.users.len();
        let mut i: usize = 0;
        while i < n
            invariant
                n == self.users.len(),
                0 <= i <= n,
                forall|k: int|
                    0 <= k < i ==> !((#[trigger] self@.users[k]).username == username@
                        && self@.users[k].id != except),
            decreases n - i,
        {
            if self.users[i].username == *username && self.users[i].id != except {
                assert(0 <= i < self@.users.len() && self@.users[i as int].username == username@
                    && self@.users[i as int].id != except);
                return true;
            }
            i += 1;
        }
        false
    }

    /// Whether some user holds this email.
    pub fn email_taken(&self, email: &String) -> (r: bool)
        ensures
            r == has_email(self@.users, email@),
    {
        let n = self.users.len();
        let mut i: usize = 0;
        while i < n
            invariant
                n == self.users.len(),
                0 <= i <= n,
                forall|k: int| 0 <= k < i ==> self@.users[k].email != email@,
            decreases n - i,
        {
            if self.users[i].email == *email {
                assert(self@.users[i as int].email == email@);
                return true;
            }
            i += 1;
        }
        false
    }

    /// Whether a user other than `except` holds this email.
    pub fn email_held_by_other(&self, email: &String, except: u64) -> (r: bool)
        ensures
            r == email_held_by_another(self@.users, email@, except),
    {
        let n = self.users.len();
        let mut i: usize = 0;
        while i < n
            invariant
                n == self.users.len(),
                0 <= i <= n,
                forall|k: int|
                    0 <= k < i ==> !((#[trigger] self@.users[k]).email == email@
                        && self@.users[k].id != except),
            decreases n - i,
        {
            if self.users[i].email == *email && self.users[i].id != except {
                assert(0 <= i < self@.users.len() && self@.users[i as int].email == email@
                    && self@.users[i as int].id != except);
                return true;
            }
            i += 1;
        }
        false
    }

    /// The position of the package with an id, if any.
    pub fn find_package_by_id(&self, id: u64) -> (r: Option<usize>)
        ensures
            match r {
                Some(i) => i < self@.packages.len() && self@.packages[i as int].id == id,
                None => !has_package_id(self@.packages, id),
            },
    {
        let n = self.packages.len();
        let mut i: usize = 0;
        while i < n
            invariant
                n == self.packages.len(),
                0 <= i <= n,
                forall|k: int| 0 <= k < i ==> self@.packages[k].id != id,
            decreases n - i,
        {
            if self.packages[i].id == id {
                return Some(i);
            }
            i += 1;
        }
        None
    }

    /// Whether some package holds the (name, version) key.
    pub fn package_key_taken(&self, name: &String, version: &String) -> (r: bool)
        ensures
            r == has_package_key(self@.packages, name@, version@),
    {
        let n = self.packages.len();
        let mut i: usize = 0;
        while i < n
            invariant
                n == self.packages.len(),
                0 <= i <= n,
                forall|k: int|
                    0 <= k < i ==> !((#[trigger] self@.packages[k]).name == name@
                        && self@.packages[k].version == version@),
            decreases n - i,
        {
            if self.packages[i].name == *name && self.packages[i].version == *version {
                assert(self@.packages[i as int].name == name@
                    && self@.packages[i as int].version == version@);
                return true;
            }
            i += 1;
        }
        false
    }

    /// Whether a package other than `except` holds the (name, version) key.
    pub fn package_key_held_by_other(&self, name: &String, version: &String, except: u64) -> (r:
        bool)
        ensures
            r == exists|k: int|
                0 <= k < self@.packages.len() && (#[trigger] self@.packages[k]).name == name@
                    && self@.packages[k].version == version@ && self@.packages[k].id != except,
    {
        let n = self.packages.len();
        let mut i: usize = 0;
        while i < n
            invariant
                n == self.packages.len(),
                0 <= i <= n,
                forall|k: int|
                    0 <= k < i ==> !((#[trigger] self@.packages[k]).name == name@
                        && self@.packages[k].version == version@ && self@.packages[k].id != except),
            decreases n - i,
        {
            if self.packages[i].name == *name && self.packages[i].version == *version
                && self.packages[i].id != except {
                assert(0 <= i < self@.packages.len() && self@.packages[i as int].name == name@
                    && self@.packages[i as int].version == version@
                    && self@.packages[i as int].id != except);
                return true;
            }
            i += 1;
        }
        false
    }

    /// The position of the tag with a name, if any.
    pub fn find_tag_by_name(&self, name: &String) -> (r: Option<usize>)
        ensures
            match r {
                Some(i) => i < self@.tags.len() && self@.tags[i as int].name == name@,
                None => !has_tag_name(self@.tags, name@),
            },
    {
        let n = self.tags.len();
        let mut i: usize = 0;
        while i < n
            invariant
                n == self.tags.len(),
                0 <= i <= n,
                forall|k: int| 0 <= k < i ==> self@.tags[k].name != name@,
            decreases n - i,
        {
            if self.tags[i].name == *name {
                return Some(i);
            }
            i += 1;
        }
        None
    }

    /// The position of the tag with an id, if any.
    pub fn find_tag_by_id(&self, id: u64) -> (r: Option<usize>)
        ensures
            match r {
                Some(i) => i < self@.tags.len() && self@.tags[i as int].id == id,
                None => !has_tag_id(self@.tags, id),
            },
    {
        let n = self.tags.len();
        let mut i: usize = 0;
        while i < n
            invariant
                n == self.tags.len(),
                0 <= i <= n,
                forall|k: int| 0 <= k < i ==> self@.tags[k].id != id,
            decreases n - i,
        {
            if self.tags[i].id == id {
                return Some(i);
            }
            i += 1;
        }
        None
    }

    /// The position of the session holding a token, if any.
    pub fn find_session_by_token(&self, token: &String) -> (r: Option<usize>)
        ensures
            match r {
                Some(i) => i < self@.sessions.len() && self@.sessions[i as int].token == token@,
                None => !has_session_token(self@.sessions, token@),
            },
    {
        let n = self.sessions.len();
        let mut i: usize = 0;
        while i < n
            invariant
                n == self.sessions.len(),
                0 <= i <= n,
                forall|k: int| 0 <= k < i ==> self@.sessions[k].token != token@,
            decreases n - i,
        {
            if self.sessions[i].token == *token {
                return Some(i);
            }
            i += 1;
        }
        None
    }

    /// The user a valid session token names, if the token is known.
    pub fn user_id_for_token(&self, token: &String) -> (r: Option<u64>)
        requires
            self.wf(),
        ensures
            match r {
                Some(uid) => has_session_token(self@.sessions, token@) && uid == self@.sessions[
                    session_index_by_token(self@.sessions, token@)
                ].user_id,
                None => !has_session_token(self@.sessions, token@),
            },
    {
        match self.find_session_by_token(token) {
            Some(i) => {
                proof {
                    let j = session_index_by_token(self@.sessions, token@);
                    assert(0 <= j < self@.sessions.len() && self@.sessions[j].token == token@);
                    if j != i {
                        assert(false);
                    }
                }
                Some(self.sessions[i].user_id)
            },
            None => None,
        }
    }

    /// The stored user with an id.
    pub fn user_by_id(&self, id: u64) -> (r: Result<&UserRecord, RegistryError>)
        requires
            self.wf(),
        ensures
            match r {
                Ok(u) => has_user_id(self@.users, id) && u@ == self@.users[user_index_by_id(
                    self@.users,
                    id,
                )] && u.id == id,
                Err(e) => e == RegistryError::NotFound && !has_user_id(self@.users, id),
            },
    {
        match self.find_user_by_id(id) {
            Some(i) => {
                proof {
                    let j = user_index_by_id(self@.users, id);
                    assert(0 <= j < self@.users.len() && self@.users[j].id == id);
                    if j != i {
                        assert(false);
                    }
                }
                Ok(&self.users[i])
            },
            None => Err(RegistryError::NotFound),
        }
    }

    /// The stored package with an id.
    pub fn package_by_id(&self, id: u64) -> (r: Result<&PackageRecord, RegistryError>)
        requires
            self.wf(),
        ensures
            match r {
                Ok(p) => has_package_id(self@.packages, id) && p@ == self@.packages[
                    package_index_by_id(self@.packages, id)
                ] && p.id == id,
                Err(e) => e == RegistryError::NotFound && !has_package_id(self@.packages, id),
            },
    {
        match self.find_package_by_id(id) {
            Some(i) => {
                proof {
                    let j = package_index_by_id(self@.packages, id);
                    assert(0 <= j < self@.packages.len() && self@.packages[j].id == id);
                    if j != i {
                        assert(false);
                    }
                }
                Ok(&self.packages[i])
            },
            None => Err(RegistryError::NotFound),
        }
    }

    /// Stores a new user after validating the required fields and the
    /// uniqueness of username and email.
    pub fn insert_user(
        &mut self,
        username: String,
        email: String,
        salt: String,
        credential: String,
        role: Role,
        now: i64,
    ) -> (r: Result<u64, RegistryError>)
        requires
            old(self).wf(),
        ensures
            final(self).wf(),
            insert_user_step(
                old(self)@,
                final(self)@,
                username@,
                email@,
                salt@,
                credential@,
                role,
                now,
                r,
            ),
    {
        if username.as_str().is_empty() || email.as_str().is_empty() {
            return Err(RegistryError::ValidationError);
        }
        if self.find_user_by_username(&username).is_some() {
            return Err(RegistryError::ConstraintViolation);
        }
        if self.email_taken(&email) {
            return Err(RegistryError::ConstraintViolation);
        }
        if self.next_id == u64::MAX {
            return Err(RegistryError::InternalError);
        }
        let id = self.next_id;
        self.next_id = id + 1;
        let ghost pre = old(self)@;
        let ghost nu = UserModel {
            id,
            username: username@,
            email: email@,
            salt: salt@,
            credential: credential@,
            role,
            created_at: now,
        };
        self.users.push(
            UserRecord { id, username, email, salt, credential, role, created_at: now },
        );
        proof {
            let post = self@;
            assert(post.users =~= pre.users.push(nu));
            lemma_users_wf_push(pre.users, nu, pre.next_id, post.next_id);
            lemma_packages_wf_mono(pre.packages, pre.next_id, post.next_id);
            lemma_tags_wf_mono(pre.tags, pre.next_id, post.next_id);
            lemma_sessions_wf_users_push(pre.sessions, pre.users, nu);
            assert(final(self).wf());
        }
        Ok(id)
    }

    /// Replaces the mutable fields of a user, keeping id, role and creation
    /// time, after revalidating uniqueness against the other users.
    pub fn update_user_fields(
        &mut self,
        id: u64,
        username: String,
        email: String,
        salt: String,
        credential: String,
    ) -> (r: Result<(), RegistryError>)
        requires
            old(self).wf(),
        ensures
            final(self).wf(),
            update_user_step(
                old(self)@,
                final(self)@,
                id,
                username@,
                email@,
                salt@,
                credential@,
                r,
            ),
    {
        let idx = match self.find_user_by_id(id) {
            Some(i) => i,
            None => {
                return Err(RegistryError::NotFound);
            },
        };
        proof {
            let j = user_index_by_id(self@.users, id);
            assert(0 <= j < self@.users.len() && self@.users[j].id == id);
            if j != idx {
                assert(false);
            }
        }
        if username.as_str().is_empty() || email.as_str().is_empty() {
            return Err(RegistryError::ValidationError);
        }
        if self.username_held_by_other(&username, id) {
            return Err(RegistryError::ConstraintViolation);
        }
        if self.email_held_by_other(&email, id) {
            return Err(RegistryError::ConstraintViolation);
        }
        let role = self.users[idx].role;
        let created_at = self.users[idx].created_at;
        let ghost pre = old(self)@;
        let ghost nu = UserModel {
            id,
            username: username@,
            email: email@,
            salt: salt@,
            credential: credential@,
            role,
            created_at,
        };
        self.users[idx] = UserRecord { id, username, email, salt, credential, role, created_at };
        proof {
            let post = self@;
            assert(post.users =~= pre.users.update(idx as int, nu));
            lemma_users_wf_update(pre.users, idx as int, nu, pre.next_id);
            lemma_sessions_wf_same_ids(pre.sessions, pre.users, post.users);
            assert(final(self).wf());
        }
        Ok(())
    }

    /// Deletes a user and cascades its sessions; authored packages stay.
    pub fn remove_user(&mut self, id: u64) -> (r: Result<(), RegistryError>)
        requires
            old(self).wf(),
        ensures
            final(self).wf(),
            remove_user_step(old(self)@, final(self)@, id, r),
    {
        let idx = match self.find_user_by_id(id) {
            Some(i) => i,
            None => {
                return Err(RegistryError::NotFound);
            },
        };
        proof {
            let j = user_index_by_id(self@.users, id);
            assert(0 <= j < self@.users.len() && self@.users[j].id == id);
            if j != idx {
                assert(false);
            }
        }
        let ghost pre = old(self)@;
        self.users.remove(idx);
        let kept = sessions_excluding_user(&self.sessions, id);
        self.sessions = kept;
        proof {
            let post = self@;
            assert(post.users =~= pre.users.remove(idx as int));
            lemma_users_wf_remove(pre.users, idx as int, pre.next_id);
            let spred = |s: SessionModel| s.user_id != id;
            assert(post.sessions == pre.sessions.filter(spred));
            lemma_sessions_filter_tokens_distinct(pre.sessions, spred);
            assert forall|i: int| 0 <= i < post.sessions.len() implies has_user_id(
                post.users,
                (#[trigger] post.sessions[i]).user_id,
            ) by {
                let e = post.sessions[i];
                pre.sessions.lemma_filter_pred(spred, i);
                assert(pre.sessions.filter(spred).contains(e));
                pre.sessions.lemma_filter_contains_rev(spred, e);
                let k = choose|k: int| 0 <= k < pre.sessions.len() && pre.sessions[k] == e;
                assert(has_user_id(pre.users, e.user_id));
                let m = choose|m: int|
                    0 <= m < pre.users.len() && (#[trigger] pre.users[m]).id == e.user_id;
                assert(e.user_id != id);
                assert(pre.users[idx as int].id == id);
                assert(m != idx as int);
                if m < idx as int {
                    assert(post.users[m].id == e.user_id);
                } else {
                    assert(post.users[m - 1].id == e.user_id);
                }
            }
            assert(final(self).wf());
        }
        Ok(())
    }

    /// Opens a session binding a fresh opaque token to a user.
    pub fn insert_session(&mut self, token: String, user_id: u64) -> (r: Result<
        (),
        RegistryError,
    >)
        requires
            old(self).wf(),
        ensures
            final(self).wf(),
            insert_session_step(old(self)@, final(self)@, token@, user_id, r),
    {
        if self.find_user_by_id(user_id).is_none() {
            return Err(RegistryError::NotFound);
        }
        if self.find_session_by_token(&token).is_some() {
            return Err(RegistryError::ConstraintViolation);
        }
        let ghost pre = old(self)@;
        self.sessions.push(SessionRecord { token, user_id });
        proof {
            let post = self@;
            let ns = SessionModel { token: token@, user_id };
            assert(post.sessions =~= pre.sessions.push(ns));
            assert forall|i: int, j: int| 0 <= i < j < post.sessions.len() implies (
            #[trigger] post.sessions[i]).token != (#[trigger] post.sessions[j]).token by {
                if j == post.sessions.len() - 1 {
                    assert(post.sessions[i] == pre.sessions[i]);
                    assert(!(pre.sessions[i].token == token@));
                } else {
                    assert(post.sessions[i] == pre.sessions[i]
                        && post.sessions[j] == pre.sessions[j]);
                }
            }
            assert forall|i: int| 0 <= i < post.sessions.len() implies has_user_id(
                post.users,
                (#[trigger] post.sessions[i]).user_id,
            ) by {
                if i < post.sessions.len() - 1 {
                    assert(post.sessions[i] == pre.sessions[i]);
                }
            }
            assert(final(self).wf());
        }
        Ok(())
    }

    /// Returns the id of the tag with this name, creating the tag when it
    /// is absent.
    pub fn ensure_tag(&mut self, name: String, color: String) -> (r: Result<u64, RegistryError>)
        requires
            old(self).wf(),
        ensures
            final(self).wf(),
            ensure_tag_step(old(self)@, final(self)@, name@, color@, r),
    {
        match self.find_tag_by_name(&name) {
            Some(i) => {
                proof {
                    let j = tag_index_by_name(self@.tags, name@);
                    assert(0 <= j < self@.tags.len() && self@.tags[j].name == name@);
                    if j != i {
                        assert(false);
                    }
                }
                Ok(self.tags[i].id)
            },
            None => {
                if name.as_str().is_empty() {
                    return Err(RegistryError::ValidationError);
                }
                if self.next_id == u64::MAX {
                    return Err(RegistryError::InternalError);
                }
                let id = self.next_id;
                self.next_id = id + 1;
                let ghost pre = old(self)@;
                self.tags.push(TagRecord { id, name, color });
                proof {
                    let post = self@;
                    let nt = TagModel { id, name: name@, color: color@ };
                    assert(post.tags =~= pre.tags.push(nt));
                    lemma_tags_wf_push(pre.tags, nt, pre.next_id, post.next_id);
                    lemma_users_wf_mono(pre.users, pre.next_id, post.next_id);
                    lemma_packages_wf_mono(pre.packages, pre.next_id, post.next_id);
                    assert forall|id2: u64| has_tag_id(pre.tags, id2) implies #[trigger] has_tag_id(
                        post.tags,
                        id2,
                    ) by {
                        lemma_has_tag_id_push(pre.tags, nt, id2);
                    }
                    assert forall|id2: u64|
                        has_package_id(pre.packages, id2) implies #[trigger] has_package_id(
                        post.packages,
                        id2,
                    ) by {}
                    lemma_links_wf_push_entities(
                        pre.links,
                        pre.packages,
                        post.packages,
                        pre.tags,
                        post.tags,
                    );
                    assert(final(self).wf());
                }
                Ok(id)
            },
        }
    }

    /// Stores a new package together with its dependency rows and tag links,
    /// after validating the fields, the author and the (name, version) key.
    /// The tag ids must already be resolved, pairwise distinct and present.
    #[verifier::rlimit(30)]
    pub fn insert_package_with(
        &mut self,
        name: String,
        version: String,
        description: Option<String>,
        maintainer: String,
        architecture: String,
        size: i64,
        checksum: String,
        storage_path: String,
        author_id: u64,
        dependencies: &Vec<DependencyRequest>,
        tag_ids: &Vec<u64>,
        now: i64,
    ) -> (r: Result<u64, RegistryError>)
        requires
            old(self).wf(),
            forall|k: int|
                0 <= k < tag_ids@.len() ==> has_tag_id(old(self)@.tags, #[trigger] tag_ids@[k]),
            forall|i: int, j: int|
                0 <= i < j < tag_ids@.len() ==> tag_ids@[i] != tag_ids@[j],
        ensures
            final(self).wf(),
            insert_package_step(
                old(self)@,
                final(self)@,
                name@,
                version@,
                crate::entities::opt_view(description),
                maintainer@,
                architecture@,
                size,
                checksum@,
                storage_path@,
                author_id,
                dependencies@.map_values(|d: DependencyRequest| d@),
                tag_ids@,
                now,
                r,
            ),
    {
        if name.as_str().is_empty() || size < 0 {
            return Err(RegistryError::ValidationError);
        }
        if self.find_user_by_id(author_id).is_none() {
            return Err(RegistryError::NotFound);
        }
        if self.package_key_taken(&name, &version) {
            return Err(RegistryError::ConstraintViolation);
        }
        if self.next_id == u64::MAX {
            return Err(RegistryError::InternalError);
        }
        let id = self.next_id;
        self.next_id = id + 1;
        let ghost pre = old(self)@;
        let ghost np = PackageModel {
            id,
            name: name@,
            version: version@,
            description: crate::entities::opt_view(description),
            maintainer: maintainer@,
            architecture: architecture@,
            size,
            checksum: checksum@,
            storage_path: storage_path@,
            author_id,
            created_at: now,
            updated_at: now,
        };
        self.packages.push(
            PackageRecord {
                id,
                name,
                version,
                description,
                maintainer,
                architecture,
                size,
                checksum,
                storage_path,
                author_id,
                created_at: now,
                updated_at: now,
            },
        );
        let ghost depsm = dependencies@.map_values(|d: DependencyRequest| d@);
        let mut new_deps: Vec<DependencyRecord> = Vec::new();
        let dn = dependencies.len();
        let mut di: usize = 0;
        while di < dn
            invariant
                dn == dependencies.len(),
                0 <= di <= dn,
                depsm == dependencies@.map_values(|d: DependencyRequest| d@),
                new_deps@.map_values(|d: DependencyRecord| d@) == dependency_rows_for(
                    id,
                    depsm.subrange(0, di as int),
                ),
            decreases dn - di,
        {
            let ghost prev = new_deps@.map_values(|d: DependencyRecord| d@);
            let dep = &dependencies[di];
            new_deps.push(
                DependencyRecord {
                    package_id: id,
                    name: dep.name.clone(),
                    version: dep.version.clone(),
                    dependency_type: dep.dependency_type.clone(),
                },
            );
            proof {
                assert(depsm.subrange(0, di + 1).drop_last() =~= depsm.subrange(0, di as int));
                assert(new_deps@.map_values(|d: DependencyRecord| d@) =~= prev.push(
                    DependencyModel {
                        package_id: id,
                        name: depsm[di as int].name,
                        version: depsm[di as int].version,
                        dependency_type: depsm[di as int].dependency_type,
                    },
                ));
                assert(new_deps@.map_values(|d: DependencyRecord| d@) =~= dependency_rows_for(
                    id,
                    depsm.subrange(0, di + 1),
                ));
            }
            di += 1;
        }
        proof {
            assert(depsm.subrange(0, dn as int) =~= depsm);
        }
        self.dependencies.append(&mut new_deps);
        let mut new_links: Vec<PackageTagRecord> = Vec::new();
        let tn = tag_ids.len();
        let mut ti: usize = 0;
        while ti < tn
            invariant
                tn == tag_ids.len(),
                0 <= ti <= tn,
                new_links@ == links_for(id, tag_ids@.subrange(0, ti as int)),
            decreases tn - ti,
        {
            let ghost prevl = new_links@;
            new_links.push(PackageTagRecord { package_id: id, tag_id: tag_ids[ti] });
            proof {
                assert(tag_ids@.subrange(0, ti + 1).drop_last() =~= tag_ids@.subrange(
                    0,
                    ti as int,
                ));
                assert(new_links@ =~= links_for(id, tag_ids@.subrange(0, ti + 1)));
            }
            ti += 1;
        }
        proof {
            assert(tag_ids@.subrange(0, tn as int) =~= tag_ids@);
        }
        let ghost linksm = new_links@;
        self.links.append(&mut new_links);
        proof {
            let post = self@;
            assert(post.packages =~= pre.packages.push(np));
            assert(post.dependencies =~= pre.dependencies + dependency_rows_for(id, depsm));
            assert(post.links == pre.links + links_for(id, tag_ids@));
            lemma_packages_wf_push(pre.packages, np, pre.next_id, post.next_id);
            lemma_users_wf_mono(pre.users, pre.next_id, post.next_id);
            lemma_tags_wf_mono(pre.tags, pre.next_id, post.next_id);
            let newdeps = dependency_rows_for(id, depsm);
            assert(has_package_id(post.packages, id)) by {
                assert(post.packages[post.packages.len() - 1].id == id);
            }
            assert forall|i: int| 0 <= i < post.dependencies.len() implies has_package_id(
                post.packages,
                (#[trigger] post.dependencies[i]).package_id,
            ) by {
                if i < pre.dependencies.len() {
                    assert(post.dependencies[i] == pre.dependencies[i]);
                    lemma_has_package_id_push(
                        pre.packages,
                        np,
                        pre.dependencies[i].package_id,
                    );
                } else {
                    assert(post.dependencies[i] == newdeps[i - pre.dependencies.len()]);
                    assert(post.dependencies[i].package_id == id);
                }
            }
            let newlinks = links_for(id, tag_ids@);
            assert forall|i: int| 0 <= i < post.links.len() implies has_package_id(
                post.packages,
                (#[trigger] post.links[i]).package_id,
            ) && has_tag_id(post.tags, post.links[i].tag_id) by {
                if i < pre.links.len() {
                    assert(post.links[i] == pre.links[i]);
                    lemma_has_package_id_push(pre.packages, np, pre.links[i].package_id);
                } else {
                    assert(post.links[i] == newlinks[i - pre.links.len()]);
                    assert(post.links[i].package_id == id);
                    assert(has_tag_id(pre.tags, tag_ids@[i - pre.links.len()]));
                }
            }
            assert forall|i: int, j: int| 0 <= i < j < post.links.len() implies !((
            #[trigger] post.links[i]).package_id == (#[trigger] post.links[j]).package_id
                && post.links[i].tag_id == post.links[j].tag_id) by {
                if j < pre.links.len() {
                    assert(post.links[i] == pre.links[i] && post.links[j] == pre.links[j]);
                } else if i < pre.links.len() {
                    assert(post.links[i] == pre.links[i]);
                    assert(post.links[j] == newlinks[j - pre.links.len()]);
                    assert(has_package_id(pre.packages, pre.links[i].package_id));
                    let k = choose|k: int|
                        0 <= k < pre.packages.len() && (#[trigger] pre.packages[k]).id
                            == pre.links[i].package_id;
                    assert(pre.packages[k].id < pre.next_id);
                } else {
                    assert(post.links[i] == newlinks[i - pre.links.len()]);
                    assert(post.links[j] == newlinks[j - pre.links.len()]);
                    assert(tag_ids@[i - pre.links.len()] != tag_ids@[j - pre.links.len()]);
                }
            }
            assert(final(self).wf());
        }
        Ok(id)
    }

    /// Replaces the mutable fields of a package, keeping id, checksum,
    /// storage path, author and creation time, and bumps the update time.
    pub fn update_package_fields(
        &mut self,
        id: u64,
        name: String,
        version: String,
        description: Option<String>,
        maintainer: String,
        architecture: String,
        size: i64,
        now: i64,
    ) -> (r: Result<(), RegistryError>)
        requires
            old(self).wf(),
        ensures
            final(self).wf(),
            update_package_step(
                old(self)@,
                final(self)@,
                id,
                name@,
                version@,
                crate::entities::opt_view(description),
                maintainer@,
                architecture@,
                size,
                now,
                r,
            ),
    {
        let idx = match self.find_package_by_id(id) {
            Some(i) => i,
            None => {
                return Err(RegistryError::NotFound);
            },
        };
        proof {
            let j = package_index_by_id(self@.packages, id);
            assert(0 <= j < self@.packages.len() && self@.packages[j].id == id);
            if j != idx {
                assert(false);
            }
        }
        if name.as_str().is_empty() || size < 0 {
            return Err(RegistryError::ValidationError);
        }
        if self.package_key_held_by_other(&name, &version, id) {
            return Err(RegistryError::ConstraintViolation);
        }
        let checksum = self.packages[idx].checksum.clone();
        let storage_path = self.packages[idx].storage_path.clone();
        let author_id = self.packages[idx].author_id;
        let created_at = self.packages[idx].created_at;
        let ghost pre = old(self)@;
        let ghost np = PackageModel {
            id,
            name: name@,
            version: version@,
            description: crate::entities::opt_view(description),
            maintainer: maintainer@,
            architecture: architecture@,
            size,
            checksum: pre.packages[idx as int].checksum,
            storage_path: pre.packages[idx as int].storage_path,
            author_id,
            created_at,
            updated_at: now,
        };
        self.packages[idx] = PackageRecord {
            id,
            name,
            version,
            description,
            maintainer,
            architecture,
            size,
            checksum,
            storage_path,
            author_id,
            created_at,
            updated_at: now,
        };
        proof {
            let post = self@;
            assert(post.packages =~= pre.packages.update(idx as int, np));
            lemma_packages_wf_update(pre.packages, idx as int, np, pre.next_id);
            lemma_dependencies_wf_same_ids(pre.dependencies, pre.packages, post.packages);
            lemma_links_wf_same_ids(pre.links, pre.packages, post.packages, pre.tags);
            assert(final(self).wf());
        }
        Ok(())
    }

    /// Deletes a package and cascades its dependency rows and tag links;
    /// tags themselves stay, shared or not.
    pub fn remove_package(&mut self, id: u64) -> (r: Result<(), RegistryError>)
        requires
            old(self).wf(),
        ensures
            final(self).wf(),
            remove_package_step(old(self)@, final(self)@, id, r),
    {
        let idx = match self.find_package_by_id(id) {
            Some(i) => i,
            None => {
                return Err(RegistryError::NotFound);
            },
        };
        proof {
            let j = package_index_by_id(self@.packages, id);
            assert(0 <= j < self@.packages.len() && self@.packages[j].id == id);
            if j != idx {
                assert(false);
            }
        }
        let ghost pre = old(self)@;
        self.packages.remove(idx);
        let kept_deps = dependencies_excluding_package(&self.dependencies, id);
        self.dependencies = kept_deps;
        let kept_links = links_excluding_package(&self.links, id);
        self.links = kept_links;
        proof {
            let post = self@;
            assert(post.packages =~= pre.packages.remove(idx as int));
            lemma_packages_wf_remove(pre.packages, idx as int, pre.next_id);
            let dpred = |d: DependencyModel| d.package_id != id;
            let lpred = |l: PackageTagRecord| l.package_id != id;
            assert(post.dependencies == pre.dependencies.filter(dpred));
            assert(post.links == pre.links.filter(lpred));
            lemma_links_filter_pairs_distinct(pre.links, lpred);
            assert forall|i: int| 0 <= i < post.dependencies.len() implies has_package_id(
                post.packages,
                (#[trigger] post.dependencies[i]).package_id,
            ) by {
                let e = post.dependencies[i];
                pre.dependencies.lemma_filter_pred(dpred, i);
                assert(pre.dependencies.filter(dpred).contains(e));
                pre.dependencies.lemma_filter_contains_rev(dpred, e);
                let k = choose|k: int|
                    0 <= k < pre.dependencies.len() && pre.dependencies[k] == e;
                assert(has_package_id(pre.packages, e.package_id));
                let m = choose|m: int|
                    0 <= m < pre.packages.len() && (#[trigger] pre.packages[m]).id
                        == e.package_id;
                assert(e.package_id != id);
                assert(pre.packages[idx as int].id == id);
                assert(m != idx as int);
                if m < idx as int {
                    assert(post.packages[m].id == e.package_id);
                } else {
                    assert(post.packages[m - 1].id == e.package_id);
                }
            }
            assert forall|i: int| 0 <= i < post.links.len() implies has_package_id(
                post.packages,
                (#[trigger] post.links[i]).package_id,
            ) && has_tag_id(post.tags, post.links[i].tag_id) by {
                let e = post.links[i];
                pre.links.lemma_filter_pred(lpred, i);
                assert(pre.links.filter(lpred).contains(e));
                pre.links.lemma_filter_contains_rev(lpred, e);
                let k = choose|k: int| 0 <= k < pre.links.len() && pre.links[k] == e;
                assert(has_package_id(pre.packages, e.package_id));
                assert(has_tag_id(pre.tags, e.tag_id));
                let m = choose|m: int|
                    0 <= m < pre.packages.len() && (#[trigger] pre.packages[m]).id
                        == e.package_id;
                assert(e.package_id != id);
                assert(pre.packages[idx as int].id == id);
                assert(m != idx as int);
                if m < idx as int {
                    assert(post.packages[m].id == e.package_id);
                } else {
                    assert(post.packages[m - 1].id == e.package_id);
                }
            }
            assert(final(self).wf());
        }
        Ok(())
    }
}

/// The dependency rows of `v` whose package is not `id`, in order.
fn dependencies_excluding_package(v: &Vec<DependencyRecord>, id: u64) -> (r: Vec<
    DependencyRecord,
>)
    ensures
        r@.map_values(|d: DependencyRecord| d@) == v@.map_values(|d: DependencyRecord| d@).filter(
            |d: DependencyModel| d.package_id != id,
        ),
{
    let n = v.len();
    let mut out: Vec<DependencyRecord> = Vec::new();
    proof {
        reveal(Seq::filter);
        assert(v@.map_values(|d: DependencyRecord| d@).subrange(0, 0) =~= Seq::<
            DependencyModel,
        >::empty());
        assert(out@.map_values(|d: DependencyRecord| d@) =~= Seq::<DependencyModel>::empty());
    }
    let mut j: usize = 0;
    while j < n
        invariant
            n == v.len(),
            0 <= j <= n,
            out@.map_values(|d: DependencyRecord| d@) == v@.map_values(|d: DependencyRecord| d@)
                .subrange(0, j as int).filter(|d: DependencyModel| d.package_id != id),
        decreases n - j,
    {
        let ghost m = v@.map_values(|d: DependencyRecord| d@);
        let ghost prev = out@.map_values(|d: DependencyRecord| d@);
        let x = &v[j];
        if x.package_id != id {
            out.push(
                DependencyRecord {
                    package_id: x.package_id,
                    name: x.name.clone(),
                    version: x.version.clone(),
                    dependency_type: x.dependency_type.clone(),
                },
            );
            proof {
                assert(out@.map_values(|d: DependencyRecord| d@) =~= prev.push(m[j as int]));
            }
        }
        proof {
            reveal(Seq::filter);
            assert(m.subrange(0, j + 1).drop_last() =~= m.subrange(0, j as int));
            assert(m.subrange(0, j + 1).last() == m[j as int]);
            assert(out@.map_values(|d: DependencyRecord| d@) == m.subrange(0, j + 1).filter(
                |d: DependencyModel| d.package_id != id,
            ));
        }
        j += 1;
    }
    proof {
        let m = v@.map_values(|d: DependencyRecord| d@);
        assert(m.subrange(0, n as int) =~= m);
    }
    out
}

/// The tag links of `v` whose package is not `id`, in order.
fn links_excluding_package(v: &Vec<PackageTagRecord>, id: u64) -> (r: Vec<PackageTagRecord>)
    ensures
        r@ == v@.filter(|l: PackageTagRecord| l.package_id != id),
{
    let n = v.len();
    let mut out: Vec<PackageTagRecord> = Vec::new();
    proof {
        reveal(Seq::filter);
        assert(v@.subrange(0, 0) =~= Seq::<PackageTagRecord>::empty());
    }
    let mut j: usize = 0;
    while j < n
        invariant
            n == v.len(),
            0 <= j <= n,
            out@ == v@.subrange(0, j as int).filter(|l: PackageTagRecord| l.package_id != id),
        decreases n - j,
    {
        let x = v[j];
        if x.package_id != id {
            out.push(x);
        }
        proof {
            reveal(Seq::filter);
            assert(v@.subrange(0, j + 1).drop_last() =~= v@.subrange(0, j as int));
            assert(v@.subrange(0, j + 1).last() == v@[j as int]);
        }
        j += 1;
    }
    proof {
        assert(v@.subrange(0, n as int) =~= v@);
    }
    out
}

/// The sessions of `v` whose user is not `id`, in order.
fn sessions_excluding_user(v: &Vec<SessionRecord>, id: u64) -> (r: Vec<SessionRecord>)
    ensures
        r@.map_values(|s: SessionRecord| s@) == v@.map_values(|s: SessionRecord| s@).filter(
            |s: SessionModel| s.user_id != id,
        ),
{
    let n = v.len();
    let mut out: Vec<SessionRecord> = Vec::new();
    proof {
        reveal(Seq::filter);
        assert(v@.map_values(|s: SessionRecord| s@).subrange(0, 0) =~= Seq::<
            SessionModel,
        >::empty());
        assert(out@.map_values(|s: SessionRecord| s@) =~= Seq::<SessionModel>::empty());
    }
    let mut j: usize = 0;
    while j < n
        invariant
            n == v.len(),
            0 <= j <= n,
            out@.map_values(|s: SessionRecord| s@) == v@.map_values(|s: SessionRecord| s@)
                .subrange(0, j as int).filter(|s: SessionModel| s.user_id != id),
        decreases n - j,
    {
        let ghost m = v@.map_values(|s: SessionRecord| s@);
        let ghost prev = out@.map_values(|s: SessionRecord| s@);
        let x = &v[j];
        if x.user_id != id {
            out.push(SessionRecord { token: x.token.clone(), user_id: x.user_id });
            proof {
                assert(out@.map_values(|s: SessionRecord| s@) =~= prev.push(m[j as int]));
            }
        }
        proof {
            reveal(Seq::filter);
            assert(m.subrange(0, j + 1).drop_last() =~= m.subrange(0, j as int));
            assert(m.subrange(0, j + 1).last() == m[j as int]);
            assert(out@.map_values(|s: SessionRecord| s@) == m.subrange(0, j + 1).filter(
                |s: SessionModel| s.user_id != id,
            ));
        }
        j += 1;
    }
    proof {
        let m = v@.map_values(|s: SessionRecord| s@);
        assert(m.subrange(0, n as int) =~= m);
    }
    out
}



/// Effect of creating a user: success appends exactly one record carrying
/// the fresh id and bumps the counter; each error names its cause, and a
/// failed call leaves the store untouched.
pub open spec fn insert_user_step(
    pre: StoreModel,
    post: StoreModel,
    username: Seq<char>,
    email: Seq<char>,
    salt: Seq<char>,
    credential: Seq<char>,
    role: Role,
    now: i64,
    r: Result<u64, RegistryError>,
) -> bool {
    match r {
        Ok(id) => valid_user_fields(username, email) && !has_username(pre.users, username)
            && !has_email(pre.users, email) && pre.next_id < u64::MAX && id == pre.next_id
            && post.users == pre.users.push(
            UserModel { id: pre.next_id, username, email, salt, credential, role, created_at: now },
        ) && post.packages == pre.packages && post.dependencies == pre.dependencies
            && post.links == pre.links && post.tags == pre.tags && post.sessions == pre.sessions
            && post.next_id == pre.next_id + 1,
        Err(e) => post == pre && match e {
            RegistryError::ValidationError => !valid_user_fields(username, email),
            RegistryError::ConstraintViolation => valid_user_fields(username, email) && (
            has_username(pre.users, username) || has_email(pre.users, email)),
            RegistryError::InternalError => valid_user_fields(username, email) && !has_username(
                pre.users,
                username,
            ) && !has_email(pre.users, email) && pre.next_id == u64::MAX,
            _ => false,
        },
    }
}

/// Effect of replacing the mutable fields of a user: id, role and creation
/// time are kept; uniqueness is revalidated against the other users.
pub open spec fn update_user_step(
    pre: StoreModel,
    post: StoreModel,
    id: u64,
    username: Seq<char>,
    email: Seq<char>,
    salt: Seq<char>,
    credential: Seq<char>,
    r: Result<(), RegistryError>,
) -> bool {
    let i = user_index_by_id(pre.users, id);
    match r {
        Ok(_) => has_user_id(pre.users, id) && valid_user_fields(username, email)
            && !username_held_by_another(pre.users, username, id) && !email_held_by_another(
            pre.users,
            email,
            id,
        ) && post.users == pre.users.update(
            i,
            UserModel {
                id,
                username,
                email,
                salt,
                credential,
                role: pre.users[i].role,
                created_at: pre.users[i].created_at,
            },
        ) && post.packages == pre.packages && post.dependencies == pre.dependencies
            && post.links == pre.links && post.tags == pre.tags && post.sessions == pre.sessions
            && post.next_id == pre.next_id,
        Err(e) => post == pre && match e {
            RegistryError::NotFound => !has_user_id(pre.users, id),
            RegistryError::ValidationError => has_user_id(pre.users, id) && !valid_user_fields(
                username,
                email,
            ),
            RegistryError::ConstraintViolation => has_user_id(pre.users, id) && valid_user_fields(
                username,
                email,
            ) && (username_held_by_another(pre.users, username, id) || email_held_by_another(
                pre.users,
                email,
                id,
            )),
            _ => false,
        },
    }
}

/// Effect of deleting a user: the record goes away and its sessions are
/// cascaded; authored packages are kept and may carry an orphaned author
/// reference, by design.
pub open spec fn remove_user_step(
    pre: StoreModel,
    post: StoreModel,
    id: u64,
    r: Result<(), RegistryError>,
) -> bool {
    match r {
        Ok(_) => has_user_id(pre.users, id) && post.users == pre.users.remove(
            user_index_by_id(pre.users, id),
        ) && post.sessions == pre.sessions.filter(|s: SessionModel| s.user_id != id)
            && post.packages == pre.packages && post.dependencies == pre.dependencies
            && post.links == pre.links && post.tags == pre.tags && post.next_id == pre.next_id,
        Err(e) => post == pre && e == RegistryError::NotFound && !has_user_id(pre.users, id),
    }
}

/// Effect of opening a session: the token must be fresh and the user known.
pub open spec fn insert_session_step(
    pre: StoreModel,
    post: StoreModel,
    token: Seq<char>,
    user_id: u64,
    r: Result<(), RegistryError>,
) -> bool {
    match r {
        Ok(_) => has_user_id(pre.users, user_id) && !has_session_token(pre.sessions, token)
            && post.sessions == pre.sessions.push(SessionModel { token, user_id })
            && post.users == pre.users && post.packages == pre.packages
            && post.dependencies == pre.dependencies && post.links == pre.links
            && post.tags == pre.tags && post.next_id == pre.next_id,
        Err(e) => post == pre && match e {
            RegistryError::NotFound => !has_user_id(pre.users, user_id),
            RegistryError::ConstraintViolation => has_user_id(pre.users, user_id)
                && has_session_token(pre.sessions, token),
            _ => false,
        },
    }
}

/// Effect of looking a tag up by name, creating it when absent.
pub open spec fn ensure_tag_step(
    pre: StoreModel,
    post: StoreModel,
    name: Seq<char>,
    color: Seq<char>,
    r: Result<u64, RegistryError>,
) -> bool {
    match r {
        Ok(id) => if has_tag_name(pre.tags, name) {
            post == pre && id == pre.tags[tag_index_by_name(pre.tags, name)].id
        } else {
            valid_tag_fields(name) && pre.next_id < u64::MAX && id == pre.next_id
                && post.tags == pre.tags.push(TagModel { id: pre.next_id, name, color })
                && post.users == pre.users && post.packages == pre.packages
                && post.dependencies == pre.dependencies && post.links == pre.links
                && post.sessions == pre.sessions && post.next_id == pre.next_id + 1
        },
        Err(e) => post == pre && !has_tag_name(pre.tags, name) && match e {
            RegistryError::ValidationError => !valid_tag_fields(name),
            RegistryError::InternalError => valid_tag_fields(name) && pre.next_id == u64::MAX,
            _ => false,
        },
    }
}

/// The dependency rows a create request expands to, owned by package `pid`.
pub open spec fn dependency_rows_for(
    pid: u64,
    deps: Seq<crate::payloads::DependencyRequestModel>,
) -> Seq<DependencyModel> {
    deps.map_values(
        |d: crate::payloads::DependencyRequestModel| DependencyModel {
            package_id: pid,
            name: d.name,
            version: d.version,
            dependency_type: d.dependency_type,
        },
    )
}

/// The tag links a create request expands to, owned by package `pid`.
pub open spec fn links_for(pid: u64, tag_ids: Seq<u64>) -> Seq<PackageTagRecord> {
    tag_ids.map_values(|t: u64| PackageTagRecord { package_id: pid, tag_id: t })
}

/// Effect of creating a package together with its dependency rows and tag
/// links: success appends exactly one package carrying the fresh id, its
/// rows and links, and bumps the counter; each error names its cause, and a
/// failed call leaves the store untouched.
pub open spec fn insert_package_step(
    pre: StoreModel,
    post: StoreModel,
    name: Seq<char>,
    version: Seq<char>,
    description: Option<Seq<char>>,
    maintainer: Seq<char>,
    architecture: Seq<char>,
    size: i64,
    checksum: Seq<char>,
    storage_path: Seq<char>,
    author_id: u64,
    deps: Seq<crate::payloads::DependencyRequestModel>,
    tag_ids: Seq<u64>,
    now: i64,
    r: Result<u64, RegistryError>,
) -> bool {
    match r {
        Ok(id) => valid_package_fields(name, size) && has_user_id(pre.users, author_id)
            && !has_package_key(pre.packages, name, version) && pre.next_id < u64::MAX
            && id == pre.next_id && post.packages == pre.packages.push(
            PackageModel {
                id: pre.next_id,
                name,
                version,
                description,
                maintainer,
                architecture,
                size,
                checksum,
                storage_path,
                author_id,
                created_at: now,
                updated_at: now,
            },
        ) && post.dependencies == pre.dependencies + dependency_rows_for(pre.next_id, deps)
            && post.links == pre.links + links_for(pre.next_id, tag_ids)
            && post.users == pre.users && post.tags == pre.tags && post.sessions == pre.sessions
            && post.next_id == pre.next_id + 1,
        Err(e) => post == pre && match e {
            RegistryError::ValidationError => !valid_package_fields(name, size),
            RegistryError::NotFound => valid_package_fields(name, size) && !has_user_id(
                pre.users,
                author_id,
            ),
            RegistryError::ConstraintViolation => valid_package_fields(name, size) && has_user_id(
                pre.users,
                author_id,
            ) && has_package_key(pre.packages, name, version),
            RegistryError::InternalError => valid_package_fields(name, size) && has_user_id(
                pre.users,
                author_id,
            ) && !has_package_key(pre.packages, name, version) && pre.next_id == u64::MAX,
            _ => false,
        },
    }
}

/// Effect of replacing the mutable fields of a package: id, checksum,
/// storage path, author and creation time are kept, the update time is
/// bumped, and the key is revalidated against the other packages.
pub open spec fn update_package_step(
    pre: StoreModel,
    post: StoreModel,
    id: u64,
    name: Seq<char>,
    version: Seq<char>,
    description: Option<Seq<char>>,
    maintainer: Seq<char>,
    architecture: Seq<char>,
    size: i64,
    now: i64,
    r: Result<(), RegistryError>,
) -> bool {
    let i = package_index_by_id(pre.packages, id);
    match r {
        Ok(_) => has_package_id(pre.packages, id) && valid_package_fields(name, size)
            && !package_key_held_by_another(pre.packages, name, version, id)
            && post.packages == pre.packages.update(
            i,
            PackageModel {
                id,
                name,
                version,
                description,
                maintainer,
                architecture,
                size,
                checksum: pre.packages[i].checksum,
                storage_path: pre.packages[i].storage_path,
                author_id: pre.packages[i].author_id,
                created_at: pre.packages[i].created_at,
                updated_at: now,
            },
        ) && post.users == pre.users && post.dependencies == pre.dependencies
            && post.links == pre.links && post.tags == pre.tags && post.sessions == pre.sessions
            && post.next_id == pre.next_id,
        Err(e) => post == pre && match e {
            RegistryError::NotFound => !has_package_id(pre.packages, id),
            RegistryError::ValidationError => has_package_id(pre.packages, id)
                && !valid_package_fields(name, size),
            RegistryError::ConstraintViolation => has_package_id(pre.packages, id)
                && valid_package_fields(name, size) && package_key_held_by_another(
                pre.packages,
                name,
                version,
                id,
            ),
            _ => false,
        },
    }
}

/// Effect of deleting a package: the record, all its dependency rows and all
/// its tag links go away; tags themselves and every other entity stay.
pub open spec fn remove_package_step(
    pre: StoreModel,
    post: StoreModel,
    id: u64,
    r: Result<(), RegistryError>,
) -> bool {
    match r {
        Ok(_) => has_package_id(pre.packages, id) && post.packages == pre.packages.remove(
            package_index_by_id(pre.packages, id),
        ) && post.dependencies == pre.dependencies.filter(
            |d: DependencyModel| d.package_id != id,
        ) && post.links == pre.links.filter(|l: PackageTagRecord| l.package_id != id)
            && post.users == pre.users && post.tags == pre.tags && post.sessions == pre.sessions
            && post.next_id == pre.next_id,
        Err(e) => post == pre && e == RegistryError::NotFound && !has_package_id(pre.packages, id),
    }
}

} // verus!
