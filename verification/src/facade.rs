use vstd::prelude::*;
use vstd::string::{StrSliceExecFns, StringExecFns};
use crate::digest::{checksum_of, checksum_for, hex_of, sha256_of, sha256_str, to_hex};
use crate::entities::{
    valid_package_fields, valid_user_fields, PackageTagRecord, Role, SessionModel, UserModel,
    UserRecord,
};
use crate::errors::RegistryError;
use crate::model::{
    has_email, has_package_id, has_package_key, has_session_token, has_user_id, has_username,
    package_index_by_id, user_index_by_id, user_index_by_username, StoreModel,
};
use crate::payloads::{
    AuthResponse, PackageQuery, PackageQueryModel, PackageRequest, PackageRequestModel,
    PackageResponse, PackageResponseModel, UserRequest, UserResponse,
};
use crate::query::{
    matching_responses, package_has_tag, package_response_model, page_of, user_response_model,
    PackageFilter, PackageFilterModel,
};
use crate::store::{
    dependency_rows_for, insert_user_step, links_for, remove_package_step, remove_user_step,
    update_package_step, update_user_step, Store,
};
use crate::text::{concat3, concat5};

verus! {

/// The stored credential for a password under a salt: the hex digest of
/// `salt:password`. The clear password never reaches the store.
pub open spec fn credential_digest(salt: Seq<char>, password: Seq<char>) -> Seq<char> {
    hex_of(sha256_of(salt + ":"@ + password))
}

/// Computes the stored credential of a password under a salt.
pub fn compute_credential(salt: &str, password: &str) -> (r: String)
    ensures
        r@ == credential_digest(salt@, password@),
{
    let joined = concat3(salt, ":", password);
    let digest = sha256_str(joined.as_str());
    to_hex(&digest)
}

/// Whether the credentials resolve to a user whose stored digest matches.
pub open spec fn authenticate_ok(s: StoreModel, username: Seq<char>, password: Seq<char>) -> bool {
    has_username(s.users, username) && {
        let u = s.users[user_index_by_username(s.users, username)];
        u.credential == credential_digest(u.salt, password)
    }
}

/// The token of a bearer credential: the rest of the header after the
/// literal prefix `Bearer `, when that prefix is present.
pub open spec fn bearer_token_of(header: Seq<char>) -> Option<Seq<char>> {
    if header.len() >= 7 && header.subrange(0, 7) == "Bearer "@ {
        Some(header.subrange(7, header.len() as int))
    } else {
        None
    }
}

/// Extracts the token of a bearer credential, if the header carries one.
pub fn bearer_token(header: &str) -> (r: Option<String>)
    ensures
        match r {
            Some(t) => bearer_token_of(header@) == Some(t@),
            None => bearer_token_of(header@) is None,
        },
{
    let n = header.unicode_len();
    if n < 7 {
        return None;
    }
    let prefix = String::from_str(header.substring_char(0, 7));
    let expected = String::from_str("Bearer ");
    if prefix == expected {
        let rest = header.substring_char(7, n).to_owned();
        proof {
            assert(header@.subrange(0, 7) == "Bearer "@);
            assert(rest@ == header@.subrange(7, header@.len() as int));
        }
        Some(rest)
    } else {
        proof {
            assert(header@.subrange(0, 7) != "Bearer "@);
        }
        None
    }
}

/// The mathematical value of the result of a facade call that returns a
/// user projection, reduced to what the store layer decides.
pub open spec fn user_result_id(r: Result<UserResponse, RegistryError>) -> Result<
    u64,
    RegistryError,
> {
    match r {
        Ok(resp) => Ok(resp.id),
        Err(e) => Err(e),
    }
}

/// The unit image of a result that carries a payload.
pub open spec fn unit_result<T>(r: Result<T, RegistryError>) -> Result<(), RegistryError> {
    match r {
        Ok(_) => Ok(()),
        Err(e) => Err(e),
    }
}

impl Store {
    /// Builds the externally visible projection of a stored user.
    fn user_response_of(u: &UserRecord) -> (r: UserResponse)
        ensures
            r@ == user_response_model(u@),
    {
        UserResponse {
            id: u.id,
            username: u.username.clone(),
            email: u.email.clone(),
            role: String::from_str(u.role.name()),
            created_at: u.created_at,
        }
    }

    /// Checks the credentials and, on success, opens a session under the
    /// caller-supplied opaque token. A token collision is an internal
    /// failure, never an authentication verdict.
    pub fn authenticate(&mut self, username: &String, password: &String, fresh_token: String)
        -> (r: Result<AuthResponse, RegistryError>)
        requires
            old(self).wf(),
        ensures
            final(self).wf(),
            match r {
                Ok(resp) => authenticate_ok(old(self)@, username@, password@) && !has_session_token(
                    old(self)@.sessions,
                    fresh_token@,
                ) && resp@.token == fresh_token@ && resp@.user == user_response_model(
                    old(self)@.users[user_index_by_username(old(self)@.users, username@)],
                ) && final(self)@ == StoreModel {
                    sessions: old(self)@.sessions.push(
                        SessionModel {
                            token: fresh_token@,
                            user_id: old(self)@.users[
                                user_index_by_username(old(self)@.users, username@)
                            ].id,
                        },
                    ),
                    ..old(self)@
                },
                Err(RegistryError::Unauthorized) => !authenticate_ok(
                    old(self)@,
                    username@,
                    password@,
                ) && final(self)@ == old(self)@,
                Err(RegistryError::InternalError) => authenticate_ok(
                    old(self)@,
                    username@,
                    password@,
                ) && has_session_token(old(self)@.sessions, fresh_token@) && final(self)@ == old(
                    self,
                )@,
                Err(_) => false,
            },
    {
        let idx = match self.find_user_by_username(username) {
            Some(i) => i,
            None => {
                return Err(RegistryError::Unauthorized);
            },
        };
        proof {
            let j = user_index_by_username(self@.users, username@);
            assert(0 <= j < self@.users.len() && self@.users[j].username == username@);
            if j != idx {
                assert(false);
            }
        }
        let supplied = compute_credential(
            self.users[idx].salt.as_str(),
            password.as_str(),
        );
        if !(self.users[idx].credential == supplied) {
            return Err(RegistryError::Unauthorized);
        }
        let uid = self.users[idx].id;
        let user_row = Self::user_response_of(&self.users[idx]);
        let token_copy = fresh_token.clone();
        match self.insert_session(fresh_token, uid) {
            Ok(_) => Ok(AuthResponse { token: token_copy, user: user_row }),
            Err(e) => {
                proof {
                    assert(e == RegistryError::ConstraintViolation);
                }
                Err(RegistryError::InternalError)
            },
        }
    }

    /// Creates a user with role USER, storing only the salted digest of the
    /// password.
    pub fn create_user(&mut self, req: &UserRequest, salt: String, now: i64) -> (r: Result<
        UserResponse,
        RegistryError,
    >)
        requires
            old(self).wf(),
        ensures
            final(self).wf(),
            insert_user_step(
                old(self)@,
                final(self)@,
                req@.username,
                req@.email,
                salt@,
                credential_digest(salt@, req@.password),
                Role::User,
                now,
                user_result_id(r),
            ),
            match r {
                Ok(resp) => resp@ == user_response_model(
                    UserModel {
                        id: old(self)@.next_id,
                        username: req@.username,
                        email: req@.email,
                        salt: salt@,
                        credential: credential_digest(salt@, req@.password),
                        role: Role::User,
                        created_at: now,
                    },
                ),
                Err(_) => true,
            },
    {
        let digest = compute_credential(salt.as_str(), req.password.as_str());
        let username = req.username.clone();
        let email = req.email.clone();
        let id = match self.insert_user(
            req.username.clone(),
            req.email.clone(),
            salt,
            digest,
            Role::User,
            now,
        ) {
            Ok(id) => id,
            Err(e) => {
                return Err(e);
            },
        };
        Ok(
            UserResponse {
                id,
                username,
                email,
                role: String::from_str(Role::User.name()),
                created_at: now,
            },
        )
    }

    /// Creates a user, then opens a session for it under the caller-supplied
    /// opaque token: registration logs the new user in.
    pub fn register(&mut self, req: &UserRequest, salt: String, fresh_token: String, now: i64)
        -> (r: Result<AuthResponse, RegistryError>)
        requires
            old(self).wf(),
        ensures
            final(self).wf(),
            match r {
                Ok(resp) => !has_session_token(old(self)@.sessions, fresh_token@)
                    && insert_user_step(
                    old(self)@,
                    StoreModel { sessions: old(self)@.sessions, ..final(self)@ },
                    req@.username,
                    req@.email,
                    salt@,
                    credential_digest(salt@, req@.password),
                    Role::User,
                    now,
                    Ok(resp.user.id),
                ) && final(self)@.sessions == old(self)@.sessions.push(
                    SessionModel { token: fresh_token@, user_id: old(self)@.next_id },
                ) && resp@.token == fresh_token@ && resp@.user == user_response_model(
                    UserModel {
                        id: old(self)@.next_id,
                        username: req@.username,
                        email: req@.email,
                        salt: salt@,
                        credential: credential_digest(salt@, req@.password),
                        role: Role::User,
                        created_at: now,
                    },
                ),
                Err(RegistryError::InternalError) => final(self)@ == old(self)@ && (
                has_session_token(old(self)@.sessions, fresh_token@) || (valid_user_fields(
                    req@.username,
                    req@.email,
                ) && !has_username(old(self)@.users, req@.username) && !has_email(
                    old(self)@.users,
                    req@.email,
                ) && old(self)@.next_id == u64::MAX)),
                Err(e) => final(self)@ == old(self)@ && !has_session_token(
                    old(self)@.sessions,
                    fresh_token@,
                ) && insert_user_step(
                    old(self)@,
                    old(self)@,
                    req@.username,
                    req@.email,
                    salt@,
                    credential_digest(salt@, req@.password),
                    Role::User,
                    now,
                    Err(e),
                ),
            },
    {
        if self.find_session_by_token(&fresh_token).is_some() {
            return Err(RegistryError::InternalError);
        }
        let user_row = match self.create_user(req, salt, now) {
            Ok(u) => u,
            Err(e) => {
                return Err(e);
            },
        };
        let uid = user_row.id;
        let token_copy = fresh_token.clone();
        proof {
            assert(self@.users[self@.users.len() - 1].id == uid);
            assert(has_user_id(self@.users, uid));
            assert(self@.sessions == old(self)@.sessions);
        }
        match self.insert_session(fresh_token, uid) {
            Ok(_) => Ok(AuthResponse { token: token_copy, user: user_row }),
            Err(_) => {
                proof {
                    assert(false);
                }
                Err(RegistryError::InternalError)
            },
        }
    }

    /// The projection of the user an id names.
    pub fn get_user(&self, id: u64) -> (r: Result<UserResponse, RegistryError>)
        requires
            self.wf(),
        ensures
            match r {
                Ok(resp) => has_user_id(self@.users, id) && resp@ == user_response_model(
                    self@.users[user_index_by_id(self@.users, id)],
                ),
                Err(e) => e == RegistryError::NotFound && !has_user_id(self@.users, id),
            },
    {
        let u = self.user_by_id(id)?;
        Ok(Self::user_response_of(u))
    }

    /// The projections of every user, in store order.
    pub fn list_users(&self) -> (r: Vec<UserResponse>)
        ensures
            r@.map_values(|u: UserResponse| u@) == self@.users.map_values(
                |u: UserModel| user_response_model(u),
            ),
    {
        let mut out: Vec<UserResponse> = Vec::new();
        let n = self.users.len();
        let mut i: usize = 0;
        proof {
            assert(out@.map_values(|u: UserResponse| u@) =~= self@.users.subrange(0, 0)
                .map_values(|u: UserModel| user_response_model(u)));
        }
        while i < n
            invariant
                n == self.users.len(),
                0 <= i <= n,
                out@.map_values(|u: UserResponse| u@) == self@.users.subrange(0, i as int)
                    .map_values(|u: UserModel| user_response_model(u)),
            decreases n - i,
        {
            let ghost prev = out@.map_values(|u: UserResponse| u@);
            let row = Self::user_response_of(&self.users[i]);
            out.push(row);
            proof {
                assert(out@.map_values(|u: UserResponse| u@) =~= prev.push(
                    user_response_model(self@.users[i as int]),
                ));
                assert(out@.map_values(|u: UserResponse| u@) =~= self@.users.subrange(0, i + 1)
                    .map_values(|u: UserModel| user_response_model(u)));
            }
            i += 1;
        }
        proof {
            assert(self@.users.subrange(0, n as int) =~= self@.users);
        }
        out
    }

    /// Replaces a user's mutable fields, re-deriving the stored credential
    /// from the new password under the supplied salt.
    pub fn update_user(&mut self, id: u64, req: &UserRequest, salt: String) -> (r: Result<
        UserResponse,
        RegistryError,
    >)
        requires
            old(self).wf(),
        ensures
            final(self).wf(),
            update_user_step(
                old(self)@,
                final(self)@,
                id,
                req@.username,
                req@.email,
                salt@,
                credential_digest(salt@, req@.password),
                unit_result(r),
            ),
            match r {
                Ok(resp) => has_user_id(final(self)@.users, id) && resp@ == user_response_model(
                    final(self)@.users[user_index_by_id(final(self)@.users, id)],
                ),
                Err(_) => true,
            },
    {
        let digest = compute_credential(salt.as_str(), req.password.as_str());
        match self.update_user_fields(id, req.username.clone(), req.email.clone(), salt, digest) {
            Ok(_) => {},
            Err(e) => {
                return Err(e);
            },
        }
        proof {
            let pre = old(self)@;
            let i = user_index_by_id(pre.users, id);
            assert(self@.users[i].id == id);
            let j = user_index_by_id(self@.users, id);
            assert(0 <= j < self@.users.len() && self@.users[j].id == id);
            if j != i {
                assert(false);
            }
        }
        match self.user_by_id(id) {
            Ok(u) => Ok(Self::user_response_of(u)),
            Err(_) => {
                proof {
                    assert(false);
                }
                Err(RegistryError::InternalError)
            },
        }
    }

    /// Deletes a user; its sessions go with it, its packages stay.
    pub fn delete_user(&mut self, id: u64) -> (r: Result<(), RegistryError>)
        requires
            old(self).wf(),
        ensures
            final(self).wf(),
            remove_user_step(old(self)@, final(self)@, id, r),
    {
        self.remove_user(id)
    }

    /// The expanded projection of the package an id names.
    pub fn get_package(&self, id: u64) -> (r: Result<PackageResponse, RegistryError>)
        requires
            self.wf(),
        ensures
            match r {
                Ok(resp) => has_package_id(self@.packages, id) && resp@ == package_response_model(
                    self@,
                    self@.packages[package_index_by_id(self@.packages, id)],
                ),
                Err(e) => e == RegistryError::NotFound && !has_package_id(self@.packages, id),
            },
    {
        let idx = match self.find_package_by_id(id) {
            Some(i) => i,
            None => {
                return Err(RegistryError::NotFound);
            },
        };
        proof {
            let j = package_index_by_id(self@.packages, id);
            assert(0 <= j < self@.packages.len() && self@.packages[j].id == id);
            if j != idx {
                assert(false);
            }
        }
        Ok(self.expand_package(idx))
    }

    /// Replaces a package's mutable fields and returns the fresh projection.
    pub fn update_package(
        &mut self,
        id: u64,
        name: String,
        version: String,
        description: Option<String>,
        maintainer: String,
        architecture: String,
        size: i64,
        now: i64,
    ) -> (r: Result<PackageResponse, RegistryError>)
        requires
            old(self).wf(),
        ensures
            final(self).wf(),
            update_package_step(
                old(self)@,
                final(self)@,
                id,
                name@,
                version@,
                crate::entities::opt_view(description),
                maintainer@,
                architecture@,
                size,
                now,
                unit_result(r),
            ),
            match r {
                Ok(resp) => has_package_id(final(self)@.packages, id) && resp@
                    == package_response_model(
                    final(self)@,
                    final(self)@.packages[package_index_by_id(final(self)@.packages, id)],
                ),
                Err(_) => true,
            },
    {
        match self.update_package_fields(
            id,
            name,
            version,
            description,
            maintainer,
            architecture,
            size,
            now,
        ) {
            Ok(_) => {},
            Err(e) => {
                return Err(e);
            },
        }
        proof {
            let pre = old(self)@;
            let i = package_index_by_id(pre.packages, id);
            assert(self@.packages[i].id == id);
        }
        match self.get_package(id) {
            Ok(resp) => Ok(resp),
            Err(_) => {
                proof {
                    assert(false);
                }
                Err(RegistryError::InternalError)
            },
        }
    }

    /// Deletes a package; its dependency rows and tag links are cascaded,
    /// shared tags stay retrievable.
    pub fn delete_package(&mut self, id: u64) -> (r: Result<(), RegistryError>)
        requires
            old(self).wf(),
        ensures
            final(self).wf(),
            remove_package_step(old(self)@, final(self)@, id, r),
    {
        self.remove_package(id)
    }

    /// The filter a listing query stands for: its `search` field narrows the
    /// package name, the rest map one to one.
    pub open spec fn filter_of_query(q: PackageQueryModel) -> PackageFilterModel {
        PackageFilterModel {
            name_contains: q.search,
            maintainer: q.maintainer,
            author_id: None,
            tag: q.tag,
        }
    }

    /// The offset a listing query stands for; absent means zero.
    pub open spec fn offset_of_query(q: PackageQueryModel) -> usize {
        match q.offset {
            Some(o) => o,
            None => 0,
        }
    }

    /// Lists the packages a query keeps, expanded, in store order, after
    /// pagination.
    pub fn list_packages(&self, q: &PackageQuery) -> (r: Vec<PackageResponse>)
        requires
            self.wf(),
        ensures
            r@.map_values(|p: PackageResponse| p@) == page_of(
                matching_responses(self@, Self::filter_of_query(q@)),
                q@.limit,
                Self::offset_of_query(q@),
            ),
    {
        let f = PackageFilter {
            name_contains: match &q.search {
                Some(s) => Some(s.clone()),
                None => None,
            },
            maintainer: match &q.maintainer {
                Some(m) => Some(m.clone()),
                None => None,
            },
            author_id: None,
            tag: match &q.tag {
                Some(t) => Some(t.clone()),
                None => None,
            },
        };
        let offset = match q.offset {
            Some(o) => o,
            None => 0,
        };
        proof {
            assert(f@ =~= Self::filter_of_query(q@));
        }
        self.find_packages(&f, q.limit, offset)
    }

    /// The filter that keeps exactly the packages of one author.
    pub open spec fn author_filter(author_id: u64) -> PackageFilterModel {
        PackageFilterModel {
            name_contains: None,
            maintainer: None,
            author_id: Some(author_id),
            tag: None,
        }
    }

    /// Lists every package authored by a user, expanded, in store order.
    /// The user need not exist; an unknown id simply owns no packages.
    pub fn list_packages_by_user(&self, author_id: u64) -> (r: Vec<PackageResponse>)
        requires
            self.wf(),
        ensures
            r@.map_values(|p: PackageResponse| p@) == matching_responses(
                self@,
                Self::author_filter(author_id),
            ),
    {
        let f = PackageFilter {
            name_contains: None,
            maintainer: None,
            author_id: Some(author_id),
            tag: None,
        };
        proof {
            assert(f@ =~= Self::author_filter(author_id));
        }
        let r = self.find_packages(&f, None, 0);
        proof {
            let rs = matching_responses(self@, Self::author_filter(author_id));
            assert(page_of(rs, None, 0) =~= rs);
        }
        r
    }

    /// The character sequences of a vector of strings.
    pub open spec fn names_view(names: Seq<String>) -> Seq<Seq<char>> {
        names.map_values(|n: String| n@)
    }

    /// Resolves tag names to tag ids, creating the tags that are absent
    /// with an empty color. The returned ids are pairwise distinct; every
    /// name resolves to one of them and every one of them names one of the
    /// requested tags. Only the tag table and the id counter change.
    #[verifier::rlimit(100)]
    fn resolve_tags(&mut self, names: &Vec<String>) -> (r: Vec<u64>)
        requires
            old(self).wf(),
            forall|k: int| 0 <= k < names@.len() ==> (#[trigger] Self::names_view(names@)[k]).len()
                > 0,
            u64::MAX - old(self)@.next_id > names@.len(),
        ensures
            final(self).wf(),
            final(self)@.users == old(self)@.users,
            final(self)@.packages == old(self)@.packages,
            final(self)@.dependencies == old(self)@.dependencies,
            final(self)@.links == old(self)@.links,
            final(self)@.sessions == old(self)@.sessions,
            final(self)@.tags.len() >= old(self)@.tags.len(),
            final(self)@.tags.subrange(0, old(self)@.tags.len() as int) == old(self)@.tags,
            forall|j: int|
                old(self)@.tags.len() <= j < final(self)@.tags.len() ==> Self::names_view(
                    names@,
                ).contains((#[trigger] final(self)@.tags[j]).name) && final(self)@.tags[j].color
                    == ""@,
            old(self)@.next_id <= final(self)@.next_id,
            final(self)@.next_id - old(self)@.next_id <= names@.len(),
            forall|a: int, b: int| 0 <= a < b < r@.len() ==> r@[a] != r@[b],
            forall|k: int|
                0 <= k < r@.len() ==> crate::model::has_tag_id(final(self)@.tags, #[trigger] r@[k])
                    && Self::names_view(names@).contains(
                    final(self)@.tags[
                        crate::model::tag_index_by_id(final(self)@.tags, r@[k])
                    ].name,
                ),
            forall|t: int|
                0 <= t < names@.len() ==> crate::model::has_tag_name(
                    final(self)@.tags,
                    #[trigger] Self::names_view(names@)[t],
                ) && r@.contains(
                    final(self)@.tags[
                        crate::model::tag_index_by_name(
                            final(self)@.tags,
                            Self::names_view(names@)[t],
                        )
                    ].id,
                ),
    {
        let ghost pre = old(self)@;
        let tn = names.len();
        let mut tag_ids: Vec<u64> = Vec::new();
        let mut ti: usize = 0;
        while ti < tn
            invariant
                self.wf(),
                tn == names@.len(),
                0 <= ti <= tn,
                forall|k: int| 0 <= k < tn ==> (#[trigger] Self::names_view(names@)[k]).len() > 0,
                self@.users == pre.users,
                self@.packages == pre.packages,
                self@.dependencies == pre.dependencies,
                self@.links == pre.links,
                self@.sessions == pre.sessions,
                self@.tags.len() >= pre.tags.len(),
                self@.tags.subrange(0, pre.tags.len() as int) == pre.tags,
                forall|j: int|
                    pre.tags.len() <= j < self@.tags.len() ==> Self::names_view(names@).contains(
                        (#[trigger] self@.tags[j]).name,
                    ) && self@.tags[j].color == ""@,
                pre.next_id <= self@.next_id,
                self@.next_id - pre.next_id <= ti,
                u64::MAX - pre.next_id > tn,
                forall|a: int, b: int| 0 <= a < b < tag_ids@.len() ==> tag_ids@[a] != tag_ids@[b],
                forall|k: int|
                    0 <= k < tag_ids@.len() ==> crate::model::has_tag_id(
                        self@.tags,
                        #[trigger] tag_ids@[k],
                    ) && Self::names_view(names@).contains(
                        self@.tags[crate::model::tag_index_by_id(self@.tags, tag_ids@[k])].name,
                    ),
                forall|t: int|
                    0 <= t < ti ==> crate::model::has_tag_name(
                        self@.tags,
                        #[trigger] Self::names_view(names@)[t],
                    ) && tag_ids@.contains(
                        self@.tags[
                            crate::model::tag_index_by_name(
                                self@.tags,
                                Self::names_view(names@)[t],
                            )
                        ].id,
                    ),
            decreases tn - ti,
        {
            let ghost nv = Self::names_view(names@);
            let ghost smid = self@;
            let ghost tag_ids_prev = tag_ids@;
            let tname = names[ti].clone();
            let tid = match self.ensure_tag(tname, String::new()) {
                Ok(t) => t,
                Err(_) => {
                    proof {
                        assert(false);
                    }
                    0
                },
            };
            proof {
                reveal_strlit("");
                assert(""@ =~= Seq::<char>::empty());
                assert(tname@ == nv[ti as int]);
                if crate::model::has_tag_name(smid.tags, nv[ti as int]) {
                    assert(self@ == smid);
                    let j = crate::model::tag_index_by_name(smid.tags, nv[ti as int]);
                    assert(0 <= j < smid.tags.len() && smid.tags[j].name == nv[ti as int]);
                    assert(self@.tags[j].id == tid);
                } else {
                    assert(self@.tags == smid.tags.push(
                        crate::entities::TagModel {
                            id: smid.next_id,
                            name: nv[ti as int],
                            color: ""@,
                        },
                    ));
                    assert(self@.tags[self@.tags.len() - 1].id == tid);
                    assert(self@.tags[self@.tags.len() - 1].name == nv[ti as int]);
                    assert(nv.contains(nv[ti as int]));
                    assert(self@.tags.subrange(0, pre.tags.len() as int) =~= pre.tags);
                }
            }
            let already = contains_id(&tag_ids, tid);
            if !already {
                tag_ids.push(tid);
            }
            proof {
                let s1 = self@;
                assert(crate::model::has_tag_name(s1.tags, nv[ti as int])) by {
                    if crate::model::has_tag_name(smid.tags, nv[ti as int]) {
                        let j = crate::model::tag_index_by_name(smid.tags, nv[ti as int]);
                        assert(s1.tags[j].name == nv[ti as int]);
                    } else {
                        assert(s1.tags[s1.tags.len() - 1].name == nv[ti as int]);
                    }
                }
                assert(crate::model::has_tag_id(s1.tags, tid)
                    && s1.tags[crate::model::tag_index_by_id(s1.tags, tid)].name
                    == nv[ti as int]) by {
                    if crate::model::has_tag_name(smid.tags, nv[ti as int]) {
                        let j = crate::model::tag_index_by_name(smid.tags, nv[ti as int]);
                        assert(s1.tags[j].id == tid);
                        let j2 = crate::model::tag_index_by_id(s1.tags, tid);
                        assert(0 <= j2 < s1.tags.len() && s1.tags[j2].id == tid);
                        if j2 != j {
                            assert(s1.tags[j2].id != s1.tags[j].id);
                        }
                    } else {
                        let j = s1.tags.len() - 1;
                        assert(s1.tags[j].id == tid);
                        let j2 = crate::model::tag_index_by_id(s1.tags, tid);
                        assert(0 <= j2 < s1.tags.len() && s1.tags[j2].id == tid);
                        if j2 != j {
                            assert(s1.tags[j2].id != s1.tags[j].id);
                        }
                    }
                }
                assert(tag_ids@.contains(tid)) by {
                    if already {
                        let k = choose|k: int|
                            0 <= k < tag_ids_prev.len() && tag_ids_prev[k] == tid;
                        assert(tag_ids@[k] == tid);
                    } else {
                        assert(tag_ids@[tag_ids@.len() - 1] == tid);
                    }
                }
                assert forall|k: int| 0 <= k < tag_ids@.len() implies crate::model::has_tag_id(
                    s1.tags,
                    #[trigger] tag_ids@[k],
                ) && Self::names_view(names@).contains(
                    s1.tags[crate::model::tag_index_by_id(s1.tags, tag_ids@[k])].name,
                ) by {
                    if k < tag_ids_prev.len() {
                        assert(tag_ids@[k] == tag_ids_prev[k]);
                        assert(crate::model::has_tag_id(smid.tags, tag_ids_prev[k]));
                        let j = crate::model::tag_index_by_id(smid.tags, tag_ids_prev[k]);
                        assert(0 <= j < smid.tags.len() && smid.tags[j].id == tag_ids_prev[k]);
                        assert(s1.tags[j].id == tag_ids_prev[k]);
                        let j2 = crate::model::tag_index_by_id(s1.tags, tag_ids_prev[k]);
                        assert(0 <= j2 < s1.tags.len() && s1.tags[j2].id == tag_ids_prev[k]);
                        if j2 != j {
                            assert(s1.tags[j2].id != s1.tags[j].id);
                        }
                        assert(s1.tags[j2].name == smid.tags[j].name);
                    } else {
                        assert(tag_ids@[k] == tid);
                    }
                }
                assert forall|t: int| 0 <= t < ti + 1 implies crate::model::has_tag_name(
                    s1.tags,
                    #[trigger] Self::names_view(names@)[t],
                ) && tag_ids@.contains(
                    s1.tags[
                        crate::model::tag_index_by_name(s1.tags, Self::names_view(names@)[t])
                    ].id,
                ) by {
                    if t < ti {
                        assert(crate::model::has_tag_name(smid.tags, nv[t]));
                        let j = crate::model::tag_index_by_name(smid.tags, nv[t]);
                        assert(0 <= j < smid.tags.len() && smid.tags[j].name == nv[t]);
                        assert(s1.tags[j].name == nv[t]);
                        let j2 = crate::model::tag_index_by_name(s1.tags, nv[t]);
                        assert(0 <= j2 < s1.tags.len() && s1.tags[j2].name == nv[t]);
                        if j2 != j {
                            assert(s1.tags[j2].name != s1.tags[j].name);
                        }
                        assert(tag_ids_prev.contains(smid.tags[j].id));
                        let k = choose|k: int|
                            0 <= k < tag_ids_prev.len() && tag_ids_prev[k] == smid.tags[j].id;
                        assert(tag_ids@[k] == s1.tags[j2].id);
                        assert(tag_ids@.contains(s1.tags[j2].id));
                    } else {
                        let j2 = crate::model::tag_index_by_name(s1.tags, nv[t]);
                        assert(0 <= j2 < s1.tags.len() && s1.tags[j2].name == nv[t]);
                        let ji = crate::model::tag_index_by_id(s1.tags, tid);
                        assert(s1.tags[ji].name == nv[t]);
                        if j2 != ji {
                            assert(s1.tags[j2].name != s1.tags[ji].name);
                        }
                        assert(s1.tags[j2].id == tid);
                        assert(tag_ids@.contains(s1.tags[j2].id));
                    }
                }
            }
            ti += 1;
        }
        tag_ids
    }

    /// Creates a package from a request: computes the checksum of the name
    /// and the storage path, resolves the requested tag names to tags
    /// (creating absent ones), stores the package with its dependency rows
    /// and tag links, and returns the expanded projection.
    #[verifier::rlimit(60)]
    pub fn create_package(&mut self, req: &PackageRequest, acting_user: u64, now: i64) -> (r:
        Result<PackageResponse, RegistryError>)
        requires
            old(self).wf(),
        ensures
            final(self).wf(),
            match r {
                Ok(resp) => create_package_ok(
                    old(self)@,
                    final(self)@,
                    req@,
                    acting_user,
                    now,
                    resp@,
                ),
                Err(RegistryError::ValidationError) => final(self)@ == old(self)@ && !(
                valid_package_fields(req@.name, req@.size) && all_tag_names_valid(req@.tags)),
                Err(RegistryError::NotFound) => final(self)@ == old(self)@ && valid_package_fields(
                    req@.name,
                    req@.size,
                ) && all_tag_names_valid(req@.tags) && !has_user_id(old(self)@.users, acting_user),
                Err(RegistryError::ConstraintViolation) => final(self)@ == old(self)@
                    && valid_package_fields(req@.name, req@.size) && all_tag_names_valid(req@.tags)
                    && has_user_id(old(self)@.users, acting_user) && has_package_key(
                    old(self)@.packages,
                    req@.name,
                    req@.version,
                ),
                Err(RegistryError::InternalError) => final(self)@ == old(self)@
                    && valid_package_fields(req@.name, req@.size) && all_tag_names_valid(req@.tags)
                    && has_user_id(old(self)@.users, acting_user) && !has_package_key(
                    old(self)@.packages,
                    req@.name,
                    req@.version,
                ) && req@.tags.len() + old(self)@.next_id >= u64::MAX,
                Err(_) => false,
            },
    {
        if req.name.as_str().is_empty() || req.size < 0 {
            return Err(RegistryError::ValidationError);
        }
        let tn = req.tags.len();
        let mut vi: usize = 0;
        while vi < tn
            invariant
                old(self).wf(),
                self@ == old(self)@,
                tn == req.tags@.len(),
                0 <= vi <= tn,
                forall|k: int| 0 <= k < vi ==> (#[trigger] req@.tags[k]).len() > 0,
            decreases tn - vi,
        {
            if req.tags[vi].as_str().is_empty() {
                proof {
                    assert(req@.tags[vi as int].len() == 0);
                }
                return Err(RegistryError::ValidationError);
            }
            proof {
                assert(req@.tags[vi as int] == req.tags@[vi as int]@);
            }
            vi += 1;
        }
        match self.find_user_by_id(acting_user) {
            Some(i) => {
                proof {
                    assert(has_user_id(self@.users, acting_user));
                }
            },
            None => {
                return Err(RegistryError::NotFound);
            },
        }
        if self.package_key_taken(&req.name, &req.version) {
            return Err(RegistryError::ConstraintViolation);
        }
        if u64::MAX - self.next_id <= req.tags.len() as u64 {
            return Err(RegistryError::InternalError);
        }
        let ghost pre = old(self)@;
        proof {
            assert(Self::names_view(req.tags@) =~= req@.tags);
        }
        let tag_ids = self.resolve_tags(&req.tags);
        let ghost mid = self@;
        let checksum = checksum_for(req.name.as_str());
        let storage_path = storage_path_for(req.name.as_str(), req.version.as_str());
        let description = match &req.description {
            Some(d) => Some(d.clone()),
            None => None,
        };
        proof {
            assert(mid.next_id < u64::MAX);
            assert(has_user_id(mid.users, acting_user));
            assert(!has_package_key(mid.packages, req@.name, req@.version));
        }
        let id = match self.insert_package_with(
            req.name.clone(),
            req.version.clone(),
            description,
            req.maintainer.clone(),
            req.architecture.clone(),
            req.size,
            checksum,
            storage_path,
            acting_user,
            &req.dependencies,
            &tag_ids,
            now,
        ) {
            Ok(id) => id,
            Err(_) => {
                proof {
                    assert(false);
                }
                return Err(RegistryError::InternalError);
            },
        };
        let idx = self.packages.len() - 1;
        proof {
            assert(self@.packages.len() == mid.packages.len() + 1);
            assert(self@.packages.last().id == id);
        }
        let resp = self.expand_package(idx);
        proof {
            let post = self@;
            let np = post.packages.last();
            assert(resp@ == package_response_model(post, np));
            assert(post.packages.subrange(0, pre.packages.len() as int) =~= pre.packages);
            assert(post.dependencies == pre.dependencies + dependency_rows_for(
                id,
                req@.dependencies,
            ));
            let newlinks = links_for(id, tag_ids@);
            assert(post.links == mid.links + newlinks);
            assert forall|i: int| 0 <= i < mid.links.len() implies (
            #[trigger] mid.links[i]).package_id != id by {
                assert(crate::model::has_package_id(mid.packages, mid.links[i].package_id));
                let k = choose|k: int|
                    0 <= k < mid.packages.len() && (#[trigger] mid.packages[k]).id == mid.links[
                        i
                    ].package_id;
                assert(mid.packages[k].id < mid.next_id);
            }
            assert forall|t: int| 0 <= t < req@.tags.len() implies package_has_tag(
                post,
                np.id,
                #[trigger] req@.tags[t],
            ) by {
                assert(req@.tags[t] == Self::names_view(req.tags@)[t]);
                assert(crate::model::has_tag_name(mid.tags, Self::names_view(req.tags@)[t]));
                let j = crate::model::tag_index_by_name(
                    mid.tags,
                    Self::names_view(req.tags@)[t],
                );
                assert(0 <= j < mid.tags.len() && mid.tags[j].name == req@.tags[t]);
                assert(tag_ids@.contains(mid.tags[j].id));
                let k = choose|k: int| 0 <= k < tag_ids@.len() && tag_ids@[k] == mid.tags[j].id;
                assert(post.links[mid.links.len() + k] == PackageTagRecord {
                    package_id: id,
                    tag_id: tag_ids@[k],
                });
                assert((post.links[mid.links.len() + k]).package_id == np.id && (post.tags[
                    j
                ]).id == post.links[mid.links.len() + k].tag_id && post.tags[j].name == req@.tags[
                    t
                ]);
            }
            let lpred = |l: PackageTagRecord| l.package_id == np.id;
            let lmap = |l: PackageTagRecord|
                crate::query::tag_response_model(
                    post.tags[crate::model::tag_index_by_id(post.tags, l.tag_id)],
                );
            assert forall|k: int| 0 <= k < resp@.tags.len() implies req@.tags.contains(
                (#[trigger] resp@.tags[k]).name,
            ) by {
                assert(resp@.tags == post.links.filter(lpred).map_values(lmap));
                let l = post.links.filter(lpred)[k];
                post.links.lemma_filter_pred(lpred, k);
                assert(post.links.filter(lpred).contains(l));
                post.links.lemma_filter_contains_rev(lpred, l);
                let m = choose|m: int| 0 <= m < post.links.len() && post.links[m] == l;
                assert(l.package_id == np.id);
                assert(m >= mid.links.len());
                assert(l == newlinks[m - mid.links.len()]);
                let kk = m - mid.links.len();
                assert(l.tag_id == tag_ids@[kk]);
                assert(crate::model::has_tag_id(mid.tags, tag_ids@[kk]));
                let j = crate::model::tag_index_by_id(mid.tags, tag_ids@[kk]);
                assert(0 <= j < mid.tags.len() && mid.tags[j].id == tag_ids@[kk]);
                assert(Self::names_view(req.tags@).contains(mid.tags[j].name));
                let j2 = crate::model::tag_index_by_id(post.tags, l.tag_id);
                assert(0 <= j2 < post.tags.len() && post.tags[j2].id == l.tag_id);
                if j2 != j {
                    assert(post.tags[j2].id != post.tags[j].id);
                    assert(false);
                }
                assert(resp@.tags[k] == lmap(l));
                assert(req@.tags.contains(resp@.tags[k].name));
            }
            assert forall|j: int|
                pre.tags.len() <= j < post.tags.len() implies req@.tags.contains(
                (#[trigger] post.tags[j]).name,
            ) && post.tags[j].color == ""@ by {
                assert(Self::names_view(req.tags@).contains(mid.tags[j].name));
                assert(req@.tags.contains(mid.tags[j].name));
            }
            assert(create_package_ok(pre, post, req@, acting_user, now, resp@));
        }
        Ok(resp)
    }
}

/// The path under which a package's artifact is stored.
pub open spec fn storage_path_of(name: Seq<char>, version: Seq<char>) -> Seq<char> {
    "/packages/"@ + name + "/"@ + name + "-"@ + version + ".deb"@
}

/// Builds the storage path of a package artifact.
pub fn storage_path_for(name: &str, version: &str) -> (r: String)
    ensures
        r@ == storage_path_of(name@, version@),
{
    let head = concat5("/packages/", name, "/", name, "-");
    let r = concat3(head.as_str(), version, ".deb");
    proof {
        assert(r@ =~= storage_path_of(name@, version@));
    }
    r
}

/// Every requested tag name is non-empty.
pub open spec fn all_tag_names_valid(tags: Seq<Seq<char>>) -> bool {
    forall|i: int| 0 <= i < tags.len() ==> (#[trigger] tags[i]).len() > 0
}

/// What a successful package creation leaves behind: the prior entities are
/// kept, exactly one package is appended carrying the request fields, the
/// derived checksum and storage path, the acting user as author and the
/// creation time; its dependency rows are appended in request order; it
/// carries every requested tag and no other; tags are created on demand and
/// every created tag is one of the requested names.
pub open spec fn create_package_ok(
    pre: StoreModel,
    post: StoreModel,
    req: PackageRequestModel,
    acting_user: u64,
    now: i64,
    resp: PackageResponseModel,
) -> bool {
    &&& valid_package_fields(req.name, req.size)
    &&& all_tag_names_valid(req.tags)
    &&& has_user_id(pre.users, acting_user)
    &&& !has_package_key(pre.packages, req.name, req.version)
    &&& post.packages.len() == pre.packages.len() + 1
    &&& post.packages.subrange(0, pre.packages.len() as int) == pre.packages
    &&& {
        let np = post.packages.last();
        &&& np.name == req.name
        &&& np.version == req.version
        &&& np.description == req.description
        &&& np.maintainer == req.maintainer
        &&& np.architecture == req.architecture
        &&& np.size == req.size
        &&& np.checksum == checksum_of(req.name)
        &&& np.storage_path == storage_path_of(req.name, req.version)
        &&& np.author_id == acting_user
        &&& np.created_at == now
        &&& np.updated_at == now
        &&& resp == package_response_model(post, np)
        &&& post.dependencies == pre.dependencies + dependency_rows_for(np.id, req.dependencies)
        &&& forall|t: int|
            0 <= t < req.tags.len() ==> package_has_tag(post, np.id, #[trigger] req.tags[t])
        &&& forall|k: int|
            0 <= k < resp.tags.len() ==> req.tags.contains((#[trigger] resp.tags[k]).name)
    }
    &&& post.users == pre.users
    &&& post.sessions == pre.sessions
    &&& post.tags.len() >= pre.tags.len()
    &&& post.tags.subrange(0, pre.tags.len() as int) == pre.tags
    &&& forall|j: int|
        pre.tags.len() <= j < post.tags.len() ==> req.tags.contains((#[trigger] post.tags[j]).name)
            && post.tags[j].color == ""@
}

/// Whether a plain id vector holds a value.
fn contains_id(v: &Vec<u64>, x: u64) -> (r: bool)
    ensures
        r == v@.contains(x),
{
    let n = v.len();
    let mut i: usize = 0;
    while i < n
        invariant
            n == v.len(),
            0 <= i <= n,
            forall|k: int| 0 <= k < i ==> v@[k] != x,
        decreases n - i,
    {
        if v[i] == x {
            return true;
        }
        i += 1;
    }
    false
}

} // verus!
