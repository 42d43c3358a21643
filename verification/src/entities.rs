use vstd::prelude::*;

verus! {

/// Access level of a user account.
#[derive(Clone, Copy, PartialEq, Eq, Structural, Debug)]
pub enum Role {
    User,
    Admin,
}

impl Role {
    /// The wire name of the role, as the user payloads carry it.
    pub fn name(&self) -> (r: &'static str)
        ensures
            r@ == match *self {
                Role::User => "USER"@,
                Role::Admin => "ADMIN"@,
            },
    {
        match *self {
            Role::User => "USER",
            Role::Admin => "ADMIN",
        }
    }
}

/// A registered account. The credential is held as a salt plus the hex
/// digest of `salt:password`; the clear password is never stored.
pub struct UserRecord {
    pub id: u64,
    pub username: String,
    pub email: String,
    pub salt: String,
    pub credential: String,
    pub role: Role,
    pub created_at: i64,
}

/// Mathematical image of a `UserRecord`.
#[verifier::ext_equal]
pub ghost struct UserModel {
    pub id: u64,
    pub username: Seq<char>,
    pub email: Seq<char>,
    pub salt: Seq<char>,
    pub credential: Seq<char>,
    pub role: Role,
    pub created_at: i64,
}

impl View for UserRecord {
    type V = UserModel;

    open spec fn view(&self) -> UserModel {
        UserModel {
            id: self.id,
            username: self.username@,
            email: self.email@,
            salt: self.salt@,
            credential: self.credential@,
            role: self.role,
            created_at: self.created_at,
        }
    }
}

/// A catalog entry: one installable unit. The pair (name, version) is unique
/// within the store.
pub struct PackageRecord {
    pub id: u64,
    pub name: String,
    pub version: String,
    pub description: Option<String>,
    pub maintainer: String,
    pub architecture: String,
    pub size: i64,
    pub checksum: String,
    pub storage_path: String,
    pub author_id: u64,
    pub created_at: i64,
    pub updated_at: i64,
}

/// Mathematical image of a `PackageRecord`.
#[verifier::ext_equal]
pub ghost struct PackageModel {
    pub id: u64,
    pub name: Seq<char>,
    pub version: Seq<char>,
    pub description: Option<Seq<char>>,
    pub maintainer: Seq<char>,
    pub architecture: Seq<char>,
    pub size: i64,
    pub checksum: Seq<char>,
    pub storage_path: Seq<char>,
    pub author_id: u64,
    pub created_at: i64,
    pub updated_at: i64,
}

/// The view of an optional string.
pub open spec fn opt_view(s: Option<String>) -> Option<Seq<char>> {
    match s {
        Some(v) => Some(v@),
        None => None,
    }
}

impl View for PackageRecord {
    type V = PackageModel;

    open spec fn view(&self) -> PackageModel {
        PackageModel {
            id: self.id,
            name: self.name@,
            version: self.version@,
            description: opt_view(self.description),
            maintainer: self.maintainer@,
            architecture: self.architecture@,
            size: self.size,
            checksum: self.checksum@,
            storage_path: self.storage_path@,
            author_id: self.author_id,
            created_at: self.created_at,
            updated_at: self.updated_at,
        }
    }
}

/// A requirement a package declares on a named package/version. The target
/// is a soft reference: it need not exist in the registry.
pub struct DependencyRecord {
    pub package_id: u64,
    pub name: String,
    pub version: String,
    pub dependency_type: String,
}

/// Mathematical image of a `DependencyRecord`.
#[verifier::ext_equal]
pub ghost struct DependencyModel {
    pub package_id: u64,
    pub name: Seq<char>,
    pub version: Seq<char>,
    pub dependency_type: Seq<char>,
}

impl View for DependencyRecord {
    type V = DependencyModel;

    open spec fn view(&self) -> DependencyModel {
        DependencyModel {
            package_id: self.package_id,
            name: self.name@,
            version: self.version@,
            dependency_type: self.dependency_type@,
        }
    }
}

/// A shared label; its name is unique within the store.
pub struct TagRecord {
    pub id: u64,
    pub name: String,
    pub color: String,
}

/// Mathematical image of a `TagRecord`.
#[verifier::ext_equal]
pub ghost struct TagModel {
    pub id: u64,
    pub name: Seq<char>,
    pub color: Seq<char>,
}

impl View for TagRecord {
    type V = TagModel;

    open spec fn view(&self) -> TagModel {
        TagModel { id: self.id, name: self.name@, color: self.color@ }
    }
}

/// One edge of the many-to-many relation between packages and tags.
#[derive(Clone, Copy, PartialEq, Eq, Structural, Debug)]
pub struct PackageTagRecord {
    pub package_id: u64,
    pub tag_id: u64,
}

/// A server-side session: an opaque token bound to a user id. Tokens are
/// unique; a token stays valid until its user is deleted.
pub struct SessionRecord {
    pub token: String,
    pub user_id: u64,
}

/// Mathematical image of a `SessionRecord`.
#[verifier::ext_equal]
pub ghost struct SessionModel {
    pub token: Seq<char>,
    pub user_id: u64,
}

impl View for SessionRecord {
    type V = SessionModel;

    open spec fn view(&self) -> SessionModel {
        SessionModel { token: self.token@, user_id: self.user_id }
    }
}

/// Required fields of a user: non-empty username and email.
pub open spec fn valid_user_fields(username: Seq<char>, email: Seq<char>) -> bool {
    username.len() > 0 && email.len() > 0
}

/// Required fields of a package: non-empty name and a non-negative size.
pub open spec fn valid_package_fields(name: Seq<char>, size: i64) -> bool {
    name.len() > 0 && size >= 0
}

/// Required fields of a tag: a non-empty name.
pub open spec fn valid_tag_fields(name: Seq<char>) -> bool {
    name.len() > 0
}

} // verus!
