use vstd::prelude::*;
use crate::entities::opt_view;

verus! {

/// Requested fields of a dependency row.
#[derive(Debug)]
pub struct DependencyRequest {
    pub name: String,
    pub version: String,
    pub dependency_type: String,
}

/// Mathematical image of a `DependencyRequest`.
#[verifier::ext_equal]
pub ghost struct DependencyRequestModel {
    pub name: Seq<char>,
    pub version: Seq<char>,
    pub dependency_type: Seq<char>,
}

impl View for DependencyRequest {
    type V = DependencyRequestModel;

    open spec fn view(&self) -> DependencyRequestModel {
        DependencyRequestModel {
            name: self.name@,
            version: self.version@,
            dependency_type: self.dependency_type@,
        }
    }
}

/// The package payload a caller submits on create or update.
#[derive(Debug)]
pub struct PackageRequest {
    pub name: String,
    pub version: String,
    pub description: Option<String>,
    pub maintainer: String,
    pub architecture: String,
    pub size: i64,
    pub dependencies: Vec<DependencyRequest>,
    pub tags: Vec<String>,
}

/// Mathematical image of a `PackageRequest`.
#[verifier::ext_equal]
pub ghost struct PackageRequestModel {
    pub name: Seq<char>,
    pub version: Seq<char>,
    pub description: Option<Seq<char>>,
    pub maintainer: Seq<char>,
    pub architecture: Seq<char>,
    pub size: i64,
    pub dependencies: Seq<DependencyRequestModel>,
    pub tags: Seq<Seq<char>>,
}

impl View for PackageRequest {
    type V = PackageRequestModel;

    open spec fn view(&self) -> PackageRequestModel {
        PackageRequestModel {
            name: self.name@,
            version: self.version@,
            description: opt_view(self.description),
            maintainer: self.maintainer@,
            architecture: self.architecture@,
            size: self.size,
            dependencies: self.dependencies@.map_values(|d: DependencyRequest| d@),
            tags: self.tags@.map_values(|t: String| t@),
        }
    }
}

/// The user payload a caller submits on create or update.
#[derive(Debug)]
pub struct UserRequest {
    pub username: String,
    pub email: String,
    pub password: String,
}

/// Mathematical image of a `UserRequest`.
#[verifier::ext_equal]
pub ghost struct UserRequestModel {
    pub username: Seq<char>,
    pub email: Seq<char>,
    pub password: Seq<char>,
}

impl View for UserRequest {
    type V = UserRequestModel;

    open spec fn view(&self) -> UserRequestModel {
        UserRequestModel {
            username: self.username@,
            email: self.email@,
            password: self.password@,
        }
    }
}

/// The credentials a caller submits to log in.
#[derive(Debug)]
pub struct LoginRequest {
    pub username: String,
    pub password: String,
}

/// Mathematical image of a `LoginRequest`.
#[verifier::ext_equal]
pub ghost struct LoginRequestModel {
    pub username: Seq<char>,
    pub password: Seq<char>,
}

impl View for LoginRequest {
    type V = LoginRequestModel;

    open spec fn view(&self) -> LoginRequestModel {
        LoginRequestModel { username: self.username@, password: self.password@ }
    }
}

/// One dependency row of a package response.
#[derive(Debug)]
pub struct DependencyResponse {
    pub name: String,
    pub version: String,
    pub dependency_type: String,
}

/// Mathematical image of a `DependencyResponse`.
#[verifier::ext_equal]
pub ghost struct DependencyResponseModel {
    pub name: Seq<char>,
    pub version: Seq<char>,
    pub dependency_type: Seq<char>,
}

impl View for DependencyResponse {
    type V = DependencyResponseModel;

    open spec fn view(&self) -> DependencyResponseModel {
        DependencyResponseModel {
            name: self.name@,
            version: self.version@,
            dependency_type: self.dependency_type@,
        }
    }
}

/// One tag of a package response.
#[derive(Debug)]
pub struct TagResponse {
    pub name: String,
    pub color: String,
}

/// Mathematical image of a `TagResponse`.
#[verifier::ext_equal]
pub ghost struct TagResponseModel {
    pub name: Seq<char>,
    pub color: Seq<char>,
}

impl View for TagResponse {
    type V = TagResponseModel;

    open spec fn view(&self) -> TagResponseModel {
        TagResponseModel { name: self.name@, color: self.color@ }
    }
}

/// The externally visible projection of a package: its identity fields plus
/// the author reference, the dependency rows and the attached tags.
#[derive(Debug)]
pub struct PackageResponse {
    pub id: u64,
    pub name: String,
    pub version: String,
    pub description: Option<String>,
    pub maintainer: String,
    pub architecture: String,
    pub size: i64,
    pub checksum: String,
    pub created_at: i64,
    pub updated_at: i64,
    pub author: u64,
    pub dependencies: Vec<DependencyResponse>,
    pub tags: Vec<TagResponse>,
}

/// Mathematical image of a `PackageResponse`.
#[verifier::ext_equal]
pub ghost struct PackageResponseModel {
    pub id: u64,
    pub name: Seq<char>,
    pub version: Seq<char>,
    pub description: Option<Seq<char>>,
    pub maintainer: Seq<char>,
    pub architecture: Seq<char>,
    pub size: i64,
    pub checksum: Seq<char>,
    pub created_at: i64,
    pub updated_at: i64,
    pub author: u64,
    pub dependencies: Seq<DependencyResponseModel>,
    pub tags: Seq<TagResponseModel>,
}

impl View for PackageResponse {
    type V = PackageResponseModel;

    open spec fn view(&self) -> PackageResponseModel {
        PackageResponseModel {
            id: self.id,
            name: self.name@,
            version: self.version@,
            description: opt_view(self.description),
            maintainer: self.maintainer@,
            architecture: self.architecture@,
            size: self.size,
            checksum: self.checksum@,
            created_at: self.created_at,
            updated_at: self.updated_at,
            author: self.author,
            dependencies: self.dependencies@.map_values(|d: DependencyResponse| d@),
            tags: self.tags@.map_values(|t: TagResponse| t@),
        }
    }
}

/// The externally visible projection of a user; the credential is omitted.
#[derive(Debug)]
pub struct UserResponse {
    pub id: u64,
    pub username: String,
    pub email: String,
    pub role: String,
    pub created_at: i64,
}

/// Mathematical image of a `UserResponse`.
#[verifier::ext_equal]
pub ghost struct UserResponseModel {
    pub id: u64,
    pub username: Seq<char>,
    pub email: Seq<char>,
    pub role: Seq<char>,
    pub created_at: i64,
}

impl View for UserResponse {
    type V = UserResponseModel;

    open spec fn view(&self) -> UserResponseModel {
        UserResponseModel {
            id: self.id,
            username: self.username@,
            email: self.email@,
            role: self.role@,
            created_at: self.created_at,
        }
    }
}

/// What a successful authentication returns: the session token and the
/// authenticated user.
#[derive(Debug)]
pub struct AuthResponse {
    pub token: String,
    pub user: UserResponse,
}

/// Mathematical image of an `AuthResponse`.
#[verifier::ext_equal]
pub ghost struct AuthResponseModel {
    pub token: Seq<char>,
    pub user: UserResponseModel,
}

impl View for AuthResponse {
    type V = AuthResponseModel;

    open spec fn view(&self) -> AuthResponseModel {
        AuthResponseModel { token: self.token@, user: self.user@ }
    }
}

/// Optional filters and pagination of a package listing.
#[derive(Debug)]
pub struct PackageQuery {
    pub search: Option<String>,
    pub tag: Option<String>,
    pub maintainer: Option<String>,
    pub limit: Option<usize>,
    pub offset: Option<usize>,
}

/// Mathematical image of a `PackageQuery`.
#[verifier::ext_equal]
pub ghost struct PackageQueryModel {
    pub search: Option<Seq<char>>,
    pub tag: Option<Seq<char>>,
    pub maintainer: Option<Seq<char>>,
    pub limit: Option<usize>,
    pub offset: Option<usize>,
}

impl View for PackageQuery {
    type V = PackageQueryModel;

    open spec fn view(&self) -> PackageQueryModel {
        PackageQueryModel {
            search: opt_view(self.search),
            tag: opt_view(self.tag),
            maintainer: opt_view(self.maintainer),
            limit: self.limit,
            offset: self.offset,
        }
    }
}

} // verus!
