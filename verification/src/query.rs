use vstd::prelude::*;
use crate::entities::{DependencyModel, PackageModel, PackageTagRecord, Role, TagModel, UserModel};
use crate::model::{has_tag_id, tag_index_by_id, StoreModel};
use crate::payloads::{
    DependencyResponse, DependencyResponseModel, PackageResponse, PackageResponseModel,
    TagResponse, TagResponseModel, UserResponseModel,
};
use crate::store::Store;
use crate::text::{contains_seq, str_contains};

verus! {

/// The composable, AND-combined package predicates of the query engine.
/// Every field is independently optional.
pub struct PackageFilter {
    pub name_contains: Option<String>,
    pub maintainer: Option<String>,
    pub author_id: Option<u64>,
    pub tag: Option<String>,
}

/// Mathematical image of a `PackageFilter`.
#[verifier::ext_equal]
pub ghost struct PackageFilterModel {
    pub name_contains: Option<Seq<char>>,
    pub maintainer: Option<Seq<char>>,
    pub author_id: Option<u64>,
    pub tag: Option<Seq<char>>,
}

impl View for PackageFilter {
    type V = PackageFilterModel;

    open spec fn view(&self) -> PackageFilterModel {
        PackageFilterModel {
            name_contains: crate::entities::opt_view(self.name_contains),
            maintainer: crate::entities::opt_view(self.maintainer),
            author_id: self.author_id,
            tag: crate::entities::opt_view(self.tag),
        }
    }
}

/// Whether the package with id `pid` carries a tag named `name`.
pub open spec fn package_has_tag(s: StoreModel, pid: u64, name: Seq<char>) -> bool {
    exists|i: int, j: int|
        0 <= i < s.links.len() && 0 <= j < s.tags.len() && (#[trigger] s.links[i]).package_id
            == pid && (#[trigger] s.tags[j]).id == s.links[i].tag_id && s.tags[j].name == name
}

/// The conjunction of every predicate a filter supplies.
pub open spec fn matches_filter(s: StoreModel, p: PackageModel, f: PackageFilterModel) -> bool {
    &&& match f.name_contains {
        Some(sub) => contains_seq(p.name, sub),
        None => true,
    }
    &&& match f.maintainer {
        Some(m) => p.maintainer == m,
        None => true,
    }
    &&& match f.author_id {
        Some(a) => p.author_id == a,
        None => true,
    }
    &&& match f.tag {
        Some(t) => package_has_tag(s, p.id, t),
        None => true,
    }
}

/// The OR-combined search predicate: the query occurs in the name or in the
/// description.
pub open spec fn matches_search(p: PackageModel, q: Seq<char>) -> bool {
    contains_seq(p.name, q) || match p.description {
        Some(d) => contains_seq(d, q),
        None => false,
    }
}

/// The wire name of a role.
pub open spec fn role_name_of(role: Role) -> Seq<char> {
    match role {
        Role::User => "USER"@,
        Role::Admin => "ADMIN"@,
    }
}

/// The externally visible projection of a user.
pub open spec fn user_response_model(u: UserModel) -> UserResponseModel {
    UserResponseModel {
        id: u.id,
        username: u.username,
        email: u.email,
        role: role_name_of(u.role),
        created_at: u.created_at,
    }
}

/// The response row of a dependency.
pub open spec fn dependency_response_model(d: DependencyModel) -> DependencyResponseModel {
    DependencyResponseModel {
        name: d.name,
        version: d.version,
        dependency_type: d.dependency_type,
    }
}

/// The response row of a tag.
pub open spec fn tag_response_model(t: TagModel) -> TagResponseModel {
    TagResponseModel { name: t.name, color: t.color }
}

/// The dependency rows of package `pid`, in store order.
pub open spec fn deps_of(s: StoreModel, pid: u64) -> Seq<DependencyResponseModel> {
    s.dependencies.filter(|d: DependencyModel| d.package_id == pid).map_values(
        |d: DependencyModel| dependency_response_model(d),
    )
}

/// The tag rows of package `pid`, in link order; meaningful under the store
/// invariant, which resolves every link to exactly one tag.
pub open spec fn tags_of(s: StoreModel, pid: u64) -> Seq<TagResponseModel> {
    s.links.filter(|l: PackageTagRecord| l.package_id == pid).map_values(
        |l: PackageTagRecord| tag_response_model(s.tags[tag_index_by_id(s.tags, l.tag_id)]),
    )
}

/// The externally visible projection of a package: identity fields plus the
/// author reference and the expanded dependency and tag rows.
pub open spec fn package_response_model(s: StoreModel, p: PackageModel) -> PackageResponseModel {
    PackageResponseModel {
        id: p.id,
        name: p.name,
        version: p.version,
        description: p.description,
        maintainer: p.maintainer,
        architecture: p.architecture,
        size: p.size,
        checksum: p.checksum,
        created_at: p.created_at,
        updated_at: p.updated_at,
        author: p.author_id,
        dependencies: deps_of(s, p.id),
        tags: tags_of(s, p.id),
    }
}

/// The packages a filter keeps, in store order.
pub open spec fn matching_packages(s: StoreModel, f: PackageFilterModel) -> Seq<PackageModel> {
    s.packages.filter(|p: PackageModel| matches_filter(s, p, f))
}

/// The projections of the packages a filter keeps, in store order.
pub open spec fn matching_responses(
    s: StoreModel,
    f: PackageFilterModel,
) -> Seq<PackageResponseModel> {
    matching_packages(s, f).map_values(|p: PackageModel| package_response_model(s, p))
}

/// The projections of the packages a search keeps, in store order.
pub open spec fn search_responses(s: StoreModel, q: Seq<char>) -> Seq<PackageResponseModel> {
    s.packages.filter(|p: PackageModel| matches_search(p, q)).map_values(
        |p: PackageModel| package_response_model(s, p),
    )
}

/// Pagination: `offset` rows are skipped, then at most `limit` rows are
/// kept; both clamp at the end of the sequence.
pub open spec fn page_of(
    rs: Seq<PackageResponseModel>,
    limit: Option<usize>,
    offset: usize,
) -> Seq<PackageResponseModel> {
    let start: int = if offset <= rs.len() {
        offset as int
    } else {
        rs.len() as int
    };
    let end: int = match limit {
        Some(l) => if start + l <= rs.len() {
            start + l
        } else {
            rs.len() as int
        },
        None => rs.len() as int,
    };
    rs.subrange(start, end)
}

impl Store {
    /// Whether the package at position `idx` passes every predicate the
    /// filter supplies.
    pub fn package_matches(&self, idx: usize, f: &PackageFilter) -> (r: bool)
        requires
            self.wf(),
            idx < self@.packages.len(),
        ensures
            r == matches_filter(self@, self@.packages[idx as int], f@),
    {
        match &f.name_contains {
            Some(sub) => {
                if !str_contains(self.packages[idx].name.as_str(), sub.as_str()) {
                    return false;
                }
            },
            None => {},
        }
        match &f.maintainer {
            Some(m) => {
                if !(self.packages[idx].maintainer == *m) {
                    return false;
                }
            },
            None => {},
        }
        match &f.author_id {
            Some(a) => {
                if self.packages[idx].author_id != *a {
                    return false;
                }
            },
            None => {},
        }
        match &f.tag {
            Some(t) => {
                let pid = self.packages[idx].id;
                if !self.package_carries_tag(pid, t) {
                    return false;
                }
            },
            None => {},
        }
        true
    }

    /// Whether the package with id `pid` carries a tag named `name`.
    pub fn package_carries_tag(&self, pid: u64, name: &String) -> (r: bool)
        requires
            self.wf(),
        ensures
            r == package_has_tag(self@, pid, name@),
    {
        let n = self.links.len();
        let mut i: usize = 0;
        while i < n
            invariant
                self.wf(),
                n == self.links.len(),
                0 <= i <= n,
                forall|k: int, j: int|
                    0 <= k < i && 0 <= j < self@.tags.len() ==> !((
                    #[trigger] self@.links[k]).package_id == pid && (#[trigger] self@.tags[j]).id
                        == self@.links[k].tag_id && self@.tags[j].name == name@),
            decreases n - i,
        {
            let l = self.links[i];
            if l.package_id == pid {
                match self.find_tag_by_id(l.tag_id) {
                    Some(j) => {
                        if self.tags[j].name == *name {
                            assert(package_has_tag(self@, pid, name@)) by {
                                assert((self@.links[i as int]).package_id == pid && (self@.tags[
                                    j as int
                                ]).id == self@.links[i as int].tag_id && self@.tags[
                                    j as int
                                ].name == name@);
                            }
                            return true;
                        }
                        proof {
                            assert forall|j2: int|
                                0 <= j2 < self@.tags.len() && (#[trigger] self@.tags[j2]).id
                                    == self@.links[i as int].tag_id implies self@.tags[j2].name
                                != name@ by {
                                if j2 != j as int {
                                    assert(self@.tags[j2].id != self@.tags[j as int].id);
                                }
                            }
                        }
                    },
                    None => {
                        proof {
                            assert(has_tag_id(self@.tags, self@.links[i as int].tag_id));
                            assert(false);
                        }
                    },
                }
            }
            i += 1;
        }
        proof {
            if package_has_tag(self@, pid, name@) {
                let (k, j): (int, int) = choose|k: int, j: int|
                    0 <= k < self@.links.len() && 0 <= j < self@.tags.len() && (
                    #[trigger] self@.links[k]).package_id == pid && (#[trigger] self@.tags[j]).id
                        == self@.links[k].tag_id && self@.tags[j].name == name@;
                assert(false);
            }
        }
        false
    }

    /// Whether the package at position `idx` matches a search query in its
    /// name or description.
    pub fn package_matches_search(&self, idx: usize, q: &String) -> (r: bool)
        requires
            self.wf(),
            idx < self@.packages.len(),
        ensures
            r == matches_search(self@.packages[idx as int], q@),
    {
        if str_contains(self.packages[idx].name.as_str(), q.as_str()) {
            return true;
        }
        match &self.packages[idx].description {
            Some(d) => str_contains(d.as_str(), q.as_str()),
            None => false,
        }
    }

    /// The expanded projection of the package at position `idx`.
    pub fn expand_package(&self, idx: usize) -> (r: PackageResponse)
        requires
            self.wf(),
            idx < self@.packages.len(),
        ensures
            r@ == package_response_model(self@, self@.packages[idx as int]),
    {
        let p = &self.packages[idx];
        let pid = p.id;
        let ghost dpred = |d: DependencyModel| d.package_id == pid;
        let ghost dmap = |d: DependencyModel| dependency_response_model(d);
        let mut deps: Vec<DependencyResponse> = Vec::new();
        proof {
            reveal(Seq::filter);
            assert(self@.dependencies.subrange(0, 0) =~= Seq::<DependencyModel>::empty());
            assert(deps@.map_values(|d: DependencyResponse| d@) =~= Seq::<
                DependencyModel,
            >::empty().filter(dpred).map_values(dmap));
        }
        let dn = self.dependencies.len();
        let mut i: usize = 0;
        while i < dn
            invariant
                dn == self.dependencies.len(),
                0 <= i <= dn,
                deps@.map_values(|d: DependencyResponse| d@) == self@.dependencies.subrange(
                    0,
                    i as int,
                ).filter(dpred).map_values(dmap),
                dpred == (|d: DependencyModel| d.package_id == pid),
                dmap == (|d: DependencyModel| dependency_response_model(d)),
            decreases dn - i,
        {
            let ghost prev = deps@.map_values(|d: DependencyResponse| d@);
            let d = &self.dependencies[i];
            if d.package_id == pid {
                deps.push(
                    DependencyResponse {
                        name: d.name.clone(),
                        version: d.version.clone(),
                        dependency_type: d.dependency_type.clone(),
                    },
                );
                proof {
                    assert(deps@.map_values(|d: DependencyResponse| d@) =~= prev.push(
                        dmap(self@.dependencies[i as int]),
                    ));
                }
            }
            proof {
                reveal(Seq::filter);
                let m = self@.dependencies;
                assert(m.subrange(0, i + 1).drop_last() =~= m.subrange(0, i as int));
                assert(m.subrange(0, i + 1).last() == m[i as int]);
                assert(deps@.map_values(|d: DependencyResponse| d@) =~= m.subrange(0, i + 1)
                    .filter(dpred).map_values(dmap));
            }
            i += 1;
        }
        proof {
            assert(self@.dependencies.subrange(0, dn as int) =~= self@.dependencies);
        }
        let ghost lpred = |l: PackageTagRecord| l.package_id == pid;
        let ghost lmap = |l: PackageTagRecord|
            tag_response_model(self@.tags[tag_index_by_id(self@.tags, l.tag_id)]);
        let mut tag_rows: Vec<TagResponse> = Vec::new();
        proof {
            reveal(Seq::filter);
            assert(self@.links.subrange(0, 0) =~= Seq::<PackageTagRecord>::empty());
            assert(tag_rows@.map_values(|t: TagResponse| t@) =~= Seq::<
                PackageTagRecord,
            >::empty().filter(lpred).map_values(lmap));
        }
        let ln = self.links.len();
        let mut k: usize = 0;
        while k < ln
            invariant
                self.wf(),
                ln == self.links.len(),
                0 <= k <= ln,
                tag_rows@.map_values(|t: TagResponse| t@) == self@.links.subrange(0, k as int)
                    .filter(lpred).map_values(lmap),
                lpred == (|l: PackageTagRecord| l.package_id == pid),
                lmap == (|l: PackageTagRecord|
                    tag_response_model(self@.tags[tag_index_by_id(self@.tags, l.tag_id)])),
            decreases ln - k,
        {
            let ghost prevt = tag_rows@.map_values(|t: TagResponse| t@);
            let l = self.links[k];
            if l.package_id == pid {
                match self.find_tag_by_id(l.tag_id) {
                    Some(j) => {
                        proof {
                            let j2 = tag_index_by_id(self@.tags, l.tag_id);
                            assert(0 <= j2 < self@.tags.len() && self@.tags[j2].id == l.tag_id);
                            if j2 != j as int {
                                assert(false);
                            }
                        }
                        let t = &self.tags[j];
                        tag_rows.push(
                            TagResponse { name: t.name.clone(), color: t.color.clone() },
                        );
                        proof {
                            assert(tag_rows@.map_values(|t: TagResponse| t@) =~= prevt.push(
                                lmap(self@.links[k as int]),
                            ));
                        }
                    },
                    None => {
                        proof {
                            assert(has_tag_id(self@.tags, self@.links[k as int].tag_id));
                            assert(false);
                        }
                    },
                }
            }
            proof {
                reveal(Seq::filter);
                let m = self@.links;
                assert(m.subrange(0, k + 1).drop_last() =~= m.subrange(0, k as int));
                assert(m.subrange(0, k + 1).last() == m[k as int]);
                assert(tag_rows@.map_values(|t: TagResponse| t@) =~= m.subrange(0, k + 1).filter(
                    lpred,
                ).map_values(lmap));
            }
            k += 1;
        }
        proof {
            assert(self@.links.subrange(0, ln as int) =~= self@.links);
        }
        let description = match &p.description {
            Some(d) => Some(d.clone()),
            None => None,
        };
        let r = PackageResponse {
            id: p.id,
            name: p.name.clone(),
            version: p.version.clone(),
            description,
            maintainer: p.maintainer.clone(),
            architecture: p.architecture.clone(),
            size: p.size,
            checksum: p.checksum.clone(),
            created_at: p.created_at,
            updated_at: p.updated_at,
            author: p.author_id,
            dependencies: deps,
            tags: tag_rows,
        };
        proof {
            assert(r@ =~= package_response_model(self@, self@.packages[idx as int]));
        }
        r
    }

    /// Every package a filter keeps, expanded, in store order, after
    /// pagination. With no limit and offset 0 this is exactly the set of
    /// packages matching the filter.
    pub fn find_packages(&self, f: &PackageFilter, limit: Option<usize>, offset: usize) -> (r:
        Vec<PackageResponse>)
        requires
            self.wf(),
        ensures
            r@.map_values(|p: PackageResponse| p@) == page_of(
                matching_responses(self@, f@),
                limit,
                offset,
            ),
    {
        let ghost pred = |p: PackageModel| matches_filter(self@, p, f@);
        let ghost rmap = |p: PackageModel| package_response_model(self@, p);
        let mut out: Vec<PackageResponse> = Vec::new();
        let mut nmatched: usize = 0;
        proof {
            reveal(Seq::filter);
            assert(self@.packages.subrange(0, 0) =~= Seq::<PackageModel>::empty());
            assert(out@.map_values(|p: PackageResponse| p@) =~= page_of(
                Seq::<PackageModel>::empty().filter(pred).map_values(rmap),
                limit,
                offset,
            ));
        }
        let n = self.packages.len();
        let mut i: usize = 0;
        while i < n
            invariant
                self.wf(),
                n == self.packages.len(),
                0 <= i <= n,
                nmatched == self@.packages.subrange(0, i as int).filter(pred).len(),
                nmatched <= i,
                out@.map_values(|p: PackageResponse| p@) == page_of(
                    self@.packages.subrange(0, i as int).filter(pred).map_values(rmap),
                    limit,
                    offset,
                ),
                pred == (|p: PackageModel| matches_filter(self@, p, f@)),
                rmap == (|p: PackageModel| package_response_model(self@, p)),
            decreases n - i,
        {
            let ghost fs = self@.packages.subrange(0, i as int).filter(pred).map_values(rmap);
            let ghost prev = out@.map_values(|p: PackageResponse| p@);
            let is_match = self.package_matches(i, f);
            if is_match {
                let should_take = nmatched >= offset && (match limit {
                    Some(l) => out.len() < l,
                    None => true,
                });
                if should_take {
                    let row = self.expand_package(i);
                    out.push(row);
                    proof {
                        assert(out@.map_values(|p: PackageResponse| p@) =~= prev.push(
                            rmap(self@.packages[i as int]),
                        ));
                    }
                }
                nmatched += 1;
            }
            proof {
                reveal(Seq::filter);
                let m = self@.packages;
                assert(m.subrange(0, i + 1).drop_last() =~= m.subrange(0, i as int));
                assert(m.subrange(0, i + 1).last() == m[i as int]);
                let fs1 = m.subrange(0, i + 1).filter(pred).map_values(rmap);
                if pred(m[i as int]) {
                    assert(m.subrange(0, i + 1).filter(pred) == m.subrange(0, i as int).filter(
                        pred,
                    ).push(m[i as int]));
                    assert(fs1 =~= fs.push(rmap(m[i as int])));
                    let len0 = fs.len() as int;
                    if len0 < offset {
                        assert(page_of(fs, limit, offset) =~= Seq::<
                            PackageResponseModel,
                        >::empty());
                        assert(page_of(fs1, limit, offset) =~= Seq::<
                            PackageResponseModel,
                        >::empty());
                    } else {
                        match limit {
                            Some(l) => {
                                if len0 - offset < l {
                                    assert(page_of(fs1, limit, offset) =~= page_of(
                                        fs,
                                        limit,
                                        offset,
                                    ).push(rmap(m[i as int])));
                                } else {
                                    assert(page_of(fs1, limit, offset) =~= page_of(
                                        fs,
                                        limit,
                                        offset,
                                    ));
                                }
                            },
                            None => {
                                assert(page_of(fs1, limit, offset) =~= page_of(
                                    fs,
                                    limit,
                                    offset,
                                ).push(rmap(m[i as int])));
                            },
                        }
                    }
                } else {
                    assert(m.subrange(0, i + 1).filter(pred) == m.subrange(0, i as int).filter(
                        pred,
                    ));
                }
                assert(out@.map_values(|p: PackageResponse| p@) == page_of(
                    m.subrange(0, i + 1).filter(pred).map_values(rmap),
                    limit,
                    offset,
                ));
            }
            i += 1;
        }
        proof {
            assert(self@.packages.subrange(0, n as int) =~= self@.packages);
        }
        out
    }

    /// Every package whose name or description contains the query, expanded,
    /// in store order. No package appears twice: the result ids are pairwise
    /// distinct.
    pub fn search_packages(&self, q: &String) -> (r: Vec<PackageResponse>)
        requires
            self.wf(),
        ensures
            r@.map_values(|p: PackageResponse| p@) == search_responses(self@, q@),
            forall|i: int, j: int|
                0 <= i < j < r@.len() ==> (#[trigger] r@[i]).id != (#[trigger] r@[j]).id,
    {
        let ghost pred = |p: PackageModel| matches_search(p, q@);
        let ghost rmap = |p: PackageModel| package_response_model(self@, p);
        let mut out: Vec<PackageResponse> = Vec::new();
        proof {
            reveal(Seq::filter);
            assert(self@.packages.subrange(0, 0) =~= Seq::<PackageModel>::empty());
            assert(out@.map_values(|p: PackageResponse| p@) =~= Seq::<
                PackageModel,
            >::empty().filter(pred).map_values(rmap));
        }
        let n = self.packages.len();
        let mut i: usize = 0;
        while i < n
            invariant
                self.wf(),
                n == self.packages.len(),
                0 <= i <= n,
                out@.map_values(|p: PackageResponse| p@) == self@.packages.subrange(
                    0,
                    i as int,
                ).filter(pred).map_values(rmap),
                forall|a: int, b: int|
                    0 <= a < b < out@.len() ==> (#[trigger] out@[a])@.id != (#[trigger] out@[b])@.id,
                forall|a: int|
                    0 <= a < out@.len() ==> crate::model::has_package_id(
                        self@.packages.subrange(0, i as int),
                        (#[trigger] out@[a])@.id,
                    ),
                pred == (|p: PackageModel| matches_search(p, q@)),
                rmap == (|p: PackageModel| package_response_model(self@, p)),
            decreases n - i,
        {
            let ghost prev = out@.map_values(|p: PackageResponse| p@);
            let is_match = self.package_matches_search(i, q);
            if is_match {
                let row = self.expand_package(i);
                proof {
                    assert forall|a: int| 0 <= a < out@.len() implies (#[trigger] out@[a])@.id
                        != self@.packages[i as int].id by {
                        let sub = self@.packages.subrange(0, i as int);
                        let m = choose|m: int|
                            0 <= m < sub.len() && (#[trigger] sub[m]).id == out@[a]@.id;
                        assert(self@.packages[m].id == out@[a]@.id);
                        assert(self@.packages[m].id != self@.packages[i as int].id);
                    }
                }
                out.push(row);
                proof {
                    assert(out@.map_values(|p: PackageResponse| p@) =~= prev.push(
                        rmap(self@.packages[i as int]),
                    ));
                    assert forall|a: int| 0 <= a < out@.len() implies crate::model::has_package_id(
                        self@.packages.subrange(0, i + 1),
                        (#[trigger] out@[a])@.id,
                    ) by {
                        let sub = self@.packages.subrange(0, i as int);
                        let sub1 = self@.packages.subrange(0, i + 1);
                        if a < out@.len() - 1 {
                            let m = choose|m: int|
                                0 <= m < sub.len() && (#[trigger] sub[m]).id == out@[a]@.id;
                            assert(sub1[m].id == out@[a]@.id);
                        } else {
                            assert(sub1[i as int].id == out@[a]@.id);
                        }
                    }
                }
            } else {
                proof {
                    assert forall|a: int| 0 <= a < out@.len() implies crate::model::has_package_id(
                        self@.packages.subrange(0, i + 1),
                        (#[trigger] out@[a])@.id,
                    ) by {
                        let sub = self@.packages.subrange(0, i as int);
                        let sub1 = self@.packages.subrange(0, i + 1);
                        let m = choose|m: int|
                            0 <= m < sub.len() && (#[trigger] sub[m]).id == out@[a]@.id;
                        assert(sub1[m].id == out@[a]@.id);
                    }
                }
            }
            proof {
                reveal(Seq::filter);
                let m = self@.packages;
                assert(m.subrange(0, i + 1).drop_last() =~= m.subrange(0, i as int));
                assert(m.subrange(0, i + 1).last() == m[i as int]);
                assert(out@.map_values(|p: PackageResponse| p@) =~= m.subrange(0, i + 1).filter(
                    pred,
                ).map_values(rmap));
            }
            i += 1;
        }
        proof {
            assert(self@.packages.subrange(0, n as int) =~= self@.packages);
        }
        out
    }
}

} // verus!
