//! One Engine-owned immutable catalog of admitted product content and the
//! references, info leases and byte leases handed out over it.

use crate::digest::{content_sha256_of, sha256, ContentSha256};
use crate::paths::strip_content;
use crate::table::{HandleTable, TextTable};
use std::sync::Arc;
use vstd::prelude::*;

verus! {

/// `Arc::clone`: another pointer to the same immutable value.
#[verifier::external_body]
pub(crate) fn share<T>(a: &Arc<T>) -> (r: Arc<T>)
    ensures
        r == *a,
{
    Arc::clone(a)
}

/// Admitted content: a path, its SHA-256 identity, its immutable body, and
/// the immutable dependency files it was admitted with.
pub struct AdmittedContent {
    path: String,
    sha256: ContentSha256,
    bytes: Arc<Vec<u8>>,
    transient: bool,
    files: Arc<TextTable<Arc<Vec<u8>>>>,
}

/// The abstract value of admitted content.
pub struct ContentView {
    pub path: Seq<char>,
    pub sha256: ContentSha256,
    pub bytes: Seq<u8>,
    pub transient: bool,
    pub files: Map<Seq<char>, Seq<u8>>,
}

/// The bodies of a file table.
pub open spec fn files_view(t: TextTable<Arc<Vec<u8>>>) -> Map<Seq<char>, Seq<u8>> {
    t@.map_values(|b: Arc<Vec<u8>>| b@)
}

impl View for AdmittedContent {
    type V = ContentView;

    closed spec fn view(&self) -> ContentView {
        ContentView {
            path: self.path@,
            sha256: self.sha256,
            bytes: self.bytes@,
            transient: self.transient,
            files: files_view(*self.files),
        }
    }
}

impl AdmittedContent {
    pub closed spec fn wf(&self) -> bool {
        self.files.wf()
    }

    /// Another handle on the same immutable content.
    pub fn duplicate(&self) -> (r: Self)
        ensures
            r@ == self@,
            self.wf() ==> r.wf(),
    {
        AdmittedContent {
            path: self.path.clone(),
            sha256: self.sha256,
            bytes: share(&self.bytes),
            transient: self.transient,
            files: share(&self.files),
        }
    }

    pub fn path(&self) -> (s: &str)
        ensures
            s@ == self@.path,
    {
        self.path.as_str()
    }

    pub fn sha256(&self) -> (h: ContentSha256)
        ensures
            h == self@.sha256,
    {
        self.sha256
    }

    pub fn bytes(&self) -> (b: Arc<Vec<u8>>)
        ensures
            b@ == self@.bytes,
    {
        share(&self.bytes)
    }

    pub fn transient(&self) -> (t: bool)
        ensures
            t == self@.transient,
    {
        self.transient
    }

    /// The body of one file of the dependency closure.
    pub fn file(&self, path: &String) -> (r: Option<Arc<Vec<u8>>>)
        requires
            self.wf(),
        ensures
            r is Some <==> self@.files.dom().contains(path@),
            r matches Some(b) ==> b@ == self@.files[path@],
    {
        match self.files.get(path) {
            Some(b) => Some(share(b)),
            None => None,
        }
    }
}

/// Path, identity and byte length of one retained content source.
pub struct ContentReferenceInfo {
    pub path: String,
    pub sha256: ContentSha256,
    pub byte_length: u64,
}

/// A lease over the info of one reference.
pub struct ContentInfoLease {
    pub handle: u64,
    pub references: Vec<ContentReferenceInfo>,
}

/// A lease that keeps a window of a retained body readable: `len` bytes
/// from `offset`.
#[derive(Debug, Clone, Copy, PartialEq, Eq, Structural)]
pub struct ByteLease {
    pub handle: u64,
    pub offset: usize,
    pub len: usize,
}

/// The catalog entry built for `path` from the product content `files`.
pub open spec fn catalog_entry(files: Map<Seq<char>, Seq<u8>>, path: Seq<char>) -> ContentView {
    ContentView {
        path,
        sha256: content_sha256_of(files[path]),
        bytes: files[path],
        transient: false,
        files,
    }
}

/// The paths of admitted dependency files.
pub open spec fn dependency_names(deps: Seq<(String, Vec<u8>)>) -> Seq<Seq<char>> {
    deps.map_values(|d: (String, Vec<u8>)| d.0@)
}

/// The paths and bodies of admitted dependency files.
pub open spec fn dependency_files(deps: Seq<(String, Vec<u8>)>) -> Seq<(Seq<char>, Seq<u8>)> {
    deps.map_values(|d: (String, Vec<u8>)| (d.0@, d.1@))
}

/// The source path and the dependency paths are pairwise distinct.
pub open spec fn distinct_closure(path: Seq<char>, deps: Seq<Seq<char>>) -> bool {
    &&& forall|i: int| 0 <= i < deps.len() ==> deps[i] != path
    &&& forall|i: int, j: int| 0 <= i < j < deps.len() ==> deps[i] != deps[j]
}

/// The files of an admitted closure: the source and each dependency.
pub open spec fn closure_files(path: Seq<char>, bytes: Seq<u8>, deps: Seq<(Seq<char>, Seq<u8>)>) -> Map<
    Seq<char>,
    Seq<u8>,
>
    decreases deps.len(),
{
    if deps.len() == 0 {
        Map::empty().insert(path, bytes)
    } else {
        closure_files(path, bytes, deps.drop_last()).insert(deps.last().0, deps.last().1)
    }
}

proof fn lemma_closure_dom(path: Seq<char>, bytes: Seq<u8>, deps: Seq<(Seq<char>, Seq<u8>)>)
    ensures
        forall|p: Seq<char>| #[trigger]
            closure_files(path, bytes, deps).dom().contains(p) <==> (p == path || exists|i: int|
                0 <= i < deps.len() && deps[i].0 == p),
    decreases deps.len(),
{
    if deps.len() > 0 {
        lemma_closure_dom(path, bytes, deps.drop_last());
        let d = deps.drop_last();
        let last = deps.last();
        assert(deps[deps.len() - 1] == last);
        assert forall|p: Seq<char>| #[trigger]
            closure_files(path, bytes, deps).dom().contains(p) <==> (p == path || exists|i: int|
                0 <= i < deps.len() && deps[i].0 == p) by {
            assert(closure_files(path, bytes, deps) == closure_files(path, bytes, d).insert(
                last.0,
                last.1,
            ));
            if exists|i: int| 0 <= i < deps.len() && deps[i].0 == p {
                let i = choose|i: int| 0 <= i < deps.len() && deps[i].0 == p;
                if i < deps.len() - 1 {
                    assert(d[i].0 == p);
                }
            }
            if exists|i: int| 0 <= i < d.len() && d[i].0 == p {
                let i = choose|i: int| 0 <= i < d.len() && d[i].0 == p;
                assert(deps[i].0 == p);
            }
        }
    }
}

/// The length of the window `read_bytes` leases: at most `max_bytes`, and
/// no further than the end of the body.
pub open spec fn window_len(size: int, offset: int, max_bytes: int) -> int {
    if max_bytes < size - offset {
        max_bytes
    } else {
        size - offset
    }
}

/// The Engine content catalog and the references and leases over it.
pub struct ContentCatalog {
    catalog: TextTable<AdmittedContent>,
    references: HandleTable<AdmittedContent>,
    info_leases: HandleTable<Vec<ContentReferenceInfo>>,
    byte_leases: HandleTable<Arc<Vec<u8>>>,
    next_reference: u64,
    next_info_lease: u64,
    next_byte_lease: u64,
}

impl ContentCatalog {
    /// The catalog entries, by path.
    pub closed spec fn catalog_view(&self) -> Map<Seq<char>, ContentView> {
        self.catalog@.map_values(|c: AdmittedContent| c@)
    }

    /// The retained references, by handle.
    pub closed spec fn references_view(&self) -> Map<u64, ContentView> {
        self.references@.map_values(|c: AdmittedContent| c@)
    }

    /// The live info leases.
    pub closed spec fn info_lease_handles(&self) -> Set<u64> {
        self.info_leases@.dom()
    }

    /// The live byte leases and the bodies they keep readable.
    pub closed spec fn byte_leases_view(&self) -> Map<u64, Seq<u8>> {
        self.byte_leases@.map_values(|b: Arc<Vec<u8>>| b@)
    }

    /// The handle the next reference receives.
    pub closed spec fn next_reference_view(&self) -> u64 {
        self.next_reference
    }

    /// The handle the next info lease receives.
    pub closed spec fn next_info_lease_view(&self) -> u64 {
        self.next_info_lease
    }

    /// The handle the next byte lease receives.
    pub closed spec fn next_byte_lease_view(&self) -> u64 {
        self.next_byte_lease
    }

    /// Tables are well formed, every stored content is, and every live
    /// handle is below its counter: handles are never reused.
    pub closed spec fn wf(&self) -> bool {
        &&& self.catalog.wf()
        &&& self.references.wf()
        &&& self.info_leases.wf()
        &&& self.byte_leases.wf()
        &&& self.references.all_below(self.next_reference)
        &&& self.info_leases.all_below(self.next_info_lease)
        &&& self.byte_leases.all_below(self.next_byte_lease)
        &&& 1 <= self.next_reference && 1 <= self.next_info_lease && 1 <= self.next_byte_lease
        &&& forall|p: Seq<char>| #[trigger] self.catalog@.dom().contains(p) ==> self.catalog@[p].wf()
        &&& forall|h: u64| #[trigger] self.references@.dom().contains(h) ==> self.references@[h].wf()
    }

    /// A catalog over the product's content resources. Every entry shares
    /// the whole resource set as its dependency closure; no reference or
    /// lease is live.
    pub fn new(content_resources: TextTable<Arc<Vec<u8>>>) -> (c: Self)
        requires
            content_resources.wf(),
        ensures
            c.wf(),
            c.catalog_view().dom() == content_resources@.dom(),
            forall|p: Seq<char>| #[trigger]
                c.catalog_view().dom().contains(p) ==> c.catalog_view()[p] == catalog_entry(
                    files_view(content_resources),
                    p,
                ),
            c.references_view() == Map::<u64, ContentView>::empty(),
            c.info_lease_handles() == Set::<u64>::empty(),
            c.byte_leases_view() == Map::<u64, Seq<u8>>::empty(),
            c.next_reference_view() == 1,
    {
        let ghost fv = files_view(content_resources);
        let files = Arc::new(content_resources);
        let n = files.len();
        let mut catalog: TextTable<AdmittedContent> = TextTable::new();
        let mut i: usize = 0;
        while i < n
            invariant
                files.wf(),
                catalog.wf(),
                fv == files_view(*files),
                n == files.keys_seq().len(),
                i <= n,
                forall|p: Seq<char>| #[trigger]
                    catalog@.dom().contains(p) <==> exists|j: int|
                        0 <= j < i && files.keys_seq()[j]@ == p,
                forall|p: Seq<char>| #[trigger]
                    catalog@.dom().contains(p) ==> catalog@[p]@ == catalog_entry(fv, p)
                        && catalog@[p].wf(),
            decreases n - i,
        {
            let path = files.key_at(i).clone();
            let bytes = share(files.value_at(i));
            proof {
                files.lemma_entry(i as int);
            }
            let digest = sha256(bytes.as_slice());
            let entry = AdmittedContent {
                path: path.clone(),
                sha256: digest,
                bytes,
                transient: false,
                files: share(&files),
            };
            let ghost pv = path@;
            catalog.insert(path, entry);
            proof {
                assert forall|p: Seq<char>| #[trigger] catalog@.dom().contains(p) <==> exists|j: int|
                    0 <= j < i + 1 && files.keys_seq()[j]@ == p by {
                    if p == pv {
                        assert(files.keys_seq()[i as int]@ == p);
                    }
                }
            }
            i = i + 1;
        }
        proof {
            assert forall|p: Seq<char>| catalog@.dom().contains(p) <==> fv.dom().contains(p) by {
                if fv.dom().contains(p) {
                    let j = files.lemma_key(p);
                }
                if catalog@.dom().contains(p) {
                    let j = choose|j: int| 0 <= j < i && files.keys_seq()[j]@ == p;
                    files.lemma_entry(j);
                }
            }
        }
        let c = ContentCatalog {
            catalog,
            references: HandleTable::new(),
            info_leases: HandleTable::new(),
            byte_leases: HandleTable::new(),
            next_reference: 1,
            next_info_lease: 1,
            next_byte_lease: 1,
        };
        assert(c.references_view() =~= Map::<u64, ContentView>::empty());
        assert(c.byte_leases_view() =~= Map::<u64, Seq<u8>>::empty());
        assert(c.catalog_view().dom() =~= fv.dom());
        c
    }

    /// Everything but the references and their counter is unchanged.
    pub open spec fn same_except_references(&self, other: &Self) -> bool {
        &&& self.catalog_view() == other.catalog_view()
        &&& self.info_lease_handles() == other.info_lease_handles()
        &&& self.byte_leases_view() == other.byte_leases_view()
        &&& self.next_info_lease_view() == other.next_info_lease_view()
        &&& self.next_byte_lease_view() == other.next_byte_lease_view()
    }

    /// Retains content under the next reference handle. Fails, changing
    /// nothing, once the handle counter is exhausted.
    fn retain(&mut self, content: AdmittedContent) -> (r: Option<u64>)
        requires
            old(self).wf(),
            content.wf(),
        ensures
            final(self).wf(),
            r is None <==> old(self).next_reference_view() == u64::MAX,
            r is None ==> *final(self) == *old(self),
            r matches Some(h) ==> h == old(self).next_reference_view() && final(self).references_view() == old(self).references_view().insert(h, content@)
                && final(self).next_reference_view() == h + 1 && final(self).same_except_references(old(self)),
    {
        let value = self.next_reference;
        if value == u64::MAX {
            return None;
        }
        self.next_reference = value + 1;
        let ghost cv = content@;
        self.references.insert_new(value, content);
        proof {
            assert(self.references_view() =~= old(self).references_view().insert(value, cv));
        }
        Some(value)
    }

    /// The number of catalog entries.
    pub fn catalog_len(&self) -> (n: usize)
        requires
            self.wf(),
        ensures
            n == self.catalog_view().dom().len(),
    {
        proof {
            self.catalog.lemma_len();
            assert(self.catalog_view().dom() =~= self.catalog@.dom());
        }
        self.catalog.len()
    }

    /// The body of a retained reference, shared rather than copied.
    pub fn retained_bytes(&self, reference: u64) -> (r: Option<Arc<Vec<u8>>>)
        requires
            self.wf(),
        ensures
            r is Some <==> self.references_view().dom().contains(reference),
            r matches Some(b) ==> b@ == self.references_view()[reference].bytes,
    {
        match self.references.get(reference) {
            Some(c) => Some(c.bytes()),
            None => None,
        }
    }

    /// The retained content of a reference.
    pub fn retained_content(&self, reference: u64) -> (r: Option<AdmittedContent>)
        requires
            self.wf(),
        ensures
            r is Some <==> self.references_view().dom().contains(reference),
            r matches Some(c) ==> c@ == self.references_view()[reference] && c.wf(),
    {
        match self.references.get(reference) {
            Some(c) => Some(c.duplicate()),
            None => None,
        }
    }

    /// Ordinary loose content by path, one leading `content/` removed.
    pub fn retained_path(&self, path: &str) -> (r: Option<AdmittedContent>)
        requires
            self.wf(),
        ensures
            r is Some <==> self.catalog_view().dom().contains(strip_content(path@)),
            r matches Some(c) ==> c@ == self.catalog_view()[strip_content(path@)] && c.wf(),
    {
        let key = crate::paths::strip_content_prefix(path);
        match self.catalog.get(&key) {
            Some(c) => Some(c.duplicate()),
            None => None,
        }
    }

    /// Opens a reference to the catalog entry at exactly this path.
    pub fn open_reference(&mut self, path: &str) -> (r: Option<u64>)
        requires
            old(self).wf(),
        ensures
            final(self).wf(),
            r is Some <==> old(self).catalog_view().dom().contains(path@)
                && old(self).next_reference_view() < u64::MAX,
            r is None ==> *final(self) == *old(self),
            r matches Some(h) ==> h == old(self).next_reference_view()
                && final(self).references_view() == old(self).references_view().insert(
                h,
                old(self).catalog_view()[path@],
            ) && final(self).same_except_references(old(self)),
    {
        let key = path.to_owned();
        let content = match self.catalog.get(&key) {
            Some(c) => c.duplicate(),
            None => return None,
        };
        self.retain(content)
    }

    /// Re-opens persisted content by its exact path and SHA-256 identity.
    pub fn resolve_reference(&mut self, path: &str, sha256: ContentSha256) -> (r: Option<u64>)
        requires
            old(self).wf(),
        ensures
            final(self).wf(),
            r is Some <==> old(self).catalog_view().dom().contains(path@)
                && old(self).catalog_view()[path@].sha256 == sha256
                && old(self).next_reference_view() < u64::MAX,
            r is None ==> *final(self) == *old(self),
            r matches Some(h) ==> h == old(self).next_reference_view()
                && final(self).references_view() == old(self).references_view().insert(
                h,
                old(self).catalog_view()[path@],
            ) && final(self).same_except_references(old(self)),
    {
        let key = path.to_owned();
        let content = match self.catalog.get(&key) {
            Some(c) => {
                if c.sha256() != sha256 {
                    return None;
                }
                c.duplicate()
            },
            None => return None,
        };
        self.retain(content)
    }

    /// Admits a transient source and its private dependency files, copying
    /// them into Engine ownership. Fails when a dependency repeats a path
    /// already in the closure.
    pub fn admit_reference(
        &mut self,
        path: String,
        bytes: Vec<u8>,
        dependencies: Vec<(String, Vec<u8>)>,
    ) -> (r: Option<u64>)
        requires
            old(self).wf(),
        ensures
            final(self).wf(),
            r is None ==> *final(self) == *old(self),
            r is Some <==> distinct_closure(path@, dependency_names(dependencies@)) && old(self).next_reference_view() < u64::MAX,
            r matches Some(h) ==> h == old(self).next_reference_view() && final(self).same_except_references(old(self)) && final(self).references_view().dom()
                == old(self).references_view().dom().insert(h) && (forall|k: u64|
                #![trigger final(self).references_view()[k]]
                k != h && old(self).references_view().dom().contains(k)
                    ==> final(self).references_view()[k] == old(self).references_view()[k])
                && final(self).references_view()[h] == (ContentView {
                path: path@,
                sha256: content_sha256_of(bytes@),
                bytes: bytes@,
                transient: true,
                files: closure_files(path@, bytes@, dependency_files(dependencies@)),
            }),
    {
        let ghost names = dependency_names(dependencies@);
        let ghost deps = dependency_files(dependencies@);
        let ghost pv = path@;
        let ghost bv = bytes@;
        let body = Arc::new(bytes);
        let mut files: TextTable<Arc<Vec<u8>>> = TextTable::new();
        files.insert(path.clone(), share(&body));
        assert(files_view(files) =~= closure_files(pv, bv, deps.subrange(0, 0)));
        let n = dependencies.len();
        let mut i: usize = 0;
        while i < n
            invariant
                files.wf(),
                old(self).wf(),
                *self == *old(self),
                pv == path@,
                n == dependencies@.len(),
                i <= n,
                names == dependency_names(dependencies@),
                deps == dependency_files(dependencies@),
                distinct_closure(pv, names.subrange(0, i as int)),
                files_view(files) == closure_files(pv, bv, deps.subrange(0, i as int)),
            decreases n - i,
        {
            let dep = &dependencies[i];
            let dep_path = &dep.0;
            let dep_bytes = &dep.1;
            proof {
                assert(names[i as int] == dep_path@);
                assert(deps[i as int] == (dep_path@, dep_bytes@));
                lemma_closure_dom(pv, bv, deps.subrange(0, i as int));
            }
            if files.get(dep_path).is_some() {
                proof {
                    let d = deps.subrange(0, i as int);
                    assert(closure_files(pv, bv, d).dom().contains(dep_path@));
                    if dep_path@ != pv {
                        let j = choose|j: int| 0 <= j < d.len() && d[j].0 == dep_path@;
                        assert(d[j] == deps[j]);
                        assert(deps[j].0 == names[j]);
                        assert(names[j] == names[i as int]);
                        assert(0 <= j < i < names.len());
                    } else {
                        assert(names[i as int] == pv);
                    }
                    assert(!distinct_closure(pv, names));
                }
                return None;
            }
            let ghost before = files;
            files.insert(dep_path.clone(), Arc::new(dep_bytes.clone()));
            proof {
                let d1 = deps.subrange(0, i + 1);
                assert(d1.drop_last() =~= deps.subrange(0, i as int));
                assert(d1.last() == (dep_path@, dep_bytes@));
                assert(files_view(files) =~= files_view(before).insert(dep_path@, dep_bytes@));
                let d = deps.subrange(0, i as int);
                assert(!closure_files(pv, bv, d).dom().contains(dep_path@));
                assert forall|a: int| 0 <= a < i + 1 implies #[trigger] names.subrange(0, i + 1)[a] != pv by {
                    if a == i {
                        assert(closure_files(pv, bv, d).dom().contains(pv));
                    }
                }
                assert forall|a: int, b: int|
                    0 <= a < b < i + 1 implies #[trigger] names.subrange(0, i + 1)[a]
                    != #[trigger] names.subrange(0, i + 1)[b] by {
                    if b == i {
                        assert(d[a].0 == names[a]);
                    }
                }
            }
            i = i + 1;
        }
        assert(names.subrange(0, n as int) =~= names);
        assert(deps.subrange(0, n as int) =~= deps);
        let digest = sha256(body.as_slice());
        let content = AdmittedContent {
            path,
            sha256: digest,
            bytes: body,
            transient: true,
            files: Arc::new(files),
        };
        let ghost old_refs = self.references_view();
        let r = self.retain(content);
        r
    }

    /// What releasing a reference does: the reference, if live, is
    /// removed; the catalog, the leases and the counters are unchanged.
    pub open spec fn reference_destroyed(pre: Self, post: Self, reference: u64, r: bool) -> bool {
        &&& r == pre.references_view().dom().contains(reference)
        &&& post.references_view() == pre.references_view().remove(reference)
        &&& post.next_reference_view() == pre.next_reference_view()
        &&& post.same_except_references(&pre)
    }

    /// What releasing a byte lease does: the lease, if live, is removed;
    /// everything else is unchanged.
    pub open spec fn byte_lease_destroyed(pre: Self, post: Self, lease: u64, r: bool) -> bool {
        &&& r == pre.byte_leases_view().dom().contains(lease)
        &&& post.byte_leases_view() == pre.byte_leases_view().remove(lease)
        &&& post.catalog_view() == pre.catalog_view()
        &&& post.references_view() == pre.references_view()
        &&& post.info_lease_handles() == pre.info_lease_handles()
        &&& post.next_reference_view() == pre.next_reference_view()
        &&& post.next_info_lease_view() == pre.next_info_lease_view()
        &&& post.next_byte_lease_view() == pre.next_byte_lease_view()
    }

    /// Releases a reference; `false` when it was not live.
    pub fn destroy_reference(&mut self, reference: u64) -> (r: bool)
        requires
            old(self).wf(),
        ensures
            final(self).wf(),
            Self::reference_destroyed(*old(self), *final(self), reference, r),
    {
        let removed = self.references.remove(reference);
        assert(self.references_view() =~= old(self).references_view().remove(reference));
        removed.is_some()
    }

    /// Leases the path, identity and byte length of a retained reference.
    pub fn read_reference_info(&mut self, reference: u64) -> (r: Option<ContentInfoLease>)
        requires
            old(self).wf(),
        ensures
            final(self).wf(),
            r is Some <==> old(self).references_view().dom().contains(reference)
                && old(self).next_info_lease_view() < u64::MAX,
            r is None ==> *final(self) == *old(self),
            r matches Some(lease) ==> {
                let c = old(self).references_view()[reference];
                &&& lease.handle == old(self).next_info_lease_view()
                &&& lease.references@.len() == 1
                &&& lease.references@[0].path@ == c.path
                &&& lease.references@[0].sha256 == c.sha256
                &&& lease.references@[0].byte_length == c.bytes.len()
                &&& final(self).info_lease_handles() == old(self).info_lease_handles().insert(
                    lease.handle,
                )
                &&& final(self).next_info_lease_view() == lease.handle + 1
                &&& final(self).catalog_view() == old(self).catalog_view()
                &&& final(self).references_view() == old(self).references_view()
                &&& final(self).next_reference_view() == old(self).next_reference_view()
                &&& final(self).byte_leases_view() == old(self).byte_leases_view()
                &&& final(self).next_byte_lease_view() == old(self).next_byte_lease_view()
            },
    {
        let content = match self.references.get(reference) {
            Some(c) => c,
            None => return None,
        };
        let value = self.next_info_lease;
        if value == u64::MAX {
            return None;
        }
        let bytes = content.bytes();
        let len = bytes.len();
        let info = ContentReferenceInfo {
            path: content.path().to_owned(),
            sha256: content.sha256(),
            byte_length: len as u64,
        };
        let copy = ContentReferenceInfo {
            path: info.path.clone(),
            sha256: info.sha256,
            byte_length: info.byte_length,
        };
        let mut stored: Vec<ContentReferenceInfo> = Vec::new();
        stored.push(info);
        let mut returned: Vec<ContentReferenceInfo> = Vec::new();
        returned.push(copy);
        self.next_info_lease = value + 1;
        self.info_leases.insert_new(value, stored);
        Some(ContentInfoLease { handle: value, references: returned })
    }

    /// Releases an info lease; `false` when it was not live.
    pub fn destroy_reference_info_lease(&mut self, lease: u64) -> (r: bool)
        requires
            old(self).wf(),
        ensures
            final(self).wf(),
            r == old(self).info_lease_handles().contains(lease),
            final(self).info_lease_handles() == old(self).info_lease_handles().remove(lease),
            final(self).catalog_view() == old(self).catalog_view(),
            final(self).references_view() == old(self).references_view(),
            final(self).byte_leases_view() == old(self).byte_leases_view(),
            final(self).next_reference_view() == old(self).next_reference_view(),
            final(self).next_info_lease_view() == old(self).next_info_lease_view(),
            final(self).next_byte_lease_view() == old(self).next_byte_lease_view(),
    {
        let removed = self.info_leases.remove(lease);
        removed.is_some()
    }

    /// Leases a window of a retained body: from `offset`, at most
    /// `max_bytes` bytes and no further than the body's end. An offset past
    /// the end fails; an offset exactly at the end leases an empty window.
    pub fn read_bytes(&mut self, reference: u64, offset: u64, max_bytes: u32) -> (r: Option<ByteLease>)
        requires
            old(self).wf(),
        ensures
            final(self).wf(),
            r is None ==> *final(self) == *old(self),
            ({
                let c = old(self).references_view()[reference];
                &&& r is Some <==> old(self).references_view().dom().contains(reference)
                    && offset <= c.bytes.len() && old(self).next_byte_lease_view() < u64::MAX
                &&& r matches Some(lease) ==> {
                    &&& lease.handle == old(self).next_byte_lease_view()
                    &&& lease.offset == offset
                    &&& lease.len == window_len(c.bytes.len() as int, offset as int, max_bytes as int)
                    &&& final(self).byte_leases_view() == old(self).byte_leases_view().insert(
                        lease.handle,
                        c.bytes,
                    )
                    &&& final(self).next_byte_lease_view() == lease.handle + 1
                    &&& final(self).catalog_view() == old(self).catalog_view()
                    &&& final(self).references_view() == old(self).references_view()
                    &&& final(self).next_reference_view() == old(self).next_reference_view()
                    &&& final(self).info_lease_handles() == old(self).info_lease_handles()
                    &&& final(self).next_info_lease_view() == old(self).next_info_lease_view()
                }
            }),
    {
        let content = match self.references.get(reference) {
            Some(c) => c,
            None => return None,
        };
        let bytes = content.bytes();
        let size = bytes.len();
        if offset > size as u64 {
            return None;
        }
        let start = offset as usize;
        let available = size - start;
        let len = if (max_bytes as usize) < available {
            max_bytes as usize
        } else {
            available
        };
        let value = self.next_byte_lease;
        if value == u64::MAX {
            return None;
        }
        self.next_byte_lease = value + 1;
        let ghost bv = bytes@;
        self.byte_leases.insert_new(value, bytes);
        assert(self.byte_leases_view() =~= old(self).byte_leases_view().insert(value, bv));
        Some(ByteLease { handle: value, offset: start, len })
    }

    /// The body a byte lease keeps readable.
    pub fn byte_lease_body(&self, lease: u64) -> (r: Option<Arc<Vec<u8>>>)
        requires
            self.wf(),
        ensures
            r is Some <==> self.byte_leases_view().dom().contains(lease),
            r matches Some(b) ==> b@ == self.byte_leases_view()[lease],
    {
        match self.byte_leases.get(lease) {
            Some(b) => Some(share(b)),
            None => None,
        }
    }

    /// Releases a byte lease; `false` when it was not live.
    pub fn destroy_byte_lease(&mut self, lease: u64) -> (r: bool)
        requires
            old(self).wf(),
        ensures
            final(self).wf(),
            Self::byte_lease_destroyed(*old(self), *final(self), lease, r),
    {
        let removed = self.byte_leases.remove(lease);
        assert(self.byte_leases_view() =~= old(self).byte_leases_view().remove(lease));
        removed.is_some()
    }
}

/// A byte lease outlives its reference: releasing the reference leaves
/// every live byte lease, and the body it keeps readable, in place.
pub proof fn lemma_byte_lease_outlives_reference(
    c0: ContentCatalog,
    c1: ContentCatalog,
    reference: u64,
    r: bool,
    lease: u64,
)
    requires
        ContentCatalog::reference_destroyed(c0, c1, reference, r),
        c0.byte_leases_view().dom().contains(lease),
    ensures
        c1.byte_leases_view().dom().contains(lease),
        c1.byte_leases_view()[lease] == c0.byte_leases_view()[lease],
{
}

/// Releasing a byte lease twice is harmless: the second release reports
/// that the lease is no longer live and changes nothing.
pub proof fn lemma_byte_lease_release_is_idempotent(
    c0: ContentCatalog,
    c1: ContentCatalog,
    c2: ContentCatalog,
    lease: u64,
    r1: bool,
    r2: bool,
)
    requires
        ContentCatalog::byte_lease_destroyed(c0, c1, lease, r1),
        ContentCatalog::byte_lease_destroyed(c1, c2, lease, r2),
    ensures
        !r2,
        c2.byte_leases_view() == c1.byte_leases_view(),
        c2.references_view() == c1.references_view(),
{
    assert(c1.byte_leases_view().remove(lease) =~= c1.byte_leases_view());
}

/// A leased window never passes the end of its body and never exceeds
/// the requested size.
pub proof fn lemma_window_within_body(size: int, offset: int, max_bytes: int)
    requires
        0 <= offset <= size,
        0 <= max_bytes,
    ensures
        0 <= window_len(size, offset, max_bytes) <= max_bytes,
        offset + window_len(size, offset, max_bytes) <= size,
        window_len(size, offset, max_bytes) == max_bytes || offset + window_len(
            size,
            offset,
            max_bytes,
        ) == size,
{
}

} // verus!
