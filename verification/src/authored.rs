//! Authored content catalogs as products hand them in row by row: the
//! engine bounds on a request, the rows the base service refuses, the
//! grouping of dependency rows under their entries, the live catalogs by
//! handle, and the bounded diagnostics a refused request reports.
//!
//! Parsing asset ids, hashes and references, validating a whole catalog
//! and resolving references inside it belong to the asset catalog itself;
//! here its admitted catalogs are carried as opaque values.

use crate::animation::text_bytes;
use crate::table::HandleTable;
use vstd::prelude::*;
use vstd::string::StringExecFns;

verus! {

/// The most entries one admission request may carry.
pub const MAX_CATALOG_ENTRIES: usize = 4096;

/// The most dependency rows one admission request may carry.
pub const MAX_CATALOG_DEPENDENCIES: usize = 16384;

/// The longest text field, in UTF-8 bytes.
pub const MAX_AUTHORED_TEXT: usize = 4096;

/// The most diagnostics one refusal reports.
pub const MAX_AUTHORED_DIAGNOSTICS: usize = 128;

/// The kind of an authored asset, which its id names.
#[derive(Debug, Clone, Copy, PartialEq, Eq, Structural)]
pub enum AssetKind {
    Material,
    StaticMesh,
    AnimatedMesh,
    Sprite,
    SpriteSheet,
    Texture,
    AudioClip,
    Font,
    VoxelVolume,
    VoxelObject,
    Script,
    Scene,
}

/// Which versions of an asset a reference accepts.
#[derive(Debug, Clone, Copy, PartialEq, Eq, Structural)]
pub enum AssetVersionReq {
    Any,
    Exact(u32),
    AtLeast(u32),
}

/// A reference to an authored asset: its id, the versions it accepts and
/// the content hash it pins, if any.
#[derive(Debug, Clone)]
pub struct AssetReferenceRow {
    pub id: String,
    pub version: AssetVersionReq,
    pub hash: Option<String>,
}

/// One catalog entry of an admission request, with the dependencies its
/// dependency rows attached to it.
#[derive(Debug, Clone)]
pub struct CatalogEntryRow {
    pub id: String,
    pub kind: AssetKind,
    pub version: u32,
    pub hash: Option<String>,
    pub source_path: Option<String>,
    pub label: Option<String>,
    pub dependencies: Vec<AssetReferenceRow>,
}

/// A diagnostic of a refused request: a stable code, a message and the
/// source it concerns.
#[derive(Debug, Clone)]
pub struct AuthoredDiagnostic {
    pub code: String,
    pub message: String,
    pub source: String,
}

/// The code of a refused request's input.
pub open spec fn input_code() -> Seq<char> {
    "AUTHORED_CONTENT_INPUT"@
}

/// A refusal of a request's input, reported against the catalog.
fn input_refusal(message: String) -> (d: AuthoredDiagnostic)
    ensures
        d.code@ == input_code(),
        d.message@ == message@,
        d.source@ == "catalog"@,
{
    AuthoredDiagnostic {
        code: String::from_str("AUTHORED_CONTENT_INPUT"),
        message,
        source: String::from_str("catalog"),
    }
}

/// Checks the engine bounds on the size of an admission request.
pub fn check_catalog_bounds(entries: usize, dependencies: usize) -> (r: Result<
    (),
    AuthoredDiagnostic,
>)
    ensures
        r is Ok <==> entries <= MAX_CATALOG_ENTRIES && dependencies <= MAX_CATALOG_DEPENDENCIES,
        r matches Err(d) ==> d.code@ == input_code() && d.message@
            == "catalog input exceeds engine bounds"@,
{
    if entries > MAX_CATALOG_ENTRIES || dependencies > MAX_CATALOG_DEPENDENCIES {
        return Err(input_refusal(String::from_str("catalog input exceeds engine bounds")));
    }
    Ok(())
}

/// Admits a text field of at most `MAX_AUTHORED_TEXT` UTF-8 bytes; a
/// longer one is refused, naming the field.
pub fn bounded_text(value: &str, field: &str) -> (r: Result<String, AuthoredDiagnostic>)
    ensures
        r is Ok <==> text_bytes(value@) <= MAX_AUTHORED_TEXT,
        r matches Ok(s) ==> s@ == value@,
        r matches Err(d) ==> d.code@ == input_code() && d.message@ == field@
            + " exceeds engine bound"@,
{
    let bytes = value.as_bytes();
    if bytes.len() > MAX_AUTHORED_TEXT {
        let mut message = String::from_str(field);
        message.append(" exceeds engine bound");
        return Err(input_refusal(message));
    }
    Ok(String::from_str(value))
}

/// The position of the first entry with id `id`.
pub open spec fn first_entry_with(rows: Seq<CatalogEntryRow>, id: Seq<char>) -> int {
    choose|i: int|
        0 <= i < rows.len() && rows[i].id@ == id && forall|j: int|
            0 <= j < i ==> #[trigger] rows[j].id@ != id
}

/// The entries of an admission request as its rows are admitted, in
/// request order.
#[derive(Debug)]
pub struct CatalogRows {
    rows: Vec<CatalogEntryRow>,
}

impl View for CatalogRows {
    type V = Seq<CatalogEntryRow>;

    closed spec fn view(&self) -> Seq<CatalogEntryRow> {
        self.rows@
    }
}

impl CatalogRows {
    /// No entries yet.
    pub fn new() -> (r: Self)
        ensures
            r@ == Seq::<CatalogEntryRow>::empty(),
    {
        CatalogRows { rows: Vec::new() }
    }

    /// Admits the next entry row. The base service refuses material
    /// entries, whose payload it does not carry.
    pub fn admit_entry(&mut self, row: CatalogEntryRow) -> (r: Result<(), AuthoredDiagnostic>)
        ensures
            r is Ok <==> row.kind != AssetKind::Material,
            r is Ok ==> final(self)@ == old(self)@.push(row),
            r is Err ==> final(self)@ == old(self)@,
            r matches Err(d) ==> d.code@ == input_code() && d.message@
                == "material requires its payload and is not admitted by AuthoredContent base"@,
    {
        if row.kind == AssetKind::Material {
            return Err(
                input_refusal(
                    String::from_str(
                        "material requires its payload and is not admitted by AuthoredContent base",
                    ),
                ),
            );
        }
        self.rows.push(row);
        Ok(())
    }

    /// Attaches a dependency row to the first admitted entry with id
    /// `entry_id`; a row naming no admitted entry is refused.
    pub fn attach_dependency(&mut self, entry_id: &String, reference: AssetReferenceRow) -> (r:
        Result<(), AuthoredDiagnostic>)
        ensures
            r is Ok <==> exists|i: int|
                0 <= i < old(self)@.len() && #[trigger] old(self)@[i].id@ == entry_id@,
            r is Err ==> final(self)@ == old(self)@,
            r matches Err(d) ==> d.code@ == input_code() && d.message@
                == "dependency entry is absent from request"@,
            r is Ok ==> {
                let i = first_entry_with(old(self)@, entry_id@);
                &&& 0 <= i < old(self)@.len()
                &&& old(self)@[i].id@ == entry_id@
                &&& forall|j: int| 0 <= j < i ==> #[trigger] old(self)@[j].id@ != entry_id@
                &&& final(self)@.len() == old(self)@.len()
                &&& forall|j: int|
                    0 <= j < old(self)@.len() && j != i ==> #[trigger] final(self)@[j] == old(
                        self,
                    )@[j]
                &&& final(self)@[i].id == old(self)@[i].id
                &&& final(self)@[i].kind == old(self)@[i].kind
                &&& final(self)@[i].version == old(self)@[i].version
                &&& final(self)@[i].hash == old(self)@[i].hash
                &&& final(self)@[i].source_path == old(self)@[i].source_path
                &&& final(self)@[i].label == old(self)@[i].label
                &&& final(self)@[i].dependencies@ == old(self)@[i].dependencies@.push(reference)
            },
    {
        let n = self.rows.len();
        let mut i: usize = 0;
        while i < n
            invariant
                n == self.rows@.len(),
                self.rows@ == old(self)@,
                i <= n,
                forall|j: int| 0 <= j < i ==> #[trigger] self.rows@[j].id@ != entry_id@,
            decreases n - i,
        {
            if self.rows[i].id == *entry_id {
                proof {
                    let s = old(self)@;
                    assert(0 <= i < s.len() && s[i as int].id@ == entry_id@ && forall|j: int|
                        0 <= j < i ==> #[trigger] s[j].id@ != entry_id@);
                    let k = first_entry_with(s, entry_id@);
                    if k < i {
                        assert(s[k].id@ != entry_id@);
                    } else if k > i {
                        assert(s[i as int].id@ != entry_id@);
                    }
                    assert(k == i);
                }
                let mut row = self.rows.remove(i);
                row.dependencies.push(reference);
                self.rows.insert(i, row);
                proof {
                    assert forall|j: int|
                        0 <= j < old(self)@.len() && j != i implies #[trigger] self.rows@[j] == old(
                        self,
                    )@[j] by {}
                }
                return Ok(());
            }
            i = i + 1;
        }
        Err(input_refusal(String::from_str("dependency entry is absent from request")))
    }

    /// The admitted entries, in request order, for the catalog to admit.
    pub fn into_entries(self) -> (v: Vec<CatalogEntryRow>)
        ensures
            v@ == self@,
    {
        self.rows
    }
}

/// The diagnostics a refusal reports: the first `MAX_AUTHORED_DIAGNOSTICS`
/// of a validation report, in order.
pub fn reported_diagnostics(report: Vec<AuthoredDiagnostic>) -> (v: Vec<AuthoredDiagnostic>)
    ensures
        v@.len() == if report@.len() <= MAX_AUTHORED_DIAGNOSTICS {
            report@.len()
        } else {
            MAX_AUTHORED_DIAGNOSTICS as nat
        },
        v@ == report@.take(v@.len() as int),
{
    let mut report = report;
    if report.len() > MAX_AUTHORED_DIAGNOSTICS {
        report.truncate(MAX_AUTHORED_DIAGNOSTICS);
    }
    report
}

/// Why the asset catalog refused to admit a catalog.
#[derive(Debug, Clone)]
pub enum CatalogAdmissionFailure {
    /// The catalog failed validation, with the validator's diagnostics.
    Validation(Vec<AuthoredDiagnostic>),
    /// The catalog text could not be decoded: a message and the path it
    /// concerns.
    Codec { message: String, path: String },
    /// The catalog's revision counter is exhausted.
    RevisionExhausted,
}

/// The diagnostics an admission refusal reports: the first
/// `MAX_AUTHORED_DIAGNOSTICS` validation diagnostics, the codec failure
/// under `AUTHORED_CONTENT_CODEC`, or an input refusal for an exhausted
/// revision.
pub fn admission_refusal(failure: CatalogAdmissionFailure) -> (v: Vec<AuthoredDiagnostic>)
    ensures
        match failure {
            CatalogAdmissionFailure::Validation(report) => {
                &&& v@.len() == if report@.len() <= MAX_AUTHORED_DIAGNOSTICS {
                    report@.len()
                } else {
                    MAX_AUTHORED_DIAGNOSTICS as nat
                }
                &&& v@ == report@.take(v@.len() as int)
            },
            CatalogAdmissionFailure::Codec { message, path } => {
                &&& v@.len() == 1
                &&& v@[0].code@ == "AUTHORED_CONTENT_CODEC"@
                &&& v@[0].message@ == message@
                &&& v@[0].source@ == path@
            },
            CatalogAdmissionFailure::RevisionExhausted => {
                &&& v@.len() == 1
                &&& v@[0].code@ == input_code()
                &&& v@[0].message@ == "catalog revision exhausted"@
                &&& v@[0].source@ == "catalog"@
            },
        },
{
    match failure {
        CatalogAdmissionFailure::Validation(report) => reported_diagnostics(report),
        CatalogAdmissionFailure::Codec { message, path } => {
            let d = AuthoredDiagnostic {
                code: String::from_str("AUTHORED_CONTENT_CODEC"),
                message,
                source: path,
            };
            vec![d]
        },
        CatalogAdmissionFailure::RevisionExhausted => {
            vec![input_refusal(String::from_str("catalog revision exhausted"))]
        },
    }
}

/// Why a reference did not resolve in a catalog.
#[derive(Debug, Clone, Copy, PartialEq, Eq, Structural)]
pub enum CatalogResolveFailure {
    /// No entry has the reference's id.
    Missing,
    /// The entry does not satisfy the reference's version or hash.
    Stale,
}

/// The diagnostic of a reference that did not resolve, reported against
/// the reference's id.
pub fn resolve_refusal(failure: CatalogResolveFailure, reference_id: &str) -> (d:
    AuthoredDiagnostic)
    ensures
        d.source@ == reference_id@,
        failure == CatalogResolveFailure::Missing ==> d.code@
            == "AUTHORED_CONTENT_REFERENCE_MISSING"@ && d.message@
            == "catalog reference is missing"@,
        failure == CatalogResolveFailure::Stale ==> d.code@ == "AUTHORED_CONTENT_REFERENCE_STALE"@
            && d.message@ == "catalog reference is stale"@,
{
    match failure {
        CatalogResolveFailure::Missing => AuthoredDiagnostic {
            code: String::from_str("AUTHORED_CONTENT_REFERENCE_MISSING"),
            message: String::from_str("catalog reference is missing"),
            source: String::from_str(reference_id),
        },
        CatalogResolveFailure::Stale => AuthoredDiagnostic {
            code: String::from_str("AUTHORED_CONTENT_REFERENCE_STALE"),
            message: String::from_str("catalog reference is stale"),
            source: String::from_str(reference_id),
        },
    }
}

/// The admitted catalogs by handle; handles are never reused.
#[derive(Debug)]
pub struct AuthoredCatalogs<C> {
    catalogs: HandleTable<C>,
    next_catalog: u64,
}

impl<C> AuthoredCatalogs<C> {
    /// The live catalogs.
    pub closed spec fn catalogs_view(&self) -> Map<u64, C> {
        self.catalogs@
    }

    /// The handle the next catalog gets.
    pub closed spec fn next_catalog_view(&self) -> u64 {
        self.next_catalog
    }

    pub closed spec fn wf(&self) -> bool {
        &&& self.catalogs.wf()
        &&& self.catalogs.all_below(self.next_catalog)
        &&& 1 <= self.next_catalog
    }

    /// No catalogs; handles start at one.
    pub fn new() -> (r: Self)
        ensures
            r.wf(),
            r.catalogs_view() == Map::<u64, C>::empty(),
            r.next_catalog_view() == 1,
    {
        AuthoredCatalogs { catalogs: HandleTable::new(), next_catalog: 1 }
    }

    /// Retains an admitted catalog under the next handle.
    pub fn retain(&mut self, catalog: C) -> (r: Result<u64, AuthoredDiagnostic>)
        requires
            old(self).wf(),
        ensures
            final(self).wf(),
            r is Err <==> old(self).next_catalog_view() == u64::MAX,
            r is Err ==> *final(self) == *old(self),
            r matches Err(d) ==> d.code@ == input_code() && d.message@
                == "catalog handle exhausted"@,
            r matches Ok(h) ==> {
                &&& h == old(self).next_catalog_view()
                &&& h != 0
                &&& !old(self).catalogs_view().dom().contains(h)
                &&& final(self).catalogs_view() == old(self).catalogs_view().insert(h, catalog)
                &&& final(self).next_catalog_view() == h + 1
            },
    {
        let h = self.next_catalog;
        if h == u64::MAX {
            return Err(input_refusal(String::from_str("catalog handle exhausted")));
        }
        self.next_catalog = h + 1;
        self.catalogs.insert_new(h, catalog);
        Ok(h)
    }

    /// A live catalog.
    pub fn get(&self, handle: u64) -> (r: Result<&C, AuthoredDiagnostic>)
        requires
            self.wf(),
        ensures
            r is Ok <==> self.catalogs_view().dom().contains(handle),
            r matches Ok(c) ==> *c == self.catalogs_view()[handle],
            r matches Err(d) ==> d.code@ == input_code() && d.message@
                == "unknown catalog handle"@,
    {
        match self.catalogs.get(handle) {
            Some(c) => Ok(c),
            None => Err(input_refusal(String::from_str("unknown catalog handle"))),
        }
    }

    /// Disposes a live catalog; reports whether one was live.
    pub fn destroy(&mut self, handle: u64) -> (b: bool)
        requires
            old(self).wf(),
        ensures
            final(self).wf(),
            b <==> old(self).catalogs_view().dom().contains(handle),
            final(self).catalogs_view() == old(self).catalogs_view().remove(handle),
            final(self).next_catalog_view() == old(self).next_catalog_view(),
    {
        self.catalogs.remove(handle).is_some()
    }
}

} // verus!
