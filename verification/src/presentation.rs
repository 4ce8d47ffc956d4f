//! Retained presentation bookkeeping: the bounded log of presentation
//! diagnostics that products read back per domain, the live billboards and
//! particle emitters by logical id, and the live ghost plate presentations
//! with the product objects they are captured from.
//!
//! Billboard, particle and ghost plate descriptors are floating point and
//! projected by the renderer's presentation model; they are carried here as
//! opaque values.

use crate::error::CsharpEngineServicesError;
use crate::table::HandleTable;
use vstd::prelude::*;
use vstd::string::StringExecFns;

verus! {

/// The most presentation diagnostics retained; the oldest is dropped to
/// make room for a new one.
pub const MAX_PRESENTATION_DIAGNOSTICS: usize = 128;

/// The presentation family a diagnostic belongs to.
#[derive(Debug, Clone, Copy, PartialEq, Eq, Structural)]
pub enum PresentationDiagnosticDomain {
    Billboard,
    Particle,
}

/// A recorded presentation diagnostic: its domain, its code, the
/// presentation sequence and the logical id it concerns.
#[derive(Debug, Clone, Copy, PartialEq, Eq, Structural)]
pub struct PresentationDiagnostic<C> {
    pub domain: PresentationDiagnosticDomain,
    pub code: C,
    pub sequence: u32,
    pub logical_id: u64,
}

/// The diagnostics of one domain, oldest first.
pub open spec fn domain_entries<C>(
    entries: Seq<PresentationDiagnostic<C>>,
    domain: PresentationDiagnosticDomain,
) -> Seq<PresentationDiagnostic<C>>
    decreases entries.len(),
{
    if entries.len() == 0 {
        Seq::empty()
    } else {
        let prior = domain_entries(entries.drop_last(), domain);
        if entries.last().domain == domain {
            prior.push(entries.last())
        } else {
            prior
        }
    }
}

/// A domain has no more entries than the whole log.
pub proof fn lemma_domain_entries_len<C>(
    entries: Seq<PresentationDiagnostic<C>>,
    domain: PresentationDiagnosticDomain,
)
    ensures
        domain_entries(entries, domain).len() <= entries.len(),
    decreases entries.len(),
{
    if entries.len() > 0 {
        lemma_domain_entries_len(entries.drop_last(), domain);
    }
}

/// The bounded log of presentation diagnostics, oldest first.
#[derive(Debug)]
pub struct PresentationDiagnostics<C> {
    entries: Vec<PresentationDiagnostic<C>>,
}

impl<C: Copy> PresentationDiagnostics<C> {
    /// The retained diagnostics, oldest first.
    pub closed spec fn entries_view(&self) -> Seq<PresentationDiagnostic<C>> {
        self.entries@
    }

    /// The log never holds more than its bound.
    pub closed spec fn wf(&self) -> bool {
        self.entries@.len() <= MAX_PRESENTATION_DIAGNOSTICS
    }

    /// An empty log.
    pub fn new() -> (r: Self)
        ensures
            r.wf(),
            r.entries_view() == Seq::<PresentationDiagnostic<C>>::empty(),
    {
        PresentationDiagnostics { entries: Vec::new() }
    }

    /// Records a diagnostic, dropping the oldest one when the log is full.
    pub fn record(&mut self, diagnostic: PresentationDiagnostic<C>)
        requires
            old(self).wf(),
        ensures
            final(self).wf(),
            final(self).entries_view() == (if old(self).entries_view().len()
                == MAX_PRESENTATION_DIAGNOSTICS {
                old(self).entries_view().drop_first()
            } else {
                old(self).entries_view()
            }).push(diagnostic),
    {
        if self.entries.len() == MAX_PRESENTATION_DIAGNOSTICS {
            self.entries.remove(0);
            assert(self.entries@ =~= old(self).entries@.drop_first());
        }
        self.entries.push(diagnostic);
    }

    /// The number of retained diagnostics of `domain`.
    pub fn count(&self, domain: PresentationDiagnosticDomain) -> (n: u32)
        requires
            self.wf(),
        ensures
            n == domain_entries(self.entries_view(), domain).len(),
    {
        let len = self.entries.len();
        let mut n: u32 = 0;
        let mut i: usize = 0;
        while i < len
            invariant
                len == self.entries@.len(),
                len <= MAX_PRESENTATION_DIAGNOSTICS,
                i <= len,
                n == domain_entries(self.entries@.subrange(0, i as int), domain).len(),
            decreases len - i,
        {
            proof {
                let next = self.entries@.subrange(0, i + 1);
                assert(next.drop_last() =~= self.entries@.subrange(0, i as int));
                lemma_domain_entries_len(self.entries@.subrange(0, i as int), domain);
            }
            if self.entries[i].domain == domain {
                n = n + 1;
            }
            i = i + 1;
        }
        assert(self.entries@.subrange(0, len as int) =~= self.entries@);
        n
    }

    /// The `index`-th retained diagnostic of `domain`, oldest first, if
    /// there is one.
    pub fn at(&self, domain: PresentationDiagnosticDomain, index: u32) -> (r: Option<
        PresentationDiagnostic<C>,
    >)
        requires
            self.wf(),
        ensures
            r == (if index < domain_entries(self.entries_view(), domain).len() {
                Some(domain_entries(self.entries_view(), domain)[index as int])
            } else {
                None
            }),
    {
        let len = self.entries.len();
        let mut seen: u32 = 0;
        let mut i: usize = 0;
        while i < len
            invariant
                len == self.entries@.len(),
                len <= MAX_PRESENTATION_DIAGNOSTICS,
                i <= len,
                seen == domain_entries(self.entries@.subrange(0, i as int), domain).len(),
                seen <= index,
                forall|k: int|
                    0 <= k < seen ==> domain_entries(self.entries@, domain)[k]
                        == domain_entries(self.entries@.subrange(0, i as int), domain)[k],
                domain_entries(self.entries@.subrange(0, i as int), domain).len() <= domain_entries(
                    self.entries@,
                    domain,
                ).len(),
            decreases len - i,
        {
            let e = self.entries[i];
            proof {
                let next = self.entries@.subrange(0, i + 1);
                assert(next.drop_last() =~= self.entries@.subrange(0, i as int));
                lemma_domain_entries_prefix(self.entries@, i + 1, domain);
                lemma_domain_entries_len(self.entries@.subrange(0, i as int), domain);
            }
            if e.domain == domain {
                if seen == index {
                    return Some(e);
                }
                seen = seen + 1;
            }
            i = i + 1;
        }
        assert(self.entries@.subrange(0, len as int) =~= self.entries@);
        None
    }
}

/// The entries of a domain in a prefix of the log are a prefix of the
/// domain's entries in the whole log.
pub proof fn lemma_domain_entries_prefix<C>(
    entries: Seq<PresentationDiagnostic<C>>,
    n: int,
    domain: PresentationDiagnosticDomain,
)
    requires
        0 <= n <= entries.len(),
    ensures
        domain_entries(entries.subrange(0, n), domain).len() <= domain_entries(entries, domain).len(),
        forall|k: int|
            0 <= k < domain_entries(entries.subrange(0, n), domain).len() ==> domain_entries(
                entries,
                domain,
            )[k] == domain_entries(entries.subrange(0, n), domain)[k],
    decreases entries.len() - n,
{
    if n < entries.len() {
        lemma_domain_entries_prefix(entries, n + 1, domain);
        let longer = entries.subrange(0, n + 1);
        assert(longer.drop_last() =~= entries.subrange(0, n));
    } else {
        assert(entries.subrange(0, n) =~= entries);
    }
}

/// A recorded diagnostic is the newest of its domain, and the other
/// domain's diagnostics are untouched by it.
pub proof fn lemma_recorded_diagnostic_is_newest<C>(
    entries: Seq<PresentationDiagnostic<C>>,
    diagnostic: PresentationDiagnostic<C>,
    other: PresentationDiagnosticDomain,
)
    requires
        other != diagnostic.domain,
    ensures
        domain_entries(entries.push(diagnostic), diagnostic.domain) == domain_entries(
            entries,
            diagnostic.domain,
        ).push(diagnostic),
        domain_entries(entries.push(diagnostic), other) == domain_entries(entries, other),
{
    assert(entries.push(diagnostic).drop_last() =~= entries);
}

/// A live ghost plate presentation: the product object it is captured
/// from, and its placement, capture and configuration.
#[derive(Debug)]
pub struct GhostPlate<P> {
    pub source_object_id: u64,
    pub presentation: P,
}

/// The live ghost plate presentations by handle.
#[derive(Debug)]
pub struct GhostPlateRegistry<P> {
    plates: HandleTable<GhostPlate<P>>,
    next_plate: u64,
}

fn ghost_plate_error() -> (e: CsharpEngineServicesError)
    ensures
        e.code_view() == "CSHARP_GHOST_PLATE_HANDLE"@,
{
    CsharpEngineServicesError::new(
        "CSHARP_GHOST_PLATE_HANDLE",
        String::from_str("ghost plate presentation is not live"),
    )
}

impl<P> GhostPlateRegistry<P> {
    /// The live ghost plates.
    pub closed spec fn plates_view(&self) -> Map<u64, GhostPlate<P>> {
        self.plates@
    }

    /// The handle the next ghost plate gets.
    pub closed spec fn next_plate_view(&self) -> u64 {
        self.next_plate
    }

    /// Handles are never reused.
    pub closed spec fn wf(&self) -> bool {
        &&& self.plates.wf()
        &&& self.plates.all_below(self.next_plate)
        &&& 1 <= self.next_plate
    }

    /// No ghost plates; handles start at one.
    pub fn new() -> (r: Self)
        ensures
            r.wf(),
            r.plates_view() == Map::<u64, GhostPlate<P>>::empty(),
            r.next_plate_view() == 1,
    {
        GhostPlateRegistry { plates: HandleTable::new(), next_plate: 1 }
    }

    /// The handle the next ghost plate gets, reserved before its creation
    /// is projected.
    pub fn reserve(&mut self) -> (r: Result<u64, CsharpEngineServicesError>)
        requires
            old(self).wf(),
        ensures
            final(self).wf(),
            final(self).plates_view() == old(self).plates_view(),
            r is Err <==> old(self).next_plate_view() == u64::MAX,
            r is Err ==> *final(self) == *old(self),
            r matches Err(e) ==> e.code_view() == "CSHARP_GHOST_PLATE_HANDLE"@,
            r matches Ok(h) ==> h == old(self).next_plate_view() && final(self).next_plate_view()
                == h + 1 && !old(self).plates_view().dom().contains(h),
    {
        let h = self.next_plate;
        if h == u64::MAX {
            return Err(
                CsharpEngineServicesError::new(
                    "CSHARP_GHOST_PLATE_HANDLE",
                    String::from_str("ghost plate handle space overflowed"),
                ),
            );
        }
        self.next_plate = h + 1;
        Ok(h)
    }

    /// Retains the ghost plate under a reserved handle once its creation
    /// was projected.
    pub fn insert(&mut self, handle: u64, plate: GhostPlate<P>)
        requires
            old(self).wf(),
            forall|k: u64| old(self).plates_view().dom().contains(k) ==> k < handle,
            handle < old(self).next_plate_view(),
        ensures
            final(self).wf(),
            final(self).plates_view() == old(self).plates_view().insert(handle, plate),
            final(self).next_plate_view() == old(self).next_plate_view(),
    {
        assert forall|j: u64| self.plates@.dom().contains(j) implies j < handle by {
            assert(old(self).plates_view().dom().contains(j));
        }
        self.plates.insert_new(handle, plate);
    }

    /// A live ghost plate.
    pub fn get(&self, handle: u64) -> (r: Result<&GhostPlate<P>, CsharpEngineServicesError>)
        requires
            self.wf(),
        ensures
            r is Ok <==> self.plates_view().dom().contains(handle),
            r matches Ok(p) ==> *p == self.plates_view()[handle],
            r matches Err(e) ==> e.code_view() == "CSHARP_GHOST_PLATE_HANDLE"@,
    {
        match self.plates.get(handle) {
            Some(p) => Ok(p),
            None => Err(ghost_plate_error()),
        }
    }

    /// Replaces a live ghost plate's presentation, keeping its source.
    pub fn update(&mut self, handle: u64, presentation: P) -> (r: Result<
        (),
        CsharpEngineServicesError,
    >)
        requires
            old(self).wf(),
        ensures
            final(self).wf(),
            final(self).next_plate_view() == old(self).next_plate_view(),
            r is Ok <==> old(self).plates_view().dom().contains(handle),
            r matches Err(e) ==> e.code_view() == "CSHARP_GHOST_PLATE_HANDLE"@,
            r is Err ==> final(self).plates_view() == old(self).plates_view(),
            r is Ok ==> final(self).plates_view() == old(self).plates_view().insert(
                handle,
                GhostPlate {
                    source_object_id: old(self).plates_view()[handle].source_object_id,
                    presentation,
                },
            ),
    {
        let source = match self.plates.get(handle) {
            Some(p) => p.source_object_id,
            None => {
                return Err(ghost_plate_error());
            },
        };
        self.plates.set_value(handle, GhostPlate { source_object_id: source, presentation });
        Ok(())
    }

    /// Disposes a live ghost plate, handing it back.
    pub fn remove(&mut self, handle: u64) -> (r: Result<GhostPlate<P>, CsharpEngineServicesError>)
        requires
            old(self).wf(),
        ensures
            final(self).wf(),
            final(self).next_plate_view() == old(self).next_plate_view(),
            r is Ok <==> old(self).plates_view().dom().contains(handle),
            r matches Ok(p) ==> p == old(self).plates_view()[handle],
            r matches Err(e) ==> e.code_view() == "CSHARP_GHOST_PLATE_HANDLE"@,
            final(self).plates_view() == old(self).plates_view().remove(handle),
    {
        match self.plates.remove(handle) {
            Some(p) => Ok(p),
            None => Err(ghost_plate_error()),
        }
    }

    /// The source objects of the live ghost plates, which a published
    /// snapshot must keep.
    pub fn sources(&self) -> (v: Vec<u64>)
        requires
            self.wf(),
        ensures
            forall|o: u64|
                v@.contains(o) <==> exists|h: u64| #[trigger]
                    self.plates_view().dom().contains(h) && self.plates_view()[h].source_object_id
                        == o,
    {
        let n = self.plates.len();
        let mut v: Vec<u64> = Vec::new();
        let mut i: usize = 0;
        while i < n
            invariant
                self.plates.wf(),
                n == self.plates.keys_seq().len(),
                n == self.plates.vals_seq().len(),
                i <= n,
                v@.len() == i,
                forall|k: int| 0 <= k < i ==> v@[k] == #[trigger] self.plates.vals_seq()[k].source_object_id,
            decreases n - i,
        {
            v.push(self.plates.value_at(i).source_object_id);
            i = i + 1;
        }
        proof {
            assert forall|o: u64| v@.contains(o) <==> exists|h: u64| #[trigger]
                self.plates_view().dom().contains(h) && self.plates_view()[h].source_object_id == o by {
                if v@.contains(o) {
                    let k = choose|k: int| 0 <= k < v@.len() && v@[k] == o;
                    self.plates.lemma_entry(k);
                    let h = self.plates.keys_seq()[k];
                    assert(self.plates_view().dom().contains(h));
                }
                if exists|h: u64| #[trigger]
                    self.plates_view().dom().contains(h) && self.plates_view()[h].source_object_id == o {
                    let h = choose|h: u64| #[trigger]
                        self.plates_view().dom().contains(h) && self.plates_view()[h].source_object_id
                            == o;
                    let k = self.plates.lemma_key(h);
                    assert(v@[k] == o);
                }
            }
        }
        v
    }
}

/// The error code of a billboard or particle emitter refusal.
pub open spec fn owner_code(domain: PresentationDiagnosticDomain) -> Seq<char> {
    match domain {
        PresentationDiagnosticDomain::Billboard => "CSHARP_PRESENTATION_BILLBOARD"@,
        PresentationDiagnosticDomain::Particle => "CSHARP_PRESENTATION_PARTICLE"@,
    }
}

fn owner_error(domain: PresentationDiagnosticDomain, detail: &str) -> (e: CsharpEngineServicesError)
    ensures
        e.code_view() == owner_code(domain),
{
    match domain {
        PresentationDiagnosticDomain::Billboard => CsharpEngineServicesError::new(
            "CSHARP_PRESENTATION_BILLBOARD",
            String::from_str(detail),
        ),
        PresentationDiagnosticDomain::Particle => CsharpEngineServicesError::new(
            "CSHARP_PRESENTATION_PARTICLE",
            String::from_str(detail),
        ),
    }
}

/// The live billboards or particle emitters of a product, each owned under
/// its nonzero logical id.
#[derive(Debug)]
pub struct PresentationOwners {
    domain: PresentationDiagnosticDomain,
    owners: HandleTable<u64>,
}

impl PresentationOwners {
    /// The family these owners belong to.
    pub closed spec fn domain_view(&self) -> PresentationDiagnosticDomain {
        self.domain
    }

    /// The live logical ids.
    pub closed spec fn owners_view(&self) -> Set<u64> {
        self.owners@.dom()
    }

    pub closed spec fn wf(&self) -> bool {
        &&& self.owners.wf()
        &&& forall|o: u64| #[trigger] self.owners@.dom().contains(o) ==> o != 0
    }

    /// No live owners of the given family.
    pub fn new(domain: PresentationDiagnosticDomain) -> (r: Self)
        ensures
            r.wf(),
            r.domain_view() == domain,
            r.owners_view() == Set::<u64>::empty(),
    {
        let r = PresentationOwners { domain, owners: HandleTable::new() };
        assert(r.owners@.dom() =~= Set::<u64>::empty());
        r
    }

    /// Checks the logical id of a new billboard or emitter: it must be
    /// nonzero.
    pub fn check_new(&self, logical_id: u64) -> (r: Result<(), CsharpEngineServicesError>)
        ensures
            r is Ok <==> logical_id != 0,
            r matches Err(e) ==> e.code_view() == owner_code(self.domain_view()),
    {
        if logical_id == 0 {
            return Err(owner_error(self.domain, "presentation logical id must be nonzero"));
        }
        Ok(())
    }

    /// Retains an owner once its creation was projected.
    pub fn insert(&mut self, logical_id: u64)
        requires
            old(self).wf(),
            logical_id != 0,
        ensures
            final(self).wf(),
            final(self).domain_view() == old(self).domain_view(),
            final(self).owners_view() == old(self).owners_view().insert(logical_id),
    {
        self.owners.insert(logical_id, logical_id);
        assert(self.owners@.dom() =~= old(self).owners@.dom().insert(logical_id));
    }

    /// Checks that an owner is live.
    pub fn require_live(&self, owner: u64) -> (r: Result<(), CsharpEngineServicesError>)
        requires
            self.wf(),
        ensures
            r is Ok <==> self.owners_view().contains(owner),
            r matches Err(e) ==> e.code_view() == owner_code(self.domain_view()),
    {
        if self.owners.contains(owner) {
            Ok(())
        } else {
            Err(owner_error(self.domain, "presentation owner is not live"))
        }
    }

    /// Releases an owner once its destruction was projected.
    pub fn remove(&mut self, owner: u64)
        requires
            old(self).wf(),
        ensures
            final(self).wf(),
            final(self).domain_view() == old(self).domain_view(),
            final(self).owners_view() == old(self).owners_view().remove(owner),
    {
        self.owners.remove(owner);
        assert(self.owners@.dom() =~= old(self).owners@.dom().remove(owner));
    }
}


/// The observations a snapshot of reports leaves: each reported handle
/// with the last report made for it.
pub open spec fn snapshot_of<F>(reports: Seq<(u64, F)>) -> Map<u64, F>
    decreases reports.len(),
{
    if reports.len() == 0 {
        Map::empty()
    } else {
        snapshot_of(reports.drop_last()).insert(reports.last().0, reports.last().1)
    }
}

/// A handle is observed after a snapshot exactly when some report of the
/// snapshot names it, and it keeps the value of the last such report.
pub proof fn lemma_snapshot_keeps_last_report<F>(reports: Seq<(u64, F)>, h: u64)
    ensures
        snapshot_of(reports).dom().contains(h) <==> exists|i: int|
            0 <= i < reports.len() && #[trigger] reports[i].0 == h,
        snapshot_of(reports).dom().contains(h) ==> exists|i: int|
            0 <= i < reports.len() && #[trigger] reports[i].0 == h && snapshot_of(reports)[h]
                == reports[i].1 && forall|j: int| i < j < reports.len() ==> reports[j].0 != h,
    decreases reports.len(),
{
    if reports.len() > 0 {
        let prefix = reports.drop_last();
        let n = reports.len() - 1;
        lemma_snapshot_keeps_last_report(prefix, h);
        if reports[n].0 == h {
            assert(snapshot_of(reports)[h] == reports[n].1);
            assert(forall|j: int| n < j < reports.len() ==> reports[j].0 != h);
        } else {
            if snapshot_of(prefix).dom().contains(h) {
                let i = choose|i: int|
                    0 <= i < prefix.len() && #[trigger] prefix[i].0 == h && snapshot_of(prefix)[h]
                        == prefix[i].1 && forall|j: int| i < j < prefix.len() ==> prefix[j].0 != h;
                assert(reports[i] == prefix[i]);
                assert(snapshot_of(reports)[h] == snapshot_of(prefix)[h]);
                assert forall|j: int| i < j < reports.len() implies reports[j].0 != h by {
                    if j < n {
                        assert(reports[j] == prefix[j]);
                    }
                }
                assert(reports[i].0 == h);
            }
            if exists|i: int| 0 <= i < reports.len() && #[trigger] reports[i].0 == h {
                let i = choose|i: int| 0 <= i < reports.len() && #[trigger] reports[i].0 == h;
                assert(i < n);
                assert(prefix[i].0 == h);
            }
        }
    }
}

/// The renderer's latest ghost plate observations by plate handle. Every
/// ingested report is a complete snapshot: it replaces whatever was
/// observed before, so a plate missing from it is no longer observed.
#[derive(Debug)]
pub struct GhostPlateObservations<F> {
    latest: HandleTable<F>,
}

impl<F> View for GhostPlateObservations<F> {
    type V = Map<u64, F>;

    closed spec fn view(&self) -> Map<u64, F> {
        self.latest@
    }
}

impl<F> GhostPlateObservations<F> {
    pub closed spec fn wf(&self) -> bool {
        self.latest.wf()
    }

    /// Nothing observed.
    pub fn new() -> (r: Self)
        ensures
            r.wf(),
            r@ == Map::<u64, F>::empty(),
    {
        GhostPlateObservations { latest: HandleTable::new() }
    }

    /// Replaces the observations with a report snapshot of
    /// `(plate handle, observation)` pairs.
    pub fn ingest(&mut self, reports: Vec<(u64, F)>)
        requires
            old(self).wf(),
        ensures
            final(self).wf(),
            final(self)@ == snapshot_of(reports@),
    {
        let ghost all = reports@;
        let mut rest = reports;
        let mut latest: HandleTable<F> = HandleTable::new();
        let ghost mut taken: int = 0;
        assert(all.subrange(0, 0) =~= Seq::<(u64, F)>::empty());
        while rest.len() > 0
            invariant
                latest.wf(),
                0 <= taken <= all.len(),
                rest@ == all.subrange(taken, all.len() as int),
                latest@ == snapshot_of(all.subrange(0, taken)),
            decreases rest.len(),
        {
            let (h, f) = rest.remove(0);
            proof {
                assert(all[taken] == (h, f));
                assert(all.subrange(0, taken + 1).drop_last() =~= all.subrange(0, taken));
                taken = taken + 1;
                assert(rest@ =~= all.subrange(taken, all.len() as int));
            }
            latest.insert(h, f);
        }
        assert(all.subrange(0, all.len() as int) =~= all);
        self.latest = latest;
    }

    /// The latest observation of a plate.
    pub fn get(&self, handle: u64) -> (r: Option<&F>)
        requires
            self.wf(),
        ensures
            r is Some <==> self@.dom().contains(handle),
            r matches Some(f) ==> *f == self@[handle],
    {
        self.latest.get(handle)
    }

    /// Forgets a disposed plate's observation.
    pub fn forget(&mut self, handle: u64)
        requires
            old(self).wf(),
        ensures
            final(self).wf(),
            final(self)@ == old(self)@.remove(handle),
    {
        self.latest.remove(handle);
    }

    /// How many plates are observed.
    pub fn len(&self) -> (n: usize)
        requires
            self.wf(),
        ensures
            n == self@.len(),
    {
        self.latest.len()
    }
}

} // verus!
