//! A lazily loaded cache cell for one file.
//!
//! A compilation pass asks a cell for its content. The first request of a
//! pass loads the raw bytes; their fingerprint tells whether the decoded
//! value of an earlier pass can be kept. Later requests of the same pass
//! are answered from the cell without loading again.

use vstd::prelude::*;

use crate::world::{FileError, FileIdentity, IdView};

verus! {

/// The fingerprint of a load result (raw bytes, or the error that reading
/// gave).
pub uninterp spec fn fingerprint_of(loaded: Result<Seq<u8>, FileError>) -> u128;

/// The value of a load result as the contracts see it.
pub open spec fn loaded_view(loaded: Result<Vec<u8>, FileError>) -> Result<Seq<u8>, FileError> {
    match loaded {
        Ok(bytes) => Ok(bytes@),
        Err(e) => Err(e),
    }
}

/// Relies on typst::utils::hash128: a 128-bit SipHash with fixed keys, so
/// equal load results give equal fingerprints.
#[verifier::external_body]
fn fingerprint(loaded: &Result<Vec<u8>, FileError>) -> (r: u128)
    ensures
        r == fingerprint_of(loaded_view(*loaded)),
{
    typst::utils::hash128(loaded)
}

/// What `SlotCell::record_load` asks of the caller.
pub enum LoadStep<T> {
    /// The fingerprint did not change: the stored value stays.
    Unchanged,
    /// Loading failed; the error is now stored.
    Failed,
    /// New bytes arrived: decode them, with the previous decoded value as
    /// a starting point, and hand the result to `SlotCell::store`.
    Decode { bytes: Vec<u8>, previous: Option<T> },
}

/// The cache cell of one file.
pub struct SlotCell<T> {
    data: Option<Result<T, FileError>>,
    fingerprint: u128,
    accessed: bool,
}

/// The previous successfully decoded value held by `data`, if any.
pub open spec fn previous_value<T>(data: Option<Result<T, FileError>>) -> Option<T> {
    match data {
        Some(Ok(v)) => Some(v),
        _ => None,
    }
}

impl<T> SlotCell<T> {
    /// What the cell holds: a decoded value or a load error, if anything.
    pub closed spec fn slot_data(&self) -> Option<Result<T, FileError>> {
        self.data
    }

    /// The fingerprint of the last load.
    pub closed spec fn slot_fingerprint(&self) -> u128 {
        self.fingerprint
    }

    /// Whether the cell was asked for its content in the current pass.
    pub closed spec fn was_accessed(&self) -> bool {
        self.accessed
    }

    /// `r` is the answer of `access` on `c0`, which leaves `c1`.
    pub open spec fn access_post(c0: Self, c1: Self, r: bool) -> bool {
        &&& r == (c0.was_accessed() && c0.slot_data() is Some)
        &&& c1.was_accessed()
        &&& c1.slot_data() == c0.slot_data()
        &&& c1.slot_fingerprint() == c0.slot_fingerprint()
    }

    /// `step` is the answer of `record_load(loaded)` on `c0`, which leaves `c1`.
    pub open spec fn load_post(
        c0: Self,
        c1: Self,
        loaded: Result<Vec<u8>, FileError>,
        step: LoadStep<T>,
    ) -> bool {
        let fp = fingerprint_of(loaded_view(loaded));
        &&& c1.slot_fingerprint() == fp
        &&& c1.was_accessed() == c0.was_accessed()
        &&& if fp == c0.slot_fingerprint() && c0.slot_data() is Some {
            step is Unchanged && c1.slot_data() == c0.slot_data()
        } else {
            match loaded {
                Ok(bytes) => step == (LoadStep::Decode {
                    bytes,
                    previous: previous_value(c0.slot_data()),
                }) && c1.slot_data() is None,
                Err(e) => step is Failed && c1.slot_data() == Some(Err::<T, FileError>(e)),
            }
        }
    }

    /// `c1` is `c0` after `store(value)`.
    pub open spec fn store_post(c0: Self, c1: Self, value: Result<T, FileError>) -> bool {
        &&& c1.slot_data() == Some(value)
        &&& c1.was_accessed() == c0.was_accessed()
        &&& c1.slot_fingerprint() == c0.slot_fingerprint()
    }

    /// `c1` is `c0` after `reset`.
    pub open spec fn reset_post(c0: Self, c1: Self) -> bool {
        &&& !c1.was_accessed()
        &&& c1.slot_data() == c0.slot_data()
        &&& c1.slot_fingerprint() == c0.slot_fingerprint()
    }

    /// An empty cell, not accessed.
    pub fn new() -> (r: Self)
        ensures
            r.slot_data() is None,
            r.slot_fingerprint() == 0,
            !r.was_accessed(),
    {
        SlotCell { data: None, fingerprint: 0, accessed: false }
    }

    /// Whether the cell was accessed in the ongoing pass.
    pub fn accessed(&self) -> (r: bool)
        ensures
            r == self.was_accessed(),
    {
        self.accessed
    }

    /// Marks the cell as not accessed, for the next pass; the content stays.
    pub fn reset(&mut self)
        ensures
            Self::reset_post(*old(self), *final(self)),
    {
        self.accessed = false;
    }

    /// The content of the cell.
    pub fn get(&self) -> (r: Option<&Result<T, FileError>>)
        ensures
            r is None <==> self.slot_data() is None,
            r matches Some(v) ==> self.slot_data() == Some(*v),
    {
        self.data.as_ref()
    }

    /// Starts a request for the content. Returns true when the content is
    /// already current for this pass (read it with `get`); false when the
    /// caller must load the file and hand the result to `record_load`.
    pub fn access(&mut self) -> (r: bool)
        ensures
            Self::access_post(*old(self), *final(self), r),
    {
        let was = self.accessed;
        self.accessed = true;
        was && self.data.is_some()
    }

    /// Records the result of loading the file and says what is left to do.
    pub fn record_load(&mut self, loaded: Result<Vec<u8>, FileError>) -> (step: LoadStep<T>)
        ensures
            Self::load_post(*old(self), *final(self), loaded, step),
    {
        let fp = fingerprint(&loaded);
        self.record_fingerprinted_load(loaded, fp)
    }

    /// Records a load result whose fingerprint is `fp`: when it equals the
    /// last one and a value is stored, the value stays; otherwise an error
    /// is stored, or the new bytes are handed out for decoding with the
    /// previous decoded value.
    pub fn record_fingerprinted_load(&mut self, loaded: Result<Vec<u8>, FileError>, fp: u128) -> (step:
        LoadStep<T>)
        ensures
            final(self).slot_fingerprint() == fp,
            final(self).was_accessed() == old(self).was_accessed(),
            if fp == old(self).slot_fingerprint() && old(self).slot_data() is Some {
                step is Unchanged && final(self).slot_data() == old(self).slot_data()
            } else {
                match loaded {
                    Ok(bytes) => step == (LoadStep::Decode {
                        bytes,
                        previous: previous_value(old(self).slot_data()),
                    }) && final(self).slot_data() is None,
                    Err(e) => step is Failed && final(self).slot_data() == Some(Err::<T, FileError>(e)),
                }
            },
    {
        let before = self.fingerprint;
        self.fingerprint = fp;
        if before == fp && self.data.is_some() {
            return LoadStep::Unchanged;
        }
        let taken = self.data.take();
        let previous = match taken {
            Some(Ok(v)) => Some(v),
            _ => None,
        };
        match loaded {
            Ok(bytes) => LoadStep::Decode { bytes, previous },
            Err(e) => {
                self.data = Some(Err(e));
                LoadStep::Failed
            },
        }
    }

    /// Stores the decoded value (or the decoding error).
    pub fn store(&mut self, value: Result<T, FileError>)
        ensures
            Self::store_post(*old(self), *final(self), value),
    {
        self.data = Some(value);
    }
}

/// The cache cells of one file: its decoded source and its raw bytes.
pub struct FileSlot<S, B> {
    pub id: FileIdentity,
    pub source: SlotCell<S>,
    pub file: SlotCell<B>,
}

impl<S, B> FileSlot<S, B> {
    /// Whether either cell was read in the current pass.
    pub open spec fn slot_accessed(&self) -> bool {
        self.source.was_accessed() || self.file.was_accessed()
    }

    /// Whether the slot is as new: both cells empty and not read.
    pub open spec fn is_fresh(&self) -> bool {
        &&& self.source.slot_data() is None && self.source.slot_fingerprint() == 0
            && !self.source.was_accessed()
        &&& self.file.slot_data() is None && self.file.slot_fingerprint() == 0
            && !self.file.was_accessed()
    }

    /// `s1` is `s0` with both cells marked as not read, contents kept.
    pub open spec fn reset_from(s0: Self, s1: Self) -> bool {
        &&& s1.id@ == s0.id@
        &&& SlotCell::reset_post(s0.source, s1.source)
        &&& SlotCell::reset_post(s0.file, s1.file)
    }

    /// A fresh slot for `id`.
    pub fn new(id: FileIdentity) -> (r: Self)
        ensures
            r.id@ == id@,
            r.is_fresh(),
    {
        FileSlot { id, source: SlotCell::new(), file: SlotCell::new() }
    }

    /// Whether either cell was read in the current pass.
    pub fn accessed(&self) -> (r: bool)
        ensures
            r == self.slot_accessed(),
    {
        self.source.accessed() || self.file.accessed()
    }
}

/// The identities of the slots of `s` that were read in the current pass,
/// in order.
pub open spec fn accessed_ids<S, B>(s: Seq<FileSlot<S, B>>) -> Seq<IdView>
    decreases s.len(),
{
    if s.len() == 0 {
        Seq::empty()
    } else if s.last().slot_accessed() {
        accessed_ids(s.drop_last()).push(s.last().id@)
    } else {
        accessed_ids(s.drop_last())
    }
}

/// The cache slots of all files a compilation has asked for, one per
/// identity.
pub struct SlotTable<S, B> {
    slots: Vec<FileSlot<S, B>>,
}

impl<S, B> SlotTable<S, B> {
    /// The slots, in the order their files were first asked for.
    pub closed spec fn entries(&self) -> Seq<FileSlot<S, B>> {
        self.slots@
    }

    /// No two slots have the same identity.
    pub open spec fn wf(&self) -> bool {
        forall|i: int, j: int|
            0 <= i < self.entries().len() && 0 <= j < self.entries().len() && i != j
                ==> self.entries()[i].id@ != self.entries()[j].id@
    }

    /// An empty table.
    pub fn new() -> (r: Self)
        ensures
            r.wf(),
            r.entries().len() == 0,
    {
        SlotTable { slots: Vec::new() }
    }

    /// The number of slots.
    pub fn len(&self) -> (r: usize)
        ensures
            r == self.entries().len(),
    {
        self.slots.len()
    }

    /// The index of the slot of `id`, which is added, fresh, when `id` has
    /// none yet.
    pub fn index_for(&mut self, id: &FileIdentity) -> (i: usize)
        requires
            old(self).wf(),
        ensures
            final(self).wf(),
            i < final(self).entries().len(),
            final(self).entries()[i as int].id@ == id@,
            (exists|j: int| 0 <= j < old(self).entries().len() && old(self).entries()[j].id@ == id@)
                ==> final(self).entries() == old(self).entries(),
            !(exists|j: int| 0 <= j < old(self).entries().len() && old(self).entries()[j].id@ == id@)
                ==> i == old(self).entries().len() && final(self).entries().len() == i + 1
                && final(self).entries().subrange(0, i as int) == old(self).entries()
                && final(self).entries()[i as int].is_fresh(),
    {
        let mut i: usize = 0;
        while i < self.slots.len()
            invariant
                self.wf(),
                i <= self.slots@.len(),
                forall|j: int| 0 <= j < i ==> (#[trigger] self.slots@[j]).id@ != id@,
            decreases self.slots@.len() - i,
        {
            if self.slots[i].id.same(id) {
                return i;
            }
            i = i + 1;
        }
        let ghost before = self.slots@;
        self.slots.push(FileSlot::new(id.duplicate()));
        assert(self.slots@.subrange(0, i as int) =~= before);
        i
    }

    /// The two cells of slot `i`, to read and update.
    pub fn cells(&mut self, i: usize) -> ((source, file): (&mut SlotCell<S>, &mut SlotCell<B>))
        requires
            i < old(self).entries().len(),
        ensures
            *source == old(self).entries()[i as int].source,
            *file == old(self).entries()[i as int].file,
            final(self).entries() == old(self).entries().update(
                i as int,
                FileSlot { id: old(self).entries()[i as int].id, source: *final(source), file: *final(file) },
            ),
    {
        let slot = &mut self.slots[i];
        (&mut slot.source, &mut slot.file)
    }

    /// Starts a compilation pass: every slot is marked as not read; the
    /// cached contents stay.
    pub fn reset_pass(&mut self)
        requires
            old(self).wf(),
        ensures
            final(self).wf(),
            final(self).entries().len() == old(self).entries().len(),
            forall|i: int|
                0 <= i < old(self).entries().len() ==> FileSlot::reset_from(
                    #[trigger] old(self).entries()[i],
                    final(self).entries()[i],
                ),
    {
        let ghost start = self.slots@;
        let mut i: usize = 0;
        while i < self.slots.len()
            invariant
                i <= self.slots@.len(),
                self.slots@.len() == start.len(),
                forall|j: int| 0 <= j < i ==> FileSlot::reset_from(#[trigger] start[j], self.slots@[j]),
                forall|j: int| i <= j < start.len() ==> #[trigger] self.slots@[j] == start[j],
                forall|a: int, b: int|
                    0 <= a < start.len() && 0 <= b < start.len() && a != b ==> start[a].id@
                        != start[b].id@,
            decreases self.slots@.len() - i,
        {
            let slot = &mut self.slots[i];
            slot.source.reset();
            slot.file.reset();
            i = i + 1;
        }
        assert forall|a: int, b: int|
            0 <= a < self.slots@.len() && 0 <= b < self.slots@.len() && a != b implies self.slots@[a].id@
                != self.slots@[b].id@ by {
            assert(FileSlot::reset_from(start[a], self.slots@[a]));
            assert(FileSlot::reset_from(start[b], self.slots@[b]));
        }
    }

    /// The identities of the files read in the current pass, in the order
    /// they were first asked for.
    pub fn accessed_identities(&self) -> (r: Vec<FileIdentity>)
        ensures
            r@.map_values(|id: FileIdentity| id@) == accessed_ids(self.entries()),
    {
        let mut out: Vec<FileIdentity> = Vec::new();
        let mut i: usize = 0;
        while i < self.slots.len()
            invariant
                i <= self.slots@.len(),
                out@.map_values(|id: FileIdentity| id@) == accessed_ids(self.slots@.subrange(0, i as int)),
            decreases self.slots@.len() - i,
        {
            let ghost prefix = self.slots@.subrange(0, i as int);
            assert(self.slots@.subrange(0, i + 1).drop_last() =~= prefix);
            if self.slots[i].accessed() {
                let ghost before = out@;
                out.push(self.slots[i].id.duplicate());
                assert(out@.map_values(|id: FileIdentity| id@) =~= before.map_values(
                    |id: FileIdentity| id@,
                ).push(self.slots@[i as int].id@));
            }
            i = i + 1;
        }
        assert(self.slots@.subrange(0, self.slots@.len() as int) =~= self.slots@);
        out
    }
}

/// Within one pass a file is loaded at most once: after a request that
/// loaded it (and stored its decoded value, if there was one to decode), the
/// next request is answered from the cell, with the content left as it was.
pub proof fn lemma_loaded_once_per_pass<T>(
    c0: SlotCell<T>,
    c1: SlotCell<T>,
    c2: SlotCell<T>,
    c3: SlotCell<T>,
    c4: SlotCell<T>,
    loaded: Result<Vec<u8>, FileError>,
    step: LoadStep<T>,
    value: Result<T, FileError>,
    again: bool,
)
    requires
        SlotCell::access_post(c0, c1, false),
        SlotCell::load_post(c1, c2, loaded, step),
        step is Decode ==> SlotCell::store_post(c2, c3, value),
        !(step is Decode) ==> c3 == c2,
        SlotCell::access_post(c3, c4, again),
    ensures
        again,
        c4.slot_data() == c3.slot_data(),
{
}

/// A new pass loads the file again, but when the load gives what the
/// last load of the previous pass gave, the stored value is kept and
/// nothing is decoded.
pub proof fn lemma_unchanged_file_kept_across_passes<T>(
    c0: SlotCell<T>,
    c1: SlotCell<T>,
    c2: SlotCell<T>,
    c3: SlotCell<T>,
    c4: SlotCell<T>,
    c5: SlotCell<T>,
    first: Result<Vec<u8>, FileError>,
    first_step: LoadStep<T>,
    value: Result<T, FileError>,
    again: bool,
    second: Result<Vec<u8>, FileError>,
    second_step: LoadStep<T>,
)
    requires
        SlotCell::load_post(c0, c1, first, first_step),
        first_step is Decode ==> SlotCell::store_post(c1, c2, value),
        !(first_step is Decode) ==> c2 == c1,
        SlotCell::reset_post(c2, c3),
        SlotCell::access_post(c3, c4, again),
        SlotCell::load_post(c4, c5, second, second_step),
        loaded_view(second) == loaded_view(first),
    ensures
        !again,
        second_step is Unchanged,
        c5.slot_data() == c2.slot_data(),
{
}

/// When the fingerprint of the new bytes differs from the last one, the
/// caller is asked to decode exactly those bytes, given the previous decoded
/// value.
pub proof fn lemma_changed_file_decoded<T>(
    c0: SlotCell<T>,
    c1: SlotCell<T>,
    bytes: Vec<u8>,
    step: LoadStep<T>,
)
    requires
        SlotCell::load_post(c0, c1, Ok(bytes), step),
        fingerprint_of(Ok(bytes@)) != c0.slot_fingerprint(),
    ensures
        step == (LoadStep::Decode { bytes, previous: previous_value(c0.slot_data()) }),
{
}

} // verus!
