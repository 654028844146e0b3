//! The per-character memory index.
//!
//! The store holds, for every character with a memory unit, the ordered log
//! of its records. It does no input or output itself. A caller that keeps
//! the logs on a durable medium writes first and reports how the write went
//! as a [`WriteOutcome`]; the store changes only when the write was durable,
//! so the index and the medium never disagree.

use vstd::prelude::*;
use vstd::string::*;
use crate::error::EngineError;
use crate::record::{
    append_bounded, appended, clone_log, records_valid, validate_records, MemoryRecord,
};
use crate::table::Table;

verus! {

/// How the durable write that belongs to an operation went.
#[derive(Debug)]
pub enum WriteOutcome {
    /// The medium holds the new state.
    Durable,
    /// The medium still holds the old state; the text says why the write
    /// failed.
    Failed(String),
}

impl WriteOutcome {
    /// Why the write failed: empty for a write that was durable.
    pub open spec fn reason(self) -> Seq<char> {
        match self {
            WriteOutcome::Durable => Seq::empty(),
            WriteOutcome::Failed(why) => why@,
        }
    }

    /// Runtime form of [`WriteOutcome::reason`].
    pub fn reason_text(&self) -> (text: String)
        ensures
            text@ == self.reason(),
    {
        match self {
            WriteOutcome::Durable => String::new(),
            WriteOutcome::Failed(why) => why.clone(),
        }
    }
}

/// One memory unit as it was found on the durable medium.
#[derive(Debug)]
pub struct LoadedUnit {
    /// The identifier that the unit is named by.
    pub npc_id: String,
    /// The records it held, or `None` where it could not be decoded.
    pub records: Option<Vec<MemoryRecord>>,
}

/// Whether a character may stand in the name of a memory unit: a unit is
/// kept under its identifier as one plain name, so no separator of names
/// and no end-of-text mark.
pub open spec fn plain_char(c: char) -> bool {
    c != '/' && c != '\\' && c != '\0'
}

/// Whether an identifier can name a memory unit: it is not empty, holds
/// plain characters only, and is not one of the names `.` and `..`, which
/// a medium keeps for itself.
pub open spec fn names_a_unit(npc_id: Seq<char>) -> bool {
    &&& npc_id.len() > 0
    &&& forall|i: int| 0 <= i < npc_id.len() ==> plain_char(#[trigger] npc_id[i])
    &&& !(npc_id.len() <= 2 && forall|i: int| 0 <= i < npc_id.len() ==> #[trigger] npc_id[i] == '.')
}

/// Runtime form of [`names_a_unit`].
pub fn check_unit_name(npc_id: &String) -> (ok: bool)
    ensures
        ok == names_a_unit(npc_id@),
{
    let text = npc_id.as_str();
    let n: usize = text.unicode_len();
    if n == 0 {
        return false;
    }
    let mut dots_only = true;
    let mut i: usize = 0;
    while i < n
        invariant
            i <= n,
            n == text@.len(),
            text@ == npc_id@,
            forall|k: int| 0 <= k < i ==> plain_char(#[trigger] text@[k]),
            dots_only == (forall|k: int| 0 <= k < i ==> #[trigger] text@[k] == '.'),
        decreases n - i,
    {
        let c = text.get_char(i);
        if c == '/' || c == '\\' || c == '\0' {
            return false;
        }
        if c != '.' {
            dots_only = false;
        }
        i += 1;
    }
    !(dots_only && n <= 2)
}

/// The result of an operation that is checked first and written second: an
/// invalid input is refused before anything is written, and a failed write
/// is reported as such.
pub open spec fn durable_result(valid: bool, ack: WriteOutcome) -> Result<(), EngineError> {
    if !valid {
        Err(EngineError::ConfigInvalid)
    } else if ack is Failed {
        Err(EngineError::PersistenceFailed)
    } else {
        Ok(())
    }
}

/// The log that a mapping holds for a character: empty where it has none.
pub open spec fn log_of(index: Map<Seq<char>, Seq<MemoryRecord>>, npc_id: Seq<char>) -> Seq<
    MemoryRecord,
> {
    if index.contains_key(npc_id) {
        index[npc_id]
    } else {
        Seq::empty()
    }
}

/// The mapping after the records of one character were deleted: its unit
/// stays, empty; a character without a unit still has none.
pub open spec fn cleared(index: Map<Seq<char>, Seq<MemoryRecord>>, npc_id: Seq<char>) -> Map<
    Seq<char>,
    Seq<MemoryRecord>,
> {
    if index.contains_key(npc_id) {
        index.insert(npc_id, Seq::empty())
    } else {
        index
    }
}

/// A unit can be loaded if it was decoded and all its records have the
/// shape of a stored record.
pub open spec fn loadable(unit: LoadedUnit) -> bool {
    unit.records is Some && records_valid(unit.records->0@)
}

/// The index that a series of units found on the medium gives: each
/// loadable unit in turn, a unit under an identifier already taken being
/// skipped like a corrupt one.
pub open spec fn loaded_index(units: Seq<LoadedUnit>) -> Map<Seq<char>, Seq<MemoryRecord>>
    decreases units.len(),
{
    if units.len() == 0 {
        Map::empty()
    } else {
        let before = loaded_index(units.drop_last());
        let unit = units.last();
        if loadable(unit) && !before.contains_key(unit.npc_id@) {
            before.insert(unit.npc_id@, unit.records->0@)
        } else {
            before
        }
    }
}

/// The number of units of a series that are loaded.
pub open spec fn loaded_count(units: Seq<LoadedUnit>) -> nat
    decreases units.len(),
{
    if units.len() == 0 {
        0
    } else {
        let unit = units.last();
        if loadable(unit) && !loaded_index(units.drop_last()).contains_key(unit.npc_id@) {
            loaded_count(units.drop_last()) + 1
        } else {
            loaded_count(units.drop_last())
        }
    }
}

/// The logs that a table of record lists stands for.
spec fn logs_of(units: Map<Seq<char>, Vec<MemoryRecord>>) -> Map<Seq<char>, Seq<MemoryRecord>> {
    Map::new(|k: Seq<char>| units.contains_key(k), |k: Seq<char>| units[k]@)
}

/// The memory of all characters: one ordered log per character.
pub struct MemoryStore {
    units: Table<Vec<MemoryRecord>>,
}

impl MemoryStore {
    /// The store as a mapping from character identifier to log.
    pub closed spec fn view(&self) -> Map<Seq<char>, Seq<MemoryRecord>> {
        logs_of(self.units@)
    }

    /// The representation is consistent.
    pub closed spec fn inv(&self) -> bool {
        self.units.wf()
    }

    /// The store is consistent and every record in it has the shape of a
    /// stored record.
    pub open spec fn wf(&self) -> bool {
        &&& self.inv()
        &&& forall|id: Seq<char>| self@.contains_key(id) ==> records_valid(#[trigger] self@[id])
    }

    /// The log of a character: empty where it has no unit.
    pub open spec fn log(&self, npc_id: Seq<char>) -> Seq<MemoryRecord> {
        log_of(self@, npc_id)
    }

    /// A store without units.
    pub fn new() -> (store: Self)
        ensures
            store.wf(),
            store@ == Map::<Seq<char>, Seq<MemoryRecord>>::empty(),
    {
        let store = MemoryStore { units: Table::new() };
        assert(store@ =~= Map::<Seq<char>, Seq<MemoryRecord>>::empty());
        store
    }

    /// Whether the character has a memory unit.
    pub fn has_unit(&self, npc_id: &String) -> (found: bool)
        requires
            self.wf(),
        ensures
            found == self@.contains_key(npc_id@),
    {
        self.units.find(npc_id).is_some()
    }

    /// The records of a character in insertion order; an empty list where
    /// the character has no history.
    pub fn all(&self, npc_id: &String) -> (records: Vec<MemoryRecord>)
        requires
            self.wf(),
        ensures
            records@ == self.log(npc_id@),
            records_valid(records@),
    {
        match self.units.find(npc_id) {
            Some(i) => clone_log(self.units.value_at(i)),
            None => Vec::new(),
        }
    }

    /// The number of records of a character.
    pub fn count(&self, npc_id: &String) -> (n: usize)
        requires
            self.wf(),
        ensures
            n == self.log(npc_id@).len(),
    {
        match self.units.find(npc_id) {
            Some(i) => self.units.value_at(i).len(),
            None => 0,
        }
    }

    /// The log that [`MemoryStore::append`] would leave for the character:
    /// what a caller has to write before it can report the write as durable.
    pub fn stage_append(&self, npc_id: &String, record: &MemoryRecord, max_records: usize) -> (staged:
        Result<Vec<MemoryRecord>, EngineError>)
        requires
            self.wf(),
        ensures
            match staged {
                Ok(log) => record.is_valid() && log@ == appended(
                    self.log(npc_id@),
                    *record,
                    max_records as nat,
                ),
                Err(e) => !record.is_valid() && e == EngineError::ConfigInvalid,
            },
    {
        if !record.check() {
            return Err(EngineError::ConfigInvalid);
        }
        match self.units.find(npc_id) {
            Some(i) => Ok(append_bounded(self.units.value_at(i), record.clone(), max_records)),
            None => {
                let none: Vec<MemoryRecord> = Vec::new();
                Ok(append_bounded(&none, record.clone(), max_records))
            },
        }
    }

    /// Adds one record to the end of a character's log and drops the oldest
    /// records until at most `max_records` are left. An invalid record is
    /// refused, and nothing changes unless the write was durable.
    pub fn append(
        &mut self,
        npc_id: &String,
        record: MemoryRecord,
        max_records: usize,
        ack: WriteOutcome,
    ) -> (done: Result<(), EngineError>)
        requires
            old(self).wf(),
        ensures
            final(self).wf(),
            done == durable_result(record.is_valid(), ack),
            done is Ok ==> final(self)@ == old(self)@.insert(
                npc_id@,
                appended(old(self).log(npc_id@), record, max_records as nat),
            ),
            done is Err ==> final(self)@ == old(self)@,
    {
        if !record.check() {
            return Err(EngineError::ConfigInvalid);
        }
        match ack {
            WriteOutcome::Failed(_) => {
                return Err(EngineError::PersistenceFailed);
            },
            WriteOutcome::Durable => {},
        }
        match self.units.find(npc_id) {
            Some(i) => {
                assert(records_valid(self@[npc_id@]));
                let log = append_bounded(self.units.value_at(i), record, max_records);
                self.units.replace(i, log);
            },
            None => {
                let none: Vec<MemoryRecord> = Vec::new();
                let log = append_bounded(&none, record, max_records);
                self.units.insert_new(npc_id.clone(), log);
            },
        }
        proof {
            let new_log = appended(old(self).log(npc_id@), record, max_records as nat);
            assert(self@ =~= old(self)@.insert(npc_id@, new_log));
            assert forall|id: Seq<char>| self@.contains_key(id) implies records_valid(
                #[trigger] self@[id],
            ) by {
                if id != npc_id@ {
                    assert(self@[id] == old(self)@[id]);
                }
            }
        }
        Ok(())
    }

    /// Replaces a character's history by the given records, or seeds it. One
    /// invalid record refuses the whole list, and nothing changes unless the
    /// write was durable.
    pub fn import(&mut self, npc_id: &String, records: Vec<MemoryRecord>, ack: WriteOutcome) -> (done:
        Result<(), EngineError>)
        requires
            old(self).wf(),
        ensures
            final(self).wf(),
            done == durable_result(records_valid(records@), ack),
            done is Ok ==> final(self)@ == old(self)@.insert(npc_id@, records@),
            done is Err ==> final(self)@ == old(self)@,
    {
        match validate_records(&records) {
            Err(e) => {
                return Err(e);
            },
            Ok(_) => {},
        }
        match ack {
            WriteOutcome::Failed(_) => {
                return Err(EngineError::PersistenceFailed);
            },
            WriteOutcome::Durable => {},
        }
        let ghost imported = records@;
        match self.units.find(npc_id) {
            Some(i) => {
                self.units.replace(i, records);
            },
            None => {
                self.units.insert_new(npc_id.clone(), records);
            },
        }
        proof {
            assert(self@ =~= old(self)@.insert(npc_id@, imported));
            assert forall|id: Seq<char>| self@.contains_key(id) implies records_valid(
                #[trigger] self@[id],
            ) by {
                if id != npc_id@ {
                    assert(self@[id] == old(self)@[id]);
                }
            }
        }
        Ok(())
    }

    /// What a caller has to write before it can report the write that
    /// belongs to [`MemoryStore::clear`] as durable: an empty log where the
    /// character has a unit, and nothing where it has none.
    pub fn stage_clear(&self, npc_id: &String) -> (staged: Option<Vec<MemoryRecord>>)
        requires
            self.wf(),
        ensures
            staged is Some == self@.contains_key(npc_id@),
            staged is Some ==> staged->0@ == Seq::<MemoryRecord>::empty(),
    {
        if self.has_unit(npc_id) {
            Some(Vec::new())
        } else {
            None
        }
    }

    /// Deletes all records of a character and keeps its unit. Clearing a
    /// character that has no records, or no unit, succeeds and changes
    /// nothing. Nothing changes unless the write was durable.
    pub fn clear(&mut self, npc_id: &String, ack: WriteOutcome) -> (done: Result<(), EngineError>)
        requires
            old(self).wf(),
        ensures
            final(self).wf(),
            done == durable_result(true, ack),
            done is Ok ==> final(self)@ == cleared(old(self)@, npc_id@),
            done is Ok ==> final(self).log(npc_id@).len() == 0,
            done is Err ==> final(self)@ == old(self)@,
    {
        match ack {
            WriteOutcome::Failed(_) => {
                return Err(EngineError::PersistenceFailed);
            },
            WriteOutcome::Durable => {},
        }
        match self.units.find(npc_id) {
            Some(i) => {
                self.units.replace(i, Vec::new());
            },
            None => {},
        }
        proof {
            assert(self@ =~= cleared(old(self)@, npc_id@));
            assert forall|id: Seq<char>| self@.contains_key(id) implies records_valid(
                #[trigger] self@[id],
            ) by {
                if id != npc_id@ {
                    assert(self@[id] == old(self)@[id]);
                }
            }
        }
        Ok(())
    }

    /// Deletes the whole memory unit of a character. Removing a character
    /// that has no unit succeeds and changes nothing. Nothing changes unless
    /// the removal was durable.
    pub fn remove_npc(&mut self, npc_id: &String, ack: WriteOutcome) -> (done: Result<
        (),
        EngineError,
    >)
        requires
            old(self).wf(),
        ensures
            final(self).wf(),
            done == durable_result(true, ack),
            done is Ok ==> final(self)@ == old(self)@.remove(npc_id@),
            done is Ok ==> final(self).log(npc_id@).len() == 0,
            done is Err ==> final(self)@ == old(self)@,
    {
        match ack {
            WriteOutcome::Failed(_) => {
                return Err(EngineError::PersistenceFailed);
            },
            WriteOutcome::Durable => {},
        }
        match self.units.find(npc_id) {
            Some(i) => {
                let _ = self.units.remove_at(i);
            },
            None => {},
        }
        proof {
            assert(self@ =~= old(self)@.remove(npc_id@));
            assert forall|id: Seq<char>| self@.contains_key(id) implies records_valid(
                #[trigger] self@[id],
            ) by {
                assert(self@[id] == old(self)@[id]);
            }
        }
        Ok(())
    }

    /// Rebuilds the index from the units found on the durable medium and
    /// returns it with the number of units loaded. A unit that could not be
    /// decoded, or that holds an invalid record, is skipped; the others are
    /// loaded all the same.
    pub fn load_all(units: &Vec<LoadedUnit>) -> (loaded: (MemoryStore, usize))
        ensures
            loaded.0.wf(),
            loaded.0@ == loaded_index(units@),
            loaded.1 == loaded_count(units@),
    {
        let mut store = MemoryStore::new();
        let mut count: usize = 0;
        let mut i: usize = 0;
        while i < units.len()
            invariant
                i <= units.len(),
                store.wf(),
                store@ == loaded_index(units@.subrange(0, i as int)),
                count == loaded_count(units@.subrange(0, i as int)),
                count <= i,
            decreases units.len() - i,
        {
            let unit = &units[i];
            proof {
                let upto = units@.subrange(0, i + 1);
                assert(upto.drop_last() =~= units@.subrange(0, i as int));
                assert(upto.last() == units@[i as int]);
            }
            match &unit.records {
                Some(records) => {
                    if validate_records(records).is_ok() && !store.has_unit(&unit.npc_id) {
                        let done = store.import(&unit.npc_id, clone_log(records), WriteOutcome::Durable);
                        count += 1;
                    }
                },
                None => {},
            }
            i += 1;
        }
        assert(units@.subrange(0, units.len() as int) =~= units@);
        (store, count)
    }
}

/// What was imported is what is read back, record for record and in the
/// same order.
pub proof fn lemma_import_round_trip(
    index: Map<Seq<char>, Seq<MemoryRecord>>,
    npc_id: Seq<char>,
    records: Seq<MemoryRecord>,
)
    ensures
        log_of(index.insert(npc_id, records), npc_id) == records,
        forall|other: Seq<char>| other != npc_id ==> log_of(index.insert(npc_id, records), other)
            == log_of(index, other),
{
}

/// Clearing leaves no record, and clearing again changes nothing.
pub proof fn lemma_clear_idempotent(index: Map<Seq<char>, Seq<MemoryRecord>>, npc_id: Seq<char>)
    ensures
        log_of(cleared(index, npc_id), npc_id).len() == 0,
        cleared(cleared(index, npc_id), npc_id) == cleared(index, npc_id),
{
    assert(cleared(cleared(index, npc_id), npc_id) =~= cleared(index, npc_id));
}

/// A character whose unit was removed has no history, whatever it had
/// before.
pub proof fn lemma_removed_unit_is_empty(index: Map<Seq<char>, Seq<MemoryRecord>>, npc_id: Seq<char>)
    ensures
        !index.remove(npc_id).contains_key(npc_id),
        log_of(index.remove(npc_id), npc_id) == Seq::<MemoryRecord>::empty(),
{
}

} // verus!
