//! One remembered interaction, and logs of them.

use vstd::prelude::*;
use crate::emotion::EmotionPrediction;
use crate::error::EngineError;

verus! {

/// One durable fact: an interaction from `source_id` said `text` and evoked
/// `emotion` at `timestamp` (seconds since the epoch).
#[derive(Debug)]
pub struct MemoryRecord {
    pub source_id: Option<String>,
    pub text: String,
    pub emotion: EmotionPrediction,
    pub timestamp: u64,
}

impl Clone for MemoryRecord {
    fn clone(&self) -> (copy: Self)
        ensures
            copy == *self,
    {
        let source_id = match &self.source_id {
            Some(s) => Some(s.clone()),
            None => None,
        };
        MemoryRecord {
            source_id,
            text: self.text.clone(),
            emotion: self.emotion,
            timestamp: self.timestamp,
        }
    }
}

impl MemoryRecord {
    /// The shape that every stored record has: an affect in range and a
    /// text that is not empty.
    pub open spec fn is_valid(self) -> bool {
        self.emotion.is_valid() && self.text@.len() > 0
    }

    /// Whether the record came from the given source.
    pub open spec fn from_source(self, source: Seq<char>) -> bool {
        self.source_id is Some && self.source_id->0@ == source
    }

    /// Runtime form of [`MemoryRecord::is_valid`].
    pub fn check(&self) -> (ok: bool)
        ensures
            ok == self.is_valid(),
    {
        self.emotion.in_range() && !self.text.as_str().is_empty()
    }

    /// Runtime form of [`MemoryRecord::from_source`].
    pub fn is_from(&self, source: &String) -> (ok: bool)
        ensures
            ok == self.from_source(source@),
    {
        match &self.source_id {
            Some(s) => *s == *source,
            None => false,
        }
    }
}

/// Every record of the log has the shape of a stored record.
pub open spec fn records_valid(log: Seq<MemoryRecord>) -> bool {
    forall|i: int| 0 <= i < log.len() ==> (#[trigger] log[i]).is_valid()
}

/// The newest `cap` records of a log, in their order.
pub open spec fn retained(log: Seq<MemoryRecord>, cap: nat) -> Seq<MemoryRecord> {
    if log.len() > cap {
        log.subrange(log.len() - cap, log.len() as int)
    } else {
        log
    }
}

/// The log after one more record was added under a cap: the record goes to
/// the end, and the oldest records leave until at most `cap` are left.
pub open spec fn appended(log: Seq<MemoryRecord>, record: MemoryRecord, cap: nat) -> Seq<
    MemoryRecord,
> {
    retained(log.push(record), cap)
}

/// The log after a series of records was added one by one under a cap.
pub open spec fn appended_all(log: Seq<MemoryRecord>, records: Seq<MemoryRecord>, cap: nat) -> Seq<
    MemoryRecord,
>
    decreases records.len(),
{
    if records.len() == 0 {
        log
    } else {
        appended(appended_all(log, records.drop_last(), cap), records.last(), cap)
    }
}

/// Trimming before an addition changes nothing: the records that an earlier
/// trim removed would have left anyway.
pub proof fn lemma_appended_after_retained(log: Seq<MemoryRecord>, record: MemoryRecord, cap: nat)
    ensures
        appended(retained(log, cap), record, cap) == appended(log, record, cap),
{
    assert(appended(retained(log, cap), record, cap) =~= appended(log, record, cap));
}

/// Adding records one by one under a cap leaves the newest `cap` of all
/// records, oldest first. So the number of records kept is the number that
/// were there plus the number added, capped.
pub proof fn lemma_appended_all(log: Seq<MemoryRecord>, records: Seq<MemoryRecord>, cap: nat)
    requires
        records.len() > 0 || log.len() <= cap,
    ensures
        appended_all(log, records, cap) == retained(log + records, cap),
        appended_all(log, records, cap).len() == if log.len() + records.len() <= cap {
            log.len() + records.len()
        } else {
            cap
        },
    decreases records.len(),
{
    if records.len() == 0 {
        assert(log + records =~= log);
    } else {
        let front = records.drop_last();
        let before = appended_all(log, front, cap);
        assert((log + front).push(records.last()) =~= log + records);
        if front.len() == 0 {
            assert(log + front =~= log);
        } else {
            lemma_appended_all(log, front, cap);
            lemma_appended_after_retained(log + front, records.last(), cap);
        }
    }
}

/// Starting from an empty memory, as many records are kept as were added,
/// but no more than the cap.
pub proof fn lemma_count_from_empty(records: Seq<MemoryRecord>, cap: nat)
    ensures
        appended_all(Seq::empty(), records, cap).len() == if records.len() <= cap {
            records.len()
        } else {
            cap
        },
        appended_all(Seq::empty(), records, cap) == retained(records, cap),
{
    lemma_appended_all(Seq::empty(), records, cap);
    assert(Seq::<MemoryRecord>::empty() + records =~= records);
}

/// A copy of a log.
pub fn clone_log(log: &Vec<MemoryRecord>) -> (copy: Vec<MemoryRecord>)
    ensures
        copy@ == log@,
{
    let mut copy: Vec<MemoryRecord> = Vec::new();
    let mut i: usize = 0;
    while i < log.len()
        invariant
            i <= log.len(),
            copy@ == log@.subrange(0, i as int),
        decreases log.len() - i,
    {
        copy.push(log[i].clone());
        i += 1;
        assert(copy@ =~= log@.subrange(0, i as int));
    }
    assert(log@.subrange(0, log.len() as int) =~= log@);
    copy
}

/// Accepts a log whose records all have the shape of a stored record, and
/// rejects any other as [`EngineError::ConfigInvalid`].
pub fn validate_records(records: &Vec<MemoryRecord>) -> (checked: Result<(), EngineError>)
    ensures
        checked == if records_valid(records@) {
            Ok::<(), EngineError>(())
        } else {
            Err::<(), EngineError>(EngineError::ConfigInvalid)
        },
{
    let mut i: usize = 0;
    while i < records.len()
        invariant
            i <= records.len(),
            records_valid(records@.subrange(0, i as int)),
        decreases records.len() - i,
    {
        if !records[i].check() {
            return Err(EngineError::ConfigInvalid);
        }
        assert forall|j: int| 0 <= j < i + 1 implies (#[trigger] records@.subrange(
            0,
            i + 1,
        )[j]).is_valid() by {
            if j < i {
                assert(records@.subrange(0, i as int)[j].is_valid());
            }
        }
        i += 1;
    }
    assert(records@.subrange(0, records.len() as int) =~= records@);
    Ok(())
}

/// Computes [`appended`]: a new log that holds the newest records of `log`
/// followed by `record`, at most `cap` in all.
pub fn append_bounded(log: &Vec<MemoryRecord>, record: MemoryRecord, cap: usize) -> (out: Vec<
    MemoryRecord,
>)
    ensures
        out@ == appended(log@, record, cap as nat),
        records_valid(log@) && record.is_valid() ==> records_valid(out@),
{
    let mut out: Vec<MemoryRecord> = Vec::new();
    if cap == 0 {
        assert(out@ =~= appended(log@, record, 0));
        return out;
    }
    let keep: usize = cap - 1;
    let start: usize = if log.len() > keep {
        log.len() - keep
    } else {
        0
    };
    let mut i: usize = start;
    while i < log.len()
        invariant
            start <= i <= log.len(),
            out@ == log@.subrange(start as int, i as int),
        decreases log.len() - i,
    {
        out.push(log[i].clone());
        i += 1;
        assert(out@ =~= log@.subrange(start as int, i as int));
    }
    out.push(record);
    assert(out@ =~= appended(log@, record, cap as nat));
    out
}

} // verus!
