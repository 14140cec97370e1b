//! The crash store: the inputs whose execution met the objective, each
//! under a sequence number of its own.

use crate::objective::ExitStatus;
use vstd::prelude::*;

verus! {

/// One recorded crash.
#[derive(Debug)]
pub struct CrashRecord {
    /// The input that was executed.
    pub input: Vec<u8>,
    /// How its execution ended.
    pub status: ExitStatus,
}

/// What a list of records holds, as plain values.
pub open spec fn records_view(records: Seq<CrashRecord>) -> Seq<(Seq<u8>, ExitStatus)> {
    records.map_values(|record: CrashRecord| (record.input@, record.status))
}

/// The crash store. A record's sequence number is its position, so no two
/// records share one. No record has the status `Normal`: that holds of every
/// store, whatever was done to it.
pub struct CrashStore {
    records: Vec<CrashRecord>,
}

impl View for CrashStore {
    type V = Seq<(Seq<u8>, ExitStatus)>;

    closed spec fn view(&self) -> Seq<(Seq<u8>, ExitStatus)> {
        records_view(self.records@)
    }
}

impl CrashStore {
    #[verifier::type_invariant]
    spec fn no_normal_record(self) -> bool {
        forall|i: int|
            0 <= i < self.records@.len() ==> (#[trigger] self.records@[i]).status
                != ExitStatus::Normal
    }

    /// An empty store.
    pub fn new() -> (store: CrashStore)
        ensures
            store@ == Seq::<(Seq<u8>, ExitStatus)>::empty(),
    {
        let store = CrashStore { records: Vec::new() };
        assert(store@ =~= Seq::<(Seq<u8>, ExitStatus)>::empty());
        store
    }

    /// The number of records, none of which has the status `Normal`.
    pub fn len(&self) -> (count: usize)
        ensures
            count == self@.len(),
            forall|i: int| 0 <= i < self@.len() ==> (#[trigger] self@[i]).1 != ExitStatus::Normal,
    {
        proof {
            use_type_invariant(self);
            assert forall|i: int| 0 <= i < self@.len() implies (#[trigger] self@[i]).1
                != ExitStatus::Normal by {
                assert(self.records@[i].status != ExitStatus::Normal);
            }
        }
        self.records.len()
    }

    /// Records `input`, whose execution ended in `status`, and returns its
    /// sequence number. A normal execution is no crash: it is refused, and
    /// the store stays as it is.
    pub fn record(&mut self, input: Vec<u8>, status: ExitStatus) -> (id: Option<usize>)
        ensures
            status == ExitStatus::Normal ==> id is None && final(self)@ == old(self)@,
            status != ExitStatus::Normal ==> id == Some(old(self)@.len() as usize) && final(self)@
                == old(self)@.push((input@, status)),
    {
        match status {
            ExitStatus::Normal => None,
            _ => {
                proof {
                    use_type_invariant(&*self);
                }
                let mut records: Vec<CrashRecord> = Vec::new();
                std::mem::swap(&mut self.records, &mut records);
                let id = records.len();
                records.push(CrashRecord { input, status });
                self.records = records;
                assert(self@ =~= old(self)@.push((input@, status)));
                Some(id)
            },
        }
    }

    /// The record under sequence number `id`, or `None` if there is none.
    /// The status of a record is never `Normal`.
    pub fn get(&self, id: usize) -> (record: Option<&CrashRecord>)
        ensures
            id < self@.len() ==> record is Some && record->Some_0.input@ == self@[id as int].0
                && record->Some_0.status == self@[id as int].1 && record->Some_0.status
                != ExitStatus::Normal,
            id >= self@.len() ==> record is None,
    {
        proof {
            use_type_invariant(self);
        }
        if id < self.records.len() {
            Some(&self.records[id])
        } else {
            None
        }
    }
}

} // verus!
