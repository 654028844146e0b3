//! The live sessions: which character has an evaluator right now.

use vstd::prelude::*;
use crate::error::EngineError;
use crate::evaluator::MemoryEmotionEvaluator;
use crate::table::{table_map, Table};

verus! {

/// The mapping from character identifier to its live evaluator. An
/// identifier has at most one evaluator at a time.
pub struct SessionRegistry {
    sessions: Table<MemoryEmotionEvaluator>,
}

impl SessionRegistry {
    /// The identifiers of the live sessions, in the order of their creation.
    pub closed spec fn ids(&self) -> Seq<Seq<char>> {
        self.sessions.keys()
    }

    /// The evaluators of the live sessions, each at the position of its
    /// identifier.
    pub closed spec fn evaluators(&self) -> Seq<MemoryEmotionEvaluator> {
        self.sessions.values()
    }

    /// The registry as a mapping from identifier to evaluator.
    pub open spec fn view(&self) -> Map<Seq<char>, MemoryEmotionEvaluator> {
        table_map(self.ids(), self.evaluators())
    }

    /// No identifier occurs twice, and every evaluator is well formed.
    pub open spec fn wf(&self) -> bool {
        &&& self.ids().no_duplicates()
        &&& self.ids().len() == self.evaluators().len()
        &&& forall|i: int| 0 <= i < self.evaluators().len() ==> (#[trigger] self.evaluators()[i]).wf()
    }

    /// A registry without sessions.
    pub fn new() -> (registry: Self)
        ensures
            registry.wf(),
            registry.ids() == Seq::<Seq<char>>::empty(),
            registry@ == Map::<Seq<char>, MemoryEmotionEvaluator>::empty(),
    {
        SessionRegistry { sessions: Table::new() }
    }

    /// The number of live sessions.
    pub fn len(&self) -> (n: usize)
        requires
            self.wf(),
        ensures
            n == self.ids().len(),
    {
        self.sessions.len()
    }

    /// Whether a session is live under the identifier.
    pub fn contains(&self, npc_id: &String) -> (found: bool)
        requires
            self.wf(),
        ensures
            found == self@.contains_key(npc_id@),
    {
        self.sessions.find(npc_id).is_some()
    }

    /// Registers an evaluator under an identifier. Fails with
    /// [`EngineError::AlreadyExists`], and changes nothing, exactly if a
    /// session is live under that identifier already.
    pub fn create(&mut self, npc_id: String, evaluator: MemoryEmotionEvaluator) -> (done: Result<
        (),
        EngineError,
    >)
        requires
            old(self).wf(),
            evaluator.wf(),
        ensures
            final(self).wf(),
            match done {
                Ok(_) => {
                    &&& !old(self)@.contains_key(npc_id@)
                    &&& final(self)@ == old(self)@.insert(npc_id@, evaluator)
                    &&& final(self).ids() == old(self).ids().push(npc_id@)
                    &&& final(self).evaluators() == old(self).evaluators().push(evaluator)
                },
                Err(e) => {
                    &&& e == EngineError::AlreadyExists
                    &&& old(self)@.contains_key(npc_id@)
                    &&& final(self)@ == old(self)@
                    &&& final(self).ids() == old(self).ids()
                    &&& final(self).evaluators() == old(self).evaluators()
                },
            },
    {
        match self.sessions.find(&npc_id) {
            Some(_) => Err(EngineError::AlreadyExists),
            None => {
                self.sessions.insert_new(npc_id, evaluator);
                Ok(())
            },
        }
    }

    /// The evaluator of a live session, or [`EngineError::NotFound`].
    pub fn evaluator(&self, npc_id: &String) -> (found: Result<
        &MemoryEmotionEvaluator,
        EngineError,
    >)
        requires
            self.wf(),
        ensures
            match found {
                Ok(evaluator) => {
                    &&& self@.contains_key(npc_id@)
                    &&& *evaluator == self@[npc_id@]
                    &&& evaluator.wf()
                },
                Err(e) => e == EngineError::NotFound && !self@.contains_key(npc_id@),
            },
    {
        match self.sessions.find(npc_id) {
            Some(i) => Ok(self.sessions.value_at(i)),
            None => Err(EngineError::NotFound),
        }
    }

    /// Ends a session and hands back its evaluator. Fails with
    /// [`EngineError::NotFound`], and changes nothing, exactly if no session
    /// is live under the identifier. Stored memory is not touched.
    pub fn remove(&mut self, npc_id: &String) -> (gone: Result<MemoryEmotionEvaluator, EngineError>)
        requires
            old(self).wf(),
        ensures
            final(self).wf(),
            match gone {
                Ok(evaluator) => {
                    &&& old(self)@.contains_key(npc_id@)
                    &&& evaluator == old(self)@[npc_id@]
                    &&& final(self)@ == old(self)@.remove(npc_id@)
                    &&& !final(self)@.contains_key(npc_id@)
                },
                Err(e) => {
                    &&& e == EngineError::NotFound
                    &&& !old(self)@.contains_key(npc_id@)
                    &&& final(self)@ == old(self)@
                    &&& final(self).ids() == old(self).ids()
                    &&& final(self).evaluators() == old(self).evaluators()
                },
            },
    {
        match self.sessions.find(npc_id) {
            Some(i) => {
                let evaluator = self.sessions.remove_at(i);
                Ok(evaluator)
            },
            None => Err(EngineError::NotFound),
        }
    }

    /// The live sessions in the order of their creation, each as its
    /// identifier and a copy of its evaluator.
    pub fn list(&self) -> (sessions: Vec<(String, MemoryEmotionEvaluator)>)
        requires
            self.wf(),
        ensures
            sessions@.len() == self.ids().len(),
            forall|i: int|
                0 <= i < sessions@.len() ==> (#[trigger] sessions@[i]).0@ == self.ids()[i]
                    && sessions@[i].1 == self.evaluators()[i],
    {
        let mut out: Vec<(String, MemoryEmotionEvaluator)> = Vec::new();
        let mut i: usize = 0;
        while i < self.sessions.len()
            invariant
                self.wf(),
                self.sessions.wf(),
                i <= self.ids().len(),
                out@.len() == i,
                forall|j: int|
                    0 <= j < i ==> (#[trigger] out@[j]).0@ == self.ids()[j] && out@[j].1
                        == self.evaluators()[j],
            decreases self.ids().len() - i,
        {
            let id = self.sessions.key_at(i).clone();
            let evaluator = self.sessions.value_at(i).clone();
            out.push((id, evaluator));
            i += 1;
        }
        out
    }
}

} // verus!
