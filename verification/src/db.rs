//! The persistence store: synchronous CRUD over models, tasks, per-model
//! status rows, and the nominated default model.

use vstd::prelude::*;
use crate::ids::{dec_digits, lemma_dec_digits_injective, u64_to_string};
use crate::kv::{assoc, Keyed, KvList};
use crate::types::{
    AIModelLoadingStatus, AITask, AITaskInput, Model, ModelInput, ModelType, StatusText,
};

verus! {

/// No key of `s` collides with a counter id the store may still assign.
pub open spec fn keys_fresh_from<T: Keyed>(s: Seq<T>, bound: nat) -> bool {
    forall|i: int, m: nat|
        #![trigger s[i].key_spec(), dec_digits(m)]
        0 <= i < s.len() && bound <= m ==> s[i].key_spec() != dec_digits(m)
}

/// The persistence store: models, tasks, per-model status rows, and the
/// nominated default language model. Ids the store assigns are drawn from a
/// counter, so a fresh id never collides with a stored one.
pub struct Ad4mDb {
    pub models: KvList<Model>,
    pub tasks: KvList<AITask>,
    pub statuses: KvList<AIModelLoadingStatus>,
    pub default_llm: Option<String>,
    pub next_id: u64,
}

impl Ad4mDb {
    /// Well-formed: unique keys everywhere, and ids yet to be assigned are
    /// not in use.
    pub open spec fn wf(self) -> bool {
        &&& self.models.wf()
        &&& self.tasks.wf()
        &&& self.statuses.wf()
        &&& keys_fresh_from(self.models@, self.next_id as nat)
        &&& keys_fresh_from(self.tasks@, self.next_id as nat)
    }

    /// An empty store.
    pub fn new() -> (r: Self)
        ensures
            r.wf(),
            r.models@ =~= Seq::<Model>::empty(),
            r.tasks@ =~= Seq::<AITask>::empty(),
            r.statuses@ =~= Seq::<AIModelLoadingStatus>::empty(),
            r.default_llm is None,
            r.next_id == 0,
    {
        Ad4mDb {
            models: KvList::new(),
            tasks: KvList::new(),
            statuses: KvList::new(),
            default_llm: None,
            next_id: 0,
        }
    }

    /// Draws the next unused id.
    fn fresh_id(&mut self) -> (r: String)
        requires
            old(self).wf(),
            old(self).next_id < u64::MAX,
        ensures
            final(self).wf(),
            r@ == dec_digits(old(self).next_id as nat),
            !old(self).models.has(r@),
            !old(self).tasks.has(r@),
            final(self).next_id == old(self).next_id + 1,
            final(self).models == old(self).models,
            final(self).tasks == old(self).tasks,
            final(self).statuses == old(self).statuses,
            final(self).default_llm == old(self).default_llm,
            keys_fresh_from(final(self).models@, final(self).next_id as nat),
            keys_fresh_from(final(self).tasks@, final(self).next_id as nat),
    {
        let id = u64_to_string(self.next_id);
        proof {
            crate::kv::lemma_assoc_mem(self.models@, id@);
            crate::kv::lemma_assoc_mem(self.tasks@, id@);
        }
        self.next_id = self.next_id + 1;
        id
    }

    /// Persists a new model under a fresh id, which it returns.
    pub fn add_model(&mut self, input: &ModelInput) -> (r: String)
        requires
            old(self).wf(),
            old(self).next_id < u64::MAX,
        ensures
            final(self).wf(),
            r@ == dec_digits(old(self).next_id as nat),
            !old(self).models.has(r@),
            final(self).models@ == old(self).models@.push(input.spec_with_id(r)),
            final(self).models.spec_get(r@) == Some(input.spec_with_id(r)),
            forall|k: Seq<char>|
                k != r@ ==> assoc(final(self).models@, k) == assoc(old(self).models@, k),
            final(self).tasks == old(self).tasks,
            final(self).statuses == old(self).statuses,
            final(self).default_llm == old(self).default_llm,
            final(self).next_id == old(self).next_id + 1,
    {
        let id = self.fresh_id();
        let model = input.with_id(id.clone());
        proof {
            assert forall|i: int, m: nat|
                #![trigger self.models@.push(model)[i].key_spec(), dec_digits(m)]
                0 <= i < self.models@.push(model).len() && self.next_id as nat <= m implies self
                .models@.push(model)[i].key_spec() != dec_digits(m) by {
                if i < self.models@.len() {
                    assert(self.models@.push(model)[i] == self.models@[i]);
                } else {
                    lemma_dec_digits_injective((self.next_id - 1) as nat, m);
                }
            }
        }
        self.models.upsert(model);
        id
    }

    /// The stored model with id `id`, if any.
    pub fn get_model(&self, id: &String) -> (r: Option<Model>)
        ensures
            match r {
                Some(m) => self.models.spec_get(id@) == Some(m),
                None => self.models.spec_get(id@) is None,
            },
    {
        match self.models.get(id) {
            Some(m) => Some(m.duplicate()),
            None => None,
        }
    }

    /// All stored models, in insertion order.
    pub fn get_models(&self) -> (r: Vec<Model>)
        ensures
            r@ == self.models@,
    {
        let mut out: Vec<Model> = Vec::new();
        let n = self.models.len();
        let mut i: usize = 0;
        while i < n
            invariant
                n == self.models@.len(),
                i <= n,
                out@ =~= self.models@.subrange(0, i as int),
            decreases n - i,
        {
            out.push(self.models.at(i).duplicate());
            proof {
                assert(out@ =~= self.models@.subrange(0, i as int + 1));
            }
            i = i + 1;
        }
        proof {
            assert(out@ =~= self.models@);
        }
        out
    }

    /// Replaces the stored model `id` with `input` (the id is kept). Returns
    /// whether such a model existed.
    pub fn update_model(&mut self, id: &String, input: &ModelInput) -> (r: bool)
        requires
            old(self).wf(),
        ensures
            final(self).wf(),
            r == old(self).models.has(id@),
            r ==> final(self).models.spec_get(id@) == Some(input.spec_with_id(*id)),
            r ==> exists|i: int|
                0 <= i < old(self).models@.len() && old(self).models@[i].key_spec() == id@
                    && final(self).models@ == old(self).models@.update(
                    i,
                    input.spec_with_id(*id),
                ),
            !r ==> final(self).models == old(self).models,
            forall|k: Seq<char>|
                k != id@ ==> assoc(final(self).models@, k) == assoc(old(self).models@, k),
            final(self).tasks == old(self).tasks,
            final(self).statuses == old(self).statuses,
            final(self).default_llm == old(self).default_llm,
            final(self).next_id == old(self).next_id,
    {
        if self.models.contains(id) {
            let ghost olds = self.models@;
            let model = input.with_id(id.clone());
            self.models.upsert(model);
            proof {
                let i = choose|i: int|
                    0 <= i < olds.len() && olds[i].key_spec() == model.key_spec() && self.models@
                        == olds.update(i, model);
                assert forall|x: int, m: nat|
                    #![trigger self.models@[x].key_spec(), dec_digits(m)]
                    0 <= x < self.models@.len() && self.next_id as nat <= m implies self.models@[
                    x].key_spec() != dec_digits(m) by {
                    if x != i {
                        assert(self.models@[x] == olds[x]);
                    } else {
                        assert(olds[i].key_spec() == id@);
                    }
                }
            }
            true
        } else {
            false
        }
    }

    /// Deletes the stored model `id`. Returns whether it existed.
    pub fn remove_model(&mut self, id: &String) -> (r: bool)
        requires
            old(self).wf(),
        ensures
            final(self).wf(),
            r == old(self).models.has(id@),
            final(self).models.spec_get(id@) is None,
            forall|k: Seq<char>|
                k != id@ ==> assoc(final(self).models@, k) == assoc(old(self).models@, k),
            r ==> exists|i: int|
                0 <= i < old(self).models@.len() && old(self).models@[i].key_spec() == id@
                    && final(self).models@ == old(self).models@.remove(i),
            !r ==> final(self).models == old(self).models,
            final(self).tasks == old(self).tasks,
            final(self).statuses == old(self).statuses,
            final(self).default_llm == old(self).default_llm,
            final(self).next_id == old(self).next_id,
    {
        let ghost olds = self.models@;
        let r = self.models.remove(id);
        proof {
            if assoc(olds, id@) is Some {
                let i = choose|i: int|
                    0 <= i < olds.len() && olds[i].key_spec() == id@ && self.models@ == olds.remove(
                        i,
                    );
                assert forall|x: int, m: nat|
                    #![trigger self.models@[x].key_spec(), dec_digits(m)]
                    0 <= x < self.models@.len() && self.next_id as nat <= m implies self.models@[
                    x].key_spec() != dec_digits(m) by {
                    let x0 = if x < i {
                        x
                    } else {
                        x + 1
                    };
                    assert(self.models@[x] == olds[x0]);
                }
            }
        }
        r.is_some()
    }

    /// Persists a new task under a fresh task id, which it returns.
    pub fn add_task(&mut self, input: &AITaskInput) -> (r: String)
        requires
            old(self).wf(),
            old(self).next_id < u64::MAX,
        ensures
            final(self).wf(),
            r@ == dec_digits(old(self).next_id as nat),
            !old(self).tasks.has(r@),
            final(self).tasks@.len() == old(self).tasks@.len() + 1,
            final(self).tasks@ == old(self).tasks@.push(final(self).tasks@.last()),
            final(self).tasks@.last()@ == input.spec_with_id(r@),
            final(self).tasks@.last().task_id == r,
            final(self).tasks@.last().model_id == input.model_id,
            final(self).tasks.spec_get(r@) == Some(final(self).tasks@.last()),
            forall|k: Seq<char>|
                k != r@ ==> assoc(final(self).tasks@, k) == assoc(old(self).tasks@, k),
            final(self).models == old(self).models,
            final(self).statuses == old(self).statuses,
            final(self).default_llm == old(self).default_llm,
            final(self).next_id == old(self).next_id + 1,
    {
        let id = self.fresh_id();
        let task = input.with_id(id.clone());
        proof {
            assert forall|i: int, m: nat|
                #![trigger self.tasks@.push(task)[i].key_spec(), dec_digits(m)]
                0 <= i < self.tasks@.push(task).len() && self.next_id as nat <= m implies self
                .tasks@.push(task)[i].key_spec() != dec_digits(m) by {
                if i < self.tasks@.len() {
                    assert(self.tasks@.push(task)[i] == self.tasks@[i]);
                } else {
                    lemma_dec_digits_injective((self.next_id - 1) as nat, m);
                }
            }
        }
        self.tasks.upsert(task);
        id
    }

    /// The stored task with id `id`, if any (a copy equal up to the view).
    pub fn get_task(&self, id: &String) -> (r: Option<AITask>)
        ensures
            match r {
                Some(t) => match self.tasks.spec_get(id@) {
                    Some(s) => crate::types::task_copy(t, s),
                    None => false,
                },
                None => self.tasks.spec_get(id@) is None,
            },
    {
        match self.tasks.get(id) {
            Some(t) => Some(t.duplicate()),
            None => None,
        }
    }

    /// All stored tasks, in insertion order (copies equal up to the view).
    pub fn get_tasks(&self) -> (r: Vec<AITask>)
        ensures
            r@.len() == self.tasks@.len(),
            forall|i: int|
                0 <= i < r@.len() ==> crate::types::task_copy(#[trigger] r@[i], self.tasks@[i]),
    {
        let mut out: Vec<AITask> = Vec::new();
        let n = self.tasks.len();
        let mut i: usize = 0;
        while i < n
            invariant
                n == self.tasks@.len(),
                i <= n,
                out@.len() == i,
                forall|j: int|
                    0 <= j < i ==> crate::types::task_copy(#[trigger] out@[j], self.tasks@[j]),
            decreases n - i,
        {
            out.push(self.tasks.at(i).duplicate());
            i = i + 1;
        }
        out
    }

    /// Replaces the stored task with `t.task_id` by `t`. Returns whether such
    /// a task existed.
    pub fn update_task(&mut self, t: &AITask) -> (r: bool)
        requires
            old(self).wf(),
        ensures
            final(self).wf(),
            r == old(self).tasks.has(t.task_id@),
            r ==> match final(self).tasks.spec_get(t.task_id@) {
                Some(x) => crate::types::task_copy(x, *t),
                None => false,
            },
            r ==> exists|i: int|
                0 <= i < old(self).tasks@.len() && old(self).tasks@[i].key_spec() == t.task_id@
                    && final(self).tasks@ == old(self).tasks@.update(i, final(self).tasks@[i])
                    && crate::types::task_copy(final(self).tasks@[i], *t),
            !r ==> final(self).tasks == old(self).tasks,
            forall|k: Seq<char>|
                k != t.task_id@ ==> assoc(final(self).tasks@, k) == assoc(old(self).tasks@, k),
            final(self).models == old(self).models,
            final(self).statuses == old(self).statuses,
            final(self).default_llm == old(self).default_llm,
            final(self).next_id == old(self).next_id,
    {
        if self.tasks.contains(&t.task_id) {
            let ghost olds = self.tasks@;
            let task = t.duplicate();
            self.tasks.upsert(task);
            proof {
                let i = choose|i: int|
                    0 <= i < olds.len() && olds[i].key_spec() == task.key_spec() && self.tasks@
                        == olds.update(i, task);
                assert(self.tasks@[i] == task);
                assert forall|x: int, m: nat|
                    #![trigger self.tasks@[x].key_spec(), dec_digits(m)]
                    0 <= x < self.tasks@.len() && self.next_id as nat <= m implies self.tasks@[
                    x].key_spec() != dec_digits(m) by {
                    if x != i {
                        assert(self.tasks@[x] == olds[x]);
                    } else {
                        assert(olds[i].key_spec() == t.task_id@);
                    }
                }
            }
            true
        } else {
            false
        }
    }

    /// Deletes the stored task `id`. Returns whether it existed.
    pub fn remove_task(&mut self, id: &String) -> (r: bool)
        requires
            old(self).wf(),
        ensures
            final(self).wf(),
            r == old(self).tasks.has(id@),
            final(self).tasks.spec_get(id@) is None,
            forall|k: Seq<char>|
                k != id@ ==> assoc(final(self).tasks@, k) == assoc(old(self).tasks@, k),
            r ==> exists|i: int|
                0 <= i < old(self).tasks@.len() && old(self).tasks@[i].key_spec() == id@
                    && final(self).tasks@ == old(self).tasks@.remove(i),
            !r ==> final(self).tasks == old(self).tasks,
            final(self).models == old(self).models,
            final(self).statuses == old(self).statuses,
            final(self).default_llm == old(self).default_llm,
            final(self).next_id == old(self).next_id,
    {
        let ghost olds = self.tasks@;
        let r = self.tasks.remove(id);
        proof {
            if assoc(olds, id@) is Some {
                let i = choose|i: int|
                    0 <= i < olds.len() && olds[i].key_spec() == id@ && self.tasks@ == olds.remove(
                        i,
                    );
                assert forall|x: int, m: nat|
                    #![trigger self.tasks@[x].key_spec(), dec_digits(m)]
                    0 <= x < self.tasks@.len() && self.next_id as nat <= m implies self.tasks@[
                    x].key_spec() != dec_digits(m) by {
                    let x0 = if x < i {
                        x
                    } else {
                        x + 1
                    };
                    assert(self.tasks@[x] == olds[x0]);
                }
            }
        }
        r.is_some()
    }

    /// The nominated default model of the given kind. Only language models
    /// have an observed default.
    pub fn get_default_model(&self, model_type: ModelType) -> (r: Option<String>)
        ensures
            model_type == ModelType::Llm ==> r == self.default_llm,
            model_type != ModelType::Llm ==> r is None,
    {
        if model_type == ModelType::Llm {
            crate::types::copy_opt_string(&self.default_llm)
        } else {
            None
        }
    }

    /// Nominates `id` as the default model of the given kind.
    pub fn set_default_model(&mut self, model_type: ModelType, id: &String)
        requires
            old(self).wf(),
        ensures
            final(self).wf(),
            model_type == ModelType::Llm ==> final(self).default_llm == Some(*id),
            model_type != ModelType::Llm ==> final(self).default_llm == old(self).default_llm,
            final(self).models == old(self).models,
            final(self).tasks == old(self).tasks,
            final(self).statuses == old(self).statuses,
            final(self).next_id == old(self).next_id,
    {
        if model_type == ModelType::Llm {
            self.default_llm = Some(id.clone());
        }
    }

    /// Upserts the status row of `model`: last writer wins.
    pub fn create_or_update_model_status(
        &mut self,
        model: &String,
        progress: u8,
        status: StatusText,
        downloaded: bool,
        loaded: bool,
    )
        requires
            old(self).wf(),
        ensures
            final(self).wf(),
            final(self).statuses.spec_get(model@) == Some(
                (AIModelLoadingStatus {
                    model: *model,
                    progress: progress,
                    status: status,
                    downloaded: downloaded,
                    loaded: loaded,
                }),
            ),
            forall|k: Seq<char>|
                k != model@ ==> assoc(final(self).statuses@, k) == assoc(old(self).statuses@, k),
            final(self).models == old(self).models,
            final(self).tasks == old(self).tasks,
            final(self).default_llm == old(self).default_llm,
            final(self).next_id == old(self).next_id,
    {
        let row = AIModelLoadingStatus {
            model: model.clone(),
            progress,
            status,
            downloaded,
            loaded,
        };
        self.statuses.upsert(row);
    }

    /// The status row of `id`, if any.
    pub fn get_model_status(&self, id: &String) -> (r: Option<AIModelLoadingStatus>)
        ensures
            match r {
                Some(s) => self.statuses.spec_get(id@) == Some(s),
                None => self.statuses.spec_get(id@) is None,
            },
    {
        match self.statuses.get(id) {
            Some(s) => Some(s.duplicate()),
            None => None,
        }
    }
}

} // verus!
