use vstd::prelude::*;

use crate::task::{Task, TaskView};

verus! {

/// Holds exactly when some task in `s` carries the identifier `id`.
pub open spec fn has_id(s: Seq<TaskView>, id: u128) -> bool {
    exists|i: int| 0 <= i < s.len() && s[i].id == id
}

/// Holds exactly when `i` is the first position in `s` whose task carries
/// the identifier `id`.
pub open spec fn first_match(s: Seq<TaskView>, id: u128, i: int) -> bool {
    &&& 0 <= i < s.len()
    &&& s[i].id == id
    &&& forall|j: int| 0 <= j < i ==> s[j].id != id
}

/// The task `t` with its completion flag set.
pub open spec fn mark_completed(t: TaskView) -> TaskView {
    TaskView { completed: true, ..t }
}

/// Holds exactly when no two tasks in `s` share an identifier.
pub open spec fn ids_unique(s: Seq<TaskView>) -> bool {
    forall|i: int, j: int| 0 <= i < j < s.len() ==> s[i].id != s[j].id
}

/// Relates a store's tasks before and after completing `id`: if some task
/// carries `id`, the first such task has its completion flag set and every
/// other task is untouched; otherwise nothing changes.
pub open spec fn complete_post(pre: Seq<TaskView>, post: Seq<TaskView>, id: u128) -> bool {
    if has_id(pre, id) {
        exists|i: int|
            #[trigger] first_match(pre, id, i) && post == pre.update(i, mark_completed(pre[i]))
    } else {
        post == pre
    }
}

/// The in-memory owner of all task records: an ordered sequence, insertion
/// order preserved, identifiers unique. Tasks enter only through the add
/// operations and are never removed; only a task's completion flag ever
/// changes, through [`TodoList::complete_task`].
pub struct TodoList {
    data: Vec<Task>,
}

impl View for TodoList {
    type V = Seq<TaskView>;

    closed spec fn view(&self) -> Seq<TaskView> {
        self.data@.map_values(|t: Task| t@)
    }
}

impl TodoList {
    /// Every store holds pairwise distinct task identifiers.
    #[verifier::type_invariant]
    spec fn wf(self) -> bool {
        ids_unique(self@)
    }

    /// Returns a new, empty store.
    pub fn initialize() -> (s: TodoList)
        ensures
            s@ == Seq::<TaskView>::empty(),
            ids_unique(s@),
    {
        let s = TodoList { data: Vec::new() };
        proof {
            assert(s@ =~= Seq::<TaskView>::empty());
        }
        s
    }

    /// Returns the position of the first stored task carrying `id`, if any.
    fn find_index(&self, id: u128) -> (r: Option<usize>)
        ensures
            match r {
                Some(i) => first_match(self@, id, i as int),
                None => !has_id(self@, id),
            },
    {
        let n = self.data.len();
        let mut i: usize = 0;
        while i < n
            invariant
                n == self.data.len(),
                i <= n,
                self@.len() == n,
                forall|j: int| 0 <= j < i ==> self@[j].id != id,
            decreases n - i,
        {
            let t = &self.data[i];
            if t.id == id {
                proof {
                    assert(self@[i as int].id == id);
                }
                return Some(i);
            }
            i += 1;
        }
        None
    }

    /// Returns whether some stored task carries the identifier `id`.
    fn contains_id(&self, id: u128) -> (found: bool)
        ensures
            found == has_id(self@, id),
    {
        match self.find_index(id) {
            Some(i) => {
                proof {
                    assert(self@[i as int].id == id);
                }
                true
            },
            None => false,
        }
    }

    /// Returns an identifier that no stored task carries. The first choice
    /// is a freshly drawn random identifier; in the vanishingly unlikely
    /// event of a collision, the candidates `0, 1, ...` are scanned instead,
    /// of which more exist than the store holds tasks.
    fn fresh_id(&self) -> (id: u128)
        ensures
            !has_id(self@, id),
    {
        let candidate = generate_id();
        if !self.contains_id(candidate) {
            return candidate;
        }
        let n = self.data.len();
        proof {
            assert(self@.len() == n);
        }
        let bound: u128 = n as u128;
        let mut k: u128 = 0;
        while k <= bound
            invariant
                bound == self@.len(),
                bound < u128::MAX,
                k <= bound + 1,
                forall|c: u128| c < k ==> has_id(self@, c),
            decreases bound + 1 - k,
        {
            if !self.contains_id(k) {
                return k;
            }
            k += 1;
        }
        proof {
            lemma_unused_small_id_exists(self@);
            assert(false);
        }
        0
    }

    /// Returns a copy of the first stored task carrying `id`, if any.
    fn find_task(&self, id: u128) -> (r: Option<Task>)
        ensures
            match r {
                Some(t) => exists|i: int| #[trigger] first_match(self@, id, i) && t@ == self@[i],
                None => !has_id(self@, id),
            },
    {
        match self.find_index(id) {
            Some(i) => {
                let t = &self.data[i];
                let found = Task {
                    id: t.id,
                    description: t.description.clone(),
                    completed: t.completed,
                };
                proof {
                    assert(found@ == self@[i as int]);
                }
                Some(found)
            },
            None => None,
        }
    }

    /// Appends a task whose identifier no stored task carries.
    fn append_task(&mut self, t: Task)
        requires
            !has_id(old(self)@, t@.id),
        ensures
            final(self)@ == old(self)@.push(t@),
    {
        proof {
            use_type_invariant(&*self);
        }
        let ghost pre = self@;
        let mut data: Vec<Task> = Vec::new();
        std::mem::swap(&mut data, &mut self.data);
        data.push(t);
        proof {
            let post = data@.map_values(|x: Task| x@);
            assert(post =~= pre.push(t@));
            assert forall|i: int, j: int| 0 <= i < j < post.len() implies post[i].id
                != post[j].id by {
                if j < pre.len() {
                    assert(post[i] == pre[i] && post[j] == pre[j]);
                } else {
                    assert(post[i] == pre[i] && post[j] == t@);
                    if pre[i].id == t@.id {
                        assert(has_id(pre, t@.id));
                    }
                }
            }
        }
        std::mem::swap(&mut data, &mut self.data);
    }

    /// Creates a task with a fresh identifier, `completed == false`, and the
    /// given description, appends it to the store, and returns a copy of it.
    /// Always succeeds; any description is accepted.
    pub fn add_task(&mut self, description: &str) -> (t: Task)
        ensures
            final(self)@ == old(self)@.push(t@),
            t@.description == description@,
            t@.completed == false,
            !has_id(old(self)@, t@.id),
            ids_unique(final(self)@),
    {
        let id = self.fresh_id();
        let stored = Task { id, description: description.to_string(), completed: false };
        let returned = Task { id, description: description.to_string(), completed: false };
        proof {
            assert(stored@ == returned@);
        }
        self.append_task(stored);
        proof {
            use_type_invariant(&*self);
        }
        returned
    }

    /// Like [`TodoList::add_task`], but re-queries the store by the generated
    /// identifier and returns the stored copy, signalling an absent result if
    /// the lookup were ever to miss what was just inserted. Under this store's
    /// exclusive single-owner model the lookup always succeeds, so the result
    /// is always present; the optional shape mirrors a backing store whose
    /// write might not be confirmed.
    pub fn add_task_best_practice(&mut self, description: &str) -> (r: Option<Task>)
        ensures
            match r {
                Some(t) => {
                    &&& final(self)@ == old(self)@.push(t@)
                    &&& t@.description == description@
                    &&& t@.completed == false
                    &&& !has_id(old(self)@, t@.id)
                },
                None => false,
            },
            ids_unique(final(self)@),
    {
        let ghost pre = self@;
        let id = self.fresh_id();
        let stored = Task { id, description: description.to_string(), completed: false };
        let ghost stored_view = stored@;
        self.append_task(stored);
        proof {
            assert(self@[pre.len() as int] == stored_view);
            use_type_invariant(&*self);
        }
        match self.find_task(id) {
            Some(t) => {
                proof {
                    let i = choose|i: int|
                        #[trigger] first_match(self@, id, i) && t@ == self@[i];
                    if i < pre.len() {
                        assert(pre[i].id == id);
                        assert(has_id(pre, id));
                    }
                    assert(i == pre.len());
                    assert(t@ == stored_view);
                }
                Some(t)
            },
            None => {
                proof {
                    assert(has_id(self@, id));
                }
                None
            },
        }
    }

    /// Scans for the first task carrying `id`. If one exists, sets its
    /// completion flag and returns a copy of the updated task; completing an
    /// already completed task changes nothing. If none exists, leaves the
    /// store entirely unchanged and returns the absent result — an expected
    /// outcome, not an error.
    pub fn complete_task(&mut self, id: u128) -> (r: Option<Task>)
        ensures
            complete_post(old(self)@, final(self)@, id),
            r is Some <==> has_id(old(self)@, id),
            match r {
                Some(t) => exists|i: int|
                    #[trigger] first_match(old(self)@, id, i) && t@ == mark_completed(
                        old(self)@[i],
                    ),
                None => final(self)@ == old(self)@,
            },
            ids_unique(final(self)@),
    {
        proof {
            use_type_invariant(&*self);
        }
        let ghost pre = self@;
        match self.find_index(id) {
            None => None,
            Some(i) => {
                let mut data: Vec<Task> = Vec::new();
                std::mem::swap(&mut data, &mut self.data);
                let t = data.remove(i);
                let description_copy = t.description.clone();
                let updated = Task { id: t.id, description: t.description, completed: true };
                let returned = Task { id: t.id, description: description_copy, completed: true };
                data.insert(i, updated);
                proof {
                    let post = data@.map_values(|x: Task| x@);
                    assert(post =~= pre.update(i as int, mark_completed(pre[i as int])));
                    assert forall|a: int, b: int| 0 <= a < b < post.len() implies post[a].id
                        != post[b].id by {
                        assert(post[a].id == pre[a].id && post[b].id == pre[b].id);
                    }
                }
                std::mem::swap(&mut data, &mut self.data);
                proof {
                    assert(pre[i as int].id == id);
                    assert(self@ == pre.update(i as int, mark_completed(pre[i as int])));
                    assert(returned@ == mark_completed(pre[i as int]));
                }
                Some(returned)
            },
        }
    }

    /// Returns copies of all stored tasks, in insertion order.
    pub fn list_tasks(&self) -> (r: Vec<Task>)
        ensures
            r@.len() == self@.len(),
            forall|i: int| 0 <= i < self@.len() ==> r@[i]@ == self@[i],
    {
        let n = self.data.len();
        let mut r: Vec<Task> = Vec::new();
        let mut i: usize = 0;
        while i < n
            invariant
                n == self.data.len(),
                self@.len() == n,
                i <= n,
                r@.len() == i,
                forall|j: int| 0 <= j < i ==> r@[j]@ == self@[j],
            decreases n - i,
        {
            let t = &self.data[i];
            r.push(Task { id: t.id, description: t.description.clone(), completed: t.completed });
            i += 1;
        }
        r
    }

    /// Like [`TodoList::list_tasks`], but hands out references to the stored
    /// tasks instead of owned copies, as an external consumer of the store
    /// would receive them. Same contents, in the same insertion order.
    pub fn list_tasks_best_practice(&self) -> (r: Vec<&Task>)
        ensures
            r@.len() == self@.len(),
            forall|i: int| 0 <= i < self@.len() ==> r@[i]@ == self@[i],
    {
        let n = self.data.len();
        let mut r: Vec<&Task> = Vec::new();
        let mut i: usize = 0;
        while i < n
            invariant
                n == self.data.len(),
                self@.len() == n,
                i <= n,
                r@.len() == i,
                forall|j: int| 0 <= j < i ==> r@[j]@ == self@[j],
            decreases n - i,
        {
            r.push(&self.data[i]);
            i += 1;
        }
        r
    }
}

/// Relies on `uuid::Uuid::new_v4`, which draws a random version-4 UUID from
/// the operating system's random number generator, and `uuid::Uuid::as_u128`,
/// which returns its 128-bit value. The draw is random, so nothing is
/// promised of the result.
#[verifier::external_body]
fn generate_id() -> u128 {
    uuid::Uuid::new_v4().as_u128()
}

/// Among the identifiers `0 ..= len` of a store of `len` tasks, at least one
/// is unused: those are `len + 1` distinct values, one more than the store
/// holds tasks.
proof fn lemma_unused_small_id_exists(s: Seq<TaskView>)
    requires
        s.len() < u128::MAX,
    ensures
        exists|c: u128| c <= s.len() && !has_id(s, c),
{
    broadcast use vstd::seq_lib::seq_to_set_is_finite;

    if forall|c: u128| c <= s.len() ==> has_id(s, c) {
        let ids = s.map_values(|t: TaskView| t.id as int);
        let candidates = vstd::set_lib::set_int_range(0, s.len() as int + 1);
        vstd::set_lib::lemma_int_range(0, s.len() as int + 1);
        ids.lemma_cardinality_of_set();
        assert forall|c: int| candidates.contains(c) implies ids.to_set().contains(c) by {
            let cu = c as u128;
            assert(has_id(s, cu));
            let i = choose|i: int| 0 <= i < s.len() && s[i].id == cu;
            assert(ids[i] == c);
            assert(ids.contains(ids[i]));
        }
        assert(candidates.subset_of(ids.to_set()));
        vstd::set_lib::lemma_len_subset(candidates, ids.to_set());
        assert(false);
    } else {
        let c = choose|c: u128| !(c <= s.len() ==> has_id(s, c));
        assert(c <= s.len() && !has_id(s, c));
    }
}

} // verus!
