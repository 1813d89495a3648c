use vstd::prelude::*;

use crate::store::{complete_post, first_match, has_id, mark_completed};
use crate::task::TaskView;

verus! {

/// Order preservation: adding a task never disturbs the tasks already
/// stored — every existing position keeps its task — and the new task
/// stands last, so listing always yields the tasks in the order they were
/// added.
pub proof fn lemma_order_preserved(s: Seq<TaskView>, t: TaskView)
    ensures
        s.push(t).len() == s.len() + 1,
        forall|i: int| 0 <= i < s.len() ==> s.push(t)[i] == s[i],
        s.push(t)[s.len() as int] == t,
{
}

/// Idempotent completion: completing the same identifier a second time
/// changes nothing — the task it names is already completed, and the store
/// is left exactly as the first completion left it.
pub proof fn lemma_complete_idempotent(
    s1: Seq<TaskView>,
    s2: Seq<TaskView>,
    s3: Seq<TaskView>,
    id: u128,
)
    requires
        has_id(s1, id),
        complete_post(s1, s2, id),
        complete_post(s2, s3, id),
    ensures
        s3 == s2,
        exists|i: int| #[trigger] first_match(s2, id, i) && s2[i].completed,
{
    let i = choose|i: int|
        #[trigger] first_match(s1, id, i) && s2 == s1.update(i, mark_completed(s1[i]));
    assert(first_match(s2, id, i));
    assert(has_id(s2, id));
    let j = choose|j: int|
        #[trigger] first_match(s2, id, j) && s3 == s2.update(j, mark_completed(s2[j]));
    assert(i == j);
    assert(mark_completed(s2[i]) == s2[i]);
    assert(s3 =~= s2);
}

/// Unknown-identifier no-op: completing an identifier that no stored task
/// carries leaves the store entirely unchanged.
pub proof fn lemma_unknown_id_noop(pre: Seq<TaskView>, post: Seq<TaskView>, id: u128)
    requires
        !has_id(pre, id),
        complete_post(pre, post, id),
    ensures
        post == pre,
{
}

/// Immutability of identity and description: completing a task — any
/// task — never adds or removes tasks and never changes any task's
/// identifier or description; only a completion flag can move.
pub proof fn lemma_identity_immutable(pre: Seq<TaskView>, post: Seq<TaskView>, id: u128)
    requires
        complete_post(pre, post, id),
    ensures
        post.len() == pre.len(),
        forall|i: int|
            0 <= i < pre.len() ==> #[trigger] post[i].id == pre[i].id && post[i].description
                == pre[i].description,
{
    if has_id(pre, id) {
        let k = choose|k: int|
            #[trigger] first_match(pre, id, k) && post == pre.update(k, mark_completed(pre[k]));
        assert forall|i: int| 0 <= i < pre.len() implies #[trigger] post[i].id == pre[i].id
            && post[i].description == pre[i].description by {
            if i != k {
                assert(post[i] == pre[i]);
            }
        }
    }
}

} // verus!
