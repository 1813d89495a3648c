use vstd::prelude::*;

verus! {

/// A single to-do record: an identifier assigned by the store at creation,
/// a free-form description, and a completion flag.
///
/// Identifier and description are set when the store creates the task and
/// never change afterwards; only the completion flag may move, from `false`
/// to `true`, through the store's complete operation.
#[derive(Clone, Debug)]
pub struct Task {
    pub id: u128,
    pub description: String,
    pub completed: bool,
}

/// The mathematical image of a [`Task`]: the identifier, the description as
/// a sequence of characters, and the completion flag.
pub ghost struct TaskView {
    pub id: u128,
    pub description: Seq<char>,
    pub completed: bool,
}

impl View for Task {
    type V = TaskView;

    open spec fn view(&self) -> TaskView {
        TaskView { id: self.id, description: self.description@, completed: self.completed }
    }
}

} // verus!
