//! What the runtime carries of the tool surface.
use vstd::prelude::*;

verus! {

/// How far a checklist item is.
#[derive(Debug, Clone, Copy, PartialEq, Eq, Structural)]
pub enum TodoStatus {
    Pending,
    InProgress,
    Completed,
}

/// One item of a run's checklist.
#[derive(Debug, Clone, PartialEq, Eq)]
pub struct TodoItem {
    pub id: String,
    pub content: String,
    pub status: TodoStatus,
}

/// The same items again.
pub fn duplicate_todos(v: &Vec<TodoItem>) -> (r: Vec<TodoItem>)
    ensures
        r@ == v@,
{
    let mut r: Vec<TodoItem> = Vec::new();
    let mut i: usize = 0;
    while i < v.len()
        invariant
            i <= v@.len(),
            r@ == v@.take(i as int),
        decreases v@.len() - i,
    {
        let item = TodoItem {
            id: v[i].id.clone(),
            content: v[i].content.clone(),
            status: v[i].status,
        };
        r.push(item);
        i = i + 1;
        assert(v@.take(i as int) =~= v@.take(i - 1).push(v@[i - 1]));
    }
    assert(v@.take(v@.len() as int) =~= v@);
    r
}

} // verus!
