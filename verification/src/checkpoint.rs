//! Checkpoints and their identities.
use vstd::prelude::*;

use crate::content::ContentCheckpointBinding;
use crate::model::ChatMessage;
use crate::replay::ReplayCheckpoint;
use crate::text::chars_of;
use crate::tools::TodoItem;

verus! {

/// A character that may stand in a run id.
pub open spec fn run_id_char(c: char) -> bool {
    ('a' <= c && c <= 'z') || ('A' <= c && c <= 'Z') || ('0' <= c && c <= '9') || c == '-' || c
        == '_'
}

/// Whether a text is an opaque run id: not empty, and ASCII letters, digits,
/// `-` and `_` only. Such an id names no other directory and no URL.
pub open spec fn safe_run_id(s: Seq<char>) -> bool {
    &&& s.len() > 0
    &&& forall|i: int| 0 <= i < s.len() ==> run_id_char(#[trigger] s[i])
}

/// Whether a text is an opaque run id.
pub fn is_safe_run_id(run_id: &str) -> (r: bool)
    ensures
        r == safe_run_id(run_id@),
{
    let v = chars_of(run_id);
    if v.len() == 0 {
        return false;
    }
    let mut i: usize = 0;
    while i < v.len()
        invariant
            v@ == run_id@,
            i <= v@.len(),
            forall|j: int| 0 <= j < i ==> run_id_char(#[trigger] v@[j]),
        decreases v@.len() - i,
    {
        let c = v[i];
        if !(('a' <= c && c <= 'z') || ('A' <= c && c <= 'Z') || ('0' <= c && c <= '9') || c == '-'
            || c == '_') {
            assert(!run_id_char(v@[i as int]));
            return false;
        }
        i = i + 1;
    }
    true
}

/// A safe run id holds no path separator and no dot.
pub proof fn safe_run_id_is_one_component(s: Seq<char>)
    requires
        safe_run_id(s),
    ensures
        !s.contains('/'),
        !s.contains('.'),
        !s.contains(':'),
{
    if s.contains('/') {
        let i = choose|i: int| 0 <= i < s.len() && s[i] == '/';
        assert(run_id_char(s[i]));
    }
    if s.contains('.') {
        let i = choose|i: int| 0 <= i < s.len() && s[i] == '.';
        assert(run_id_char(s[i]));
    }
    if s.contains(':') {
        let i = choose|i: int| 0 <= i < s.len() && s[i] == ':';
        assert(run_id_char(s[i]));
    }
}

/// Why a run waits for its operator.
#[derive(Debug, Clone, PartialEq, Eq)]
pub struct ParkedState {
    pub reason: String,
    pub question: String,
    pub tool_call_id: String,
}

/// The durable progress of one run.
#[derive(Debug, Clone)]
pub struct Checkpoint {
    pub run_id: String,
    pub task: String,
    pub prompt_id: String,
    pub messages: Vec<ChatMessage>,
    pub completed_turns: u32,
    pub workspace: String,
    pub keep_workspace: bool,
    /// Empty in checkpoints that do not name their workspace adapter.
    pub workspace_adapter: String,
    pub park: Option<ParkedState>,
    pub todos: Vec<TodoItem>,
    pub replay: Option<ReplayCheckpoint>,
    pub content: Option<ContentCheckpointBinding>,
}

/// A name of letters, digits, dashes and underscores is a safe id, and no other is.
pub proof fn plain_names_are_safe_ids(s: Seq<char>)
    ensures
        s.len() > 0 && (forall|i: int|
            0 <= i < s.len() ==> 'a' <= #[trigger] s[i] <= 'z' || 'A' <= s[i] <= 'Z' || '0' <= s[i]
                <= '9' || s[i] == '-' || s[i] == '_') <==> safe_run_id(s),
{
    if safe_run_id(s) {
        assert forall|i: int| 0 <= i < s.len() implies 'a' <= #[trigger] s[i] <= 'z' || 'A' <= s[i]
            <= 'Z' || '0' <= s[i] <= '9' || s[i] == '-' || s[i] == '_' by {
            assert(run_id_char(s[i]));
        }
    }
}

} // verus!
