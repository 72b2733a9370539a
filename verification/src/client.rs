//! Client-side records: the persisted auth token and the summaries shown
//! by the desktop shell. Reading the token file and the task database
//! happens at the process edge, which hands the parsed values in.

use vstd::prelude::*;
use vstd::string::*;
use crate::store::Task;

verus! {

/// The persisted auth token.
pub struct TokenStore {
    pub access_token: String,
    pub user_id: String,
}

impl TokenStore {
    /// The token read from its file, if the file was there and parsed.
    pub fn try_load(loaded: Result<TokenStore, String>) -> (r: Option<TokenStore>)
        ensures
            match loaded {
                Ok(t) => r == Some(t),
                Err(_) => r is None,
            },
    {
        match loaded {
            Ok(t) => Some(t),
            Err(_) => None,
        }
    }
}

/// The token used for upstream calls, if one is stored.
pub fn load_token(loaded: Result<TokenStore, String>) -> (r: Option<TokenStore>)
    ensures
        match loaded {
            Ok(t) => r == Some(t),
            Err(_) => r is None,
        },
{
    TokenStore::try_load(loaded)
}

/// The daemon's health as the desktop shell reports it.
pub struct DaemonStatus {
    pub running: bool,
    pub version: Option<String>,
    pub active_tasks: u32,
    pub credits_remaining: Option<u32>,
}

/// The reply to a submitted request: the task id it was filed under.
pub struct SendRequestResponse {
    pub task_id: String,
}

/// A task row reduced to what the desktop shell lists.
pub struct TaskSummary {
    pub id: String,
    pub title: String,
    pub status: String,
    pub created_at: i64,
}

/// Reduces a stored task to its summary: the input text is the title.
pub fn task_summary_from_task(t: &Task) -> (r: TaskSummary)
    ensures
        r.id@ == t.task_id@,
        r.title@ == t.input@,
        r.status@ == t.status@,
        r.created_at == t.created_at,
{
    TaskSummary {
        id: t.task_id.clone(),
        title: t.input.clone(),
        status: t.status.clone(),
        created_at: t.created_at,
    }
}

} // verus!
