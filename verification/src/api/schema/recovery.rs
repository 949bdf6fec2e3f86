use vstd::prelude::*;

verus! {

#[derive(Debug)]
pub struct TerminalRecoveryListParams {}

impl Default for TerminalRecoveryListParams {
    fn default() -> (r: Self)
        ensures
            r == (TerminalRecoveryListParams {  }),
    {
        TerminalRecoveryListParams {  }
    }
}

#[derive(Debug)]
pub struct TerminalRecoveryTarget {
    pub remote_terminal_id: String,
}

#[derive(Debug, Clone, Copy, PartialEq, Eq, Structural)]
pub enum TerminalRecoveryStatus {
    Pending,
    Queued,
    Restoring,
    TimedOut,
    Retryable,
    Ended,
    Discarding,
    CleanupPending,
}

#[derive(Debug)]
pub struct TerminalRecoveryInfo {
    pub remote_terminal_id: String,
    pub peer_id: String,
    pub status: TerminalRecoveryStatus,
    pub message: Option<String>,
}

impl Clone for TerminalRecoveryInfo {
    fn clone(&self) -> (r: Self)
        ensures
            r == *self,
    {
        TerminalRecoveryInfo {
            remote_terminal_id: self.remote_terminal_id.clone(),
            peer_id: self.peer_id.clone(),
            status: self.status,
            message: crate::text::clone_opt(&self.message),
        }
    }
}

} // verus!
