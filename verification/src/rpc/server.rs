use vstd::prelude::*;

verus! {

/// Whether an append-entries request is a leader's heartbeat: it carries no
/// entries.
pub fn is_heartbeat(entries: &Vec<u32>) -> (heartbeat: bool)
    ensures
        heartbeat == (entries@.len() == 0),
{
    entries.len() == 0
}

/// Whether a request whose term is `request_term`, answered at
/// `current_term`, is news of a newer leader to pass on: its term is higher
/// and someone listens for heartbeats.
pub fn higher_term(request_term: u32, current_term: u32, listeners: usize) -> (pass_on: bool)
    ensures
        pass_on == (request_term > current_term && listeners > 0),
{
    request_term > current_term && listeners > 0
}

} // verus!
