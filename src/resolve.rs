//! Unwrapping entry commands whose payload is the token of another command.
use crate::codec::{decode_command, decode_result};
use crate::command::{Command, CommandModel};
use vstd::prelude::*;

verus! {

/// How many nested entry tokens are unwrapped at most.
pub const MAX_DEPTH: usize = 5;

/// The command reached from `c` by unwrapping at most `fuel` entry payloads,
/// stopping at the first payload that does not decode.
pub open spec fn resolve_model(c: CommandModel, fuel: nat) -> CommandModel
    decreases fuel,
{
    match c {
        CommandModel::Start(Some(p)) => if fuel == 0 {
            c
        } else {
            match decode_result(p) {
                Ok(d) => resolve_model(d, (fuel - 1) as nat),
                Err(_) => c,
            }
        },
        _ => c,
    }
}

/// Whether `c` begins a chain of at least `n` nested entry commands, each
/// payload decoding to the next entry command.
pub open spec fn entry_chain(c: CommandModel, n: nat) -> bool
    decreases n,
{
    match c {
        CommandModel::Start(Some(p)) => n == 0 || match decode_result(p) {
            Ok(d) => entry_chain(d, (n - 1) as nat),
            Err(_) => false,
        },
        _ => false,
    }
}

/// Unwraps the entry command: while it carries a payload and fewer than
/// `MAX_DEPTH` payloads have been unwrapped, the payload is decoded and
/// replaces it; a payload that does not decode is kept as it is.
pub fn resolve_command(initial: Command) -> (r: Command)
    ensures
        r@ == resolve_model(initial@, MAX_DEPTH as nat),
{
    let ghost start = initial@;
    let mut cmd = initial;
    let mut depth: usize = 0;
    let mut stop = false;
    while depth < MAX_DEPTH && !stop
        invariant
            depth <= MAX_DEPTH,
            resolve_model(cmd@, (MAX_DEPTH - depth) as nat) == resolve_model(start, MAX_DEPTH as nat),
            stop ==> resolve_model(cmd@, (MAX_DEPTH - depth) as nat) == cmd@,
        decreases MAX_DEPTH - depth + if stop { 0int } else { 1int },
    {
        let next = match &cmd {
            Command::Start(Some(payload)) => match decode_command(payload.as_str()) {
                Ok(decoded) => Some(decoded),
                Err(_) => None,
            },
            _ => None,
        };
        match next {
            Some(decoded) => {
                cmd = decoded;
                depth = depth + 1;
            },
            None => {
                stop = true;
            },
        }
    }
    cmd
}

proof fn lemma_chain_stays_entry(c: CommandModel, n: nat)
    requires
        entry_chain(c, n),
    ensures
        resolve_model(c, n) matches CommandModel::Start(p) && p is Some,
    decreases n,
{
    if n > 0 {
        if let CommandModel::Start(Some(p)) = c {
            if let Ok(d) = decode_result(p) {
                lemma_chain_stays_entry(d, (n - 1) as nat);
            }
        }
    }
}

/// Depth bound: a chain of nested entry tokens longer than the bound (its
/// first `MAX_DEPTH` payloads each decode to a further entry command with a
/// payload) resolves to an entry command that still carries a payload, left
/// undecoded.
pub proof fn lemma_depth_bound(c: CommandModel)
    requires
        entry_chain(c, MAX_DEPTH as nat),
    ensures
        resolve_model(c, MAX_DEPTH as nat) matches CommandModel::Start(p) && p is Some,
{
    lemma_chain_stays_entry(c, MAX_DEPTH as nat);
}

} // verus!
