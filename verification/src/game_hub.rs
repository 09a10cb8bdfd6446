//! Minimal game-session collaborator: start/end session bookkeeping with
//! no validation and no cleanup. Session ids are derived from the current
//! ledger sequence number, which the hub holds as plain state; the hub does
//! not advance it itself, so ids are not guaranteed unique across calls
//! within the same sequence value.

use vstd::prelude::*;

verus! {

/// Record written when a session is started.
#[derive(Clone, Copy, PartialEq, Eq, Structural, Debug)]
pub struct SessionStart {
    pub session_id: u64,
    pub game_id: u64,
    pub player: u64,
}

/// Record written when a session is ended.
#[derive(Clone, Copy, PartialEq, Eq, Structural, Debug)]
pub struct SessionEnd {
    pub session_id: u64,
    pub player: u64,
    pub player_won: bool,
}

/// The game-session stub: current ledger sequence number and the two
/// append-only logs of session records.
pub struct MockGameHub {
    /// The ledger sequence number sessions are derived from.
    pub sequence: u64,
    /// Log of started sessions.
    pub starts: Vec<SessionStart>,
    /// Log of ended sessions.
    pub ends: Vec<SessionEnd>,
}

impl MockGameHub {
    /// A fresh hub observing the given ledger sequence number.
    pub fn new(sequence: u64) -> (r: MockGameHub)
        ensures
            r.sequence == sequence,
            r.starts@ == Seq::<SessionStart>::empty(),
            r.ends@ == Seq::<SessionEnd>::empty(),
    {
        MockGameHub { sequence, starts: Vec::new(), ends: Vec::new() }
    }

    /// Opens a session for `player1`: returns a session id derived from the
    /// current sequence number and records the start. `player2` is accepted
    /// for interface compatibility and ignored.
    pub fn start_game(&mut self, player1: u64, player2: Option<u64>, game_id: u64) -> (session_id: u64)
        ensures
            session_id == old(self).sequence,
            final(self).sequence == old(self).sequence,
            final(self).starts@ == old(self).starts@.push(
                SessionStart { session_id, game_id, player: player1 },
            ),
            final(self).ends@ == old(self).ends@,
    {
        let session_id = self.sequence;
        self.starts.push(SessionStart { session_id, game_id, player: player1 });
        session_id
    }

    /// Closes a session: records the outcome. No validation that the
    /// session was previously started.
    pub fn end_game(&mut self, session_id: u64, player1: u64, player1_won: bool)
        ensures
            final(self).sequence == old(self).sequence,
            final(self).starts@ == old(self).starts@,
            final(self).ends@ == old(self).ends@.push(
                SessionEnd { session_id, player: player1, player_won: player1_won },
            ),
    {
        self.ends.push(SessionEnd { session_id, player: player1, player_won: player1_won });
    }
}

} // verus!
