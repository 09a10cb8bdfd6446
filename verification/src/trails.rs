//! Trail recorder: immutable location evidence keyed by an auto-incrementing
//! trail id starting at 1. Entries are only ever appended; nothing mutates
//! or deletes them. The recorder stores evidence without validating that the
//! mission exists or that the evidence is cryptographically valid.

use vstd::prelude::*;

verus! {

/// One immutable evidence entry. The location proof is opaque fixed-size
/// evidence; the recorder never interprets it.
#[derive(Clone, Copy, PartialEq, Eq, Debug)]
pub struct TrailData {
    pub player: u64,
    pub mission_id: u64,
    pub location_proof: [u8; 32],
    pub timestamp: u64,
}

/// Errors of the trail recorder.
#[derive(Clone, Copy, PartialEq, Eq, Debug)]
pub enum Error {
    /// `initialize` was called a second time.
    AlreadyInitialized,
    /// The requested trail id is not in use.
    TrailNotFound,
}

/// Selects the trails of one player.
pub open spec fn spec_player_pred(player: u64) -> spec_fn(TrailData) -> bool {
    |t: TrailData| t.player == player
}

/// The trails of `player`, in recording order.
pub open spec fn spec_player_trails(trails: Seq<TrailData>, player: u64) -> Seq<TrailData> {
    trails.filter(spec_player_pred(player))
}

/// The trail recorder: configuration addresses and the append-only trail
/// log. The trail with id `i` (ids start at 1) is held at index `i - 1`.
pub struct ZkTrails {
    /// The administrator principal, set exactly once by `initialize`.
    pub admin: Option<u64>,
    /// Address of the mission registry collaborator.
    pub mission_manager: u64,
    /// Address of the proof verifier collaborator.
    pub zk_verifier: u64,
    /// The recorded trails, in recording order.
    pub trails: Vec<TrailData>,
}

impl ZkTrails {
    /// A fresh, uninitialized recorder with no trails.
    pub fn new() -> (r: ZkTrails)
        ensures
            r.admin is None,
            r.mission_manager == 0,
            r.zk_verifier == 0,
            r.trails@ == Seq::<TrailData>::empty(),
    {
        ZkTrails { admin: Option::None, mission_manager: 0, zk_verifier: 0, trails: Vec::new() }
    }

    /// Stores the administrator and collaborator addresses; callable
    /// exactly once.
    pub fn initialize(&mut self, admin: u64, mission_manager: u64, zk_verifier: u64) -> (r: Result<(), Error>)
        ensures
            old(self).admin is Some ==> r == Result::<(), Error>::Err(Error::AlreadyInitialized)
                && *final(self) == *old(self),
            old(self).admin is None ==> r == Result::<(), Error>::Ok(())
                && final(self).admin == Option::Some(admin)
                && final(self).mission_manager == mission_manager
                && final(self).zk_verifier == zk_verifier
                && final(self).trails@ == old(self).trails@,
    {
        if self.admin.is_some() {
            return Result::Err(Error::AlreadyInitialized);
        }
        self.admin = Option::Some(admin);
        self.mission_manager = mission_manager;
        self.zk_verifier = zk_verifier;
        Result::Ok(())
    }

    /// Appends an evidence entry for the authenticated `player` and returns
    /// its trail id, one past the previous highest. `timestamp` is the
    /// current ledger time, supplied by the caller.
    pub fn record_trail(
        &mut self,
        player: u64,
        mission_id: u64,
        location_proof: [u8; 32],
        timestamp: u64,
    ) -> (trail_id: u64)
        requires
            old(self).trails@.len() < u64::MAX,
        ensures
            trail_id == old(self).trails@.len() + 1,
            final(self).trails@ == old(self).trails@.push(
                TrailData { player, mission_id, location_proof, timestamp },
            ),
            final(self).admin == old(self).admin,
            final(self).mission_manager == old(self).mission_manager,
            final(self).zk_verifier == old(self).zk_verifier,
    {
        let counter = self.trails.len() as u64;
        let new_trail_id = counter + 1;
        self.trails.push(TrailData { player, mission_id, location_proof, timestamp });
        new_trail_id
    }

    /// Looks a trail up by id; a typed error where the id is not in use.
    pub fn get_trail(&self, trail_id: u64) -> (r: Result<TrailData, Error>)
        ensures
            1 <= trail_id <= self.trails@.len() ==> r == Result::<TrailData, Error>::Ok(
                self.trails@[trail_id - 1],
            ),
            !(1 <= trail_id <= self.trails@.len()) ==> r == Result::<TrailData, Error>::Err(
                Error::TrailNotFound,
            ),
    {
        if trail_id >= 1 && trail_id <= self.trails.len() as u64 {
            let idx: usize = (trail_id - 1) as usize;
            Result::Ok(self.trails[idx])
        } else {
            Result::Err(Error::TrailNotFound)
        }
    }

    /// All trails of `player`, in recording order; a scan of every trail
    /// recorded system-wide.
    pub fn get_player_trails(&self, player: u64) -> (r: Vec<TrailData>)
        ensures
            r@ == spec_player_trails(self.trails@, player),
    {
        let mut out: Vec<TrailData> = Vec::new();
        let n = self.trails.len();
        let mut i: usize = 0;
        while i < n
            invariant
                n == self.trails@.len(),
                i <= n,
                out@ == spec_player_trails(self.trails@.take(i as int), player),
            decreases n - i,
        {
            let t = self.trails[i];
            proof {
                reveal(Seq::filter);
                let pre = self.trails@.take(i as int);
                let cur = self.trails@.take(i as int + 1);
                assert(cur.drop_last() =~= pre);
                assert(cur.last() == self.trails@[i as int]);
            }
            if t.player == player {
                out.push(t);
            }
            i = i + 1;
        }
        proof {
            assert(self.trails@.take(n as int) =~= self.trails@);
        }
        out
    }
}

} // verus!
