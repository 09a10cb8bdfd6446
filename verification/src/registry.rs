//! Mission registry and progress engine: owns mission definitions,
//! per-player progress, per-player stats and the leaderboard, and drives
//! the game-session collaborator synchronously while starting and
//! completing missions.
//!
//! Storage is modeled as explicit keyed state: missions indexed by their
//! id, progress records keyed by `(player, mission_id)`, stats keyed by
//! player. Every mutating operation takes the acting principal as an
//! argument; the host authenticates principals before an operation runs.

use vstd::prelude::*;

use crate::game_hub::MockGameHub;
use crate::game_hub::SessionEnd;
use crate::game_hub::SessionStart;
use crate::zk_verifier::PROOF_BYTES;

verus! {

/// The fixed address of the game-session collaborator, a deployment
/// constant of the registry.
pub const GAME_HUB_PRINCIPAL: u64 = 777;

/// Status of one `(player, mission)` progress record. `Failed` is part of
/// the interface but no operation of the registry produces it.
#[derive(Clone, Copy, PartialEq, Eq, Structural, Debug)]
pub enum MissionStatus {
    Active,
    Completed,
    Failed,
}

/// Errors of the mission registry.
#[derive(Clone, Copy, PartialEq, Eq, Structural, Debug)]
pub enum Error {
    NotInitialized,
    AlreadyInitialized,
    Unauthorized,
    MissionNotFound,
    MissionAtCapacity,
    NoActiveMission,
    MissionNotActive,
    ZkProofRequired,
    ScoreBelowMinimum,
}

/// One mission definition. `current_completions` is the only field ever
/// mutated after creation.
pub struct Mission {
    pub id: u64,
    pub name: String,
    pub description: String,
    pub reward: u64,
    pub max_completions: u64,
    pub current_completions: u64,
    pub min_score: u64,
    pub zk_proof_required: bool,
}

impl Clone for Mission {
    fn clone(&self) -> (r: Self)
        ensures
            r == *self,
    {
        Mission {
            id: self.id,
            name: self.name.clone(),
            description: self.description.clone(),
            reward: self.reward,
            max_completions: self.max_completions,
            current_completions: self.current_completions,
            min_score: self.min_score,
            zk_proof_required: self.zk_proof_required,
        }
    }
}

/// One `(player, mission)` progress record.
#[derive(Clone, Copy, PartialEq, Eq, Structural, Debug)]
pub struct PlayerProgress {
    pub player: u64,
    pub mission_id: u64,
    pub status: MissionStatus,
    pub score: u64,
    pub session_id: u64,
}

/// Per-player cumulative statistics, created lazily with all-zero defaults.
#[derive(Clone, Copy, PartialEq, Eq, Structural, Debug)]
pub struct PlayerStats {
    pub total_missions: u64,
    pub total_score: u64,
    pub rank: u64,
}

/// The three-tier rank bucketing of a cumulative total score.
pub open spec fn spec_rank(total_score: u64) -> u64 {
    if total_score < 1000 {
        3u64
    } else if total_score < 5000 {
        2u64
    } else {
        1u64
    }
}

/// The all-zero stats a player has before any completion.
pub open spec fn zero_stats() -> PlayerStats {
    PlayerStats { total_missions: 0, total_score: 0, rank: 0 }
}

/// A mission that can accept no further completion.
pub open spec fn spec_at_capacity(m: Mission) -> bool {
    m.max_completions > 0 && m.current_completions >= m.max_completions
}

/// Whether `p` is the record of `(player, mission_id)`.
pub open spec fn progress_key_matches(p: PlayerProgress, player: u64, mission_id: u64) -> bool {
    p.player == player && p.mission_id == mission_id
}

/// No two records share a `(player, mission_id)` key.
pub open spec fn progress_keys_unique(s: Seq<PlayerProgress>) -> bool {
    forall|i: int, j: int|
        #![trigger s[i], s[j]]
        0 <= i < s.len() && 0 <= j < s.len() && i != j ==> !(s[i].player == s[j].player
            && s[i].mission_id == s[j].mission_id)
}

/// A record for `(player, mission_id)` exists.
pub open spec fn has_progress(s: Seq<PlayerProgress>, player: u64, mission_id: u64) -> bool {
    exists|i: int| 0 <= i < s.len() && progress_key_matches(s[i], player, mission_id)
}

/// The record of `(player, mission_id)`; meaningful when one exists.
pub open spec fn progress_at(s: Seq<PlayerProgress>, player: u64, mission_id: u64) -> PlayerProgress {
    s[choose|i: int| 0 <= i < s.len() && progress_key_matches(s[i], player, mission_id)]
}

/// No two stats entries share a player key.
pub open spec fn stats_keys_unique(s: Seq<(u64, PlayerStats)>) -> bool {
    forall|i: int, j: int|
        #![trigger s[i], s[j]]
        0 <= i < s.len() && 0 <= j < s.len() && i != j ==> s[i].0 != s[j].0
}

/// A stats entry for `player` exists.
pub open spec fn has_stats(s: Seq<(u64, PlayerStats)>, player: u64) -> bool {
    exists|i: int| 0 <= i < s.len() && s[i].0 == player
}

/// The stats of `player`; meaningful when an entry exists.
pub open spec fn stats_at(s: Seq<(u64, PlayerStats)>, player: u64) -> PlayerStats {
    s[choose|i: int| 0 <= i < s.len() && s[i].0 == player].1
}

/// The stats of `player`, or the all-zero default when no entry exists.
pub open spec fn stats_or_default(s: Seq<(u64, PlayerStats)>, player: u64) -> PlayerStats {
    if has_stats(s, player) {
        stats_at(s, player)
    } else {
        zero_stats()
    }
}

/// Knowing a matching index pins the lookup down: the record at any
/// matching index is the record of the key.
pub proof fn lemma_progress_at_index(s: Seq<PlayerProgress>, player: u64, mission_id: u64, idx: int)
    requires
        progress_keys_unique(s),
        0 <= idx < s.len(),
        progress_key_matches(s[idx], player, mission_id),
    ensures
        has_progress(s, player, mission_id),
        progress_at(s, player, mission_id) == s[idx],
{
    assert(has_progress(s, player, mission_id));
    let j = choose|i: int| 0 <= i < s.len() && progress_key_matches(s[i], player, mission_id);
    if j != idx {
        assert(!(s[idx].player == s[j].player && s[idx].mission_id == s[j].mission_id));
        assert(false);
    }
}

/// Overwriting the record at its own key keeps keys unique, sets the
/// lookup of that key, and leaves every other key's lookup unchanged.
pub proof fn lemma_progress_update(s: Seq<PlayerProgress>, idx: int, v: PlayerProgress)
    requires
        progress_keys_unique(s),
        0 <= idx < s.len(),
        s[idx].player == v.player,
        s[idx].mission_id == v.mission_id,
    ensures
        progress_keys_unique(s.update(idx, v)),
        has_progress(s.update(idx, v), v.player, v.mission_id),
        progress_at(s.update(idx, v), v.player, v.mission_id) == v,
        forall|p2: u64, m2: u64|
            #![trigger has_progress(s.update(idx, v), p2, m2)]
            !(p2 == v.player && m2 == v.mission_id) ==> has_progress(s.update(idx, v), p2, m2)
                == has_progress(s, p2, m2),
        forall|p2: u64, m2: u64|
            #![trigger progress_at(s.update(idx, v), p2, m2)]
            !(p2 == v.player && m2 == v.mission_id) && has_progress(s, p2, m2) ==> progress_at(
                s.update(idx, v),
                p2,
                m2,
            ) == progress_at(s, p2, m2),
{
    let s2 = s.update(idx, v);
    assert forall|i: int, j: int|
        0 <= i < s2.len() && 0 <= j < s2.len() && i != j implies !(s2[i].player == s2[j].player
        && s2[i].mission_id == s2[j].mission_id) by {
        if i == idx {
            assert(!(s[idx].player == s[j].player && s[idx].mission_id == s[j].mission_id));
        } else if j == idx {
            assert(!(s[i].player == s[idx].player && s[i].mission_id == s[idx].mission_id));
        } else {
            assert(!(s[i].player == s[j].player && s[i].mission_id == s[j].mission_id));
        }
    }
    assert(progress_key_matches(s2[idx], v.player, v.mission_id));
    lemma_progress_at_index(s2, v.player, v.mission_id, idx);
    assert forall|p2: u64, m2: u64| !(p2 == v.player && m2 == v.mission_id) implies has_progress(
        s2,
        p2,
        m2,
    ) == has_progress(s, p2, m2) by {
        if has_progress(s, p2, m2) {
            let i = choose|i: int| 0 <= i < s.len() && progress_key_matches(s[i], p2, m2);
            assert(i != idx);
            assert(progress_key_matches(s2[i], p2, m2));
            assert(has_progress(s2, p2, m2));
        }
        if has_progress(s2, p2, m2) {
            let i = choose|i: int| 0 <= i < s2.len() && progress_key_matches(s2[i], p2, m2);
            assert(i != idx);
            assert(progress_key_matches(s[i], p2, m2));
            assert(has_progress(s, p2, m2));
        }
    }
    assert forall|p2: u64, m2: u64|
        !(p2 == v.player && m2 == v.mission_id) && has_progress(s, p2, m2) implies progress_at(
        s2,
        p2,
        m2,
    ) == progress_at(s, p2, m2) by {
        let i = choose|i: int| 0 <= i < s.len() && progress_key_matches(s[i], p2, m2);
        lemma_progress_at_index(s, p2, m2, i);
        assert(i != idx);
        assert(progress_key_matches(s2[i], p2, m2));
        lemma_progress_at_index(s2, p2, m2, i);
    }
}

/// Appending a record of a fresh key keeps keys unique, sets the lookup
/// of that key, and leaves every other key's lookup unchanged.
pub proof fn lemma_progress_push(s: Seq<PlayerProgress>, v: PlayerProgress)
    requires
        progress_keys_unique(s),
        !has_progress(s, v.player, v.mission_id),
    ensures
        progress_keys_unique(s.push(v)),
        has_progress(s.push(v), v.player, v.mission_id),
        progress_at(s.push(v), v.player, v.mission_id) == v,
        forall|p2: u64, m2: u64|
            #![trigger has_progress(s.push(v), p2, m2)]
            !(p2 == v.player && m2 == v.mission_id) ==> has_progress(s.push(v), p2, m2)
                == has_progress(s, p2, m2),
        forall|p2: u64, m2: u64|
            #![trigger progress_at(s.push(v), p2, m2)]
            !(p2 == v.player && m2 == v.mission_id) && has_progress(s, p2, m2) ==> progress_at(
                s.push(v),
                p2,
                m2,
            ) == progress_at(s, p2, m2),
{
    let s2 = s.push(v);
    let n = s.len() as int;
    assert forall|i: int, j: int|
        0 <= i < s2.len() && 0 <= j < s2.len() && i != j implies !(s2[i].player == s2[j].player
        && s2[i].mission_id == s2[j].mission_id) by {
        if i < n && j < n {
            assert(!(s[i].player == s[j].player && s[i].mission_id == s[j].mission_id));
        } else if i == n {
            if s2[i].player == s2[j].player && s2[i].mission_id == s2[j].mission_id {
                assert(progress_key_matches(s[j], v.player, v.mission_id));
                assert(has_progress(s, v.player, v.mission_id));
            }
        } else {
            if s2[i].player == s2[j].player && s2[i].mission_id == s2[j].mission_id {
                assert(progress_key_matches(s[i], v.player, v.mission_id));
                assert(has_progress(s, v.player, v.mission_id));
            }
        }
    }
    assert(progress_key_matches(s2[n], v.player, v.mission_id));
    lemma_progress_at_index(s2, v.player, v.mission_id, n);
    assert forall|p2: u64, m2: u64| !(p2 == v.player && m2 == v.mission_id) implies has_progress(
        s2,
        p2,
        m2,
    ) == has_progress(s, p2, m2) by {
        if has_progress(s, p2, m2) {
            let i = choose|i: int| 0 <= i < s.len() && progress_key_matches(s[i], p2, m2);
            assert(progress_key_matches(s2[i], p2, m2));
            assert(has_progress(s2, p2, m2));
        }
        if has_progress(s2, p2, m2) {
            let i = choose|i: int| 0 <= i < s2.len() && progress_key_matches(s2[i], p2, m2);
            assert(i != n);
            assert(progress_key_matches(s[i], p2, m2));
            assert(has_progress(s, p2, m2));
        }
    }
    assert forall|p2: u64, m2: u64|
        !(p2 == v.player && m2 == v.mission_id) && has_progress(s, p2, m2) implies progress_at(
        s2,
        p2,
        m2,
    ) == progress_at(s, p2, m2) by {
        let i = choose|i: int| 0 <= i < s.len() && progress_key_matches(s[i], p2, m2);
        lemma_progress_at_index(s, p2, m2, i);
        assert(progress_key_matches(s2[i], p2, m2));
        lemma_progress_at_index(s2, p2, m2, i);
    }
}

/// Knowing a matching index pins the stats lookup down.
pub proof fn lemma_stats_at_index(s: Seq<(u64, PlayerStats)>, player: u64, idx: int)
    requires
        stats_keys_unique(s),
        0 <= idx < s.len(),
        s[idx].0 == player,
    ensures
        has_stats(s, player),
        stats_at(s, player) == s[idx].1,
{
    assert(has_stats(s, player));
    let j = choose|i: int| 0 <= i < s.len() && s[i].0 == player;
    if j != idx {
        assert(s[idx].0 != s[j].0);
        assert(false);
    }
}

/// Overwriting a player's stats entry keeps keys unique, sets that
/// player's lookup, and leaves every other player's lookup unchanged.
pub proof fn lemma_stats_update(s: Seq<(u64, PlayerStats)>, idx: int, v: (u64, PlayerStats))
    requires
        stats_keys_unique(s),
        0 <= idx < s.len(),
        s[idx].0 == v.0,
    ensures
        stats_keys_unique(s.update(idx, v)),
        has_stats(s.update(idx, v), v.0),
        stats_at(s.update(idx, v), v.0) == v.1,
        forall|p2: u64|
            #![trigger has_stats(s.update(idx, v), p2)]
            p2 != v.0 ==> has_stats(s.update(idx, v), p2) == has_stats(s, p2),
        forall|p2: u64|
            #![trigger stats_at(s.update(idx, v), p2)]
            p2 != v.0 && has_stats(s, p2) ==> stats_at(s.update(idx, v), p2) == stats_at(s, p2),
{
    let s2 = s.update(idx, v);
    assert forall|i: int, j: int|
        0 <= i < s2.len() && 0 <= j < s2.len() && i != j implies s2[i].0 != s2[j].0 by {
        if i == idx {
            assert(s[idx].0 != s[j].0);
        } else if j == idx {
            assert(s[i].0 != s[idx].0);
        } else {
            assert(s[i].0 != s[j].0);
        }
    }
    lemma_stats_at_index(s2, v.0, idx);
    assert forall|p2: u64| p2 != v.0 implies has_stats(s2, p2) == has_stats(s, p2) by {
        if has_stats(s, p2) {
            let i = choose|i: int| 0 <= i < s.len() && s[i].0 == p2;
            assert(i != idx);
            assert(s2[i].0 == p2);
            assert(has_stats(s2, p2));
        }
        if has_stats(s2, p2) {
            let i = choose|i: int| 0 <= i < s2.len() && s2[i].0 == p2;
            assert(i != idx);
            assert(s[i].0 == p2);
            assert(has_stats(s, p2));
        }
    }
    assert forall|p2: u64| p2 != v.0 && has_stats(s, p2) implies stats_at(s2, p2) == stats_at(
        s,
        p2,
    ) by {
        let i = choose|i: int| 0 <= i < s.len() && s[i].0 == p2;
        lemma_stats_at_index(s, p2, i);
        assert(i != idx);
        assert(s2[i].0 == p2);
        lemma_stats_at_index(s2, p2, i);
    }
}

/// Appending a fresh player's stats entry keeps keys unique, sets that
/// player's lookup, and leaves every other player's lookup unchanged.
pub proof fn lemma_stats_push(s: Seq<(u64, PlayerStats)>, v: (u64, PlayerStats))
    requires
        stats_keys_unique(s),
        !has_stats(s, v.0),
    ensures
        stats_keys_unique(s.push(v)),
        has_stats(s.push(v), v.0),
        stats_at(s.push(v), v.0) == v.1,
        forall|p2: u64|
            #![trigger has_stats(s.push(v), p2)]
            p2 != v.0 ==> has_stats(s.push(v), p2) == has_stats(s, p2),
        forall|p2: u64|
            #![trigger stats_at(s.push(v), p2)]
            p2 != v.0 && has_stats(s, p2) ==> stats_at(s.push(v), p2) == stats_at(s, p2),
{
    let s2 = s.push(v);
    let n = s.len() as int;
    assert forall|i: int, j: int|
        0 <= i < s2.len() && 0 <= j < s2.len() && i != j implies s2[i].0 != s2[j].0 by {
        if i < n && j < n {
            assert(s[i].0 != s[j].0);
        } else if i == n {
            if s2[i].0 == s2[j].0 {
                assert(s[j].0 == v.0);
                assert(has_stats(s, v.0));
            }
        } else {
            if s2[i].0 == s2[j].0 {
                assert(s[i].0 == v.0);
                assert(has_stats(s, v.0));
            }
        }
    }
    lemma_stats_at_index(s2, v.0, n);
    assert forall|p2: u64| p2 != v.0 implies has_stats(s2, p2) == has_stats(s, p2) by {
        if has_stats(s, p2) {
            let i = choose|i: int| 0 <= i < s.len() && s[i].0 == p2;
            assert(s2[i].0 == p2);
            assert(has_stats(s2, p2));
        }
        if has_stats(s2, p2) {
            let i = choose|i: int| 0 <= i < s2.len() && s2[i].0 == p2;
            assert(i != n);
            assert(s[i].0 == p2);
            assert(has_stats(s, p2));
        }
    }
    assert forall|p2: u64| p2 != v.0 && has_stats(s, p2) implies stats_at(s2, p2) == stats_at(
        s,
        p2,
    ) by {
        let i = choose|i: int| 0 <= i < s.len() && s[i].0 == p2;
        lemma_stats_at_index(s, p2, i);
        assert(s2[i].0 == p2);
        lemma_stats_at_index(s2, p2, i);
    }
}

/// Index of the progress record of `(player, mission_id)`, if one exists.
fn find_progress_idx(v: &Vec<PlayerProgress>, player: u64, mission_id: u64) -> (r: Option<usize>)
    ensures
        match r {
            Option::Some(i) => 0 <= i < v@.len() && progress_key_matches(
                v@[i as int],
                player,
                mission_id,
            ),
            Option::None => !has_progress(v@, player, mission_id),
        },
{
    let n = v.len();
    let mut i: usize = 0;
    while i < n
        invariant
            n == v@.len(),
            i <= n,
            forall|j: int| 0 <= j < i ==> !progress_key_matches(v@[j], player, mission_id),
        decreases n - i,
    {
        if v[i].player == player && v[i].mission_id == mission_id {
            return Option::Some(i);
        }
        i = i + 1;
    }
    proof {
        if has_progress(v@, player, mission_id) {
            let j = choose|i: int| 0 <= i < v@.len() && progress_key_matches(v@[i], player, mission_id);
            assert(!progress_key_matches(v@[j], player, mission_id));
        }
    }
    Option::None
}

/// Index of the stats entry of `player`, if one exists.
fn find_stats_idx(v: &Vec<(u64, PlayerStats)>, player: u64) -> (r: Option<usize>)
    ensures
        match r {
            Option::Some(i) => 0 <= i < v@.len() && v@[i as int].0 == player,
            Option::None => !has_stats(v@, player),
        },
{
    let n = v.len();
    let mut i: usize = 0;
    while i < n
        invariant
            n == v@.len(),
            i <= n,
            forall|j: int| 0 <= j < i ==> v@[j].0 != player,
        decreases n - i,
    {
        if v[i].0 == player {
            return Option::Some(i);
        }
        i = i + 1;
    }
    proof {
        if has_stats(v@, player) {
            let j = choose|i: int| 0 <= i < v@.len() && v@[i].0 == player;
            assert(v@[j].0 != player);
        }
    }
    Option::None
}

/// Whether the leaderboard already lists `x`.
fn leaderboard_contains(v: &Vec<u64>, x: u64) -> (r: bool)
    ensures
        r == v@.contains(x),
{
    let n = v.len();
    let mut i: usize = 0;
    while i < n
        invariant
            n == v@.len(),
            i <= n,
            forall|j: int| 0 <= j < i ==> v@[j] != x,
        decreases n - i,
    {
        if v[i] == x {
            return true;
        }
        i = i + 1;
    }
    proof {
        if v@.contains(x) {
            let j = choose|i: int| 0 <= i < v@.len() && v@[i] == x;
            assert(v@[j] != x);
        }
    }
    false
}

/// The mission registry and progress engine.
pub struct MissionManager {
    /// The administrator principal, set exactly once by `initialize`.
    pub admin: Option<u64>,
    /// The stored game-session collaborator address.
    pub game_hub: Option<u64>,
    /// Mission definitions; the mission with id `i` is held at index `i`.
    pub missions: Vec<Mission>,
    /// Progress records, keyed by `(player, mission_id)`.
    pub progress: Vec<PlayerProgress>,
    /// Stats entries, keyed by player.
    pub stats: Vec<(u64, PlayerStats)>,
    /// Principals with at least one completion, in first-completion order.
    pub leaderboard: Vec<u64>,
}

impl MissionManager {
    /// Well-formedness: ids index the mission table, bounded missions never
    /// exceed their capacity, progress and stats keys are unique, and the
    /// leaderboard holds no duplicate principal.
    pub open spec fn wf(self) -> bool {
        &&& forall|i: int|
            #![trigger self.missions@[i]]
            0 <= i < self.missions@.len() ==> self.missions@[i].id == i && (
            self.missions@[i].max_completions > 0 ==> self.missions@[i].current_completions
                <= self.missions@[i].max_completions)
        &&& progress_keys_unique(self.progress@)
        &&& stats_keys_unique(self.stats@)
        &&& self.leaderboard@.no_duplicates()
    }

    /// The outcome of `complete_mission`, as a function of the pre-state,
    /// the inputs, and whether proof material accompanied the call.
    pub open spec fn spec_complete_outcome(
        self,
        player: u64,
        mission_id: u64,
        score: u64,
        has_proof: bool,
    ) -> Result<(), Error> {
        if !has_progress(self.progress@, player, mission_id) {
            Result::Err(Error::NoActiveMission)
        } else if progress_at(self.progress@, player, mission_id).status != MissionStatus::Active {
            Result::Err(Error::MissionNotActive)
        } else if mission_id >= self.missions@.len() {
            Result::Err(Error::MissionNotFound)
        } else if self.missions@[mission_id as int].zk_proof_required && !has_proof {
            Result::Err(Error::ZkProofRequired)
        } else if score < self.missions@[mission_id as int].min_score {
            Result::Err(Error::ScoreBelowMinimum)
        } else if spec_at_capacity(self.missions@[mission_id as int]) {
            Result::Err(Error::MissionAtCapacity)
        } else {
            Result::Ok(())
        }
    }

    /// The accumulated sums of a successful completion stay within `u64`
    /// range; a machine limit, not a rule of the registry.
    pub open spec fn spec_complete_fits(
        self,
        player: u64,
        mission_id: u64,
        score: u64,
        has_proof: bool,
    ) -> bool {
        self.spec_complete_outcome(player, mission_id, score, has_proof) is Ok ==> {
            let p = progress_at(self.progress@, player, mission_id);
            let st = stats_or_default(self.stats@, player);
            &&& p.score + score <= u64::MAX
            &&& st.total_score + p.score + score <= u64::MAX
            &&& st.total_missions + 1 <= u64::MAX
            &&& self.missions@[mission_id as int].current_completions + 1 <= u64::MAX
        }
    }

    /// A fresh, uninitialized registry with no missions, no progress, no
    /// stats and an empty leaderboard.
    pub fn new() -> (r: MissionManager)
        ensures
            r.admin is None,
            r.game_hub is None,
            r.missions@ == Seq::<Mission>::empty(),
            r.progress@ == Seq::<PlayerProgress>::empty(),
            r.stats@ == Seq::<(u64, PlayerStats)>::empty(),
            r.leaderboard@ == Seq::<u64>::empty(),
            r.wf(),
    {
        MissionManager {
            admin: Option::None,
            game_hub: Option::None,
            missions: Vec::new(),
            progress: Vec::new(),
            stats: Vec::new(),
            leaderboard: Vec::new(),
        }
    }

    /// Stores the administrator and the fixed collaborator address and
    /// resets the leaderboard; callable exactly once.
    pub fn initialize(&mut self, admin: u64) -> (r: Result<(), Error>)
        requires
            old(self).wf(),
        ensures
            final(self).wf(),
            old(self).admin is Some ==> r == Result::<(), Error>::Err(Error::AlreadyInitialized)
                && *final(self) == *old(self),
            old(self).admin is None ==> r == Result::<(), Error>::Ok(()) && final(self).admin
                == Option::Some(admin) && final(self).game_hub == Option::Some(GAME_HUB_PRINCIPAL)
                && final(self).leaderboard@ == Seq::<u64>::empty() && final(self).missions@ == old(
                self,
            ).missions@ && final(self).progress@ == old(self).progress@ && final(self).stats@
                == old(self).stats@,
    {
        if self.admin.is_some() {
            return Result::Err(Error::AlreadyInitialized);
        }
        self.admin = Option::Some(admin);
        self.game_hub = Option::Some(GAME_HUB_PRINCIPAL);
        self.leaderboard = Vec::new();
        Result::Ok(())
    }

    /// Creates a mission under the next counter value; admin-only.
    pub fn create_mission(
        &mut self,
        admin: u64,
        name: String,
        description: String,
        reward: u64,
        max_completions: u64,
        min_score: u64,
        zk_proof_required: bool,
    ) -> (r: Result<u64, Error>)
        requires
            old(self).wf(),
            old(self).missions@.len() < u64::MAX,
        ensures
            final(self).wf(),
            old(self).admin is None ==> r == Result::<u64, Error>::Err(Error::NotInitialized)
                && *final(self) == *old(self),
            old(self).admin is Some && old(self).admin != Option::Some(admin) ==> r
                == Result::<u64, Error>::Err(Error::Unauthorized) && *final(self) == *old(self),
            old(self).admin == Option::Some(admin) ==> {
                &&& r == Result::<u64, Error>::Ok(old(self).missions@.len() as u64)
                &&& final(self).missions@ == old(self).missions@.push(
                    (Mission {
                        id: old(self).missions@.len() as u64,
                        name,
                        description,
                        reward,
                        max_completions,
                        current_completions: 0,
                        min_score,
                        zk_proof_required,
                    }),
                )
                &&& final(self).admin == old(self).admin
                &&& final(self).game_hub == old(self).game_hub
                &&& final(self).progress@ == old(self).progress@
                &&& final(self).stats@ == old(self).stats@
                &&& final(self).leaderboard@ == old(self).leaderboard@
            },
    {
        let stored_admin = match &self.admin {
            Option::Some(a) => *a,
            Option::None => {
                return Result::Err(Error::NotInitialized);
            },
        };
        if admin != stored_admin {
            return Result::Err(Error::Unauthorized);
        }
        let mission_id = self.missions.len() as u64;
        let mission = Mission {
            id: mission_id,
            name,
            description,
            reward,
            max_completions,
            current_completions: 0,
            min_score,
            zk_proof_required,
        };
        self.missions.push(mission);
        Result::Ok(mission_id)
    }

    /// Starts a mission for `player`: checks existence and capacity, opens
    /// a session at the game hub, and writes an `Active` progress record,
    /// silently replacing any prior record of the same key.
    pub fn start_mission(&mut self, hub: &mut MockGameHub, player: u64, mission_id: u64) -> (r:
        Result<u64, Error>)
        requires
            old(self).wf(),
        ensures
            final(self).wf(),
            mission_id >= old(self).missions@.len() ==> r == Result::<u64, Error>::Err(
                Error::MissionNotFound,
            ) && *final(self) == *old(self) && *final(hub) == *old(hub),
            mission_id < old(self).missions@.len() && spec_at_capacity(
                old(self).missions@[mission_id as int],
            ) ==> r == Result::<u64, Error>::Err(Error::MissionAtCapacity) && *final(self) == *old(
                self,
            ) && *final(hub) == *old(hub),
            mission_id < old(self).missions@.len() && !spec_at_capacity(
                old(self).missions@[mission_id as int],
            ) ==> {
                &&& r == Result::<u64, Error>::Ok(old(hub).sequence)
                &&& final(hub).sequence == old(hub).sequence
                &&& final(hub).starts@ == old(hub).starts@.push(
                    (SessionStart { session_id: old(hub).sequence, game_id: mission_id, player }),
                )
                &&& final(hub).ends@ == old(hub).ends@
                &&& has_progress(final(self).progress@, player, mission_id)
                &&& progress_at(final(self).progress@, player, mission_id) == (PlayerProgress {
                    player,
                    mission_id,
                    status: MissionStatus::Active,
                    score: 0,
                    session_id: old(hub).sequence,
                })
                &&& forall|p2: u64, m2: u64|
                    #![trigger has_progress(final(self).progress@, p2, m2)]
                    !(p2 == player && m2 == mission_id) ==> has_progress(
                        final(self).progress@,
                        p2,
                        m2,
                    ) == has_progress(old(self).progress@, p2, m2)
                &&& forall|p2: u64, m2: u64|
                    #![trigger progress_at(final(self).progress@, p2, m2)]
                    !(p2 == player && m2 == mission_id) && has_progress(
                        old(self).progress@,
                        p2,
                        m2,
                    ) ==> progress_at(final(self).progress@, p2, m2) == progress_at(
                        old(self).progress@,
                        p2,
                        m2,
                    )
                &&& final(self).missions@ == old(self).missions@
                &&& final(self).stats@ == old(self).stats@
                &&& final(self).leaderboard@ == old(self).leaderboard@
                &&& final(self).admin == old(self).admin
                &&& final(self).game_hub == old(self).game_hub
            },
    {
        if mission_id >= self.missions.len() as u64 {
            return Result::Err(Error::MissionNotFound);
        }
        let midx = mission_id as usize;
        let at_capacity = self.missions[midx].max_completions > 0
            && self.missions[midx].current_completions >= self.missions[midx].max_completions;
        if at_capacity {
            return Result::Err(Error::MissionAtCapacity);
        }
        let session_id = hub.start_game(player, Option::None, mission_id);
        let record = PlayerProgress {
            player,
            mission_id,
            status: MissionStatus::Active,
            score: 0,
            session_id,
        };
        match find_progress_idx(&self.progress, player, mission_id) {
            Option::Some(i) => {
                proof {
                    lemma_progress_update(self.progress@, i as int, record);
                }
                self.progress[i] = record;
            },
            Option::None => {
                proof {
                    lemma_progress_push(self.progress@, record);
                }
                self.progress.push(record);
            },
        }
        Result::Ok(session_id)
    }

    /// Completes a mission for `player`: validates the progress record,
    /// the mission, the proof requirement, the minimum score and the
    /// capacity; then accumulates stats, recomputes the rank, closes the
    /// session at the game hub, increments the mission's completions,
    /// marks the record completed, and lists the player on the leaderboard.
    pub fn complete_mission(
        &mut self,
        hub: &mut MockGameHub,
        player: u64,
        mission_id: u64,
        score: u64,
        zk_proof: Option<Vec<u8>>,
    ) -> (r: Result<(), Error>)
        requires
            old(self).wf(),
            old(self).spec_complete_fits(player, mission_id, score, zk_proof is Some),
            zk_proof matches Option::Some(p) ==> p@.len() == PROOF_BYTES as int,
        ensures
            final(self).wf(),
            r == old(self).spec_complete_outcome(player, mission_id, score, zk_proof is Some),
            r is Err ==> *final(self) == *old(self) && *final(hub) == *old(hub),
            r is Ok ==> {
                let p = progress_at(old(self).progress@, player, mission_id);
                let total = (p.score + score) as u64;
                let st = stats_or_default(old(self).stats@, player);
                let new_total = (st.total_score + total) as u64;
                &&& has_stats(final(self).stats@, player)
                &&& stats_at(final(self).stats@, player) == (PlayerStats {
                    total_missions: (st.total_missions + 1) as u64,
                    total_score: new_total,
                    rank: spec_rank(new_total),
                })
                &&& forall|p2: u64|
                    #![trigger has_stats(final(self).stats@, p2)]
                    p2 != player ==> has_stats(final(self).stats@, p2) == has_stats(
                        old(self).stats@,
                        p2,
                    )
                &&& forall|p2: u64|
                    #![trigger stats_at(final(self).stats@, p2)]
                    p2 != player && has_stats(old(self).stats@, p2) ==> stats_at(
                        final(self).stats@,
                        p2,
                    ) == stats_at(old(self).stats@, p2)
                &&& final(hub).sequence == old(hub).sequence
                &&& final(hub).starts@ == old(hub).starts@
                &&& final(hub).ends@ == old(hub).ends@.push(
                    (SessionEnd { session_id: p.session_id, player, player_won: true }),
                )
                &&& final(self).missions@ == old(self).missions@.update(
                    mission_id as int,
                    (Mission {
                        current_completions: (old(self).missions@[mission_id as int].current_completions
                            + 1) as u64,
                        ..old(self).missions@[mission_id as int]
                    }),
                )
                &&& has_progress(final(self).progress@, player, mission_id)
                &&& progress_at(final(self).progress@, player, mission_id) == (PlayerProgress {
                    status: MissionStatus::Completed,
                    score: total,
                    ..p
                })
                &&& forall|p2: u64, m2: u64|
                    #![trigger has_progress(final(self).progress@, p2, m2)]
                    !(p2 == player && m2 == mission_id) ==> has_progress(
                        final(self).progress@,
                        p2,
                        m2,
                    ) == has_progress(old(self).progress@, p2, m2)
                &&& forall|p2: u64, m2: u64|
                    #![trigger progress_at(final(self).progress@, p2, m2)]
                    !(p2 == player && m2 == mission_id) && has_progress(
                        old(self).progress@,
                        p2,
                        m2,
                    ) ==> progress_at(final(self).progress@, p2, m2) == progress_at(
                        old(self).progress@,
                        p2,
                        m2,
                    )
                &&& final(self).leaderboard@ == (if old(self).leaderboard@.contains(player) {
                    old(self).leaderboard@
                } else {
                    old(self).leaderboard@.push(player)
                })
                &&& final(self).leaderboard@.contains(player)
                &&& final(self).admin == old(self).admin
                &&& final(self).game_hub == old(self).game_hub
            },
    {
        let pidx = match find_progress_idx(&self.progress, player, mission_id) {
            Option::Some(i) => i,
            Option::None => {
                return Result::Err(Error::NoActiveMission);
            },
        };
        proof {
            lemma_progress_at_index(self.progress@, player, mission_id, pidx as int);
        }
        let prog = self.progress[pidx];
        if prog.status != MissionStatus::Active {
            return Result::Err(Error::MissionNotActive);
        }
        if mission_id >= self.missions.len() as u64 {
            return Result::Err(Error::MissionNotFound);
        }
        let midx = mission_id as usize;
        if self.missions[midx].zk_proof_required && zk_proof.is_none() {
            return Result::Err(Error::ZkProofRequired);
        }
        if score < self.missions[midx].min_score {
            return Result::Err(Error::ScoreBelowMinimum);
        }
        if self.missions[midx].max_completions > 0 && self.missions[midx].current_completions
            >= self.missions[midx].max_completions {
            return Result::Err(Error::MissionAtCapacity);
        }
        let total_score = prog.score + score;

        let (old_stats, stats_idx) = match find_stats_idx(&self.stats, player) {
            Option::Some(i) => {
                proof {
                    lemma_stats_at_index(self.stats@, player, i as int);
                }
                (self.stats[i].1, Option::Some(i))
            },
            Option::None => (PlayerStats { total_missions: 0, total_score: 0, rank: 0 }, Option::None),
        };
        let new_total = old_stats.total_score + total_score;
        let updated_stats = PlayerStats {
            total_missions: old_stats.total_missions + 1,
            total_score: new_total,
            rank: Self::calculate_rank(new_total),
        };
        match stats_idx {
            Option::Some(i) => {
                proof {
                    lemma_stats_update(self.stats@, i as int, (player, updated_stats));
                }
                self.stats[i] = (player, updated_stats);
            },
            Option::None => {
                proof {
                    lemma_stats_push(self.stats@, (player, updated_stats));
                }
                self.stats.push((player, updated_stats));
            },
        }

        hub.end_game(prog.session_id, player, true);

        let m = &self.missions[midx];
        let updated_mission = Mission {
            id: m.id,
            name: m.name.clone(),
            description: m.description.clone(),
            reward: m.reward,
            max_completions: m.max_completions,
            current_completions: m.current_completions + 1,
            min_score: m.min_score,
            zk_proof_required: m.zk_proof_required,
        };
        self.missions[midx] = updated_mission;

        let updated_progress = PlayerProgress {
            player: prog.player,
            mission_id: prog.mission_id,
            status: MissionStatus::Completed,
            score: total_score,
            session_id: prog.session_id,
        };
        proof {
            lemma_progress_update(self.progress@, pidx as int, updated_progress);
        }
        self.progress[pidx] = updated_progress;

        self.update_leaderboard(player);
        Result::Ok(())
    }

    /// Rank bucket as a pure function of the cumulative total score.
    pub fn calculate_rank(total_score: u64) -> (r: u64)
        ensures
            r == spec_rank(total_score),
    {
        if total_score < 1000 {
            3
        } else if total_score < 5000 {
            2
        } else {
            1
        }
    }

    /// Appends `player` to the leaderboard unless already listed.
    fn update_leaderboard(&mut self, player: u64)
        requires
            old(self).leaderboard@.no_duplicates(),
        ensures
            final(self).leaderboard@ == (if old(self).leaderboard@.contains(player) {
                old(self).leaderboard@
            } else {
                old(self).leaderboard@.push(player)
            }),
            final(self).leaderboard@.no_duplicates(),
            final(self).leaderboard@.contains(player),
            final(self).admin == old(self).admin,
            final(self).game_hub == old(self).game_hub,
            final(self).missions@ == old(self).missions@,
            final(self).progress@ == old(self).progress@,
            final(self).stats@ == old(self).stats@,
    {
        let already = leaderboard_contains(&self.leaderboard, player);
        if !already {
            proof {
                let s = self.leaderboard@;
                assert forall|i: int, j: int|
                    0 <= i < s.push(player).len() && 0 <= j < s.push(player).len() && i != j
                    implies s.push(player)[i] != s.push(player)[j] by {
                    if i < s.len() && j < s.len() {
                        assert(s[i] != s[j]);
                    } else if i == s.len() {
                        if s.push(player)[i] == s.push(player)[j] {
                            assert(s.contains(player));
                        }
                    } else {
                        if s.push(player)[i] == s.push(player)[j] {
                            assert(s.contains(player));
                        }
                    }
                }
                assert(s.push(player)[s.len() as int] == player);
                assert(s.push(player).contains(player));
            }
            self.leaderboard.push(player);
        }
    }

    /// Looks a mission up by id.
    pub fn get_mission(&self, mission_id: u64) -> (r: Result<Mission, Error>)
        ensures
            mission_id < self.missions@.len() ==> r == Result::<Mission, Error>::Ok(
                self.missions@[mission_id as int],
            ),
            mission_id >= self.missions@.len() ==> r == Result::<Mission, Error>::Err(
                Error::MissionNotFound,
            ),
    {
        if mission_id < self.missions.len() as u64 {
            Result::Ok(self.missions[mission_id as usize].clone())
        } else {
            Result::Err(Error::MissionNotFound)
        }
    }

    /// Looks the progress record of `(player, mission_id)` up.
    pub fn get_player_progress(&self, player: u64, mission_id: u64) -> (r: Result<
        PlayerProgress,
        Error,
    >)
        requires
            self.wf(),
        ensures
            has_progress(self.progress@, player, mission_id) ==> r == Result::<
                PlayerProgress,
                Error,
            >::Ok(progress_at(self.progress@, player, mission_id)),
            !has_progress(self.progress@, player, mission_id) ==> r == Result::<
                PlayerProgress,
                Error,
            >::Err(Error::NoActiveMission),
    {
        match find_progress_idx(&self.progress, player, mission_id) {
            Option::Some(i) => {
                proof {
                    lemma_progress_at_index(self.progress@, player, mission_id, i as int);
                }
                Result::Ok(self.progress[i])
            },
            Option::None => Result::Err(Error::NoActiveMission),
        }
    }

    /// The stats of `player`: the all-zero default when the player has no
    /// completions; never fails.
    pub fn get_player_stats(&self, player: u64) -> (r: PlayerStats)
        requires
            self.wf(),
        ensures
            r == stats_or_default(self.stats@, player),
    {
        match find_stats_idx(&self.stats, player) {
            Option::Some(i) => {
                proof {
                    lemma_stats_at_index(self.stats@, player, i as int);
                }
                self.stats[i].1
            },
            Option::None => PlayerStats { total_missions: 0, total_score: 0, rank: 0 },
        }
    }

    /// The leaderboard, in first-completion order.
    pub fn get_leaderboard(&self) -> (r: Vec<u64>)
        ensures
            r@ == self.leaderboard@,
    {
        let n = self.leaderboard.len();
        let mut out: Vec<u64> = Vec::new();
        let mut i: usize = 0;
        while i < n
            invariant
                n == self.leaderboard@.len(),
                i <= n,
                out@ == self.leaderboard@.take(i as int),
            decreases n - i,
        {
            out.push(self.leaderboard[i]);
            proof {
                assert(self.leaderboard@.take(i as int).push(self.leaderboard@[i as int])
                    =~= self.leaderboard@.take(i as int + 1));
            }
            i = i + 1;
        }
        proof {
            assert(self.leaderboard@.take(n as int) =~= self.leaderboard@);
        }
        out
    }

    /// The fixed game-session collaborator address.
    pub fn get_game_hub(&self) -> (r: u64)
        ensures
            r == GAME_HUB_PRINCIPAL,
    {
        GAME_HUB_PRINCIPAL
    }
}

/// Completions of a capacity-bounded mission never exceed the bound.
pub proof fn lemma_capacity_never_exceeded(mm: MissionManager, i: int)
    requires
        mm.wf(),
        0 <= i < mm.missions@.len(),
        mm.missions@[i].max_completions > 0,
    ensures
        mm.missions@[i].current_completions <= mm.missions@[i].max_completions,
{
}

/// Mission ids equal their creation index: the n-th created mission has
/// id n - 1, starting at 0.
pub proof fn lemma_mission_ids_are_indices(mm: MissionManager, i: int)
    requires
        mm.wf(),
        0 <= i < mm.missions@.len(),
    ensures
        mm.missions@[i].id == i,
{
}

/// The leaderboard lists each principal at most once, however many
/// missions a player completes.
pub proof fn lemma_leaderboard_no_duplicates(mm: MissionManager, i: int, j: int)
    requires
        mm.wf(),
        0 <= i < mm.leaderboard@.len(),
        0 <= j < mm.leaderboard@.len(),
        i != j,
    ensures
        mm.leaderboard@[i] != mm.leaderboard@[j],
{
}

} // verus!
