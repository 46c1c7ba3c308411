//! Rate limiting of direction commands, against cheating clients.
use vstd::prelude::*;
use dashmap::DashMap;
use std::collections::VecDeque;
use std::time::Instant;
use super::config::{MAX_COMMANDS_PER_SECOND, MAX_RATE_VIOLATIONS, RATE_LIMIT_WINDOW_MS};

verus! {

/// The standard library's monotonic clock reading.
#[verifier::external_type_specification]
#[verifier::external_body]
pub struct ExInstant(Instant);

/// `std::time::Instant::now`: the current reading of the monotonic clock.
/// Nothing is promised of it.
#[verifier::external_body]
fn instant_now() -> Instant {
    Instant::now()
}

/// `std::time::Instant::elapsed` in nanoseconds: the time since `origin`.
/// Nothing is promised of it.
#[verifier::external_body]
fn nanos_since(origin: &Instant) -> u64 {
    origin.elapsed().as_nanos() as u64
}

/// The rate limit window in nanoseconds.
pub const WINDOW_NANOS: u64 = 1_000_000_000;

/// The number of leading command times that lie before the window that
/// ends at `now`.
pub open spec fn expired_count(times: Seq<u64>, now: u64) -> nat
    decreases times.len(),
{
    if times.len() > 0 && times[0] + WINDOW_NANOS < now {
        1 + expired_count(times.skip(1), now)
    } else {
        0
    }
}

/// One command at `now`: the window's times with the expired ones dropped
/// from the front, and `now` added when fewer than the maximum remain;
/// with whether the command was allowed.
pub open spec fn limiter_step(times: Seq<u64>, now: u64) -> (Seq<u64>, bool) {
    let kept = times.skip(expired_count(times, now) as int);
    if kept.len() < MAX_COMMANDS_PER_SECOND { (kept.push(now), true) } else { (kept, false) }
}

/// The limiter's answer for one command at some clock reading: the window
/// went from `before` to `after`, and the command was allowed or not, as
/// `limiter_step` gives for that reading.
pub open spec fn window_answer(before: Seq<u64>, after: Seq<u64>, allowed: bool) -> bool {
    exists|now: u64| #[trigger] limiter_step(before, now) == (after, allowed)
}

/// Whatever the clock reads, a window holding fewer commands than the
/// maximum lets the next one in.
proof fn lemma_room_admits(times: Seq<u64>, now: u64)
    requires
        times.len() < MAX_COMMANDS_PER_SECOND,
    ensures
        limiter_step(times, now).1,
{
    lemma_expired_prefix(times, now);
}

/// Commands arriving at the given times, one after another, from a fresh
/// state: the window's times at the end, and the times of the commands
/// that were allowed.
pub open spec fn limiter_run(arrivals: Seq<u64>) -> (Seq<u64>, Seq<u64>)
    decreases arrivals.len(),
{
    if arrivals.len() == 0 {
        (Seq::empty(), Seq::empty())
    } else {
        let before = limiter_run(arrivals.drop_last());
        let step = limiter_step(before.0, arrivals.last());
        (step.0, if step.1 { before.1.push(arrivals.last()) } else { before.1 })
    }
}

/// How many of some times fall in the window from `start` to one window
/// length later, both ends included.
pub open spec fn window_count(times: Seq<u64>, start: int) -> nat
    decreases times.len(),
{
    if times.len() == 0 {
        0
    } else {
        window_count(times.drop_last(), start)
            + if start <= times.last() && times.last() <= start + WINDOW_NANOS { 1nat } else { 0nat }
    }
}

proof fn lemma_expired_prefix(times: Seq<u64>, now: u64)
    ensures
        expired_count(times, now) <= times.len(),
        forall|k: int| 0 <= k < expired_count(times, now) ==> times[k] + WINDOW_NANOS < now,
    decreases times.len(),
{
    if times.len() > 0 && times[0] + WINDOW_NANOS < now {
        lemma_expired_prefix(times.skip(1), now);
        assert forall|k: int| 0 <= k < expired_count(times, now) implies times[k] + WINDOW_NANOS < now by {
            if k > 0 {
                assert(times[k] == times.skip(1)[k - 1]);
            }
        }
    }
}

proof fn lemma_window_split(times: Seq<u64>, start: int, e: int)
    requires
        0 <= e <= times.len(),
    ensures
        window_count(times, start) == window_count(times.take(e), start) + window_count(times.skip(e), start),
    decreases times.len(),
{
    if e == times.len() {
        assert(times.take(e) =~= times);
        assert(times.skip(e) =~= Seq::<u64>::empty());
    } else {
        lemma_window_split(times.drop_last(), start, e);
        assert(times.drop_last().take(e) =~= times.take(e));
        assert(times.drop_last().skip(e) =~= times.skip(e).drop_last());
        assert(times.skip(e).last() == times.last());
    }
}

proof fn lemma_window_bounds(times: Seq<u64>, start: int)
    ensures
        window_count(times, start) <= times.len(),
        (forall|k: int| 0 <= k < times.len() ==> times[k] < start) ==> window_count(times, start) == 0,
    decreases times.len(),
{
    if times.len() > 0 {
        lemma_window_bounds(times.drop_last(), start);
    }
}

/// The window's times are the allowed times after some prefix, and that
/// prefix holds only times that expired before the last arrival.
proof fn lemma_run_window(arrivals: Seq<u64>)
    requires
        arrivals.len() > 0,
        forall|i: int, j: int| 0 <= i <= j < arrivals.len() ==> arrivals[i] <= arrivals[j],
    ensures
        exists|e: int| 0 <= e <= limiter_run(arrivals).1.len() && {
            &&& limiter_run(arrivals).0 == #[trigger] limiter_run(arrivals).1.skip(e)
            &&& forall|k: int| 0 <= k < e ==> limiter_run(arrivals).1[k] + WINDOW_NANOS < arrivals.last()
        },
    decreases arrivals.len(),
{
    let init = arrivals.drop_last();
    let now = arrivals.last();
    let before = limiter_run(init);
    let e0: int = if init.len() == 0 {
        0
    } else {
        lemma_run_window(init);
        choose|e: int| 0 <= e <= limiter_run(init).1.len() && {
            &&& limiter_run(init).0 == #[trigger] limiter_run(init).1.skip(e)
            &&& forall|k: int| 0 <= k < e ==> limiter_run(init).1[k] + WINDOW_NANOS < init.last()
        }
    };
    if init.len() == 0 {
        assert(before.0 =~= before.1.skip(0));
    } else {
        assert(init.last() <= now);
    }
    let a = before.1;
    let q = before.0;
    let c = expired_count(q, now) as int;
    lemma_expired_prefix(q, now);
    let e1 = e0 + c;
    assert(q.skip(c) =~= a.skip(e1));
    assert forall|k: int| 0 <= k < e1 implies a[k] + WINDOW_NANOS < now by {
        if k >= e0 {
            assert(q[k - e0] == a[k]);
        }
    }
    let step = limiter_step(q, now);
    if step.1 {
        let a2 = a.push(now);
        assert(a.skip(e1).push(now) =~= a2.skip(e1));
        assert forall|k: int| 0 <= k < e1 implies a2[k] + WINDOW_NANOS < now by {
            assert(a2[k] == a[k]);
        }
        assert(limiter_run(arrivals).1 == a2);
        assert(limiter_run(arrivals).0 == limiter_run(arrivals).1.skip(e1));
        assert(forall|k: int| 0 <= k < e1 ==> limiter_run(arrivals).1[k] + WINDOW_NANOS < arrivals.last());
    } else {
        assert(limiter_run(arrivals).1 == a);
        assert(limiter_run(arrivals).0 == limiter_run(arrivals).1.skip(e1));
        assert(forall|k: int| 0 <= k < e1 ==> limiter_run(arrivals).1[k] + WINDOW_NANOS < arrivals.last());
    }
}

/// Commands arriving in time order: of those the limiter allows, no more
/// than the maximum fall in any one window.
pub proof fn lemma_window_limit(arrivals: Seq<u64>, start: int)
    requires
        forall|i: int, j: int| 0 <= i <= j < arrivals.len() ==> arrivals[i] <= arrivals[j],
    ensures
        window_count(limiter_run(arrivals).1, start) <= MAX_COMMANDS_PER_SECOND,
    decreases arrivals.len(),
{
    if arrivals.len() > 0 {
        let init = arrivals.drop_last();
        let now = arrivals.last();
        lemma_window_limit(init, start);
        let before = limiter_run(init);
        let a = before.1;
        let q = before.0;
        let c = expired_count(q, now) as int;
        let step = limiter_step(q, now);
        if step.1 && start <= now && now <= start + WINDOW_NANOS {
            // Before this arrival, the allowed times in the window are all
            // still in the window's queue, which had room for one more.
            let e0: int = if init.len() == 0 {
                assert(q =~= a.skip(0));
                0
            } else {
                lemma_run_window(init);
                assert(init.last() <= now);
                choose|e: int| 0 <= e <= limiter_run(init).1.len() && {
                    &&& limiter_run(init).0 == #[trigger] limiter_run(init).1.skip(e)
                    &&& forall|k: int| 0 <= k < e ==> limiter_run(init).1[k] + WINDOW_NANOS < init.last()
                }
            };
            lemma_expired_prefix(q, now);
            let e1 = e0 + c;
            assert(q.skip(c) =~= a.skip(e1));
            assert forall|k: int| 0 <= k < e1 implies a.take(e1)[k] < start by {
                if k >= e0 {
                    assert(q[k - e0] == a[k]);
                }
            }
            lemma_window_split(a, start, e1);
            lemma_window_bounds(a.take(e1), start);
            lemma_window_bounds(a.skip(e1), start);
            assert(a.push(now).drop_last() =~= a);
        } else if step.1 {
            assert(a.push(now).drop_last() =~= a);
        }
    }
}

/// Rate limiter state for a single player
#[derive(Debug)]
pub struct PlayerRateState {
    /// Times of recent commands, in nanoseconds since `origin`
    pub command_times: VecDeque<u64>,
    /// Number of rate limit violations
    pub violations: u32,
    /// The clock reading that command times count from
    pub origin: Instant,
}

impl PlayerRateState {
    /// The state's invariant: no more commands in the window than allowed.
    pub open spec fn wf(&self) -> bool {
        self.command_times@.len() <= MAX_COMMANDS_PER_SECOND
    }

    /// A fresh state: no commands, no violations.
    pub fn new() -> (r: PlayerRateState)
        ensures
            r.wf(),
            r.command_times@.len() == 0,
            r.violations == 0,
    {
        PlayerRateState { command_times: VecDeque::new(), violations: 0, origin: instant_now() }
    }

    /// Check if a new command, arriving now, is allowed.
    /// Returns (allowed, should_kick).
    pub fn check_command(&mut self) -> (r: (bool, bool))
        requires
            old(self).wf(),
            old(self).violations < u32::MAX,
        ensures
            final(self).wf(),
            window_answer(old(self).command_times@, final(self).command_times@, r.0),
            old(self).command_times@.len() < MAX_COMMANDS_PER_SECOND ==> r.0,
            final(self).violations == old(self).violations + if r.0 { 0int } else { 1 },
            r.1 == (!r.0 && final(self).violations >= MAX_RATE_VIOLATIONS),
    {
        let now = nanos_since(&self.origin);
        let r = self.check_command_at(now);
        proof {
            if old(self).command_times@.len() < MAX_COMMANDS_PER_SECOND {
                lemma_room_admits(old(self).command_times@, now);
            }
            assert(limiter_step(old(self).command_times@, now) == (self.command_times@, r.0));
        }
        r
    }

    /// Check if a command arriving at `now` (nanoseconds since the origin) is
    /// allowed. Command times older than the window are dropped from the
    /// front; if fewer than the maximum remain the command is recorded and
    /// allowed, otherwise it is refused, a violation is counted, and the
    /// player is to be kicked once the violations reach the maximum.
    /// Returns (allowed, should_kick).
    pub fn check_command_at(&mut self, now: u64) -> (r: (bool, bool))
        requires
            old(self).wf(),
            old(self).violations < u32::MAX,
        ensures
            final(self).wf(),
            (final(self).command_times@, r.0) == limiter_step(old(self).command_times@, now),
            ({
                let kept = old(self).command_times@.skip(expired_count(old(self).command_times@, now) as int);
                if kept.len() < MAX_COMMANDS_PER_SECOND {
                    &&& r == (true, false)
                    &&& final(self).command_times@ == kept.push(now)
                    &&& final(self).violations == old(self).violations
                } else {
                    &&& !r.0
                    &&& final(self).command_times@ == kept
                    &&& final(self).violations == old(self).violations + 1
                    &&& r.1 == (final(self).violations >= MAX_RATE_VIOLATIONS)
                }
            }),
    {
        let ghost start = self.command_times@;
        let ghost dropped: nat = 0;
        while self.command_times.len() > 0 && self.command_times[0] < now && now - self.command_times[0] > WINDOW_NANOS
            invariant
                dropped <= start.len(),
                self.command_times@ == start.skip(dropped as int),
                expired_count(start, now) == dropped + expired_count(self.command_times@, now),
                self.violations == old(self).violations,
                self.violations < u32::MAX,
                start == old(self).command_times@,
                start.len() <= MAX_COMMANDS_PER_SECOND,
            decreases self.command_times@.len(),
        {
            let ghost cur = self.command_times@;
            let _ = self.command_times.pop_front();
            proof {
                assert(cur.skip(1) =~= self.command_times@);
                assert(start.skip(dropped as int + 1) =~= start.skip(dropped as int).skip(1));
                dropped = dropped + 1;
            }
        }
        proof {
            let c = self.command_times@;
            if c.len() > 0 {
                assert(!(c[0] + WINDOW_NANOS < now));
            }
            assert(expired_count(c, now) == 0);
        }
        if self.command_times.len() < MAX_COMMANDS_PER_SECOND as usize {
            self.command_times.push_back(now);
            (true, false)
        } else {
            self.violations = self.violations + 1;
            let should_kick = self.violations >= MAX_RATE_VIOLATIONS;
            (false, should_kick)
        }
    }

    /// Get current violation count
    pub fn violation_count(&self) -> (r: u32)
        ensures
            r == self.violations,
    {
        self.violations
    }

    /// Get commands in current window
    pub fn commands_in_window(&self) -> (r: usize)
        ensures
            r == self.command_times@.len(),
    {
        self.command_times.len()
    }
}

/// What a map of players' rate states holds, by connection identifier.
pub uninterp spec fn player_entries(m: DashMap<u128, PlayerRateState>) -> Map<u128, PlayerRateState>;

/// `DashMap::new`: a map that holds no players.
#[verifier::external_body]
fn no_players() -> (r: DashMap<u128, PlayerRateState>)
    ensures
        player_entries(r).dom() == Set::<u128>::empty(),
{
    DashMap::new()
}

/// `DashMap::insert` of a player's state: the key now holds it, whatever
/// it held.
#[verifier::external_body]
fn put_player(m: &mut DashMap<u128, PlayerRateState>, key: u128, state: PlayerRateState)
    ensures
        player_entries(*final(m)) == player_entries(*old(m)).insert(key, state),
{
    m.insert(key, state);
}

/// `DashMap::remove`: the player's state taken out of the map, where it
/// held one.
#[verifier::external_body]
fn take_player(m: &mut DashMap<u128, PlayerRateState>, key: &u128) -> (r: Option<PlayerRateState>)
    ensures
        player_entries(*final(m)) == player_entries(*old(m)).remove(*key),
        r == (if player_entries(*old(m)).contains_key(*key) {
            Some(player_entries(*old(m))[*key])
        } else {
            None
        }),
{
    m.remove(key).map(|(_, s)| s)
}

/// `DashMap::get` of a player's violation count, where the map holds the
/// player.
#[verifier::external_body]
fn player_violations(m: &DashMap<u128, PlayerRateState>, key: &u128) -> (r: Option<u32>)
    ensures
        r == (if player_entries(*m).contains_key(*key) {
            Some(player_entries(*m)[*key].violations)
        } else {
            None
        }),
{
    m.get(key).map(|s| s.violations)
}

/// Global rate limiter managing all players, by connection identifier. A
/// read of its map gives what it holds while no other thread changes it;
/// the server keeps the limiter behind a lock.
#[derive(Debug)]
pub struct RateLimiter {
    /// Rate state per player connection
    pub players: DashMap<u128, PlayerRateState>,
}

impl RateLimiter {
    /// The players' states, by connection identifier.
    pub open spec fn entries(&self) -> Map<u128, PlayerRateState> {
        player_entries(self.players)
    }

    /// The limiter's invariant: every player's state keeps its own.
    pub open spec fn wf(&self) -> bool {
        forall|k: u128| #[trigger] self.entries().contains_key(k) ==> self.entries()[k].wf()
    }

    /// No players.
    pub fn new() -> (r: RateLimiter)
        ensures
            r.wf(),
            r.entries() == Map::<u128, PlayerRateState>::empty(),
    {
        let r = RateLimiter { players: no_players() };
        proof { assert(r.entries() =~= Map::<u128, PlayerRateState>::empty()); }
        r
    }

    /// Register a new player (a fresh state replaces any earlier one).
    pub fn add_player(&mut self, connection_id: u128)
        requires
            old(self).wf(),
        ensures
            final(self).wf(),
            final(self).entries().dom() == old(self).entries().dom().insert(connection_id),
            final(self).entries()[connection_id].command_times@.len() == 0,
            final(self).entries()[connection_id].violations == 0,
            forall|k: u128| k != connection_id && #[trigger] old(self).entries().contains_key(k)
                ==> final(self).entries()[k] == old(self).entries()[k],
    {
        let fresh = PlayerRateState::new();
        let ghost g = fresh;
        put_player(&mut self.players, connection_id, fresh);
        proof {
            assert forall|k: u128| #[trigger] self.entries().contains_key(k) implies self.entries()[k].wf() by {
                if k != connection_id {
                    assert(old(self).entries().contains_key(k));
                } else {
                    assert(self.entries()[k] == g);
                }
            }
        }
    }

    /// Remove a player
    pub fn remove_player(&mut self, connection_id: &u128)
        requires
            old(self).wf(),
        ensures
            final(self).wf(),
            final(self).entries() == old(self).entries().remove(*connection_id),
    {
        let _ = take_player(&mut self.players, connection_id);
    }

    /// Check if a command from a player is allowed; an unknown player is
    /// allowed and not tracked. Returns (allowed, should_kick).
    pub fn check_command(&mut self, connection_id: &u128) -> (r: (bool, bool))
        requires
            old(self).wf(),
            old(self).entries().contains_key(*connection_id) ==> old(self).entries()[*connection_id].violations < u32::MAX,
        ensures
            final(self).wf(),
            !old(self).entries().contains_key(*connection_id) ==> r == (true, false) && final(self).entries() == old(self).entries(),
            old(self).entries().contains_key(*connection_id) ==> {
                &&& final(self).entries().dom() == old(self).entries().dom()
                &&& window_answer(old(self).entries()[*connection_id].command_times@,
                    final(self).entries()[*connection_id].command_times@, r.0)
                &&& old(self).entries()[*connection_id].command_times@.len() < MAX_COMMANDS_PER_SECOND ==> r.0
                &&& final(self).entries()[*connection_id].violations
                    == old(self).entries()[*connection_id].violations + if r.0 { 0int } else { 1 }
                &&& r.1 == (!r.0 && final(self).entries()[*connection_id].violations >= MAX_RATE_VIOLATIONS)
                &&& forall|k: u128| k != *connection_id && #[trigger] old(self).entries().contains_key(k)
                    ==> final(self).entries()[k] == old(self).entries()[k]
            },
    {
        let id = *connection_id;
        match take_player(&mut self.players, &id) {
            Some(mut state) => {
                let r = state.check_command();
                put_player(&mut self.players, id, state);
                proof {
                    assert(self.entries().dom() =~= old(self).entries().dom());
                }
                r
            },
            None => {
                proof { assert(self.entries() =~= old(self).entries()); }
                (true, false)
            },
        }
    }

    /// Get violation count for a player (0 for an unknown one).
    pub fn get_violations(&self, connection_id: &u128) -> (r: u32)
        ensures
            r == if self.entries().contains_key(*connection_id) {
                self.entries()[*connection_id].violations
            } else {
                0
            },
    {
        match player_violations(&self.players, connection_id) {
            Some(v) => v,
            None => 0,
        }
    }
}

} // verus!
