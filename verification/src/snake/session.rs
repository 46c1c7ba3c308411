//! A player's session: what the server does with each text a client sends,
//! and the game events it records.
use vstd::prelude::*;
use super::config::{MAX_COMMANDS_PER_SECOND, MAX_RATE_VIOLATIONS};
use super::direction::Direction;
use super::location::Location;
use super::protocol::{client_command_of, ClientCommand, ClientMessage};
use super::rate_limiter::{window_answer, RateLimiter};
use super::collision::CollisionEvent;
use super::protocol::PlayerInfo;
use super::shared::{listed, snake_entries, snake_listing};
use super::snake::{Snake, SnakeState};
use dashmap::DashMap;
use super::tick::{FoodEaten, TickOutcome};
use vstd::string::StringExecFns;

verus! {

/// A location, as recorded in the event log.
#[derive(Debug, Clone, Copy, PartialEq, Eq, Structural)]
pub struct LocationData {
    pub x: i32,
    pub y: i32,
}

impl LocationData {
    /// The record of a location.
    pub fn from_location(loc: Location) -> (r: LocationData)
        ensures
            r.x == loc.x,
            r.y == loc.y,
    {
        LocationData { x: loc.x, y: loc.y }
    }
}

/// The events of the game that are recorded.
#[derive(Debug)]
pub enum GameEvent {
    /// A player connected
    PlayerJoin { player_id: u32, connection_id: String },
    /// A player disconnected
    PlayerLeave { player_id: u32, connection_id: String },
    /// A player turned
    DirectionChange { player_id: u32, direction: String },
    /// A player ate food
    FoodEaten { player_id: u32, food_id: u32, location: LocationData },
    /// A player died
    PlayerDeath { victim_id: u32, killer_id: Option<u32>, cause: String },
    /// A player sent commands too fast
    RateLimitViolation { player_id: u32, connection_id: String, violation_count: u32 },
    /// A player was disconnected for cheating
    PlayerKicked { player_id: u32, connection_id: String, reason: String },
}

/// The name of a direction's variant, as `{:?}` prints it.
pub open spec fn direction_name(d: Direction) -> Seq<char> {
    match d {
        Direction::Still => "None"@,
        Direction::North => "North"@,
        Direction::South => "South"@,
        Direction::West => "West"@,
        Direction::East => "East"@,
    }
}

/// The name of a direction's variant, as `{:?}` prints it.
pub fn direction_debug_name(d: Direction) -> (r: &'static str)
    ensures
        r@ == direction_name(d),
{
    proof {
        reveal_strlit("None");
        reveal_strlit("North");
        reveal_strlit("South");
        reveal_strlit("West");
        reveal_strlit("East");
    }
    match d {
        Direction::Still => "None",
        Direction::North => "North",
        Direction::South => "South",
        Direction::West => "West",
        Direction::East => "East",
    }
}

impl GameEvent {
    /// A player connected.
    pub fn join(player_id: u32, connection_id: &str) -> (r: GameEvent)
        ensures
            r matches GameEvent::PlayerJoin { player_id: p, connection_id: c } && p == player_id && c@ == connection_id@,
    {
        GameEvent::PlayerJoin { player_id, connection_id: connection_id.to_string() }
    }

    /// A player disconnected.
    pub fn leave(player_id: u32, connection_id: &str) -> (r: GameEvent)
        ensures
            r matches GameEvent::PlayerLeave { player_id: p, connection_id: c } && p == player_id && c@ == connection_id@,
    {
        GameEvent::PlayerLeave { player_id, connection_id: connection_id.to_string() }
    }

    /// A player turned; the direction is recorded by its variant's name.
    pub fn direction(player_id: u32, direction: Direction) -> (r: GameEvent)
        ensures
            r matches GameEvent::DirectionChange { player_id: p, direction: d } && p == player_id
                && d@ == direction_name(direction),
    {
        GameEvent::DirectionChange { player_id, direction: direction_debug_name(direction).to_string() }
    }

    /// A player ate food at a location.
    pub fn food_eaten(player_id: u32, food_id: u32, location: Location) -> (r: GameEvent)
        ensures
            r == (GameEvent::FoodEaten { player_id, food_id, location: LocationData { x: location.x, y: location.y } }),
    {
        GameEvent::FoodEaten { player_id, food_id, location: LocationData::from_location(location) }
    }

    /// A player died.
    pub fn death(victim_id: u32, killer_id: Option<u32>, cause: &str) -> (r: GameEvent)
        ensures
            r matches GameEvent::PlayerDeath { victim_id: v, killer_id: k, cause: c } && v == victim_id
                && k == killer_id && c@ == cause@,
    {
        GameEvent::PlayerDeath { victim_id, killer_id, cause: cause.to_string() }
    }

    /// A player sent commands too fast.
    pub fn rate_violation(player_id: u32, connection_id: &str, violation_count: u32) -> (r: GameEvent)
        ensures
            r matches GameEvent::RateLimitViolation { player_id: p, connection_id: c, violation_count: v }
                && p == player_id && c@ == connection_id@ && v == violation_count,
    {
        GameEvent::RateLimitViolation { player_id, connection_id: connection_id.to_string(), violation_count }
    }

    /// A player was disconnected.
    pub fn kick(player_id: u32, connection_id: &str, reason: &str) -> (r: GameEvent)
        ensures
            r matches GameEvent::PlayerKicked { player_id: p, connection_id: c, reason: s } && p == player_id
                && c@ == connection_id@ && s@ == reason@,
    {
        GameEvent::PlayerKicked { player_id, connection_id: connection_id.to_string(), reason: reason.to_string() }
    }
}

/// What the server does with a text a client sent.
#[derive(Debug, Clone, Copy, PartialEq, Eq, Structural)]
pub enum ClientAction {
    /// Turn the player's snake this way
    Steer(Direction),
    /// Drop the command: the player is over the rate; this many violations so far
    Throttle(u32),
    /// Disconnect the player: too many violations
    Kick,
    /// Nothing to do: a ping, or a text that is no command
    Ignore,
}

/// What a client's text leads to, given what the rate limiter answered for
/// a direction command from a known player: the limiter counts a violation
/// for each refused command, and the player is disconnected once the count
/// reaches the limit.
pub open spec fn action_agrees(r: ClientAction, before: u32, after: u32) -> bool {
    match r {
        ClientAction::Steer(_) => after == before,
        ClientAction::Throttle(v) => after == before + 1 && v == after && after < MAX_RATE_VIOLATIONS,
        ClientAction::Kick => after == before + 1 && after >= MAX_RATE_VIOLATIONS,
        ClientAction::Ignore => false,
    }
}

/// What the server does with a text frame from a player: a direction
/// command passes the rate limiter and turns the snake, is dropped, or gets
/// the player disconnected; a ping and any other text change nothing.
pub fn on_client_text(limiter: &mut RateLimiter, connection_id: u128, text: &str) -> (r: ClientAction)
    requires
        old(limiter).wf(),
        old(limiter).entries().contains_key(connection_id) ==> old(limiter).entries()[connection_id].violations < u32::MAX,
    ensures
        final(limiter).wf(),
        match client_command_of(text@) {
            Some(ClientCommand::Turn(d)) => {
                if old(limiter).entries().contains_key(connection_id) {
                    &&& (r is Steer ==> r == ClientAction::Steer(d))
                    &&& final(limiter).entries().dom() == old(limiter).entries().dom()
                    &&& window_answer(old(limiter).entries()[connection_id].command_times@,
                        final(limiter).entries()[connection_id].command_times@, r is Steer)
                    &&& old(limiter).entries()[connection_id].command_times@.len() < MAX_COMMANDS_PER_SECOND
                        ==> r == ClientAction::Steer(d)
                    &&& action_agrees(r, old(limiter).entries()[connection_id].violations,
                        final(limiter).entries()[connection_id].violations)
                    &&& forall|k: u128| k != connection_id && #[trigger] old(limiter).entries().contains_key(k)
                        ==> final(limiter).entries()[k] == old(limiter).entries()[k]
                } else {
                    r == ClientAction::Steer(d) && final(limiter).entries() == old(limiter).entries()
                }
            },
            _ => r == ClientAction::Ignore && final(limiter).entries() == old(limiter).entries(),
        },
{
    match ClientMessage::parse(text) {
        Some(ClientMessage::Direction(dir)) => {
            let (allowed, kick) = limiter.check_command(&connection_id);
            if kick {
                ClientAction::Kick
            } else if !allowed {
                ClientAction::Throttle(limiter.get_violations(&connection_id))
            } else {
                ClientAction::Steer(dir)
            }
        },
        _ => ClientAction::Ignore,
    }
}

/// The event recorded for what the server did with a player's text: the
/// kick and its reason, the violation and its count, or the new direction.
pub fn action_event(action: ClientAction, player_id: u32, connection_id: &str) -> (r: Option<GameEvent>)
    ensures
        action matches ClientAction::Steer(d) ==> (r matches Some(GameEvent::DirectionChange { player_id: p, direction: t })
            && p == player_id && t@ == direction_name(d)),
        action matches ClientAction::Throttle(v) ==> (r matches Some(GameEvent::RateLimitViolation {
            player_id: p, connection_id: c, violation_count: n }) && p == player_id && c@ == connection_id@ && n == v),
        action is Kick ==> (r matches Some(GameEvent::PlayerKicked { player_id: p, connection_id: c, reason: s })
            && p == player_id && c@ == connection_id@ && s@ == "rate_limit_exceeded"@),
        action is Ignore ==> r is None,
{
    proof { reveal_strlit("rate_limit_exceeded"); }
    match action {
        ClientAction::Steer(d) => Some(GameEvent::direction(player_id, d)),
        ClientAction::Throttle(v) => Some(GameEvent::rate_violation(player_id, connection_id, v)),
        ClientAction::Kick => Some(GameEvent::kick(player_id, connection_id, "rate_limit_exceeded")),
        ClientAction::Ignore => None,
    }
}

/// What a death is put down to: being killed by another snake, or running
/// into oneself.
pub open spec fn death_cause(e: CollisionEvent) -> Seq<char> {
    if e.killer_id is Some { "killed_by_other"@ } else { "self_collision"@ }
}

/// The record of a death.
pub fn death_event(e: &CollisionEvent) -> (r: GameEvent)
    ensures
        r matches GameEvent::PlayerDeath { victim_id: v, killer_id: k, cause: c } && v == e.victim_id
            && k == e.killer_id && c@ == death_cause(*e),
{
    proof {
        reveal_strlit("killed_by_other");
        reveal_strlit("self_collision");
    }
    let cause = if e.killer_id.is_some() { "killed_by_other" } else { "self_collision" };
    GameEvent::death(e.victim_id, e.killer_id, cause)
}

/// The record of a meal.
pub fn meal_event(m: &FoodEaten) -> (r: GameEvent)
    ensures
        r matches GameEvent::FoodEaten { player_id: p, food_id: f, location: l } && p == m.snake_id
            && f == m.food_id && l.x == m.location.x && l.y == m.location.y,
{
    GameEvent::food_eaten(m.snake_id, m.food_id, m.location)
}

/// Whether an event records a given death.
pub open spec fn records_death(g: GameEvent, e: CollisionEvent) -> bool {
    g matches GameEvent::PlayerDeath { victim_id: v, killer_id: k, cause: c } && v == e.victim_id
        && k == e.killer_id && c@ == death_cause(e)
}

/// Whether an event records a given meal.
pub open spec fn records_meal(g: GameEvent, m: FoodEaten) -> bool {
    g matches GameEvent::FoodEaten { player_id: p, food_id: f, location: l } && p == m.snake_id
        && f == m.food_id && l.x == m.location.x && l.y == m.location.y
}

/// The records of a tick: each death, in order, then each meal, in order.
pub fn tick_events(outcome: &TickOutcome) -> (r: Vec<GameEvent>)
    ensures
        r@.len() == outcome.deaths@.len() + outcome.eaten@.len(),
        forall|i: int| 0 <= i < outcome.deaths@.len() ==> records_death(#[trigger] r@[i], outcome.deaths@[i]),
        forall|i: int| 0 <= i < outcome.eaten@.len() ==>
            records_meal(#[trigger] r@[outcome.deaths@.len() + i], outcome.eaten@[i]),
{
    let mut out: Vec<GameEvent> = Vec::new();
    let mut i: usize = 0;
    while i < outcome.deaths.len()
        invariant
            i <= outcome.deaths@.len(),
            out@.len() == i,
            forall|k: int| 0 <= k < i ==> records_death(#[trigger] out@[k], outcome.deaths@[k]),
        decreases outcome.deaths@.len() - i,
    {
        out.push(death_event(&outcome.deaths[i]));
        i = i + 1;
    }
    let n = out.len();
    let mut j: usize = 0;
    while j < outcome.eaten.len()
        invariant
            n == outcome.deaths@.len(),
            j <= outcome.eaten@.len(),
            out@.len() == n + j,
            forall|k: int| 0 <= k < n ==> records_death(#[trigger] out@[k], outcome.deaths@[k]),
            forall|k: int| 0 <= k < j ==> records_meal(#[trigger] out@[n + k], outcome.eaten@[k]),
        decreases outcome.eaten@.len() - j,
    {
        out.push(meal_event(&outcome.eaten[j]));
        j = j + 1;
    }
    out
}

/// What a join announces: every snake in the game, by identifier and color.
pub fn players_info(snakes: &Vec<Snake>) -> (r: Vec<PlayerInfo>)
    ensures
        r@.len() == snakes@.len(),
        forall|i: int| 0 <= i < snakes@.len() ==> (#[trigger] r@[i]).id == snakes@[i].ident()
            && r@[i].color@ == snakes@[i].paint(),
{
    let mut out: Vec<PlayerInfo> = Vec::new();
    let mut i: usize = 0;
    while i < snakes.len()
        invariant
            i <= snakes@.len(),
            out@.len() == i,
            forall|k: int| 0 <= k < i ==> (#[trigger] out@[k]).id == snakes@[k].ident()
                && out@[k].color@ == snakes@[k].paint(),
        decreases snakes@.len() - i,
    {
        out.push(PlayerInfo { id: snakes[i].id, color: snakes[i].color.clone() });
        i = i + 1;
    }
    out
}

/// The players of a map of snakes, in the map's walking order: each
/// snake's identifier and color. The order is the map's own.
pub fn players_of(snakes: &DashMap<u128, Snake>) -> (r: Vec<PlayerInfo>)
    ensures
        exists|keys: Seq<u128>, s: Seq<SnakeState>| #![trigger listed(keys, s, snake_entries(*snakes))]
            listed(keys, s, snake_entries(*snakes)) && r@.len() == s.len()
            && forall|i: int| 0 <= i < s.len() ==> (#[trigger] r@[i]).id == s[i].id && r@[i].color@ == s[i].color,
{
    let (keys, list) = snake_listing(snakes);
    let r = players_info(&list);
    proof {
        let s = super::collision::states(list@);
        assert(listed(keys@, s, snake_entries(*snakes)));
    }
    r
}

} // verus!
