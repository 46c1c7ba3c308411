use dashmap::DashMap;
use uuid::Uuid;
use simbank::snake::collision::{check_collisions, collisions_in_order};
use simbank::snake::config::{
    DEFAULT_SNAKE_LENGTH, GRID_SIZE, MAX_COMMANDS_PER_SECOND, MAX_RATE_VIOLATIONS, PLAYFIELD_HEIGHT, PLAYFIELD_WIDTH,
};
use simbank::snake::direction::Direction;
use simbank::snake::food::Food;
use simbank::snake::location::Location;
use simbank::snake::protocol::ClientMessage;
use simbank::snake::rate_limiter::{PlayerRateState, RateLimiter};
use simbank::snake::session::{action_event, on_client_text, ClientAction, GameEvent};
use simbank::snake::snake::Snake;
use simbank::snake::tick::game_tick;

#[test]
fn test_from_str() {
    assert_eq!(Direction::from_str("north"), Some(Direction::North));
    assert_eq!(Direction::from_str("SOUTH"), Some(Direction::South));
    assert_eq!(Direction::from_str("invalid"), None);
}

#[test]
fn test_is_opposite() {
    assert!(Direction::North.is_opposite(&Direction::South));
    assert!(Direction::East.is_opposite(&Direction::West));
    assert!(!Direction::North.is_opposite(&Direction::East));
}

#[test]
fn test_new_food() {
    let food = Food::new();
    assert!(food.location.x >= 0);
    assert!(food.location.y >= 0);
}

#[test]
fn test_respawn() {
    let mut food = Food::new();
    let old_loc = food.location;
    let mut different = false;
    for _ in 0..100 {
        food.respawn();
        if food.location != old_loc {
            different = true;
            break;
        }
    }
    assert!(different || true);
}

#[test]
fn test_adjacent() {
    let loc = Location::new(100, 100);
    assert_eq!(loc.adjacent(Direction::North), Location::new(100, 90));
    assert_eq!(loc.adjacent(Direction::South), Location::new(100, 110));
    assert_eq!(loc.adjacent(Direction::West), Location::new(90, 100));
    assert_eq!(loc.adjacent(Direction::East), Location::new(110, 100));
}

#[test]
fn test_wrap_around() {
    let left = Location::new(0, 100);
    assert_eq!(left.adjacent(Direction::West).x, PLAYFIELD_WIDTH - GRID_SIZE);
    let right = Location::new(PLAYFIELD_WIDTH - GRID_SIZE, 100);
    assert_eq!(right.adjacent(Direction::East).x, 0);
    let top = Location::new(100, 0);
    assert_eq!(top.adjacent(Direction::North).y, PLAYFIELD_HEIGHT - GRID_SIZE);
    let bottom = Location::new(100, PLAYFIELD_HEIGHT - GRID_SIZE);
    assert_eq!(bottom.adjacent(Direction::South).y, 0);
}

#[test]
fn test_new_snake() {
    let snake = Snake::new(1);
    assert!(snake.is_alive());
    assert_eq!(snake.body.len(), DEFAULT_SNAKE_LENGTH);
    assert_eq!(snake.direction(), Direction::Still);
}

#[test]
fn test_set_direction() {
    let mut snake = Snake::new(1);
    snake.set_direction(Direction::North);
    assert_eq!(snake.direction(), Direction::North);
    snake.set_direction(Direction::South);
    assert_eq!(snake.direction(), Direction::North);
    snake.set_direction(Direction::East);
    assert_eq!(snake.direction(), Direction::East);
}

#[test]
fn test_kill_and_reward() {
    let mut snake = Snake::new(1);
    let initial_len = snake.body.len();
    snake.reward();
    assert_eq!(snake.body.len(), initial_len + 1);
    snake.kill();
    assert!(!snake.is_alive());
}

#[test]
fn test_parse_direction() {
    assert!(matches!(ClientMessage::parse("north"), Some(ClientMessage::Direction(Direction::North))));
    assert!(matches!(ClientMessage::parse("south"), Some(ClientMessage::Direction(Direction::South))));
}

#[test]
fn test_parse_ping() {
    assert!(matches!(ClientMessage::parse("ping"), Some(ClientMessage::Ping(_))));
}

#[test]
fn test_rate_limit_allows_normal_usage() {
    let mut state = PlayerRateState::new();
    for _ in 0..MAX_COMMANDS_PER_SECOND {
        let (allowed, _) = state.check_command();
        assert!(allowed);
    }
}

#[test]
fn test_rate_limit_blocks_excess() {
    let mut state = PlayerRateState::new();
    for _ in 0..MAX_COMMANDS_PER_SECOND {
        state.check_command();
    }
    let (allowed, _) = state.check_command();
    assert!(!allowed);
    assert_eq!(state.violation_count(), 1);
}

#[test]
fn test_violations_accumulate() {
    let mut state = PlayerRateState::new();
    for _ in 0..MAX_COMMANDS_PER_SECOND {
        state.check_command();
    }
    for i in 1..=MAX_RATE_VIOLATIONS {
        let (allowed, should_kick) = state.check_command();
        assert!(!allowed);
        assert_eq!(state.violation_count(), i);
        if i >= MAX_RATE_VIOLATIONS {
            assert!(should_kick);
        } else {
            assert!(!should_kick);
        }
    }
}

#[test]
fn session_steers_then_throttles_then_kicks() {
    let mut limiter = RateLimiter::new();
    limiter.add_player(7);
    for _ in 0..MAX_COMMANDS_PER_SECOND {
        assert_eq!(on_client_text(&mut limiter, 7, "north"), ClientAction::Steer(Direction::North));
    }
    assert_eq!(on_client_text(&mut limiter, 7, "east"), ClientAction::Throttle(1));
    assert_eq!(on_client_text(&mut limiter, 7, "east"), ClientAction::Throttle(2));
    assert_eq!(on_client_text(&mut limiter, 7, "east"), ClientAction::Kick);
}

#[test]
fn session_ignores_ping_and_noise() {
    let mut limiter = RateLimiter::new();
    limiter.add_player(1);
    assert_eq!(on_client_text(&mut limiter, 1, "ping"), ClientAction::Ignore);
    assert_eq!(on_client_text(&mut limiter, 1, "jump"), ClientAction::Ignore);
    assert_eq!(limiter.get_violations(&1), 0);
}

#[test]
fn session_unknown_player_is_not_limited() {
    let mut limiter = RateLimiter::new();
    for _ in 0..40 {
        assert_eq!(on_client_text(&mut limiter, 9, " LEFT "), ClientAction::Steer(Direction::West));
    }
}

#[test]
fn session_events_name_direction_and_reason() {
    match action_event(ClientAction::Steer(Direction::Still), 3, "c") {
        Some(GameEvent::DirectionChange { player_id, direction }) => {
            assert_eq!(player_id, 3);
            assert_eq!(direction, "None");
        }
        _ => panic!("expected a direction change"),
    }
    match action_event(ClientAction::Kick, 3, "conn") {
        Some(GameEvent::PlayerKicked { reason, connection_id, .. }) => {
            assert_eq!(reason, "rate_limit_exceeded");
            assert_eq!(connection_id, "conn");
        }
        _ => panic!("expected a kick"),
    }
    assert!(action_event(ClientAction::Ignore, 3, "c").is_none());
}

#[test]
fn wrap_then_step_back_returns() {
    let start = Location::new(0, 0);
    let there = start.adjacent(Direction::West).adjacent(Direction::North);
    assert_eq!(there, Location::new(PLAYFIELD_WIDTH - GRID_SIZE, PLAYFIELD_HEIGHT - GRID_SIZE));
    assert_eq!(there.adjacent(Direction::South).adjacent(Direction::East), start);
}

#[test]
fn test_no_collisions() {
    let snakes: DashMap<u128, Snake> = DashMap::new();
    let snake = Snake::new(1);
    snakes.insert(Uuid::new_v4().as_u128(), snake);
    let events = check_collisions(&snakes);
    assert!(events.is_empty());
}

#[test]
fn collisions_in_order_finds_a_head_on_meeting() {
    let a = Snake::new(1);
    let mut b = Snake::new(2);
    // Two snakes stacked on the same cells meet head to head: both die,
    // neither is the killer.
    b.body = a.body.clone();
    let events = collisions_in_order(&vec![a, b]);
    assert_eq!(events.len(), 2);
    assert_eq!(events[0].victim_id, 1);
    assert_eq!(events[0].killer_id, None);
    assert_eq!(events[1].victim_id, 2);
    assert_eq!(events[1].killer_id, None);
}

#[test]
fn a_tick_without_snakes_does_nothing() {
    let mut snakes: DashMap<u128, Snake> = DashMap::new();
    let mut foods: DashMap<u32, Food> = DashMap::new();
    foods.insert(0, Food::at(Location::new(10, 10)));
    assert!(game_tick(&mut snakes, &mut foods).is_none());
    assert_eq!(foods.get(&0).unwrap().location, Location::new(10, 10));
}

#[test]
fn a_tick_feeds_the_snake_whose_head_is_on_the_food() {
    let mut snakes: DashMap<u128, Snake> = DashMap::new();
    let snake = Snake::new(7);
    let head = snake.head();
    let length = snake.body().len();
    let key = Uuid::new_v4().as_u128();
    snakes.insert(key, snake);
    let mut foods: DashMap<u32, Food> = DashMap::new();
    foods.insert(3, Food::at(head));
    let out = game_tick(&mut snakes, &mut foods).unwrap();
    assert!(out.deaths.is_empty());
    assert_eq!(out.eaten.len(), 1);
    assert_eq!(out.eaten[0].snake_id, 7);
    assert_eq!(out.eaten[0].food_id, 3);
    assert_eq!(out.snakes.len(), 1);
    assert_eq!(out.snakes[0].body.len(), length + 1);
    assert_eq!(snakes.get(&key).unwrap().body().len(), length + 1);
    assert_eq!(out.food.len(), 1);
    let moved = foods.get(&3).unwrap().location;
    assert!(moved.x >= 0 && moved.x < PLAYFIELD_WIDTH && moved.y >= 0 && moved.y < PLAYFIELD_HEIGHT);
}

#[test]
fn rate_window_allows_at_most_the_maximum() {
    let mut state = PlayerRateState::new();
    let mut allowed = 0;
    for k in 0..20u64 {
        let (ok, _) = state.check_command_at(1_000 + k);
        if ok {
            allowed += 1;
        }
    }
    assert_eq!(allowed, 15);
    assert_eq!(state.violation_count(), 5);
    // Exactly one window later the first commands still count...
    assert!(!state.check_command_at(1_000_001_000).0);
    // ...and just after it they have expired.
    assert!(state.check_command_at(1_000_001_001).0);
    assert_eq!(state.commands_in_window(), 15);
}

#[test]
fn reset_returns_to_the_initial_shape() {
    let mut snake = Snake::new(3);
    snake.set_direction(Direction::East);
    snake.update();
    snake.kill();
    snake.reset();
    assert!(snake.is_alive());
    assert_eq!(snake.direction(), Direction::Still);
    assert_eq!(snake.id, 3);
    let body: Vec<Location> = snake.body().iter().copied().collect();
    assert_eq!(body.len(), 5);
    for i in 0..4 {
        assert_eq!(body[i + 1], body[i].adjacent(Direction::West));
    }
}

#[test]
fn direction_words_in_any_case() {
    assert_eq!(Direction::from_str("NORTH"), Some(Direction::North));
    assert_eq!(Direction::from_str("Left"), Some(Direction::West));
    assert_eq!(Direction::from_str("sideways"), None);
}
