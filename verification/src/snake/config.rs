//! Game configuration constants.
use vstd::prelude::*;

verus! {

/// Playfield width in pixels
pub const PLAYFIELD_WIDTH: i32 = 640;

/// Playfield height in pixels
pub const PLAYFIELD_HEIGHT: i32 = 480;

/// Grid size (snake segment size) in pixels
pub const GRID_SIZE: i32 = 10;

/// Game tick delay in milliseconds
pub const TICK_DELAY_MS: u64 = 100;

/// Default snake length when spawning
pub const DEFAULT_SNAKE_LENGTH: usize = 5;

/// Maximum snake length for reward
pub const MAX_SNAKE_LENGTH: usize = 50;

/// WebSocket server port
pub const SERVER_PORT: u16 = 8080;

/// Broadcast channel capacity
pub const BROADCAST_CAPACITY: usize = 100;

/// Number of available snake colors
pub const SNAKE_COLOR_COUNT: usize = 10;

/// Maximum direction commands per second per player
pub const MAX_COMMANDS_PER_SECOND: u32 = 15;

/// Time window for rate limiting (in milliseconds)
pub const RATE_LIMIT_WINDOW_MS: u64 = 1000;

/// Number of violations before player is kicked
pub const MAX_RATE_VIOLATIONS: u32 = 3;

/// Enable game event logging
pub const ENABLE_EVENT_LOGGING: bool = true;

/// The file game events are written to, one JSON object per line
pub const EVENT_LOG_FILE: &'static str = "game_events.log";

/// The palette of snake colors (hex format), by index.
pub open spec fn color_text(i: int) -> Seq<char> {
    if i == 0 { "#FF0000"@ }
    else if i == 1 { "#00FF00"@ }
    else if i == 2 { "#0000FF"@ }
    else if i == 3 { "#FFFF00"@ }
    else if i == 4 { "#FF00FF"@ }
    else if i == 5 { "#00FFFF"@ }
    else if i == 6 { "#FFA500"@ }
    else if i == 7 { "#800080"@ }
    else if i == 8 { "#008080"@ }
    else { "#FFD700"@ }
}

/// The snake color at an index of the palette
/// (red, green, blue, yellow, magenta, cyan, orange, purple, teal, gold).
pub fn snake_color(i: usize) -> (r: &'static str)
    requires
        i < SNAKE_COLOR_COUNT,
    ensures
        r@ == color_text(i as int),
{
    if i == 0 { "#FF0000" }
    else if i == 1 { "#00FF00" }
    else if i == 2 { "#0000FF" }
    else if i == 3 { "#FFFF00" }
    else if i == 4 { "#FF00FF" }
    else if i == 5 { "#00FFFF" }
    else if i == 6 { "#FFA500" }
    else if i == 7 { "#800080" }
    else if i == 8 { "#008080" }
    else { "#FFD700" }
}

} // verus!
