//! Server configuration: the local monitors, the remote clients and their
//! placement in the global coordinate space, the listening port and the
//! optional shared secret.

use vstd::prelude::*;

verus! {

/// One monitor physically attached to the server host. `x`, `y` is the
/// top-left corner in the global coordinate space, in whole pixels.
pub struct LocalScreen {
    pub x: i32,
    pub y: i32,
    pub width: u32,
    pub height: u32,
}

/// A remote machine that can receive forwarded input. Its rectangle is
/// placed in the same global coordinate space as the local screens;
/// `name` is both the display label and the routing identifier.
pub struct ClientConfig {
    pub name: String,
    pub ip: String,
    pub x: i32,
    pub y: i32,
    pub width: u32,
    pub height: u32,
}

/// The whole server configuration, read once at startup and replaced
/// atomically on reload.
pub struct Config {
    pub port: u16,
    pub secret: Option<String>,
    pub input_grab_hotkey: Option<String>,
    pub local_screens: Vec<LocalScreen>,
    pub clients: Vec<ClientConfig>,
}

/// The monitor layout assumed when the configuration names none:
/// a single screen at the origin.
pub fn default_local_screens() -> (r: Vec<LocalScreen>)
    ensures
        r@.len() == 1,
        r@[0].x == 0 && r@[0].y == 0 && r@[0].width == 1920 && r@[0].height == 1080,
{
    let mut v: Vec<LocalScreen> = Vec::new();
    v.push(LocalScreen { x: 0, y: 0, width: 1920, height: 1080 });
    v
}

/// Width assumed for a client whose configuration entry gives none.
pub fn default_width() -> (r: u32)
    ensures
        r == 1920,
{
    1920
}

/// Height assumed for a client whose configuration entry gives none.
pub fn default_height() -> (r: u32)
    ensures
        r == 1080,
{
    1080
}

} // verus!
