//! The screen topology: local monitors and remote clients placed in one
//! global coordinate space, the current focus, and the virtual cursor.
//!
//! All point coordinates are in thousandths of a pixel
//! ([`crate::COORD_SCALE`] units per pixel); rectangle corners and sizes in
//! the configuration are whole pixels. Rectangle membership is half-open on
//! the right and bottom edges, so neighbouring rectangles never both claim
//! a boundary point.

use vstd::prelude::*;

use crate::COORD_SCALE;
use crate::config::{ClientConfig, Config, LocalScreen};
use crate::event::KvmEvent;

verus! {

/// Which machine currently owns user input: this one, or a remote client
/// identified by its configured name.
#[derive(Debug, Clone, PartialEq)]
pub enum Focus {
    Local,
    Client(String),
}

/// What the capture loop must do with the event it just saw: hand it to
/// the local OS unchanged, or swallow it locally and publish it to the
/// connected clients.
#[derive(Clone, Copy, Debug, PartialEq, Eq, Structural)]
pub enum RouteAction {
    PassThrough,
    Forward,
}

/// True when the point `(x, y)` (in thousandths of a pixel) lies in the
/// half-open rectangle with top-left corner `(rx, ry)` and size `w` by `h`
/// (in whole pixels).
pub open spec fn point_in_rect(rx: int, ry: int, w: int, h: int, x: int, y: int) -> bool {
    &&& (COORD_SCALE as int) * rx <= x < (COORD_SCALE as int) * (rx + w)
    &&& (COORD_SCALE as int) * ry <= y < (COORD_SCALE as int) * (ry + h)
}

/// True when `(x, y)` lies on the local screen `s`.
pub open spec fn screen_contains(s: LocalScreen, x: int, y: int) -> bool {
    point_in_rect(s.x as int, s.y as int, s.width as int, s.height as int, x, y)
}

/// True when `(x, y)` lies in the rectangle of client `c`.
pub open spec fn client_contains(c: ClientConfig, x: int, y: int) -> bool {
    point_in_rect(c.x as int, c.y as int, c.width as int, c.height as int, x, y)
}

/// True when `(x, y)` lies on some local screen of `cfg`.
pub open spec fn spec_inside_local(cfg: Config, x: int, y: int) -> bool {
    exists|i: int|
        0 <= i < cfg.local_screens@.len() && screen_contains(cfg.local_screens@[i], x, y)
}

/// The first client in configuration order whose rectangle contains
/// `(x, y)`, if any.
pub open spec fn spec_client_at(clients: Seq<ClientConfig>, x: int, y: int) -> Option<ClientConfig>
    decreases clients.len(),
{
    if clients.len() == 0 {
        None
    } else if client_contains(clients[0], x, y) {
        Some(clients[0])
    } else {
        spec_client_at(clients.drop_first(), x, y)
    }
}

/// The hand-off decision for a pointer at `(x, y)` while focus is local:
/// a new remote focus exactly when the point has left every local screen
/// and lies in some client rectangle (first match in configuration order).
pub open spec fn spec_check_edge(cfg: Config, x: int, y: int) -> Option<Focus> {
    if spec_inside_local(cfg, x, y) {
        None
    } else {
        match spec_client_at(cfg.clients@, x, y) {
            Some(c) => Some(Focus::Client(c.name)),
            None => None,
        }
    }
}

/// The width of the union bounding box of the local screens: the largest
/// right edge, or zero for edges left of the origin.
pub open spec fn spec_union_width(screens: Seq<LocalScreen>) -> int
    decreases screens.len(),
{
    if screens.len() == 0 {
        0
    } else {
        let rest = spec_union_width(screens.drop_last());
        let right = screens.last().x + screens.last().width;
        if right > rest {
            right
        } else {
            rest
        }
    }
}

/// The height of the union bounding box of the local screens.
pub open spec fn spec_union_height(screens: Seq<LocalScreen>) -> int
    decreases screens.len(),
{
    if screens.len() == 0 {
        0
    } else {
        let rest = spec_union_height(screens.drop_last());
        let bottom = screens.last().y + screens.last().height;
        if bottom > rest {
            bottom
        } else {
            rest
        }
    }
}

/// The screen layout, the current focus and the virtual cursor.
pub struct Topology {
    pub config: Config,
    pub current_focus: Focus,
    /// Virtual cursor, in thousandths of a pixel.
    pub cursor_x: i64,
    pub cursor_y: i64,
    /// Cached union bounding box of the local screens, in whole pixels.
    pub screen_width: i64,
    pub screen_height: i64,
}

/// The virtual cursor after one event: every pointer move places it,
/// whatever the focus; other events leave it alone.
pub open spec fn spec_route_cursor(t: Topology, ev: KvmEvent) -> (i64, i64) {
    match ev {
        KvmEvent::PointerMove { x, y } => (x, y),
        _ => (t.cursor_x, t.cursor_y),
    }
}

/// The focus after one event, following the hand-off algorithm: while
/// local, a pointer move that leaves every local screen and lands in a
/// client rectangle hands off to that client; while remote, a pointer
/// move back onto a local screen hands back, and one into another
/// client's rectangle hands over to it.
pub open spec fn spec_route_focus(t: Topology, ev: KvmEvent) -> Focus {
    match ev {
        KvmEvent::PointerMove { x, y } => {
            if t.current_focus is Local {
                match spec_check_edge(t.config, x as int, y as int) {
                    Some(f) => f,
                    None => Focus::Local,
                }
            } else {
                if spec_inside_local(t.config, x as int, y as int) {
                    Focus::Local
                } else {
                    match spec_client_at(t.config.clients@, x as int, y as int) {
                        Some(c) => Focus::Client(c.name),
                        None => t.current_focus,
                    }
                }
            }
        },
        _ => t.current_focus,
    }
}

/// What the capture loop does with the event: everything seen while focus
/// is local is passed through, including the move that hands off, so the
/// physical cursor rests at the crossing edge; the move that hands back is
/// passed through so the local cursor lands at the return point; all other
/// events seen while focus is remote are forwarded.
pub open spec fn spec_route_action(t: Topology, ev: KvmEvent) -> RouteAction {
    if t.current_focus is Local {
        RouteAction::PassThrough
    } else {
        match ev {
            KvmEvent::PointerMove { x, y } => {
                if spec_inside_local(t.config, x as int, y as int) {
                    RouteAction::PassThrough
                } else {
                    RouteAction::Forward
                }
            },
            _ => RouteAction::Forward,
        }
    }
}

/// The whole topology state after one event.
pub open spec fn spec_route_state(t: Topology, ev: KvmEvent) -> Topology {
    Topology {
        current_focus: spec_route_focus(t, ev),
        cursor_x: spec_route_cursor(t, ev).0,
        cursor_y: spec_route_cursor(t, ev).1,
        ..t
    }
}

/// The topology state after a whole sequence of events.
pub open spec fn spec_run_events(t: Topology, evs: Seq<KvmEvent>) -> Topology
    decreases evs.len(),
{
    if evs.len() == 0 {
        t
    } else {
        spec_run_events(spec_route_state(t, evs[0]), evs.drop_first())
    }
}

impl Topology {
    /// Builds the topology for a configuration: focus starts local and the
    /// virtual cursor at the origin; the union bounding box of the local
    /// screens is cached.
    pub fn new(config: Config) -> (t: Topology)
        ensures
            t.config == config,
            t.current_focus is Local,
            t.cursor_x == 0 && t.cursor_y == 0,
            t.screen_width == spec_union_width(config.local_screens@),
            t.screen_height == spec_union_height(config.local_screens@),
    {
        let mut max_x: i64 = 0;
        let mut max_y: i64 = 0;
        let n = config.local_screens.len();
        let mut i: usize = 0;
        while i < n
            invariant
                i <= n,
                n == config.local_screens@.len(),
                max_x == spec_union_width(config.local_screens@.take(i as int)),
                max_y == spec_union_height(config.local_screens@.take(i as int)),
            decreases n - i,
        {
            let s = &config.local_screens[i];
            let right = s.x as i64 + s.width as i64;
            let bottom = s.y as i64 + s.height as i64;
            proof {
                assert(config.local_screens@.take(i + 1 as int).drop_last()
                    =~= config.local_screens@.take(i as int));
            }
            if right > max_x {
                max_x = right;
            }
            if bottom > max_y {
                max_y = bottom;
            }
            i = i + 1;
        }
        proof {
            assert(config.local_screens@.take(n as int) =~= config.local_screens@);
        }
        Topology {
            config,
            current_focus: Focus::Local,
            cursor_x: 0,
            cursor_y: 0,
            screen_width: max_x,
            screen_height: max_y,
        }
    }

    /// Replaces the cached union bounding box (in whole pixels).
    pub fn update_screen_size(&mut self, width: i64, height: i64)
        ensures
            *final(self) == (Topology { screen_width: width, screen_height: height, ..*old(self) }),
    {
        self.screen_width = width;
        self.screen_height = height;
    }

    /// True when `(x, y)` (in thousandths of a pixel) lies on some local
    /// screen.
    pub fn inside_local(&self, x: i64, y: i64) -> (r: bool)
        ensures
            r == spec_inside_local(self.config, x as int, y as int),
    {
        let n = self.config.local_screens.len();
        let mut i: usize = 0;
        while i < n
            invariant
                i <= n,
                n == self.config.local_screens@.len(),
                forall|j: int|
                    0 <= j < i ==> !screen_contains(self.config.local_screens@[j], x as int, y as int),
            decreases n - i,
        {
            let s = &self.config.local_screens[i];
            let sx = (s.x as i64) * COORD_SCALE;
            let sy = (s.y as i64) * COORD_SCALE;
            let right = (s.x as i64 + s.width as i64) * COORD_SCALE;
            let bottom = (s.y as i64 + s.height as i64) * COORD_SCALE;
            if x >= sx && x < right && y >= sy && y < bottom {
                return true;
            }
            i = i + 1;
        }
        false
    }

    /// The first client in configuration order whose rectangle contains
    /// `(x, y)`, as a focus value.
    pub fn find_client_at(&self, x: i64, y: i64) -> (r: Option<Focus>)
        ensures
            r == (match spec_client_at(self.config.clients@, x as int, y as int) {
                Some(c) => Some(Focus::Client(c.name)),
                None => None::<Focus>,
            }),
    {
        let n = self.config.clients.len();
        let mut i: usize = 0;
        while i < n
            invariant
                i <= n,
                n == self.config.clients@.len(),
                forall|j: int|
                    0 <= j < i ==> !client_contains(self.config.clients@[j], x as int, y as int),
            decreases n - i,
        {
            let c = &self.config.clients[i];
            let cx = (c.x as i64) * COORD_SCALE;
            let cy = (c.y as i64) * COORD_SCALE;
            let right = (c.x as i64 + c.width as i64) * COORD_SCALE;
            let bottom = (c.y as i64 + c.height as i64) * COORD_SCALE;
            if x >= cx && x < right && y >= cy && y < bottom {
                proof {
                    lemma_client_at_prefix_misses(
                        self.config.clients@,
                        x as int,
                        y as int,
                        i as int,
                    );
                }
                return Some(Focus::Client(c.name.clone()));
            }
            i = i + 1;
        }
        proof {
            lemma_client_at_prefix_misses(self.config.clients@, x as int, y as int, n as int);
        }
        None
    }

    /// The hand-off decision while focus is local: `Some` exactly when
    /// `(x, y)` has left every local screen and lies in some client
    /// rectangle, first match in configuration order. While focus is
    /// remote the question does not arise and the answer is `None`.
    pub fn check_edge(&self, x: i64, y: i64) -> (r: Option<Focus>)
        ensures
            self.current_focus is Local ==> r == spec_check_edge(
                self.config,
                x as int,
                y as int,
            ),
            !(self.current_focus is Local) ==> r is None,
    {
        if !matches!(&self.current_focus, Focus::Local) {
            return None;
        }
        if self.inside_local(x, y) {
            return None;
        }
        self.find_client_at(x, y)
    }

    /// Routes one captured event: places the virtual cursor, applies the
    /// hand-off algorithm to the focus, and says whether the event goes to
    /// the local OS or to the clients. The configuration and the cached
    /// bounding box are untouched.
    pub fn route_event(&mut self, ev: &KvmEvent) -> (r: RouteAction)
        ensures
            *final(self) == spec_route_state(*old(self), *ev),
            r == spec_route_action(*old(self), *ev),
    {
        let was_local = matches!(&self.current_focus, Focus::Local);
        match ev {
            KvmEvent::PointerMove { x, y } => {
                self.cursor_x = *x;
                self.cursor_y = *y;
                if was_local {
                    if !self.inside_local(*x, *y) {
                        if let Some(f) = self.find_client_at(*x, *y) {
                            self.current_focus = f;
                        }
                    }
                    RouteAction::PassThrough
                } else {
                    if self.inside_local(*x, *y) {
                        self.current_focus = Focus::Local;
                        RouteAction::PassThrough
                    } else {
                        if let Some(f) = self.find_client_at(*x, *y) {
                            self.current_focus = f;
                        }
                        RouteAction::Forward
                    }
                }
            },
            _ => {
                if was_local {
                    RouteAction::PassThrough
                } else {
                    RouteAction::Forward
                }
            },
        }
    }

    /// Unconditional focus write; the caller has decided.
    pub fn set_focus(&mut self, focus: Focus)
        ensures
            *final(self) == (Topology { current_focus: focus, ..*old(self) }),
    {
        self.current_focus = focus;
    }

    pub fn get_focus(&self) -> (r: &Focus)
        ensures
            *r == self.current_focus,
    {
        &self.current_focus
    }

    pub fn get_config(&self) -> (r: &Config)
        ensures
            *r == self.config,
    {
        &self.config
    }

    /// Replaces the configuration wholesale; focus, cursor and cached
    /// bounding box are untouched.
    pub fn update_config(&mut self, config: Config)
        ensures
            *final(self) == (Topology { config, ..*old(self) }),
    {
        self.config = config;
    }
}

/// If none of the first `i` clients contains `(x, y)`, the first match over
/// the whole list is the first match over the rest.
proof fn lemma_client_at_prefix_misses(clients: Seq<ClientConfig>, x: int, y: int, i: int)
    requires
        0 <= i <= clients.len(),
        forall|j: int| 0 <= j < i ==> !client_contains(clients[j], x, y),
    ensures
        spec_client_at(clients, x, y) == spec_client_at(clients.skip(i), x, y),
    decreases i,
{
    if i > 0 {
        assert(clients.skip(i - 1).drop_first() =~= clients.skip(i));
        assert(clients.skip(i - 1)[0] == clients[i - 1]);
        lemma_client_at_prefix_misses(clients, x, y, i - 1);
        assert(clients.skip(0) =~= clients);
    } else {
        assert(clients.skip(0) =~= clients);
    }
}

/// The first match characterized: a hit is a containing client before which
/// no client contains the point; a miss means no client contains it.
pub proof fn lemma_client_at_first_match(clients: Seq<ClientConfig>, x: int, y: int)
    ensures
        match spec_client_at(clients, x, y) {
            Some(c) => exists|i: int|
                0 <= i < clients.len() && clients[i] == c && client_contains(c, x, y) && (forall|
                    j: int,
                |
                    0 <= j < i ==> !client_contains(clients[j], x, y)),
            None => forall|i: int| 0 <= i < clients.len() ==> !client_contains(clients[i], x, y),
        },
    decreases clients.len(),
{
    if clients.len() > 0 {
        if client_contains(clients[0], x, y) {
            assert(0 <= 0 < clients.len() && clients[0] == clients[0] && client_contains(
                clients[0],
                x,
                y,
            ) && (forall|j: int| 0 <= j < 0 ==> !client_contains(clients[j], x, y)));
        } else {
            let rest = clients.drop_first();
            lemma_client_at_first_match(rest, x, y);
            match spec_client_at(rest, x, y) {
                Some(c) => {
                    let i = choose|i: int|
                        0 <= i < rest.len() && rest[i] == c && client_contains(c, x, y) && (forall|
                            j: int,
                        |
                            0 <= j < i ==> !client_contains(rest[j], x, y));
                    assert(clients[i + 1] == rest[i]);
                    assert(forall|j: int|
                        0 <= j < i + 1 ==> !client_contains(clients[j], x, y)) by {
                        assert(forall|j: int| 1 <= j < i + 1 ==> clients[j] == rest[j - 1]);
                    }
                },
                None => {
                    assert(forall|i: int|
                        1 <= i < clients.len() ==> !client_contains(clients[i], x, y)) by {
                        assert(forall|i: int| 1 <= i < clients.len() ==> clients[i] == rest[i - 1]);
                    }
                },
            }
        }
    }
}

/// A hand-off decision is only ever made for a point outside every local
/// screen: `check_edge` answering `Some` rules out `inside_local`.
pub proof fn lemma_check_edge_outside_local(cfg: Config, x: int, y: int)
    ensures
        spec_check_edge(cfg, x, y) is Some ==> !spec_inside_local(cfg, x, y),
{
}

/// Where local screens and client rectangles are disjoint, the hand-off
/// decision is exactly the first-match client lookup: `check_edge` answers
/// the first client containing the point, and `None` when none does.
pub proof fn lemma_check_edge_disjoint(cfg: Config, x: int, y: int)
    requires
        forall|x2: int, y2: int, i: int|
            0 <= i < cfg.clients@.len() && spec_inside_local(cfg, x2, y2)
                ==> !#[trigger] client_contains(cfg.clients@[i], x2, y2),
    ensures
        spec_check_edge(cfg, x, y) == (match spec_client_at(cfg.clients@, x, y) {
            Some(c) => Some(Focus::Client(c.name)),
            None => None::<Focus>,
        }),
{
    if spec_inside_local(cfg, x, y) {
        lemma_client_at_first_match(cfg.clients@, x, y);
        match spec_client_at(cfg.clients@, x, y) {
            Some(c) => {
                let i = choose|i: int|
                    0 <= i < cfg.clients@.len() && cfg.clients@[i] == c && client_contains(
                        c,
                        x,
                        y,
                    ) && (forall|j: int| 0 <= j < i ==> !client_contains(cfg.clients@[j], x, y));
                assert(client_contains(cfg.clients@[i], x, y));
                assert(false);
            },
            None => {},
        }
    }
}

/// True when every pointer move in `evs` stays on the local screens of
/// `cfg`.
pub open spec fn events_stay_local(cfg: Config, evs: Seq<KvmEvent>) -> bool {
    forall|i: int|
        0 <= i < evs.len() ==> (#[trigger] evs[i] matches KvmEvent::PointerMove { x, y }
            ==> spec_inside_local(cfg, x as int, y as int))
}

/// While focus is local, a sequence of events whose pointer moves all stay
/// on the local screens never changes focus (and never touches the
/// configuration).
pub proof fn lemma_local_focus_stable(t: Topology, evs: Seq<KvmEvent>)
    requires
        t.current_focus is Local,
        events_stay_local(t.config, evs),
    ensures
        spec_run_events(t, evs).current_focus is Local,
        spec_run_events(t, evs).config == t.config,
    decreases evs.len(),
{
    if evs.len() > 0 {
        let t2 = spec_route_state(t, evs[0]);
        assert(t2.current_focus is Local);
        assert(events_stay_local(t2.config, evs.drop_first())) by {
            assert(forall|i: int|
                0 <= i < evs.drop_first().len() ==> evs.drop_first()[i] == evs[i + 1]);
        }
        lemma_local_focus_stable(t2, evs.drop_first());
    }
}

} // verus!
