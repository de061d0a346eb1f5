//! Spatial hotspot resolution: which hotspot, if any, contains a pointer
//! coordinate, given the monitor layout and the configuration catalog.

use vstd::prelude::*;

use crate::config::{size_of, spec_resolve, Config, Hotspot, Position};

verus! {

/// One monitor's geometry: the half-open rectangle
/// `[x, x + width) x [y, y + height)` under the screen's name.
#[derive(Debug)]
pub struct ScreenInfo {
    pub name: String,
    pub x: i16,
    pub y: i16,
    pub width: u16,
    pub height: u16,
}

/// The identity of a hotspot: the screen it sits on and its position.
/// Only this pair matters for change detection downstream; the spec's
/// contents do not.
#[derive(Debug)]
pub struct Location {
    pub screen: String,
    pub position: Position,
}

/// A location's identity as a mathematical value: the screen name's
/// characters and the position.
pub open spec fn loc_key(l: Location) -> (Seq<char>, Position) {
    (l.screen@, l.position)
}

/// The identity carried by an optional location.
pub open spec fn opt_loc_key(l: Option<Location>) -> Option<(Seq<char>, Position)> {
    match l {
        Some(l) => Some(loc_key(l)),
        None => None,
    }
}

impl Clone for Location {
    fn clone(&self) -> (r: Self)
        ensures
            r == *self,
    {
        Location { screen: self.screen.clone(), position: self.position }
    }
}

impl PartialEq for Location {
    fn eq(&self, other: &Self) -> (r: bool) {
        self.screen == other.screen && self.position == other.position
    }
}

impl Eq for Location {

}

impl vstd::std_specs::cmp::PartialEqSpecImpl for Location {
    open spec fn obeys_eq_spec() -> bool {
        true
    }

    open spec fn eq_spec(&self, other: &Self) -> bool {
        loc_key(*self) == loc_key(*other)
    }
}

/// Whether the point lies in the screen's half-open rectangle.
pub open spec fn screen_contains(s: ScreenInfo, x: int, y: int) -> bool {
    &&& x >= s.x as int
    &&& x < s.x as int + s.width as int
    &&& y >= s.y as int
    &&& y < s.y as int + s.height as int
}

/// The membership test of one position's zone within a screen, for a
/// zone of `size` pixels. Every far-side bound is exclusive.
pub open spec fn in_region_spec(x: int, y: int, s: ScreenInfo, pos: Position, size: int) -> bool {
    let sx = s.x as int;
    let sy = s.y as int;
    let sw = s.width as int;
    let sh = s.height as int;
    match pos {
        Position::Top => y < sy + size,
        Position::Bottom => y >= sy + sh - size,
        Position::Left => x < sx + size,
        Position::Right => x >= sx + sw - size,
        Position::TopLeft => x < sx + size && y < sy + size,
        Position::TopRight => x >= sx + sw - size && y < sy + size,
        Position::BottomLeft => x < sx + size && y >= sy + sh - size,
        Position::BottomRight => x >= sx + sw - size && y >= sy + sh - size,
    }
}

/// The fixed priority order in which positions are scanned.
pub open spec fn position_order() -> Seq<Position> {
    seq![
        Position::Top,
        Position::Bottom,
        Position::Left,
        Position::Right,
        Position::TopLeft,
        Position::TopRight,
        Position::BottomLeft,
        Position::BottomRight,
    ]
}

/// Whether `pos` traps the point on screen `s`: its effective hotspot
/// exists, is enabled, and its zone contains the point.
pub open spec fn position_triggers(cfg: Config, s: ScreenInfo, pos: Position, x: int, y: int) -> bool {
    match spec_resolve(cfg, s.name@, pos) {
        Some(h) => h.enabled && in_region_spec(x, y, s, pos, size_of(h) as int),
        None => false,
    }
}

/// The first position in `positions` that traps the point on screen `s`.
pub open spec fn first_match(
    cfg: Config,
    s: ScreenInfo,
    positions: Seq<Position>,
    x: int,
    y: int,
) -> Option<Position>
    decreases positions.len(),
{
    if positions.len() == 0 {
        None
    } else if position_triggers(cfg, s, positions[0], x, y) {
        Some(positions[0])
    } else {
        first_match(cfg, s, positions.skip(1), x, y)
    }
}

/// The first screen in `screens` whose rectangle contains the point.
pub open spec fn first_containing(screens: Seq<ScreenInfo>, x: int, y: int) -> Option<ScreenInfo>
    decreases screens.len(),
{
    if screens.len() == 0 {
        None
    } else if screen_contains(screens[0], x, y) {
        Some(screens[0])
    } else {
        first_containing(screens.skip(1), x, y)
    }
}

/// The hotspot identity the detector reports for a point: within the
/// first screen that contains it, the first position in the fixed order
/// that traps it; none if no screen contains the point or no enabled
/// hotspot of that screen does.
pub open spec fn spec_detect(cfg: Config, screens: Seq<ScreenInfo>, x: int, y: int) -> Option<
    (Seq<char>, Position),
>
    decreases screens.len(),
{
    if screens.len() == 0 {
        None
    } else if screen_contains(screens[0], x, y) {
        match first_match(cfg, screens[0], position_order(), x, y) {
            Some(p) => Some((screens[0].name@, p)),
            None => None,
        }
    } else {
        spec_detect(cfg, screens.skip(1), x, y)
    }
}

/// The detector: the monitor layout in supplied order, and the catalog
/// the effective hotspots are resolved from.
pub struct Detector {
    pub screens: Vec<ScreenInfo>,
    pub config: Config,
}

impl Detector {
    pub fn new(config: Config, screens: Vec<ScreenInfo>) -> (r: Self)
        ensures
            r.config == config,
            r.screens == screens,
    {
        Detector { screens, config }
    }

    /// The effective hotspot for `(screen, pos)`: the per-screen
    /// override if the catalog holds one, else the global default.
    pub fn get_hotspot(&self, screen: &String, pos: Position) -> (r: Option<Hotspot>)
        ensures
            r == spec_resolve(self.config, screen@, pos),
    {
        match self.config.get_screen_hotspot(screen, pos) {
            Some(h) => Some(h),
            None => match pos {
                Position::Top => crate::config::clone_opt_hotspot(&self.config.top),
                Position::Bottom => crate::config::clone_opt_hotspot(&self.config.bottom),
                Position::Left => crate::config::clone_opt_hotspot(&self.config.left),
                Position::Right => crate::config::clone_opt_hotspot(&self.config.right),
                Position::TopLeft => crate::config::clone_opt_hotspot(&self.config.top_left),
                Position::TopRight => crate::config::clone_opt_hotspot(&self.config.top_right),
                Position::BottomLeft => crate::config::clone_opt_hotspot(&self.config.bottom_left),
                Position::BottomRight => crate::config::clone_opt_hotspot(
                    &self.config.bottom_right,
                ),
            },
        }
    }

    /// Whether `pos`'s zone of `size` pixels on screen `s` contains the
    /// point, per the membership table.
    fn in_region(&self, x: i16, y: i16, s: &ScreenInfo, pos: Position, size: u32) -> (r: bool)
        ensures
            r == in_region_spec(x as int, y as int, *s, pos, size as int),
    {
        let px = x as i64;
        let py = y as i64;
        let sx = s.x as i64;
        let sy = s.y as i64;
        let sw = s.width as i64;
        let sh = s.height as i64;
        let sz = size as i64;
        match pos {
            Position::Top => py < sy + sz,
            Position::Bottom => py >= sy + sh - sz,
            Position::Left => px < sx + sz,
            Position::Right => px >= sx + sw - sz,
            Position::TopLeft => px < sx + sz && py < sy + sz,
            Position::TopRight => px >= sx + sw - sz && py < sy + sz,
            Position::BottomLeft => px < sx + sz && py >= sy + sh - sz,
            Position::BottomRight => px >= sx + sw - sz && py >= sy + sh - sz,
        }
    }

    /// The position scanned at rank `j` of the fixed order.
    fn position_at(j: usize) -> (p: Position)
        requires
            j < 8,
        ensures
            p == position_order()[j as int],
    {
        let p = if j == 0 {
            Position::Top
        } else if j == 1 {
            Position::Bottom
        } else if j == 2 {
            Position::Left
        } else if j == 3 {
            Position::Right
        } else if j == 4 {
            Position::TopLeft
        } else if j == 5 {
            Position::TopRight
        } else if j == 6 {
            Position::BottomLeft
        } else {
            Position::BottomRight
        };
        p
    }

    /// Which hotspot, if any, contains the point `(x, y)`.
    pub fn check(&self, x: i16, y: i16) -> (r: Option<Location>)
        ensures
            opt_loc_key(r) == spec_detect(self.config, self.screens@, x as int, y as int),
    {
        let ghost full = self.screens@;
        let n = self.screens.len();
        let mut i: usize = 0;
        assert(full.skip(0) =~= full);
        while i < n
            invariant
                i <= n,
                n == full.len(),
                full == self.screens@,
                spec_detect(self.config, full, x as int, y as int) == spec_detect(
                    self.config,
                    full.skip(i as int),
                    x as int,
                    y as int,
                ),
            decreases n - i,
        {
            let s = &self.screens[i];
            assert(full.skip(i as int)[0] == full[i as int]);
            let inside = {
                let px = x as i32;
                let py = y as i32;
                px >= s.x as i32 && px < s.x as i32 + s.width as i32 && py >= s.y as i32 && py
                    < s.y as i32 + s.height as i32
            };
            assert(inside == screen_contains(*s, x as int, y as int));
            if inside {
                let ghost order = position_order();
                let mut j: usize = 0;
                assert(order.skip(0) =~= order);
                while j < 8
                    invariant
                        j <= 8,
                        order == position_order(),
                        order.len() == 8,
                        full == self.screens@,
                        i < n == full.len(),
                        screen_contains(full[i as int], x as int, y as int),
                        *s == full[i as int],
                        spec_detect(self.config, full, x as int, y as int) == spec_detect(
                            self.config,
                            full.skip(i as int),
                            x as int,
                            y as int,
                        ),
                        first_match(self.config, *s, order, x as int, y as int) == first_match(
                            self.config,
                            *s,
                            order.skip(j as int),
                            x as int,
                            y as int,
                        ),
                    decreases 8 - j,
                {
                    let p = Self::position_at(j);
                    assert(order.skip(j as int)[0] == order[j as int]);
                    if let Some(h) = self.get_hotspot(&s.name, p) {
                        if h.enabled {
                            let size = match h.size {
                                Some(z) => z,
                                None => 0,
                            };
                            if self.in_region(x, y, s, p, size) {
                                assert(position_triggers(self.config, *s, p, x as int, y as int));
                                return Some(Location { screen: s.name.clone(), position: p });
                            }
                        }
                    }
                    assert(!position_triggers(self.config, *s, p, x as int, y as int));
                    assert(order.skip(j as int).skip(1) =~= order.skip(j as int + 1));
                    j = j + 1;
                }
                assert(order.skip(8) =~= Seq::<Position>::empty());
                return None;
            }
            assert(full.skip(i as int).skip(1) =~= full.skip(i as int + 1));
            i = i + 1;
        }
        assert(full.skip(n as int) =~= Seq::<ScreenInfo>::empty());
        None
    }
}

} // verus!
