//! Configuration data model: hotspot specifications, the eight edge and
//! corner positions, and the two-level catalog (global defaults plus
//! per-screen overrides) with its precedence lookup.

use vstd::prelude::*;

verus! {

/// One of the eight edge or corner positions a hotspot can occupy.
/// The declaration order is the fixed priority order in which the
/// detector scans positions within a screen.
#[derive(Clone, Copy, Debug, PartialEq, Eq, Structural)]
pub enum Position {
    Top,
    Bottom,
    Left,
    Right,
    TopLeft,
    TopRight,
    BottomLeft,
    BottomRight,
}

/// A resolved hotspot specification: the enter and leave commands, the
/// dwell delay in milliseconds, the zone size in pixels, and whether the
/// hotspot is active at all.
#[derive(Debug)]
pub struct Hotspot {
    pub on_enter: Option<String>,
    pub on_leave: Option<String>,
    pub delay: Option<u64>,
    pub size: Option<u32>,
    pub enabled: bool,
}

/// A per-screen override entry: the hotspot that fully replaces the
/// global default for `position` on the screen named `screen`.
#[derive(Debug)]
pub struct ScreenOverride {
    pub screen: String,
    pub position: Position,
    pub hotspot: Hotspot,
}

/// The resolved configuration: the polling rate, one optional global
/// hotspot per position, and the list of per-screen overrides in the
/// order the loader supplied them.
#[derive(Debug)]
pub struct Config {
    pub refresh_rate: u32,
    pub top: Option<Hotspot>,
    pub bottom: Option<Hotspot>,
    pub left: Option<Hotspot>,
    pub right: Option<Hotspot>,
    pub top_left: Option<Hotspot>,
    pub top_right: Option<Hotspot>,
    pub bottom_left: Option<Hotspot>,
    pub bottom_right: Option<Hotspot>,
    pub screens: Vec<ScreenOverride>,
}

/// The default for a hotspot's `enabled` field.
pub fn default_true() -> (r: bool)
    ensures
        r == true,
{
    true
}

/// The default polling rate in samples per second.
pub fn default_refresh_rate() -> (r: u32)
    ensures
        r == 60,
{
    60
}

/// The dwell delay a hotspot asks for, in milliseconds; unset means zero.
pub open spec fn delay_of(h: Hotspot) -> u64 {
    match h.delay {
        Some(d) => d,
        None => 0,
    }
}

/// The zone size a hotspot asks for, in pixels; unset means zero.
pub open spec fn size_of(h: Hotspot) -> u32 {
    match h.size {
        Some(z) => z,
        None => 0,
    }
}

/// The first override entry for `(screen, position)`, in supplied order.
pub open spec fn find_override(
    entries: Seq<ScreenOverride>,
    screen: Seq<char>,
    position: Position,
) -> Option<Hotspot>
    decreases entries.len(),
{
    if entries.len() == 0 {
        None
    } else if entries[0].screen@ == screen && entries[0].position == position {
        Some(entries[0].hotspot)
    } else {
        find_override(entries.skip(1), screen, position)
    }
}

/// The global default hotspot configured for `position`, if any.
pub open spec fn spec_global(cfg: Config, position: Position) -> Option<Hotspot> {
    match position {
        Position::Top => cfg.top,
        Position::Bottom => cfg.bottom,
        Position::Left => cfg.left,
        Position::Right => cfg.right,
        Position::TopLeft => cfg.top_left,
        Position::TopRight => cfg.top_right,
        Position::BottomLeft => cfg.bottom_left,
        Position::BottomRight => cfg.bottom_right,
    }
}

/// The effective hotspot for `(screen, position)`: a per-screen override
/// fully replaces the global default; with neither, the hotspot is absent.
pub open spec fn spec_resolve(cfg: Config, screen: Seq<char>, position: Position) -> Option<
    Hotspot,
> {
    match find_override(cfg.screens@, screen, position) {
        Some(h) => Some(h),
        None => spec_global(cfg, position),
    }
}

impl Clone for Hotspot {
    fn clone(&self) -> (r: Self)
        ensures
            r == *self,
    {
        Hotspot {
            on_enter: clone_opt_string(&self.on_enter),
            on_leave: clone_opt_string(&self.on_leave),
            delay: self.delay,
            size: self.size,
            enabled: self.enabled,
        }
    }
}

/// Clone an optional command string, keeping its exact value.
pub(crate) fn clone_opt_string(o: &Option<String>) -> (r: Option<String>)
    ensures
        r == *o,
{
    match o {
        Some(s) => Some(s.clone()),
        None => None,
    }
}

/// Clone an optional hotspot, keeping its exact value.
pub(crate) fn clone_opt_hotspot(o: &Option<Hotspot>) -> (r: Option<Hotspot>)
    ensures
        r == *o,
{
    match o {
        Some(h) => Some(h.clone()),
        None => None,
    }
}

impl Config {
    /// The per-screen override for `(screen, position)`, if the catalog
    /// holds one; the first matching entry wins.
    pub fn get_screen_hotspot(&self, screen: &String, position: Position) -> (r: Option<Hotspot>)
        ensures
            r == find_override(self.screens@, screen@, position),
    {
        let n = self.screens.len();
        let mut i: usize = 0;
        assert(self.screens@.skip(0) =~= self.screens@);
        while i < n
            invariant
                i <= n,
                n == self.screens@.len(),
                find_override(self.screens@, screen@, position) == find_override(
                    self.screens@.skip(i as int),
                    screen@,
                    position,
                ),
            decreases n - i,
        {
            let e = &self.screens[i];
            if e.position == position && e.screen == *screen {
                assert(self.screens@.skip(i as int)[0] == self.screens@[i as int]);
                return Some(e.hotspot.clone());
            }
            assert(self.screens@.skip(i as int).skip(1) =~= self.screens@.skip(i as int + 1));
            i = i + 1;
        }
        assert(self.screens@.skip(n as int) =~= Seq::<ScreenOverride>::empty());
        None
    }
}

} // verus!
