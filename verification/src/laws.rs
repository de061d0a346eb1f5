//! The laws of the library, each stated over the spec model that the
//! executable contracts use and proved once and for all: where detection
//! returns nothing, how zone boundaries behave, how override precedence
//! resolves, and how the dwell machine fires at most one enter and one
//! leave action per occupancy.

use vstd::prelude::*;

use crate::config::{delay_of, find_override, size_of, spec_global, spec_resolve, Config, Hotspot, Position};
use crate::detector::{
    first_containing, first_match, opt_loc_key, position_order, position_triggers,
    screen_contains, spec_detect, Location, ScreenInfo,
};
use crate::tracker::{elapsed, leave_cmd, tracker_emit, tracker_step, Tracker};

verus! {

/// Whether the point keeps a distance of at least `pos`'s effective
/// hotspot size from every edge of screen `s` (trivially so where no
/// hotspot is configured for `pos`).
pub open spec fn clear_of(cfg: Config, s: ScreenInfo, pos: Position, x: int, y: int) -> bool {
    match spec_resolve(cfg, s.name@, pos) {
        Some(h) => {
            &&& x >= s.x as int + size_of(h) as int
            &&& x < s.x as int + s.width as int - size_of(h) as int
            &&& y >= s.y as int + size_of(h) as int
            &&& y < s.y as int + s.height as int - size_of(h) as int
        },
        None => true,
    }
}

/// Whether the point is strictly interior to screen `s`: clear of every
/// configured hotspot size at every position.
pub open spec fn strictly_interior(cfg: Config, s: ScreenInfo, x: int, y: int) -> bool {
    forall|p: Position| #[trigger] clear_of(cfg, s, p, x, y)
}

/// A point clear of a position's zone is not trapped by it.
proof fn lemma_clear_no_trigger(
    cfg: Config,
    s: ScreenInfo,
    p: Position,
    x: int,
    y: int,
)
    requires
        clear_of(cfg, s, p, x, y),
    ensures
        !position_triggers(cfg, s, p, x, y),
{
}

/// A scan over positions none of which traps the point finds nothing.
proof fn lemma_first_match_none(
    cfg: Config,
    s: ScreenInfo,
    positions: Seq<Position>,
    x: int,
    y: int,
)
    requires
        forall|k: int|
            0 <= k < positions.len() ==> !position_triggers(cfg, s, #[trigger] positions[k], x, y),
    ensures
        first_match(cfg, s, positions, x, y) is None,
    decreases positions.len(),
{
    if positions.len() > 0 {
        assert forall|k: int|
            0 <= k < positions.skip(1).len() implies !position_triggers(
            cfg,
            s,
            #[trigger] positions.skip(1)[k],
            x,
            y,
        ) by {
            assert(positions.skip(1)[k] == positions[k + 1]);
        }
        lemma_first_match_none(cfg, s, positions.skip(1), x, y);
    }
}

/// What a successful scan found: a position from the scanned list that
/// traps the point.
proof fn lemma_first_match_found(
    cfg: Config,
    s: ScreenInfo,
    positions: Seq<Position>,
    x: int,
    y: int,
)
    ensures
        first_match(cfg, s, positions, x, y) matches Some(p) ==> position_triggers(cfg, s, p, x, y)
            && positions.contains(p),
    decreases positions.len(),
{
    if positions.len() == 0 {
    } else if position_triggers(cfg, s, positions[0], x, y) {
        assert(positions.contains(positions[0]));
    } else {
        lemma_first_match_found(cfg, s, positions.skip(1), x, y);
        let fm = first_match(cfg, s, positions.skip(1), x, y);
        if fm is Some {
            let p = fm->0;
            let k = choose|k: int|
                0 <= k < positions.skip(1).len() && positions.skip(1)[k] == p;
            assert(positions[k + 1] == p);
            assert(positions.contains(p));
        }
    }
}

/// Detection routes through the first screen that contains the point:
/// its scan result, under that screen's name, or nothing at all.
pub proof fn lemma_detect_via_first_containing(
    cfg: Config,
    screens: Seq<ScreenInfo>,
    x: int,
    y: int,
)
    ensures
        spec_detect(cfg, screens, x, y) == (match first_containing(screens, x, y) {
            Some(s) => match first_match(cfg, s, position_order(), x, y) {
                Some(p) => Some((s.name@, p)),
                None => None,
            },
            None => None::<(Seq<char>, Position)>,
        }),
    decreases screens.len(),
{
    if screens.len() > 0 && !screen_contains(screens[0], x, y) {
        lemma_detect_via_first_containing(cfg, screens.skip(1), x, y);
    }
}

/// A point strictly interior to every screen that contains it is
/// detected in no hotspot.
pub proof fn lemma_interior_point_undetected(
    cfg: Config,
    screens: Seq<ScreenInfo>,
    x: int,
    y: int,
)
    requires
        forall|i: int|
            0 <= i < screens.len() && screen_contains(#[trigger] screens[i], x, y)
                ==> strictly_interior(cfg, screens[i], x, y),
    ensures
        spec_detect(cfg, screens, x, y) is None,
    decreases screens.len(),
{
    if screens.len() == 0 {
    } else if screen_contains(screens[0], x, y) {
        assert(strictly_interior(cfg, screens[0], x, y));
        assert forall|k: int|
            0 <= k < position_order().len() implies !position_triggers(
            cfg,
            screens[0],
            #[trigger] position_order()[k],
            x,
            y,
        ) by {
            assert(clear_of(cfg, screens[0], position_order()[k], x, y));
            lemma_clear_no_trigger(cfg, screens[0], position_order()[k], x, y);
        }
        lemma_first_match_none(cfg, screens[0], position_order(), x, y);
    } else {
        assert forall|i: int|
            0 <= i < screens.skip(1).len() && screen_contains(
                #[trigger] screens.skip(1)[i],
                x,
                y,
            ) implies strictly_interior(cfg, screens.skip(1)[i], x, y) by {
            assert(screens.skip(1)[i] == screens[i + 1]);
        }
        lemma_interior_point_undetected(cfg, screens.skip(1), x, y);
    }
}

/// Every detected hotspot resolves to an enabled specification: a
/// hotspot with `enabled` false never appears in a detection result.
pub proof fn lemma_detect_only_enabled(cfg: Config, screens: Seq<ScreenInfo>, x: int, y: int)
    ensures
        spec_detect(cfg, screens, x, y) matches Some(k) ==> (spec_resolve(cfg, k.0, k.1) matches
            Some(h) && h.enabled),
    decreases screens.len(),
{
    if screens.len() == 0 {
    } else if screen_contains(screens[0], x, y) {
        lemma_first_match_found(cfg, screens[0], position_order(), x, y);
    } else {
        lemma_detect_only_enabled(cfg, screens.skip(1), x, y);
    }
}

/// The top zone's boundary is exclusive: with an enabled top hotspot of
/// size `S > 0` on the first screen containing the point, the row
/// `S - 1` pixels below the screen's top edge is detected as top, and
/// the row at `S` pixels is not.
pub proof fn lemma_top_boundary(
    cfg: Config,
    screens: Seq<ScreenInfo>,
    s: ScreenInfo,
    x: int,
    h: Hotspot,
)
    requires
        spec_resolve(cfg, s.name@, Position::Top) == Some(h),
        h.enabled,
        size_of(h) > 0,
    ensures
        first_containing(screens, x, s.y as int + size_of(h) - 1) == Some(s) ==> spec_detect(
            cfg,
            screens,
            x,
            s.y as int + size_of(h) - 1,
        ) == Some((s.name@, Position::Top)),
        first_containing(screens, x, s.y as int + size_of(h)) == Some(s) ==> (spec_detect(
            cfg,
            screens,
            x,
            s.y as int + size_of(h),
        ) matches Some(k) ==> k.1 != Position::Top),
{
    let y_in = s.y as int + size_of(h) - 1;
    let y_out = s.y as int + size_of(h);
    lemma_detect_via_first_containing(cfg, screens, x, y_in);
    lemma_detect_via_first_containing(cfg, screens, x, y_out);
    if first_containing(screens, x, y_in) == Some(s) {
        assert(position_triggers(cfg, s, Position::Top, x, y_in));
        assert(position_order()[0] == Position::Top);
        assert(first_match(cfg, s, position_order(), x, y_in) == Some(
            Position::Top,
        ));
    }
    if first_containing(screens, x, y_out) == Some(s) {
        assert(!position_triggers(cfg, s, Position::Top, x, y_out));
        lemma_first_match_found(cfg, s, position_order(), x, y_out);
        let fm = first_match(cfg, s, position_order(), x, y_out);
        if fm is Some {
            let p = fm->0;
            assert(position_triggers(cfg, s, p, x, y_out));
            assert(p != Position::Top);
        }
    }
}

/// Override precedence: a per-screen override, where one exists, fully
/// replaces the global default for its position; where none exists the
/// global default alone decides.
pub proof fn lemma_override_precedence(cfg: Config, screen: Seq<char>, position: Position)
    ensures
        find_override(cfg.screens@, screen, position) matches Some(h) ==> spec_resolve(
            cfg,
            screen,
            position,
        ) == Some(h),
        find_override(cfg.screens@, screen, position) is None ==> spec_resolve(
            cfg,
            screen,
            position,
        ) == spec_global(cfg, position),
{
}

/// The tracker occupying `loc` since `enter_time`, with the enter action
/// fired or not as `triggered` says.
pub open spec fn occupying(loc: Location, enter_time: u64, triggered: bool) -> Tracker {
    Tracker { current: Some(loc), entered: Some(enter_time), triggered }
}

/// The tracker state after feeding every sample of `samples` in order;
/// each sample is a tick's time and detected identity.
pub open spec fn run_states(
    t: Tracker,
    cfg: Config,
    samples: Seq<(u64, Option<Location>)>,
) -> Tracker
    decreases samples.len(),
{
    if samples.len() == 0 {
        t
    } else {
        run_states(tracker_step(t, samples[0].1, cfg, samples[0].0), cfg, samples.skip(1))
    }
}

/// The command dispatched at each sample of `samples`, in order.
pub open spec fn run_emits(
    t: Tracker,
    cfg: Config,
    samples: Seq<(u64, Option<Location>)>,
) -> Seq<Option<String>>
    decreases samples.len(),
{
    if samples.len() == 0 {
        Seq::empty()
    } else {
        seq![tracker_emit(t, samples[0].1, cfg, samples[0].0)] + run_emits(
            tracker_step(t, samples[0].1, cfg, samples[0].0),
            cfg,
            samples.skip(1),
        )
    }
}

/// A run dispatches one command slot per sample.
pub proof fn lemma_run_emits_len(t: Tracker, cfg: Config, samples: Seq<(u64, Option<Location>)>)
    ensures
        run_emits(t, cfg, samples).len() == samples.len(),
    decreases samples.len(),
{
    if samples.len() > 0 {
        lemma_run_emits_len(tracker_step(t, samples[0].1, cfg, samples[0].0), cfg, samples.skip(1));
    }
}

/// An occupancy that ends before its dwell delay elapses never fires the
/// enter action: every tick that stays on `loc` with elapsed dwell below
/// the delay dispatches nothing and leaves the state unchanged, and the
/// tick that then departs dispatches exactly the leave command.
pub proof fn lemma_short_visit_no_enter(
    cfg: Config,
    loc: Location,
    h: Hotspot,
    enter_time: u64,
    samples: Seq<(u64, Option<Location>)>,
    away: Option<Location>,
    leave_time: u64,
)
    requires
        spec_resolve(cfg, loc.screen@, loc.position) == Some(h),
        forall|i: int|
            0 <= i < samples.len() ==> opt_loc_key(#[trigger] samples[i].1) == opt_loc_key(
                Some(loc),
            ),
        forall|i: int|
            0 <= i < samples.len() ==> elapsed(#[trigger] samples[i].0, enter_time) < delay_of(h),
        opt_loc_key(away) != opt_loc_key(Some(loc)),
    ensures
        run_states(occupying(loc, enter_time, false), cfg, samples) == occupying(
            loc,
            enter_time,
            false,
        ),
        forall|i: int|
            0 <= i < samples.len() ==> run_emits(occupying(loc, enter_time, false), cfg, samples)[i]
                is None,
        tracker_emit(
            run_states(occupying(loc, enter_time, false), cfg, samples),
            away,
            cfg,
            leave_time,
        ) == h.on_leave,
    decreases samples.len(),
{
    let t = occupying(loc, enter_time, false);
    lemma_run_emits_len(t, cfg, samples);
    if samples.len() > 0 {
        assert(opt_loc_key(samples[0].1) == opt_loc_key(Some(loc)));
        assert(elapsed(samples[0].0, enter_time) < delay_of(h));
        assert(tracker_step(t, samples[0].1, cfg, samples[0].0) == t);
        assert(tracker_emit(t, samples[0].1, cfg, samples[0].0) is None);
        assert forall|i: int|
            0 <= i < samples.skip(1).len() implies opt_loc_key(#[trigger] samples.skip(1)[i].1)
            == opt_loc_key(Some(loc)) && elapsed(samples.skip(1)[i].0, enter_time) < delay_of(
            h,
        ) by {
            assert(samples.skip(1)[i] == samples[i + 1]);
        }
        lemma_short_visit_no_enter(cfg, loc, h, enter_time, samples.skip(1), away, leave_time);
        lemma_run_emits_len(t, cfg, samples.skip(1));
        assert forall|i: int|
            0 <= i < samples.len() implies run_emits(t, cfg, samples)[i] is None by {
            if i > 0 {
                assert(run_emits(t, cfg, samples)[i] == run_emits(t, cfg, samples.skip(1))[i - 1]);
            }
        }
    }
}

/// Once fired, staying on the same identity dispatches nothing and
/// changes nothing.
pub proof fn lemma_fired_stays(
    cfg: Config,
    loc: Location,
    enter_time: u64,
    samples: Seq<(u64, Option<Location>)>,
)
    requires
        forall|i: int|
            0 <= i < samples.len() ==> opt_loc_key(#[trigger] samples[i].1) == opt_loc_key(
                Some(loc),
            ),
    ensures
        run_states(occupying(loc, enter_time, true), cfg, samples) == occupying(
            loc,
            enter_time,
            true,
        ),
        forall|i: int|
            0 <= i < samples.len() ==> run_emits(occupying(loc, enter_time, true), cfg, samples)[i]
                is None,
    decreases samples.len(),
{
    let t = occupying(loc, enter_time, true);
    lemma_run_emits_len(t, cfg, samples);
    if samples.len() > 0 {
        assert(opt_loc_key(samples[0].1) == opt_loc_key(Some(loc)));
        assert(tracker_step(t, samples[0].1, cfg, samples[0].0) == t);
        assert forall|i: int|
            0 <= i < samples.skip(1).len() implies opt_loc_key(#[trigger] samples.skip(1)[i].1)
            == opt_loc_key(Some(loc)) by {
            assert(samples.skip(1)[i] == samples[i + 1]);
        }
        lemma_fired_stays(cfg, loc, enter_time, samples.skip(1));
        lemma_run_emits_len(t, cfg, samples.skip(1));
        assert forall|i: int|
            0 <= i < samples.len() implies run_emits(t, cfg, samples)[i] is None by {
            if i > 0 {
                assert(run_emits(t, cfg, samples)[i] == run_emits(t, cfg, samples.skip(1))[i - 1]);
            }
        }
    }
}

/// An unbroken occupancy fires the enter action exactly once, at the
/// first tick whose elapsed dwell reaches the delay: the dispatch at
/// that tick is exactly the configured enter command, every other tick
/// dispatches nothing, and the run ends in the Fired state.
pub proof fn lemma_dwell_fires_once(
    cfg: Config,
    loc: Location,
    h: Hotspot,
    enter_time: u64,
    samples: Seq<(u64, Option<Location>)>,
    k: int,
)
    requires
        spec_resolve(cfg, loc.screen@, loc.position) == Some(h),
        forall|i: int|
            0 <= i < samples.len() ==> opt_loc_key(#[trigger] samples[i].1) == opt_loc_key(
                Some(loc),
            ),
        0 <= k < samples.len(),
        forall|i: int| 0 <= i < k ==> elapsed(#[trigger] samples[i].0, enter_time) < delay_of(h),
        elapsed(samples[k].0, enter_time) >= delay_of(h),
    ensures
        run_emits(occupying(loc, enter_time, false), cfg, samples)[k] == h.on_enter,
        forall|i: int|
            0 <= i < samples.len() && i != k ==> run_emits(
                occupying(loc, enter_time, false),
                cfg,
                samples,
            )[i] is None,
        run_states(occupying(loc, enter_time, false), cfg, samples) == occupying(
            loc,
            enter_time,
            true,
        ),
    decreases samples.len(),
{
    let t = occupying(loc, enter_time, false);
    lemma_run_emits_len(t, cfg, samples);
    lemma_run_emits_len(t, cfg, samples.skip(1));
    assert(opt_loc_key(samples[0].1) == opt_loc_key(Some(loc)));
    if k == 0 {
        assert(tracker_emit(t, samples[0].1, cfg, samples[0].0) == h.on_enter);
        assert(tracker_step(t, samples[0].1, cfg, samples[0].0) == occupying(
            loc,
            enter_time,
            true,
        ));
        assert forall|i: int|
            0 <= i < samples.skip(1).len() implies opt_loc_key(#[trigger] samples.skip(1)[i].1)
            == opt_loc_key(Some(loc)) by {
            assert(samples.skip(1)[i] == samples[i + 1]);
        }
        lemma_fired_stays(cfg, loc, enter_time, samples.skip(1));
        lemma_run_emits_len(occupying(loc, enter_time, true), cfg, samples.skip(1));
        assert forall|i: int|
            0 <= i < samples.len() && i != 0 implies run_emits(t, cfg, samples)[i] is None by {
            assert(run_emits(t, cfg, samples)[i] == run_emits(
                occupying(loc, enter_time, true),
                cfg,
                samples.skip(1),
            )[i - 1]);
        }
    } else {
        assert(elapsed(samples[0].0, enter_time) < delay_of(h));
        assert(tracker_step(t, samples[0].1, cfg, samples[0].0) == t);
        assert(tracker_emit(t, samples[0].1, cfg, samples[0].0) is None);
        assert forall|i: int|
            0 <= i < samples.skip(1).len() implies opt_loc_key(#[trigger] samples.skip(1)[i].1)
            == opt_loc_key(Some(loc)) by {
            assert(samples.skip(1)[i] == samples[i + 1]);
        }
        assert forall|i: int|
            0 <= i < k - 1 implies elapsed(#[trigger] samples.skip(1)[i].0, enter_time) < delay_of(
            h,
        ) by {
            assert(samples.skip(1)[i] == samples[i + 1]);
        }
        assert(samples.skip(1)[k - 1] == samples[k]);
        lemma_dwell_fires_once(cfg, loc, h, enter_time, samples.skip(1), k - 1);
        assert(run_emits(t, cfg, samples)[k] == run_emits(t, cfg, samples.skip(1))[k - 1]);
        assert forall|i: int|
            0 <= i < samples.len() && i != k implies run_emits(t, cfg, samples)[i] is None by {
            if i > 0 {
                assert(run_emits(t, cfg, samples)[i] == run_emits(t, cfg, samples.skip(1))[i - 1]);
            }
        }
    }
}

/// Departing a Fired hotspot dispatches its leave command exactly at the
/// departure tick; coming back to the same identity later restarts the
/// dwell timer at the return tick, and once the new dwell reaches the
/// delay the enter command fires again.
pub proof fn lemma_leave_then_refire(
    cfg: Config,
    loc: Location,
    h: Hotspot,
    enter_time: u64,
    away: Option<Location>,
    leave_time: u64,
    back_time: u64,
    fire_time: u64,
)
    requires
        spec_resolve(cfg, loc.screen@, loc.position) == Some(h),
        opt_loc_key(away) != opt_loc_key(Some(loc)),
        elapsed(fire_time, back_time) >= delay_of(h),
    ensures
        tracker_emit(occupying(loc, enter_time, true), away, cfg, leave_time) == h.on_leave,
        tracker_step(occupying(loc, enter_time, true), away, cfg, leave_time) == (Tracker {
            current: away,
            entered: if away is Some {
                Some(leave_time)
            } else {
                None
            },
            triggered: false,
        }),
        tracker_emit(
            tracker_step(occupying(loc, enter_time, true), away, cfg, leave_time),
            Some(loc),
            cfg,
            back_time,
        ) == leave_cmd(cfg, away),
        tracker_step(
            tracker_step(occupying(loc, enter_time, true), away, cfg, leave_time),
            Some(loc),
            cfg,
            back_time,
        ) == occupying(loc, back_time, false),
        tracker_emit(occupying(loc, back_time, false), Some(loc), cfg, fire_time) == h.on_enter,
        tracker_step(occupying(loc, back_time, false), Some(loc), cfg, fire_time) == occupying(
            loc,
            back_time,
            true,
        ),
{
}

} // verus!
