use vstd::prelude::*;
use crate::text::{owned, str_eq};

verus! {

// ---------------------------------------------------------------------------
// Coordinates and monitors
// ---------------------------------------------------------------------------

/// Coordinates at or below this are what a minimized window reports, not a place.
pub open spec fn invalid_coord_threshold() -> int {
    -10000
}

/// A coordinate of a real window position.
pub fn is_valid_coord(v: i32) -> (r: bool)
    ensures
        r == (v > invalid_coord_threshold()),
{
    v > -10000
}

/// A monitor's area in physical pixels (its size as the window system's `i32` view of
/// the unsigned size).
#[derive(Clone, Copy)]
pub struct Monitor {
    pub x: i32,
    pub y: i32,
    pub width: i32,
    pub height: i32,
}

/// A point is on a monitor, or at most 100 pixels left of or above it.
pub open spec fn near_monitor(m: Monitor, x: int, y: int) -> bool {
    x >= m.x - 100 && x < m.x + m.width && y >= m.y - 100 && y < m.y + m.height
}

/// A point lies inside a monitor.
pub open spec fn inside_monitor(m: Monitor, x: int, y: int) -> bool {
    x >= m.x && x < m.x + m.width && y >= m.y && y < m.y + m.height
}

/// A point is on (or just beside) some monitor.
pub open spec fn on_some_monitor(monitors: Seq<Monitor>, x: int, y: int) -> bool {
    exists|k: int| 0 <= k < monitors.len() && near_monitor(#[trigger] monitors[k], x, y)
}

/// Whether a position is on (or just beside) one of the monitors.
pub fn is_position_on_any_monitor(monitors: &Vec<Monitor>, x: i32, y: i32) -> (r: bool)
    ensures
        r == on_some_monitor(monitors@, x as int, y as int),
{
    let mut k: usize = 0;
    while k < monitors.len()
        invariant
            k <= monitors@.len(),
            forall|j: int| 0 <= j < k ==> !near_monitor(#[trigger] monitors@[j], x as int, y as int),
        decreases monitors.len() - k,
    {
        let m = monitors[k];
        let (px, py) = (x as i64, y as i64);
        if px >= m.x as i64 - 100 && px < m.x as i64 + m.width as i64 && py >= m.y as i64 - 100 && py
            < m.y as i64 + m.height as i64 {
            proof {
                assert(near_monitor(monitors@[k as int], x as int, y as int));
            }
            return true;
        }
        k += 1;
    }
    false
}

/// The top of the first monitor that contains the point.
pub open spec fn top_for_point(monitors: Seq<Monitor>, x: int, y: int) -> Option<i32>
    decreases monitors.len(),
{
    if monitors.len() == 0 {
        None
    } else if inside_monitor(monitors[0], x, y) {
        Some(monitors[0].y)
    } else {
        top_for_point(monitors.drop_first(), x, y)
    }
}

/// The top edge of the monitor that contains a point.
pub fn get_monitor_top_for_point(monitors: &Vec<Monitor>, x: i32, y: i32) -> (r: Option<i32>)
    ensures
        r == top_for_point(monitors@, x as int, y as int),
{
    let mut k: usize = 0;
    proof {
        assert(monitors@.skip(0) == monitors@);
    }
    while k < monitors.len()
        invariant
            k <= monitors@.len(),
            top_for_point(monitors@, x as int, y as int) == top_for_point(
                monitors@.skip(k as int),
                x as int,
                y as int,
            ),
        decreases monitors.len() - k,
    {
        let m = monitors[k];
        proof {
            assert(monitors@.skip(k as int)[0] == monitors@[k as int]);
            assert(monitors@.skip(k as int).drop_first() == monitors@.skip(k + 1));
        }
        let (px, py) = (x as i64, y as i64);
        if px >= m.x as i64 && px < m.x as i64 + m.width as i64 && py >= m.y as i64 && py < m.y as i64
            + m.height as i64 {
            return Some(m.y);
        }
        k += 1;
    }
    proof {
        assert(monitors@.skip(k as int).len() == 0);
    }
    None
}

/// The top of the monitor a window is on: the one the window system names, else the one
/// that contains the point.
pub open spec fn monitor_top(current: Option<i32>, monitors: Seq<Monitor>, x: int, y: int) -> Option<
    i32,
> {
    match current {
        Some(t) => Some(t),
        None => top_for_point(monitors, x, y),
    }
}

/// The top of the monitor a window at (`x`, `y`) is on.
pub fn window_monitor_top(current: Option<i32>, monitors: &Vec<Monitor>, x: i32, y: i32) -> (r: Option<
    i32,
>)
    ensures
        r == monitor_top(current, monitors@, x as int, y as int),
{
    match current {
        Some(t) => Some(t),
        None => get_monitor_top_for_point(monitors, x, y),
    }
}

// ---------------------------------------------------------------------------
// Sticking to the top edge
// ---------------------------------------------------------------------------

/// How close to a monitor's top a window sticks to it.
pub open spec fn edge_snap_threshold() -> int {
    10
}

/// A window at height `y` is close enough to the top `top` to stick to it.
pub open spec fn near_top(y: int, top: int) -> bool {
    y - top <= edge_snap_threshold()
}

/// What happens when a window stops moving.
#[derive(PartialEq, Eq, Structural)]
pub enum EdgeSnap {
    /// Move to the monitor's top (`y` = the given top) and report the window docked.
    Snap(i32),
    /// Report the window released from the edge.
    Release,
    /// Nothing: sticking is disabled.
    Nothing,
}

/// After a drag ends: with sticking enabled a window near its monitor's top sticks, and
/// any other window (also one whose monitor is unknown) is released.
pub open spec fn edge_snap_outcome(enabled: bool, top: Option<i32>, y: int) -> EdgeSnap {
    if !enabled {
        EdgeSnap::Nothing
    } else {
        match top {
            Some(t) => if near_top(y, t as int) {
                EdgeSnap::Snap(t)
            } else {
                EdgeSnap::Release
            },
            None => EdgeSnap::Release,
        }
    }
}

/// Decides what happens when a window stops moving at height `y`.
pub fn edge_snap_after_drag(enabled: bool, top: Option<i32>, y: i32) -> (r: EdgeSnap)
    ensures
        r == edge_snap_outcome(enabled, top, y as int),
{
    if !enabled {
        return EdgeSnap::Nothing;
    }
    match top {
        Some(t) => {
            if (y as i64) - (t as i64) <= 10 {
                EdgeSnap::Snap(t)
            } else {
                EdgeSnap::Release
            }
        },
        None => EdgeSnap::Release,
    }
}

/// The top a window shown at height `y` docks to: with sticking enabled, near the top.
pub fn docked_top(enabled: bool, top: Option<i32>, y: i32) -> (r: Option<i32>)
    ensures
        r == match edge_snap_outcome(enabled, top, y as int) {
            EdgeSnap::Snap(t) => Some(t),
            _ => None,
        },
{
    match edge_snap_after_drag(enabled, top, y) {
        EdgeSnap::Snap(t) => Some(t),
        _ => None,
    }
}

// ---------------------------------------------------------------------------
// Where a window is shown
// ---------------------------------------------------------------------------

/// Where a window that already exists is put when it is shown again.
#[derive(PartialEq, Eq, Structural)]
pub enum Placement {
    /// Leave it where it is.
    Keep,
    /// Center it: its saved place is off every monitor.
    Center,
    /// Move it to its saved place.
    At(i32, i32),
}

/// The saved place is used when it is on some monitor; a place off every monitor
/// centers the window; without a saved place it stays.
pub open spec fn placement_of(saved: Option<(i32, i32)>, monitors: Seq<Monitor>) -> Placement {
    match saved {
        Some(p) => if on_some_monitor(monitors, p.0 as int, p.1 as int) {
            Placement::At(p.0, p.1)
        } else {
            Placement::Center
        },
        None => Placement::Keep,
    }
}

/// Where a window is put when shown, given its saved place.
pub fn show_placement(saved: Option<(i32, i32)>, monitors: &Vec<Monitor>) -> (r: Placement)
    ensures
        r == placement_of(saved, monitors@),
{
    match saved {
        Some((x, y)) => {
            if is_position_on_any_monitor(monitors, x, y) {
                Placement::At(x, y)
            } else {
                Placement::Center
            }
        },
        None => Placement::Keep,
    }
}

/// A new window starts at its saved place when that is on some monitor, else centered.
pub fn new_window_placement(saved: Option<(i32, i32)>, monitors: &Vec<Monitor>) -> (r: Placement)
    ensures
        r == match placement_of(saved, monitors@) {
            Placement::At(x, y) => Placement::At(x, y),
            _ => Placement::Center,
        },
{
    match show_placement(saved, monitors) {
        Placement::At(x, y) => Placement::At(x, y),
        _ => Placement::Center,
    }
}

// ---------------------------------------------------------------------------
// Monitors that go away
// ---------------------------------------------------------------------------

/// A monitor was disconnected: there were some, and now there are fewer.
pub fn monitor_lost(last_count: usize, current_count: usize) -> (r: bool)
    ensures
        r == (last_count > 0 && current_count < last_count),
{
    last_count > 0 && current_count < last_count
}

/// Half of `a`, rounded toward zero as Rust's `/` does.
pub open spec fn half_toward_zero(a: int) -> int {
    if a >= 0 {
        a / 2
    } else {
        -((-a) / 2)
    }
}

fn half(a: i64) -> (r: i64)
    requires
        a > i64::MIN,
    ensures
        r == half_toward_zero(a as int),
{
    if a >= 0 {
        a / 2
    } else {
        -((-a) / 2)
    }
}

/// What happens to a visible window after a monitor is disconnected.
#[derive(PartialEq, Eq, Structural)]
pub enum Rescue {
    /// It stays: its place is still on a monitor, or not a real place.
    Stay,
    /// Move it to the center of the primary monitor (the given top-left corner).
    MoveTo(i64, i64),
    /// Center it as the window system does.
    Center,
}

/// A window whose real place is off every monitor is moved to the middle of the primary
/// monitor when that and the window's size are known, else centered.
pub open spec fn rescue_of(
    x: i32,
    y: i32,
    monitors: Seq<Monitor>,
    primary: Option<Monitor>,
    size: Option<(i32, i32)>,
) -> Rescue {
    if x as int > invalid_coord_threshold() && y as int > invalid_coord_threshold() && !on_some_monitor(
        monitors,
        x as int,
        y as int,
    ) {
        match (primary, size) {
            (Some(m), Some(s)) => Rescue::MoveTo(
                (m.x + half_toward_zero(m.width - s.0)) as i64,
                (m.y + half_toward_zero(m.height - s.1)) as i64,
            ),
            _ => Rescue::Center,
        }
    } else {
        Rescue::Stay
    }
}

/// Decides where a visible window at (`x`, `y`) goes after a monitor was disconnected.
pub fn rescue_window(
    x: i32,
    y: i32,
    monitors: &Vec<Monitor>,
    primary: Option<Monitor>,
    size: Option<(i32, i32)>,
) -> (r: Rescue)
    ensures
        r == rescue_of(x, y, monitors@, primary, size),
{
    if is_valid_coord(x) && is_valid_coord(y) && !is_position_on_any_monitor(monitors, x, y) {
        match (primary, size) {
            (Some(m), Some((w, h))) => {
                let px = m.x as i64 + half(m.width as i64 - w as i64);
                let py = m.y as i64 + half(m.height as i64 - h as i64);
                Rescue::MoveTo(px, py)
            },
            _ => Rescue::Center,
        }
    } else {
        Rescue::Stay
    }
}

// ---------------------------------------------------------------------------
// The trend detail window beside the panel
// ---------------------------------------------------------------------------

/// The gap between the panel and the detail window.
pub open spec fn detail_gap() -> int {
    16
}

/// The panel's place and size.
#[derive(Clone, Copy)]
pub struct Frame {
    pub x: i32,
    pub y: i32,
    pub width: i32,
    pub height: i32,
}

/// The side of the panel the detail window goes to on a monitor: right when it fits
/// there, else left when it fits there, else the side with more room (right on a tie
/// goes left).
pub open spec fn side_on(m: Monitor, main: Frame, detail_w: int) -> bool {
    let space_right = (m.x + m.width) - (main.x + main.width);
    let space_left = main.x - m.x;
    if space_right >= detail_w + detail_gap() {
        true
    } else if space_left >= detail_w + detail_gap() {
        false
    } else {
        space_right > space_left
    }
}

/// The panel's center.
pub open spec fn center_of(main: Frame) -> (int, int) {
    (main.x + half_toward_zero(main.width as int), main.y + half_toward_zero(main.height as int))
}

/// The side chosen on the first monitor that contains the panel's center; right when
/// none does. `true` is right.
pub open spec fn detail_side(monitors: Seq<Monitor>, main: Frame, detail_w: int) -> bool
    decreases monitors.len(),
{
    if monitors.len() == 0 {
        true
    } else if inside_monitor(monitors[0], center_of(main).0, center_of(main).1) {
        side_on(monitors[0], main, detail_w)
    } else {
        detail_side(monitors.drop_first(), main, detail_w)
    }
}

/// Where the detail window goes: beside the panel on the chosen side, its bottom edge
/// level with the panel's.
pub open spec fn detail_place(monitors: Seq<Monitor>, main: Frame, detail_w: int, detail_h: int) -> (int, int) {
    let x = if detail_side(monitors, main, detail_w) {
        main.x + main.width + detail_gap()
    } else {
        main.x - detail_w - detail_gap()
    };
    (x, main.y + main.height - detail_h)
}

/// The place of the detail window beside the panel.
pub fn detail_position(monitors: &Vec<Monitor>, main: Frame, detail_w: i32, detail_h: i32) -> (r: (
    i64,
    i64,
))
    ensures
        r.0 == detail_place(monitors@, main, detail_w as int, detail_h as int).0,
        r.1 == detail_place(monitors@, main, detail_w as int, detail_h as int).1,
{
    let cx = main.x as i64 + half(main.width as i64);
    let cy = main.y as i64 + half(main.height as i64);
    let mut k: usize = 0;
    proof {
        assert(monitors@.skip(0) == monitors@);
    }
    while k < monitors.len()
        invariant
            k <= monitors@.len(),
            cx == center_of(main).0,
            cy == center_of(main).1,
            detail_side(monitors@, main, detail_w as int) == detail_side(
                monitors@.skip(k as int),
                main,
                detail_w as int,
            ),
        decreases monitors.len() - k,
    {
        let m = monitors[k];
        proof {
            assert(monitors@.skip(k as int)[0] == monitors@[k as int]);
            assert(monitors@.skip(k as int).drop_first() == monitors@.skip(k + 1));
        }
        if cx >= m.x as i64 && cx < m.x as i64 + m.width as i64 && cy >= m.y as i64 && cy < m.y as i64
            + m.height as i64 {
            let space_right = (m.x as i64 + m.width as i64) - (main.x as i64 + main.width as i64);
            let space_left = main.x as i64 - m.x as i64;
            let need = detail_w as i64 + 16;
            let right = if space_right >= need {
                true
            } else if space_left >= need {
                false
            } else {
                space_right > space_left
            };
            let x = if right {
                main.x as i64 + main.width as i64 + 16
            } else {
                main.x as i64 - detail_w as i64 - 16
            };
            return (x, main.y as i64 + main.height as i64 - detail_h as i64);
        }
        k += 1;
    }
    proof {
        assert(monitors@.skip(k as int).len() == 0);
    }
    (main.x as i64 + main.width as i64 + 16, main.y as i64 + main.height as i64 - detail_h as i64)
}

/// What a click on a day of the trend chart does.
#[derive(PartialEq, Eq, Structural)]
pub enum TrendToggle {
    /// The detail window shows this day already: hide it.
    Hide,
    /// The detail window is open on another day: show this day in it.
    Update,
    /// The detail window is hidden: open it on this day.
    Show,
}

/// A click on the day the visible detail window shows (a missing day reads as "")
/// hides it; another day updates it; with the window hidden it opens.
pub open spec fn trend_toggle_of(visible: bool, shown_date: Option<Seq<char>>, date: Seq<char>) -> TrendToggle {
    if visible {
        let current = match shown_date {
            Some(d) => d,
            None => Seq::empty(),
        };
        if current == date {
            TrendToggle::Hide
        } else {
            TrendToggle::Update
        }
    } else {
        TrendToggle::Show
    }
}

/// Decides what a click on a day of the trend chart does.
pub fn trend_toggle(visible: bool, shown_date: Option<&str>, date: &str) -> (r: TrendToggle)
    ensures
        r == trend_toggle_of(
            visible,
            match shown_date {
                Some(d) => Some(d@),
                None => None,
            },
            date@,
        ),
{
    if !visible {
        return TrendToggle::Show;
    }
    let current = match shown_date {
        Some(d) => d,
        None => "",
    };
    proof {
        reveal_strlit("");
        assert(""@ =~= Seq::<char>::empty());
    }
    if str_eq(current, date) {
        TrendToggle::Hide
    } else {
        TrendToggle::Update
    }
}

// ---------------------------------------------------------------------------
// Which windows are shown
// ---------------------------------------------------------------------------

/// The labels of the shown windows and their count, which the refresh timer reads.
pub struct VisibleWindows {
    labels: Vec<String>,
    count: usize,
}

/// No label occurs twice.
pub open spec fn distinct_labels(labels: Seq<Seq<char>>) -> bool {
    forall|i: int, j: int| 0 <= i < j < labels.len() ==> labels[i] != labels[j]
}

impl View for VisibleWindows {
    type V = Set<Seq<char>>;

    closed spec fn view(&self) -> Set<Seq<char>> {
        self.labels@.map_values(|s: String| s@).to_set()
    }
}

impl VisibleWindows {
    /// The count matches the shown labels, each kept once.
    pub closed spec fn wf(&self) -> bool {
        &&& distinct_labels(self.labels@.map_values(|s: String| s@))
        &&& self.count == self.labels@.len()
    }

    /// The count the refresh timer reads.
    pub closed spec fn counted(&self) -> nat {
        self.count as nat
    }

    /// No window shown.
    pub fn new() -> (r: VisibleWindows)
        ensures
            r.wf(),
            r@ == Set::<Seq<char>>::empty(),
            r.counted() == 0,
    {
        let r = VisibleWindows { labels: Vec::new(), count: 0 };
        proof {
            assert(r@ =~= Set::<Seq<char>>::empty());
        }
        r
    }

    fn position(&self, label: &str) -> (r: Option<usize>)
        ensures
            match r {
                Some(k) => k < self.labels@.len() && self.labels@[k as int]@ == label@,
                None => forall|j: int| 0 <= j < self.labels@.len() ==> self.labels@[j]@ != label@,
            },
    {
        let mut k: usize = 0;
        while k < self.labels.len()
            invariant
                k <= self.labels@.len(),
                forall|j: int| 0 <= j < k ==> self.labels@[j]@ != label@,
            decreases self.labels.len() - k,
        {
            if str_eq(self.labels[k].as_str(), label) {
                return Some(k);
            }
            k += 1;
        }
        None
    }

    /// The number of shown windows, as the refresh timer reads it.
    pub fn count(&self) -> (r: usize)
        ensures
            r == self.counted(),
    {
        self.count
    }

    /// Notes that a window is shown; returns whether it was hidden before.
    pub fn shown(&mut self, label: &str) -> (added: bool)
        requires
            old(self).wf(),
        ensures
            final(self).wf(),
            added == !old(self)@.contains(label@),
            final(self)@ == old(self)@.insert(label@),
            final(self).counted() == if added {
                old(self).counted() + 1
            } else {
                old(self).counted() + 0
            },
    {
        let ghost before = self.labels@.map_values(|s: String| s@);
        match self.position(label) {
            Some(k) => {
                proof {
                    assert(before[k as int] == label@);
                    assert(self@.contains(label@));
                    assert(self@.insert(label@) =~= self@);
                }
                false
            },
            None => {
                proof {
                    assert(!before.contains(label@)) by {
                        if before.contains(label@) {
                            let j = choose|j: int| 0 <= j < before.len() && before[j] == label@;
                            assert(self.labels@[j]@ == label@);
                        }
                    }
                }
                self.labels.push(owned(label));
                let n = self.labels.len();
                assert(self.count + 1 == n);
                self.count = self.count + 1;
                proof {
                    let after = self.labels@.map_values(|s: String| s@);
                    assert(after =~= before.push(label@));
                    assert(after.to_set() =~= before.to_set().insert(label@)) by {
                        assert forall|t: Seq<char>| after.to_set().contains(t) <==> before.to_set().insert(
                            label@,
                        ).contains(t) by {
                            if after.contains(t) {
                                let j = choose|j: int| 0 <= j < after.len() && after[j] == t;
                                if j < before.len() {
                                    assert(before[j] == t);
                                }
                            }
                            if before.contains(t) {
                                let j = choose|j: int| 0 <= j < before.len() && before[j] == t;
                                assert(after[j] == t);
                            }
                            if t == label@ {
                                assert(after[before.len() as int] == t);
                            }
                        }
                    }
                    assert forall|i: int, j: int| 0 <= i < j < after.len() implies after[i] != after[j] by {
                        if j == before.len() {
                            assert(after[i] == before[i]);
                            assert(before.contains(before[i]));
                        } else {
                            assert(after[i] == before[i] && after[j] == before[j]);
                        }
                    }
                }
                true
            },
        }
    }

    /// Notes that a window is hidden; returns whether it was shown before.
    pub fn hidden(&mut self, label: &str) -> (removed: bool)
        requires
            old(self).wf(),
        ensures
            final(self).wf(),
            removed == old(self)@.contains(label@),
            final(self)@ == old(self)@.remove(label@),
            final(self).counted() == if removed {
                old(self).counted() - 1
            } else {
                old(self).counted() - 0
            },
    {
        let ghost before = self.labels@.map_values(|s: String| s@);
        match self.position(label) {
            Some(k) => {
                self.labels.remove(k);
                self.count = self.count - 1;
                proof {
                    let after = self.labels@.map_values(|s: String| s@);
                    assert(after =~= before.remove(k as int));
                    assert(before[k as int] == label@);
                    assert(before.contains(label@));
                    assert forall|i: int, j: int| 0 <= i < j < after.len() implies after[i] != after[j] by {
                        if i < k {
                            if j < k {
                                assert(after[i] == before[i] && after[j] == before[j]);
                            } else {
                                assert(after[i] == before[i] && after[j] == before[j + 1]);
                            }
                        } else {
                            assert(after[i] == before[i + 1] && after[j] == before[j + 1]);
                        }
                    }
                    assert(after.to_set() =~= before.to_set().remove(label@)) by {
                        assert forall|t: Seq<char>| after.to_set().contains(t) <==> before.to_set().remove(
                            label@,
                        ).contains(t) by {
                            if after.contains(t) {
                                let j = choose|j: int| 0 <= j < after.len() && after[j] == t;
                                if j < k {
                                    assert(before[j] == t);
                                    assert(j != k);
                                } else {
                                    assert(before[j + 1] == t);
                                }
                            }
                            if before.contains(t) && t != label@ {
                                let j = choose|j: int| 0 <= j < before.len() && before[j] == t;
                                assert(j != k);
                                if j < k {
                                    assert(after[j] == t);
                                } else {
                                    assert(after[j - 1] == t);
                                }
                            }
                        }
                    }
                }
                true
            },
            None => {
                proof {
                    assert(!before.contains(label@)) by {
                        if before.contains(label@) {
                            let j = choose|j: int| 0 <= j < before.len() && before[j] == label@;
                            assert(self.labels@[j]@ == label@);
                        }
                    }
                    assert(self@.remove(label@) =~= self@);
                }
                false
            },
        }
    }
}

/// The count of shown windows is the number of distinct windows shown: it never
/// drifts from the set, however often a window is shown or hidden.
pub proof fn law_visible_count_matches(w: VisibleWindows)
    requires
        w.wf(),
    ensures
        w.counted() == w@.len(),
{
    let s = w.labels@.map_values(|t: String| t@);
    s.unique_seq_to_set();
}

/// Showing a hidden window and hiding it again leaves the shown windows as they were.
pub proof fn law_show_then_hide(before: Set<Seq<char>>, label: Seq<char>)
    requires
        !before.contains(label),
    ensures
        before.insert(label).remove(label) == before,
{
    assert(before.insert(label).remove(label) =~= before);
}

/// A window that stuck to a monitor's top stays stuck when it is checked again.
pub proof fn law_snap_is_stable(top: i32)
    ensures
        edge_snap_outcome(true, Some(top), top as int) == EdgeSnap::Snap(top),
{
}

// ---------------------------------------------------------------------------
// The refresh timer
// ---------------------------------------------------------------------------

/// How long the refresh timer waits before its next step.
#[derive(PartialEq, Eq, Structural)]
pub enum TimerWait {
    /// No window is shown: check again after a second, without refreshing.
    Idle,
    /// Wait the refresh interval (in seconds), then refresh.
    Refresh(u64),
}

/// Decides the refresh timer's next wait.
pub fn timer_wait(visible_count: usize, interval_secs: u64) -> (r: TimerWait)
    ensures
        visible_count == 0 ==> r == TimerWait::Idle,
        visible_count > 0 ==> r == TimerWait::Refresh(interval_secs),
{
    if visible_count == 0 {
        TimerWait::Idle
    } else {
        TimerWait::Refresh(interval_secs)
    }
}

// ---------------------------------------------------------------------------
// The tray
// ---------------------------------------------------------------------------

/// The entries of the tray menu.
#[derive(PartialEq, Eq, Structural)]
pub enum MenuAction {
    /// Show the panel (in the widget's place, hiding the widget).
    ShowPanel,
    /// Show or hide the widget (in the panel's place, hiding the panel).
    ToggleWidget,
    /// Ask both dashboards to refresh.
    Refresh,
    /// Show the settings window.
    Settings,
    /// Save the windows' places and quit.
    Quit,
}

/// The tray menu entry of a menu item id.
pub fn menu_action(id: &str) -> (r: Option<MenuAction>)
    ensures
        r == if id@ == "show_panel"@ {
            Some(MenuAction::ShowPanel)
        } else if id@ == "toggle_widget"@ {
            Some(MenuAction::ToggleWidget)
        } else if id@ == "refresh"@ {
            Some(MenuAction::Refresh)
        } else if id@ == "settings"@ {
            Some(MenuAction::Settings)
        } else if id@ == "quit"@ {
            Some(MenuAction::Quit)
        } else {
            None
        },
{
    if str_eq(id, "show_panel") {
        Some(MenuAction::ShowPanel)
    } else if str_eq(id, "toggle_widget") {
        Some(MenuAction::ToggleWidget)
    } else if str_eq(id, "refresh") {
        Some(MenuAction::Refresh)
    } else if str_eq(id, "settings") {
        Some(MenuAction::Settings)
    } else if str_eq(id, "quit") {
        Some(MenuAction::Quit)
    } else {
        None
    }
}

/// The first build of Windows 11.
pub open spec fn windows11_first_build() -> int {
    22000
}

/// Whether a Windows build number is Windows 11 or later.
pub fn is_windows11_build(build_number: u32) -> (r: bool)
    ensures
        r == (build_number >= windows11_first_build()),
{
    build_number >= 22000
}

} // verus!
