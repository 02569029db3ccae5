//! The zoom steps of the map's zoom-in and zoom-out buttons.
use vstd::prelude::*;

verus! {

/// The deepest zoom level the zoom-in button reaches.
pub const MAX_BUTTON_ZOOM: u32 = 19;

/// The shallowest zoom level the zoom-out button reaches.
pub const MIN_BUTTON_ZOOM: u32 = 1;

/// One level deeper, but not past `MAX_BUTTON_ZOOM`.
pub open spec fn zoomed_in(current: int) -> int {
    if current + 1 <= MAX_BUTTON_ZOOM {
        current + 1
    } else {
        MAX_BUTTON_ZOOM as int
    }
}

/// One level shallower, but not above `MIN_BUTTON_ZOOM`.
pub open spec fn zoomed_out(current: int) -> int {
    if current - 1 >= MIN_BUTTON_ZOOM {
        current - 1
    } else {
        MIN_BUTTON_ZOOM as int
    }
}

/// The zoom level after pressing zoom-in.
pub fn zoom_in_level(current: u32) -> (z: u32)
    requires
        current < u32::MAX,
    ensures
        z == zoomed_in(current as int),
{
    let next = current + 1;
    if next <= MAX_BUTTON_ZOOM {
        next
    } else {
        MAX_BUTTON_ZOOM
    }
}

/// The zoom level after pressing zoom-out.
pub fn zoom_out_level(current: u32) -> (z: u32)
    requires
        current >= 1,
    ensures
        z == zoomed_out(current as int),
{
    let next = current - 1;
    if next >= MIN_BUTTON_ZOOM {
        next
    } else {
        MIN_BUTTON_ZOOM
    }
}

/// Once the map is between `MIN_BUTTON_ZOOM` and `MAX_BUTTON_ZOOM`, the
/// buttons keep it there; zooming in never goes shallower and zooming out
/// never goes deeper.
pub proof fn lemma_buttons_stay_in_range(current: int)
    requires
        MIN_BUTTON_ZOOM <= current <= MAX_BUTTON_ZOOM,
    ensures
        MIN_BUTTON_ZOOM <= zoomed_in(current) <= MAX_BUTTON_ZOOM,
        MIN_BUTTON_ZOOM <= zoomed_out(current) <= MAX_BUTTON_ZOOM,
        current <= zoomed_in(current),
        zoomed_out(current) <= current,
{
}

/// Inside the button range, zooming in and then out (or out and then in)
/// comes back to the level one started from, except at the range's ends,
/// where the first press does nothing.
pub proof fn lemma_buttons_undo(current: int)
    requires
        MIN_BUTTON_ZOOM <= current <= MAX_BUTTON_ZOOM,
    ensures
        current < MAX_BUTTON_ZOOM ==> zoomed_out(zoomed_in(current)) == current,
        current > MIN_BUTTON_ZOOM ==> zoomed_in(zoomed_out(current)) == current,
        zoomed_in(MAX_BUTTON_ZOOM as int) == MAX_BUTTON_ZOOM,
        zoomed_out(MIN_BUTTON_ZOOM as int) == MIN_BUTTON_ZOOM,
{
}

/// From any level, pressing zoom-in often enough reaches `MAX_BUTTON_ZOOM`
/// and then stays there; the same for zoom-out and `MIN_BUTTON_ZOOM`.
pub proof fn lemma_buttons_saturate(current: int)
    ensures
        current >= MAX_BUTTON_ZOOM - 1 ==> zoomed_in(current) == MAX_BUTTON_ZOOM,
        current <= MIN_BUTTON_ZOOM + 1 ==> zoomed_out(current) == MIN_BUTTON_ZOOM,
{
}

/// A gesture on the map: dragging it, or pressing a zoom button.
#[derive(Clone, Copy, Debug, PartialEq, Eq, Structural)]
pub enum MapGesture {
    Flick,
    ZoomIn,
    ZoomOut,
}

/// The zoom level after a gesture: a flick keeps it, the buttons step it.
pub open spec fn zoom_after_gesture(current: int, g: MapGesture) -> int {
    match g {
        MapGesture::Flick => current,
        MapGesture::ZoomIn => zoomed_in(current),
        MapGesture::ZoomOut => zoomed_out(current),
    }
}

/// The zoom level after a sequence of gestures, the first one first.
pub open spec fn zoom_after_gestures(start: int, gs: Seq<MapGesture>) -> int
    decreases gs.len(),
{
    if gs.len() == 0 {
        start
    } else {
        zoom_after_gesture(zoom_after_gestures(start, gs.drop_last()), gs.last())
    }
}

/// From a level between `MIN_BUTTON_ZOOM` and `MAX_BUTTON_ZOOM` (a new map
/// starts at 1), any sequence of flicks and zoom-button presses keeps the
/// level between them after every gesture.
pub proof fn lemma_gestures_stay_in_range(start: int, gs: Seq<MapGesture>)
    requires
        MIN_BUTTON_ZOOM <= start <= MAX_BUTTON_ZOOM,
    ensures
        forall|n: int| 0 <= n <= gs.len() ==> MIN_BUTTON_ZOOM <= #[trigger] zoom_after_gestures(start, gs.take(n))
            <= MAX_BUTTON_ZOOM,
    decreases gs.len(),
{
    if gs.len() > 0 {
        lemma_gestures_stay_in_range(start, gs.drop_last());
        assert forall|n: int| 0 <= n <= gs.len() implies MIN_BUTTON_ZOOM <= #[trigger] zoom_after_gestures(
            start,
            gs.take(n),
        ) <= MAX_BUTTON_ZOOM by {
            if n < gs.len() {
                assert(gs.take(n) =~= gs.drop_last().take(n));
            } else {
                assert(gs.take(n) =~= gs);
                assert(gs.drop_last() =~= gs.drop_last().take(gs.len() - 1));
                let before = zoom_after_gestures(start, gs.drop_last());
                lemma_buttons_stay_in_range(before);
            }
        }
    } else {
        assert(gs.take(0) =~= gs);
    }
}

/// Inside the button range each press moves the zoom by exactly one level:
/// zoom-in goes from `z` to `z + 1` below `MAX_BUTTON_ZOOM` (19), zoom-out
/// from `z` to `z - 1` above `MIN_BUTTON_ZOOM` (1).
pub proof fn lemma_buttons_step_by_one(z: int)
    ensures
        1 <= z < 19 ==> zoomed_in(z) == z + 1,
        1 < z <= 19 ==> zoomed_out(z) == z - 1,
        z >= 19 ==> zoomed_in(z) == 19,
        z <= 2 ==> zoomed_out(z) == 1,
{
}

} // verus!
