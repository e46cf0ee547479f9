use vstd::prelude::*;

use crate::text::{decimal, push_decimal};

verus! {

/// A screen rectangle in pixels.
#[derive(Debug, Clone, Copy, PartialEq, Eq, Structural)]
pub struct Rect {
    pub left: i32,
    pub top: i32,
    pub right: i32,
    pub bottom: i32,
}

/// The strip of the screen the bar holds, and the height of its monitor (0 when not
/// measured).
#[derive(Debug, Clone, Copy, PartialEq, Eq, Structural)]
pub struct ReservedArea {
    pub left: i32,
    pub top: i32,
    pub width: i32,
    pub height: i32,
    pub monitor_height: i32,
}

/// Where the flyout hangs: its top right corner.
#[derive(Debug, Clone, Copy, PartialEq, Eq, Structural)]
pub struct FlyoutAnchor {
    pub right: i32,
    pub top: i32,
}

/// The strip asked of the shell: the monitor's full width, `height` pixels from its
/// top.
pub fn appbar_request_rect(monitor: Rect, height: i32) -> (r: Rect)
    requires
        i32::MIN <= monitor.top + height <= i32::MAX,
    ensures
        r == (Rect {
            left: monitor.left,
            top: monitor.top,
            right: monitor.right,
            bottom: (monitor.top + height) as i32,
        }),
{
    Rect { left: monitor.left, top: monitor.top, right: monitor.right, bottom: monitor.top + height }
}

/// After the shell has adjusted the strip to `queried`: the strip to claim, `height`
/// pixels from the adjusted top.
pub fn claimed_rect(queried: Rect, height: i32) -> (r: Rect)
    requires
        i32::MIN <= queried.top + height <= i32::MAX,
    ensures
        r == (Rect { bottom: (queried.top + height) as i32, ..queried }),
{
    Rect { bottom: queried.top + height, ..queried }
}

/// The area the bar holds once the shell has set its strip to `set`: the strip's left
/// and top, its width, the requested `height`, and the monitor's height.
pub fn reported_area(set: Rect, height: i32, monitor: Rect) -> (r: ReservedArea)
    requires
        i32::MIN <= set.right - set.left <= i32::MAX,
        i32::MIN <= monitor.bottom - monitor.top <= i32::MAX,
    ensures
        r == (ReservedArea {
            left: set.left,
            top: set.top,
            width: (set.right - set.left) as i32,
            height,
            monitor_height: (monitor.bottom - monitor.top) as i32,
        }),
{
    ReservedArea {
        left: set.left,
        top: set.top,
        width: set.right - set.left,
        height,
        monitor_height: monitor.bottom - monitor.top,
    }
}

/// Starts placing the bar unless a placement is already under way (the shell's
/// notifications can arrive while the bar is being placed): returns whether this call
/// places it. Either way a placement is under way afterwards.
pub fn begin_reservation(reserving: &mut bool) -> (started: bool)
    ensures
        started == !*old(reserving),
        *final(reserving),
{
    if *reserving {
        return false;
    }
    *reserving = true;
    true
}

/// The area the bar holds while a placement is under way: its window's current
/// bounds, with no monitor height.
pub fn current_area(bounds: Rect) -> (r: ReservedArea)
    requires
        i32::MIN <= bounds.right - bounds.left <= i32::MAX,
        i32::MIN <= bounds.bottom - bounds.top <= i32::MAX,
    ensures
        r == (ReservedArea {
            left: bounds.left,
            top: bounds.top,
            width: (bounds.right - bounds.left) as i32,
            height: (bounds.bottom - bounds.top) as i32,
            monitor_height: 0,
        }),
{
    ReservedArea {
        left: bounds.left,
        top: bounds.top,
        width: bounds.right - bounds.left,
        height: bounds.bottom - bounds.top,
        monitor_height: 0,
    }
}

/// The decimal spelling of a signed number.
pub open spec fn signed_decimal(i: int) -> Seq<char> {
    if i < 0 {
        "-"@ + decimal((-i) as nat)
    } else {
        decimal(i as nat)
    }
}

fn push_signed(s: &mut String, i: i32)
    ensures
        final(s)@ == old(s)@ + signed_decimal(i as int),
{
    if i < 0 {
        s.append("-");
        let m: u64 = (-(i as i64)) as u64;
        push_decimal(s, m);
    } else {
        push_decimal(s, i as u64);
    }
}

/// `Reserved <w>x<h> at (<left>, <top>).`
pub open spec fn reserved_status_text(a: ReservedArea) -> Seq<char> {
    "Reserved "@ + signed_decimal(a.width as int) + "x"@ + signed_decimal(a.height as int)
        + " at ("@ + signed_decimal(a.left as int) + ", "@ + signed_decimal(a.top as int)
        + ")."@
}

pub fn reserved_status(area: ReservedArea) -> (r: String)
    ensures
        r@ == reserved_status_text(area),
{
    let mut s = String::from_str("Reserved ");
    push_signed(&mut s, area.width);
    s.append("x");
    push_signed(&mut s, area.height);
    s.append(" at (");
    push_signed(&mut s, area.left);
    s.append(", ");
    push_signed(&mut s, area.top);
    s.append(").");
    s
}

/// The top left corner of a flyout `width` pixels wide hanging from `anchor`.
pub fn flyout_origin(anchor: FlyoutAnchor, width: i32) -> (r: (i32, i32))
    requires
        i32::MIN <= anchor.right - width <= i32::MAX,
    ensures
        r == ((anchor.right - width) as i32, anchor.top),
{
    (anchor.right - width, anchor.top)
}

/// A rounded region `(right, bottom, corner diameter)` anchored at the origin.
pub type RoundRegion = (i32, i32, i32);

/// The region that rounds a whole window `rect` with corner `radius`; none for an
/// empty window.
pub fn window_region(rect: Rect, radius: i32) -> (r: Option<RoundRegion>)
    requires
        i32::MIN <= rect.right - rect.left <= i32::MAX,
        i32::MIN <= rect.bottom - rect.top <= i32::MAX,
        rect.right - rect.left > 0 && rect.bottom - rect.top > 0 ==> {
            &&& rect.right - rect.left < i32::MAX
            &&& rect.bottom - rect.top < i32::MAX
            &&& i32::MIN <= radius * 2 <= i32::MAX
        },
    ensures
        ({
            let w = rect.right - rect.left;
            let h = rect.bottom - rect.top;
            if w <= 0 || h <= 0 {
                r is None
            } else {
                r == Some(((w + 1) as i32, (h + 1) as i32, (radius * 2) as i32))
            }
        }),
{
    let width = rect.right - rect.left;
    let height = rect.bottom - rect.top;
    if width <= 0 || height <= 0 {
        return None;
    }
    Some((width + 1, height + 1, radius * 2))
}

/// The region of a flyout revealed to `height` pixels: the corners are never rounded
/// more than the revealed height allows; none for an empty region.
pub fn partial_region(width: i32, height: i32, radius: i32) -> (r: Option<RoundRegion>)
    requires
        width > 0 && height > 0 ==> {
            &&& width < i32::MAX
            &&& height < i32::MAX
            &&& i32::MIN <= radius * 2 <= i32::MAX
        },
    ensures
        if width <= 0 || height <= 0 {
            r is None
        } else {
            r == Some(((width + 1) as i32, (height + 1) as i32, if radius * 2 < height {
                (radius * 2) as i32
            } else {
                height
            }))
        },
{
    if width <= 0 || height <= 0 {
        return None;
    }
    let twice = radius * 2;
    let limit = if height > 1 { height } else { 1 };
    let diameter = if twice < limit { twice } else { limit };
    Some((width + 1, height + 1, diameter))
}

} // verus!
