//! Geometry and input rules of the floating capsule and island windows: the capsule's
//! form and docking edge (and how they are stored as window properties), its content
//! rectangle, hit testing, the edge-hover detection and the accent (acrylic) colour.
//! The Win32 calls themselves are the caller's.

use vstd::prelude::*;
use crate::text::{chars_of, push_str, same, string_of};

verus! {

/// Distance in pixels from the screen top that counts as "at the edge".
pub const EDGE_THRESHOLD: i32 = 20;
/// Island window width (logical pixels).
pub const LOGICAL_W: i32 = 315;
/// Island height when collapsed.
pub const LOGICAL_H: i32 = 100;
/// Island height when expanded.
pub const ISLAND_EXPANDED_H: i32 = 480;
/// Capsule window width, with 3 px of anti-aliasing margin on each side.
pub const CAPSULE_W_LOGICAL: i32 = 166;
/// Capsule window height, with 2 px of margin above and below.
pub const CAPSULE_H_LOGICAL: i32 = 44;
/// Visual width of the pill.
pub const PILL_W: i32 = 160;
/// Visual height of the pill.
pub const PILL_H: i32 = 40;
/// Thickness of the docked progress strip.
pub const STRIP_THICK: i32 = 10;

/// Hit-test mode property: only the capsule content is interactive.
pub const HT_MODE_CAPSULE: isize = 0;
/// Hit-test mode property: the whole window is interactive.
pub const HT_MODE_FULL: isize = 1;
/// Form property values.
pub const FORM_PILL: isize = 0;
pub const FORM_BAR: isize = 1;
/// Edge property values.
pub const EDGE_TOP: isize = 0;
pub const EDGE_BOTTOM: isize = 1;
pub const EDGE_LEFT: isize = 2;
pub const EDGE_RIGHT: isize = 3;

/// `SetWindowCompositionAttribute` attribute of the accent policy.
pub const WCA_ACCENT_POLICY: u32 = 19;
/// Accent state: acrylic blur behind the window.
pub const ACCENT_ENABLE_ACRYLICBLURBEHIND: u32 = 4;
/// Accent state: plain blur behind the window.
pub const ACCENT_ENABLE_BLURBEHIND: u32 = 3;

/// How the capsule window shows: a pill, or a progress strip along the edge.
#[derive(Clone, Copy, Debug, PartialEq, Eq, Structural)]
pub enum CapsuleForm {
    Pill,
    Bar,
}

/// A screen edge.
#[derive(Clone, Copy, Debug, PartialEq, Eq, Structural)]
pub enum ScreenEdge {
    Top,
    Bottom,
    Left,
    Right,
}

/// The capsule's form and docking edge.
#[derive(Clone, Copy, Debug, PartialEq, Eq, Structural)]
pub struct CapsuleGeometry {
    pub form: CapsuleForm,
    pub edge: ScreenEdge,
}

impl Default for CapsuleGeometry {
    fn default() -> (g: Self)
        ensures
            g.form == CapsuleForm::Pill,
            g.edge == ScreenEdge::Top,
    {
        CapsuleGeometry { form: CapsuleForm::Pill, edge: ScreenEdge::Top }
    }
}

/// The form named `bar` or `pill`.
pub open spec fn form_named(s: Seq<char>) -> Option<CapsuleForm> {
    if s == "bar"@ {
        Some(CapsuleForm::Bar)
    } else if s == "pill"@ {
        Some(CapsuleForm::Pill)
    } else {
        None
    }
}

/// The edge named `bottom`, `left`, `right` or `top`.
pub open spec fn edge_named(s: Seq<char>) -> Option<ScreenEdge> {
    if s == "bottom"@ {
        Some(ScreenEdge::Bottom)
    } else if s == "left"@ {
        Some(ScreenEdge::Left)
    } else if s == "right"@ {
        Some(ScreenEdge::Right)
    } else if s == "top"@ {
        Some(ScreenEdge::Top)
    } else {
        None
    }
}

/// The geometry the front end asks for; the form is checked first.
pub fn parse_geometry(form: &str, edge: &str) -> (r: Result<CapsuleGeometry, String>)
    ensures
        form_named(form@) is None ==> (r matches Err(e) && e@ == "unknown capsule form: "@ + form@),
        form_named(form@) is Some && edge_named(edge@) is None ==> (r matches Err(e) && e@
            == "unknown screen edge: "@ + edge@),
        form_named(form@) is Some && edge_named(edge@) is Some ==> r == Ok::<CapsuleGeometry, String>(
            CapsuleGeometry { form: form_named(form@)->0, edge: edge_named(edge@)->0 },
        ),
{
    let f = chars_of(form);
    let fm = if same(&f, &chars_of("bar")) {
        CapsuleForm::Bar
    } else if same(&f, &chars_of("pill")) {
        CapsuleForm::Pill
    } else {
        let mut v = chars_of("unknown capsule form: ");
        push_str(&mut v, form);
        return Err(string_of(&v));
    };
    let e = chars_of(edge);
    let ed = if same(&e, &chars_of("bottom")) {
        ScreenEdge::Bottom
    } else if same(&e, &chars_of("left")) {
        ScreenEdge::Left
    } else if same(&e, &chars_of("right")) {
        ScreenEdge::Right
    } else if same(&e, &chars_of("top")) {
        ScreenEdge::Top
    } else {
        let mut v = chars_of("unknown screen edge: ");
        push_str(&mut v, edge);
        return Err(string_of(&v));
    };
    Ok(CapsuleGeometry { form: fm, edge: ed })
}

/// The window property value of a form.
pub fn form_prop(form: CapsuleForm) -> (v: isize)
    ensures
        v == (if form == CapsuleForm::Bar { FORM_BAR } else { FORM_PILL }),
{
    match form {
        CapsuleForm::Bar => FORM_BAR,
        CapsuleForm::Pill => FORM_PILL,
    }
}

/// The window property value of an edge.
pub fn edge_prop(edge: ScreenEdge) -> (v: isize)
    ensures
        v == (match edge {
            ScreenEdge::Top => EDGE_TOP,
            ScreenEdge::Bottom => EDGE_BOTTOM,
            ScreenEdge::Left => EDGE_LEFT,
            ScreenEdge::Right => EDGE_RIGHT,
        }),
{
    match edge {
        ScreenEdge::Bottom => EDGE_BOTTOM,
        ScreenEdge::Left => EDGE_LEFT,
        ScreenEdge::Right => EDGE_RIGHT,
        ScreenEdge::Top => EDGE_TOP,
    }
}

/// The geometry stored in the window properties; unknown values (such as a missing
/// property, read as 0) fall back to pill and top.
pub open spec fn geometry_of_props(form_v: isize, edge_v: isize) -> CapsuleGeometry {
    CapsuleGeometry {
        form: if form_v == FORM_BAR { CapsuleForm::Bar } else { CapsuleForm::Pill },
        edge: if edge_v == EDGE_BOTTOM {
            ScreenEdge::Bottom
        } else if edge_v == EDGE_LEFT {
            ScreenEdge::Left
        } else if edge_v == EDGE_RIGHT {
            ScreenEdge::Right
        } else {
            ScreenEdge::Top
        },
    }
}

/// The geometry stored in the window properties.
pub fn geometry_from_props(form_v: isize, edge_v: isize) -> (g: CapsuleGeometry)
    ensures
        g == geometry_of_props(form_v, edge_v),
{
    let form = if form_v == FORM_BAR {
        CapsuleForm::Bar
    } else {
        CapsuleForm::Pill
    };
    let edge = if edge_v == EDGE_BOTTOM {
        ScreenEdge::Bottom
    } else if edge_v == EDGE_LEFT {
        ScreenEdge::Left
    } else if edge_v == EDGE_RIGHT {
        ScreenEdge::Right
    } else {
        ScreenEdge::Top
    };
    CapsuleGeometry { form, edge }
}

/// Storing a geometry in the window properties and reading it back gives it back.
pub proof fn law_geometry_props_roundtrip(g: CapsuleGeometry)
    ensures
        geometry_of_props(
            if g.form == CapsuleForm::Bar { FORM_BAR } else { FORM_PILL },
            match g.edge {
                ScreenEdge::Top => EDGE_TOP,
                ScreenEdge::Bottom => EDGE_BOTTOM,
                ScreenEdge::Left => EDGE_LEFT,
                ScreenEdge::Right => EDGE_RIGHT,
            },
        ) == g,
{
}

/// The capsule window's logical size: on the left or right edge it is turned
/// (44 x 166), else 166 x 44.
pub open spec fn logical_size_spec(edge: ScreenEdge) -> (i32, i32) {
    match edge {
        ScreenEdge::Left | ScreenEdge::Right => (CAPSULE_H_LOGICAL, CAPSULE_W_LOGICAL),
        _ => (CAPSULE_W_LOGICAL, CAPSULE_H_LOGICAL),
    }
}

/// The capsule window's logical size.
pub fn capsule_logical_size(edge: ScreenEdge) -> (r: (i32, i32))
    ensures
        r == logical_size_spec(edge),
{
    match edge {
        ScreenEdge::Left | ScreenEdge::Right => (CAPSULE_H_LOGICAL, CAPSULE_W_LOGICAL),
        _ => (CAPSULE_W_LOGICAL, CAPSULE_H_LOGICAL),
    }
}

/// The content rectangle `(x, y, w, h)` in logical pixels: the pill centred (turned on
/// a side edge), or a strip along the docking edge.
pub open spec fn content_spec(geo: CapsuleGeometry) -> (i32, i32, i32, i32) {
    let (lw, lh) = logical_size_spec(geo.edge);
    match geo.form {
        CapsuleForm::Pill => {
            let (pw, ph) = match geo.edge {
                ScreenEdge::Left | ScreenEdge::Right => (PILL_H, PILL_W),
                _ => (PILL_W, PILL_H),
            };
            (((lw - pw) / 2) as i32, ((lh - ph) / 2) as i32, pw, ph)
        },
        CapsuleForm::Bar => match geo.edge {
            ScreenEdge::Top => (0, 0, lw, STRIP_THICK),
            ScreenEdge::Bottom => (0, (lh - STRIP_THICK) as i32, lw, STRIP_THICK),
            ScreenEdge::Left => (0, 0, STRIP_THICK, lh),
            ScreenEdge::Right => ((lw - STRIP_THICK) as i32, 0, STRIP_THICK, lh),
        },
    }
}

/// The content rectangle in logical pixels, relative to the window.
pub fn capsule_content_logical(geo: CapsuleGeometry) -> (r: (i32, i32, i32, i32))
    ensures
        r == content_spec(geo),
        r.0 >= 0 && r.1 >= 0 && r.2 > 0 && r.3 > 0,
        r.0 + r.2 <= logical_size_spec(geo.edge).0,
        r.1 + r.3 <= logical_size_spec(geo.edge).1,
{
    let (lw, lh) = capsule_logical_size(geo.edge);
    match geo.form {
        CapsuleForm::Pill => {
            let (pw, ph) = match geo.edge {
                ScreenEdge::Left | ScreenEdge::Right => (PILL_H, PILL_W),
                _ => (PILL_W, PILL_H),
            };
            ((lw - pw) / 2, (lh - ph) / 2, pw, ph)
        },
        CapsuleForm::Bar => match geo.edge {
            ScreenEdge::Top => (0, 0, lw, STRIP_THICK),
            ScreenEdge::Bottom => (0, lh - STRIP_THICK, lw, STRIP_THICK),
            ScreenEdge::Left => (0, 0, STRIP_THICK, lh),
            ScreenEdge::Right => (lw - STRIP_THICK, 0, STRIP_THICK, lh),
        },
    }
}

/// The screen point packed in a mouse message's `lParam`: the low 16 bits are `x`, the
/// next 16 bits `y`, both signed.
pub open spec fn lparam_point_spec(lparam: isize) -> (i32, i32) {
    let raw = lparam as i32;
    (((raw as u16) as i16) as i32, (((raw >> 16) as u16) as i16) as i32)
}

/// The screen point of a mouse message.
pub fn lparam_screen_point(lparam: isize) -> (p: (i32, i32))
    ensures
        p == lparam_point_spec(lparam),
        -32768 <= p.0 < 32768,
        -32768 <= p.1 < 32768,
{
    let raw = lparam as i32;
    let x = ((raw as u16) as i16) as i32;
    let y = (((raw >> 16) as u16) as i16) as i32;
    (x, y)
}

/// Whether point `(px, py)` lies in rectangle `(x, y, w, h)` (left and top edges
/// included, right and bottom excluded).
pub open spec fn in_rect(px: int, py: int, r: (i32, i32, i32, i32)) -> bool {
    px >= r.0 && px < r.0 + r.2 && py >= r.1 && py < r.1 + r.3
}

/// Whether a point lies in a rectangle.
pub fn point_in_rect(px: i32, py: i32, r: (i32, i32, i32, i32)) -> (b: bool)
    requires
        i32::MIN <= r.0 + r.2 <= i32::MAX,
        i32::MIN <= r.1 + r.3 <= i32::MAX,
    ensures
        b == in_rect(px as int, py as int, r),
{
    px >= r.0 && px < r.0 + r.2 && py >= r.1 && py < r.1 + r.3
}

pub const WM_NCHITTEST: u32 = 0x0084;
pub const WM_NCCALCSIZE: u32 = 0x0083;
pub const WM_NCACTIVATE: u32 = 0x0086;
pub const WM_NCPAINT: u32 = 0x0085;
pub const WM_ERASEBKGND: u32 = 0x0014;
/// Hit-test answer: the client area.
pub const HTCLIENT: isize = 1;
/// Hit-test answer: nowhere (a fallback; click-through comes from the window region).
pub const HTNOWHERE: isize = -2;

/// What the window procedure does with a message.
pub enum HitAnswer {
    /// Return this value.
    Return(isize),
    /// Pass the message on to the default procedure.
    Default,
}

/// The window procedure's answer: the background is never erased, activation and
/// non-client painting are suppressed, the client area covers the whole window, and a
/// hit test answers client inside the content rectangle (everywhere in full mode),
/// nowhere outside it, and passes on when the rectangle or the client point is unknown.
pub open spec fn hit_spec(
    msg: u32,
    mode: isize,
    content: Option<(i32, i32, i32, i32)>,
    client_pt: Option<(i32, i32)>,
) -> Option<isize> {
    if msg == WM_ERASEBKGND || msg == WM_NCACTIVATE {
        Some(1isize)
    } else if msg == WM_NCPAINT || msg == WM_NCCALCSIZE {
        Some(0isize)
    } else if msg == WM_NCHITTEST {
        if mode == HT_MODE_FULL {
            Some(HTCLIENT)
        } else {
            match (content, client_pt) {
                (Some(r), Some(p)) => if in_rect(p.0 as int, p.1 as int, r) {
                    Some(HTCLIENT)
                } else {
                    Some(HTNOWHERE)
                },
                _ => None,
            }
        }
    } else {
        None
    }
}

/// The window procedure's answer to a message, given the hit-test mode property, the
/// content rectangle in client pixels (if known) and the point in client coordinates
/// (if it could be converted).
pub fn hit_test(
    msg: u32,
    mode: isize,
    content: Option<(i32, i32, i32, i32)>,
    client_pt: Option<(i32, i32)>,
) -> (r: HitAnswer)
    requires
        content matches Some(c) ==> (i32::MIN <= c.0 + c.2 <= i32::MAX && i32::MIN <= c.1 + c.3
            <= i32::MAX),
    ensures
        match hit_spec(msg, mode, content, client_pt) {
            Some(v) => r matches HitAnswer::Return(x) && x == v,
            None => r is Default,
        },
{
    if msg == WM_ERASEBKGND || msg == WM_NCACTIVATE {
        return HitAnswer::Return(1);
    }
    if msg == WM_NCPAINT || msg == WM_NCCALCSIZE {
        return HitAnswer::Return(0);
    }
    if msg == WM_NCHITTEST {
        if mode == HT_MODE_FULL {
            return HitAnswer::Return(HTCLIENT);
        }
        match (content, client_pt) {
            (Some(c), Some(p)) => {
                if point_in_rect(p.0, p.1, c) {
                    HitAnswer::Return(HTCLIENT)
                } else {
                    HitAnswer::Return(HTNOWHERE)
                }
            },
            _ => HitAnswer::Default,
        }
    } else {
        HitAnswer::Default
    }
}

/// An accent policy for `SetWindowCompositionAttribute`.
#[derive(Clone, Copy, Debug)]
pub struct AccentPolicy {
    pub accent_state: u32,
    pub accent_flags: u32,
    pub gradient_color: u32,
    pub animation_id: u32,
}

/// The tint colour as `0xAARRGGBB`.
pub open spec fn gradient_spec(r: u8, g: u8, b: u8, a: u8) -> u32 {
    (a * 0x100_0000 + r * 0x1_0000 + g * 0x100 + b) as u32
}

/// The tint colour of an accent.
pub fn gradient_color(rgba: (u8, u8, u8, u8)) -> (c: u32)
    ensures
        c == gradient_spec(rgba.0, rgba.1, rgba.2, rgba.3),
{
    let (r, g, b, a) = rgba;
    let c = ((a as u32) << 24) | ((r as u32) << 16) | ((g as u32) << 8) | (b as u32);
    assert(c == gradient_spec(r, g, b, a)) by (bit_vector)
        requires
            c == ((a as u32) << 24) | ((r as u32) << 16) | ((g as u32) << 8) | (b as u32),
    ;
    c
}

/// The accent policy of an accent state with a tint.
pub fn accent_policy(state: u32, rgba: (u8, u8, u8, u8)) -> (p: AccentPolicy)
    ensures
        p.accent_state == state,
        p.accent_flags == 0,
        p.gradient_color == gradient_spec(rgba.0, rgba.1, rgba.2, rgba.3),
        p.animation_id == 0,
{
    AccentPolicy { accent_state: state, accent_flags: 0, gradient_color: gradient_color(rgba), animation_id: 0 }
}

/// The island window height: 480 expanded, 100 collapsed.
pub fn island_height(expanded: bool) -> (h: i32)
    ensures
        h == (if expanded { ISLAND_EXPANDED_H } else { LOGICAL_H }),
{
    if expanded {
        ISLAND_EXPANDED_H
    } else {
        LOGICAL_H
    }
}

/// Milliseconds since the last input, from the tick counts (the counter wraps).
pub fn idle_ms(now: u32, last_input: u32) -> (ms: u64)
    ensures
        ms == (if now >= last_input { now - last_input } else { now + 0x1_0000_0000 - last_input }),
{
    let diff = now.wrapping_sub(last_input);
    diff as u64
}

/// What the edge-hover detection reports with its answer.
#[derive(Clone, Copy, Debug)]
pub struct EdgeCursorPayload {
    pub cursor_x: i32,
    pub cursor_y: i32,
    pub mon_left: i32,
    pub mon_top: i32,
    pub mon_right: i32,
    pub mon_bottom: i32,
}

/// What is known of the monitor under the cursor.
pub enum MonitorLookup {
    /// No monitor was found.
    NoMonitor,
    /// A monitor was found but its information could not be read.
    InfoFailed,
    /// The monitor's rectangle `(left, top, right, bottom)`.
    Rect(i32, i32, i32, i32),
}

/// Whether the cursor counts as at the capsule's edge: with no cursor position or no
/// valid virtual screen, no; without a monitor, when it is within the threshold of any
/// virtual-screen edge; with unreadable monitor information, no; else when it is within
/// the threshold of the monitor's top and (if the capsule's region is known) inside it.
pub open spec fn at_edge_spec(
    cursor: Option<(i32, i32)>,
    screen: (i32, i32),
    monitor: MonitorLookup,
    in_capsule: Option<bool>,
) -> bool {
    match cursor {
        None => false,
        Some((x, y)) => if screen.0 <= 0 || screen.1 <= 0 {
            false
        } else {
            match monitor {
                MonitorLookup::NoMonitor => x < EDGE_THRESHOLD || x > screen.0 - EDGE_THRESHOLD || y
                    < EDGE_THRESHOLD || y > screen.1 - EDGE_THRESHOLD,
                MonitorLookup::InfoFailed => false,
                MonitorLookup::Rect(l, t, r, b) => y - t < EDGE_THRESHOLD && match in_capsule {
                    Some(c) => c,
                    None => true,
                },
            }
        },
    }
}

/// The edge-hover answer and its payload (the cursor, and the monitor rectangle when it
/// was read; zeros otherwise).
pub fn edge_check(
    cursor: Option<(i32, i32)>,
    screen: (i32, i32),
    monitor: MonitorLookup,
    in_capsule: Option<bool>,
) -> (r: (bool, EdgeCursorPayload))
    requires
        monitor matches MonitorLookup::Rect(l, t, rr, b) ==> (cursor matches Some((x, y)) ==> i32::MIN
            <= y - t <= i32::MAX),
    ensures
        r.0 == at_edge_spec(cursor, screen, monitor, in_capsule),
        cursor matches Some((x, y)) ==> r.1.cursor_x == x && r.1.cursor_y == y,
        cursor is None ==> r.1.cursor_x == 0 && r.1.cursor_y == 0,
        monitor matches MonitorLookup::Rect(l, t, rr, b) ==> (cursor is Some && screen.0 > 0
            && screen.1 > 0 ==> r.1.mon_left == l && r.1.mon_top == t && r.1.mon_right == rr
            && r.1.mon_bottom == b),
        !(monitor is Rect && cursor is Some && screen.0 > 0 && screen.1 > 0) ==> r.1.mon_left == 0
            && r.1.mon_top == 0 && r.1.mon_right == 0 && r.1.mon_bottom == 0,
{
    let (x, y) = match cursor {
        None => {
            return (
                false,
                EdgeCursorPayload { cursor_x: 0, cursor_y: 0, mon_left: 0, mon_top: 0, mon_right: 0, mon_bottom: 0 },
            );
        },
        Some(p) => p,
    };
    let none_rect = EdgeCursorPayload {
        cursor_x: x,
        cursor_y: y,
        mon_left: 0,
        mon_top: 0,
        mon_right: 0,
        mon_bottom: 0,
    };
    if screen.0 <= 0 || screen.1 <= 0 {
        return (false, none_rect);
    }
    match monitor {
        MonitorLookup::NoMonitor => {
            let at = x < EDGE_THRESHOLD || x > screen.0 - EDGE_THRESHOLD || y < EDGE_THRESHOLD || y
                > screen.1 - EDGE_THRESHOLD;
            (at, none_rect)
        },
        MonitorLookup::InfoFailed => (false, none_rect),
        MonitorLookup::Rect(l, t, r, b) => {
            let in_top = y - t < EDGE_THRESHOLD;
            let inside = match in_capsule {
                Some(c) => c,
                None => true,
            };
            (
                in_top && inside,
                EdgeCursorPayload { cursor_x: x, cursor_y: y, mon_left: l, mon_top: t, mon_right: r, mon_bottom: b },
            )
        },
    }
}

/// What the hover loop emits when the answer changes.
pub enum EdgeTransition {
    /// The cursor reached the edge: emit `edge-cursor-enter` with the payload.
    Enter,
    /// The cursor left the edge: emit `edge-cursor-leave`.
    Leave,
    /// Nothing changed.
    Stay,
}

/// The transition from the previous answer to the current one.
pub fn edge_transition(was_at_edge: bool, at_edge: bool) -> (t: EdgeTransition)
    ensures
        at_edge && !was_at_edge <==> t is Enter,
        !at_edge && was_at_edge <==> t is Leave,
        at_edge == was_at_edge <==> t is Stay,
{
    if at_edge && !was_at_edge {
        EdgeTransition::Enter
    } else if !at_edge && was_at_edge {
        EdgeTransition::Leave
    } else {
        EdgeTransition::Stay
    }
}

/// A monitor's work area in physical pixels.
#[derive(Clone, Copy, Debug)]
pub struct WorkArea {
    pub left: i32,
    pub top: i32,
    pub right: i32,
    pub bottom: i32,
}

/// Half of `s`, rounded toward zero (as Rust's integer division).
pub open spec fn half_toward_zero(s: int) -> int {
    if s >= 0 {
        s / 2
    } else {
        -((-s) / 2)
    }
}

/// The centre of a window rectangle.
pub fn rect_center(left: i32, top: i32, right: i32, bottom: i32) -> (c: (i32, i32))
    requires
        i32::MIN <= left + right <= i32::MAX,
        i32::MIN <= top + bottom <= i32::MAX,
    ensures
        c.0 == half_toward_zero(left + right),
        c.1 == half_toward_zero(top + bottom),
{
    ((left + right) / 2, (top + bottom) / 2)
}

/// The content rectangle in physical pixels, clamped to the client area of
/// `phys_w` x `phys_h`: the origin into `[0, phys_w] x [0, phys_h]`, the size to what is
/// left of the client area from there. The scaled rectangle comes from the caller.
pub fn clamp_to_client(rect: (i32, i32, i32, i32), phys_w: i32, phys_h: i32) -> (r: (i32, i32, i32, i32))
    requires
        phys_w > 0,
        phys_h > 0,
    ensures
        r.0 == (if rect.0 < 0 { 0 } else if rect.0 > phys_w { phys_w } else { rect.0 }),
        r.1 == (if rect.1 < 0 { 0 } else if rect.1 > phys_h { phys_h } else { rect.1 }),
        r.2 == (if rect.2 < phys_w - r.0 { rect.2 } else { (phys_w - r.0) as i32 }),
        r.3 == (if rect.3 < phys_h - r.1 { rect.3 } else { (phys_h - r.1) as i32 }),
{
    let x = if rect.0 < 0 { 0 } else if rect.0 > phys_w { phys_w } else { rect.0 };
    let y = if rect.1 < 0 { 0 } else if rect.1 > phys_h { phys_h } else { rect.1 };
    let w = if rect.2 < phys_w - x { rect.2 } else { phys_w - x };
    let h = if rect.3 < phys_h - y { rect.3 } else { phys_h - y };
    (x, y, w, h)
}

/// The rounded region of the capsule for its content rectangle: the rectangle's
/// corners and the corner diameter (the shorter side, so both ends are half circles);
/// none for an empty rectangle.
pub fn capsule_region(rect: (i32, i32, i32, i32)) -> (r: Option<(i32, i32, i32, i32, i32)>)
    requires
        rect.0 + rect.2 <= i32::MAX,
        rect.1 + rect.3 <= i32::MAX,
    ensures
        rect.2 <= 0 || rect.3 <= 0 ==> r is None,
        rect.2 > 0 && rect.3 > 0 ==> r == Some((
            rect.0,
            rect.1,
            (rect.0 + rect.2) as i32,
            (rect.1 + rect.3) as i32,
            if rect.2 < rect.3 { rect.2 } else { rect.3 },
        )),
{
    let (x, y, w, h) = rect;
    if w <= 0 || h <= 0 {
        return None;
    }
    let d = if w < h { w } else { h };
    Some((x, y, x + w, y + h, d))
}

} // verus!
