//! The soft dusk palette and the text looks built from it; every color is an
//! explicit RGB triple.
use vstd::prelude::*;
use crate::date::Date;
use crate::model::{Priority, Status};

verus! {

/// A color as red, green, and blue components.
#[derive(Clone, Copy, PartialEq, Eq, Debug, Structural)]
pub struct Rgb {
    pub r: u8,
    pub g: u8,
    pub b: u8,
}

/// How text is drawn: foreground and background colors (terminal default
/// when absent), bold, and crossed out.
#[derive(Clone, Copy, PartialEq, Eq, Debug, Structural)]
pub struct Look {
    pub fg: Option<Rgb>,
    pub bg: Option<Rgb>,
    pub bold: bool,
    pub crossed_out: bool,
}

/// The color with components `(r, g, b)`.
pub open spec fn rgb_spec(r: u8, g: u8, b: u8) -> Rgb {
    Rgb { r, g, b }
}

/// The color with components `(r, g, b)`.
pub fn rgb(r: u8, g: u8, b: u8) -> (c: Rgb)
    ensures
        c == rgb_spec(r, g, b),
{
    Rgb { r, g, b }
}

/// The palette's cream (228, 224, 214).
pub open spec fn cream_spec() -> Rgb {
    rgb_spec(228, 224, 214)
}

/// The palette's cream.
pub fn cream() -> (c: Rgb)
    ensures
        c == cream_spec(),
{
    rgb(228, 224, 214)
}

/// The palette's mist (168, 164, 158).
pub open spec fn mist_spec() -> Rgb {
    rgb_spec(168, 164, 158)
}

/// The palette's mist.
pub fn mist() -> (c: Rgb)
    ensures
        c == mist_spec(),
{
    rgb(168, 164, 158)
}

/// The palette's fog (108, 106, 114).
pub open spec fn fog_spec() -> Rgb {
    rgb_spec(108, 106, 114)
}

/// The palette's fog.
pub fn fog() -> (c: Rgb)
    ensures
        c == fog_spec(),
{
    rgb(108, 106, 114)
}

/// The palette's slate (62, 64, 72).
pub open spec fn slate_spec() -> Rgb {
    rgb_spec(62, 64, 72)
}

/// The palette's slate.
pub fn slate() -> (c: Rgb)
    ensures
        c == slate_spec(),
{
    rgb(62, 64, 72)
}

/// The palette's deep (48, 50, 58).
pub open spec fn deep_spec() -> Rgb {
    rgb_spec(48, 50, 58)
}

/// The palette's deep.
pub fn deep() -> (c: Rgb)
    ensures
        c == deep_spec(),
{
    rgb(48, 50, 58)
}

/// The palette's lavender (186, 178, 212).
pub open spec fn lavender_spec() -> Rgb {
    rgb_spec(186, 178, 212)
}

/// The palette's lavender.
pub fn lavender() -> (c: Rgb)
    ensures
        c == lavender_spec(),
{
    rgb(186, 178, 212)
}

/// The palette's sage (156, 188, 168).
pub open spec fn sage_spec() -> Rgb {
    rgb_spec(156, 188, 168)
}

/// The palette's sage.
pub fn sage() -> (c: Rgb)
    ensures
        c == sage_spec(),
{
    rgb(156, 188, 168)
}

/// The palette's sand (210, 186, 148).
pub open spec fn sand_spec() -> Rgb {
    rgb_spec(210, 186, 148)
}

/// The palette's sand.
pub fn sand() -> (c: Rgb)
    ensures
        c == sand_spec(),
{
    rgb(210, 186, 148)
}

/// The palette's rose (212, 158, 158).
pub open spec fn rose_spec() -> Rgb {
    rgb_spec(212, 158, 158)
}

/// The palette's rose.
pub fn rose() -> (c: Rgb)
    ensures
        c == rose_spec(),
{
    rgb(212, 158, 158)
}

/// The palette's sky (148, 180, 204).
pub open spec fn sky_spec() -> Rgb {
    rgb_spec(148, 180, 204)
}

/// The palette's sky.
pub fn sky() -> (c: Rgb)
    ensures
        c == sky_spec(),
{
    rgb(148, 180, 204)
}

/// The palette's plum (188, 162, 194).
pub open spec fn plum_spec() -> Rgb {
    rgb_spec(188, 162, 194)
}

/// The palette's plum.
pub fn plum() -> (c: Rgb)
    ensures
        c == plum_spec(),
{
    rgb(188, 162, 194)
}

/// The palette's peach (220, 196, 168).
pub open spec fn peach_spec() -> Rgb {
    rgb_spec(220, 196, 168)
}

/// The palette's peach.
pub fn peach() -> (c: Rgb)
    ensures
        c == peach_spec(),
{
    rgb(220, 196, 168)
}

/// The palette's moss (134, 164, 148).
pub open spec fn moss_spec() -> Rgb {
    rgb_spec(134, 164, 148)
}

/// The palette's moss.
pub fn moss() -> (c: Rgb)
    ensures
        c == moss_spec(),
{
    rgb(134, 164, 148)
}

/// The palette's dust (148, 142, 152).
pub open spec fn dust_spec() -> Rgb {
    rgb_spec(148, 142, 152)
}

/// The palette's dust.
pub fn dust() -> (c: Rgb)
    ensures
        c == dust_spec(),
{
    rgb(148, 142, 152)
}

/// The color of a priority.
pub open spec fn priority_spec(p: Priority) -> Rgb {
    match p {
        Priority::Low => sage_spec(),
        Priority::Medium => sand_spec(),
        Priority::High => rose_spec(),
    }
}

/// The color of a priority: sage, sand, rose from low to high.
pub fn priority(p: &Priority) -> (c: Rgb)
    ensures
        c == priority_spec(*p),
{
    match p {
        Priority::Low => sage(),
        Priority::Medium => sand(),
        Priority::High => rose(),
    }
}

/// The color of a status.
pub open spec fn status_spec(s: Status) -> Rgb {
    match s {
        Status::Todo => dust_spec(),
        Status::Doing => sky_spec(),
        Status::Done => sage_spec(),
        Status::Blocked => plum_spec(),
    }
}

/// The color of a status: dust for todo, sky for doing, sage for done, plum for blocked.
pub fn status(s: &Status) -> (c: Rgb)
    ensures
        c == status_spec(*s),
{
    match s {
        Status::Todo => dust(),
        Status::Doing => sky(),
        Status::Done => sage(),
        Status::Blocked => plum(),
    }
}

/// The color of a due date on day `today`.
pub open spec fn due_spec(today: int, due: Option<int>) -> Rgb {
    match due {
        Some(d) => if d < today {
            rose_spec()
        } else if d == today {
            sand_spec()
        } else {
            sky_spec()
        },
        None => mist_spec(),
    }
}

/// The color of a due date: rose when past, sand for today, sky later, mist for none.
pub fn due(today: Date, when: Option<Date>) -> (c: Rgb)
    ensures
        c == due_spec(today.day(), crate::date::opt_day(when)),
{
    match when {
        Some(d) => if d.before(&today) {
            rose()
        } else if d.days() == today.days() {
            sand()
        } else {
            sky()
        },
        None => mist(),
    }
}

/// A look with the given colors and no emphasis.
pub open spec fn plain(fg: Option<Rgb>, bg: Option<Rgb>) -> Look {
    Look { fg, bg, bold: false, crossed_out: false }
}

/// Sky text: the border of the focused pane.
pub fn border_focused() -> (l: Look)
    ensures
        l == plain(Some(sky_spec()), None),
{
    Look { fg: Some(sky()), bg: None, bold: false, crossed_out: false }
}

/// Fog text: the border of an idle pane.
pub fn border_idle() -> (l: Look)
    ensures
        l == plain(Some(fog_spec()), None),
{
    Look { fg: Some(fog()), bg: None, bold: false, crossed_out: false }
}

/// Bold cream text: labels.
pub fn label() -> (l: Look)
    ensures
        l == (Look { bold: true, ..plain(Some(cream_spec()), None) }),
{
    Look { fg: Some(cream()), bg: None, bold: true, crossed_out: false }
}

/// Cream text: body text.
pub fn body() -> (l: Look)
    ensures
        l == plain(Some(cream_spec()), None),
{
    Look { fg: Some(cream()), bg: None, bold: false, crossed_out: false }
}

/// Mist text: secondary text.
pub fn muted() -> (l: Look)
    ensures
        l == plain(Some(mist_spec()), None),
{
    Look { fg: Some(mist()), bg: None, bold: false, crossed_out: false }
}

/// Cream on slate: the edit field in focus.
pub fn field_active() -> (l: Look)
    ensures
        l == plain(Some(cream_spec()), Some(slate_spec())),
{
    Look { fg: Some(cream()), bg: Some(slate()), bold: false, crossed_out: false }
}

/// The priority's color on slate: the priority field in focus.
pub fn field_active_priority(p: &Priority) -> (l: Look)
    ensures
        l == plain(Some(priority_spec(*p)), Some(slate_spec())),
{
    Look { fg: Some(priority(p)), bg: Some(slate()), bold: false, crossed_out: false }
}

/// The status's color on slate: the status field in focus.
pub fn field_active_status(s: &Status) -> (l: Look)
    ensures
        l == plain(Some(status_spec(*s)), Some(slate_spec())),
{
    Look { fg: Some(status(s)), bg: Some(slate()), bold: false, crossed_out: false }
}

/// Bold cream on deep: the selected row.
pub fn tree_row_selected() -> (l: Look)
    ensures
        l == (Look { bold: true, ..plain(Some(cream_spec()), Some(deep_spec())) }),
{
    Look { fg: Some(cream()), bg: Some(deep()), bold: true, crossed_out: false }
}

/// Crossed-out mist: a done row.
pub fn tree_row_done() -> (l: Look)
    ensures
        l == (Look { crossed_out: true, ..plain(Some(mist_spec()), None) }),
{
    Look { fg: Some(mist()), bg: None, bold: false, crossed_out: true }
}

/// Bold cream on a dark red (108, 72, 78): the row awaiting delete confirmation.
pub fn tree_row_pending_delete() -> (l: Look)
    ensures
        l == (Look { bold: true, ..plain(Some(cream_spec()), Some(rgb_spec(108, 72, 78))) }),
{
    Look { fg: Some(cream()), bg: Some(rgb(108, 72, 78)), bold: true, crossed_out: false }
}

/// Fog text: the tree connectors.
pub fn tree_connector() -> (l: Look)
    ensures
        l == plain(Some(fog_spec()), None),
{
    Look { fg: Some(fog()), bg: None, bold: false, crossed_out: false }
}

impl Priority {
    /// The color of this priority (see `priority_spec`).
    pub fn color(&self) -> (c: Rgb)
        ensures
            c == priority_spec(*self),
    {
        priority(self)
    }
}

impl Status {
    /// The color of this status (see `status_spec`).
    pub fn color(&self) -> (c: Rgb)
        ensures
            c == status_spec(*self),
    {
        status(self)
    }
}

} // verus!
