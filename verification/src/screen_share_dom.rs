//! Zooming, panning and detaching the content that a peer shares.
//!
//! The functions here decide which changes are made to the page, as lists of
//! [`DomOp`]; the caller carries them out, skipping those whose target is not
//! there. A zoom factor is a [`ZoomLevel`]: what the page needs to know of it.

use vstd::prelude::*;
use crate::text;

verus! {

// ---------------------------------------------------------------------------
// Ids
// ---------------------------------------------------------------------------

/// The parts of the page that belong to a peer's shared content.
#[derive(Debug, Clone, Copy, PartialEq, Eq, Structural)]
pub enum Part {
    PipHost,
    Viewport,
    ZoomLabel,
    GridSlot,
    DetachButton,
    ZoomInButton,
    ZoomOutButton,
    LiveRegion,
}

pub open spec fn part_suffix(p: Part) -> Seq<char> {
    match p {
        Part::PipHost => "-pip-host"@,
        Part::Viewport => "-viewport"@,
        Part::ZoomLabel => "-zoom-label"@,
        Part::GridSlot => "-slot"@,
        Part::DetachButton => "-detach-btn"@,
        Part::ZoomInButton => "-zoom-in"@,
        Part::ZoomOutButton => "-zoom-out"@,
        Part::LiveRegion => "-live"@,
    }
}

/// The id of a part.
pub open spec fn part_id(p: Part, peer_id: Seq<char>) -> Seq<char> {
    "screen-share-"@ + peer_id + part_suffix(p)
}

/// The id of what is moved between the grid and a window of its own.
pub fn pip_host_id(peer_id: &str) -> (res: String)
    ensures
        res@ == part_id(Part::PipHost, peer_id@),
{
    text::join3("screen-share-", peer_id, "-pip-host")
}

/// The id of the box in which the content is scrolled.
pub fn viewport_id(peer_id: &str) -> (res: String)
    ensures
        res@ == part_id(Part::Viewport, peer_id@),
{
    text::join3("screen-share-", peer_id, "-viewport")
}

/// The id of the label with the zoom in percent.
pub fn zoom_label_id(peer_id: &str) -> (res: String)
    ensures
        res@ == part_id(Part::ZoomLabel, peer_id@),
{
    text::join3("screen-share-", peer_id, "-zoom-label")
}

/// The id of the place in the grid to which the content returns.
pub fn grid_slot_id(peer_id: &str) -> (res: String)
    ensures
        res@ == part_id(Part::GridSlot, peer_id@),
{
    text::join3("screen-share-", peer_id, "-slot")
}

/// The id of the button that detaches the content and brings it back.
pub fn detach_btn_id(peer_id: &str) -> (res: String)
    ensures
        res@ == part_id(Part::DetachButton, peer_id@),
{
    text::join3("screen-share-", peer_id, "-detach-btn")
}

/// The id of the button that zooms in.
pub fn zoom_in_btn_id(peer_id: &str) -> (res: String)
    ensures
        res@ == part_id(Part::ZoomInButton, peer_id@),
{
    text::join3("screen-share-", peer_id, "-zoom-in")
}

/// The id of the button that zooms out.
pub fn zoom_out_btn_id(peer_id: &str) -> (res: String)
    ensures
        res@ == part_id(Part::ZoomOutButton, peer_id@),
{
    text::join3("screen-share-", peer_id, "-zoom-out")
}

/// The id of the region in which changes are announced; it stays in the main
/// document.
pub fn live_region_id(peer_id: &str) -> (res: String)
    ensures
        res@ == part_id(Part::LiveRegion, peer_id@),
{
    text::join3("screen-share-", peer_id, "-live")
}

// ---------------------------------------------------------------------------
// Changes to the page
// ---------------------------------------------------------------------------

/// Where a change is made.
#[derive(Debug, PartialEq, Eq)]
pub enum DomTarget {
    /// What is moved between the grid and a window of its own.
    Host,
    /// The canvas inside the host.
    Canvas,
    /// The element with an id, in the document in which the host is.
    Nearby(String),
    /// The element with an id, in the main document.
    Main(String),
    /// The body of the other window.
    PipBody,
}

pub enum TargetView {
    Host,
    Canvas,
    Nearby(Seq<char>),
    Main(Seq<char>),
    PipBody,
}

impl View for DomTarget {
    type V = TargetView;

    open spec fn view(&self) -> TargetView {
        match self {
            DomTarget::Host => TargetView::Host,
            DomTarget::Canvas => TargetView::Canvas,
            DomTarget::Nearby(id) => TargetView::Nearby(id@),
            DomTarget::Main(id) => TargetView::Main(id@),
            DomTarget::PipBody => TargetView::PipBody,
        }
    }
}

/// A change to the page.
#[derive(Debug, PartialEq, Eq)]
pub enum DomOp {
    SetAttribute(DomTarget, &'static str, String),
    RemoveAttribute(DomTarget, &'static str),
    /// Sets a style property, over any rule of a style sheet.
    SetStyle(DomTarget, &'static str, String),
    RemoveStyle(DomTarget, &'static str),
    AddClass(DomTarget, &'static str),
    RemoveClass(DomTarget, &'static str),
    /// Scrolls back to the start, both ways.
    ScrollToStart(DomTarget),
    SetText(DomTarget, String),
    Focus(DomTarget),
    /// Copies the style sheets of the main document to the other window.
    CopyStyles,
    /// Moves the host to the end of an element.
    MoveHost(DomTarget),
    /// Closes the other window.
    ClosePip,
    /// Tells whoever asked for the other window that it has closed.
    ReportClosed,
}

pub enum OpView {
    SetAttribute(TargetView, Seq<char>, Seq<char>),
    RemoveAttribute(TargetView, Seq<char>),
    SetStyle(TargetView, Seq<char>, Seq<char>),
    RemoveStyle(TargetView, Seq<char>),
    AddClass(TargetView, Seq<char>),
    RemoveClass(TargetView, Seq<char>),
    ScrollToStart(TargetView),
    SetText(TargetView, Seq<char>),
    Focus(TargetView),
    CopyStyles,
    MoveHost(TargetView),
    ClosePip,
    ReportClosed,
}

impl View for DomOp {
    type V = OpView;

    open spec fn view(&self) -> OpView {
        match self {
            DomOp::SetAttribute(t, n, v) => OpView::SetAttribute(t@, n@, v@),
            DomOp::RemoveAttribute(t, n) => OpView::RemoveAttribute(t@, n@),
            DomOp::SetStyle(t, n, v) => OpView::SetStyle(t@, n@, v@),
            DomOp::RemoveStyle(t, n) => OpView::RemoveStyle(t@, n@),
            DomOp::AddClass(t, c) => OpView::AddClass(t@, c@),
            DomOp::RemoveClass(t, c) => OpView::RemoveClass(t@, c@),
            DomOp::ScrollToStart(t) => OpView::ScrollToStart(t@),
            DomOp::SetText(t, s) => OpView::SetText(t@, s@),
            DomOp::Focus(t) => OpView::Focus(t@),
            DomOp::CopyStyles => OpView::CopyStyles,
            DomOp::MoveHost(t) => OpView::MoveHost(t@),
            DomOp::ClosePip => OpView::ClosePip,
            DomOp::ReportClosed => OpView::ReportClosed,
        }
    }
}

/// What a list of changes says.
pub open spec fn ops_view(ops: Seq<DomOp>) -> Seq<OpView> {
    Seq::new(ops.len(), |i: int| ops[i]@)
}

proof fn lemma_ops_view_append(a: Seq<DomOp>, b: Seq<DomOp>)
    ensures
        ops_view(a + b) == ops_view(a) + ops_view(b),
{
    assert(ops_view(a + b) =~= ops_view(a) + ops_view(b));
}

/// Adds changes after others.
fn extend(ops: &mut Vec<DomOp>, more: Vec<DomOp>)
    ensures
        ops_view(final(ops)@) == ops_view(old(ops)@) + ops_view(more@),
{
    let mut more = more;
    proof {
        lemma_ops_view_append(ops@, more@);
    }
    ops.append(&mut more);
}

/// Adds a change after others.
fn add_op(ops: &mut Vec<DomOp>, op: DomOp)
    ensures
        ops_view(final(ops)@) == ops_view(old(ops)@).push(op@),
{
    ops.push(op);
    assert(ops_view(ops@) =~= ops_view(old(ops)@).push(op@));
}

// ---------------------------------------------------------------------------
// Zoom
// ---------------------------------------------------------------------------

/// A zoom factor, as far as the page needs to know it.
#[derive(Debug, PartialEq, Eq)]
pub struct ZoomLevel {
    /// The factor, as text.
    pub factor: String,
    /// The factor in percent, to the nearest.
    pub percent: u32,
    /// Whether the content is larger than its place.
    pub zoomed: bool,
    pub at_max: bool,
    pub at_min: bool,
}

pub struct ZoomView {
    pub factor: Seq<char>,
    pub percent: u32,
    pub zoomed: bool,
    pub at_max: bool,
    pub at_min: bool,
}

impl View for ZoomLevel {
    type V = ZoomView;

    open spec fn view(&self) -> ZoomView {
        ZoomView {
            factor: self.factor@,
            percent: self.percent,
            zoomed: self.zoomed,
            at_max: self.at_max,
            at_min: self.at_min,
        }
    }
}

/// The zoom at which content fits its place, which is the smallest.
pub open spec fn fit() -> ZoomView {
    ZoomView { factor: "1"@, percent: 100, zoomed: false, at_max: false, at_min: true }
}

/// The zoom at which content fits its place, which is the smallest.
pub fn fit_level() -> (res: ZoomLevel)
    ensures
        res@ == fit(),
{
    ZoomLevel {
        factor: "1".to_owned(),
        percent: 100,
        zoomed: false,
        at_max: false,
        at_min: true,
    }
}

/// The zoom levels between which the user can choose next.
#[derive(Debug, PartialEq, Eq)]
pub struct ZoomChoices {
    pub larger: ZoomLevel,
    pub smaller: ZoomLevel,
}

/// A zoom in percent.
pub open spec fn percent_text(percent: u32) -> Seq<char> {
    text::decimal(percent as nat).push('%')
}

/// A zoom in percent.
pub fn percent_label(percent: u32) -> (res: String)
    ensures
        res@ == percent_text(percent),
{
    let mut s = text::decimal_string(percent as u64);
    s.push('%');
    s
}

/// Disables a button, or enables it. The attribute disables by its presence, so
/// it is taken away to enable.
pub open spec fn button_ops(id: Seq<char>, disabled: bool) -> Seq<OpView> {
    if disabled {
        seq![
            OpView::SetAttribute(TargetView::Nearby(id), "disabled"@, ""@),
            OpView::SetAttribute(TargetView::Nearby(id), "aria-disabled"@, "true"@),
        ]
    } else {
        seq![
            OpView::RemoveAttribute(TargetView::Nearby(id), "disabled"@),
            OpView::RemoveAttribute(TargetView::Nearby(id), "aria-disabled"@),
        ]
    }
}

/// Disables a button, or enables it.
pub fn set_btn_disabled(id: String, disabled: bool) -> (ops: Vec<DomOp>)
    ensures
        ops_view(ops@) == button_ops(id@, disabled),
{
    let mut ops: Vec<DomOp> = Vec::new();
    if disabled {
        ops.push(DomOp::SetAttribute(DomTarget::Nearby(id.clone()), "disabled", "".to_owned()));
        ops.push(DomOp::SetAttribute(DomTarget::Nearby(id), "aria-disabled", "true".to_owned()));
    } else {
        ops.push(DomOp::RemoveAttribute(DomTarget::Nearby(id.clone()), "disabled"));
        ops.push(DomOp::RemoveAttribute(DomTarget::Nearby(id), "aria-disabled"));
    }
    assert(ops_view(ops@) =~= button_ops(id@, disabled));
    ops
}

/// The size of the canvas at a zoom: set by hand when it is larger than its
/// place, and left to the style sheet when it fits.
pub open spec fn canvas_ops(z: ZoomView) -> Seq<OpView> {
    let clear = seq![OpView::RemoveStyle(TargetView::Canvas, "transform"@)];
    if z.zoomed {
        clear + seq![
            OpView::SetStyle(TargetView::Canvas, "width"@, percent_text(z.percent)),
            OpView::SetStyle(TargetView::Canvas, "height"@, percent_text(z.percent)),
            OpView::SetStyle(TargetView::Canvas, "object-fit"@, "fill"@),
        ]
    } else {
        clear + seq![
            OpView::RemoveStyle(TargetView::Canvas, "width"@),
            OpView::RemoveStyle(TargetView::Canvas, "height"@),
            OpView::RemoveStyle(TargetView::Canvas, "object-fit"@),
        ]
    }
}

fn canvas_changes(z: &ZoomLevel) -> (ops: Vec<DomOp>)
    ensures
        ops_view(ops@) == canvas_ops(z@),
{
    let mut ops: Vec<DomOp> = Vec::new();
    ops.push(DomOp::RemoveStyle(DomTarget::Canvas, "transform"));
    if z.zoomed {
        let size = percent_label(z.percent);
        ops.push(DomOp::SetStyle(DomTarget::Canvas, "width", size.clone()));
        ops.push(DomOp::SetStyle(DomTarget::Canvas, "height", size));
        ops.push(DomOp::SetStyle(DomTarget::Canvas, "object-fit", "fill".to_owned()));
    } else {
        ops.push(DomOp::RemoveStyle(DomTarget::Canvas, "width"));
        ops.push(DomOp::RemoveStyle(DomTarget::Canvas, "height"));
        ops.push(DomOp::RemoveStyle(DomTarget::Canvas, "object-fit"));
    }
    assert(ops_view(ops@) =~= canvas_ops(z@));
    ops
}

/// Whether the content can be panned: only when it is larger than its place.
/// When it fits, it is scrolled back to its start.
pub open spec fn viewport_ops(peer_id: Seq<char>, z: ZoomView) -> Seq<OpView> {
    let vp = TargetView::Nearby(part_id(Part::Viewport, peer_id));
    if z.zoomed {
        seq![OpView::AddClass(vp, "ss-zoom-viewport--pannable"@)]
    } else {
        seq![OpView::RemoveClass(vp, "ss-zoom-viewport--pannable"@), OpView::ScrollToStart(vp)]
    }
}

fn viewport_changes(peer_id: &str, z: &ZoomLevel) -> (ops: Vec<DomOp>)
    ensures
        ops_view(ops@) == viewport_ops(peer_id@, z@),
{
    let mut ops: Vec<DomOp> = Vec::new();
    let id = viewport_id(peer_id);
    if z.zoomed {
        ops.push(DomOp::AddClass(DomTarget::Nearby(id), "ss-zoom-viewport--pannable"));
    } else {
        ops.push(DomOp::RemoveClass(DomTarget::Nearby(id.clone()), "ss-zoom-viewport--pannable"));
        ops.push(DomOp::ScrollToStart(DomTarget::Nearby(id)));
    }
    assert(ops_view(ops@) =~= viewport_ops(peer_id@, z@));
    ops
}

/// The changes that show content at a zoom.
pub open spec fn zoom_ops(peer_id: Seq<char>, z: ZoomView) -> Seq<OpView> {
    seq![OpView::SetAttribute(TargetView::Host, "data-zoom"@, z.factor)] + canvas_ops(z)
        + viewport_ops(peer_id, z) + seq![
        OpView::SetText(
            TargetView::Nearby(part_id(Part::ZoomLabel, peer_id)),
            percent_text(z.percent),
        ),
    ] + button_ops(part_id(Part::ZoomInButton, peer_id), z.at_max) + button_ops(
        part_id(Part::ZoomOutButton, peer_id),
        z.at_min,
    )
}

/// The changes that show content at a zoom.
pub fn apply_zoom(peer_id: &str, z: &ZoomLevel) -> (ops: Vec<DomOp>)
    ensures
        ops_view(ops@) == zoom_ops(peer_id@, z@),
{
    let mut ops: Vec<DomOp> = Vec::new();
    ops.push(DomOp::SetAttribute(DomTarget::Host, "data-zoom", z.factor.clone()));
    assert(ops_view(ops@) =~= seq![
        OpView::SetAttribute(TargetView::Host, "data-zoom"@, z.factor@),
    ]);
    extend(&mut ops, canvas_changes(z));
    extend(&mut ops, viewport_changes(peer_id, z));
    let ghost before = ops_view(ops@);
    add_op(
        &mut ops,
        DomOp::SetText(DomTarget::Nearby(zoom_label_id(peer_id)), percent_label(z.percent)),
    );
    assert(ops_view(ops@) =~= before + seq![ops_view(ops@).last()]);
    extend(&mut ops, set_btn_disabled(zoom_in_btn_id(peer_id), z.at_max));
    extend(&mut ops, set_btn_disabled(zoom_out_btn_id(peer_id), z.at_min));
    ops
}

/// The user zooms in, on content that is on the page with these choices.
pub fn handle_zoom_in(peer_id: &str, host: &Option<ZoomChoices>) -> (ops: Vec<DomOp>)
    ensures
        ops_view(ops@) == match *host {
            Some(c) => zoom_ops(peer_id@, c.larger@),
            None => Seq::empty(),
        },
{
    match host {
        Some(c) => apply_zoom(peer_id, &c.larger),
        None => no_changes(),
    }
}

/// The user zooms out.
pub fn handle_zoom_out(peer_id: &str, host: &Option<ZoomChoices>) -> (ops: Vec<DomOp>)
    ensures
        ops_view(ops@) == match *host {
            Some(c) => zoom_ops(peer_id@, c.smaller@),
            None => Seq::empty(),
        },
{
    match host {
        Some(c) => apply_zoom(peer_id, &c.smaller),
        None => no_changes(),
    }
}

/// The user goes back to the size that fits, with content that is on the page.
pub fn handle_reset(peer_id: &str, host_present: bool) -> (ops: Vec<DomOp>)
    ensures
        ops_view(ops@) == if host_present {
            zoom_ops(peer_id@, fit())
        } else {
            Seq::empty()
        },
{
    if host_present {
        apply_zoom(peer_id, &fit_level())
    } else {
        no_changes()
    }
}

fn no_changes() -> (ops: Vec<DomOp>)
    ensures
        ops_view(ops@) == Seq::<OpView>::empty(),
{
    let ops: Vec<DomOp> = Vec::new();
    assert(ops_view(ops@) =~= Seq::empty());
    ops
}

// ---------------------------------------------------------------------------
// Detaching
// ---------------------------------------------------------------------------

/// What is announced when content was detached.
pub const DETACHED_MESSAGE: &'static str = "Shared content opened in a separate window";

/// What is announced when content has returned.
pub const RETURNED_MESSAGE: &'static str = "Shared content returned to the grid";

/// What the detach button says while content is detached, and while it is not.
pub const REATTACH_LABEL: &'static str = "Return shared content to the grid";

pub const DETACH_LABEL: &'static str = "Open shared content in a separate window";

/// Announces something in the main document.
pub open spec fn announcement(peer_id: Seq<char>, message: Seq<char>) -> OpView {
    OpView::SetText(TargetView::Main(part_id(Part::LiveRegion, peer_id)), message)
}

/// Announces something in the main document.
pub fn announce(peer_id: &str, message: &str) -> (op: DomOp)
    ensures
        op@ == announcement(peer_id@, message@),
{
    DomOp::SetText(DomTarget::Main(live_region_id(peer_id)), message.to_owned())
}

/// The detach button, for content that is detached or not.
pub open spec fn detach_button_ops(peer_id: Seq<char>, detached: bool) -> Seq<OpView> {
    let btn = TargetView::Nearby(part_id(Part::DetachButton, peer_id));
    let label = if detached {
        REATTACH_LABEL@
    } else {
        DETACH_LABEL@
    };
    seq![
        OpView::SetAttribute(btn, "aria-pressed"@, if detached {
                "true"@
            } else {
                "false"@
            }),
        OpView::SetAttribute(btn, "aria-label"@, label),
        OpView::SetAttribute(btn, "title"@, label),
    ]
}

/// The detach button, for content that is detached or not.
pub fn set_detach_btn_state(peer_id: &str, detached: bool) -> (ops: Vec<DomOp>)
    ensures
        ops_view(ops@) == detach_button_ops(peer_id@, detached),
{
    let mut ops: Vec<DomOp> = Vec::new();
    let label = if detached {
        REATTACH_LABEL
    } else {
        DETACH_LABEL
    };
    let pressed = if detached {
        "true"
    } else {
        "false"
    };
    ops.push(
        DomOp::SetAttribute(
            DomTarget::Nearby(detach_btn_id(peer_id)),
            "aria-pressed",
            pressed.to_owned(),
        ),
    );
    ops.push(
        DomOp::SetAttribute(
            DomTarget::Nearby(detach_btn_id(peer_id)),
            "aria-label",
            label.to_owned(),
        ),
    );
    ops.push(
        DomOp::SetAttribute(
            DomTarget::Nearby(detach_btn_id(peer_id)),
            "title",
            label.to_owned(),
        ),
    );
    assert(ops_view(ops@) =~= detach_button_ops(peer_id@, detached));
    ops
}

/// The place in the grid, for content that is detached or not.
pub open spec fn slot_op(peer_id: Seq<char>, detached: bool) -> OpView {
    let slot = TargetView::Main(part_id(Part::GridSlot, peer_id));
    if detached {
        OpView::SetAttribute(slot, "data-detached"@, "true"@)
    } else {
        OpView::RemoveAttribute(slot, "data-detached"@)
    }
}

/// The place in the grid, for content that is detached or not.
pub fn set_slot_detached(peer_id: &str, detached: bool) -> (op: DomOp)
    ensures
        op@ == slot_op(peer_id@, detached),
{
    let slot = DomTarget::Main(grid_slot_id(peer_id));
    if detached {
        DomOp::SetAttribute(slot, "data-detached", "true".to_owned())
    } else {
        DomOp::RemoveAttribute(slot, "data-detached")
    }
}

/// The sizes between which a window for detached content is opened.
pub const MIN_PIP_WIDTH: i64 = 320;

pub const MAX_PIP_WIDTH: i64 = 2560;

pub const MIN_PIP_HEIGHT: i64 = 240;

pub const MAX_PIP_HEIGHT: i64 = 1600;

/// A number, or the nearest of a range.
pub open spec fn within(n: int, low: int, high: int) -> int {
    if n < low {
        low
    } else if n > high {
        high
    } else {
        n
    }
}

/// The size of the window for content of this size.
pub fn pip_window_size(width: i64, height: i64) -> (res: (i64, i64))
    ensures
        res.0 == within(width as int, MIN_PIP_WIDTH as int, MAX_PIP_WIDTH as int),
        res.1 == within(height as int, MIN_PIP_HEIGHT as int, MAX_PIP_HEIGHT as int),
{
    let w: i64 = if width < MIN_PIP_WIDTH {
        MIN_PIP_WIDTH
    } else if width > MAX_PIP_WIDTH {
        MAX_PIP_WIDTH
    } else {
        width
    };
    let h: i64 = if height < MIN_PIP_HEIGHT {
        MIN_PIP_HEIGHT
    } else if height > MAX_PIP_HEIGHT {
        MAX_PIP_HEIGHT
    } else {
        height
    };
    (w, h)
}

/// The changes that prepare the window.
pub open spec fn window_ops() -> Seq<OpView> {
    seq![OpView::CopyStyles, OpView::AddClass(TargetView::PipBody, "ss-pip-body"@)]
}

/// The changes that move content to its window, at its zoom.
pub open spec fn detaching_ops(peer_id: Seq<char>, z: ZoomView) -> Seq<OpView> {
    window_ops() + seq![OpView::MoveHost(TargetView::PipBody)] + zoom_ops(peer_id, z) + seq![
        OpView::SetAttribute(TargetView::Host, "data-detached"@, "true"@),
    ] + detach_button_ops(peer_id, true) + seq![
        OpView::Focus(TargetView::Nearby(part_id(Part::DetachButton, peer_id))),
        slot_op(peer_id, true),
        announcement(peer_id, DETACHED_MESSAGE@),
    ]
}

/// The window was opened: the content moves there, if it is still on the page,
/// with its zoom.
pub fn detach_to_pip(peer_id: &str, host: &Option<ZoomLevel>) -> (ops: Vec<DomOp>)
    ensures
        ops_view(ops@) == match *host {
            Some(z) => detaching_ops(peer_id@, z@),
            None => window_ops(),
        },
{
    let mut ops: Vec<DomOp> = Vec::new();
    ops.push(DomOp::CopyStyles);
    ops.push(DomOp::AddClass(DomTarget::PipBody, "ss-pip-body"));
    assert(ops_view(ops@) =~= window_ops());
    if let Some(z) = host {
        add_op(&mut ops, DomOp::MoveHost(DomTarget::PipBody));
        extend(&mut ops, apply_zoom(peer_id, z));
        add_op(
            &mut ops,
            DomOp::SetAttribute(DomTarget::Host, "data-detached", "true".to_owned()),
        );
        extend(&mut ops, set_detach_btn_state(peer_id, true));
        add_op(&mut ops, DomOp::Focus(DomTarget::Nearby(detach_btn_id(peer_id))));
        add_op(&mut ops, set_slot_detached(peer_id, true));
        add_op(&mut ops, announce(peer_id, DETACHED_MESSAGE));
        assert(ops_view(ops@) =~= detaching_ops(peer_id@, z@));
    }
    ops
}

/// Content that is on the page, when its window closes.
#[derive(Debug, PartialEq, Eq)]
pub struct DetachedHost {
    pub zoom: ZoomLevel,
    /// Whether it is in its place in the grid already.
    pub at_home: bool,
}

/// The changes that bring content back to the grid.
pub open spec fn reattaching_ops(peer_id: Seq<char>, z: ZoomView) -> Seq<OpView> {
    seq![
        OpView::MoveHost(TargetView::Main(part_id(Part::GridSlot, peer_id))),
        OpView::RemoveAttribute(TargetView::Host, "data-detached"@),
    ] + zoom_ops(peer_id, z) + detach_button_ops(peer_id, false) + seq![
        OpView::Focus(TargetView::Main(part_id(Part::DetachButton, peer_id))),
        slot_op(peer_id, false),
        announcement(peer_id, RETURNED_MESSAGE@),
    ]
}

/// The changes for content that is in its place already.
pub open spec fn settling_ops(peer_id: Seq<char>) -> Seq<OpView> {
    seq![OpView::RemoveAttribute(TargetView::Host, "data-detached"@)] + detach_button_ops(
        peer_id,
        false,
    ) + seq![slot_op(peer_id, false)]
}

/// The changes that bring content back, if it and its place are on the page.
pub open spec fn returning_ops(
    peer_id: Seq<char>,
    slot_present: bool,
    host: Option<DetachedHost>,
) -> Seq<OpView> {
    match host {
        Some(h) => if !slot_present {
            Seq::empty()
        } else if h.at_home {
            settling_ops(peer_id)
        } else {
            reattaching_ops(peer_id, h.zoom@)
        },
        None => Seq::empty(),
    }
}

/// The window closes: the content returns to its place in the grid, if both are
/// on the page.
pub fn reattach_from_pip(peer_id: &str, slot_present: bool, host: &Option<DetachedHost>) -> (ops:
    Vec<DomOp>)
    ensures
        ops_view(ops@) == returning_ops(peer_id@, slot_present, *host),
{
    let mut ops: Vec<DomOp> = no_changes();
    if !slot_present {
        return ops;
    }
    if let Some(h) = host {
        if h.at_home {
            add_op(&mut ops, DomOp::RemoveAttribute(DomTarget::Host, "data-detached"));
            extend(&mut ops, set_detach_btn_state(peer_id, false));
            add_op(&mut ops, set_slot_detached(peer_id, false));
            assert(ops_view(ops@) =~= settling_ops(peer_id@));
        } else {
            add_op(&mut ops, DomOp::MoveHost(DomTarget::Main(grid_slot_id(peer_id))));
            add_op(&mut ops, DomOp::RemoveAttribute(DomTarget::Host, "data-detached"));
            extend(&mut ops, apply_zoom(peer_id, &h.zoom));
            extend(&mut ops, set_detach_btn_state(peer_id, false));
            add_op(&mut ops, DomOp::Focus(DomTarget::Main(detach_btn_id(peer_id))));
            add_op(&mut ops, set_slot_detached(peer_id, false));
            add_op(&mut ops, announce(peer_id, RETURNED_MESSAGE));
            assert(ops_view(ops@) =~= reattaching_ops(peer_id@, h.zoom@));
        }
    }
    ops
}

/// Whether a window is to be asked for, and of which size: content that is on the
/// page gets one where the browser has such windows.
pub fn detach_request(supported: bool, host_size: Option<(i64, i64)>) -> (res: Option<(i64, i64)>)
    ensures
        res == match host_size {
            Some((width, height)) if supported => Some(
                (
                    within(width as int, MIN_PIP_WIDTH as int, MAX_PIP_WIDTH as int) as i64,
                    within(height as int, MIN_PIP_HEIGHT as int, MAX_PIP_HEIGHT as int) as i64,
                ),
            ),
            _ => None,
        },
{
    match host_size {
        Some((width, height)) => if supported {
            Some(pip_window_size(width, height))
        } else {
            None
        },
        None => None,
    }
}

/// The changes when the window has closed: the content returns, and after that
/// the close is reported.
pub open spec fn closing_ops(
    peer_id: Seq<char>,
    slot_present: bool,
    host: Option<DetachedHost>,
) -> Seq<OpView> {
    returning_ops(peer_id, slot_present, host).push(OpView::ReportClosed)
}

/// The window has closed: the content returns to its place in the grid, and after
/// that the close is reported.
pub fn pip_closed(peer_id: &str, slot_present: bool, host: &Option<DetachedHost>) -> (ops: Vec<
    DomOp,
>)
    ensures
        ops_view(ops@) == closing_ops(peer_id@, slot_present, *host),
{
    let mut ops = reattach_from_pip(peer_id, slot_present, host);
    add_op(&mut ops, DomOp::ReportClosed);
    ops
}

/// How far the detaching of some content has come.
#[derive(Debug, Clone, Copy, PartialEq, Eq, Structural)]
pub enum Detaching {
    /// A window was asked for.
    Asked,
    /// The content is in its window.
    Open,
    /// The window has closed.
    Closed,
    /// There is no window for the content.
    GivenUp,
}

/// What happens to the window.
#[derive(Debug, PartialEq, Eq)]
pub enum PipEvent {
    /// The browser opened no window.
    Refused,
    /// The window was opened; the zoom of the content, if that is still on the
    /// page.
    Opened { zoom: Option<ZoomLevel> },
    /// The window closes, for whatever reason.
    Closed { slot_present: bool, host: Option<DetachedHost> },
}

/// How far the detaching has come after an event, and the changes to the page.
pub open spec fn detach_step(d: Detaching, peer_id: Seq<char>, e: PipEvent) -> (
    Detaching,
    Seq<OpView>,
) {
    match (d, e) {
        (Detaching::Asked, PipEvent::Refused) => (Detaching::GivenUp, Seq::empty()),
        (Detaching::Asked, PipEvent::Opened { zoom: Some(z) }) => (
            Detaching::Open,
            detaching_ops(peer_id, z@),
        ),
        (Detaching::Asked, PipEvent::Opened { zoom: None }) => (Detaching::GivenUp, window_ops()),
        (Detaching::Open, PipEvent::Closed { slot_present, host }) => (
            Detaching::Closed,
            closing_ops(peer_id, slot_present, host),
        ),
        _ => (d, Seq::empty()),
    }
}

/// How far the detaching has come before anything happens to the window.
pub open spec fn detach_start(request: Option<(i64, i64)>) -> Detaching {
    if request is Some {
        Detaching::Asked
    } else {
        Detaching::GivenUp
    }
}

impl Detaching {
    /// Starts the detaching, with the window that is asked for.
    pub fn start(request: &Option<(i64, i64)>) -> (res: Detaching)
        ensures
            res == detach_start(*request),
    {
        if request.is_some() {
            Detaching::Asked
        } else {
            Detaching::GivenUp
        }
    }

    /// How far the detaching has come after an event, and the changes to the page.
    pub fn step(self, peer_id: &str, event: &PipEvent) -> (res: (Detaching, Vec<DomOp>))
        ensures
            (res.0, ops_view(res.1@)) == detach_step(self, peer_id@, *event),
    {
        match (self, event) {
            (Detaching::Asked, PipEvent::Refused) => (Detaching::GivenUp, no_changes()),
            (Detaching::Asked, PipEvent::Opened { zoom }) => {
                let next = if zoom.is_some() {
                    Detaching::Open
                } else {
                    Detaching::GivenUp
                };
                (next, detach_to_pip(peer_id, zoom))
            },
            (Detaching::Open, PipEvent::Closed { slot_present, host }) => (
                Detaching::Closed,
                pip_closed(peer_id, *slot_present, host),
            ),
            _ => (self, no_changes()),
        }
    }
}

/// Closes the window of detached content, if one is open.
pub fn close_pip_if_open(pip_open: bool) -> (ops: Vec<DomOp>)
    ensures
        ops_view(ops@) == if pip_open {
            seq![OpView::ClosePip]
        } else {
            Seq::empty()
        },
{
    let mut ops: Vec<DomOp> = no_changes();
    if pip_open {
        add_op(&mut ops, DomOp::ClosePip);
        assert(ops_view(ops@) =~= seq![OpView::ClosePip]);
    }
    ops
}

/// Whether the open window holds the content of this peer, given the ids of what
/// it holds.
pub fn is_pip_open_for(peer_id: &str, held: &Option<Vec<String>>) -> (res: bool)
    ensures
        res == match *held {
            Some(ids) => text::strings(ids@).contains(part_id(Part::PipHost, peer_id@)),
            None => false,
        },
{
    let wanted = pip_host_id(peer_id);
    match held {
        None => false,
        Some(ids) => {
            let mut i: usize = 0;
            while i < ids.len()
                invariant
                    i <= ids@.len(),
                    *held == Some(*ids),
                    wanted@ == part_id(Part::PipHost, peer_id@),
                    forall|k: int| 0 <= k < i ==> #[trigger] text::strings(ids@)[k] != wanted@,
                decreases ids@.len() - i,
            {
                if ids[i].as_str().eq(wanted.as_str()) {
                    assert(text::strings(ids@)[i as int] == wanted@);
                    return true;
                }
                i = i + 1;
            }
            false
        },
    }
}

// ---------------------------------------------------------------------------
// Panning
// ---------------------------------------------------------------------------

/// How the content lies in its box, in pixels.
#[derive(Debug, Clone, Copy, PartialEq, Eq, Structural)]
pub struct Viewport {
    pub scroll_width: i32,
    pub scroll_height: i32,
    pub client_width: i32,
    pub client_height: i32,
    pub scroll_left: i32,
    pub scroll_top: i32,
}

/// Whether there is anything to pan to.
pub open spec fn pannable(v: Viewport) -> bool {
    v.scroll_width > v.client_width || v.scroll_height > v.client_height
}

/// A place in pixels, or the nearest that there is.
pub open spec fn pixels(n: int) -> int {
    within(n, i32::MIN as int, i32::MAX as int)
}

fn to_pixels(n: i64) -> (res: i32)
    ensures
        res == pixels(n as int),
{
    if n < i32::MIN as i64 {
        i32::MIN
    } else if n > i32::MAX as i64 {
        i32::MAX
    } else {
        n as i32
    }
}

/// A drag with the pointer: whether one is under way, and where the pointer was
/// last.
#[derive(Debug, Clone, Copy, PartialEq, Eq, Structural)]
pub struct PanState {
    pub active: bool,
    pub last_x: i32,
    pub last_y: i32,
}

/// Where the content is scrolled to.
#[derive(Debug, Clone, Copy, PartialEq, Eq, Structural)]
pub struct ScrollTo {
    pub left: i32,
    pub top: i32,
}

/// Where a drag of the pointer scrolls to: against the way that the pointer went.
pub open spec fn dragged(p: PanState, v: Viewport, x: i32, y: i32) -> ScrollTo {
    ScrollTo {
        left: pixels(v.scroll_left - pixels(x - p.last_x)) as i32,
        top: pixels(v.scroll_top - pixels(y - p.last_y)) as i32,
    }
}

impl PanState {
    /// No drag is under way.
    pub fn new() -> (res: PanState)
        ensures
            res == (PanState { active: false, last_x: 0, last_y: 0 }),
    {
        PanState { active: false, last_x: 0, last_y: 0 }
    }

    /// The pointer went down: a drag starts, if there is anything to pan to. Tells
    /// whether the content is to be marked as being panned.
    pub fn pointer_down(&mut self, v: Viewport, x: i32, y: i32) -> (started: bool)
        ensures
            started == pannable(v),
            *final(self) == if pannable(v) {
                PanState { active: true, last_x: x, last_y: y }
            } else {
                *old(self)
            },
    {
        if v.scroll_width <= v.client_width && v.scroll_height <= v.client_height {
            return false;
        }
        *self = PanState { active: true, last_x: x, last_y: y };
        true
    }

    /// The pointer moved: during a drag, the content follows it.
    pub fn pointer_move(&mut self, v: Viewport, x: i32, y: i32) -> (res: Option<ScrollTo>)
        ensures
            res == if old(self).active {
                Some(dragged(*old(self), v, x, y))
            } else {
                None
            },
            *final(self) == if old(self).active {
                PanState { active: true, last_x: x, last_y: y }
            } else {
                *old(self)
            },
    {
        if !self.active {
            return None;
        }
        let dx: i32 = to_pixels(x as i64 - self.last_x as i64);
        let dy: i32 = to_pixels(y as i64 - self.last_y as i64);
        let left: i32 = to_pixels(v.scroll_left as i64 - dx as i64);
        let top: i32 = to_pixels(v.scroll_top as i64 - dy as i64);
        *self = PanState { active: true, last_x: x, last_y: y };
        Some(ScrollTo { left, top })
    }

    /// The pointer went up, or left: a drag ends.
    pub fn pointer_up(&mut self)
        ensures
            *final(self) == (PanState { active: false, ..*old(self) }),
    {
        self.active = false;
    }
}

/// The number, or zero where it is less.
pub open spec fn at_least_zero(n: int) -> int {
    if n < 0 {
        0
    } else {
        n
    }
}

/// Where a key scrolls to, given the distance that the key stands for, if it
/// stands for one. Other keys, and all keys where there is nothing to pan to, are
/// left alone.
pub open spec fn key_target(
    key: Seq<char>,
    v: Viewport,
    delta: Option<(i32, i32)>,
) -> Option<ScrollTo> {
    if !pannable(v) {
        None
    } else if key == "Home"@ {
        Some(ScrollTo { left: 0, top: 0 })
    } else if key == "End"@ {
        Some(
            ScrollTo {
                left: pixels(at_least_zero(v.scroll_width - v.client_width)) as i32,
                top: pixels(at_least_zero(v.scroll_height - v.client_height)) as i32,
            },
        )
    } else {
        match delta {
            Some(d) => Some(
                ScrollTo {
                    left: pixels(v.scroll_left + d.0) as i32,
                    top: pixels(v.scroll_top + d.1) as i32,
                },
            ),
            None => None,
        }
    }
}

/// Where a key scrolls to; nothing, where the key is left to the page.
pub fn pan_with_key(key: &str, v: Viewport, delta: Option<(i32, i32)>) -> (res: Option<ScrollTo>)
    ensures
        res == key_target(key@, v, delta),
{
    if v.scroll_width <= v.client_width && v.scroll_height <= v.client_height {
        return None;
    }
    if key.eq("Home") {
        return Some(ScrollTo { left: 0, top: 0 });
    }
    if key.eq("End") {
        let x: i64 = v.scroll_width as i64 - v.client_width as i64;
        let y: i64 = v.scroll_height as i64 - v.client_height as i64;
        let left: i32 = if x < 0 {
            0
        } else {
            to_pixels(x)
        };
        let top: i32 = if y < 0 {
            0
        } else {
            to_pixels(y)
        };
        return Some(ScrollTo { left, top });
    }
    match delta {
        Some((dx, dy)) => {
            let left: i32 = to_pixels(v.scroll_left as i64 + dx as i64);
            let top: i32 = to_pixels(v.scroll_top as i64 + dy as i64);
            Some(ScrollTo { left, top })
        },
        None => None,
    }
}

// ---------------------------------------------------------------------------
// Laws
// ---------------------------------------------------------------------------

proof fn lemma_suffixes(p: Part)
    ensures
        part_suffix(p).len() >= 5,
        ({
            let s = part_suffix(p);
            let a = s[s.len() - 2];
            let b = s[s.len() - 1];
            match p {
                Part::PipHost => a == 's' && b == 't',
                Part::Viewport => a == 'r' && b == 't',
                Part::ZoomLabel => a == 'e' && b == 'l',
                Part::GridSlot => a == 'o' && b == 't',
                Part::DetachButton => a == 't' && b == 'n',
                Part::ZoomInButton => a == 'i' && b == 'n',
                Part::ZoomOutButton => a == 'u' && b == 't',
                Part::LiveRegion => a == 'v' && b == 'e',
            }
        }),
{
    reveal_strlit("-pip-host");
    reveal_strlit("-viewport");
    reveal_strlit("-zoom-label");
    reveal_strlit("-slot");
    reveal_strlit("-detach-btn");
    reveal_strlit("-zoom-in");
    reveal_strlit("-zoom-out");
    reveal_strlit("-live");
}

/// No two parts have the same id, of whichever peers: an id names one part of one
/// peer. So the controls of a peer never reach another's content, and a window
/// that holds one peer's content is not taken for another's.
pub proof fn law_ids_are_unique(p: Part, a: Seq<char>, q: Part, b: Seq<char>)
    requires
        part_id(p, a) == part_id(q, b),
    ensures
        p == q,
        a == b,
{
    lemma_suffixes(p);
    lemma_suffixes(q);
    let x = part_id(p, a);
    let y = part_id(q, b);
    let s = part_suffix(p);
    let t = part_suffix(q);
    let n = "screen-share-"@.len() as int;
    assert(x[x.len() - 1] == s[s.len() - 1] && x[x.len() - 2] == s[s.len() - 2]);
    assert(y[y.len() - 1] == t[t.len() - 1] && y[y.len() - 2] == t[t.len() - 2]);
    assert(p == q);
    assert(a =~= x.subrange(n, x.len() - s.len()));
    assert(b =~= y.subrange(n, y.len() - t.len()));
}

/// A page, as far as changes concern it.
pub struct Page {
    /// The attributes of elements.
    pub attributes: Map<(TargetView, Seq<char>), Seq<char>>,
    /// The style properties that were set by hand.
    pub styles: Map<(TargetView, Seq<char>), Seq<char>>,
    pub classes: Set<(TargetView, Seq<char>)>,
    pub texts: Map<TargetView, Seq<char>>,
    /// What is scrolled to its start.
    pub at_start: Set<TargetView>,
    pub focus: Option<TargetView>,
    /// To which element the host was moved last.
    pub host_at: Option<TargetView>,
    /// Whether the other window has the style sheets.
    pub styles_copied: bool,
    /// Whether the other window was closed by the page.
    pub pip_closed: bool,
    /// How often the close of the other window was reported.
    pub reports: nat,
}

/// A page after a change.
pub open spec fn changed(p: Page, op: OpView) -> Page {
    match op {
        OpView::SetAttribute(t, n, v) => Page { attributes: p.attributes.insert((t, n), v), ..p },
        OpView::RemoveAttribute(t, n) => Page { attributes: p.attributes.remove((t, n)), ..p },
        OpView::SetStyle(t, n, v) => Page { styles: p.styles.insert((t, n), v), ..p },
        OpView::RemoveStyle(t, n) => Page { styles: p.styles.remove((t, n)), ..p },
        OpView::AddClass(t, c) => Page { classes: p.classes.insert((t, c)), ..p },
        OpView::RemoveClass(t, c) => Page { classes: p.classes.remove((t, c)), ..p },
        OpView::ScrollToStart(t) => Page { at_start: p.at_start.insert(t), ..p },
        OpView::SetText(t, v) => Page { texts: p.texts.insert(t, v), ..p },
        OpView::Focus(t) => Page { focus: Some(t), ..p },
        OpView::CopyStyles => Page { styles_copied: true, ..p },
        OpView::MoveHost(t) => Page { host_at: Some(t), ..p },
        OpView::ClosePip => Page { pip_closed: true, ..p },
        OpView::ReportClosed => Page { reports: p.reports + 1, ..p },
    }
}

/// A page after some changes, one after the other.
pub open spec fn page_after(p: Page, ops: Seq<OpView>) -> Page
    decreases ops.len(),
{
    if ops.len() == 0 {
        p
    } else {
        changed(page_after(p, ops.drop_last()), ops.last())
    }
}

proof fn lemma_page_append(p: Page, a: Seq<OpView>, b: Seq<OpView>)
    ensures
        page_after(p, a + b) == page_after(page_after(p, a), b),
    decreases b.len(),
{
    if b.len() == 0 {
        assert(a + b =~= a);
    } else {
        lemma_page_append(p, a, b.drop_last());
        assert((a + b).drop_last() =~= a + b.drop_last());
        assert((a + b).last() == b.last());
    }
}

/// Whether a button is disabled on a page: the presence of the attribute tells.
pub open spec fn is_disabled(p: Page, id: Seq<char>) -> bool {
    p.attributes.dom().contains((TargetView::Nearby(id), "disabled"@))
}

proof fn lemma_button(p: Page, id: Seq<char>, disabled: bool)
    ensures
        is_disabled(page_after(p, button_ops(id, disabled)), id) == disabled,
        forall|other: Seq<char>|
            other != id ==> is_disabled(page_after(p, button_ops(id, disabled)), other)
                == #[trigger] is_disabled(p, other),
{
    reveal_strlit("disabled");
    reveal_strlit("aria-disabled");
    assert("disabled"@.len() != "aria-disabled"@.len());
    let ops = button_ops(id, disabled);
    let none = Seq::<OpView>::empty();
    assert(ops =~= none + seq![ops[0]] + seq![ops[1]]);
    lemma_last_change(
        p,
        none,
        ops[0],
        seq![ops[1]],
        (TargetView::Nearby(id), "disabled"@),
    );
    assert forall|other: Seq<char>| other != id implies is_disabled(
        page_after(p, ops),
        other,
    ) == #[trigger] is_disabled(p, other) by {
        lemma_left_alone(p, ops, (TargetView::Nearby(other), "disabled"@));
    }
}

/// However the buttons were before, at every zoom the button to zoom in is
/// disabled exactly at the largest zoom, and the one to zoom out exactly at the
/// smallest: none stays stuck.
pub proof fn law_zoom_buttons_follow_the_zoom(
    p: Page,
    peer_id: Seq<char>,
    z: ZoomView,
)
    ensures
        ({
            let after = page_after(p, zoom_ops(peer_id, z));
            is_disabled(after, part_id(Part::ZoomInButton, peer_id)) == z.at_max && is_disabled(
                after,
                part_id(Part::ZoomOutButton, peer_id),
            ) == z.at_min
        }),
{
    let zoom_in = part_id(Part::ZoomInButton, peer_id);
    let zoom_out = part_id(Part::ZoomOutButton, peer_id);
    if zoom_in == zoom_out {
        law_ids_are_unique(Part::ZoomInButton, peer_id, Part::ZoomOutButton, peer_id);
    }
    let start = seq![OpView::SetAttribute(TargetView::Host, "data-zoom"@, z.factor)] + canvas_ops(
        z,
    ) + viewport_ops(peer_id, z) + seq![
        OpView::SetText(
            TargetView::Nearby(part_id(Part::ZoomLabel, peer_id)),
            percent_text(z.percent),
        ),
    ];
    let a = button_ops(zoom_in, z.at_max);
    let b = button_ops(zoom_out, z.at_min);
    assert(zoom_ops(peer_id, z) =~= start + a + b);
    lemma_page_append(p, start + a, b);
    lemma_page_append(p, start, a);
    let after_start = page_after(p, start);
    let after_a = page_after(after_start, a);
    lemma_button(after_start, zoom_in, z.at_max);
    lemma_button(after_a, zoom_out, z.at_min);
    assert(is_disabled(after_a, zoom_in) == z.at_max);
}

/// The canvas stands at its natural size exactly when it fits: whatever was set
/// by hand before is then taken away.
pub proof fn law_fitting_content_has_no_overrides(z: ZoomView)
    requires
        !z.zoomed,
    ensures
        forall|i: int|
            0 <= i < canvas_ops(z).len() ==> (#[trigger] canvas_ops(z)[i]) is RemoveStyle,
        canvas_ops(z).contains(OpView::RemoveStyle(TargetView::Canvas, "width"@)),
        canvas_ops(z).contains(OpView::RemoveStyle(TargetView::Canvas, "height"@)),
        canvas_ops(z).contains(OpView::RemoveStyle(TargetView::Canvas, "object-fit"@)),
{
    assert(canvas_ops(z)[1] == OpView::RemoveStyle(TargetView::Canvas, "width"@));
    assert(canvas_ops(z)[2] == OpView::RemoveStyle(TargetView::Canvas, "height"@));
    assert(canvas_ops(z)[3] == OpView::RemoveStyle(TargetView::Canvas, "object-fit"@));
}

/// A drag there and back leaves the content where it was, unless it runs into the
/// limits of what can be counted.
pub proof fn law_drag_back_returns(v: Viewport, x: i32, y: i32, u: i32, w: i32)
    requires
        pixels(u - x) == u - x,
        pixels(x - u) == x - u,
        pixels(w - y) == w - y,
        pixels(y - w) == y - w,
        pixels(v.scroll_left - (u - x)) == v.scroll_left - (u - x),
        pixels(v.scroll_top - (w - y)) == v.scroll_top - (w - y),
    ensures
        ({
            let there = dragged(PanState { active: true, last_x: x, last_y: y }, v, u, w);
            let moved = Viewport { scroll_left: there.left, scroll_top: there.top, ..v };
            let back = dragged(PanState { active: true, last_x: u, last_y: w }, moved, x, y);
            back.left == v.scroll_left && back.top == v.scroll_top
        }),
{
}

/// Keys are never taken from the page where there is nothing to pan to.
pub proof fn law_keys_are_not_trapped(key: Seq<char>, v: Viewport, delta: Option<(i32, i32)>)
    requires
        !pannable(v),
    ensures
        key_target(key, v, delta) is None,
{
}

/// Whether a change concerns an attribute.
pub open spec fn touches(op: OpView, key: (TargetView, Seq<char>)) -> bool {
    match op {
        OpView::SetAttribute(t, n, _) => (t, n) == key,
        OpView::RemoveAttribute(t, n) => (t, n) == key,
        _ => false,
    }
}

/// Whether some changes leave an attribute alone.
pub open spec fn leaves_alone(ops: Seq<OpView>, key: (TargetView, Seq<char>)) -> bool {
    forall|i: int| 0 <= i < ops.len() ==> !touches(#[trigger] ops[i], key)
}

proof fn lemma_left_alone(p: Page, ops: Seq<OpView>, key: (TargetView, Seq<char>))
    requires
        leaves_alone(ops, key),
    ensures
        page_after(p, ops).attributes.dom().contains(key) == p.attributes.dom().contains(key),
        page_after(p, ops).attributes[key] == p.attributes[key],
    decreases ops.len(),
{
    if ops.len() > 0 {
        let first = ops.drop_last();
        assert forall|i: int| 0 <= i < first.len() implies !touches(#[trigger] first[i], key) by {
            assert(first[i] == ops[i]);
        }
        lemma_left_alone(p, first, key);
        assert(!touches(ops[ops.len() - 1], key));
    }
}

/// The change that concerns an attribute last decides about it.
proof fn lemma_last_change(
    p: Page,
    before: Seq<OpView>,
    op: OpView,
    after: Seq<OpView>,
    key: (TargetView, Seq<char>),
)
    requires
        touches(op, key),
        leaves_alone(after, key),
    ensures
        ({
            let end = page_after(p, before + seq![op] + after);
            match op {
                OpView::SetAttribute(_, _, v) => end.attributes.dom().contains(key) && end.attributes[key] == v,
                _ => !end.attributes.dom().contains(key),
            }
        }),
{
    let upto = before + seq![op];
    lemma_page_append(p, upto, after);
    lemma_left_alone(page_after(p, upto), after, key);
    assert(upto.drop_last() =~= before);
    assert(upto.last() == op);
}

proof fn lemma_detached_marks(p: Page, peer_id: Seq<char>, z: ZoomView)
    ensures
        ({
            let away = page_after(p, detaching_ops(peer_id, z));
            let slot = TargetView::Main(part_id(Part::GridSlot, peer_id));
            away.attributes.dom().contains((TargetView::Host, "data-detached"@)) && away.attributes.dom().contains(
                (slot, "data-detached"@),
            )
        }),
{
    let slot = TargetView::Main(part_id(Part::GridSlot, peer_id));
    let all = detaching_ops(peer_id, z);
    let start = window_ops() + seq![OpView::MoveHost(TargetView::PipBody)] + zoom_ops(peer_id, z);
    let mark = OpView::SetAttribute(TargetView::Host, "data-detached"@, "true"@);
    let button = detach_button_ops(peer_id, true);
    let focus = OpView::Focus(TargetView::Nearby(part_id(Part::DetachButton, peer_id)));
    let end = seq![announcement(peer_id, DETACHED_MESSAGE@)];
    let rest = button + seq![focus, slot_op(peer_id, true)] + end;
    assert(all =~= start + seq![mark] + rest);
    lemma_last_change(p, start, mark, rest, (TargetView::Host, "data-detached"@));
    assert(all =~= (start + seq![mark] + button + seq![focus]) + seq![slot_op(peer_id, true)]
        + end);
    lemma_last_change(
        p,
        start + seq![mark] + button + seq![focus],
        slot_op(peer_id, true),
        end,
        (slot, "data-detached"@),
    );
}

proof fn lemma_returned_marks(p: Page, peer_id: Seq<char>, z: ZoomView)
    ensures
        ({
            let back = page_after(p, reattaching_ops(peer_id, z));
            let slot = TargetView::Main(part_id(Part::GridSlot, peer_id));
            let btn = TargetView::Nearby(part_id(Part::DetachButton, peer_id));
            &&& !back.attributes.dom().contains((TargetView::Host, "data-detached"@))
            &&& !back.attributes.dom().contains((slot, "data-detached"@))
            &&& back.attributes[(btn, "aria-pressed"@)] == "false"@
            &&& back.attributes[(btn, "aria-label"@)] == DETACH_LABEL@
            &&& back.attributes[(btn, "title"@)] == DETACH_LABEL@
        }),
{
    reveal_strlit("data-detached");
    reveal_strlit("data-zoom");
    reveal_strlit("aria-pressed");
    reveal_strlit("aria-label");
    reveal_strlit("title");
    assert("data-detached"@.len() == 13 && "data-zoom"@.len() == 9);
    assert("aria-pressed"@.len() == 12 && "aria-label"@.len() == 10 && "title"@.len() == 5);
    let slot = TargetView::Main(part_id(Part::GridSlot, peer_id));
    let btn = TargetView::Nearby(part_id(Part::DetachButton, peer_id));
    let all = reattaching_ops(peer_id, z);
    let move_op = OpView::MoveHost(slot);
    let unmark = OpView::RemoveAttribute(TargetView::Host, "data-detached"@);
    let zoom = zoom_ops(peer_id, z);
    let button = detach_button_ops(peer_id, false);
    let focus = OpView::Focus(TargetView::Main(part_id(Part::DetachButton, peer_id)));
    let end = seq![announcement(peer_id, RETURNED_MESSAGE@)];
    let tail = seq![focus, slot_op(peer_id, false)] + end;
    assert(all =~= seq![move_op] + seq![unmark] + (zoom + button + tail));
    assert(leaves_alone(zoom + button + tail, (TargetView::Host, "data-detached"@)));
    lemma_last_change(
        p,
        seq![move_op],
        unmark,
        zoom + button + tail,
        (TargetView::Host, "data-detached"@),
    );
    let start = seq![move_op, unmark] + zoom;
    assert(all =~= (start + button + seq![focus]) + seq![slot_op(peer_id, false)] + end);
    lemma_last_change(
        p,
        start + button + seq![focus],
        slot_op(peer_id, false),
        end,
        (slot, "data-detached"@),
    );
    assert(all =~= start + seq![button[0]] + (seq![button[1], button[2]] + tail));
    lemma_last_change(
        p,
        start,
        button[0],
        seq![button[1], button[2]] + tail,
        (btn, "aria-pressed"@),
    );
    assert(all =~= (start + seq![button[0]]) + seq![button[1]] + (seq![button[2]] + tail));
    lemma_last_change(
        p,
        start + seq![button[0]],
        button[1],
        seq![button[2]] + tail,
        (btn, "aria-label"@),
    );
    assert(all =~= (start + seq![button[0], button[1]]) + seq![button[2]] + tail);
    lemma_last_change(
        p,
        start + seq![button[0], button[1]],
        button[2],
        tail,
        (btn, "title"@),
    );
}

/// After content went to its window and came back, the page is as if it had never
/// gone: neither the content nor its place is marked, and the button offers to
/// detach again.
pub proof fn law_round_trip_restores_the_page(
    p: Page,
    peer_id: Seq<char>,
    z: ZoomView,
)
    ensures
        ({
            let away = page_after(p, detaching_ops(peer_id, z));
            let back = page_after(away, reattaching_ops(peer_id, z));
            let slot = TargetView::Main(part_id(Part::GridSlot, peer_id));
            let btn = TargetView::Nearby(part_id(Part::DetachButton, peer_id));
            &&& away.attributes.dom().contains((TargetView::Host, "data-detached"@))
            &&& away.attributes.dom().contains((slot, "data-detached"@))
            &&& !back.attributes.dom().contains((TargetView::Host, "data-detached"@))
            &&& !back.attributes.dom().contains((slot, "data-detached"@))
            &&& back.attributes[(btn, "aria-pressed"@)] == "false"@
            &&& back.attributes[(btn, "aria-label"@)] == DETACH_LABEL@
            &&& back.attributes[(btn, "title"@)] == DETACH_LABEL@
        }),
{
    lemma_detached_marks(p, peer_id, z);
    let away = page_after(p, detaching_ops(peer_id, z));
    lemma_returned_marks(away, peer_id, z);
}

// ---------------------------------------------------------------------------
// Changes that are made again
// ---------------------------------------------------------------------------

/// What a change is about. Changes about different things do not interfere.
pub enum Concern {
    Attribute(TargetView, Seq<char>),
    Style(TargetView, Seq<char>),
    Class(TargetView, Seq<char>),
    Scroll(TargetView),
    Text(TargetView),
    Focus,
    StyleSheets,
    HostPlace,
    Window,
    Report,
}

pub open spec fn concern(op: OpView) -> Concern {
    match op {
        OpView::SetAttribute(t, n, _) => Concern::Attribute(t, n),
        OpView::RemoveAttribute(t, n) => Concern::Attribute(t, n),
        OpView::SetStyle(t, n, _) => Concern::Style(t, n),
        OpView::RemoveStyle(t, n) => Concern::Style(t, n),
        OpView::AddClass(t, c) => Concern::Class(t, c),
        OpView::RemoveClass(t, c) => Concern::Class(t, c),
        OpView::ScrollToStart(t) => Concern::Scroll(t),
        OpView::SetText(t, _) => Concern::Text(t),
        OpView::Focus(_) => Concern::Focus,
        OpView::CopyStyles => Concern::StyleSheets,
        OpView::MoveHost(_) => Concern::HostPlace,
        OpView::ClosePip => Concern::Window,
        OpView::ReportClosed => Concern::Report,
    }
}

/// Whether a change has nothing left to do on a page.
pub open spec fn is_done(p: Page, op: OpView) -> bool {
    changed(p, op) == p
}

/// Whether changes are all about different things, and none is a report.
spec fn independent(ops: Seq<OpView>) -> bool {
    &&& forall|i: int| 0 <= i < ops.len() ==> !(#[trigger] ops[i] is ReportClosed)
    &&& forall|i: int, j: int|
        0 <= i < j < ops.len() ==> concern(#[trigger] ops[i]) != concern(#[trigger] ops[j])
}

proof fn lemma_done_after(p: Page, op: OpView)
    requires
        !(op is ReportClosed),
    ensures
        is_done(changed(p, op), op),
{
    let q = changed(p, op);
    let r = changed(q, op);
    assert(r.attributes =~= q.attributes);
    assert(r.styles =~= q.styles);
    assert(r.classes =~= q.classes);
    assert(r.texts =~= q.texts);
    assert(r.at_start =~= q.at_start);
}

/// What a change that has nothing left to do shows of the page.
proof fn lemma_done_shows(p: Page, op: OpView)
    requires
        is_done(p, op),
    ensures
        match op {
            OpView::SetAttribute(t, n, v) => p.attributes.dom().contains((t, n))
                && p.attributes[(t, n)] == v,
            OpView::RemoveAttribute(t, n) => !p.attributes.dom().contains((t, n)),
            OpView::SetStyle(t, n, v) => p.styles.dom().contains((t, n)) && p.styles[(t, n)] == v,
            OpView::RemoveStyle(t, n) => !p.styles.dom().contains((t, n)),
            OpView::AddClass(t, c) => p.classes.contains((t, c)),
            OpView::RemoveClass(t, c) => !p.classes.contains((t, c)),
            OpView::ScrollToStart(t) => p.at_start.contains(t),
            OpView::SetText(t, v) => p.texts.dom().contains(t) && p.texts[t] == v,
            OpView::Focus(t) => p.focus == Some(t),
            OpView::CopyStyles => p.styles_copied,
            OpView::MoveHost(t) => p.host_at == Some(t),
            OpView::ClosePip => p.pip_closed,
            OpView::ReportClosed => false,
        },
{
    let q = changed(p, op);
    assert(q.attributes == p.attributes && q.styles == p.styles && q.classes == p.classes);
    assert(q.texts == p.texts && q.at_start == p.at_start);
}

proof fn lemma_stays_done(p: Page, op: OpView, other: OpView)
    requires
        is_done(p, op),
        concern(op) != concern(other),
    ensures
        is_done(changed(p, other), op),
{
    lemma_done_shows(p, op);
    let q = changed(p, other);
    let r = changed(q, op);
    assert(r.attributes =~= q.attributes);
    assert(r.styles =~= q.styles);
    assert(r.classes =~= q.classes);
    assert(r.texts =~= q.texts);
    assert(r.at_start =~= q.at_start);
}

proof fn lemma_all_done(p: Page, ops: Seq<OpView>)
    requires
        independent(ops),
    ensures
        forall|i: int| 0 <= i < ops.len() ==> is_done(page_after(p, ops), #[trigger] ops[i]),
    decreases ops.len(),
{
    if ops.len() > 0 {
        let first = ops.drop_last();
        let last = ops.last();
        assert(independent(first)) by {
            assert forall|i: int| 0 <= i < first.len() implies !(
            #[trigger] first[i] is ReportClosed) by {
                assert(first[i] == ops[i]);
            }
            assert forall|i: int, j: int| 0 <= i < j < first.len() implies concern(
                #[trigger] first[i],
            ) != concern(#[trigger] first[j]) by {
                assert(first[i] == ops[i] && first[j] == ops[j]);
            }
        }
        lemma_all_done(p, first);
        let before = page_after(p, first);
        assert forall|i: int| 0 <= i < ops.len() implies is_done(
            page_after(p, ops),
            #[trigger] ops[i],
        ) by {
            if i < first.len() {
                assert(first[i] == ops[i]);
                assert(concern(ops[i]) != concern(ops[ops.len() - 1]));
                lemma_stays_done(before, ops[i], last);
            } else {
                assert(!(ops[ops.len() - 1] is ReportClosed));
                lemma_done_after(before, last);
            }
        }
    }
}

proof fn lemma_nothing_to_do(p: Page, ops: Seq<OpView>)
    requires
        forall|i: int| 0 <= i < ops.len() ==> is_done(p, #[trigger] ops[i]),
    ensures
        page_after(p, ops) == p,
    decreases ops.len(),
{
    if ops.len() > 0 {
        let first = ops.drop_last();
        assert forall|i: int| 0 <= i < first.len() implies is_done(p, #[trigger] first[i]) by {
            assert(first[i] == ops[i]);
        }
        lemma_nothing_to_do(p, first);
        assert(is_done(p, ops[ops.len() - 1]));
    }
}

proof fn lemma_zoom_ops_are_independent(peer_id: Seq<char>, z: ZoomView)
    ensures
        independent(zoom_ops(peer_id, z)),
{
    reveal_strlit("transform");
    reveal_strlit("width");
    reveal_strlit("height");
    reveal_strlit("object-fit");
    reveal_strlit("disabled");
    reveal_strlit("aria-disabled");
    assert("transform"@.len() == 9 && "width"@.len() == 5 && "height"@.len() == 6);
    assert("object-fit"@.len() == 10 && "disabled"@.len() == 8 && "aria-disabled"@.len() == 13);
    if part_id(Part::ZoomInButton, peer_id) == part_id(Part::ZoomOutButton, peer_id) {
        law_ids_are_unique(Part::ZoomInButton, peer_id, Part::ZoomOutButton, peer_id);
    }
}

/// To show content at a zoom once more changes nothing, whatever the page was
/// before.
pub proof fn law_zoom_twice_is_zoom_once(p: Page, peer_id: Seq<char>, z: ZoomView)
    ensures
        page_after(page_after(p, zoom_ops(peer_id, z)), zoom_ops(peer_id, z)) == page_after(
            p,
            zoom_ops(peer_id, z),
        ),
{
    lemma_zoom_ops_are_independent(peer_id, z);
    lemma_all_done(p, zoom_ops(peer_id, z));
    lemma_nothing_to_do(page_after(p, zoom_ops(peer_id, z)), zoom_ops(peer_id, z));
}

/// A page after content was shown at some zooms, one after the other.
pub open spec fn after_zooms(p: Page, peer_id: Seq<char>, zooms: Seq<ZoomView>) -> Page
    decreases zooms.len(),
{
    if zooms.len() == 0 {
        p
    } else {
        page_after(after_zooms(p, peer_id, zooms.drop_last()), zoom_ops(peer_id, zooms.last()))
    }
}

/// However the user zoomed before, a reset returns the content to the size that
/// fits: the factor and the label say so, nothing that was set by hand is left on
/// the canvas, and the content lies at its start and cannot be panned. A second
/// reset changes nothing.
pub proof fn law_reset_returns_to_fit(p: Page, peer_id: Seq<char>, zooms: Seq<ZoomView>)
    ensures
        ({
            let reset = page_after(after_zooms(p, peer_id, zooms), zoom_ops(peer_id, fit()));
            let vp = TargetView::Nearby(part_id(Part::Viewport, peer_id));
            let label = TargetView::Nearby(part_id(Part::ZoomLabel, peer_id));
            &&& reset.attributes.dom().contains((TargetView::Host, "data-zoom"@))
            &&& reset.attributes[(TargetView::Host, "data-zoom"@)] == "1"@
            &&& reset.texts.dom().contains(label)
            &&& reset.texts[label] == "100%"@
            &&& !reset.styles.dom().contains((TargetView::Canvas, "width"@))
            &&& !reset.styles.dom().contains((TargetView::Canvas, "height"@))
            &&& !reset.styles.dom().contains((TargetView::Canvas, "object-fit"@))
            &&& !reset.styles.dom().contains((TargetView::Canvas, "transform"@))
            &&& !reset.classes.contains((vp, "ss-zoom-viewport--pannable"@))
            &&& reset.at_start.contains(vp)
            &&& page_after(reset, zoom_ops(peer_id, fit())) == reset
        }),
{
    let ops = zoom_ops(peer_id, fit());
    let before = after_zooms(p, peer_id, zooms);
    let reset = page_after(before, ops);
    lemma_zoom_ops_are_independent(peer_id, fit());
    lemma_all_done(before, ops);
    law_zoom_twice_is_zoom_once(before, peer_id, fit());
    assert forall|i: int| 0 <= i < 8 implies is_done(reset, #[trigger] ops[i]) by {}
    lemma_done_shows(reset, ops[0]);
    lemma_done_shows(reset, ops[1]);
    lemma_done_shows(reset, ops[2]);
    lemma_done_shows(reset, ops[3]);
    lemma_done_shows(reset, ops[4]);
    lemma_done_shows(reset, ops[5]);
    lemma_done_shows(reset, ops[6]);
    lemma_done_shows(reset, ops[7]);
    assert(percent_text(100) =~= "100%"@) by {
        reveal_strlit("100%");
        reveal_with_fuel(text::decimal, 4);
    }
}

// ---------------------------------------------------------------------------
// The window of detached content
// ---------------------------------------------------------------------------

/// How far the detaching has come after some events.
pub open spec fn detaching_after(
    request: Option<(i64, i64)>,
    peer_id: Seq<char>,
    events: Seq<PipEvent>,
) -> Detaching
    decreases events.len(),
{
    if events.len() == 0 {
        detach_start(request)
    } else {
        detach_step(
            detaching_after(request, peer_id, events.drop_last()),
            peer_id,
            events.last(),
        ).0
    }
}

/// All changes that some events bring about.
pub open spec fn detaching_changes(
    request: Option<(i64, i64)>,
    peer_id: Seq<char>,
    events: Seq<PipEvent>,
) -> Seq<OpView>
    decreases events.len(),
{
    if events.len() == 0 {
        Seq::empty()
    } else {
        detaching_changes(request, peer_id, events.drop_last()) + detach_step(
            detaching_after(request, peer_id, events.drop_last()),
            peer_id,
            events.last(),
        ).1
    }
}

/// How many reports there are among some changes.
pub open spec fn reports(ops: Seq<OpView>) -> nat
    decreases ops.len(),
{
    if ops.len() == 0 {
        0
    } else {
        reports(ops.drop_last()) + if ops.last() is ReportClosed {
            1nat
        } else {
            0nat
        }
    }
}

proof fn lemma_reports_append(a: Seq<OpView>, b: Seq<OpView>)
    ensures
        reports(a + b) == reports(a) + reports(b),
    decreases b.len(),
{
    if b.len() == 0 {
        assert(a + b =~= a);
    } else {
        lemma_reports_append(a, b.drop_last());
        assert((a + b).drop_last() =~= a + b.drop_last());
    }
}

proof fn lemma_no_reports(ops: Seq<OpView>)
    requires
        forall|i: int| 0 <= i < ops.len() ==> !(#[trigger] ops[i] is ReportClosed),
    ensures
        reports(ops) == 0,
    decreases ops.len(),
{
    if ops.len() > 0 {
        let first = ops.drop_last();
        assert forall|i: int| 0 <= i < first.len() implies !(#[trigger] first[i] is ReportClosed) by {
            assert(first[i] == ops[i]);
        }
        lemma_no_reports(first);
        assert(!(ops[ops.len() - 1] is ReportClosed));
    }
}

proof fn lemma_zoom_reports_nothing(peer_id: Seq<char>, z: ZoomView)
    ensures
        reports(zoom_ops(peer_id, z)) == 0,
{
    lemma_zoom_ops_are_independent(peer_id, z);
    lemma_no_reports(zoom_ops(peer_id, z));
}

proof fn lemma_detaching_reports_nothing(peer_id: Seq<char>, z: ZoomView)
    ensures
        reports(detaching_ops(peer_id, z)) == 0,
{
    let start = window_ops() + seq![OpView::MoveHost(TargetView::PipBody)];
    let zoom = zoom_ops(peer_id, z);
    let end = seq![OpView::SetAttribute(TargetView::Host, "data-detached"@, "true"@)]
        + detach_button_ops(peer_id, true) + seq![
        OpView::Focus(TargetView::Nearby(part_id(Part::DetachButton, peer_id))),
        slot_op(peer_id, true),
        announcement(peer_id, DETACHED_MESSAGE@),
    ];
    assert(detaching_ops(peer_id, z) =~= start + zoom + end);
    lemma_zoom_reports_nothing(peer_id, z);
    lemma_no_reports(start);
    lemma_no_reports(end);
    lemma_reports_append(start, zoom);
    lemma_reports_append(start + zoom, end);
}

proof fn lemma_returning_reports_nothing(
    peer_id: Seq<char>,
    slot_present: bool,
    host: Option<DetachedHost>,
)
    ensures
        reports(returning_ops(peer_id, slot_present, host)) == 0,
{
    let ops = returning_ops(peer_id, slot_present, host);
    if let Some(h) = host {
        if slot_present && !h.at_home {
            let start = seq![
                OpView::MoveHost(TargetView::Main(part_id(Part::GridSlot, peer_id))),
                OpView::RemoveAttribute(TargetView::Host, "data-detached"@),
            ];
            let zoom = zoom_ops(peer_id, h.zoom@);
            let end = detach_button_ops(peer_id, false) + seq![
                OpView::Focus(TargetView::Main(part_id(Part::DetachButton, peer_id))),
                slot_op(peer_id, false),
                announcement(peer_id, RETURNED_MESSAGE@),
            ];
            assert(ops =~= start + zoom + end);
            lemma_zoom_reports_nothing(peer_id, h.zoom@);
            lemma_no_reports(start);
            lemma_no_reports(end);
            lemma_reports_append(start, zoom);
            lemma_reports_append(start + zoom, end);
        } else {
            lemma_no_reports(ops);
        }
    }
}

proof fn lemma_reports_of_step(d: Detaching, peer_id: Seq<char>, e: PipEvent)
    ensures
        reports(detach_step(d, peer_id, e).1) == if d is Open && e is Closed {
            1nat
        } else {
            0nat
        },
{
    match (d, e) {
        (Detaching::Asked, PipEvent::Opened { zoom: Some(z) }) => {
            lemma_detaching_reports_nothing(peer_id, z@);
        },
        (Detaching::Asked, PipEvent::Opened { zoom: None }) => {
            lemma_no_reports(window_ops());
        },
        (Detaching::Open, PipEvent::Closed { slot_present, host }) => {
            let back = returning_ops(peer_id, slot_present, host);
            lemma_returning_reports_nothing(peer_id, slot_present, host);
            assert(closing_ops(peer_id, slot_present, host).drop_last() =~= back);
        },
        _ => {},
    }
}

/// The close of a window is reported exactly once, when the window that was opened
/// for the content has closed, and not before. Where no window was asked for, or
/// none came, nothing is ever reported.
pub proof fn law_close_is_reported_once(
    request: Option<(i64, i64)>,
    peer_id: Seq<char>,
    events: Seq<PipEvent>,
)
    ensures
        reports(detaching_changes(request, peer_id, events)) == if detaching_after(
            request,
            peer_id,
            events,
        ) is Closed {
            1nat
        } else {
            0nat
        },
        request is None ==> detaching_after(request, peer_id, events) is GivenUp
            && detaching_changes(request, peer_id, events) == Seq::<OpView>::empty(),
    decreases events.len(),
{
    if events.len() > 0 {
        let before = events.drop_last();
        law_close_is_reported_once(request, peer_id, before);
        let d = detaching_after(request, peer_id, before);
        let ops = detach_step(d, peer_id, events.last()).1;
        lemma_reports_append(detaching_changes(request, peer_id, before), ops);
        lemma_reports_of_step(d, peer_id, events.last());
        if request is None {
            assert(detaching_changes(request, peer_id, events) =~= Seq::<OpView>::empty());
        }
    }
}

proof fn lemma_place_is_kept(p: Page, ops: Seq<OpView>)
    requires
        forall|i: int|
            0 <= i < ops.len() ==> !(#[trigger] ops[i] is MoveHost) && !(ops[i] is ReportClosed),
    ensures
        page_after(p, ops).host_at == p.host_at,
        page_after(p, ops).reports == p.reports,
    decreases ops.len(),
{
    if ops.len() > 0 {
        let first = ops.drop_last();
        assert forall|i: int| 0 <= i < first.len() implies !(#[trigger] first[i] is MoveHost) && !(
        first[i] is ReportClosed) by {
            assert(first[i] == ops[i]);
        }
        lemma_place_is_kept(p, first);
        assert(!(ops[ops.len() - 1] is MoveHost));
    }
}

/// When the close of a window is reported, content that was away is in its place
/// in the grid again: the report comes last, and once.
pub proof fn law_content_returns_before_the_report(
    p: Page,
    peer_id: Seq<char>,
    host: DetachedHost,
)
    requires
        !host.at_home,
    ensures
        ({
            let ops = closing_ops(peer_id, true, Some(host));
            let back = page_after(p, ops.drop_last());
            &&& ops.last() is ReportClosed
            &&& back.host_at == Some(TargetView::Main(part_id(Part::GridSlot, peer_id)))
            &&& back.reports == p.reports
            &&& page_after(p, ops) == (Page { reports: p.reports + 1, ..back })
        }),
{
    let ops = closing_ops(peer_id, true, Some(host));
    let back = reattaching_ops(peer_id, host.zoom@);
    let slot = TargetView::Main(part_id(Part::GridSlot, peer_id));
    assert(ops.drop_last() =~= back);
    let start = seq![OpView::MoveHost(slot)];
    let unmark = seq![OpView::RemoveAttribute(TargetView::Host, "data-detached"@)];
    let zoom = zoom_ops(peer_id, host.zoom@);
    let button = detach_button_ops(peer_id, false);
    let end = seq![
        OpView::Focus(TargetView::Main(part_id(Part::DetachButton, peer_id))),
        slot_op(peer_id, false),
        announcement(peer_id, RETURNED_MESSAGE@),
    ];
    assert(back =~= start + unmark + zoom + button + end);
    lemma_page_append(p, start + unmark + zoom + button, end);
    lemma_page_append(p, start + unmark + zoom, button);
    lemma_page_append(p, start + unmark, zoom);
    lemma_page_append(p, start, unmark);
    assert(start.drop_last() =~= Seq::empty());
    assert(page_after(p, start.drop_last()) == p);
    assert(page_after(p, start) == changed(p, OpView::MoveHost(slot)));
    lemma_place_is_kept(page_after(p, start), unmark);
    lemma_zoom_keeps_the_place(page_after(p, start + unmark), peer_id, host.zoom@);
    lemma_place_is_kept(page_after(p, start + unmark + zoom), button);
    lemma_place_is_kept(page_after(p, start + unmark + zoom + button), end);
}

proof fn lemma_zoom_keeps_the_place(p: Page, peer_id: Seq<char>, z: ZoomView)
    ensures
        page_after(p, zoom_ops(peer_id, z)).host_at == p.host_at,
        page_after(p, zoom_ops(peer_id, z)).reports == p.reports,
{
    let zoom = zoom_ops(peer_id, z);
    lemma_zoom_concerns(peer_id, z);
    assert forall|i: int| 0 <= i < zoom.len() implies !(#[trigger] zoom[i] is MoveHost) && !(
    zoom[i] is ReportClosed) by {
        assert(zoom_concern(concern(zoom[i]), peer_id));
    }
    lemma_place_is_kept(p, zoom);
}

// ---------------------------------------------------------------------------
// What the page shows
// ---------------------------------------------------------------------------

/// The ids of the parts: each is made of a common start, the peer, and the name of the
/// part.
pub proof fn law_ids(
    peer_id: &str,
    host: String,
    viewport: String,
    label: String,
    slot: String,
    detach: String,
    zoom_in: String,
    zoom_out: String,
    live: String,
)
    requires
        call_ensures(pip_host_id, (peer_id,), host),
        call_ensures(viewport_id, (peer_id,), viewport),
        call_ensures(zoom_label_id, (peer_id,), label),
        call_ensures(grid_slot_id, (peer_id,), slot),
        call_ensures(detach_btn_id, (peer_id,), detach),
        call_ensures(zoom_in_btn_id, (peer_id,), zoom_in),
        call_ensures(zoom_out_btn_id, (peer_id,), zoom_out),
        call_ensures(live_region_id, (peer_id,), live),
    ensures
        host@ == "screen-share-"@ + peer_id@ + "-pip-host"@,
        viewport@ == "screen-share-"@ + peer_id@ + "-viewport"@,
        label@ == "screen-share-"@ + peer_id@ + "-zoom-label"@,
        slot@ == "screen-share-"@ + peer_id@ + "-slot"@,
        detach@ == "screen-share-"@ + peer_id@ + "-detach-btn"@,
        zoom_in@ == "screen-share-"@ + peer_id@ + "-zoom-in"@,
        zoom_out@ == "screen-share-"@ + peer_id@ + "-zoom-out"@,
        live@ == "screen-share-"@ + peer_id@ + "-live"@,
{
}

/// The element near the host whose id has a peer and a name in it.
pub open spec fn near(peer_id: Seq<char>, name: Seq<char>) -> TargetView {
    TargetView::Nearby("screen-share-"@ + peer_id + name)
}

/// The element of the main document whose id has a peer and a name in it.
pub open spec fn in_main(peer_id: Seq<char>, name: Seq<char>) -> TargetView {
    TargetView::Main("screen-share-"@ + peer_id + name)
}

/// Whether an attribute of an element has a value on a page.
pub open spec fn has_attribute(p: Page, t: TargetView, name: Seq<char>, value: Seq<char>) -> bool {
    p.attributes.dom().contains((t, name)) && p.attributes[(t, name)] == value
}

/// Whether a style property of an element was set to a value by hand.
pub open spec fn has_style(p: Page, t: TargetView, name: Seq<char>, value: Seq<char>) -> bool {
    p.styles.dom().contains((t, name)) && p.styles[(t, name)] == value
}

/// Whether a page shows the content of a peer at a zoom: the factor is noted; the
/// canvas has the size in percent when it is larger than its place, and else its own;
/// it can be panned, or lies at its start; the label shows the percentage; and the
/// buttons are disabled at the ends.
pub open spec fn shows_zoom(p: Page, peer_id: Seq<char>, z: ZoomView, percent: Seq<char>) -> bool {
    let vp = near(peer_id, "-viewport"@);
    let zoom_in = near(peer_id, "-zoom-in"@);
    let zoom_out = near(peer_id, "-zoom-out"@);
    &&& has_attribute(p, TargetView::Host, "data-zoom"@, z.factor)
    &&& !p.styles.dom().contains((TargetView::Canvas, "transform"@))
    &&& z.zoomed ==> has_style(p, TargetView::Canvas, "width"@, percent) && has_style(
        p,
        TargetView::Canvas,
        "height"@,
        percent,
    ) && has_style(p, TargetView::Canvas, "object-fit"@, "fill"@) && p.classes.contains(
        (vp, "ss-zoom-viewport--pannable"@),
    )
    &&& !z.zoomed ==> !p.styles.dom().contains((TargetView::Canvas, "width"@))
        && !p.styles.dom().contains((TargetView::Canvas, "height"@)) && !p.styles.dom().contains(
        (TargetView::Canvas, "object-fit"@),
    ) && !p.classes.contains((vp, "ss-zoom-viewport--pannable"@)) && p.at_start.contains(vp)
    &&& p.texts.dom().contains(near(peer_id, "-zoom-label"@))
    &&& p.texts[near(peer_id, "-zoom-label"@)] == percent
    &&& p.attributes.dom().contains((zoom_in, "disabled"@)) <==> z.at_max
    &&& p.attributes.dom().contains((zoom_in, "aria-disabled"@)) <==> z.at_max
    &&& z.at_max ==> has_attribute(p, zoom_in, "aria-disabled"@, "true"@)
    &&& p.attributes.dom().contains((zoom_out, "disabled"@)) <==> z.at_min
    &&& p.attributes.dom().contains((zoom_out, "aria-disabled"@)) <==> z.at_min
    &&& z.at_min ==> has_attribute(p, zoom_out, "aria-disabled"@, "true"@)
}

/// A page on which the changes of a zoom have nothing left to do shows that zoom.
proof fn lemma_zoom_is_shown(p: Page, peer_id: Seq<char>, z: ZoomView)
    requires
        forall|i: int|
            0 <= i < zoom_ops(peer_id, z).len() ==> is_done(p, #[trigger] zoom_ops(peer_id, z)[i]),
    ensures
        shows_zoom(p, peer_id, z, percent_text(z.percent)),
{
    let ops = zoom_ops(peer_id, z);
    lemma_done_shows(p, ops[0]);
    lemma_done_shows(p, ops[1]);
    lemma_done_shows(p, ops[2]);
    lemma_done_shows(p, ops[3]);
    lemma_done_shows(p, ops[4]);
    lemma_done_shows(p, ops[5]);
    lemma_done_shows(p, ops[6]);
    let n = if z.zoomed {
        6int
    } else {
        7int
    };
    assert(ops[n] == OpView::SetText(near(peer_id, "-zoom-label"@), percent_text(z.percent)));
    let a = button_ops(part_id(Part::ZoomInButton, peer_id), z.at_max);
    let b = button_ops(part_id(Part::ZoomOutButton, peer_id), z.at_min);
    assert(ops[n + 1] == a[0]);
    assert(ops[n + 2] == a[1]);
    assert(ops[n + 3] == b[0]);
    assert(ops[n + 4] == b[1]);
    lemma_done_shows(p, ops[n]);
    lemma_done_shows(p, ops[n + 1]);
    lemma_done_shows(p, ops[n + 2]);
    lemma_done_shows(p, ops[n + 3]);
    lemma_done_shows(p, ops[n + 4]);
}

/// Whatever the page was before, after the changes of a zoom it shows that zoom, with
/// the percentage in digits.
pub proof fn law_page_at_a_zoom(
    page: Page,
    peer_id: &str,
    z: &ZoomLevel,
    percent: String,
    ops: Vec<DomOp>,
)
    requires
        call_ensures(apply_zoom, (peer_id, z), ops),
        call_ensures(percent_label, (z.percent,), percent),
    ensures
        shows_zoom(page_after(page, ops_view(ops@)), peer_id@, z@, percent@),
        percent@.len() > 1 && percent@.last() == '%' && text::all_digits(percent@.drop_last())
            && text::number_in(percent@.drop_last()) == z.percent,
{
    lemma_zoom_ops_are_independent(peer_id@, z@);
    lemma_all_done(page, zoom_ops(peer_id@, z@));
    lemma_zoom_is_shown(page_after(page, zoom_ops(peer_id@, z@)), peer_id@, z@);
    text::law_decimal(z.percent as nat);
    assert(percent@.drop_last() =~= text::decimal(z.percent as nat));
}

/// To zoom in shows the larger of the two levels, to zoom out the smaller, and to reset
/// the one at which content fits: a factor of one, the smallest. Content that is not on
/// the page is not changed.
pub proof fn law_zoom_controls(
    peer_id: &str,
    c: ZoomChoices,
    fits: ZoomLevel,
    larger: Vec<DomOp>,
    smaller: Vec<DomOp>,
    fitted: Vec<DomOp>,
    zoomed_in: Vec<DomOp>,
    zoomed_out: Vec<DomOp>,
    reset: Vec<DomOp>,
)
    requires
        fits@ == (ZoomView {
            factor: "1"@,
            percent: 100,
            zoomed: false,
            at_max: false,
            at_min: true,
        }),
        call_ensures(apply_zoom, (peer_id, &c.larger), larger),
        call_ensures(apply_zoom, (peer_id, &c.smaller), smaller),
        call_ensures(apply_zoom, (peer_id, &fits), fitted),
        call_ensures(handle_zoom_in, (peer_id, &Some(c)), zoomed_in),
        call_ensures(handle_zoom_out, (peer_id, &Some(c)), zoomed_out),
        call_ensures(handle_reset, (peer_id, true), reset),
    ensures
        ops_view(zoomed_in@) == ops_view(larger@),
        ops_view(zoomed_out@) == ops_view(smaller@),
        ops_view(reset@) == ops_view(fitted@),
{
}

/// Controls do nothing to content that is not on the page.
pub proof fn law_no_content_no_changes(
    peer_id: &str,
    zoomed_in: Vec<DomOp>,
    zoomed_out: Vec<DomOp>,
    reset: Vec<DomOp>,
)
    requires
        call_ensures(handle_zoom_in, (peer_id, &None::<ZoomChoices>), zoomed_in),
        call_ensures(handle_zoom_out, (peer_id, &None::<ZoomChoices>), zoomed_out),
        call_ensures(handle_reset, (peer_id, false), reset),
    ensures
        zoomed_in@.len() == 0,
        zoomed_out@.len() == 0,
        reset@.len() == 0,
{
    assert(ops_view(zoomed_in@).len() == zoomed_in@.len());
    assert(ops_view(zoomed_out@).len() == zoomed_out@.len());
    assert(ops_view(reset@).len() == reset@.len());
}

proof fn lemma_attribute_names()
    ensures
        "data-zoom"@.len() == 9,
        "data-detached"@.len() == 13,
        "aria-pressed"@.len() == 12,
        "aria-label"@.len() == 10,
        "title"@.len() == 5,
        "disabled"@.len() == 8,
        "aria-disabled"@.len() == 13,
        "data-detached"@[0] == 'd',
        "aria-disabled"@[0] == 'a',
{
    reveal_strlit("data-zoom");
    reveal_strlit("data-detached");
    reveal_strlit("aria-pressed");
    reveal_strlit("aria-label");
    reveal_strlit("title");
    reveal_strlit("disabled");
    reveal_strlit("aria-disabled");
}

/// What a change of a zoom is about: the factor, the canvas, the box in which it lies,
/// the label, and the two buttons of a peer.
pub open spec fn zoom_concern(c: Concern, peer_id: Seq<char>) -> bool {
    ||| c == Concern::Attribute(TargetView::Host, "data-zoom"@)
    ||| c matches Concern::Style(t, _) && t is Canvas
    ||| c matches Concern::Class(t, _) && t == TargetView::Nearby(part_id(Part::Viewport, peer_id))
    ||| c matches Concern::Scroll(t) && t == TargetView::Nearby(part_id(Part::Viewport, peer_id))
    ||| c == Concern::Text(TargetView::Nearby(part_id(Part::ZoomLabel, peer_id)))
    ||| c matches Concern::Attribute(t, _) && (t == TargetView::Nearby(
        part_id(Part::ZoomInButton, peer_id),
    ) || t == TargetView::Nearby(part_id(Part::ZoomOutButton, peer_id)))
}

proof fn lemma_zoom_concerns(peer_id: Seq<char>, z: ZoomView)
    ensures
        forall|i: int|
            0 <= i < zoom_ops(peer_id, z).len() ==> zoom_concern(
                concern(#[trigger] zoom_ops(peer_id, z)[i]),
                peer_id,
            ),
{
}

/// A zoom changes nothing but what it is about.
pub proof fn law_zoom_changes_nothing_else(peer_id: &str, z: &ZoomLevel, ops: Vec<DomOp>, i: int)
    requires
        call_ensures(apply_zoom, (peer_id, z), ops),
        0 <= i < ops@.len(),
    ensures
        zoom_concern(concern(ops@[i]@), peer_id@),
{
    lemma_zoom_concerns(peer_id@, z@);
    assert(ops_view(ops@)[i] == ops@[i]@);
}

/// Changes before a zoom and after it that are about other things, and about different
/// ones, are independent with it.
proof fn lemma_around_a_zoom(
    peer_id: Seq<char>,
    z: ZoomView,
    before: Seq<OpView>,
    after: Seq<OpView>,
)
    requires
        independent(before + after),
        forall|i: int|
            0 <= i < before.len() ==> !zoom_concern(concern(#[trigger] before[i]), peer_id),
        forall|i: int|
            0 <= i < after.len() ==> !zoom_concern(concern(#[trigger] after[i]), peer_id),
    ensures
        independent(before + zoom_ops(peer_id, z) + after),
{
    let zoom = zoom_ops(peer_id, z);
    let both = before + after;
    let all = before + zoom + after;
    lemma_zoom_ops_are_independent(peer_id, z);
    lemma_zoom_concerns(peer_id, z);
    let a = before.len() as int;
    let b = a + zoom.len();
    assert forall|i: int| 0 <= i < all.len() implies !(#[trigger] all[i] is ReportClosed) by {
        if i < a {
            assert(all[i] == both[i]);
        } else if i < b {
            assert(all[i] == zoom[i - a]);
        } else {
            assert(all[i] == both[i - zoom.len()]);
        }
    }
    assert forall|i: int, j: int| 0 <= i < j < all.len() implies concern(#[trigger] all[i])
        != concern(#[trigger] all[j]) by {
        if i < a {
            assert(all[i] == both[i] && all[i] == before[i]);
        } else if i < b {
            assert(all[i] == zoom[i - a]);
        } else {
            assert(all[i] == both[i - zoom.len()] && all[i] == after[i - b]);
        }
        if j < a {
            assert(all[j] == both[j] && all[j] == before[j]);
        } else if j < b {
            assert(all[j] == zoom[j - a]);
        } else {
            assert(all[j] == both[j - zoom.len()] && all[j] == after[j - b]);
        }
    }
}

/// Whether the button to detach says that content is detached, or that it is not.
pub open spec fn button_says(p: Page, peer_id: Seq<char>, detached: bool) -> bool {
    let btn = near(peer_id, "-detach-btn"@);
    let label = if detached {
        "Return shared content to the grid"@
    } else {
        "Open shared content in a separate window"@
    };
    &&& has_attribute(p, btn, "aria-pressed"@, if detached {
        "true"@
    } else {
        "false"@
    })
    &&& has_attribute(p, btn, "aria-label"@, label)
    &&& has_attribute(p, btn, "title"@, label)
}

/// Once its window was opened, content is in it, at its zoom: the window has the styles
/// of the page; content and place are marked as detached; the button says so and has
/// the focus; and it is announced.
pub proof fn law_page_of_detached_content(
    page: Page,
    peer_id: &str,
    z: ZoomLevel,
    ops: Vec<DomOp>,
)
    requires
        call_ensures(detach_to_pip, (peer_id, &Some(z)), ops),
    ensures
        ({
            let after = page_after(page, ops_view(ops@));
            &&& after.host_at == Some(TargetView::PipBody)
            &&& after.styles_copied
            &&& after.classes.contains((TargetView::PipBody, "ss-pip-body"@))
            &&& shows_zoom(after, peer_id@, z@, percent_text(z.percent))
            &&& has_attribute(after, TargetView::Host, "data-detached"@, "true"@)
            &&& has_attribute(after, in_main(peer_id@, "-slot"@), "data-detached"@, "true"@)
            &&& button_says(after, peer_id@, true)
            &&& after.focus == Some(near(peer_id@, "-detach-btn"@))
            &&& after.texts.dom().contains(in_main(peer_id@, "-live"@))
            &&& after.texts[in_main(peer_id@, "-live"@)]
                == "Shared content opened in a separate window"@
            &&& after.reports == page.reports
        }),
{
    lemma_attribute_names();
    lemma_ids_differ(peer_id@);
    let before = window_ops() + seq![OpView::MoveHost(TargetView::PipBody)];
    let zoom = zoom_ops(peer_id@, z@);
    let rest = seq![OpView::SetAttribute(TargetView::Host, "data-detached"@, "true"@)]
        + detach_button_ops(peer_id@, true) + seq![
        OpView::Focus(TargetView::Nearby(part_id(Part::DetachButton, peer_id@))),
        slot_op(peer_id@, true),
        announcement(peer_id@, DETACHED_MESSAGE@),
    ];
    let all = before + zoom + rest;
    assert(ops_view(ops@) =~= all);
    lemma_around_a_zoom(peer_id@, z@, before, rest);
    lemma_all_done(page, all);
    let after = page_after(page, all);
    lemma_done_parts(after, before, zoom, rest);
    lemma_zoom_is_shown(after, peer_id@, z@);
    lemma_done_shows(after, before[0]);
    lemma_done_shows(after, before[1]);
    lemma_done_shows(after, before[2]);
    lemma_done_shows(after, rest[0]);
    lemma_done_shows(after, rest[1]);
    lemma_done_shows(after, rest[2]);
    lemma_done_shows(after, rest[3]);
    lemma_done_shows(after, rest[4]);
    lemma_done_shows(after, rest[5]);
    lemma_done_shows(after, rest[6]);
    lemma_reports_kept(page, all);
}

proof fn lemma_reports_kept(p: Page, ops: Seq<OpView>)
    requires
        independent(ops),
    ensures
        page_after(p, ops).reports == p.reports,
    decreases ops.len(),
{
    if ops.len() > 0 {
        let first = ops.drop_last();
        assert(independent(first)) by {
            assert forall|i: int| 0 <= i < first.len() implies !(
            #[trigger] first[i] is ReportClosed) by {
                assert(first[i] == ops[i]);
            }
            assert forall|i: int, j: int| 0 <= i < j < first.len() implies concern(
                #[trigger] first[i],
            ) != concern(#[trigger] first[j]) by {
                assert(first[i] == ops[i] && first[j] == ops[j]);
            }
        }
        lemma_reports_kept(p, first);
        assert(!(ops[ops.len() - 1] is ReportClosed));
    }
}

proof fn lemma_done_parts(p: Page, a: Seq<OpView>, b: Seq<OpView>, c: Seq<OpView>)
    requires
        forall|i: int| 0 <= i < (a + b + c).len() ==> is_done(p, #[trigger] (a + b + c)[i]),
    ensures
        forall|i: int| 0 <= i < a.len() ==> is_done(p, #[trigger] a[i]),
        forall|i: int| 0 <= i < b.len() ==> is_done(p, #[trigger] b[i]),
        forall|i: int| 0 <= i < c.len() ==> is_done(p, #[trigger] c[i]),
{
    let all = a + b + c;
    assert forall|i: int| 0 <= i < a.len() implies is_done(p, #[trigger] a[i]) by {
        assert(all[i] == a[i]);
    }
    assert forall|i: int| 0 <= i < b.len() implies is_done(p, #[trigger] b[i]) by {
        assert(all[a.len() + i] == b[i]);
    }
    assert forall|i: int| 0 <= i < c.len() implies is_done(p, #[trigger] c[i]) by {
        assert(all[a.len() + b.len() + i] == c[i]);
    }
}

proof fn lemma_ids_differ(peer_id: Seq<char>)
    ensures
        part_id(Part::DetachButton, peer_id) != part_id(Part::ZoomInButton, peer_id),
        part_id(Part::DetachButton, peer_id) != part_id(Part::ZoomOutButton, peer_id),
        part_id(Part::GridSlot, peer_id) != part_id(Part::LiveRegion, peer_id),
{
    if part_id(Part::DetachButton, peer_id) == part_id(Part::ZoomInButton, peer_id) {
        law_ids_are_unique(Part::DetachButton, peer_id, Part::ZoomInButton, peer_id);
    }
    if part_id(Part::DetachButton, peer_id) == part_id(Part::ZoomOutButton, peer_id) {
        law_ids_are_unique(Part::DetachButton, peer_id, Part::ZoomOutButton, peer_id);
    }
    if part_id(Part::GridSlot, peer_id) == part_id(Part::LiveRegion, peer_id) {
        law_ids_are_unique(Part::GridSlot, peer_id, Part::LiveRegion, peer_id);
    }
}

/// Content whose window closes is in its place in the grid again, at its zoom, as long
/// as that place is on the page: nothing is marked as detached; the button offers to
/// detach and has the focus; and it is announced. Content that was in its place stays
/// there; without content or place nothing happens.
pub proof fn law_page_of_returned_content(
    page: Page,
    peer_id: &str,
    slot_present: bool,
    h: DetachedHost,
    ops: Vec<DomOp>,
    none: Vec<DomOp>,
)
    requires
        call_ensures(reattach_from_pip, (peer_id, slot_present, &Some(h)), ops),
        call_ensures(reattach_from_pip, (peer_id, slot_present, &None::<DetachedHost>), none),
    ensures
        none@.len() == 0,
        !slot_present ==> ops@.len() == 0,
        slot_present ==> {
            let after = page_after(page, ops_view(ops@));
            &&& !after.attributes.dom().contains((TargetView::Host, "data-detached"@))
            &&& !after.attributes.dom().contains(
                (in_main(peer_id@, "-slot"@), "data-detached"@),
            )
            &&& button_says(after, peer_id@, false)
            &&& after.reports == page.reports
            &&& h.at_home ==> after.host_at == page.host_at && after.focus == page.focus
                && after.texts == page.texts
            &&& !h.at_home ==> {
                &&& after.host_at == Some(in_main(peer_id@, "-slot"@))
                &&& shows_zoom(after, peer_id@, h.zoom@, percent_text(h.zoom.percent))
                &&& after.focus == Some(in_main(peer_id@, "-detach-btn"@))
                &&& after.texts.dom().contains(in_main(peer_id@, "-live"@))
                &&& after.texts[in_main(peer_id@, "-live"@)]
                    == "Shared content returned to the grid"@
            }
        },
{
    assert(ops_view(none@).len() == none@.len());
    assert(ops_view(ops@).len() == ops@.len());
    lemma_attribute_names();
    lemma_ids_differ(peer_id@);
    if slot_present && h.at_home {
        let all = settling_ops(peer_id@);
        assert(independent(all));
        lemma_all_done(page, all);
        lemma_reports_kept(page, all);
        let after = page_after(page, all);
        assert forall|i: int| 0 <= i < 5 implies is_done(after, #[trigger] all[i]) by {}
        lemma_done_shows(after, all[0]);
        lemma_done_shows(after, all[1]);
        lemma_done_shows(after, all[2]);
        lemma_done_shows(after, all[3]);
        lemma_done_shows(after, all[4]);
        lemma_attributes_only(page, all);
    } else if slot_present {
        let before = seq![
            OpView::MoveHost(TargetView::Main(part_id(Part::GridSlot, peer_id@))),
            OpView::RemoveAttribute(TargetView::Host, "data-detached"@),
        ];
        let zoom = zoom_ops(peer_id@, h.zoom@);
        let rest = detach_button_ops(peer_id@, false) + seq![
            OpView::Focus(TargetView::Main(part_id(Part::DetachButton, peer_id@))),
            slot_op(peer_id@, false),
            announcement(peer_id@, RETURNED_MESSAGE@),
        ];
        let all = before + zoom + rest;
        assert(ops_view(ops@) =~= all);
        lemma_around_a_zoom(peer_id@, h.zoom@, before, rest);
        lemma_all_done(page, all);
        lemma_reports_kept(page, all);
        let after = page_after(page, all);
        lemma_done_parts(after, before, zoom, rest);
        lemma_zoom_is_shown(after, peer_id@, h.zoom@);
        lemma_done_shows(after, before[0]);
        lemma_done_shows(after, before[1]);
        lemma_done_shows(after, rest[0]);
        lemma_done_shows(after, rest[1]);
        lemma_done_shows(after, rest[2]);
        lemma_done_shows(after, rest[3]);
        lemma_done_shows(after, rest[4]);
        lemma_done_shows(after, rest[5]);
    }
}

proof fn lemma_attributes_only(p: Page, ops: Seq<OpView>)
    requires
        forall|i: int|
            0 <= i < ops.len() ==> #[trigger] ops[i] is SetAttribute || ops[i] is RemoveAttribute,
    ensures
        page_after(p, ops) == (Page { attributes: page_after(p, ops).attributes, ..p }),
    decreases ops.len(),
{
    if ops.len() > 0 {
        let first = ops.drop_last();
        assert forall|i: int| 0 <= i < first.len() implies #[trigger] first[i] is SetAttribute
            || first[i] is RemoveAttribute by {
            assert(first[i] == ops[i]);
        }
        lemma_attributes_only(p, first);
        assert(ops[ops.len() - 1] is SetAttribute || ops[ops.len() - 1] is RemoveAttribute);
    }
}

/// A window that was opened for content that has left the page gets the styles, and
/// nothing moves.
pub proof fn law_window_without_content(page: Page, peer_id: &str, ops: Vec<DomOp>)
    requires
        call_ensures(detach_to_pip, (peer_id, &None::<ZoomLevel>), ops),
    ensures
        ({
            let after = page_after(page, ops_view(ops@));
            &&& after.host_at == page.host_at
            &&& after.attributes == page.attributes
            &&& after.texts == page.texts
            &&& after.focus == page.focus
        }),
{
    let w = window_ops();
    let first = w.drop_last();
    assert(first.drop_last() =~= Seq::empty());
    assert(page_after(page, first.drop_last()) == page);
    assert(page_after(page, first) == changed(page, w[0]));
    assert(page_after(page, w) == changed(page_after(page, first), w[1]));
}

/// When its window has closed, content returns first, and then the close is reported,
/// once, whether there was anything to return or not.
pub proof fn law_close_is_reported_last(
    peer_id: &str,
    slot_present: bool,
    host: Option<DetachedHost>,
    back: Vec<DomOp>,
    ops: Vec<DomOp>,
)
    requires
        call_ensures(reattach_from_pip, (peer_id, slot_present, &host), back),
        call_ensures(pip_closed, (peer_id, slot_present, &host), ops),
    ensures
        ops_view(ops@) == ops_view(back@).push(OpView::ReportClosed),
{
}

/// A window is as large as its content, but at least 320 by 240 and at most 2560 by
/// 1600. One is asked for exactly when content is on the page and the browser has such
/// windows.
pub proof fn law_size_of_the_window(
    width: i64,
    height: i64,
    supported: bool,
    size: (i64, i64),
    res: Option<(i64, i64)>,
    none: Option<(i64, i64)>,
)
    requires
        call_ensures(pip_window_size, (width, height), size),
        call_ensures(detach_request, (supported, Some((width, height))), res),
        call_ensures(detach_request, (supported, None::<(i64, i64)>), none),
    ensures
        320 <= size.0 <= 2560 && 240 <= size.1 <= 1600,
        320 <= width <= 2560 ==> size.0 == width,
        width < 320 ==> size.0 == 320,
        width > 2560 ==> size.0 == 2560,
        240 <= height <= 1600 ==> size.1 == height,
        height < 240 ==> size.1 == 240,
        height > 1600 ==> size.1 == 1600,
        supported ==> res == Some(size),
        !supported ==> res is None,
        none is None,
{
}

/// Detaching starts with a window that is asked for; it is given up when none comes, or
/// the content is gone when it comes; and it ends when the window closes. What happens
/// at another time changes nothing.
pub proof fn law_detaching(
    d: Detaching,
    peer_id: &str,
    event: &PipEvent,
    request: Option<(i64, i64)>,
    start: Detaching,
    res: (Detaching, Vec<DomOp>),
)
    requires
        call_ensures(Detaching::start, (&request,), start),
        call_ensures(Detaching::step, (d, peer_id, event), res),
    ensures
        start is Asked <==> request is Some,
        start is GivenUp <==> request is None,
        d is Asked && *event is Refused ==> res.0 is GivenUp && res.1@.len() == 0,
        d is Asked ==> (*event matches PipEvent::Opened { zoom } ==> (res.0 is Open
            <==> zoom is Some) && (res.0 is GivenUp <==> zoom is None)),
        d is Asked && *event is Closed ==> res.0 is Asked && res.1@.len() == 0,
        d is Open && *event is Closed ==> res.0 is Closed,
        d is Open && !(*event is Closed) ==> res.0 is Open && res.1@.len() == 0,
        d is Closed || d is GivenUp ==> res.0 == d && res.1@.len() == 0,
{
    assert(ops_view(res.1@).len() == res.1@.len());
}

/// What is done when a window opens or closes is what the detaching and the return do.
pub proof fn law_detaching_changes_the_page(
    peer_id: &str,
    zoom: Option<ZoomLevel>,
    slot_present: bool,
    host: Option<DetachedHost>,
    away: Vec<DomOp>,
    closed: Vec<DomOp>,
    opening: (Detaching, Vec<DomOp>),
    closing: (Detaching, Vec<DomOp>),
)
    requires
        call_ensures(detach_to_pip, (peer_id, &zoom), away),
        call_ensures(pip_closed, (peer_id, slot_present, &host), closed),
        call_ensures(
            Detaching::step,
            (Detaching::Asked, peer_id, &PipEvent::Opened { zoom }),
            opening,
        ),
        call_ensures(
            Detaching::step,
            (Detaching::Open, peer_id, &PipEvent::Closed { slot_present, host }),
            closing,
        ),
    ensures
        ops_view(opening.1@) == ops_view(away@),
        ops_view(closing.1@) == ops_view(closed@),
{
}

/// An open window is closed, and nothing else happens; without one, nothing does. A
/// window is a peer's exactly when it holds what has the id of that peer's content.
pub proof fn law_open_windows(
    peer_id: &str,
    pip_open: bool,
    ids: Vec<String>,
    id: String,
    ops: Vec<DomOp>,
    held: bool,
    none: bool,
)
    requires
        call_ensures(close_pip_if_open, (pip_open,), ops),
        call_ensures(pip_host_id, (peer_id,), id),
        call_ensures(is_pip_open_for, (peer_id, &Some(ids)), held),
        call_ensures(is_pip_open_for, (peer_id, &None::<Vec<String>>), none),
    ensures
        pip_open ==> ops@.len() == 1 && ops@[0]@ is ClosePip,
        !pip_open ==> ops@.len() == 0,
        held <==> exists|i: int| 0 <= i < ids@.len() && (#[trigger] ids@[i])@ == id@,
        !none,
{
    assert(ops_view(ops@).len() == ops@.len());
    if pip_open {
        assert(ops_view(ops@)[0] == ops@[0]@);
    }
    let all = text::strings(ids@);
    if held {
        let i = choose|i: int| 0 <= i < all.len() && all[i] == id@;
        assert(ids@[i]@ == id@);
    }
    if exists|i: int| 0 <= i < ids@.len() && (#[trigger] ids@[i])@ == id@ {
        let i = choose|i: int| 0 <= i < ids@.len() && (#[trigger] ids@[i])@ == id@;
        assert(all[i] == id@);
    }
}

// ---------------------------------------------------------------------------
// Moving the content
// ---------------------------------------------------------------------------

/// Whether a number is one that can be counted in pixels.
pub open spec fn countable(n: int) -> bool {
    -2_147_483_648 <= n <= 2_147_483_647
}

/// A key that stands for a distance moves the content by that distance, right and down,
/// as far as can be counted; the keys for the ends lead to the start, and to where the
/// far end of the content is in sight. Other keys, and all keys where the content fits,
/// are left to the page.
pub proof fn law_keys_move_the_content(
    key: &str,
    v: Viewport,
    delta: Option<(i32, i32)>,
    res: Option<ScrollTo>,
)
    requires
        call_ensures(pan_with_key, (key, v, delta), res),
    ensures
        v.scroll_width <= v.client_width && v.scroll_height <= v.client_height ==> res is None,
        v.scroll_width > v.client_width || v.scroll_height > v.client_height ==> {
            &&& key@ == "Home"@ ==> res == Some(ScrollTo { left: 0, top: 0 })
            &&& key@ == "End"@ ==> {
                &&& res is Some
                &&& v.scroll_width <= v.client_width ==> res->0.left == 0
                &&& v.scroll_width > v.client_width && countable(v.scroll_width - v.client_width)
                    ==> res->0.left + v.client_width == v.scroll_width
                &&& v.scroll_height <= v.client_height ==> res->0.top == 0
                &&& v.scroll_height > v.client_height && countable(
                    v.scroll_height - v.client_height,
                ) ==> res->0.top + v.client_height == v.scroll_height
            }
            &&& key@ != "Home"@ && key@ != "End"@ && delta is None ==> res is None
            &&& key@ != "Home"@ && key@ != "End"@ && delta is Some ==> {
                let (dx, dy) = delta->0;
                &&& res is Some
                &&& countable(v.scroll_left + dx) ==> res->0.left - v.scroll_left == dx
                &&& countable(v.scroll_top + dy) ==> res->0.top - v.scroll_top == dy
                &&& v.scroll_left + dx > 2_147_483_647 ==> res->0.left == 2_147_483_647
                &&& v.scroll_left + dx < -2_147_483_648 ==> res->0.left == -2_147_483_648
                &&& v.scroll_top + dy > 2_147_483_647 ==> res->0.top == 2_147_483_647
                &&& v.scroll_top + dy < -2_147_483_648 ==> res->0.top == -2_147_483_648
            }
        },
{
    reveal_strlit("Home");
    reveal_strlit("End");
    assert("Home"@.len() != "End"@.len());
}

/// A drag starts where the pointer went down, if there is anything to pan to.
pub proof fn law_drag_starts(s: &mut PanState, v: Viewport, x: i32, y: i32, started: bool)
    requires
        call_ensures(PanState::pointer_down, (s, v, x, y), started),
    ensures
        started <==> v.scroll_width > v.client_width || v.scroll_height > v.client_height,
        started ==> final(s).active && final(s).last_x == x && final(s).last_y == y,
        !started ==> *final(s) == *old(s),
{
}

/// During a drag the content goes with the pointer: what was under it stays under it,
/// as far as can be counted. The next move counts from here. Without a drag a move does
/// nothing, and a pointer that goes up ends it.
pub proof fn law_content_follows_the_pointer(
    s: &mut PanState,
    t: &mut PanState,
    v: Viewport,
    x: i32,
    y: i32,
    res: Option<ScrollTo>,
)
    requires
        call_ensures(PanState::pointer_move, (s, v, x, y), res),
        call_ensures(PanState::pointer_up, (t,), ()),
    ensures
        res is Some <==> old(s).active,
        !old(s).active ==> *final(s) == *old(s),
        old(s).active ==> {
            &&& final(s).active && final(s).last_x == x && final(s).last_y == y
            &&& countable(x - old(s).last_x) && countable(v.scroll_left - (x - old(s).last_x))
                ==> res->0.left + x == v.scroll_left + old(s).last_x
            &&& countable(y - old(s).last_y) && countable(v.scroll_top - (y - old(s).last_y))
                ==> res->0.top + y == v.scroll_top + old(s).last_y
        },
        !final(t).active,
{
}

/// At first no drag is under way.
pub proof fn law_no_drag_at_first(res: PanState)
    requires
        call_ensures(PanState::new, (), res),
    ensures
        !res.active,
{
}

/// The level at which content fits has a factor of one, and is the smallest.
pub proof fn law_level_that_fits(res: ZoomLevel)
    requires
        call_ensures(fit_level, (), res),
    ensures
        res.factor@ == "1"@,
        res.percent == 100,
        !res.zoomed && !res.at_max && res.at_min,
{
    assert(res@.factor == res.factor@);
}

/// Whatever it was before, a button is disabled or enabled as asked; the button to
/// detach and the place in the grid say what they are told; and an announcement is made
/// in the main document.
pub proof fn law_single_changes(
    page: Page,
    peer_id: &str,
    id: String,
    on: bool,
    message: &str,
    disabling: Vec<DomOp>,
    labelling: Vec<DomOp>,
    marking: DomOp,
    announcing: DomOp,
)
    requires
        call_ensures(set_btn_disabled, (id, on), disabling),
        call_ensures(set_detach_btn_state, (peer_id, on), labelling),
        call_ensures(set_slot_detached, (peer_id, on), marking),
        call_ensures(announce, (peer_id, message), announcing),
    ensures
        is_disabled(page_after(page, ops_view(disabling@)), id@) <==> on,
        button_says(page_after(page, ops_view(labelling@)), peer_id@, on),
        changed(page, marking@).attributes.dom().contains(
            (in_main(peer_id@, "-slot"@), "data-detached"@),
        ) <==> on,
        announcing@ == OpView::SetText(in_main(peer_id@, "-live"@), message@),
{
    lemma_button(page, id@, on);
    lemma_attribute_names();
    let all = detach_button_ops(peer_id@, on);
    assert(independent(all));
    lemma_all_done(page, all);
    let after = page_after(page, all);
    assert forall|i: int| 0 <= i < 3 implies is_done(after, #[trigger] all[i]) by {}
    lemma_done_shows(after, all[0]);
    lemma_done_shows(after, all[1]);
    lemma_done_shows(after, all[2]);
}

} // verus!
