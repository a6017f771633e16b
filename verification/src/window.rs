//! Windows: decorations and the events that belong to them.
//!
//! A window draws its own title bar, borders and buttons, and keeps events that move or
//! resize it or press its buttons. All other events go to the application.

use std::collections::VecDeque;
use vstd::prelude::*;
use vstd::string::StrSliceExecFns;

verus! {

/// A colour.
#[derive(Clone, Copy, Debug, PartialEq, Eq, Structural)]
pub struct Color(pub u32);

/// Title bar of an active window.
pub const TN_BG: u32 = 0x001A1B26;

/// Title bar of another window.
pub const TN_BG_DARK: u32 = 0x00121212;

/// Border of an active window.
pub const TN_BORDER: u32 = 0x007AA2F7;

/// Border of another window.
pub const TN_BORDER_DIM: u32 = 0x00292E42;

/// Title of an active window.
pub const TN_TEXT: u32 = 0x00C0CAF5;

/// Title of another window.
pub const TN_TEXT_DIM: u32 = 0x00565F89;

/// Top line of an active window.
pub const TN_HIGHLIGHT: u32 = 0x002F334D;

/// Button that closes.
pub const BTN_CLOSE: u32 = 0x00F7768E;

/// Button that maximizes.
pub const BTN_MAXIMIZE: u32 = 0x009ECE6A;

/// Button that minimizes.
pub const BTN_MINIMIZE: u32 = 0x00E0AF68;

/// Button below the mouse, but for the one that closes.
pub const BTN_HOVER_DIM: u32 = 0x00414868;

/// Button that is pressed.
pub const BTN_INACTIVE: u32 = 0x0024283B;

/// Radius of the corners.
pub const WINDOW_RADIUS: usize = 8;

/// Diameter of a button.
pub const BTN_SIZE: usize = 12;

/// Gap between two buttons.
pub const BTN_GAP: usize = 8;

/// Gap between the buttons and the right edge.
pub const BTN_MARGIN_RIGHT: usize = 12;

/// Width of the edge by which a window is resized.
pub const RESIZE_MARGIN: usize = 6;

/// Least width of a window that has room for its buttons.
pub const BUTTONS_WIDTH: usize = 58;

/// Width of the part of the title bar that the buttons take.
pub const BUTTON_ZONE_WIDTH: usize = 68;

/// Start of the title.
pub const TITLE_START: usize = 12;

/// A position.
#[derive(Clone, Copy, Debug, PartialEq, Eq, Structural)]
pub struct Coord {
    pub x: isize,
    pub y: isize,
}

/// A rectangle.
#[derive(Clone, Copy, Debug, PartialEq, Eq, Structural)]
pub struct Rectangle {
    pub top_left: Coord,
    pub bottom_right: Coord,
}

/// A button of a window.
#[derive(Clone, Copy, Debug, PartialEq, Eq, Structural)]
pub enum Button {
    /// Closes the window.
    Close,
    /// Hides the window.
    Minimize,
    /// Maximizes or restores the window.
    Maximize,
}

/// How a button is drawn.
#[derive(Clone, Copy, Debug, PartialEq, Eq, Structural)]
pub enum BtnState {
    Idle,
    Hover,
    Pressed,
}

/// Place of a button, counted from the right.
pub open spec fn button_place(b: Button) -> int {
    match b {
        Button::Close => 0,
        Button::Minimize => 1,
        Button::Maximize => 2,
    }
}

/// Centre of a button in a window of a width.
pub open spec fn button_center(b: Button, width: int) -> int {
    width - BTN_MARGIN_RIGHT - button_place(b) * 20 - 6
}

/// Colour of a button.
pub open spec fn button_color(b: Button, s: BtnState) -> u32 {
    match s {
        BtnState::Idle => match b {
            Button::Close => BTN_CLOSE,
            Button::Maximize => BTN_MAXIMIZE,
            Button::Minimize => BTN_MINIMIZE,
        },
        BtnState::Hover => if b == Button::Close {
            BTN_CLOSE
        } else {
            BTN_HOVER_DIM
        },
        BtnState::Pressed => BTN_INACTIVE,
    }
}

impl Button {
    /// Centre of the button in a window of a width.
    pub fn x_center(self, window_width: usize) -> (r: isize)
        requires
            BUTTONS_WIDTH <= window_width <= isize::MAX,
        ensures
            r == button_center(self, window_width as int),
    {
        let idx: usize = match self {
            Button::Close => 0,
            Button::Minimize => 1,
            Button::Maximize => 2,
        };
        let right_edge: usize = window_width - BTN_MARGIN_RIGHT;
        (right_edge - idx * (BTN_SIZE + BTN_GAP) - BTN_SIZE / 2) as isize
    }

    /// Colour of the button at rest.
    pub fn base_color(self) -> (c: Color)
        ensures
            c.0 == button_color(self, BtnState::Idle),
    {
        match self {
            Button::Close => Color(BTN_CLOSE),
            Button::Maximize => Color(BTN_MAXIMIZE),
            Button::Minimize => Color(BTN_MINIMIZE),
        }
    }
}

/// The position is within the button: at most two pixels outside of its circle.
pub open spec fn hits(b: Button, x: int, width: int) -> bool {
    button_center(b, width) - 8 <= x <= button_center(b, width) + 8
}

/// The button at a position of the title bar.
pub open spec fn button_at(x: int, width: int) -> Option<Button> {
    if hits(Button::Close, x, width) {
        Some(Button::Close)
    } else if hits(Button::Minimize, x, width) {
        Some(Button::Minimize)
    } else if hits(Button::Maximize, x, width) {
        Some(Button::Maximize)
    } else {
        None
    }
}

/// Whether a position is within a button.
fn is_hit(b: Button, x: isize, window_width: usize) -> (r: bool)
    requires
        BUTTONS_WIDTH <= window_width,
        window_width + 8 <= isize::MAX,
    ensures
        r == hits(b, x as int, window_width as int),
{
    let cx: isize = b.x_center(window_width);
    cx - 8 <= x && x <= cx + 8
}

/// The button at a position of the title bar.
pub fn button_hit(x: isize, window_width: usize) -> (r: Option<Button>)
    requires
        BUTTONS_WIDTH <= window_width,
        window_width + 8 <= isize::MAX,
    ensures
        r == button_at(x as int, window_width as int),
{
    if is_hit(Button::Close, x, window_width) {
        Some(Button::Close)
    } else if is_hit(Button::Minimize, x, window_width) {
        Some(Button::Minimize)
    } else if is_hit(Button::Maximize, x, window_width) {
        Some(Button::Maximize)
    } else {
        None
    }
}

/// Edge by which a window is resized.
#[derive(Clone, Copy, Debug, PartialEq, Eq, Structural)]
pub enum ResizeEdge {
    Top,
    Bottom,
    Left,
    Right,
    TopLeft,
    TopRight,
    BottomLeft,
    BottomRight,
}

/// The edge for the borders that a position is on. Corners come before sides.
pub open spec fn edge_of(top: bool, bottom: bool, left: bool, right: bool) -> ResizeEdge {
    if top && left {
        ResizeEdge::TopLeft
    } else if top && right {
        ResizeEdge::TopRight
    } else if bottom && left {
        ResizeEdge::BottomLeft
    } else if bottom && right {
        ResizeEdge::BottomRight
    } else if top {
        ResizeEdge::Top
    } else if bottom {
        ResizeEdge::Bottom
    } else if left {
        ResizeEdge::Left
    } else {
        ResizeEdge::Right
    }
}

/// The edge for the borders that a position is on.
pub fn resize_edge(top: bool, bottom: bool, left: bool, right: bool) -> (r: ResizeEdge)
    ensures
        r == edge_of(top, bottom, left, right),
{
    if top && left {
        ResizeEdge::TopLeft
    } else if top && right {
        ResizeEdge::TopRight
    } else if bottom && left {
        ResizeEdge::BottomLeft
    } else if bottom && right {
        ResizeEdge::BottomRight
    } else if top {
        ResizeEdge::Top
    } else if bottom {
        ResizeEdge::Bottom
    } else if left {
        ResizeEdge::Left
    } else {
        ResizeEdge::Right
    }
}

/// Whether a window is being moved or resized, and from where.
#[derive(Clone, Copy, Debug, PartialEq, Eq, Structural)]
pub enum WindowMovingStatus {
    Stationary,
    Moving(Coord),
    Resizing(Coord, ResizeEdge),
}

/// A mouse event.
#[derive(Clone, Copy, Debug, PartialEq, Eq, Structural)]
pub struct MousePositionEvent {
    /// Position relative to the window.
    pub coordinate: Coord,
    /// Position on the screen.
    pub gcoordinate: Coord,
    /// The left button is held.
    pub left_button_hold: bool,
}

/// Work that is left for after the events.
#[derive(Clone, Copy, Debug, PartialEq, Eq, Structural)]
pub struct PendingActions {
    pub refresh_buttons: bool,
    pub refresh_float_border: bool,
    pub finalise_move: bool,
    pub set_active: bool,
    pub hide_window: bool,
}

/// No work.
pub open spec fn nothing_pending() -> PendingActions {
    PendingActions {
        refresh_buttons: false,
        refresh_float_border: false,
        finalise_move: false,
        set_active: false,
        hide_window: false,
    }
}

/// What a mouse event comes to.
#[derive(Clone, Copy, Debug, PartialEq, Eq, Structural)]
pub enum MouseOutcome {
    /// The window keeps it.
    Kept,
    /// The window is to be closed.
    Exit,
    /// The window is to be maximized or restored.
    ToggleMaximize,
    /// The application gets it.
    Forward,
}

/// How buttons are drawn.
#[derive(Clone, Copy, Debug, PartialEq, Eq, Structural)]
pub enum ButtonDraw {
    /// As they are.
    Unchanged,
    /// One button in a state.
    One(Button, BtnState),
    /// All at rest.
    AllIdle,
}

/// Width of a rectangle.
pub open spec fn width_of(r: Rectangle) -> int {
    r.bottom_right.x - r.top_left.x
}

/// Height of a rectangle.
pub open spec fn height_of(r: Rectangle) -> int {
    r.bottom_right.y - r.top_left.y
}

/// The rectangle of a whole screen.
pub open spec fn full_screen(width: usize, height: usize) -> Rectangle {
    Rectangle {
        top_left: Coord { x: 0, y: 0 },
        bottom_right: Coord { x: width as isize, y: height as isize },
    }
}

/// A change of what the screen shows of a window.
#[derive(Clone, Copy, Debug, PartialEq, Eq, Structural)]
pub enum WindowEffect {
    /// Buttons are drawn.
    Draw(ButtonDraw),
    /// The window is moved and resized, and its decorations are drawn anew.
    Resize(Rectangle),
}

/// Geometry and state of a window.
#[derive(Clone, Copy, Debug, PartialEq, Eq, Structural)]
pub struct WindowFrame {
    /// Position on the screen.
    pub position: Coord,
    pub width: usize,
    pub height: usize,
    pub title_bar_height: usize,
    pub border_size: usize,
    /// Whether the window is being moved or resized.
    pub moving: WindowMovingStatus,
    /// The left button was held at the last mouse event.
    pub last_hold: bool,
    /// Geometry before the window was maximized.
    pub restore_bounds: Option<Rectangle>,
}

impl WindowFrame {
    /// A window of this size has room for its buttons and its decorations, and positions
    /// around it can be computed.
    pub open spec fn room_for(self, width: int, height: int) -> bool {
        &&& BUTTONS_WIDTH <= width
        &&& width + 8 <= isize::MAX
        &&& self.title_bar_height <= height <= isize::MAX
        &&& self.border_size <= width
        &&& self.border_size <= height
    }

    /// The window has room for its buttons, and positions around it can be computed; so
    /// it has at the geometry that it goes back to.
    pub open spec fn wf(self) -> bool {
        &&& 0 < self.title_bar_height
        &&& self.room_for(self.width as int, self.height as int)
        &&& self.restore_bounds matches Some(b) ==> self.room_for(width_of(b), height_of(b))
    }

    /// The position is in the title bar.
    pub open spec fn in_title(self, c: Coord) -> bool {
        0 <= c.y < self.title_bar_height && 0 <= c.x < self.width
    }

    /// The position is at the left edge.
    pub open spec fn on_left(self, c: Coord) -> bool {
        c.x < RESIZE_MARGIN
    }

    /// The position is at the right edge.
    pub open spec fn on_right(self, c: Coord) -> bool {
        c.x > self.width - RESIZE_MARGIN
    }

    /// The position is at the top edge.
    pub open spec fn on_top(self, c: Coord) -> bool {
        c.y < RESIZE_MARGIN
    }

    /// The position is at the bottom edge.
    pub open spec fn on_bottom(self, c: Coord) -> bool {
        c.y > self.height - RESIZE_MARGIN
    }

    /// The position is at an edge.
    pub open spec fn on_border(self, c: Coord) -> bool {
        self.on_left(c) || self.on_right(c) || self.on_top(c) || self.on_bottom(c)
    }

    /// The left button has just been pressed.
    pub open spec fn pressed(self, m: MousePositionEvent) -> bool {
        !self.last_hold && m.left_button_hold
    }

    /// The left button has just been released.
    pub open spec fn released(self, m: MousePositionEvent) -> bool {
        self.last_hold && !m.left_button_hold
    }

    /// What a mouse event comes to.
    pub open spec fn outcome(self, m: MousePositionEvent) -> MouseOutcome {
        let c = m.coordinate;
        let b = button_at(c.x as int, self.width as int);
        if self.moving != WindowMovingStatus::Stationary {
            MouseOutcome::Kept
        } else if self.in_title(c) {
            if self.released(m) && b == Some(Button::Close) {
                MouseOutcome::Exit
            } else if self.released(m) && b == Some(Button::Maximize) {
                MouseOutcome::ToggleMaximize
            } else {
                MouseOutcome::Kept
            }
        } else if self.on_border(c) && m.left_button_hold {
            MouseOutcome::Kept
        } else {
            MouseOutcome::Forward
        }
    }

    /// How a mouse event changes the buttons.
    pub open spec fn draw(self, m: MousePositionEvent) -> ButtonDraw {
        let c = m.coordinate;
        if self.moving != WindowMovingStatus::Stationary || !self.in_title(c) {
            ButtonDraw::Unchanged
        } else {
            match button_at(c.x as int, self.width as int) {
                Some(b) => ButtonDraw::One(
                    b,
                    if m.left_button_hold {
                        BtnState::Pressed
                    } else {
                        BtnState::Hover
                    },
                ),
                None => ButtonDraw::AllIdle,
            }
        }
    }

    /// Whether a mouse event has the window move or be resized.
    pub open spec fn moving_after(self, m: MousePositionEvent) -> WindowMovingStatus {
        let c = m.coordinate;
        if self.moving != WindowMovingStatus::Stationary {
            self.moving
        } else if self.in_title(c) {
            if button_at(c.x as int, self.width as int) is None && self.pressed(m) {
                WindowMovingStatus::Moving(m.gcoordinate)
            } else {
                self.moving
            }
        } else if self.on_border(c) && m.left_button_hold {
            WindowMovingStatus::Resizing(
                m.gcoordinate,
                edge_of(self.on_top(c), self.on_bottom(c), self.on_left(c), self.on_right(c)),
            )
        } else {
            self.moving
        }
    }

    /// The work that is left after a mouse event. A window that is moved or resized is
    /// put in place when the button is let go; a press anywhere raises the window.
    pub open spec fn pending_after(self, m: MousePositionEvent, p: PendingActions) -> PendingActions {
        let c = m.coordinate;
        let b = button_at(c.x as int, self.width as int);
        if self.moving != WindowMovingStatus::Stationary {
            PendingActions {
                finalise_move: p.finalise_move || !m.left_button_hold,
                refresh_float_border: true,
                ..p
            }
        } else {
            PendingActions {
                refresh_buttons: p.refresh_buttons || self.in_title(c),
                refresh_float_border: p.refresh_float_border || self.moving_after(m)
                    != WindowMovingStatus::Stationary,
                hide_window: p.hide_window || (self.in_title(c) && b == Some(Button::Minimize)
                    && self.released(m)),
                set_active: p.set_active || self.pressed(m),
                ..p
            }
        }
    }

    /// The window after a mouse event.
    pub open spec fn after(self, m: MousePositionEvent) -> WindowFrame {
        WindowFrame { moving: self.moving_after(m), last_hold: m.left_button_hold, ..self }
    }

    /// The window as a rectangle on the screen.
    pub open spec fn bounds(self) -> Rectangle {
        Rectangle {
            top_left: self.position,
            bottom_right: Coord {
                x: (self.position.x + self.width) as isize,
                y: (self.position.y + self.height) as isize,
            },
        }
    }

    /// The rectangle on the screen can be computed.
    pub open spec fn bounds_fit(self) -> bool {
        &&& isize::MIN <= self.position.x + self.width <= isize::MAX
        &&& isize::MIN <= self.position.y + self.height <= isize::MAX
    }

    /// The window moved and resized to a rectangle on the screen.
    pub open spec fn resized(self, r: Rectangle) -> WindowFrame {
        WindowFrame {
            position: r.top_left,
            width: width_of(r) as usize,
            height: height_of(r) as usize,
            ..self
        }
    }

    /// The rectangle that the window is maximized or restored to.
    pub open spec fn toggle_target(self, screen_width: usize, screen_height: usize) -> Rectangle {
        match self.restore_bounds {
            Some(b) => b,
            None => full_screen(screen_width, screen_height),
        }
    }

    /// The window maximized, or restored where it was maximized.
    pub open spec fn toggled(self, screen_width: usize, screen_height: usize) -> WindowFrame {
        WindowFrame {
            restore_bounds: match self.restore_bounds {
                Some(_) => None,
                None => Some(self.bounds()),
            },
            ..self.resized(self.toggle_target(screen_width, screen_height))
        }
    }

    /// Processes a mouse event: what it comes to, and how it changes the buttons.
    pub fn process_mouse_event(
        &mut self,
        mouse: &MousePositionEvent,
        pending: &mut PendingActions,
    ) -> (r: (MouseOutcome, ButtonDraw))
        requires
            old(self).wf(),
        ensures
            final(self).wf(),
            *final(self) == old(self).after(*mouse),
            *final(pending) == old(self).pending_after(*mouse, *old(pending)),
            r.0 == old(self).outcome(*mouse),
            r.1 == old(self).draw(*mouse),
    {
        let last_hold: bool = self.last_hold;
        self.last_hold = mouse.left_button_hold;
        match self.moving {
            WindowMovingStatus::Stationary => {},
            _ => {
                if !mouse.left_button_hold {
                    pending.finalise_move = true;
                }
                pending.refresh_float_border = true;
                return (MouseOutcome::Kept, ButtonDraw::Unchanged);
            },
        }
        let mx: isize = mouse.coordinate.x;
        let my: isize = mouse.coordinate.y;
        let in_title: bool = 0 <= my && (my as usize) < self.title_bar_height && 0 <= mx && (
        mx as usize) < self.width;
        let mut outcome = MouseOutcome::Kept;
        let mut draw = ButtonDraw::Unchanged;
        if in_title {
            pending.refresh_buttons = true;
            match button_hit(mx, self.width) {
                Some(btn) => {
                    let state = if mouse.left_button_hold {
                        BtnState::Pressed
                    } else {
                        BtnState::Hover
                    };
                    draw = ButtonDraw::One(btn, state);
                    if last_hold && !mouse.left_button_hold {
                        match btn {
                            Button::Close => {
                                return (MouseOutcome::Exit, draw);
                            },
                            Button::Maximize => {
                                return (MouseOutcome::ToggleMaximize, draw);
                            },
                            Button::Minimize => {
                                pending.hide_window = true;
                            },
                        }
                    }
                },
                None => {
                    draw = ButtonDraw::AllIdle;
                    if !last_hold && mouse.left_button_hold {
                        self.moving = WindowMovingStatus::Moving(mouse.gcoordinate);
                        pending.refresh_float_border = true;
                    }
                },
            }
        } else {
            let m: isize = RESIZE_MARGIN as isize;
            let on_left: bool = mx < m;
            let on_right: bool = mx > self.width as isize - m;
            let on_top: bool = my < m;
            let on_bottom: bool = my > self.height as isize - m;
            if (on_left || on_right || on_top || on_bottom) && mouse.left_button_hold {
                let edge = resize_edge(on_top, on_bottom, on_left, on_right);
                self.moving = WindowMovingStatus::Resizing(mouse.gcoordinate, edge);
                pending.refresh_float_border = true;
            } else {
                outcome = MouseOutcome::Forward;
            }
        }
        if !last_hold && mouse.left_button_hold {
            pending.set_active = true;
        }
        (outcome, draw)
    }

    /// Moves the window to a rectangle on the screen and gives it its size.
    pub fn resize(&mut self, r: Rectangle)
        requires
            old(self).room_for(width_of(r), height_of(r)),
        ensures
            *final(self) == old(self).resized(r),
    {
        self.position = r.top_left;
        self.width = (r.bottom_right.x - r.top_left.x) as usize;
        self.height = (r.bottom_right.y - r.top_left.y) as usize;
    }

    /// Maximizes the window, or gives it back the geometry that it had before. Returns
    /// its rectangle on the screen.
    pub fn toggle_maximize(&mut self, screen_width: usize, screen_height: usize) -> (r: Rectangle)
        requires
            old(self).wf(),
            old(self).bounds_fit(),
            old(self).room_for(screen_width as int, screen_height as int),
        ensures
            final(self).wf(),
            final(self).bounds_fit(),
            *final(self) == old(self).toggled(screen_width, screen_height),
            r == old(self).toggle_target(screen_width, screen_height),
    {
        match self.restore_bounds {
            Some(b) => {
                self.restore_bounds = None;
                self.resize(b);
                b
            },
            None => {
                let pos = self.position;
                self.restore_bounds =
                Some(
                    Rectangle {
                        top_left: pos,
                        bottom_right: Coord {
                            x: pos.x + self.width as isize,
                            y: pos.y + self.height as isize,
                        },
                    },
                );
                let full = Rectangle {
                    top_left: Coord { x: 0, y: 0 },
                    bottom_right: Coord { x: screen_width as isize, y: screen_height as isize },
                };
                self.resize(full);
                full
            },
        }
    }

    /// Rectangle of the title bar.
    pub fn button_area(&self) -> (r: Rectangle)
        requires
            self.wf(),
        ensures
            r == (Rectangle {
                top_left: Coord { x: 0, y: 0 },
                bottom_right: Coord {
                    x: self.width as isize,
                    y: self.title_bar_height as isize,
                },
            }),
    {
        Rectangle {
            top_left: Coord { x: 0, y: 0 },
            bottom_right: Coord { x: self.width as isize, y: self.title_bar_height as isize },
        }
    }
}

/// Whether a window is large enough, and the window manager is there.
pub fn check_size(
    width: usize,
    height: usize,
    min_width: usize,
    min_height: usize,
    has_manager: bool,
) -> (r: Result<(), &'static str>)
    ensures
        r is Ok <==> width >= min_width && height >= min_height && has_manager,
        r matches Err(e) ==> e@ == if width < min_width || height < min_height {
            "window is too small for decorations"@
        } else {
            "window manager not initialised"@
        },
{
    if width < min_width || height < min_height {
        return Err("window is too small for decorations");
    }
    if !has_manager {
        return Err("window manager not initialised");
    }
    Ok(())
}

/// An event of a window. Events other than those of the mouse are known by a number.
#[derive(Clone, Copy, Debug, PartialEq, Eq, Structural)]
pub enum WindowEvent {
    Mouse(MousePositionEvent),
    Other(u64),
}

/// An event for the application.
#[derive(Clone, Copy, Debug, PartialEq, Eq, Structural)]
pub enum AppEvent {
    /// The window is to be closed.
    Exit,
    /// An event that the window does not keep.
    Event(WindowEvent),
}

/// How the events of a window are processed.
#[verifier::ext_equal]
pub struct Processing {
    /// The window.
    pub frame: WindowFrame,
    /// Work that is left.
    pub pending: PendingActions,
    /// Events that wait.
    pub queue: Seq<WindowEvent>,
    /// Event for the application.
    pub app_event: Option<AppEvent>,
    /// What the screen is to show, in order.
    pub effects: Seq<WindowEffect>,
    /// Width of the screen.
    pub screen_width: usize,
    /// Height of the screen.
    pub screen_height: usize,
}

impl Processing {
    /// Processing after one event.
    pub open spec fn step(self) -> Processing {
        let rest = self.queue.drop_first();
        match self.queue[0] {
            WindowEvent::Other(n) => Processing {
                queue: rest,
                app_event: Some(AppEvent::Event(WindowEvent::Other(n))),
                ..self
            },
            WindowEvent::Mouse(m) => Processing {
                frame: if self.frame.outcome(m) == MouseOutcome::ToggleMaximize {
                    self.frame.after(m).toggled(self.screen_width, self.screen_height)
                } else {
                    self.frame.after(m)
                },
                pending: self.frame.pending_after(m, self.pending),
                queue: rest,
                app_event: match self.frame.outcome(m) {
                    MouseOutcome::Exit => Some(AppEvent::Exit),
                    MouseOutcome::Forward => Some(AppEvent::Event(WindowEvent::Mouse(m))),
                    _ => None,
                },
                effects: if self.frame.outcome(m) == MouseOutcome::ToggleMaximize {
                    self.effects.push(WindowEffect::Draw(self.frame.draw(m))).push(
                        WindowEffect::Resize(
                            self.frame.toggle_target(self.screen_width, self.screen_height),
                        ),
                    )
                } else {
                    self.effects.push(WindowEffect::Draw(self.frame.draw(m)))
                },
                ..self
            },
        }
    }

    /// Processing up to the first event for the application.
    pub open spec fn run(self) -> Processing
        decreases self.queue.len(),
    {
        if self.queue.len() == 0 || self.app_event is Some {
            self
        } else {
            self.step().run()
        }
    }
}

/// What processing the events of a window came to.
#[derive(Debug)]
pub struct Handled {
    /// Event for the application.
    pub app_event: Option<AppEvent>,
    /// Work that is left.
    pub pending: PendingActions,
    /// What the screen is to show, in order.
    pub effects: Vec<WindowEffect>,
}

/// Processes events up to the first one for the application. The others stay in the
/// queue. A window that is maximized or restored has its new geometry from the next event
/// on.
pub fn handle_event(
    frame: &mut WindowFrame,
    queue: &mut VecDeque<WindowEvent>,
    screen_width: usize,
    screen_height: usize,
) -> (r: Handled)
    requires
        old(frame).wf(),
        old(frame).bounds_fit(),
        old(frame).room_for(screen_width as int, screen_height as int),
    ensures
        final(frame).wf(),
        final(frame).bounds_fit(),
        ({
            let end = (Processing {
                frame: *old(frame),
                pending: nothing_pending(),
                queue: old(queue)@,
                app_event: None,
                effects: Seq::empty(),
                screen_width,
                screen_height,
            }).run();
            &&& *final(frame) == end.frame
            &&& final(queue)@ == end.queue
            &&& r.app_event == end.app_event
            &&& r.pending == end.pending
            &&& r.effects@ == end.effects
        }),
{
    let ghost start = Processing {
        frame: *frame,
        pending: nothing_pending(),
        queue: queue@,
        app_event: None,
        effects: Seq::empty(),
        screen_width,
        screen_height,
    };
    let mut pending = PendingActions {
        refresh_buttons: false,
        refresh_float_border: false,
        finalise_move: false,
        set_active: false,
        hide_window: false,
    };
    let mut app_event: Option<AppEvent> = None;
    let mut effects: Vec<WindowEffect> = Vec::new();
    let ghost mut now = start;
    while queue.len() > 0 && app_event.is_none()
        invariant
            frame.wf(),
            frame.bounds_fit(),
            frame.room_for(screen_width as int, screen_height as int),
            now.run() == start.run(),
            now.frame == *frame,
            now.pending == pending,
            now.queue == queue@,
            now.app_event == app_event,
            now.effects == effects@,
            now.screen_width == screen_width,
            now.screen_height == screen_height,
        decreases queue@.len(),
    {
        let ghost before = now;
        let ghost waiting = queue@;
        if let Some(event) = queue.pop_front() {
            assert(queue@ =~= waiting.drop_first());
            match event {
                WindowEvent::Other(k) => {
                    app_event = Some(AppEvent::Event(WindowEvent::Other(k)));
                },
                WindowEvent::Mouse(mouse) => {
                    let (outcome, draw) = frame.process_mouse_event(&mouse, &mut pending);
                    effects.push(WindowEffect::Draw(draw));
                    match outcome {
                        MouseOutcome::Kept => {},
                        MouseOutcome::Exit => {
                            app_event = Some(AppEvent::Exit);
                        },
                        MouseOutcome::ToggleMaximize => {
                            let bounds = frame.toggle_maximize(screen_width, screen_height);
                            effects.push(WindowEffect::Resize(bounds));
                        },
                        MouseOutcome::Forward => {
                            app_event = Some(AppEvent::Event(WindowEvent::Mouse(mouse)));
                        },
                    }
                },
            }
            proof {
                now = before.step();
                assert(now.effects =~= effects@);
                assert(now.queue =~= queue@);
            }
        }
    }
    Handled { app_event, pending, effects }
}

/// Work for the window manager.
#[derive(Clone, Copy, Debug, PartialEq, Eq, Structural)]
pub enum ManagerAction {
    /// Hide the window.
    Hide,
    /// Raise the window.
    SetActive,
    /// Draw the title bar and the mouse.
    RefreshButtons,
    /// Move the floating border.
    MoveFloatingBorder,
    /// Put the window in place. It is stationary then, and its decorations are drawn.
    MoveActiveWindow,
}

/// An action if it is pending.
pub open spec fn when(b: bool, a: ManagerAction) -> Seq<ManagerAction> {
    if b {
        seq![a]
    } else {
        Seq::empty()
    }
}

/// The pending work, in the order in which it is done.
pub open spec fn actions_of(p: PendingActions) -> Seq<ManagerAction> {
    when(p.hide_window, ManagerAction::Hide) + when(p.set_active, ManagerAction::SetActive) + when(
        p.refresh_buttons,
        ManagerAction::RefreshButtons,
    ) + when(p.refresh_float_border, ManagerAction::MoveFloatingBorder) + when(
        p.finalise_move,
        ManagerAction::MoveActiveWindow,
    )
}

/// The pending work, in the order in which it is done. A window that is put in place is
/// stationary.
pub fn deferred_actions(frame: &mut WindowFrame, p: &PendingActions) -> (r: Vec<ManagerAction>)
    requires
        old(frame).wf(),
    ensures
        final(frame).wf(),
        r@ == actions_of(*p),
        *final(frame) == if p.finalise_move {
            WindowFrame { moving: WindowMovingStatus::Stationary, ..*old(frame) }
        } else {
            *old(frame)
        },
{
    let mut r: Vec<ManagerAction> = Vec::new();
    if p.hide_window {
        r.push(ManagerAction::Hide);
    }
    assert(r@ =~= when(p.hide_window, ManagerAction::Hide));
    if p.set_active {
        r.push(ManagerAction::SetActive);
    }
    if p.refresh_buttons {
        r.push(ManagerAction::RefreshButtons);
    }
    if p.refresh_float_border {
        r.push(ManagerAction::MoveFloatingBorder);
    }
    if p.finalise_move {
        r.push(ManagerAction::MoveActiveWindow);
        frame.moving = WindowMovingStatus::Stationary;
    }
    assert(r@ =~= actions_of(*p));
    r
}

/// Something to draw.
#[derive(Clone, Copy, Debug, PartialEq, Eq, Structural)]
pub enum DrawOp {
    /// A filled rectangle.
    FillRectangle { at: Coord, width: usize, height: usize, color: u32 },
    /// A filled circle.
    FillCircle { center: Coord, radius: usize, color: u32 },
    /// A white line.
    Line { from: Coord, to: Coord },
    /// A character.
    Glyph { at: Coord, code: u8, color: u32 },
    /// A transparent pixel.
    Transparent { at: Coord },
}

/// Rectangles of a title bar: its background, a line at the top of an active window, and
/// a line at the bottom.
pub open spec fn title_bar_ops(f: WindowFrame, active: bool) -> Seq<DrawOp> {
    let background = DrawOp::FillRectangle {
        at: Coord { x: 0, y: 0 },
        width: f.width,
        height: f.title_bar_height,
        color: if active {
            TN_BG
        } else {
            TN_BG_DARK
        },
    };
    let glow = DrawOp::FillRectangle {
        at: Coord { x: 0, y: 0 },
        width: f.width,
        height: 1,
        color: TN_HIGHLIGHT,
    };
    let accent = DrawOp::FillRectangle {
        at: Coord { x: 0, y: (f.title_bar_height - 1) as isize },
        width: f.width,
        height: 1,
        color: if active {
            TN_BORDER
        } else {
            TN_BORDER_DIM
        },
    };
    if active {
        seq![background, glow, accent]
    } else {
        seq![background, accent]
    }
}

/// `a - b`, or zero if that is negative.
pub open spec fn minus(a: int, b: int) -> int {
    if a >= b {
        a - b
    } else {
        0
    }
}

/// Where the title may not go any further.
pub open spec fn title_end(width: int) -> int {
    minus(width, BUTTON_ZONE_WIDTH as int)
}

/// Start of a title: in the middle of the room left of the buttons, or at the left if it
/// does not fit.
pub open spec fn title_x(width: int, chars: int, char_width: int) -> int {
    let w = chars * char_width;
    if w < minus(title_end(width), TITLE_START as int) {
        (TITLE_START + minus(title_end(width), w)) / 2
    } else {
        TITLE_START as int
    }
}

/// Top of a title.
pub open spec fn title_y(title_bar_height: int, char_height: int) -> int {
    minus(title_bar_height, char_height) / 2
}

/// Characters of a title from the `i`-th on, which starts at `x`. Those that the font
/// lacks leave a gap, and the title ends with the first character drawn at or behind
/// `end`.
pub open spec fn glyphs(
    title: Seq<char>,
    i: int,
    x: int,
    y: int,
    char_width: int,
    end: int,
    color: u32,
) -> Seq<DrawOp>
    decreases title.len() - i,
{
    if i < 0 || i >= title.len() {
        Seq::empty()
    } else {
        let code = title[i] as int;
        let rest = glyphs(title, i + 1, x + char_width, y, char_width, end, color);
        if code >= 256 {
            rest
        } else {
            let g = DrawOp::Glyph {
                at: Coord { x: x as isize, y: y as isize },
                code: code as u8,
                color,
            };
            if x + char_width >= end {
                seq![g]
            } else {
                seq![g] + rest
            }
        }
    }
}

/// Draws the title bar of a window.
pub fn draw_title_bar(
    f: &WindowFrame,
    title: &str,
    active: bool,
    char_width: usize,
    char_height: usize,
) -> (r: Vec<DrawOp>)
    requires
        f.wf(),
        title@.len() * char_width <= usize::MAX,
        f.width + title@.len() * char_width + char_width <= isize::MAX,
    ensures
        r@ == title_bar_ops(*f, active) + glyphs(
            title@,
            0,
            title_x(f.width as int, title@.len() as int, char_width as int),
            title_y(f.title_bar_height as int, char_height as int),
            char_width as int,
            title_end(f.width as int),
            if active {
                TN_TEXT
            } else {
                TN_TEXT_DIM
            },
        ),
{
    let mut ops: Vec<DrawOp> = Vec::new();
    ops.push(
        DrawOp::FillRectangle {
            at: Coord { x: 0, y: 0 },
            width: f.width,
            height: f.title_bar_height,
            color: if active {
                TN_BG
            } else {
                TN_BG_DARK
            },
        },
    );
    if active {
        ops.push(
            DrawOp::FillRectangle {
                at: Coord { x: 0, y: 0 },
                width: f.width,
                height: 1,
                color: TN_HIGHLIGHT,
            },
        );
    }
    ops.push(
        DrawOp::FillRectangle {
            at: Coord { x: 0, y: (f.title_bar_height - 1) as isize },
            width: f.width,
            height: 1,
            color: if active {
                TN_BORDER
            } else {
                TN_BORDER_DIM
            },
        },
    );
    assert(ops@ =~= title_bar_ops(*f, active));
    let ghost frame_ops = ops@;
    let n: usize = title.unicode_len();
    let end: usize = f.width.saturating_sub(BUTTON_ZONE_WIDTH);
    assert(n * char_width >= 0) by (nonlinear_arith);
    let text_width: usize = n * char_width;
    let text_x: usize = if text_width < end.saturating_sub(TITLE_START) {
        (TITLE_START + end.saturating_sub(text_width)) / 2
    } else {
        TITLE_START
    };
    let text_y: usize = f.title_bar_height.saturating_sub(char_height) / 2;
    let color: u32 = if active {
        TN_TEXT
    } else {
        TN_TEXT_DIM
    };
    let mut cx: isize = text_x as isize;
    let mut i: usize = 0;
    let mut stop: bool = false;
    let ghost all = glyphs(
        title@,
        0,
        text_x as int,
        text_y as int,
        char_width as int,
        end as int,
        color,
    );
    assert(ops@ + all =~= frame_ops + all);
    while i < n && !stop
        invariant
            i <= n,
            n == title@.len(),
            f.wf(),
            text_x <= f.width,
            text_y <= f.height,
            f.height <= isize::MAX,
            end <= f.width,
            f.width + n * char_width + char_width <= isize::MAX,
            cx == text_x + i * char_width,
            stop ==> ops@ == frame_ops + all,
            !stop ==> ops@ + glyphs(
                title@,
                i as int,
                cx as int,
                text_y as int,
                char_width as int,
                end as int,
                color,
            ) == frame_ops + all,
        decreases
            n - i,
            if stop {
                0int
            } else {
                1
            },
    {
        let ghost before = ops@;
        let ghost rest = glyphs(
            title@,
            i as int,
            cx as int,
            text_y as int,
            char_width as int,
            end as int,
            color,
        );
        proof {
            assert(i * char_width + char_width <= n * char_width) by (nonlinear_arith)
                requires
                    i + 1 <= n,
                    char_width >= 0,
            ;
            assert((i + 1) * char_width == i * char_width + char_width) by (nonlinear_arith);
        }
        let code: u32 = title.get_char(i) as u32;
        let next: isize = cx + char_width as isize;
        if code < 256 {
            ops.push(
                DrawOp::Glyph {
                    at: Coord { x: cx, y: text_y as isize },
                    code: code as u8,
                    color,
                },
            );
            if next >= end as isize {
                stop = true;
                assert(before + rest =~= ops@);
            } else {
                assert(before + rest =~= ops@ + glyphs(
                    title@,
                    i + 1,
                    next as int,
                    text_y as int,
                    char_width as int,
                    end as int,
                    color,
                ));
            }
        }
        cx = next;
        i += 1;
    }
    if !stop {
        assert(ops@ =~= frame_ops + all);
    }
    ops
}

/// The borders of a window: left, right and bottom.
pub open spec fn border_ops(f: WindowFrame, active: bool) -> Seq<DrawOp> {
    let color = if active {
        TN_BORDER
    } else {
        TN_BORDER_DIM
    };
    let top = f.title_bar_height as isize;
    let side = (f.height - f.title_bar_height) as usize;
    seq![
        DrawOp::FillRectangle {
            at: Coord { x: 0, y: top },
            width: f.border_size,
            height: side,
            color,
        },
        DrawOp::FillRectangle {
            at: Coord { x: (f.width - f.border_size) as isize, y: top },
            width: f.border_size,
            height: side,
            color,
        },
        DrawOp::FillRectangle {
            at: Coord { x: 0, y: (f.height - f.border_size) as isize },
            width: f.width,
            height: f.border_size,
            color,
        },
    ]
}

/// Draws the borders of a window.
pub fn draw_borders(f: &WindowFrame, active: bool) -> (r: Vec<DrawOp>)
    requires
        f.wf(),
    ensures
        r@ == border_ops(*f, active),
{
    let color: u32 = if active {
        TN_BORDER
    } else {
        TN_BORDER_DIM
    };
    let bs: usize = f.border_size;
    let tbh: usize = f.title_bar_height;
    let height: usize = f.height - tbh;
    let top_y: isize = tbh as isize;
    let right_x: isize = (f.width - bs) as isize;
    let bottom_y: isize = (f.height - bs) as isize;
    let mut r: Vec<DrawOp> = Vec::new();
    r.push(DrawOp::FillRectangle { at: Coord { x: 0, y: top_y }, width: bs, height, color });
    r.push(DrawOp::FillRectangle { at: Coord { x: right_x, y: top_y }, width: bs, height, color });
    r.push(
        DrawOp::FillRectangle {
            at: Coord { x: 0, y: bottom_y },
            width: f.width,
            height: bs,
            color,
        },
    );
    assert(r@ =~= border_ops(*f, active));
    r
}

/// The pixel of a corner lies outside of the rounding.
pub open spec fn is_cut(i: int, j: int) -> bool {
    (8 - i) * (8 - i) + (8 - j) * (8 - j) > 64
}

/// Pixels that are cut off the two upper corners: the first `n` of 64 positions of a
/// corner, column by column.
pub open spec fn cut_pixels(width: int, n: int) -> Seq<DrawOp>
    decreases n,
{
    if n <= 0 {
        Seq::empty()
    } else {
        let i = (n - 1) / 8;
        let j = (n - 1) % 8;
        let rest = cut_pixels(width, n - 1);
        if is_cut(i, j) {
            rest.push(
                DrawOp::Transparent { at: Coord { x: i as isize, y: j as isize } },
            ).push(
                DrawOp::Transparent { at: Coord { x: (width - i - 1) as isize, y: j as isize } },
            )
        } else {
            rest
        }
    }
}

/// Cuts the upper corners of a window.
pub fn draw_rounded_corners(f: &WindowFrame) -> (r: Vec<DrawOp>)
    requires
        f.wf(),
    ensures
        r@ == cut_pixels(f.width as int, 64),
{
    let mut r: Vec<DrawOp> = Vec::new();
    let mut n: usize = 0;
    while n < 64
        invariant
            n <= 64,
            f.wf(),
            r@ == cut_pixels(f.width as int, n as int),
        decreases 64 - n,
    {
        let i: usize = n / 8;
        let j: usize = n % 8;
        let dx: usize = WINDOW_RADIUS - i;
        let dy: usize = WINDOW_RADIUS - j;
        assert(0 <= dx * dx <= 64 && 0 <= dy * dy <= 64) by (nonlinear_arith)
            requires
                0 <= dx <= 8,
                0 <= dy <= 8,
        ;
        if dx * dx + dy * dy > WINDOW_RADIUS * WINDOW_RADIUS {
            r.push(DrawOp::Transparent { at: Coord { x: i as isize, y: j as isize } });
            r.push(
                DrawOp::Transparent {
                    at: Coord { x: (f.width - i - 1) as isize, y: j as isize },
                },
            );
        }
        n += 1;
    }
    r
}

/// A line relative to a centre.
pub open spec fn line(c: Coord, x0: int, y0: int, x1: int, y1: int) -> DrawOp {
    DrawOp::Line {
        from: Coord { x: (c.x + x0) as isize, y: (c.y + y0) as isize },
        to: Coord { x: (c.x + x1) as isize, y: (c.y + y1) as isize },
    }
}

/// The sign of a button: a cross, a square or a dash.
pub open spec fn icon(b: Button, c: Coord) -> Seq<DrawOp> {
    match b {
        Button::Close => seq![line(c, -2, -2, 2, 2), line(c, 2, -2, -2, 2)],
        Button::Maximize => seq![
            line(c, -2, -2, 2, -2),
            line(c, -2, 2, 2, 2),
            line(c, -2, -2, -2, 2),
            line(c, 2, -2, 2, 2),
        ],
        Button::Minimize => seq![line(c, -2, 0, 2, 0)],
    }
}

/// A button: a circle, and its sign unless it is at rest.
pub open spec fn button_ops(f: WindowFrame, b: Button, s: BtnState) -> Seq<DrawOp> {
    let c = Coord {
        x: button_center(b, f.width as int) as isize,
        y: (f.title_bar_height / 2) as isize,
    };
    let circle = DrawOp::FillCircle { center: c, radius: 6, color: button_color(b, s) };
    if s == BtnState::Idle {
        seq![circle]
    } else {
        seq![circle] + icon(b, c)
    }
}

/// A line relative to a centre.
fn make_line(c: Coord, x0: isize, y0: isize, x1: isize, y1: isize) -> (r: DrawOp)
    requires
        -2 <= x0 <= 2,
        -2 <= y0 <= 2,
        -2 <= x1 <= 2,
        -2 <= y1 <= 2,
        0 <= c.x,
        c.x + 2 <= isize::MAX,
        0 <= c.y,
        c.y + 2 <= isize::MAX,
    ensures
        r == line(c, x0 as int, y0 as int, x1 as int, y1 as int),
{
    DrawOp::Line {
        from: Coord { x: c.x + x0, y: c.y + y0 },
        to: Coord { x: c.x + x1, y: c.y + y1 },
    }
}

/// Draws a button.
pub fn draw_button(f: &WindowFrame, btn: Button, state: BtnState) -> (r: Vec<DrawOp>)
    requires
        f.wf(),
    ensures
        r@ == button_ops(*f, btn, state),
{
    let cx: isize = btn.x_center(f.width);
    let cy: isize = (f.title_bar_height / 2) as isize;
    let c = Coord { x: cx, y: cy };
    let color: u32 = match state {
        BtnState::Idle => btn.base_color().0,
        BtnState::Hover => match btn {
            Button::Close => BTN_CLOSE,
            _ => BTN_HOVER_DIM,
        },
        BtnState::Pressed => BTN_INACTIVE,
    };
    let mut r: Vec<DrawOp> = Vec::new();
    r.push(DrawOp::FillCircle { center: c, radius: BTN_SIZE / 2, color });
    if state != BtnState::Idle {
        match btn {
            Button::Close => {
                r.push(make_line(c, -2, -2, 2, 2));
                r.push(make_line(c, 2, -2, -2, 2));
            },
            Button::Maximize => {
                r.push(make_line(c, -2, -2, 2, -2));
                r.push(make_line(c, -2, 2, 2, 2));
                r.push(make_line(c, -2, -2, -2, 2));
                r.push(make_line(c, 2, -2, 2, 2));
            },
            Button::Minimize => {
                r.push(make_line(c, -2, 0, 2, 0));
            },
        }
    }
    assert(r@ =~= button_ops(*f, btn, state));
    r
}

/// The decorations of a window: its title bar, its borders, its corners, and its buttons
/// at rest.
pub open spec fn decoration_ops(
    f: WindowFrame,
    title_bar: Seq<DrawOp>,
    borders: Seq<DrawOp>,
) -> Seq<DrawOp> {
    title_bar + borders + cut_pixels(f.width as int, 64) + button_ops(
        f,
        Button::Close,
        BtnState::Idle,
    ) + button_ops(f, Button::Minimize, BtnState::Idle) + button_ops(
        f,
        Button::Maximize,
        BtnState::Idle,
    )
}

/// Appends what is to be drawn.
fn append_ops(ops: &mut Vec<DrawOp>, more: Vec<DrawOp>)
    ensures
        final(ops)@ == old(ops)@ + more@,
{
    let mut i: usize = 0;
    assert(ops@ + more@.take(0) =~= ops@);
    while i < more.len()
        invariant
            i <= more@.len(),
            ops@ == old(ops)@ + more@.take(i as int),
        decreases more@.len() - i,
    {
        ops.push(more[i]);
        i += 1;
        assert(ops@ =~= old(ops)@ + more@.take(i as int));
    }
    assert(more@.take(i as int) =~= more@);
}

/// Draws all decorations of a window.
pub fn redraw_decorations(
    f: &WindowFrame,
    title: &str,
    active: bool,
    char_width: usize,
    char_height: usize,
) -> (r: Vec<DrawOp>)
    requires
        f.wf(),
        title@.len() * char_width <= usize::MAX,
        f.width + title@.len() * char_width + char_width <= isize::MAX,
    ensures
        r@ == decoration_ops(
            *f,
            title_bar_ops(*f, active) + glyphs(
                title@,
                0,
                title_x(f.width as int, title@.len() as int, char_width as int),
                title_y(f.title_bar_height as int, char_height as int),
                char_width as int,
                title_end(f.width as int),
                if active {
                    TN_TEXT
                } else {
                    TN_TEXT_DIM
                },
            ),
            border_ops(*f, active),
        ),
{
    let mut ops = draw_title_bar(f, title, active, char_width, char_height);
    append_ops(&mut ops, draw_borders(f, active));
    append_ops(&mut ops, draw_rounded_corners(f));
    append_ops(&mut ops, draw_button(f, Button::Close, BtnState::Idle));
    append_ops(&mut ops, draw_button(f, Button::Minimize, BtnState::Idle));
    append_ops(&mut ops, draw_button(f, Button::Maximize, BtnState::Idle));
    ops
}

/// An area of a window as an area of the screen.
pub fn render(area: Option<Rectangle>, origin: Coord) -> (r: Option<Rectangle>)
    requires
        area matches Some(a) ==> {
            &&& isize::MIN <= a.top_left.x + origin.x <= isize::MAX
            &&& isize::MIN <= a.top_left.y + origin.y <= isize::MAX
            &&& isize::MIN <= a.bottom_right.x + origin.x <= isize::MAX
            &&& isize::MIN <= a.bottom_right.y + origin.y <= isize::MAX
        },
    ensures
        r == match area {
            Some(a) => Some(
                Rectangle {
                    top_left: Coord {
                        x: (a.top_left.x + origin.x) as isize,
                        y: (a.top_left.y + origin.y) as isize,
                    },
                    bottom_right: Coord {
                        x: (a.bottom_right.x + origin.x) as isize,
                        y: (a.bottom_right.y + origin.y) as isize,
                    },
                },
            ),
            None => None,
        },
{
    match area {
        Some(a) => Some(
            Rectangle {
                top_left: Coord { x: a.top_left.x + origin.x, y: a.top_left.y + origin.y },
                bottom_right: Coord {
                    x: a.bottom_right.x + origin.x,
                    y: a.bottom_right.y + origin.y,
                },
            },
        ),
        None => None,
    }
}

/// The pixels of a row of a character: those whose bit is set, from the highest bit on.
pub open spec fn row_pixels(bits: u8, at: Coord, n: int) -> Seq<Coord>
    decreases n,
{
    if n <= 0 {
        Seq::empty()
    } else {
        let rest = row_pixels(bits, at, n - 1);
        if crate::usb_hid::keymap::bit(bits, 8 - n) {
            rest.push(Coord { x: (at.x + n - 1) as isize, y: at.y })
        } else {
            rest
        }
    }
}

/// The pixels of a row of a character.
pub fn glyph_row(bits: u8, at: Coord) -> (r: Vec<Coord>)
    requires
        at.x + 8 <= isize::MAX,
    ensures
        r@ == row_pixels(bits, at, 8),
{
    let mut r: Vec<Coord> = Vec::new();
    let mut col: u8 = 0;
    while col < 8
        invariant
            col <= 8,
            at.x + 8 <= isize::MAX,
            r@ == row_pixels(bits, at, col as int),
        decreases 8 - col,
    {
        if crate::usb_hid::keymap::test_bit(bits, 7 - col) {
            r.push(Coord { x: at.x + col as isize, y: at.y });
        }
        col += 1;
    }
    r
}

/// No two buttons can be hit at once.
pub proof fn buttons_do_not_overlap(a: Button, b: Button, x: int, width: int)
    requires
        hits(a, x, width),
        hits(b, x, width),
    ensures
        a == b,
{
}

/// The buttons of a window that is wide enough lie in its title bar.
pub proof fn buttons_lie_in_the_window(b: Button, width: int)
    requires
        width >= BUTTONS_WIDTH,
    ensures
        0 <= button_center(b, width) < width,
{
}

/// An event in the title bar never reaches the application, but for a click on the
/// button that closes the window.
pub proof fn title_bar_events_are_kept(f: WindowFrame, m: MousePositionEvent)
    requires
        f.in_title(m.coordinate),
    ensures
        f.outcome(m) != MouseOutcome::Forward,
        f.outcome(m) == MouseOutcome::Exit ==> f.released(m),
{
}

/// A window that is maximized and then restored is as it was.
pub proof fn restore_gives_the_bounds_back(f: WindowFrame, screen_width: usize, screen_height: usize)
    requires
        f.wf(),
        f.bounds_fit(),
        f.restore_bounds is None,
    ensures
        f.toggled(screen_width, screen_height).toggled(screen_width, screen_height) == f,
{
}

/// A maximized window fills the screen: it is at its origin and has its size.
pub proof fn maximized_fills_the_screen(f: WindowFrame, screen_width: usize, screen_height: usize)
    requires
        f.wf(),
        f.bounds_fit(),
        f.restore_bounds is None,
        f.room_for(screen_width as int, screen_height as int),
    ensures
        ({
            let m = f.toggled(screen_width, screen_height);
            &&& m.position == (Coord { x: 0, y: 0 })
            &&& m.width == screen_width
            &&& m.height == screen_height
            &&& m.wf()
        }),
{
}

/// The event after a click on the maximize button is judged by the new geometry.
pub proof fn events_after_a_toggle_see_the_new_geometry(
    p: Processing,
    m: MousePositionEvent,
    next: MousePositionEvent,
)
    requires
        p.app_event is None,
        p.queue.len() >= 2,
        p.queue[0] == WindowEvent::Mouse(m),
        p.queue[1] == WindowEvent::Mouse(next),
        p.frame.outcome(m) == MouseOutcome::ToggleMaximize,
    ensures
        ({
            let f = p.frame.after(m).toggled(p.screen_width, p.screen_height);
            &&& p.run() == p.step().step().run()
            &&& p.step().frame == f
            &&& p.step().step().pending == f.pending_after(next, p.step().pending)
            &&& p.step().step().app_event == Some(AppEvent::Exit) <==> f.outcome(next)
                == MouseOutcome::Exit
        }),
{
    reveal_with_fuel(Processing::run, 3);
}

/// A drag ends when the button is let go.
pub proof fn release_ends_the_drag(f: WindowFrame, m: MousePositionEvent)
    requires
        f.moving != WindowMovingStatus::Stationary,
        !m.left_button_hold,
    ensures
        f.pending_after(m, nothing_pending()).finalise_move,
        f.outcome(m) == MouseOutcome::Kept,
{
}

/// The events that are left over are those that follow the event for the application.
pub proof fn later_events_stay_queued(p: Processing)
    ensures
        exists|n: int| 0 <= n <= p.queue.len() && p.run().queue == #[trigger] p.queue.skip(n),
        p.run().app_event is None ==> p.run().queue.len() == 0,
    decreases p.queue.len(),
{
    if p.queue.len() == 0 || p.app_event is Some {
        assert(p.queue.skip(0) =~= p.queue);
    } else {
        let s = p.step();
        later_events_stay_queued(s);
        let n = choose|n: int| 0 <= n <= s.queue.len() && s.run().queue == #[trigger] s.queue.skip(n);
        assert(p.queue.skip(n + 1) =~= s.queue.skip(n));
    }
}

/// The buttons stand at the right end of the title bar, twenty pixels apart: close is the
/// last, then come minimize and maximize. Each is hit within eight pixels of its center.
pub proof fn buttons_stand_at_the_right(x: int, width: int)
    ensures
        button_center(Button::Close, width) == width - 18,
        button_center(Button::Minimize, width) == width - 38,
        button_center(Button::Maximize, width) == width - 58,
        button_at(x, width) == Some(Button::Close) <==> width - 26 <= x <= width - 10,
        button_at(x, width) == Some(Button::Minimize) <==> width - 46 <= x <= width - 30,
        button_at(x, width) == Some(Button::Maximize) <==> width - 66 <= x <= width - 50,
{
}

/// Buttons at rest are red, green and yellow; under the mouse only close keeps its color, and
/// a button that is held is dark.
pub proof fn button_colors(b: Button)
    ensures
        button_color(Button::Close, BtnState::Idle) == 0xF7768E,
        button_color(Button::Maximize, BtnState::Idle) == 0x9ECE6A,
        button_color(Button::Minimize, BtnState::Idle) == 0xE0AF68,
        button_color(Button::Close, BtnState::Hover) == 0xF7768E,
        b != Button::Close ==> button_color(b, BtnState::Hover) == 0x414868,
        button_color(b, BtnState::Pressed) == 0x24283B,
{
}

/// An edge is named by the sides that the mouse is on; of two opposite ones the top and the
/// left count.
pub proof fn edges_are_named_by_their_sides(top: bool, bottom: bool, left: bool, right: bool)
    ensures
        ({
            let e = edge_of(top, bottom, left, right);
            &&& e == ResizeEdge::TopLeft <==> top && left
            &&& e == ResizeEdge::TopRight <==> top && right && !left
            &&& e == ResizeEdge::BottomLeft <==> bottom && left && !top
            &&& e == ResizeEdge::BottomRight <==> bottom && right && !top && !left
            &&& e == ResizeEdge::Top <==> top && !left && !right
            &&& e == ResizeEdge::Bottom <==> bottom && !top && !left && !right
            &&& e == ResizeEdge::Left <==> left && !top && !bottom
        }),
{
}

/// What becomes of a mouse event on a window that stands still. One in the title bar is kept,
/// but for the release of the left button on close or on maximize; one within six pixels of
/// an edge is kept while that button is held; any other goes to the application.
pub proof fn mouse_events_have_their_outcome(f: WindowFrame, m: MousePositionEvent)
    requires
        f.wf(),
        f.moving == WindowMovingStatus::Stationary,
    ensures
        ({
            let x = m.coordinate.x as int;
            let y = m.coordinate.y as int;
            let title = 0 <= y < f.title_bar_height && 0 <= x < f.width;
            let let_go = f.last_hold && !m.left_button_hold;
            let edge = x <= 5 || x >= f.width - 5 || y <= 5 || y >= f.height - 5;
            &&& f.outcome(m) == MouseOutcome::Exit <==> title && let_go && f.width - 26 <= x
                <= f.width - 10
            &&& f.outcome(m) == MouseOutcome::ToggleMaximize <==> title && let_go && f.width - 66
                <= x <= f.width - 50
            &&& f.outcome(m) == MouseOutcome::Forward <==> !title && !(edge && m.left_button_hold)
        }),
{
    buttons_stand_at_the_right(m.coordinate.x as int, f.width as int);
}

/// A move begins when the left button goes down in the title bar off its buttons, and a
/// change of size while it is held near an edge. Both remember where the mouse was; one that
/// has begun goes on.
pub proof fn drags_begin_in_the_frame(f: WindowFrame, m: MousePositionEvent)
    requires
        f.wf(),
    ensures
        ({
            let x = m.coordinate.x as int;
            let y = m.coordinate.y as int;
            let title = 0 <= y < f.title_bar_height && 0 <= x < f.width;
            let edge = x <= 5 || x >= f.width - 5 || y <= 5 || y >= f.height - 5;
            let next = f.moving_after(m);
            &&& f.moving != WindowMovingStatus::Stationary ==> next == f.moving
            &&& f.moving == WindowMovingStatus::Stationary ==> {
                &&& next is Moving <==> title && button_at(x, f.width as int) is None
                    && !f.last_hold && m.left_button_hold
                &&& next is Resizing <==> !title && edge && m.left_button_hold
                &&& next matches WindowMovingStatus::Moving(at) ==> at == m.gcoordinate
                &&& next matches WindowMovingStatus::Resizing(at, e) ==> at == m.gcoordinate && e
                    == edge_of(y <= 5, y >= f.height - 5, x <= 5, x >= f.width - 5)
            }
        }),
{
}

/// The button under the mouse is shown as held or hovered; off the buttons all are at rest.
pub proof fn button_under_the_mouse_is_shown(f: WindowFrame, m: MousePositionEvent)
    requires
        f.wf(),
    ensures
        ({
            let x = m.coordinate.x as int;
            let title = 0 <= m.coordinate.y < f.title_bar_height && 0 <= x < f.width;
            let still = f.moving == WindowMovingStatus::Stationary;
            &&& !(title && still) ==> f.draw(m) == ButtonDraw::Unchanged
            &&& title && still && button_at(x, f.width as int) is None ==> f.draw(m)
                == ButtonDraw::AllIdle
            &&& title && still && button_at(x, f.width as int) is Some ==> (
            f.draw(m) matches ButtonDraw::One(b, s) && Some(b) == button_at(x, f.width as int) && (
            s == BtnState::Pressed <==> m.left_button_hold) && (s == BtnState::Hover
                <==> !m.left_button_hold))
        }),
{
}

/// What an event leaves to do for the window manager, besides what was to do before: while
/// the window is dragged, to show the frame and, once the button is up, to end the drag; else
/// to hide the window when minimize was released, to activate it when the button went down,
/// and to refresh the buttons after any event in the title bar.
pub proof fn events_leave_work_pending(f: WindowFrame, m: MousePositionEvent, p: PendingActions)
    requires
        f.wf(),
    ensures
        ({
            let x = m.coordinate.x as int;
            let title = 0 <= m.coordinate.y < f.title_bar_height && 0 <= x < f.width;
            let n = f.pending_after(m, p);
            let still = f.moving == WindowMovingStatus::Stationary;
            &&& p.finalise_move ==> n.finalise_move
            &&& p.refresh_buttons ==> n.refresh_buttons
            &&& p.refresh_float_border ==> n.refresh_float_border
            &&& p.hide_window ==> n.hide_window
            &&& p.set_active ==> n.set_active
            &&& !p.finalise_move ==> (n.finalise_move <==> !still && !m.left_button_hold)
            &&& !p.refresh_buttons ==> (n.refresh_buttons <==> still && title)
            &&& !p.refresh_float_border ==> (n.refresh_float_border <==> !(f.moving_after(m)
                == WindowMovingStatus::Stationary))
            &&& !p.hide_window ==> (n.hide_window <==> still && title && f.last_hold
                && !m.left_button_hold && f.width - 46 <= x <= f.width - 30)
            &&& !p.set_active ==> (n.set_active <==> still && !f.last_hold && m.left_button_hold)
            &&& f.after(m).last_hold == m.left_button_hold
            &&& f.after(m).position == f.position && f.after(m).width == f.width
                && f.after(m).height == f.height && f.after(m).restore_bounds == f.restore_bounds
        }),
{
    buttons_stand_at_the_right(m.coordinate.x as int, f.width as int);
}

/// Pending work is done once each, in a fixed order: hide, activate, refresh the buttons, show
/// the frame, end the drag.
pub proof fn pending_work_is_done_once(p: PendingActions)
    ensures
        ({
            let a = actions_of(p);
            &&& a.contains(ManagerAction::Hide) <==> p.hide_window
            &&& a.contains(ManagerAction::SetActive) <==> p.set_active
            &&& a.contains(ManagerAction::RefreshButtons) <==> p.refresh_buttons
            &&& a.contains(ManagerAction::MoveFloatingBorder) <==> p.refresh_float_border
            &&& a.contains(ManagerAction::MoveActiveWindow) <==> p.finalise_move
            &&& forall|i: int, j: int|
                0 <= i < j < a.len() ==> place_of(#[trigger] a[i]) < place_of(#[trigger] a[j])
        }),
{
    let e = Seq::<ManagerAction>::empty();
    let a = e + when(p.hide_window, ManagerAction::Hide);
    let b = a + when(p.set_active, ManagerAction::SetActive);
    let c = b + when(p.refresh_buttons, ManagerAction::RefreshButtons);
    let d = c + when(p.refresh_float_border, ManagerAction::MoveFloatingBorder);
    let f = d + when(p.finalise_move, ManagerAction::MoveActiveWindow);
    lemma_one_more(e, p.hide_window, ManagerAction::Hide);
    lemma_one_more(a, p.set_active, ManagerAction::SetActive);
    lemma_one_more(b, p.refresh_buttons, ManagerAction::RefreshButtons);
    lemma_one_more(c, p.refresh_float_border, ManagerAction::MoveFloatingBorder);
    lemma_one_more(d, p.finalise_move, ManagerAction::MoveActiveWindow);
    assert(a =~= when(p.hide_window, ManagerAction::Hide));
    assert(actions_of(p) == f);
}

/// Work is in order, and all of it before `end`.
spec fn in_order(s: Seq<ManagerAction>, end: int) -> bool {
    &&& forall|i: int, j: int|
        0 <= i < j < s.len() ==> place_of(#[trigger] s[i]) < place_of(#[trigger] s[j])
    &&& forall|i: int| 0 <= i < s.len() ==> place_of(#[trigger] s[i]) < end
}

/// One more piece of work at the end.
proof fn lemma_one_more(s: Seq<ManagerAction>, b: bool, a: ManagerAction)
    requires
        in_order(s, place_of(a)),
    ensures
        in_order(s + when(b, a), place_of(a) + 1),
        forall|x: ManagerAction| #[trigger]
            (s + when(b, a)).contains(x) <==> s.contains(x) || (b && x == a),
{
    let t = s + when(b, a);
    let n = s.len() as int;
    if b {
        assert(t[n] == a);
    }
    assert forall|x: ManagerAction| #[trigger] t.contains(x) <==> s.contains(x) || (b && x == a) by {
        if s.contains(x) {
            let i = choose|i: int| 0 <= i < s.len() && s[i] == x;
            assert(t[i] == x);
        }
        if t.contains(x) {
            let i = choose|i: int| 0 <= i < t.len() && t[i] == x;
            if i < n {
                assert(s[i] == x);
            }
        }
    }
    assert forall|i: int| 0 <= i < t.len() implies place_of(#[trigger] t[i]) < place_of(a) + 1 by {
        if i < n {
            assert(place_of(s[i]) < place_of(a));
        }
    }
    assert forall|i: int, j: int| 0 <= i < j < t.len() implies place_of(#[trigger] t[i]) < place_of(
        #[trigger] t[j],
    ) by {
        assert(t[i] == s[i]);
        assert(place_of(s[i]) < place_of(a));
    }
}

/// The order in which pending work is done.
pub open spec fn place_of(a: ManagerAction) -> int {
    match a {
        ManagerAction::Hide => 1,
        ManagerAction::SetActive => 2,
        ManagerAction::RefreshButtons => 3,
        ManagerAction::MoveFloatingBorder => 4,
        ManagerAction::MoveActiveWindow => 5,
    }
}

/// A title that fits between its margins is centered there, with 12 pixels to the left and 68
/// to the right; a longer one starts at the left margin. It stands in the middle of the bar.
pub proof fn title_is_centered(
    width: int,
    chars: int,
    char_width: int,
    title_bar_height: int,
    char_height: int,
)
    requires
        width >= 80,
        0 <= char_height <= title_bar_height,
    ensures
        title_end(width) == width - 68,
        ({
            let x = title_x(width, chars, char_width);
            let right = width - 68 - (x + chars * char_width);
            &&& chars * char_width >= width - 80 ==> x == 12
            &&& 0 <= chars * char_width < width - 80 ==> (x - 12 == right || x - 12 == right - 1)
        }),
        ({
            let y = title_y(title_bar_height, char_height);
            let below = title_bar_height - char_height - y;
            y == below || y == below - 1
        }),
{
}

/// The letters of a title stand side by side from its start. The last one drawn is the first
/// that reaches the end of the room for the title.
pub proof fn letters_stand_side_by_side(
    title: Seq<char>,
    i: int,
    x: int,
    y: int,
    char_width: int,
    end: int,
    color: u32,
    k: int,
)
    requires
        0 <= i <= title.len(),
        0 <= k < title.len() - i,
        char_width >= 0,
        forall|j: int| 0 <= j < title.len() ==> (#[trigger] title[j]) as int <= 255,
    ensures
        ({
            let g = glyphs(title, i, x, y, char_width, end, color);
            &&& g.len() <= title.len() - i
            &&& k < g.len() <==> k == 0 || x + k * char_width < end
            &&& k < g.len() ==> g[k] == (DrawOp::Glyph {
                at: Coord { x: (x + k * char_width) as isize, y: y as isize },
                code: title[i + k] as u8,
                color,
            })
        }),
    decreases title.len() - i,
{
    let code = title[i] as int;
    assert(code <= 255);
    let g = glyphs(title, i, x, y, char_width, end, color);
    let rest = glyphs(title, i + 1, x + char_width, y, char_width, end, color);
    if i + 1 < title.len() {
        letters_stand_side_by_side(title, i + 1, x + char_width, y, char_width, end, color, 0);
    }
    if k > 0 {
        let m = k - 1;
        letters_stand_side_by_side(title, i + 1, x + char_width, y, char_width, end, color, m);
        assert(x + char_width + m * char_width == x + k * char_width) by (nonlinear_arith)
            requires
                m == k - 1,
        ;
        assert(char_width <= k * char_width) by (nonlinear_arith)
            requires
                k >= 1,
                char_width >= 0,
        ;
        if x + char_width < end {
            if m < rest.len() {
                assert(g[k] == rest[m]);
            }
        } else {
            assert(g.len() == 1);
        }
    } else {
        assert(g[0] == (DrawOp::Glyph {
            at: Coord { x: x as isize, y: y as isize },
            code: code as u8,
            color,
        }));
        assert(x + 0 * char_width == x);
    }
}

/// A title bar is filled over the whole width, with a line at its lower end; that of the
/// active window is lighter, and has a line at its upper end too.
pub proof fn title_bar_is_filled(f: WindowFrame, active: bool)
    requires
        f.wf(),
    ensures
        ({
            let ops = title_bar_ops(f, active);
            let fill = |y: int, h: usize, color: u32|
                DrawOp::FillRectangle {
                    at: Coord { x: 0, y: y as isize },
                    width: f.width,
                    height: h,
                    color,
                };
            &&& active ==> ops.len() == 3 && ops[0] == fill(0, f.title_bar_height, 0x1A1B26)
                && ops[1] == fill(0, 1, 0x2F334D) && ops[2] == fill(
                f.title_bar_height - 1,
                1,
                0x7AA2F7,
            )
            &&& !active ==> ops.len() == 2 && ops[0] == fill(0, f.title_bar_height, 0x121212)
                && ops[1] == fill(f.title_bar_height - 1, 1, 0x292E42)
        }),
{
}

/// The border is drawn on the left, on the right and at the bottom, below the title bar,
/// brighter for the active window.
pub proof fn borders_surround_the_content(f: WindowFrame, active: bool, i: int)
    requires
        f.wf(),
        0 <= i < 3,
    ensures
        border_ops(f, active).len() == 3,
        border_ops(f, active)[i] matches DrawOp::FillRectangle { at, width, height, color } && color
            == (if active { 0x7AA2F7u32 } else { 0x292E42u32 }) && (i == 0 ==> at.x == 0 && at.y
            == f.title_bar_height && width == f.border_size && at.y + height == f.height) && (i == 1
            ==> at.x + f.border_size == f.width && at.y == f.title_bar_height && width
            == f.border_size && at.y + height == f.height) && (i == 2 ==> at.x == 0 && at.y
            + f.border_size == f.height && width == f.width && height == f.border_size),
{
}

/// A pixel of the upper corners is cut off exactly if it lies outside the quarter circle of
/// radius eight, on the left and, mirrored, on the right.
pub proof fn corners_are_round(width: int, n: int, i: int, j: int)
    requires
        58 <= width <= isize::MAX,
        0 <= n <= 64,
        0 <= i < 8,
        0 <= j < 8,
        8 * i + j < n,
    ensures
        ({
            let left = DrawOp::Transparent { at: Coord { x: i as isize, y: j as isize } };
            let right = DrawOp::Transparent {
                at: Coord { x: (width - 1 - i) as isize, y: j as isize },
            };
            let outside = (8 - i) * (8 - i) + (8 - j) * (8 - j) > 64;
            &&& cut_pixels(width, n).contains(left) <==> outside
            &&& cut_pixels(width, n).contains(right) <==> outside
        }),
    decreases n,
{
    let left = DrawOp::Transparent { at: Coord { x: i as isize, y: j as isize } };
    let right = DrawOp::Transparent { at: Coord { x: (width - 1 - i) as isize, y: j as isize } };
    let a = (n - 1) / 8;
    let b = (n - 1) % 8;
    let m = n - 1;
    let rest = cut_pixels(width, m);
    let all = cut_pixels(width, n);
    if 8 * i + j < m {
        corners_are_round(width, m, i, j);
        assert(a != i || b != j);
    } else {
        assert(a == i && b == j);
        lemma_corner_not_yet(width, m, i, j);
    }
    if is_cut(a, b) {
        let p = DrawOp::Transparent { at: Coord { x: a as isize, y: b as isize } };
        let q = DrawOp::Transparent { at: Coord { x: (width - a - 1) as isize, y: b as isize } };
        assert(all == rest.push(p).push(q));
        lemma_pushed_twice(rest, p, q, left);
        lemma_pushed_twice(rest, p, q, right);
    }
}

/// What holds of a sequence with two more items.
proof fn lemma_pushed_twice(s: Seq<DrawOp>, p: DrawOp, q: DrawOp, x: DrawOp)
    ensures
        s.push(p).push(q).contains(x) <==> s.contains(x) || x == p || x == q,
{
    let t = s.push(p).push(q);
    assert(t[s.len() as int] == p);
    assert(t[s.len() as int + 1] == q);
    if s.contains(x) {
        let i = choose|i: int| 0 <= i < s.len() && s[i] == x;
        assert(t[i] == x);
    }
    if t.contains(x) {
        let i = choose|i: int| 0 <= i < t.len() && t[i] == x;
        if i < s.len() {
            assert(s[i] == x);
        }
    }
}

/// A pixel is not cut before its turn.
proof fn lemma_corner_not_yet(width: int, n: int, i: int, j: int)
    requires
        58 <= width <= isize::MAX,
        0 <= n <= 64,
        0 <= i < 8,
        0 <= j < 8,
        n <= 8 * i + j,
    ensures
        !cut_pixels(width, n).contains(
            DrawOp::Transparent { at: Coord { x: i as isize, y: j as isize } },
        ),
        !cut_pixels(width, n).contains(
            DrawOp::Transparent { at: Coord { x: (width - 1 - i) as isize, y: j as isize } },
        ),
    decreases n,
{
    if n > 0 {
        let m = n - 1;
        lemma_corner_not_yet(width, m, i, j);
        let a = (n - 1) / 8;
        let b = (n - 1) % 8;
        assert(a != i || b != j);
        let left = DrawOp::Transparent { at: Coord { x: i as isize, y: j as isize } };
        let right = DrawOp::Transparent { at: Coord { x: (width - 1 - i) as isize, y: j as isize } };
        let p = DrawOp::Transparent { at: Coord { x: a as isize, y: b as isize } };
        let q = DrawOp::Transparent { at: Coord { x: (width - a - 1) as isize, y: b as isize } };
        if is_cut(a, b) {
            lemma_pushed_twice(cut_pixels(width, m), p, q, left);
            lemma_pushed_twice(cut_pixels(width, m), p, q, right);
        }
    }
}

/// A button is a disc of radius six in the middle of the title bar; one that is not at rest
/// shows its sign: a cross, a square or a dash, two pixels to each side.
pub proof fn buttons_show_their_sign(f: WindowFrame, b: Button, s: BtnState)
    requires
        f.wf(),
    ensures
        ({
            let ops = button_ops(f, b, s);
            let x = button_center(b, f.width as int);
            let y = f.title_bar_height as int / 2;
            let at = |dx: int, dy: int| Coord { x: (x + dx) as isize, y: (y + dy) as isize };
            &&& ops[0] == (DrawOp::FillCircle {
                center: at(0, 0),
                radius: 6,
                color: button_color(b, s),
            })
            &&& s == BtnState::Idle ==> ops.len() == 1
            &&& s != BtnState::Idle && b == Button::Minimize ==> ops.len() == 2 && ops[1] == (
            DrawOp::Line { from: at(-2, 0), to: at(2, 0) })
            &&& s != BtnState::Idle && b == Button::Close ==> ops.len() == 3 && ops[1] == (
            DrawOp::Line { from: at(-2, -2), to: at(2, 2) }) && ops[2] == (DrawOp::Line {
                from: at(2, -2),
                to: at(-2, 2),
            })
            &&& s != BtnState::Idle && b == Button::Maximize ==> ops.len() == 5 && ops[1] == (
            DrawOp::Line { from: at(-2, -2), to: at(2, -2) }) && ops[2] == (DrawOp::Line {
                from: at(-2, 2),
                to: at(2, 2),
            }) && ops[3] == (DrawOp::Line { from: at(-2, -2), to: at(-2, 2) }) && ops[4] == (
            DrawOp::Line { from: at(2, -2), to: at(2, 2) })
        }),
{
    buttons_stand_at_the_right(0, f.width as int);
}

/// Decorations are drawn from the back: the title bar, the borders, the corners and then the
/// three buttons, at rest.
pub proof fn buttons_are_drawn_last(
    f: WindowFrame,
    title_bar: Seq<DrawOp>,
    borders: Seq<DrawOp>,
)
    ensures
        ({
            let ops = decoration_ops(f, title_bar, borders);
            let n = title_bar.len() as int;
            let m = n + borders.len();
            let k = m + cut_pixels(f.width as int, 64).len();
            &&& ops.len() == k + 3
            &&& ops.subrange(0, n) == title_bar
            &&& ops.subrange(n, m) == borders
            &&& ops.subrange(m, k) == cut_pixels(f.width as int, 64)
            &&& seq![ops[k]] == button_ops(f, Button::Close, BtnState::Idle)
            &&& seq![ops[k + 1]] == button_ops(f, Button::Minimize, BtnState::Idle)
            &&& seq![ops[k + 2]] == button_ops(f, Button::Maximize, BtnState::Idle)
        }),
{
    let ops = decoration_ops(f, title_bar, borders);
    let n = title_bar.len() as int;
    let m = n + borders.len();
    let cut = cut_pixels(f.width as int, 64);
    let k = m + cut.len();
    assert(ops.subrange(0, n) =~= title_bar);
    assert(ops.subrange(n, m) =~= borders);
    assert(ops.subrange(m, k) =~= cut);
    assert(seq![ops[k]] =~= button_ops(f, Button::Close, BtnState::Idle));
    assert(seq![ops[k + 1]] =~= button_ops(f, Button::Minimize, BtnState::Idle));
    assert(seq![ops[k + 2]] =~= button_ops(f, Button::Maximize, BtnState::Idle));
}

/// A row of a glyph has a pixel for each bit that is set, the highest bit at the left.
pub proof fn glyph_rows_show_their_bits(bits: u8, at: Coord, n: int, k: int)
    requires
        0 <= k < n <= 8,
        at.x + 8 <= isize::MAX,
    ensures
        row_pixels(bits, at, n).contains(Coord { x: (at.x + k) as isize, y: at.y })
            <==> crate::usb_hid::keymap::bit(bits, 7 - k),
        row_pixels(bits, at, n).len() <= n,
    decreases n,
{
    let c = Coord { x: (at.x + k) as isize, y: at.y };
    let m = n - 1;
    let all = row_pixels(bits, at, n);
    let rest = row_pixels(bits, at, m);
    let own = Coord { x: (at.x + n - 1) as isize, y: at.y };
    if k < m {
        glyph_rows_show_their_bits(bits, at, m, k);
    } else {
        lemma_pixel_not_yet(bits, at, m, k);
    }
    if crate::usb_hid::keymap::bit(bits, 8 - n) {
        assert(all == rest.push(own));
        assert(all[rest.len() as int] == own);
        if rest.contains(c) {
            let i = choose|i: int| 0 <= i < rest.len() && rest[i] == c;
            assert(all[i] == c);
        }
        if all.contains(c) && c != own {
            let i = choose|i: int| 0 <= i < all.len() && all[i] == c;
            assert(rest[i] == c);
        }
    }
}

/// A pixel is not drawn before its turn.
proof fn lemma_pixel_not_yet(bits: u8, at: Coord, n: int, k: int)
    requires
        0 <= n <= k < 8,
        at.x + 8 <= isize::MAX,
    ensures
        !row_pixels(bits, at, n).contains(Coord { x: (at.x + k) as isize, y: at.y }),
        row_pixels(bits, at, n).len() <= n,
    decreases n,
{
    let c = Coord { x: (at.x + k) as isize, y: at.y };
    if n > 0 {
        let m = n - 1;
        lemma_pixel_not_yet(bits, at, m, k);
        let all = row_pixels(bits, at, n);
        let rest = row_pixels(bits, at, m);
        if all.contains(c) {
            let i = choose|i: int| 0 <= i < all.len() && all[i] == c;
            if i < rest.len() {
                assert(rest[i] == c);
            }
        }
    }
}

} // verus!
