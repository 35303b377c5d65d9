//! Per-frame rendering and input for applications that draw character or
//! pixel buffers, on a character terminal or in a window alike.
//!
//! The library computes and never does input or output itself: a host
//! hands it the raw events of its display and carries out the drawing
//! operations it gets back. The application runs as a task that the host
//! advances by one frame at a time.
use vstd::prelude::*;

pub mod char_cell;
pub mod color;
pub mod directory;
pub mod event;
pub mod exec;
pub mod gui;
pub mod orthotope;
pub mod scene;
pub mod text;
pub mod tty;

pub use char_cell::CharCell;
pub use color::{Rgba, X256Color};
pub use directory::Directory;
pub use event::{InvalidEncoding, Key, KeyMods, KeyTyped, MouseButton, MouseState};
pub use exec::{Advance, Executor, FrameFuture, FrameTask, Step};

use gui::runtime::{Font, GuiState};
use tty::runtime::{half_blocks, TtyState};

verus! {

/// Which kind of host display a backend drives.
#[derive(Copy, Clone, PartialEq, Eq, Structural, PartialOrd, Ord, Hash, Debug)]
pub enum BackendType {
    Tty,
    Gui,
}

/// The backend of an application, chosen once when it starts.
pub enum Backend {
    Tty(tty::runtime::Runtime),
    Gui(gui::runtime::Runtime),
}

/// What a backend knows between two events.
pub enum BackendState {
    Tty(TtyState),
    Gui(GuiState),
}

impl View for Backend {
    type V = BackendState;

    open spec fn view(&self) -> BackendState {
        match *self {
            Backend::Tty(runtime) => BackendState::Tty(runtime@),
            Backend::Gui(runtime) => BackendState::Gui(runtime@),
        }
    }
}

impl BackendState {
    /// The state at the start of the next frame.
    pub open spec fn next_frame(self) -> BackendState {
        match self {
            BackendState::Tty(state) => BackendState::Tty(state.next_frame()),
            BackendState::Gui(state) => BackendState::Gui(state.next_frame()),
        }
    }

    /// The state when `n_frames` logical frames are due.
    pub open spec fn due(self, n_frames: u32) -> BackendState {
        match self {
            BackendState::Tty(state) => BackendState::Tty(state),
            BackendState::Gui(state) => BackendState::Gui(
                GuiState { logical_frame_count: n_frames, ..state },
            ),
        }
    }

    /// The key press that the current frame sees.
    pub open spec fn current_key(self) -> KeyTyped {
        match self {
            BackendState::Tty(state) => state.current_key(),
            BackendState::Gui(state) => state.current_key(),
        }
    }

    /// The mouse state that the current frame sees.
    pub open spec fn mouse(self) -> MouseState {
        match self {
            BackendState::Tty(state) => state.mouse,
            BackendState::Gui(state) => state.mouse,
        }
    }
}

/// Run the task for one frame of the display, which stands for `n_frames`
/// logical frames; with none of them due, nothing happens and there is no
/// result. If the task goes on after its frame, the frame boundary is
/// crossed: the key press of the frame is dropped and the mouse moves on.
/// The host is to stop when the result is `Terminated`.
pub fn frame<T: FrameTask<Backend>>(
    backend: &mut Backend,
    executor: &mut Executor<T>,
    n_frames: u32,
) -> (result: Option<Advance>)
    ensures
        match result {
            None => n_frames == 0 && *final(backend) == *old(backend) && *final(executor) == *old(
                executor,
            ),
            Some(advance) => n_frames > 0 && exists|due: Backend, resumed: Backend|
                {
                    &&& due@ == old(backend)@.due(n_frames)
                    &&& #[trigger] exec::advances_to(
                        *old(executor),
                        due,
                        *final(executor),
                        resumed,
                        advance,
                    )
                    &&& final(backend)@ == (if advance == Advance::Yielded {
                        resumed@.next_frame()
                    } else {
                        resumed@
                    })
                },
        },
{
    if n_frames == 0 {
        return None;
    }
    match backend {
        Backend::Tty(_) => {},
        Backend::Gui(runtime) => runtime.set_logical_frame_count(n_frames),
    }
    let ghost due = *backend;
    let result = executor.advance(backend);
    let ghost resumed = *backend;
    match result {
        Advance::Yielded => {
            match backend {
                Backend::Tty(runtime) => runtime.end_frame(),
                Backend::Gui(runtime) => runtime.end_frame(),
            }
        },
        Advance::Terminated => {},
    }
    assert(due@ == old(backend)@.due(n_frames));
    assert(exec::advances_to(*old(executor), due, *final(executor), resumed, result));
    assert(final(backend)@ == (if result == Advance::Yielded {
        resumed@.next_frame()
    } else {
        resumed@
    }));
    Some(result)
}

/// Set a custom bitmap font.
///
/// Has no effect on TTY backends, they always use the font provided by the
/// operating system terminal.
pub fn set_font(backend: &mut Backend, font: Font)
    ensures
        final(backend)@ == (match old(backend)@ {
            BackendState::Tty(state) => BackendState::Tty(state),
            BackendState::Gui(state) => BackendState::Gui(GuiState { font: font@, ..state }),
        }),
{
    match backend {
        Backend::Tty(_) => {},
        Backend::Gui(runtime) => runtime.set_font(font),
    }
}

/// Set the system color palette.
///
/// Has no effect on TTY backends, they always use the palette provided by the
/// operating system terminal.
pub fn set_palette(backend: &mut Backend, palette: &[Rgba; 16])
    ensures
        final(backend)@ == (match old(backend)@ {
            BackendState::Tty(state) => BackendState::Tty(state),
            BackendState::Gui(state) => BackendState::Gui(
                GuiState { palette: palette@, ..state },
            ),
        }),
{
    match backend {
        Backend::Tty(_) => {},
        Backend::Gui(runtime) => runtime.set_palette(palette),
    }
}

/// Draw a pixel buffer of a given size.
///
/// A window shows the pixels as they are. A terminal shows each pixel in
/// the palette color that `quantize` picks for it, two pixel rows to a row
/// of cells.
///
/// The result is to be waited for, which lets the backend go on to the
/// next frame.
pub fn draw_pixels<F: Fn(Rgba) -> X256Color>(
    backend: &mut Backend,
    w: u32,
    h: u32,
    buffer: &[Rgba],
    quantize: F,
) -> (shown: FrameFuture)
    requires
        buffer@.len() == w as int * h as int,
        forall|c: Rgba| call_requires(quantize, (c,)),
    ensures
        !shown.waited(),
        match old(backend)@ {
            BackendState::Tty(state) => exists|picked: Seq<X256Color>|
                {
                    &&& picked.len() == buffer@.len()
                    &&& forall|i: int|
                        0 <= i < buffer@.len() ==> call_ensures(
                            quantize,
                            (buffer@[i],),
                            #[trigger] picked[i],
                        )
                    &&& final(backend)@ == BackendState::Tty(
                        state.after_draw(
                            w,
                            (h / 2) as u32,
                            half_blocks(picked, w as int, h as int),
                            2,
                        ),
                    )
                },
            BackendState::Gui(state) => final(backend)@ == BackendState::Gui(
                state.after_draw_pixels(w, h, buffer@),
            ),
        },
{
    match backend {
        Backend::Tty(runtime) => tty::draw_pixels(runtime, w, h, buffer, quantize),
        Backend::Gui(runtime) => gui::draw_pixels(runtime, w, h, buffer),
    }
}

/// Draw a character buffer of a given size.
///
/// The result is to be waited for, which lets the backend go on to the
/// next frame.
pub fn draw_chars(backend: &mut Backend, w: u32, h: u32, buffer: &[CharCell]) -> (shown:
    FrameFuture)
    requires
        buffer@.len() == w as int * h as int,
    ensures
        !shown.waited(),
        final(backend)@ == (match old(backend)@ {
            BackendState::Tty(state) => BackendState::Tty(state.after_draw(w, h, buffer@, 1)),
            BackendState::Gui(state) => BackendState::Gui(state.after_draw_chars(w, h, buffer@)),
        }),
{
    match backend {
        Backend::Tty(runtime) => tty::draw_chars(runtime, w, h, buffer),
        Backend::Gui(runtime) => gui::draw_chars(runtime, w, h, buffer),
    }
}

/// Return pixel resolution of the window.
pub fn pixel_resolution(backend: &Backend) -> (size: (u32, u32))
    ensures
        size == (match backend@ {
            BackendState::Tty(state) => (state.screen.cols as u32, (state.screen.rows * 2) as u32),
            BackendState::Gui(state) => state.window,
        }),
{
    match backend {
        Backend::Tty(runtime) => tty::pixel_resolution(runtime),
        Backend::Gui(runtime) => gui::pixel_resolution(runtime),
    }
}

/// Return char cell resolution of the window, depends on font size.
///
/// On GUI backends, if it looks like the terminal would get more than the
/// given maximum of characters along either dimension, the characters are
/// zoomed up to fit within the bounds. TTY backends ignore `max_w` and
/// `max_h` and always report the actual terminal dimensions.
///
/// Zero values of `max_w` and `max_h` cause no adjustment to be done along
/// that dimension.
pub fn char_resolution(backend: &Backend, max_w: u32, max_h: u32) -> (size: (u32, u32))
    ensures
        match backend@ {
            BackendState::Tty(state) => size == (state.screen.cols as u32, state.screen.rows as u32),
            BackendState::Gui(state) => state.char_resolution_is(max_w, max_h, size),
        },
{
    match backend {
        Backend::Tty(runtime) => tty::char_resolution(runtime, max_w, max_h),
        Backend::Gui(runtime) => gui::char_resolution(runtime, max_w, max_h),
    }
}

/// Return if given key is currently held down.
///
/// Letter keys are represented by lowercase printable letters no matter
/// what shift status is. This is not supported on TTY backends and always
/// returns false there.
pub fn is_down(backend: &Backend, key: Key) -> (down: bool)
    ensures
        down == (match backend@ {
            BackendState::Tty(_) => false,
            BackendState::Gui(state) => state.held.contains(key),
        }),
{
    match backend {
        Backend::Tty(runtime) => tty::is_down(runtime, key),
        Backend::Gui(runtime) => gui::is_down(runtime, key),
    }
}

/// Return keypress from last frame.
///
/// Only one keypress per frame is supported.
pub fn keypress(backend: &Backend) -> (typed: KeyTyped)
    ensures
        typed == backend@.current_key(),
{
    match backend {
        Backend::Tty(runtime) => tty::keypress(runtime),
        Backend::Gui(runtime) => gui::keypress(runtime),
    }
}

/// Return mouse action state from last frame.
pub fn mouse_state(backend: &Backend) -> (state: MouseState)
    ensures
        state == backend@.mouse(),
{
    match backend {
        Backend::Tty(runtime) => tty::mouse_state(runtime),
        Backend::Gui(runtime) => gui::mouse_state(runtime),
    }
}

pub fn backend_type(backend: &Backend) -> (kind: BackendType)
    ensures
        kind == (match backend@ {
            BackendState::Tty(_) => BackendType::Tty,
            BackendState::Gui(_) => BackendType::Gui,
        }),
{
    match backend {
        Backend::Tty(_) => tty::backend_type(),
        Backend::Gui(_) => gui::backend_type(),
    }
}

} // verus!
