//! Graphical desktop application backend.
pub mod event;
pub mod held;
pub mod runtime;

use crate::char_cell::CharCell;
use crate::color::Rgba;
use crate::event::{Key, KeyTyped, MouseState};
use crate::exec::{advances_to, Advance, Executor, FrameFuture, FrameTask};
use crate::gui::runtime::{Font, GuiState, Runtime};
use crate::BackendType;
use vstd::prelude::*;

verus! {

/// Run the task for one frame of the window, which stands for `n_frames`
/// logical frames; with none of them due, nothing happens and there is no
/// result. If the task goes on after its frame, the frame boundary is
/// crossed: the key press of the frame is dropped and the mouse moves on.
/// The window is to be closed when the result is `Terminated`.
pub fn frame<T: FrameTask<Runtime>>(
    runtime: &mut Runtime,
    executor: &mut Executor<T>,
    n_frames: u32,
) -> (result: Option<Advance>)
    ensures
        match result {
            None => n_frames == 0 && *final(runtime) == *old(runtime) && *final(executor) == *old(
                executor,
            ),
            Some(advance) => n_frames > 0 && exists|due: Runtime, resumed: Runtime|
                {
                    &&& due@ == (GuiState { logical_frame_count: n_frames, ..old(runtime)@ })
                    &&& #[trigger] advances_to(
                        *old(executor),
                        due,
                        *final(executor),
                        resumed,
                        advance,
                    )
                    &&& final(runtime)@ == (if advance == Advance::Yielded {
                        resumed@.next_frame()
                    } else {
                        resumed@
                    })
                },
        },
{
    if n_frames == 0 {
        return None;
    }
    // One or more frames have elapsed, tick the state machine.
    runtime.set_logical_frame_count(n_frames);
    let ghost due = *runtime;
    let result = executor.advance(runtime);
    let ghost resumed = *runtime;
    match result {
        Advance::Yielded => {
            // Update input state machines.
            runtime.end_frame();
        },
        Advance::Terminated => {},
    }
    assert(due@ == (GuiState { logical_frame_count: n_frames, ..old(runtime)@ }));
    assert(advances_to(*old(executor), due, *final(executor), resumed, result));
    assert(final(runtime)@ == (if result == Advance::Yielded {
        resumed@.next_frame()
    } else {
        resumed@
    }));
    Some(result)
}

/// Set a custom bitmap font.
pub fn set_font(runtime: &mut Runtime, font: Font)
    ensures
        final(runtime)@ == (GuiState { font: font@, ..old(runtime)@ }),
{
    runtime.set_font(font);
}

/// Set the system color palette.
pub fn set_palette(runtime: &mut Runtime, palette: &[Rgba; 16])
    ensures
        final(runtime)@ == (GuiState { palette: palette@, ..old(runtime)@ }),
{
    runtime.set_palette(palette);
}

/// Draw a pixel buffer of `w` by `h` pixels. The result is to be waited
/// for until the frame is over.
pub fn draw_pixels(runtime: &mut Runtime, w: u32, h: u32, buffer: &[Rgba]) -> (shown: FrameFuture)
    requires
        buffer@.len() == w as int * h as int,
    ensures
        !shown.waited(),
        final(runtime)@ == old(runtime)@.after_draw_pixels(w, h, buffer@),
{
    runtime.draw_pixels(w, h, buffer);
    FrameFuture::new()
}

/// Draw a character buffer of `w` by `h` cells. The result is to be waited
/// for until the frame is over.
pub fn draw_chars(runtime: &mut Runtime, w: u32, h: u32, buffer: &[CharCell]) -> (shown:
    FrameFuture)
    requires
        buffer@.len() == w as int * h as int,
    ensures
        !shown.waited(),
        final(runtime)@ == old(runtime)@.after_draw_chars(w, h, buffer@),
{
    runtime.draw_chars(w, h, buffer);
    FrameFuture::new()
}

/// Resolution of the window in pixels.
pub fn pixel_resolution(runtime: &Runtime) -> (size: (u32, u32))
    ensures
        size == runtime@.window,
{
    runtime.pixel_resolution()
}

/// Resolution of the window in character cells, zoomed so that there are no
/// more than `max_w` columns and `max_h` rows. A limit of zero is none.
pub fn char_resolution(runtime: &Runtime, max_w: u32, max_h: u32) -> (size: (u32, u32))
    ensures
        runtime@.char_resolution_is(max_w, max_h, size),
{
    runtime.char_resolution(max_w, max_h)
}

/// Whether a key is held down. Letter keys go by their small letter.
pub fn is_down(runtime: &Runtime, key: Key) -> (down: bool)
    ensures
        down == runtime@.held.contains(key),
{
    runtime.is_down(key)
}

/// The key press of the current frame.
pub fn keypress(runtime: &Runtime) -> (typed: KeyTyped)
    ensures
        typed == runtime@.current_key(),
{
    runtime.keypress()
}

/// The mouse state of the current frame.
pub fn mouse_state(runtime: &Runtime) -> (state: MouseState)
    ensures
        state == runtime@.mouse,
{
    runtime.mouse_state()
}

pub fn backend_type() -> (kind: BackendType)
    ensures
        kind == BackendType::Gui,
{
    BackendType::Gui
}

} // verus!
