//! TTY terminal backend.
pub mod diff;
pub mod event;
pub mod runtime;

use crate::char_cell::CharCell;
use crate::color::{Rgba, X256Color};
use crate::event::{Key, KeyTyped, MouseState};
use crate::exec::{advances_to, Advance, Executor, FrameFuture, FrameTask};
use crate::tty::runtime::{half_blocks, Runtime};
use crate::BackendType;
use vstd::prelude::*;

verus! {

/// Run the task for one frame. If the task goes on after it, the frame
/// boundary is crossed: the key press of the frame is dropped and the
/// mouse moves on.
pub fn frame<T: FrameTask<Runtime>>(runtime: &mut Runtime, executor: &mut Executor<T>) -> (result:
    Advance)
    ensures
        exists|resumed: Runtime|
            {
                &&& #[trigger] advances_to(
                    *old(executor),
                    *old(runtime),
                    *final(executor),
                    resumed,
                    result,
                )
                &&& final(runtime)@ == (if result == Advance::Yielded {
                    resumed@.next_frame()
                } else {
                    resumed@
                })
            },
{
    let result = executor.advance(runtime);
    let ghost resumed = *runtime;
    match result {
        Advance::Yielded => {
            runtime.end_frame();
        },
        Advance::Terminated => {},
    }
    assert(advances_to(*old(executor), *old(runtime), *final(executor), resumed, result));
    result
}

/// A terminal has its own palette: nothing happens.
pub fn set_palette(runtime: &mut Runtime, _palette: &[Rgba; 16])
    ensures
        *final(runtime) == *old(runtime),
{
}

/// The palette colors that `quantize` picks for a buffer of pixels.
pub fn quantized<F: Fn(Rgba) -> X256Color>(buffer: &[Rgba], quantize: &F) -> (picked: Vec<
    X256Color,
>)
    requires
        forall|c: Rgba| call_requires(quantize, (c,)),
    ensures
        picked@.len() == buffer@.len(),
        forall|i: int|
            0 <= i < buffer@.len() ==> call_ensures(quantize, (buffer@[i],), #[trigger] picked@[i]),
{
    let mut picked: Vec<X256Color> = Vec::new();
    let mut i: usize = 0;
    while i < buffer.len()
        invariant
            i <= buffer@.len(),
            picked@.len() == i,
            forall|c: Rgba| call_requires(quantize, (c,)),
            forall|j: int|
                0 <= j < i ==> call_ensures(quantize, (buffer@[j],), #[trigger] picked@[j]),
        decreases buffer@.len() - i,
    {
        picked.push(quantize(buffer[i]));
        i += 1;
    }
    picked
}

/// Draw a pixel buffer of `w` by `h` pixels, each in the palette color that
/// `quantize` picks for it, two pixel rows to a row of cells. The result
/// is to be waited for until the frame is over.
pub fn draw_pixels<F: Fn(Rgba) -> X256Color>(
    runtime: &mut Runtime,
    w: u32,
    h: u32,
    buffer: &[Rgba],
    quantize: F,
) -> (shown: FrameFuture)
    requires
        buffer@.len() == w as int * h as int,
        forall|c: Rgba| call_requires(quantize, (c,)),
    ensures
        !shown.waited(),
        exists|picked: Seq<X256Color>|
            {
                &&& picked.len() == buffer@.len()
                &&& forall|i: int|
                    0 <= i < buffer@.len() ==> call_ensures(
                        quantize,
                        (buffer@[i],),
                        #[trigger] picked[i],
                    )
                &&& final(runtime)@ == old(runtime)@.after_draw(
                    w,
                    (h / 2) as u32,
                    half_blocks(picked, w as int, h as int),
                    2,
                )
            },
{
    let picked = quantized(buffer, &quantize);
    runtime.draw_pixels(w, h, picked.as_slice());
    FrameFuture::new()
}

/// Draw a character buffer of `w` by `h` cells. The result is to be waited
/// for until the frame is over.
pub fn draw_chars(runtime: &mut Runtime, w: u32, h: u32, buffer: &[CharCell]) -> (shown:
    FrameFuture)
    requires
        buffer@.len() == w as int * h as int,
    ensures
        !shown.waited(),
        final(runtime)@ == old(runtime)@.after_draw(w, h, buffer@, 1),
{
    runtime.draw_chars(w, h, buffer);
    FrameFuture::new()
}

/// Resolution of the terminal in pixels, at two pixels per cell.
pub fn pixel_resolution(runtime: &Runtime) -> (size: (u32, u32))
    ensures
        size == (runtime@.screen.cols as u32, (runtime@.screen.rows * 2) as u32),
{
    runtime.pixel_resolution()
}

/// Resolution of the terminal in cells. The limits have no effect: the
/// size of the cells of a terminal cannot be changed.
pub fn char_resolution(runtime: &Runtime, _max_w: u32, _max_h: u32) -> (size: (u32, u32))
    ensures
        size == (runtime@.screen.cols as u32, runtime@.screen.rows as u32),
{
    runtime.char_resolution()
}

/// Whether a key is held down: never, as far as a terminal can tell.
pub fn is_down(runtime: &Runtime, key: Key) -> (down: bool)
    ensures
        !down,
{
    runtime.is_down(key)
}

/// The key press of the current frame.
pub fn keypress(runtime: &Runtime) -> (typed: KeyTyped)
    ensures
        typed == runtime@.current_key(),
{
    runtime.keypress()
}

/// The mouse state of the current frame.
pub fn mouse_state(runtime: &Runtime) -> (state: MouseState)
    ensures
        state == runtime@.mouse,
{
    runtime.mouse_state()
}

pub fn backend_type() -> (kind: BackendType)
    ensures
        kind == BackendType::Tty,
{
    BackendType::Tty
}

} // verus!
