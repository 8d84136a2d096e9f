//! Entry-point and panic state machine: the strictly sequential boot
//! flow from loader handoff to halt.
//!
//! The entry point negotiates once with the loader. On success it binds
//! the diagnostic console to the framebuffer's character grid, logs two
//! status lines, and paints the boot-time test block to prove the pixel
//! pipeline is live; on failure it binds the fallback text sink and logs
//! one failure line. Either way the machine ends `Halted`; the halt loop
//! itself is the caller's, since nothing here may fail to return. The
//! panic path writes its message best-effort, tolerating a console that
//! was never bound, and also ends `Halted`.

use crate::console::{fresh_grid, write_line_model, Console, GridView};
use crate::framebuffer::{color_byte, pixel_offset, rect_covers, Color, FramebufferDescriptor, Surface};
use crate::negotiate::{negotiate, negotiation, BootRequest, LoaderReply};
use vstd::prelude::*;

verus! {

/// The color of the boot-time test block.
pub const TEST_COLOR: Color = 0x00FF00FF;

/// Requested side, in pixels, of the boot-time test block.
pub const TEST_BLOCK: usize = 100;

/// Pixel width and height of one character cell of the framebuffer
/// console's fixed-size glyphs.
pub const GLYPH_WIDTH: usize = 8;

pub const GLYPH_HEIGHT: usize = 16;

/// Dimensions of the fallback text sink used when no framebuffer can
/// back the console.
pub const FALLBACK_COLS: usize = 80;

pub const FALLBACK_ROWS: usize = 25;

/// States of the boot flow. `Halted` is terminal: it is reached after
/// the demonstration draw, after a failed negotiation, or from any state
/// through the panic handler, and there is no recovery from it.
#[derive(Clone, Copy, PartialEq, Eq, Structural, Debug)]
pub enum Stage {
    Booting,
    RunningWithFramebuffer,
    RunningDegraded,
    Halted,
}

/// Width of the test block actually drawn: the requested side, clamped
/// to the framebuffer.
pub open spec fn test_block_w(d: FramebufferDescriptor) -> int {
    if d.width < TEST_BLOCK {
        d.width as int
    } else {
        TEST_BLOCK as int
    }
}

/// Height of the test block actually drawn.
pub open spec fn test_block_h(d: FramebufferDescriptor) -> int {
    if d.height < TEST_BLOCK {
        d.height as int
    } else {
        TEST_BLOCK as int
    }
}

/// Character grid dimensions of the console bound to a framebuffer: one
/// cell per glyph, falling back to the fixed text sink dimensions when
/// the framebuffer is too small for even one glyph (or absurdly large).
pub open spec fn console_dims(d: FramebufferDescriptor) -> (int, int) {
    let c = d.width as int / GLYPH_WIDTH as int;
    let r = d.height as int / GLYPH_HEIGHT as int;
    if 0 < c && 0 < r && r * c <= usize::MAX {
        (c, r)
    } else {
        (FALLBACK_COLS as int, FALLBACK_ROWS as int)
    }
}

/// The console grid owed after the boot flow, for a given request and
/// loader reply: two status lines on the framebuffer-backed grid after a
/// successful negotiation, one failure line on the fallback sink after a
/// failed one.
pub open spec fn boot_console_view(req: BootRequest, reply: Option<LoaderReply>) -> GridView {
    match negotiation(req, reply) {
        Option::None => write_line_model(
            fresh_grid(FALLBACK_COLS as int, FALLBACK_ROWS as int),
            "Failed to get framebuffer!"@,
        ),
        Option::Some(descs) => write_line_model(
            write_line_model(
                fresh_grid(console_dims(descs[0]).0, console_dims(descs[0]).1),
                "Welcome to Sunkist OS!"@,
            ),
            "Booted with Limine."@,
        ),
    }
}

/// The demonstration surface owed after a successful negotiation over
/// descriptor `d`: the test block painted in `TEST_COLOR` at the origin
/// of an otherwise untouched (all-zero) region.
pub open spec fn demo_surface_ok(d: FramebufferDescriptor, s: Surface) -> bool {
    &&& s.wf()
    &&& s.desc == d
    &&& s.bytes@.len() == d.height * d.pitch
    &&& (forall|x: int, y: int, k: int|
        0 <= x < test_block_w(d) && 0 <= y < test_block_h(d) && 0 <= k < 4
            ==> s.bytes@[pixel_offset(d, x, y) + k] == color_byte(TEST_COLOR, k))
    &&& (forall|i: int|
        0 <= i < s.bytes@.len() && !rect_covers(d, 0, 0, test_block_w(d), test_block_h(d), i)
            ==> s.bytes@[i] == 0u8)
}

/// The boot flow from loader handoff to halt.
///
/// Negotiates once; on success binds the console to the first usable
/// framebuffer, logs the two status lines and paints the test block; on
/// failure binds the fallback sink and logs exactly one failure line,
/// with no surface and hence no pixel write. Always ends `Halted`.
pub fn run_boot(request: &BootRequest, reply: Option<LoaderReply>, console: &mut Console) -> (r: (
    Option<Surface>,
    Stage,
))
    requires
        *old(console) is Uninitialized,
    ensures
        r.1 is Halted,
        final(console).wf(),
        *final(console) matches Console::Ready(g) && g@ == boot_console_view(*request, reply),
        negotiation(*request, reply) is None ==> r.0 is None,
        negotiation(*request, reply) matches Some(descs) ==> (r.0 matches Some(s)
            && demo_surface_ok(descs[0], s)),
{
    match negotiate(request, reply) {
        Option::Some(resp) => {
            let d = resp.framebuffers[0];
            let c = d.width / GLYPH_WIDTH;
            let rws = d.height / GLYPH_HEIGHT;
            let mut cols: usize = FALLBACK_COLS;
            let mut rows: usize = FALLBACK_ROWS;
            if c > 0 && rws > 0 {
                match rws.checked_mul(c) {
                    Option::Some(_) => {
                        cols = c;
                        rows = rws;
                    },
                    Option::None => {
                    },
                }
            }
            proof {
                assert(cols as int == console_dims(d).0 && rows as int == console_dims(d).1);
            }
            console.bind(cols, rows);
            console.write_line("Welcome to Sunkist OS!");
            console.write_line("Booted with Limine.");
            let mut surface = Surface::new(d);
            let bw = if d.width < TEST_BLOCK {
                d.width
            } else {
                TEST_BLOCK
            };
            let bh = if d.height < TEST_BLOCK {
                d.height
            } else {
                TEST_BLOCK
            };
            surface.draw_rect(0, 0, bw, bh, TEST_COLOR);
            (Option::Some(surface), Stage::Halted)
        },
        Option::None => {
            console.bind(FALLBACK_COLS, FALLBACK_ROWS);
            console.write_line("Failed to get framebuffer!");
            (Option::None, Stage::Halted)
        },
    }
}

/// The panic boundary: write the flattened panic message best-effort and
/// end `Halted`. The write is a guaranteed no-op on a console that was
/// never bound, so the panic path itself can never fault, whatever state
/// the boot flow was in.
pub fn handle_panic(console: &mut Console, message: &str) -> (r: Stage)
    requires
        old(console).wf(),
    ensures
        r is Halted,
        final(console).wf(),
        *old(console) is Uninitialized ==> *final(console) == *old(console),
        *old(console) matches Console::Ready(g) ==> (*final(console) matches Console::Ready(h)
            && h@ == write_line_model(g@, message@)),
{
    console.write_line(message);
    Stage::Halted
}

} // verus!
