use sunkist::console::Console;
use sunkist::entry::{handle_panic, run_boot, Stage};
use sunkist::framebuffer::{FramebufferDescriptor, Surface};
use sunkist::negotiate::{negotiate, BootRequest, LoaderReply, RawFramebuffer};

fn raw(base: usize, width: usize, height: usize, pitch: usize) -> RawFramebuffer {
    RawFramebuffer { base, width, height, pitch }
}

fn reply(revision: u64, framebuffers: Vec<RawFramebuffer>) -> LoaderReply {
    LoaderReply { revision, framebuffers }
}

#[test]
fn negotiate_no_reply_is_none() {
    let req = BootRequest::new(1);
    assert!(negotiate(&req, None).is_none());
}

#[test]
fn negotiate_low_revision_is_none() {
    let req = BootRequest::new(3);
    let r = negotiate(&req, Some(reply(2, vec![raw(4096, 16, 16, 64)])));
    assert!(r.is_none());
}

#[test]
fn negotiate_empty_offer_is_none() {
    let req = BootRequest::new(0);
    let r = negotiate(&req, Some(reply(0, vec![])));
    assert!(r.is_none());
}

#[test]
fn negotiate_narrow_pitch_is_none() {
    // 16 pixels need 64 bytes per row; a pitch of 63 cannot hold them.
    let req = BootRequest::new(0);
    let r = negotiate(&req, Some(reply(1, vec![raw(4096, 16, 16, 63)])));
    assert!(r.is_none());
}

#[test]
fn negotiate_keeps_only_usable_entries() {
    let req = BootRequest::new(1);
    let offer = vec![
        raw(1, 16, 16, 63),   // pitch too narrow: dropped
        raw(2, 16, 16, 64),   // tight fit: kept
        raw(3, 16, 16, 100),  // padded rows: kept
    ];
    let resp = negotiate(&req, Some(reply(1, offer))).unwrap();
    assert_eq!(resp.framebuffers.len(), 2);
    assert_eq!(resp.framebuffers[0].base, 2);
    assert_eq!(resp.framebuffers[0].pitch, 64);
    assert_eq!(resp.framebuffers[1].base, 3);
    assert_eq!(resp.framebuffers[1].pitch, 100);
}

#[test]
fn negotiate_success_has_usable_descriptor() {
    // Every descriptor of a successful negotiation holds a whole row of
    // 4-byte pixels per pitch.
    let req = BootRequest::new(1);
    let resp = negotiate(&req, Some(reply(2, vec![raw(0xE000_0000, 640, 480, 2560)]))).unwrap();
    assert!(!resp.framebuffers.is_empty());
    for d in &resp.framebuffers {
        assert!(d.pitch >= d.width * 4);
    }
}

#[test]
fn draw_pixel_writes_exactly_four_bytes() {
    let desc = FramebufferDescriptor { base: 0, width: 4, height: 3, pitch: 20 };
    let mut s = Surface::new(desc);
    let before = s.bytes.clone();
    s.draw_pixel(2, 1, 0x11223344);
    let off = 1 * 20 + 2 * 4;
    for i in 0..s.bytes.len() {
        if i >= off && i < off + 4 {
            continue;
        }
        assert_eq!(s.bytes[i], before[i], "byte {} changed", i);
    }
    assert_eq!(&s.bytes[off..off + 4], &[0x44, 0x33, 0x22, 0x11]);
}

#[test]
fn draw_rect_fills_rectangle_only() {
    let desc = FramebufferDescriptor { base: 0, width: 6, height: 5, pitch: 32 };
    let mut s = Surface::new(desc);
    s.draw_rect(1, 2, 3, 2, 0xAABBCCDD);
    for y in 0..5usize {
        for x in 0..6usize {
            let off = y * 32 + x * 4;
            let px = &s.bytes[off..off + 4];
            if (1..4).contains(&x) && (2..4).contains(&y) {
                assert_eq!(px, &[0xDD, 0xCC, 0xBB, 0xAA]);
            } else {
                assert_eq!(px, &[0, 0, 0, 0]);
            }
        }
    }
    // Row padding bytes stay untouched too.
    for y in 0..5usize {
        for i in 24..32usize {
            assert_eq!(s.bytes[y * 32 + i], 0);
        }
    }
}

fn grid_row(console: &Console, row: usize) -> String {
    match console {
        Console::Ready(g) => g.cells[row * g.cols..(row + 1) * g.cols].iter().collect(),
        Console::Uninitialized => panic!("console is not ready"),
    }
}

fn cursor(console: &Console) -> (usize, usize) {
    match console {
        Console::Ready(g) => (g.cursor_row, g.cursor_col),
        Console::Uninitialized => panic!("console is not ready"),
    }
}

#[test]
fn write_line_on_uninitialized_console_is_noop() {
    let mut c = Console::new();
    c.write_line("anything at all");
    assert!(matches!(c, Console::Uninitialized));
}

#[test]
fn write_line_empty_text_keeps_cursor() {
    let mut c = Console::new();
    c.bind(10, 4);
    c.write_line("ab");
    let before = cursor(&c);
    c.write_line("");
    assert_eq!(cursor(&c), before);
}

#[test]
fn write_line_renders_text_and_finishes_line() {
    let mut c = Console::new();
    c.bind(10, 4);
    c.write_line("hello");
    assert_eq!(grid_row(&c, 0), "hello     ");
    assert_eq!(cursor(&c), (1, 0));
}

#[test]
fn write_line_wraps_excess_to_next_row() {
    // 13 characters on a 10-column grid: the excess starts at column 0
    // of the next row.
    let mut c = Console::new();
    c.bind(10, 4);
    c.write_line("abcdefghijKLM");
    assert_eq!(grid_row(&c, 0), "abcdefghij");
    assert_eq!(grid_row(&c, 1), "KLM       ");
    assert_eq!(cursor(&c), (2, 0));
}

#[test]
fn write_line_exact_width_wraps_without_blank_line() {
    let mut c = Console::new();
    c.bind(5, 4);
    c.write_line("abcde");
    assert_eq!(grid_row(&c, 0), "abcde");
    assert_eq!(cursor(&c), (1, 0));
}

#[test]
fn write_line_scrolls_at_bottom_row() {
    let mut c = Console::new();
    c.bind(8, 3);
    c.write_line("one");
    c.write_line("two");
    // "three" lands on the bottom row; finishing its line scrolls the
    // grid, discarding "one" and leaving a blank bottom row.
    c.write_line("three");
    assert_eq!(grid_row(&c, 0), "two     ");
    assert_eq!(grid_row(&c, 1), "three   ");
    assert_eq!(grid_row(&c, 2), "        ");
    assert_eq!(cursor(&c), (2, 0));
    // The next line repeats the pattern: "two" is discarded in turn.
    c.write_line("four");
    assert_eq!(grid_row(&c, 0), "three   ");
    assert_eq!(grid_row(&c, 1), "four    ");
    assert_eq!(grid_row(&c, 2), "        ");
    assert_eq!(cursor(&c), (2, 0));
}

#[test]
fn boot_success_draws_test_block() {
    // A 1024x768 framebuffer with pitch 4096: the boot flow paints a
    // 100x100 magenta block at the origin and touches nothing else.
    let req = BootRequest::new(1);
    let offer = Some(reply(1, vec![raw(0xFD00_0000, 1024, 768, 4096)]));
    let mut console = Console::new();
    let (surface, stage) = run_boot(&req, offer, &mut console);
    assert_eq!(stage, Stage::Halted);
    let s = surface.unwrap();
    assert_eq!(s.desc.width, 1024);
    assert_eq!(s.bytes.len(), 768 * 4096);
    for y in 0..768usize {
        for x in 0..1024usize {
            let off = y * 4096 + x * 4;
            let px = &s.bytes[off..off + 4];
            if x < 100 && y < 100 {
                // 0x00FF00FF, little-endian
                assert_eq!(px, &[0xFF, 0x00, 0xFF, 0x00]);
            } else {
                assert_eq!(px, &[0, 0, 0, 0]);
            }
        }
    }
    // Row padding past the pixels stays zero.
    for y in 0..768usize {
        for i in 4096 - 8..4096usize {
            assert_eq!(s.bytes[y * 4096 + i], 0);
        }
    }
}

#[test]
fn boot_success_logs_two_status_lines() {
    let req = BootRequest::new(1);
    let offer = Some(reply(1, vec![raw(0xFD00_0000, 1024, 768, 4096)]));
    let mut console = Console::new();
    let _ = run_boot(&req, offer, &mut console);
    // One character cell per 8x16 glyph: 128 columns, 48 rows.
    match &console {
        Console::Ready(g) => {
            assert_eq!(g.cols, 128);
            assert_eq!(g.rows, 48);
        }
        Console::Uninitialized => panic!("console was never bound"),
    }
    assert_eq!(grid_row(&console, 0).trim_end(), "Welcome to Sunkist OS!");
    assert_eq!(grid_row(&console, 1).trim_end(), "Booted with Limine.");
    assert_eq!(cursor(&console), (2, 0));
}

#[test]
fn boot_failure_logs_one_line_and_draws_nothing() {
    let req = BootRequest::new(1);
    let mut console = Console::new();
    let (surface, stage) = run_boot(&req, None, &mut console);
    assert_eq!(stage, Stage::Halted);
    assert!(surface.is_none());
    match &console {
        Console::Ready(g) => {
            assert_eq!(g.cols, 80);
            assert_eq!(g.rows, 25);
        }
        Console::Uninitialized => panic!("console was never bound"),
    }
    assert_eq!(grid_row(&console, 0).trim_end(), "Failed to get framebuffer!");
    // Exactly one line: every other row is blank and the cursor sits
    // under the failure line.
    for row in 1..25 {
        assert_eq!(grid_row(&console, row).trim_end(), "");
    }
    assert_eq!(cursor(&console), (1, 0));
}

#[test]
fn boot_failure_on_unusable_offer_matches_no_reply() {
    // An offer whose only entry is unusable negotiates like no offer.
    let req = BootRequest::new(1);
    let offer = Some(reply(1, vec![raw(0xFD00_0000, 1024, 768, 4095)]));
    let mut console = Console::new();
    let (surface, stage) = run_boot(&req, offer, &mut console);
    assert_eq!(stage, Stage::Halted);
    assert!(surface.is_none());
    assert_eq!(grid_row(&console, 0).trim_end(), "Failed to get framebuffer!");
}

#[test]
fn panic_before_negotiation_never_faults() {
    // The panic handler tolerates a console that was never bound: the
    // message is swallowed, nothing faults, and the machine halts.
    let mut console = Console::new();
    let stage = handle_panic(&mut console, "panicked at 'demonstration', main.rs:1:1");
    assert_eq!(stage, Stage::Halted);
    assert!(matches!(console, Console::Uninitialized));
}

#[test]
fn panic_with_ready_console_writes_message() {
    let mut console = Console::new();
    console.bind(64, 16);
    let stage = handle_panic(&mut console, "panicked at 'oops'");
    assert_eq!(stage, Stage::Halted);
    assert_eq!(grid_row(&console, 0).trim_end(), "panicked at 'oops'");
    assert_eq!(cursor(&console), (1, 0));
}

#[test]
fn surface_new_spans_whole_region() {
    let desc = FramebufferDescriptor { base: 0, width: 2, height: 2, pitch: 11 };
    let s = Surface::new(desc);
    assert_eq!(s.bytes.len(), 22);
    assert!(s.bytes.iter().all(|&b| b == 0));
}
