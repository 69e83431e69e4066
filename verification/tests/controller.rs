use led_heart::bitmap::Bitmap;
use led_heart::bitmap::heart;
use led_heart::console::greeting;
use led_heart::console::idle_notice;
use led_heart::display::LineOp;
use led_heart::display::Pulse;
use led_heart::display::pulse_ops;
use led_heart::display::render_plan;
use led_heart::latch::EdgeLatch;
use led_heart::mainloop::Effect;
use led_heart::mainloop::step;
use led_heart::monitor::ButtonMonitor;

#[test]
fn latch_starts_clear() {
    let mut latch = EdgeLatch::new();
    assert_eq!(latch.test_and_clear(), false);
}

#[test]
fn latch_returns_true_once_then_false() {
    let mut latch = EdgeLatch::new();
    latch.set();
    assert_eq!(latch.test_and_clear(), true);
    assert_eq!(latch.test_and_clear(), false);
}

#[test]
fn latch_coalesces_sets_without_poll() {
    let mut latch = EdgeLatch::new();
    latch.set();
    latch.set();
    assert_eq!(latch.test_and_clear(), true);
    assert_eq!(latch.test_and_clear(), false);
}

#[test]
fn latch_counts_each_spaced_edge_once() {
    let mut latch = EdgeLatch::new();
    let mut trues: usize = 0;
    for _ in 0..3 {
        latch.set();
        if latch.test_and_clear() {
            trues += 1;
        }
        if latch.test_and_clear() {
            trues += 1;
        }
    }
    assert_eq!(trues, 3);
}

#[test]
fn monitor_engaged_while_line_low() {
    assert_eq!(ButtonMonitor::is_engaged(Some(true)), true);
}

#[test]
fn monitor_not_engaged_while_line_high() {
    assert_eq!(ButtonMonitor::is_engaged(Some(false)), false);
}

#[test]
fn monitor_fails_open_on_read_failure() {
    assert_eq!(ButtonMonitor::is_engaged(None), false);
}

#[test]
fn step_renders_on_pending_edge() {
    let mut latch = EdgeLatch::new();
    latch.set();
    assert_eq!(step(&mut latch, false), vec![Effect::RenderPass]);
}

#[test]
fn step_renders_while_button_engaged() {
    let mut latch = EdgeLatch::new();
    assert_eq!(step(&mut latch, true), vec![Effect::RenderPass]);
}

#[test]
fn step_renders_on_edge_and_button_together() {
    let mut latch = EdgeLatch::new();
    latch.set();
    assert_eq!(step(&mut latch, true), vec![Effect::RenderPass]);
}

#[test]
fn step_consumes_the_edge() {
    let mut latch = EdgeLatch::new();
    latch.set();
    assert_eq!(step(&mut latch, false), vec![Effect::RenderPass]);
    assert_eq!(step(&mut latch, false), vec![Effect::EmitDiagnostic, Effect::Sleep]);
}

#[test]
fn step_idles_with_one_diagnostic_when_no_trigger() {
    let mut latch = EdgeLatch::new();
    let effects = step(&mut latch, false);
    assert_eq!(effects, vec![Effect::EmitDiagnostic, Effect::Sleep]);
    let diagnostics = effects.iter().filter(|e| **e == Effect::EmitDiagnostic).count();
    assert_eq!(diagnostics, 1);
}

#[test]
fn heart_bitmap_reads_row_major() {
    let bm = heart();
    assert_eq!(bm.lit(0, 0), false);
    assert_eq!(bm.lit(0, 1), true);
    assert_eq!(bm.lit(1, 0), true);
    assert_eq!(bm.lit(2, 2), false);
    assert_eq!(bm.lit(4, 2), true);
    assert_eq!(bm.lit(4, 4), false);
}

#[test]
fn heart_plan_pulses_its_ten_lit_cells() {
    let plan = render_plan(&heart());
    let expected = vec![
        Pulse { row: 0, col: 1 },
        Pulse { row: 0, col: 3 },
        Pulse { row: 1, col: 0 },
        Pulse { row: 1, col: 2 },
        Pulse { row: 1, col: 4 },
        Pulse { row: 2, col: 0 },
        Pulse { row: 2, col: 4 },
        Pulse { row: 3, col: 1 },
        Pulse { row: 3, col: 3 },
        Pulse { row: 4, col: 2 },
    ];
    assert_eq!(plan.len(), 10);
    assert_eq!(plan, expected);
}

#[test]
fn blank_bitmap_renders_no_pulse() {
    let bm = Bitmap::new([false; 25]);
    assert_eq!(render_plan(&bm).len(), 0);
}

#[test]
fn full_bitmap_visits_all_cells_row_major() {
    let bm = Bitmap::new([true; 25]);
    let plan = render_plan(&bm);
    assert_eq!(plan.len(), 25);
    for (k, pulse) in plan.iter().enumerate() {
        assert_eq!(*pulse, Pulse { row: k / 5, col: k % 5 });
    }
}

#[test]
fn pulse_writes_four_lines_in_order() {
    let ops = pulse_ops(&Pulse { row: 2, col: 3 });
    let expected = vec![
        LineOp::RowActive { row: 2 },
        LineOp::ColActive { col: 3 },
        LineOp::RowInactive { row: 2 },
        LineOp::ColInactive { col: 3 },
    ];
    assert_eq!(ops, expected);
}

#[test]
fn greeting_is_the_boot_banner() {
    assert_eq!(greeting(), "Hello, World!\r\n");
}

#[test]
fn idle_notice_is_the_wait_line() {
    assert_eq!(idle_notice(), "Wait for event.");
}
