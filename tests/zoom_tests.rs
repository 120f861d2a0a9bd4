use zooming_kittens::config::ZoomConfig;
use zooming_kittens::focus::{NiriEvent, WindowInfo};
use zooming_kittens::resizer::KittyResizer;
use zooming_kittens::zoom::{plan_blur, plan_focus, rescale_exec, AdjustOp, FontAdjustment, WindowState};

fn by(op: AdjustOp, numerator: u64, denominator: u64) -> FontAdjustment {
    FontAdjustment { op, numerator, denominator }
}

fn window(pid: i32) -> WindowInfo {
    WindowInfo { id: 3, app_id: Some("kitty".to_string()), pid: Some(pid), title: None }
}

#[test]
fn additive_focus_then_blur() {
    let mut c = ZoomConfig::default();
    c.additive = Some(600);
    c.step_size = 3;
    let s0 = WindowState::with_baseline(1200);
    let (s1, cmds) = plan_focus(s0, &c, 1200);
    assert_eq!(cmds, vec![by(AdjustOp::Increase, 3, 1); 2]);
    assert_eq!(s1.current_font_size, Some(1800));
    let (s2, cmds) = plan_blur(s1, &c, 1200);
    assert_eq!(cmds, vec![by(AdjustOp::Decrease, 3, 1); 2]);
    assert_eq!(s2.current_font_size, Some(1200));
}

#[test]
fn multiplicative_focus_by_factor_two() {
    let mut c = ZoomConfig::default();
    c.multiplicative = Some(2000);
    c.step_size = 2;
    let (s1, cmds) = plan_focus(WindowState::with_baseline(1200), &c, 1200);
    assert_eq!(cmds, vec![by(AdjustOp::Multiply, 2, 1)]);
    assert_eq!(s1.current_zoom_factor, 2000);
    assert_eq!(s1.current_font_size, Some(2400));
    let (s2, cmds) = plan_blur(s1, &c, 1200);
    assert_eq!(cmds, vec![by(AdjustOp::Divide, 2, 1)]);
    assert_eq!(s2.current_zoom_factor, 1000);
    assert_eq!(s2.current_font_size, Some(1200));
}

#[test]
fn absolute_focus_is_idempotent() {
    let mut c = ZoomConfig::default();
    c.absolute = Some(1800);
    c.step_size = 4;
    let (s1, cmds) = plan_focus(WindowState::with_baseline(1200), &c, 1200);
    // Six points in steps of four: rounded up to two steps.
    assert_eq!(cmds, vec![by(AdjustOp::Increase, 4, 1); 2]);
    assert_eq!(s1.current_font_size, Some(1800));
    let (s2, cmds) = plan_focus(s1, &c, 1200);
    assert!(cmds.is_empty());
    assert_eq!(s2, s1);
    let (s3, cmds) = plan_blur(s2, &c, 1200);
    assert_eq!(cmds, vec![by(AdjustOp::Decrease, 4, 1); 2]);
    assert_eq!(s3.current_font_size, Some(1200));
}

#[test]
fn absolute_below_current_decreases() {
    let mut c = ZoomConfig::default();
    c.absolute = Some(1000);
    let (s1, cmds) = plan_focus(WindowState::with_baseline(1250), &c, 1250);
    assert_eq!(cmds, vec![by(AdjustOp::Decrease, 1, 1); 3]);
    assert_eq!(s1.current_font_size, Some(1000));
}

#[test]
fn rescale_lands_exactly_on_the_target() {
    assert_eq!(rescale_exec(1000, 1500, 2), vec![by(AdjustOp::Multiply, 1500, 1000)]);
    assert_eq!(
        rescale_exec(1000, 8000, 2),
        vec![by(AdjustOp::Multiply, 2, 1), by(AdjustOp::Multiply, 2, 1), by(AdjustOp::Multiply, 2, 1)]
    );
    assert_eq!(
        rescale_exec(1000, 5000, 2),
        vec![by(AdjustOp::Multiply, 2, 1), by(AdjustOp::Multiply, 2, 1), by(AdjustOp::Multiply, 5000, 4000)]
    );
    assert_eq!(rescale_exec(1500, 1000, 2), vec![by(AdjustOp::Divide, 1500, 1000)]);
    assert_eq!(rescale_exec(5000, 1000, 2), vec![by(AdjustOp::Divide, 2, 1), by(AdjustOp::Divide, 2, 1), by(AdjustOp::Divide, 5000, 4000)]);
    assert_eq!(rescale_exec(1000, 3000, 1), vec![by(AdjustOp::Multiply, 3000, 1000)]);
}

#[test]
fn near_equal_factors_issue_nothing() {
    let mut c = ZoomConfig::default();
    c.multiplicative = Some(1001);
    let (s1, cmds) = plan_focus(WindowState::with_baseline(1200), &c, 1200);
    assert!(cmds.is_empty());
    assert_eq!(s1.current_zoom_factor, 1000);
}

#[test]
fn resizer_tracks_each_process() {
    let mut c = ZoomConfig::default();
    c.additive = Some(600);
    c.step_size = 3;
    let mut r = KittyResizer::with_zoom_config(c, 1200);
    let out = r.handle_event(&NiriEvent::Focus { window_id: 3, window: window(77) }).unwrap();
    assert_eq!(out.0, 77);
    assert_eq!(out.1.len(), 2);
    assert_eq!(r.window_state(77).unwrap().current_font_size, Some(1800));
    assert!(r.window_state(78).is_none());
    let out = r.handle_event(&NiriEvent::Blur { window_id: 3, window: window(77) }).unwrap();
    assert_eq!(out.1, vec![by(AdjustOp::Decrease, 3, 1); 2]);
    assert_eq!(r.window_state(77).unwrap().current_font_size, Some(1200));
    assert!(r.handle_event(&NiriEvent::Destroy { window_id: 3 }).is_none());
    let no_pid = WindowInfo { id: 4, app_id: None, pid: None, title: None };
    assert!(r.handle_event(&NiriEvent::Focus { window_id: 4, window: no_pid }).is_none());
}

#[test]
fn unconfigured_resizer_does_nothing() {
    let mut r = KittyResizer::new(1200);
    assert!(r.handle_event(&NiriEvent::Focus { window_id: 3, window: window(5) }).is_none());
    assert!(r.window_state(5).is_none());
}

#[test]
fn exact_steps_end_with_the_remainder() {
    let mut c = ZoomConfig::default();
    c.absolute = Some(1850);
    c.step_size = 2;
    c.exact_steps = true;
    let (s1, cmds) = plan_focus(WindowState::with_baseline(1200), &c, 1200);
    // 6.5 points: three whole steps of two, then half a point.
    assert_eq!(
        cmds,
        vec![by(AdjustOp::Increase, 2, 1), by(AdjustOp::Increase, 2, 1), by(AdjustOp::Increase, 2, 1), by(AdjustOp::Increase, 50, 100)]
    );
    assert_eq!(s1.current_font_size, Some(1850));
    c.exact_steps = false;
    let (_, cmds) = plan_focus(WindowState::with_baseline(1200), &c, 1200);
    assert_eq!(cmds, vec![by(AdjustOp::Increase, 2, 1); 4]);
}

#[test]
fn blur_without_focus_follows_the_policy() {
    let mut c = ZoomConfig::default();
    c.additive = Some(300);
    let mut r = KittyResizer::with_zoom_config(c, 1200);
    let out = r.handle_event(&NiriEvent::Blur { window_id: 3, window: window(9) }).unwrap();
    assert_eq!(out.1, vec![by(AdjustOp::Decrease, 1, 1); 3]);
    assert_eq!(r.window_state(9).unwrap().current_font_size, Some(900));

    c.blur_requires_focus = true;
    let mut r = KittyResizer::with_zoom_config(c, 1200);
    assert!(r.handle_event(&NiriEvent::Blur { window_id: 3, window: window(9) }).is_none());
    assert!(r.window_state(9).is_none());
    r.handle_event(&NiriEvent::Focus { window_id: 3, window: window(9) });
    let out = r.handle_event(&NiriEvent::Blur { window_id: 3, window: window(9) }).unwrap();
    assert_eq!(out.1.len(), 3);
    assert_eq!(r.window_state(9).unwrap().current_font_size, Some(1200));
}

#[test]
fn rescaling_multiplies_to_the_exact_ratio() {
    for (cur, target, step) in [(1000u32, 5000u32, 2u32), (5000, 1000, 2), (1500, 1000, 3), (1000, 8000, 2), (700, 2100, 1)] {
        let (mut n, mut d) = (1u128, 1u128);
        for a in rescale_exec(cur, target, step) {
            match a.op {
                AdjustOp::Multiply => {
                    n *= a.numerator as u128;
                    d *= a.denominator as u128;
                }
                AdjustOp::Divide => {
                    n *= a.denominator as u128;
                    d *= a.numerator as u128;
                }
                _ => {}
            }
        }
        assert_eq!(cur as u128 * n, target as u128 * d, "{} -> {}", cur, target);
    }
}
