use makepad_logic::bare_step::{BareStep, DrawStateWrap, DrawStep};

#[test]
fn one_step_per_redraw() {
    let mut b = BareStep { draw_state: DrawStateWrap::new() };
    assert_eq!(b.draw_walk(1), DrawStep::Step);
    assert_eq!(b.draw_walk(1), DrawStep::Done);
    assert_eq!(b.draw_walk(2), DrawStep::Step);
    assert_eq!(b.draw_walk(2), DrawStep::Done);
}

#[test]
fn begin_reports_first_call() {
    let mut w = DrawStateWrap::new();
    assert!(!w.begin(0));
    assert!(w.begin(5));
    assert!(w.begun);
    assert!(!w.begin(5));
}
