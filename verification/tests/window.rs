use titan_engine::window::{plan, settle, Directive, Event, Signal, Size, Work};

const IDLE: Directive = Directive { notify: None, work: None, exit: false };
const EXIT: Directive = Directive { notify: None, work: None, exit: true };

#[test]
fn size_new_keeps_width_and_height() {
    let size = Size::new(800, 600);
    assert_eq!(size.width, 800);
    assert_eq!(size.height, 600);
    assert_eq!(size, Size { width: 800, height: 600 });
}

#[test]
fn size_converts_from_and_into_a_pair() {
    assert_eq!(Size::from((3, 4)), Size::new(3, 4));
    let size: Size = (5, 6).into();
    assert_eq!(size, Size::new(5, 6));
    let pair: (u32, u32) = Size::new(7, 8).into();
    assert_eq!(pair, (7, 8));
}

#[test]
fn default_size_is_empty() {
    assert_eq!(Size::default(), Size::new(0, 0));
    assert!(Size::default().is_empty());
    assert!(Size::new(0, 5).is_empty());
    assert!(Size::new(5, 0).is_empty());
    assert!(!Size::new(1, 1).is_empty());
}

#[test]
fn events_carry_the_size() {
    assert_eq!(Event::Resized(Size::new(1, 2)), Event::Resized(Size::new(1, 2)));
    assert_ne!(Event::Resized(Size::new(1, 2)), Event::Resized(Size::new(2, 1)));
    assert_ne!(Event::Created, Event::Destroyed);
}

#[test]
fn start_notifies_and_shows_the_window() {
    assert_eq!(
        plan(Signal::Started),
        Directive { notify: Some(Event::Created), work: Some(Work::Show), exit: false }
    );
    assert_eq!(settle(Work::Show, true), IDLE);
    assert_eq!(settle(Work::Show, false), IDLE);
}

#[test]
fn close_request_ends_the_loop() {
    assert_eq!(plan(Signal::CloseRequested), EXIT);
}

#[test]
fn resize_to_nothing_is_only_reported() {
    for size in [Size::new(0, 0), Size::new(0, 600), Size::new(800, 0)] {
        assert_eq!(
            plan(Signal::Resized(size)),
            Directive { notify: Some(Event::Resized(Size::new(0, 0))), work: None, exit: false }
        );
    }
}

#[test]
fn resize_rebuilds_and_then_reports() {
    let size = Size::new(800, 600);
    assert_eq!(
        plan(Signal::Resized(size)),
        Directive { notify: None, work: Some(Work::Resize(size)), exit: false }
    );
    assert_eq!(
        settle(Work::Resize(size), true),
        Directive { notify: Some(Event::Resized(size)), work: None, exit: false }
    );
}

#[test]
fn failed_resize_ends_the_loop() {
    assert_eq!(settle(Work::Resize(Size::new(800, 600)), false), EXIT);
}

#[test]
fn idle_window_is_drawn_unless_it_is_empty() {
    let size = Size::new(800, 600);
    assert_eq!(
        plan(Signal::Idle(size)),
        Directive { notify: None, work: Some(Work::Render(size)), exit: false }
    );
    assert_eq!(plan(Signal::Idle(Size::new(0, 600))), IDLE);
    assert_eq!(plan(Signal::Idle(Size::new(800, 0))), IDLE);
    assert_eq!(settle(Work::Render(size), true), IDLE);
}

#[test]
fn failed_render_ends_the_loop() {
    assert_eq!(settle(Work::Render(Size::new(800, 600)), false), EXIT);
}

#[test]
fn stop_notifies_the_host() {
    assert_eq!(
        plan(Signal::Stopped),
        Directive { notify: Some(Event::Destroyed), work: None, exit: false }
    );
    assert_eq!(plan(Signal::Other), IDLE);
}
