use flipperzero::gui::view_dispatcher::{
    dispatch_custom_event, dispatch_navigation_event, dispatch_tick_event, Capabilities,
    Delivery, DispatcherEvent, ViewDispatcher, ViewDispatcherBuilder, ViewDispatcherCallbacks,
    StopOnNavigation, ViewDispatcherType, ViewHandle,
};

/// Takes navigation events only, answers `answer`, and stops the loop when
/// `stop_on_navigation` is set.
struct NavigationOnly {
    answer: bool,
    stop_on_navigation: bool,
    seen: u32,
}

impl ViewDispatcherCallbacks for NavigationOnly {
    fn capabilities() -> Capabilities {
        Capabilities { navigation: true, custom_event: false, tick_period: None }
    }

    fn on_custom_event(&mut self, _view_dispatcher: &mut ViewDispatcher, _event: u32) -> bool {
        false
    }

    fn on_navigation_event(&mut self, view_dispatcher: &mut ViewDispatcher) -> bool {
        self.seen += 1;
        if self.stop_on_navigation {
            view_dispatcher.stop();
        }
        self.answer
    }

    fn on_tick_event(&mut self, _view_dispatcher: &mut ViewDispatcher) {}
}

/// Takes every category and records what it was handed.
struct Recorder {
    navigation: u32,
    custom: Vec<u32>,
    ticks: u32,
    chain_below: u32,
}

impl ViewDispatcherCallbacks for Recorder {
    fn capabilities() -> Capabilities {
        Capabilities { navigation: true, custom_event: true, tick_period: Some(100) }
    }

    fn on_custom_event(&mut self, view_dispatcher: &mut ViewDispatcher, event: u32) -> bool {
        self.custom.push(event);
        if event < self.chain_below {
            view_dispatcher.send_custom_event(event + 1);
        }
        event % 2 == 0
    }

    fn on_navigation_event(&mut self, _view_dispatcher: &mut ViewDispatcher) -> bool {
        self.navigation += 1;
        false
    }

    fn on_tick_event(&mut self, _view_dispatcher: &mut ViewDispatcher) {
        self.ticks += 1;
    }
}

fn recorder() -> Recorder {
    Recorder { navigation: 0, custom: Vec::new(), ticks: 0, chain_below: 0 }
}

#[test]
fn undeclared_categories_get_no_trampoline() {
    let mut d = ViewDispatcherBuilder::new(ViewDispatcherType::Fullscreen, ());
    assert!(d.view_dispatcher().post_event(DispatcherEvent::Navigation));
    d.view_dispatcher().send_custom_event(3);
    assert!(d.view_dispatcher().post_event(DispatcherEvent::Tick));
    assert_eq!(
        d.dispatch_next(),
        Some(Delivery::Discarded { event: DispatcherEvent::Navigation })
    );
    assert_eq!(
        d.dispatch_next(),
        Some(Delivery::Discarded { event: DispatcherEvent::Custom(3) })
    );
    assert_eq!(d.dispatch_next(), Some(Delivery::Discarded { event: DispatcherEvent::Tick }));
    assert_eq!(d.dispatch_next(), None);
}

#[test]
fn only_the_declared_category_is_registered() {
    let mut d = ViewDispatcherBuilder::new(
        ViewDispatcherType::Window,
        NavigationOnly { answer: true, stop_on_navigation: false, seen: 0 },
    );
    d.view_dispatcher().send_custom_event(5);
    assert!(d.view_dispatcher().post_event(DispatcherEvent::Navigation));
    assert!(d.view_dispatcher().post_event(DispatcherEvent::Tick));
    assert_eq!(
        d.dispatch_next(),
        Some(Delivery::Discarded { event: DispatcherEvent::Custom(5) })
    );
    assert_eq!(d.dispatch_next(), Some(Delivery::Navigation { handled: true }));
    assert_eq!(d.dispatch_next(), Some(Delivery::Discarded { event: DispatcherEvent::Tick }));
    assert_eq!(d.callbacks().seen, 1);
}

#[test]
fn trampolines_return_the_handler_answer() {
    let mut d = ViewDispatcherBuilder::new(ViewDispatcherType::Desktop, recorder());
    let mut handler = recorder();
    assert!(dispatch_custom_event(d.view_dispatcher(), &mut handler, 4));
    assert!(!dispatch_custom_event(d.view_dispatcher(), &mut handler, 7));
    assert!(!dispatch_navigation_event(d.view_dispatcher(), &mut handler));
    dispatch_tick_event(d.view_dispatcher(), &mut handler);
    assert_eq!(handler.custom, vec![4, 7]);
    assert_eq!(handler.navigation, 1);
    assert_eq!(handler.ticks, 1);

    let mut nav = NavigationOnly { answer: true, stop_on_navigation: false, seen: 0 };
    assert!(dispatch_navigation_event(d.view_dispatcher(), &mut nav));
    nav.answer = false;
    assert!(!dispatch_navigation_event(d.view_dispatcher(), &mut nav));
    assert_eq!(nav.seen, 2);
}

#[test]
fn switch_after_add_shows_the_view() {
    let mut d = ViewDispatcherBuilder::new(ViewDispatcherType::Fullscreen, ());
    let vd = d.view_dispatcher();
    assert_eq!(vd.current_view(), None);
    vd.add_view(1, ViewHandle(0x1000));
    assert!(vd.contains_view(1));
    vd.switch_to_view(1);
    assert_eq!(vd.current_view(), Some(1));
    vd.switch_to_view(1);
    assert_eq!(vd.current_view(), Some(1));
    assert!(vd.contains_view(1));
}

#[test]
fn remove_after_add_leaves_no_view() {
    let mut d = ViewDispatcherBuilder::new(ViewDispatcherType::Fullscreen, ());
    let vd = d.view_dispatcher();
    vd.add_view(2, ViewHandle(7));
    vd.add_view(3, ViewHandle(8));
    vd.switch_to_view(2);
    vd.remove_view(2);
    assert!(!vd.contains_view(2));
    assert!(vd.contains_view(3));
    // the removed view was on screen: nothing is on screen now
    assert_eq!(vd.current_view(), None);
    vd.switch_to_view(3);
    vd.add_view(2, ViewHandle(9));
    vd.remove_view(2);
    assert_eq!(vd.current_view(), Some(3));
}

#[test]
fn stop_inside_navigation_ends_run_after_that_event() {
    let mut d = ViewDispatcherBuilder::new(
        ViewDispatcherType::Fullscreen,
        NavigationOnly { answer: true, stop_on_navigation: true, seen: 0 },
    );
    assert!(d.view_dispatcher().post_event(DispatcherEvent::Navigation));
    d.view_dispatcher().send_custom_event(1);
    assert!(d.view_dispatcher().post_event(DispatcherEvent::Navigation));
    d.run_until_idle();
    assert_eq!(d.callbacks().seen, 1);
    assert_eq!(d.view_dispatcher().pending_events(), 2);
    // the dispatcher can run again; the stop request of the first run is gone
    d.run_until_idle();
    assert_eq!(d.callbacks().seen, 2);
    assert_eq!(d.view_dispatcher().pending_events(), 0);
}

#[test]
fn stop_before_run_is_observed_before_the_first_event() {
    let mut d = ViewDispatcherBuilder::new(
        ViewDispatcherType::Fullscreen,
        NavigationOnly { answer: false, stop_on_navigation: false, seen: 0 },
    );
    d.view_dispatcher().stop();
    d.view_dispatcher().stop();
    assert!(d.view_dispatcher().post_event(DispatcherEvent::Navigation));
    d.run_until_idle();
    assert_eq!(d.callbacks().seen, 0);
    assert_eq!(d.view_dispatcher().pending_events(), 1);
    // the request was observed and cleared: the next run delivers the event
    d.run_until_idle();
    assert_eq!(d.callbacks().seen, 1);
    assert_eq!(d.view_dispatcher().pending_events(), 0);
}

#[test]
fn empty_handler_answers_false_and_changes_nothing() {
    let mut d = ViewDispatcherBuilder::new(ViewDispatcherType::Fullscreen, ());
    let mut unit = ();
    d.view_dispatcher().add_view(4, ViewHandle(1));
    assert!(!unit.on_navigation_event(d.view_dispatcher()));
    assert!(!unit.on_custom_event(d.view_dispatcher(), 8));
    unit.on_tick_event(d.view_dispatcher());
    assert_eq!(d.view_dispatcher().pending_events(), 0);
    assert_eq!(d.view_dispatcher().current_view(), None);
    assert!(d.view_dispatcher().contains_view(4));
}

#[test]
fn custom_event_takes_one_iteration() {
    let mut d = ViewDispatcherBuilder::new(ViewDispatcherType::Fullscreen, recorder());
    d.view_dispatcher().send_custom_event(9);
    assert_eq!(d.dispatch_next(), Some(Delivery::Custom { event: 9, handled: false }));
    assert_eq!(d.callbacks().custom, vec![9]);
    assert_eq!(d.dispatch_next(), None);

    let mut none = ViewDispatcherBuilder::new(ViewDispatcherType::Fullscreen, ());
    none.view_dispatcher().send_custom_event(9);
    assert_eq!(
        none.dispatch_next(),
        Some(Delivery::Discarded { event: DispatcherEvent::Custom(9) })
    );
    assert_eq!(none.dispatch_next(), None);
}

#[test]
fn events_are_delivered_oldest_first() {
    let mut d = ViewDispatcherBuilder::new(ViewDispatcherType::Fullscreen, recorder());
    d.view_dispatcher().send_custom_event(10);
    assert!(d.view_dispatcher().post_event(DispatcherEvent::Tick));
    d.view_dispatcher().send_custom_event(11);
    assert!(d.view_dispatcher().post_event(DispatcherEvent::Navigation));
    assert_eq!(d.dispatch_next(), Some(Delivery::Custom { event: 10, handled: true }));
    assert_eq!(d.dispatch_next(), Some(Delivery::Tick));
    assert_eq!(d.dispatch_next(), Some(Delivery::Custom { event: 11, handled: false }));
    assert_eq!(d.dispatch_next(), Some(Delivery::Navigation { handled: false }));
    assert_eq!(d.callbacks().ticks, 1);
    assert_eq!(d.callbacks().navigation, 1);
}

#[test]
fn handler_can_send_events_from_a_callback() {
    let mut handler = recorder();
    handler.chain_below = 3;
    let mut d = ViewDispatcherBuilder::new(ViewDispatcherType::Fullscreen, handler);
    d.view_dispatcher().send_custom_event(0);
    d.run_until_idle();
    assert_eq!(d.callbacks().custom, vec![0, 1, 2, 3]);
    assert_eq!(d.view_dispatcher().pending_events(), 0);
}

#[test]
fn navigation_handler_end_to_end() {
    let mut d = ViewDispatcherBuilder::new(
        ViewDispatcherType::Fullscreen,
        NavigationOnly { answer: true, stop_on_navigation: false, seen: 0 },
    );
    d.view_dispatcher().add_view(0, ViewHandle(0x2000));
    d.view_dispatcher().switch_to_view(0);
    assert!(d.view_dispatcher().post_event(DispatcherEvent::Navigation));
    d.run_until_idle();
    assert_eq!(d.callbacks().seen, 1);
    assert!(d.view_dispatcher().contains_view(0));
    assert_eq!(d.view_dispatcher().current_view(), Some(0));
}

#[test]
fn navigation_handler_that_stops_end_to_end() {
    let mut d = ViewDispatcherBuilder::new(
        ViewDispatcherType::Fullscreen,
        NavigationOnly { answer: true, stop_on_navigation: true, seen: 0 },
    );
    d.view_dispatcher().add_view(0, ViewHandle(0x2000));
    d.view_dispatcher().switch_to_view(0);
    assert!(d.view_dispatcher().post_event(DispatcherEvent::Navigation));
    d.run_until_idle();
    assert_eq!(d.callbacks().seen, 1);
    assert!(d.view_dispatcher().contains_view(0));
    assert_eq!(d.view_dispatcher().current_view(), Some(0));
}

#[test]
fn view_port_moves_between_front_and_back() {
    let mut d = ViewDispatcherBuilder::new(ViewDispatcherType::Desktop, ());
    let vd = d.view_dispatcher();
    assert!(vd.is_in_front());
    vd.send_to_back();
    assert!(!vd.is_in_front());
    vd.send_to_back();
    assert!(!vd.is_in_front());
    vd.send_to_front();
    assert!(vd.is_in_front());
}

#[test]
fn ticks_reach_a_tick_handler() {
    let mut d = ViewDispatcherBuilder::new(ViewDispatcherType::Window, recorder());
    assert!(d.view_dispatcher().post_event(DispatcherEvent::Tick));
    assert!(d.view_dispatcher().post_event(DispatcherEvent::Tick));
    d.run_until_idle();
    assert_eq!(d.callbacks().ticks, 2);
    assert_eq!(d.view_dispatcher().pending_events(), 0);
}

#[test]
fn stop_request_is_taken_once() {
    let mut d = ViewDispatcherBuilder::new(ViewDispatcherType::Fullscreen, ());
    let vd = d.view_dispatcher();
    assert!(!vd.take_stop_request());
    vd.stop();
    vd.stop();
    assert!(vd.take_stop_request());
    assert!(!vd.take_stop_request());
}

#[test]
fn stop_on_navigation_ends_the_loop_after_the_event() {
    let mut d = ViewDispatcherBuilder::new(ViewDispatcherType::Fullscreen, StopOnNavigation);
    d.view_dispatcher().add_view(0, ViewHandle(0x3000));
    d.view_dispatcher().switch_to_view(0);
    assert!(d.view_dispatcher().post_event(DispatcherEvent::Navigation));
    d.view_dispatcher().send_custom_event(2);
    assert!(!d.view_dispatcher().take_stop_request());
    assert_eq!(d.dispatch_next(), Some(Delivery::Navigation { handled: true }));
    // the boundary after the event sees the request; the custom event waits
    assert!(d.view_dispatcher().take_stop_request());
    assert_eq!(d.view_dispatcher().pending_events(), 1);
    assert!(d.view_dispatcher().contains_view(0));
    assert_eq!(d.view_dispatcher().current_view(), Some(0));
}
