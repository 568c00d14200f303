use std::cell::RefCell;
use std::rc::Rc;

use rgengine::events::{Event, RGEvent};
use rgengine::layers::{Layer, LayerStack, Visit};

type Log = Rc<RefCell<Vec<String>>>;

struct Probe {
    id: usize,
    consume: bool,
    log: Log,
}

impl Probe {
    fn new(id: usize, log: &Log) -> Probe {
        Probe { id, consume: false, log: Rc::clone(log) }
    }

    fn consuming(id: usize, log: &Log) -> Probe {
        Probe { id, consume: true, log: Rc::clone(log) }
    }
}

impl Layer for Probe {
    fn on_attach(&mut self) {
        self.log.borrow_mut().push(format!("attach {}", self.id));
    }

    fn on_detach(&mut self) {
        self.log.borrow_mut().push(format!("detach {}", self.id));
    }

    fn on_update(&mut self) {
        self.log.borrow_mut().push(format!("update {}", self.id));
    }

    fn on_event(&mut self, event: &mut Event) {
        self.log.borrow_mut().push(format!("event {}", self.id));
        if self.consume {
            event.mark_handled();
        }
    }

    fn on_render(&mut self) {
        self.log.borrow_mut().push(format!("render {}", self.id));
    }

    fn get_id(&self) -> usize {
        self.id
    }
}

fn new_log() -> Log {
    Rc::new(RefCell::new(Vec::new()))
}

fn entries(log: &Log, prefix: &str) -> Vec<String> {
    log.borrow().iter().filter(|e| e.starts_with(prefix)).cloned().collect()
}

fn key_press() -> Event {
    Event::new(RGEvent::KeyPressed { key: 65, repeat: false })
}

/// Layers 1 and 2 pushed as regular layers, then overlay 3.
fn three_layers(log: &Log, consuming: Option<usize>) -> LayerStack<Probe> {
    let mut stack = LayerStack::new();
    let make = |id: usize| {
        if consuming == Some(id) {
            Probe::consuming(id, log)
        } else {
            Probe::new(id, log)
        }
    };
    assert_eq!(stack.push_layer(make(1)), 1);
    assert_eq!(stack.push_layer(make(2)), 2);
    assert_eq!(stack.push_overlay(make(3)), 3);
    stack
}

#[test]
fn layers_then_overlay_keep_order_and_propagate_top_down() {
    let log = new_log();
    let mut stack = three_layers(&log, None);
    assert_eq!(stack.ids(), vec![1, 2, 3]);
    assert_eq!(stack.boundary(), 2);
    assert_eq!(entries(&log, "attach"), vec!["attach 1", "attach 2", "attach 3"]);

    let mut event = key_press();
    let visited = stack.on_event(&mut event);
    assert_eq!(entries(&log, "event"), vec!["event 3", "event 2", "event 1"]);
    assert_eq!(
        visited,
        vec![
            Visit { layer_id: 3, handled: false },
            Visit { layer_id: 2, handled: false },
            Visit { layer_id: 1, handled: false },
        ]
    );
    assert!(!event.is_handled());
}

#[test]
fn overlay_that_handles_hides_event_from_layers_below() {
    let log = new_log();
    let mut stack = three_layers(&log, Some(3));
    let mut event = key_press();
    let visited = stack.on_event(&mut event);
    assert_eq!(entries(&log, "event"), vec!["event 3"]);
    assert_eq!(visited, vec![Visit { layer_id: 3, handled: true }]);
    assert!(event.is_handled());
}

#[test]
fn middle_layer_that_handles_stops_propagation_there() {
    let log = new_log();
    let mut stack = three_layers(&log, Some(2));
    let mut event = key_press();
    let visited = stack.on_event(&mut event);
    assert_eq!(entries(&log, "event"), vec!["event 3", "event 2"]);
    assert_eq!(visited.len(), 2);
    assert!(visited[1].handled);
    assert!(event.is_handled());
}

#[test]
fn already_handled_event_still_reaches_top_layer_only() {
    let log = new_log();
    let mut stack = three_layers(&log, None);
    let mut event = key_press();
    event.mark_handled();
    let visited = stack.on_event(&mut event);
    assert_eq!(entries(&log, "event"), vec!["event 3"]);
    assert_eq!(visited, vec![Visit { layer_id: 3, handled: true }]);
}

#[test]
fn propagation_through_empty_stack_leaves_event_alone() {
    let mut stack: LayerStack<Probe> = LayerStack::new();
    let mut event = key_press();
    let visited = stack.on_event(&mut event);
    assert!(visited.is_empty());
    assert!(!event.is_handled());
}

#[test]
fn pop_layer_removes_regular_layer_and_detaches_it_once() {
    let log = new_log();
    let mut stack = three_layers(&log, None);
    let popped = stack.pop_layer(1).expect("layer 1 is a regular layer");
    assert_eq!(popped.get_id(), 1);
    assert_eq!(stack.ids(), vec![2, 3]);
    assert_eq!(stack.get(0).map(|l| l.get_id()), Some(2));
    assert_eq!(stack.get(1).map(|l| l.get_id()), Some(3));
    assert_eq!(stack.boundary(), 1);
    assert_eq!(entries(&log, "detach"), vec!["detach 1"]);
}

#[test]
fn pop_layer_does_not_search_overlays() {
    let log = new_log();
    let mut stack = three_layers(&log, None);
    assert!(stack.pop_layer(1).is_some());
    log.borrow_mut().clear();
    assert!(stack.pop_layer(3).is_none());
    assert_eq!(stack.ids(), vec![2, 3]);
    assert_eq!(stack.boundary(), 1);
    assert!(entries(&log, "detach").is_empty());
}

#[test]
fn pop_on_empty_stack_finds_nothing() {
    let mut stack: LayerStack<Probe> = LayerStack::new();
    assert!(stack.pop_layer(7).is_none());
    assert!(stack.pop_overlay(7).is_none());
    assert_eq!(stack.len(), 0);
    assert_eq!(stack.boundary(), 0);
}

#[test]
fn pop_overlay_removes_overlay_and_keeps_boundary() {
    let log = new_log();
    let mut stack = three_layers(&log, None);
    assert!(stack.pop_overlay(1).is_none());
    assert!(entries(&log, "detach").is_empty());
    let popped = stack.pop_overlay(3).expect("3 is an overlay");
    assert_eq!(popped.get_id(), 3);
    assert_eq!(stack.ids(), vec![1, 2]);
    assert_eq!(stack.boundary(), 2);
    assert_eq!(entries(&log, "detach"), vec!["detach 3"]);
}

#[test]
fn regular_layers_always_stay_below_overlays() {
    let log = new_log();
    let mut stack = LayerStack::new();
    stack.push_overlay(Probe::new(10, &log));
    stack.push_layer(Probe::new(1, &log));
    stack.push_overlay(Probe::new(11, &log));
    stack.push_layer(Probe::new(2, &log));
    assert_eq!(stack.ids(), vec![1, 2, 10, 11]);
    assert_eq!(stack.boundary(), 2);
    assert!(stack.pop_layer(1).is_some());
    assert!(stack.pop_layer(1).is_none());
    stack.push_layer(Probe::new(3, &log));
    assert_eq!(stack.ids(), vec![2, 3, 10, 11]);
    // two pushes of regular layers less one successful pop, plus one push
    assert_eq!(stack.boundary(), 2);
}

#[test]
fn update_reaches_every_layer_once_bottom_first() {
    let log = new_log();
    let mut stack = three_layers(&log, Some(3));
    let mut event = key_press();
    stack.on_event(&mut event);
    assert!(event.is_handled());
    let updated = stack.update();
    assert_eq!(updated, vec![1, 2, 3]);
    assert_eq!(entries(&log, "update"), vec!["update 1", "update 2", "update 3"]);
}

#[test]
fn render_reaches_every_layer_once() {
    let log = new_log();
    let mut stack = three_layers(&log, None);
    stack.render();
    assert_eq!(entries(&log, "render"), vec!["render 1", "render 2", "render 3"]);
}

#[test]
fn get_reaches_layers_by_index() {
    let log = new_log();
    let stack = three_layers(&log, None);
    assert_eq!(stack.get(0).map(|l| l.get_id()), Some(1));
    assert_eq!(stack.get(2).map(|l| l.get_id()), Some(3));
    assert!(stack.get(3).is_none());
}

#[test]
fn first_of_two_equal_ids_is_popped() {
    let log = new_log();
    let mut stack = LayerStack::new();
    stack.push_layer(Probe::new(5, &log));
    stack.push_layer(Probe::new(6, &log));
    stack.push_layer(Probe::new(5, &log));
    assert!(stack.pop_layer(5).is_some());
    assert_eq!(stack.ids(), vec![6, 5]);
    assert_eq!(stack.boundary(), 2);
}

#[test]
fn clear_detaches_everything_topmost_first() {
    let log = new_log();
    let mut stack = three_layers(&log, None);
    let detached: Vec<usize> = stack.clear().iter().map(|l| l.get_id()).collect();
    assert_eq!(detached, vec![3, 2, 1]);
    assert_eq!(entries(&log, "detach"), vec!["detach 3", "detach 2", "detach 1"]);
    assert_eq!(stack.len(), 0);
    assert_eq!(stack.boundary(), 0);
    assert!(stack.clear().is_empty());
}
