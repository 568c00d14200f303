use std::cell::RefCell;
use std::rc::Rc;

use rgengine::application::{AppCommand, Application};
use rgengine::events::{Event, EventType, InputAction, NativeEvent, RGEvent};
use rgengine::layers::Layer;

type Log = Rc<RefCell<Vec<String>>>;

struct Recorder {
    id: usize,
    log: Log,
}

impl Layer for Recorder {
    fn on_attach(&mut self) {
        self.log.borrow_mut().push(format!("attach {}", self.id));
    }

    fn on_detach(&mut self) {
        self.log.borrow_mut().push(format!("detach {}", self.id));
    }

    fn on_update(&mut self) {
        self.log.borrow_mut().push(format!("update {}", self.id));
    }

    fn on_event(&mut self, event: &mut Event) {
        self.log.borrow_mut().push(format!("event {} {}", self.id, event.describe()));
    }

    fn on_render(&mut self) {
        self.log.borrow_mut().push(format!("render {}", self.id));
    }

    fn get_id(&self) -> usize {
        self.id
    }
}

fn app_with_two_layers(log: &Log) -> Application<Recorder> {
    let mut app = Application::new();
    app.push_layer(Recorder { id: 1, log: Rc::clone(log) });
    app.push_overlay(Recorder { id: 2, log: Rc::clone(log) });
    app
}

#[test]
fn new_application_is_running_and_empty() {
    let app: Application<Recorder> = Application::new();
    assert!(app.is_running());
    assert_eq!(app.layers().len(), 0);
}

#[test]
fn window_close_clears_running_flag_and_still_reaches_layers() {
    let log: Log = Rc::new(RefCell::new(Vec::new()));
    let mut app = app_with_two_layers(&log);
    let mut event = Event::new(RGEvent::WindowClose);
    let visited = app.on_event(&mut event);
    assert!(!app.is_running());
    assert_eq!(visited.len(), 2);
    let seen: Vec<String> = log.borrow().iter().filter(|e| e.starts_with("event")).cloned().collect();
    assert_eq!(seen, vec!["event 2 WindowClose", "event 1 WindowClose"]);
}

#[test]
fn other_events_keep_running() {
    let log: Log = Rc::new(RefCell::new(Vec::new()));
    let mut app = app_with_two_layers(&log);
    let mut event = Event::new(RGEvent::KeyPressed { key: 256, repeat: false });
    app.on_event(&mut event);
    assert!(app.is_running());
}

#[test]
fn step_finishes_the_iteration_after_a_close() {
    let log: Log = Rc::new(RefCell::new(Vec::new()));
    let mut app = app_with_two_layers(&log);
    log.borrow_mut().clear();
    let report = app.step(vec![
        NativeEvent::Close,
        NativeEvent::Key { key: 65, action: InputAction::Press },
    ]);
    assert!(!app.is_running());
    assert_eq!(report.updated, vec![1, 2]);
    assert_eq!(report.events.len(), 2);
    assert_eq!(report.events[0].event.payload(), RGEvent::WindowClose);
    assert_eq!(report.events[1].event.payload(), RGEvent::KeyPressed { key: 65, repeat: false });
    for record in &report.events {
        let ids: Vec<usize> = record.visited.iter().map(|v| v.layer_id).collect();
        assert_eq!(ids, vec![2, 1]);
        assert!(!record.event.is_handled());
    }
    assert_eq!(
        *log.borrow(),
        vec![
            "event 2 WindowClose",
            "event 1 WindowClose",
            "event 2 KeyPressed",
            "event 1 KeyPressed",
            "update 1",
            "update 2",
        ]
    );
}

#[test]
fn step_without_close_keeps_running() {
    let log: Log = Rc::new(RefCell::new(Vec::new()));
    let mut app = app_with_two_layers(&log);
    let report = app.step(vec![NativeEvent::Focus { focused: true }, NativeEvent::Other]);
    assert!(app.is_running());
    assert_eq!(report.updated, vec![1, 2]);
    assert_eq!(report.events[1].event.payload(), RGEvent::Unknown);
    let report = app.step(Vec::new());
    assert!(report.events.is_empty());
    assert_eq!(report.updated, vec![1, 2]);
}

#[test]
fn registered_kind_also_quits() {
    let log: Log = Rc::new(RefCell::new(Vec::new()));
    let mut app = app_with_two_layers(&log);
    app.register_handler(EventType::KeyPressed, AppCommand::Quit);
    app.step(vec![NativeEvent::Key { key: 256, action: InputAction::Press }]);
    assert!(!app.is_running());
}

#[test]
fn application_pops_and_renders_layers() {
    let log: Log = Rc::new(RefCell::new(Vec::new()));
    let mut app = app_with_two_layers(&log);
    assert!(app.pop_layer(2).is_none());
    assert!(app.pop_overlay(2).is_some());
    app.render_layers();
    assert_eq!(app.update_layers(), vec![1]);
    assert!(app.pop_layer(1).is_some());
    assert_eq!(app.layers().len(), 0);
    let detached: Vec<String> = log.borrow().iter().filter(|e| e.starts_with("detach")).cloned().collect();
    assert_eq!(detached, vec!["detach 2", "detach 1"]);
    assert!(log.borrow().contains(&"render 1".to_string()));
}

#[test]
fn clearing_detaches_every_layer_topmost_first() {
    let log: Log = Rc::new(RefCell::new(Vec::new()));
    let mut app = app_with_two_layers(&log);
    app.push_layer(Recorder { id: 3, log: Rc::clone(&log) });
    let detached: Vec<usize> = app.clear_layers().iter().map(|l| l.get_id()).collect();
    assert_eq!(detached, vec![2, 3, 1]);
    assert_eq!(app.layers().len(), 0);
    assert_eq!(app.layers().boundary(), 0);
    let seen: Vec<String> = log.borrow().iter().filter(|e| e.starts_with("detach")).cloned().collect();
    assert_eq!(seen, vec!["detach 2", "detach 3", "detach 1"]);
}
