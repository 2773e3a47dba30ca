use panama::gui::{Button, Draw, Screen};
use std::cell::RefCell;
use std::rc::Rc;

struct Recorder {
    name: &'static str,
    log: Rc<RefCell<Vec<&'static str>>>,
}

impl Draw for Recorder {
    fn draw(&self) {
        self.log.borrow_mut().push(self.name);
    }
}

#[test]
fn screen_draws_each_component_in_order() {
    let log = Rc::new(RefCell::new(Vec::new()));
    let screen = Screen {
        components: vec![
            Box::new(Recorder { name: "first", log: log.clone() }),
            Box::new(Button { width: 50, height: 10, label: String::from("OK") }),
            Box::new(Recorder { name: "second", log: log.clone() }),
        ],
    };
    screen.run();
    assert_eq!(*log.borrow(), vec!["first", "second"]);
    screen.run();
    assert_eq!(log.borrow().len(), 4);
}
