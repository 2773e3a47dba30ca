use panama::art::PrimaryColor::{Blue, Red, Yellow};
use panama::art::SecondaryColor::{Green, Orange, Purple};
use panama::art::{mix, RYB};
use panama::blog::Post;
use panama::fibonacci::fibonacci;
use panama::hello::HelloMacro;
use panama::mode::mode;
use panama::quota::{message, quota_level, LimitTracker, Messenger, Quota};
use std::cell::RefCell;

#[test]
fn main_basics() {
    assert_eq!(fibonacci(0), 0);
    assert_eq!(fibonacci(1), 1);
    assert_eq!(fibonacci(2), 1);
    assert_eq!(fibonacci(3), 2);
    assert_eq!(fibonacci(4), 3);
    assert_eq!(fibonacci(5), 5);
    assert_eq!(fibonacci(6), 8);
    assert_eq!(fibonacci(7), 13);
    assert_eq!(fibonacci(8), 21);
    assert_eq!(fibonacci(9), 34);
    assert_eq!(fibonacci(10), 55);
    assert_eq!(fibonacci(11), 89);
    assert_eq!(fibonacci(12), 144);
    assert_eq!(fibonacci(13), 233);
    assert_eq!(fibonacci(14), 377);
    assert_eq!(fibonacci(15), 610);
    assert_eq!(fibonacci(16), 987);
    assert_eq!(fibonacci(17), 1597);
    assert_eq!(fibonacci(18), 2584);
    assert_eq!(fibonacci(19), 4181);
    assert_eq!(fibonacci(20), 6765);
}

#[test]
fn test_mode() {
    assert_eq!(
        mode(&[9, 10, 12, 13, 13, 13, 15, 15, 16, 16, 18, 22, 23, 24, 24, 25]),
        vec![13]
    );
    assert_eq!(mode(&[1, 2, 2, 3, 4, 7, 9]), vec![2]);
    assert_eq!(mode(&[1, 2, 3, 4]), vec![1, 2, 3, 4]);
    assert_eq!(mode(&[1]), vec![1]);
    assert_eq!(mode(&[]), vec![]);
}

#[test]
fn mode_keeps_order_of_appearance() {
    assert_eq!(mode(&[5, 1, 5, 1, 2]), vec![5, 1]);
    assert_eq!(mode(&[1, 2, 1, 2]), vec![1, 2]);
    assert_eq!(mode(&[7, 7, 3, 3]), vec![7, 3]);
    assert_eq!(mode(&[-4, -4, 0]), vec![-4]);
}

#[test]
fn mix_different_colors() {
    let orange = RYB::Secondary(Orange);
    let green = RYB::Secondary(Green);
    let purple = RYB::Secondary(Purple);

    assert_eq!(mix(Red, Yellow), orange);
    assert_eq!(mix(Yellow, Red), orange);
    assert_eq!(mix(Red, Blue), purple);
    assert_eq!(mix(Blue, Red), purple);
    assert_eq!(mix(Yellow, Blue), green);
    assert_eq!(mix(Blue, Yellow), green);
}

#[test]
fn mix_same_colors() {
    assert_eq!(mix(Red, Red), RYB::Primary(Red));
    assert_eq!(mix(Yellow, Yellow), RYB::Primary(Yellow));
    assert_eq!(mix(Blue, Blue), RYB::Primary(Blue));
}

struct MockMessenger {
    sent_messages: RefCell<Vec<String>>,
}

impl MockMessenger {
    fn new() -> MockMessenger {
        MockMessenger {
            sent_messages: RefCell::new(vec![]),
        }
    }
}

impl Messenger for MockMessenger {
    fn send(&self, message: &str) {
        self.sent_messages.borrow_mut().push(String::from(message));
    }
}

#[test]
fn it_sends_an_over_75_percent_warning_message() {
    let mock_messenger = MockMessenger::new();
    let mut limit_tracker = LimitTracker::new(&mock_messenger, 100);

    limit_tracker.set_value(80);

    assert_eq!(mock_messenger.sent_messages.borrow().len(), 1);
}

#[test]
fn tracker_sends_the_message_for_each_level() {
    let mock_messenger = MockMessenger::new();
    let mut limit_tracker = LimitTracker::new(&mock_messenger, 100);
    limit_tracker.set_value(74);
    limit_tracker.set_value(75);
    limit_tracker.set_value(90);
    limit_tracker.set_value(100);
    assert_eq!(
        *mock_messenger.sent_messages.borrow(),
        vec![
            "Warning: You've used up over 75% of your quota!".to_string(),
            "Urgent warning: You've used up over 90% of your quota!".to_string(),
            "Error: You are over your quota!".to_string(),
        ]
    );
}

#[test]
fn quota_levels_at_the_edges() {
    assert_eq!(quota_level(0, 0), None);
    assert_eq!(quota_level(1, 0), Some(Quota::Over));
    assert_eq!(quota_level(2, 3), None);
    assert_eq!(quota_level(3, 4), Some(Quota::Warning));
    assert_eq!(quota_level(9, 10), Some(Quota::Urgent));
    assert_eq!(quota_level(usize::MAX - 1, usize::MAX), Some(Quota::Urgent));
    assert_eq!(quota_level(usize::MAX, 7), Some(Quota::Over));
    assert_eq!(message(Quota::Over), "Error: You are over your quota!");
}

struct Pancakes;

impl HelloMacro for Pancakes {
    fn hello_macro() {
        println!("Hello, Macro! My name is Pancakes!");
    }
}

#[test]
fn implement_trait_without_macro() {
    Pancakes::hello_macro();
}

#[test]
fn blog_post_goes_through_review() {
    let mut post = Post::new();
    post.add_text("I ate a salad");
    post.add_text(" for lunch today");
    let post = post.request_review();
    let post = post.approve();
    assert_eq!(post.content(), "I ate a salad for lunch today");
}
