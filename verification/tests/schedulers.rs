use vn_engine::animator::{is_token_at, split_at_token, split_segments, DisplayText};
use vn_engine::auto::{AutoExecutor, SkipExecutor};
use vn_engine::command::Command;
use vn_engine::delay::{millis_of, DelayExecutor};
use vn_engine::text::{chars_of, string_of};

fn figure(name: &str, delay: Option<&str>) -> Command {
    Command::Figure {
        name: name.to_string(),
        distance: "z1".to_string(),
        body: "stand".to_string(),
        face: "smile".to_string(),
        position: "0".to_string(),
        delay: delay.map(|d| d.to_string()),
    }
}

fn mv(name: &str, action: &str, repeat: i32, delay: Option<&str>) -> Command {
    Command::Move {
        name: name.to_string(),
        distance: "z1".to_string(),
        body: "stand".to_string(),
        face: "smile".to_string(),
        position: "0".to_string(),
        action: action.to_string(),
        repeat,
        delay: delay.map(|d| d.to_string()),
    }
}

fn name_of(c: &Command) -> &str {
    match c {
        Command::Figure { name, .. } => name,
        Command::Move { name, .. } => name,
        _ => "",
    }
}

#[test]
fn text_is_revealed_prefix_by_prefix() {
    let mut t = DisplayText::new();
    assert!(!t.is_running);
    assert_eq!(t.poll(), None);
    t.start_animation("ABC".to_string(), 30);
    assert!(t.is_running);
    assert_eq!(t.poll(), Some("A".to_string()));
    assert_eq!(t.poll(), Some("AB".to_string()));
    assert!(t.is_running);
    assert_eq!(t.poll(), Some("ABC".to_string()));
    assert!(t.is_running);
    assert_eq!(t.poll(), None);
    assert!(!t.is_running);
    assert_eq!(t.poll(), None);
}

#[test]
fn end_shows_the_whole_line_at_the_next_step() {
    for polls_before in 0..3 {
        let mut t = DisplayText::new();
        t.start_animation("ABC".to_string(), 30);
        for _ in 0..polls_before {
            t.next_character();
        }
        t.end();
        assert_eq!(t.poll(), Some("ABC".to_string()));
        assert_eq!(t.poll(), None);
        assert!(!t.is_running);
    }
    let mut empty = DisplayText::new();
    empty.start_animation(String::new(), 30);
    empty.end();
    assert_eq!(empty.current_index, 0);
    assert_eq!(empty.poll(), None);
    assert!(!empty.is_running);
}

#[test]
fn speed_zero_shows_the_line_at_once() {
    let mut t = DisplayText::new();
    t.start_animation("你好".to_string(), 0);
    assert_eq!(t.poll(), Some("你好".to_string()));
    assert!(!t.is_running);
    assert_eq!(t.poll(), None);
}

#[test]
fn token_is_passed_over_as_one_unit() {
    let mut t = DisplayText::new();
    t.start_animation("a{nns}bc{nns}".to_string(), 10);
    let mut seen = Vec::new();
    while let Some(s) = t.poll() {
        seen.push(s);
    }
    assert_eq!(seen, vec!["a", "a{nns}b", "a{nns}bc", "a{nns}bc{nns}"]);
    assert!(!t.is_running);
    let v = chars_of("{nns}x{nn}");
    assert!(is_token_at(&v, 0));
    assert!(!is_token_at(&v, 1));
    assert!(!is_token_at(&v, 6));
    assert!(!is_token_at(&v, 100));
    assert!(!is_token_at(&chars_of("{nn"), 0));
}

#[test]
fn text_splits_into_three_panes() {
    assert_eq!(split_segments("one"), ("one".to_string(), String::new(), String::new()));
    assert_eq!(split_segments(" one {nns} two "), ("one".to_string(), "two".to_string(), String::new()));
    assert_eq!(
        split_segments("a{nns}b{nns}c{nns}d"),
        ("a".to_string(), "b".to_string(), "c".to_string())
    );
    assert_eq!(split_segments("{nns}"), (String::new(), String::new(), String::new()));
    assert_eq!(split_segments(""), (String::new(), String::new(), String::new()));
    for text in ["", "a", "a{nns}", "{nns}{nns}", "x{nns}y{nn}z{nns}", "{{nns}}"] {
        let mine: Vec<String> = split_at_token(&chars_of(text)).iter().map(string_of).collect();
        let theirs: Vec<String> = text.split("{nns}").map(|p| p.to_string()).collect();
        assert_eq!(mine, theirs, "for {:?}", text);
    }
}

#[test]
fn delayed_figure_waits_its_delay() {
    let mut q = DelayExecutor::new();
    assert_eq!(q.wait(), None);
    assert!(q.poll().is_none());
    q.enqueue(figure("amy", Some("100")));
    q.enqueue(figure("bob", Some("x")));
    assert_eq!(q.wait(), Some(100));
    assert!(q.poll().is_none());
    q.elapse();
    assert_eq!(q.wait(), Some(0));
    let first = q.poll().unwrap();
    assert_eq!(name_of(&first), "amy");
    assert!(matches!(first, Command::Figure { delay: None, .. }));
    assert!(q.poll().is_none());
    q.elapse();
    q.elapse();
    assert_eq!(name_of(&q.poll().unwrap()), "bob");
    assert_eq!(q.wait(), None);
    assert_eq!(millis_of(&None), 0);
    assert_eq!(millis_of(&Some("301".to_string())), 301);
    assert_eq!(millis_of(&Some("-3".to_string())), 0);
}

#[test]
fn skip_applies_what_waits_at_once_and_in_order() {
    let mut q = DelayExecutor::new();
    q.enqueue(figure("first", Some("5000")));
    q.enqueue(mv("nodder", "nod", 2, Some("301")));
    q.enqueue(Command::Label("stray".to_string()));
    q.enqueue(mv("mover", "back", 1, Some("150")));
    q.enqueue(figure("late", Some("100")));
    q.skip();
    assert!(q.waiting.is_empty());
    let mut seen = Vec::new();
    while let Some(c) = q.poll() {
        assert!(matches!(
            &c,
            Command::Figure { delay: None, .. } | Command::Move { delay: None, .. } | Command::Label(_)
        ));
        seen.push(name_of(&c).to_string());
    }
    assert_eq!(seen, vec!["first", "nodder", "", "mover", "late"]);
}

#[test]
fn skip_hands_on_a_waiting_nod() {
    let mut q = DelayExecutor::new();
    q.enqueue(mv("nodder", "nod", 3, Some("301")));
    q.skip();
    assert!(q.waiting.is_empty());
    assert_eq!(q.ready.len(), 1);
    let c = q.poll().unwrap();
    assert!(matches!(&c, Command::Move { action, repeat: 3, delay: None, .. } if action == "nod"));
    assert!(q.poll().is_none());
}

#[test]
fn clear_drops_what_waits() {
    let mut q = DelayExecutor::new();
    q.enqueue(figure("ready", Some("0")));
    q.elapse();
    q.enqueue(figure("dropped", Some("100")));
    q.clear();
    assert_eq!(q.wait(), None);
    q.elapse();
    q.skip();
    let mut seen = Vec::new();
    while let Some(c) = q.poll() {
        seen.push(name_of(&c).to_string());
    }
    assert_eq!(seen, vec!["ready"]);
}

#[test]
fn a_command_that_never_leaves_holds_the_queue() {
    let mut q = DelayExecutor::new();
    q.enqueue(Command::Empty);
    q.enqueue(figure("behind", Some("1")));
    assert_eq!(q.wait(), None);
    q.elapse();
    assert_eq!(q.waiting.len(), 2);
    assert!(q.poll().is_none());
    q.skip();
    assert!(q.waiting.is_empty());
    assert!(matches!(q.poll(), Some(Command::Empty)));
    assert_eq!(name_of(&q.poll().unwrap()), "behind");
    assert!(q.poll().is_none());
}

#[test]
fn auto_play_debounces_and_pulses() {
    let mut a = AutoExecutor::new();
    assert!(!a.poll());
    a.fire();
    assert_eq!(a.ready, 0);
    a.schedule(1000);
    a.schedule(250);
    assert_eq!(a.wait(), Some(250));
    a.fire();
    assert_eq!(a.wait(), None);
    assert_eq!(a.ready, 1);
    assert!(!a.poll());
    assert_eq!(a.ready, 1);
    a.toggle();
    assert!(a.is_auto);
    assert!(a.poll());
    assert!(!a.poll());
    a.schedule(500);
    a.reset();
    assert_eq!(a.wait(), None);
    a.fire();
    assert!(!a.poll());
    a.schedule(700);
    a.toggle();
    assert!(!a.is_auto);
    assert_eq!(a.wait(), None);
    a.ready = u64::MAX;
    a.schedule(1);
    a.fire();
    assert_eq!(a.ready, u64::MAX);
}

#[test]
fn skip_ticks_while_switched_on() {
    let mut s = SkipExecutor::new();
    assert!(!s.poll());
    s.toggle();
    assert!(s.poll());
    assert!(s.poll());
    s.toggle();
    assert!(!s.poll());
}
