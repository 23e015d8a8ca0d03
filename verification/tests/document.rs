use vn_engine::assoc::{get, position_of, put, take_out};
use vn_engine::command::{Command, Commands};
use vn_engine::overlay::Overlay;
use vn_engine::script::{make_slot_key, BackLog, Figure, PreBgm, Script};

fn figure(name: &str, body: &str, face: &str, position: &str) -> Command {
    Command::Figure {
        name: name.to_string(),
        distance: "z1".to_string(),
        body: body.to_string(),
        face: face.to_string(),
        position: position.to_string(),
        delay: None,
    }
}

fn entry(i: usize) -> BackLog {
    BackLog { front: format!("s{}", i), back: format!("t{}", i), script: "main".to_string(), index: i }
}

#[test]
fn association_lists_set_in_place() {
    let mut list: Vec<(String, usize)> = Vec::new();
    put(&mut list, "a".to_string(), 1);
    put(&mut list, "b".to_string(), 2);
    put(&mut list, "a".to_string(), 3);
    assert_eq!(list, vec![("a".to_string(), 3), ("b".to_string(), 2)]);
    assert_eq!(get(&list, &"b".to_string()), Some(&2));
    assert_eq!(get(&list, &"c".to_string()), None);
    assert_eq!(position_of(&list, &"b".to_string()), 1);
    assert_eq!(position_of(&list, &"zz".to_string()), 2);
    assert_eq!(take_out(&mut list, &"a".to_string()), Some(3));
    assert_eq!(take_out(&mut list, &"a".to_string()), None);
    assert_eq!(list, vec![("b".to_string(), 2)]);
}

#[test]
fn overlay_gives_the_nearest_declaration_before() {
    let mut o: Overlay<String> = Overlay::new();
    assert_eq!(o.nearest(10), None);
    o.set(5, "five".to_string());
    o.set(2, "two".to_string());
    o.set(9, "nine".to_string());
    o.set(5, "FIVE".to_string());
    o.set(0, "zero".to_string());
    assert_eq!(o.len(), 4);
    let keys: Vec<usize> = (0..o.len()).map(|p| o.key_at(p)).collect();
    assert_eq!(keys, vec![0, 2, 5, 9]);
    assert_eq!(o.value_at(2), "FIVE");
    for (index, want) in [(0, (0, "zero")), (1, (0, "zero")), (2, (2, "two")), (4, (2, "two")), (5, (5, "FIVE")), (8, (5, "FIVE")), (9, (9, "nine")), (usize::MAX, (9, "nine"))] {
        let got = o.nearest(index).map(|(k, v)| (k, v.as_str()));
        assert_eq!(got, Some(want), "at {}", index);
    }
    assert_eq!(o.get(5).map(|v| v.as_str()), Some("FIVE"));
    assert_eq!(o.get(6), None);
    assert_eq!(o.position_in_force(1), Some(0));
    let mut late: Overlay<String> = Overlay::new();
    late.set(3, "x".to_string());
    assert_eq!(late.nearest(2), None);
    assert_eq!(late.position_in_force(2), None);
}

#[test]
fn new_script_is_empty() {
    let mut script = Script::new();
    assert_eq!(script.name(), "");
    assert_eq!(script.index(), 0);
    assert_eq!(script.explain(), "");
    assert_eq!(script.current_bgm(), "");
    assert!(script.next_command().is_none());
    assert_eq!(script.index(), 1);
    assert!(script.backlog().is_empty());
    assert_eq!(script.max_offset(), 0);
    assert!(script.pre_bg().is_none());
    assert!(matches!(script.pre_bgm(), PreBgm::Keep));
    assert!(script.pre_figures().is_none());
}

#[test]
fn next_command_moves_the_cursor() {
    let mut script = Script::new();
    script.commands.push(Commands::OneCmd(Command::Label("a".to_string())));
    script.commands.push(Commands::OneCmd(Command::Label("b".to_string())));
    assert!(matches!(script.next_command(), Some(Commands::OneCmd(Command::Label(l))) if l == "a"));
    assert_eq!(script.index(), 1);
    assert!(matches!(script.next_command(), Some(Commands::OneCmd(Command::Label(l))) if l == "b"));
    assert_eq!(script.index(), 2);
    assert!(script.next_command().is_none());
    assert_eq!(script.index(), 3);
    script.set_index(usize::MAX - 1);
    assert!(script.next_command().is_none());
    assert_eq!(script.index(), usize::MAX);
}

#[test]
fn explain_is_the_start_of_the_line_and_an_ellipsis() {
    let mut script = Script::new();
    script.set_explain(&"short".to_string());
    assert_eq!(script.explain(), "short...");
    script.set_explain(&"abcdefghijklmnopqrstuvwxyz".to_string());
    assert_eq!(script.explain(), "abcdefghijklmnopqr...");
    script.set_explain(&"一二三四五六七八".to_string());
    assert_eq!(script.explain(), "一二三四五六...");
    script.set_explain(&"a一二三四五六七".to_string());
    assert_eq!(script.explain(), "a一二三四五...");
}

#[test]
fn backlog_window_shows_four_lines() {
    let mut script = Script::new();
    script.set_backlog((0..10).map(entry).collect());
    assert_eq!(script.max_offset(), 6);
    let shown: Vec<usize> = script.backlog().iter().map(|e| e.2).collect();
    assert_eq!(shown, vec![6, 7, 8, 9]);
    let first = &script.backlog()[0];
    assert_eq!((first.0.as_str(), first.1.as_str(), first.3.as_str()), ("t6", "s6", "main"));
    script.set_offset(3);
    assert_eq!(script.backlog_offset, 3);
    let shown: Vec<usize> = script.backlog_entries().iter().map(|e| e.index).collect();
    assert_eq!(shown, vec![3, 4, 5, 6]);
    script.set_offset(100);
    assert_eq!(script.backlog_offset, 6);
    let shown: Vec<usize> = script.backlog().iter().map(|e| e.2).collect();
    assert_eq!(shown, vec![0, 1, 2, 3]);
    script.set_offset(-2);
    assert_eq!(script.backlog_offset, 4);
    script.set_offset(i32::MIN);
    assert_eq!(script.backlog_offset, 0);
    script.set_offset(i32::MAX);
    assert_eq!(script.backlog_offset, 6);
    script.set_backlog((0..3).map(entry).collect());
    script.set_offset(0);
    assert_eq!(script.backlog_offset, 0);
    assert_eq!(script.backlog().len(), 3);
    let taken = script.take_backlog();
    assert_eq!(taken.len(), 3);
}

#[test]
fn push_backlog_records_script_and_cursor() {
    let mut script = Script::new();
    script.name = "intro".to_string();
    script.set_index(7);
    script.push_backlog("A".to_string(), "Hello".to_string());
    assert_eq!(script.backlog.len(), 1);
    let e = &script.backlog[0];
    assert_eq!((e.front.as_str(), e.back.as_str(), e.script.as_str(), e.index), ("A", "Hello", "intro", 7));
}

#[test]
fn pending_overlays_are_taken_once() {
    let mut script = Script::new();
    script.set_pre_bg(Some("room".to_string()));
    script.set_pre_bgm(PreBgm::Play("theme".to_string()));
    let mut f = Figure::default();
    f.push("z1", "0", figure("amy", "stand", "smile", "0"));
    script.set_pre_figures(Some(f));
    script.set_current_bgm("old".to_string());
    assert_eq!(script.current_bgm(), "old");
    assert_eq!(script.pre_bg(), Some("room".to_string()));
    assert_eq!(script.pre_bg(), None);
    assert!(matches!(script.pre_bgm(), PreBgm::Play(b) if b == "theme"));
    assert!(matches!(script.pre_bgm(), PreBgm::Keep));
    assert_eq!(script.pre_figures().map(|f| f.0.len()), Some(1));
    assert!(script.pre_figures().is_none());
}

#[test]
fn figures_are_kept_by_slot_and_block() {
    assert_eq!(make_slot_key("z1", "-2"), "z1-2");
    let mut script = Script::new();
    script.update_figures(1, "z1", "0", figure("amy", "stand", "smile", "0"));
    script.update_figures(1, "z1", "2", figure("bob", "lean", "grin", "2"));
    script.update_figures(4, "z1", "0", figure("amy", "sit", "", "0"));
    script.update_figures(1, "z1", "0", figure("amy", "walk", "calm", "0"));
    assert!(script.get_figures(0).is_none());
    let (k, f) = script.get_figures(3).unwrap();
    assert_eq!(k, 1);
    assert_eq!(f.0.len(), 2);
    assert_eq!(f.0[0].0, "z10");
    assert!(matches!(&f.0[0].1, Command::Figure { body, .. } if body == "walk"));
    assert_eq!(f.commands().len(), 2);
    assert_eq!(script.find_latest_fg(3, "z1", "0"), ("walk".to_string(), "calm".to_string()));
    assert_eq!(script.find_latest_fg(9, "z1", "0"), ("sit".to_string(), String::new()));
    assert_eq!(script.find_latest_fg(9, "z1", "2"), ("lean".to_string(), "grin".to_string()));
    assert_eq!(script.find_latest_fg(0, "z1", "0"), (String::new(), String::new()));
    let taken = script.change_figure(9, "z1", "0");
    assert!(matches!(taken, Some(Command::Figure { ref body, .. }) if body == "sit"));
    let (k, f) = script.get_figures(9).unwrap();
    assert_eq!((k, f.0.len()), (4, 0));
    let taken = script.change_figure(9, "z1", "0");
    assert!(matches!(taken, Some(Command::Figure { ref body, .. }) if body == "walk"));
    assert!(script.change_figure(9, "z1", "0").is_none());
    assert!(script.change_figure(0, "z1", "2").is_none());
}

#[test]
fn marks_are_found() {
    let mut script = Script::new();
    script.clear.push(3);
    script.clear.push(8);
    assert!(script.is_marked(3));
    assert!(script.is_marked(8));
    assert!(!script.is_marked(0));
}

#[test]
fn a_missing_part_comes_from_the_nearest_directive_that_names_it() {
    let delayed = Command::Figure {
        name: "amy".to_string(),
        distance: "z1".to_string(),
        body: "sit".to_string(),
        face: String::new(),
        position: "0".to_string(),
        delay: Some("100".to_string()),
    };
    let mut script = Script::new();
    script.commands.push(Commands::OneCmd(figure("amy", "stand", "smile", "0")));
    script.commands.push(Commands::EmptyCmd);
    script.commands.push(Commands::VarCmds(vec![
        figure("bob", "lean", "grin", "2"),
        delayed,
        Command::Label("here".to_string()),
    ]));
    script.commands.push(Commands::OneCmd(figure("amy", "", "calm", "0")));
    script.commands.push(Commands::OneCmd(figure("amy", "walk", "", "0")));
    // the nearest body is that of the delayed directive; it names no face
    assert_eq!(script.find_nearest_part(3, "z1", "0", false), "sit");
    assert_eq!(script.find_nearest_part(2, "z1", "0", false), "sit");
    assert_eq!(script.find_nearest_part(2, "z1", "0", true), "smile");
    assert_eq!(script.find_nearest_part(3, "z1", "0", true), "calm");
    assert_eq!(script.find_nearest_part(1, "z1", "0", false), "stand");
    assert_eq!(script.find_nearest_part(0, "z1", "0", true), "smile");
    // later blocks do not count, nor do other slots
    assert_eq!(script.find_nearest_part(9, "z1", "0", false), "walk");
    assert_eq!(script.find_nearest_part(9, "z1", "2", false), "lean");
    assert_eq!(script.find_nearest_part(1, "z1", "2", false), "");
    assert_eq!(script.find_nearest_part(9, "no", "0", true), "");
}

#[test]
fn the_blocks_are_visited_in_order_each_once() {
    let mut script = Script::new();
    for name in ["a", "b", "c"] {
        script.commands.push(Commands::OneCmd(Command::Label(name.to_string())));
    }
    let mut seen = Vec::new();
    for i in 0..5 {
        assert_eq!(script.index(), i);
        match script.next_command() {
            Some(Commands::OneCmd(Command::Label(l))) => seen.push(l),
            Some(_) => panic!("another block"),
            None => assert!(i >= 3),
        }
    }
    assert_eq!(seen, vec!["a", "b", "c"]);
    assert_eq!(script.index(), 5);
}
