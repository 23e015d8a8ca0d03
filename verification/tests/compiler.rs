use vn_engine::command::{Command, Commands, ParserError};
use vn_engine::parser::{parse_script, resolve, target_string};
use vn_engine::script::Script;
use vn_engine::text::chars_of;

fn label(script: &str, name: &str) -> (String, String) {
    (script.to_string(), name.to_string())
}

#[test]
fn compiles_four_paragraphs_to_four_blocks() {
    let text = "@bg room\n\n@bgm theme\n\nA“Hello”\n\n@choose 1\n1 go:start\n\n";
    let script = parse_script(text, "go").unwrap();
    assert_eq!(script.commands.len(), 4);
    assert!(matches!(&script.commands[0], Commands::OneCmd(Command::SetBackground(b)) if b == "room"));
    assert!(matches!(&script.commands[1], Commands::OneCmd(Command::PlayBgm(b)) if b == "theme"));
    assert!(matches!(
        &script.commands[2],
        Commands::OneCmd(Command::Dialogue { speaker, text }) if speaker == "A" && text == "Hello"
    ));
    match &script.commands[3] {
        Commands::OneCmd(Command::Choice((prompt, options))) => {
            assert_eq!(prompt, "");
            assert_eq!(options.len(), 1);
            assert_eq!(options[0], ("1".to_string(), label("go", "start")));
        }
        other => panic!("unexpected block {:?}", other),
    }
    assert_eq!(script.get_choice_label("1"), Some(&label("go", "start")));
    assert_eq!(script.get_background(3).map(|(k, v)| (k, v.clone())), Some((0, "room".to_string())));
    assert_eq!(script.get_bgm(0), None);
    assert_eq!(script.get_bgm(1).map(|(k, v)| (k, v.clone())), Some((1, "theme".to_string())));
}

#[test]
fn version_mismatch_is_refused_and_registers_nothing() {
    let text = "%version 2\n@label start\n\n@bg room\n";
    match parse_script(text, "main") {
        Err(ParserError::UnSupportedVersion { need, indeed }) => {
            assert_eq!(need, 1);
            assert_eq!(indeed, "2");
        }
        other => panic!("unexpected result {:?}", other.map(|s| s.commands.len())),
    }
    let mut script = Script::new();
    script.name = "main".to_string();
    assert!(matches!(
        script.parse_script(text),
        Err(ParserError::UnSupportedVersion { need: 1, indeed }) if indeed == "2"
    ));
    assert_eq!(script.find_label("start"), None);
    assert!(script.labels.is_empty());
    assert!(script.commands.is_empty());
}

#[test]
fn version_line_alone_yields_no_block() {
    let script = parse_script("%version 1\n# a comment\n\n@label start\n", "main").unwrap();
    assert_eq!(script.commands.len(), 1);
    assert_eq!(script.find_label("start"), Some(0));
    let plus = parse_script("%version +1\n", "main").unwrap();
    assert_eq!(plus.commands.len(), 0);
}

#[test]
fn labels_point_at_their_blocks() {
    let text = "@label a\n@bg one\n\n# only a comment\n\n@bg two\n@label b\n\nX“hi”\n\n@label c\n";
    let script = parse_script(text, "s").unwrap();
    assert_eq!(script.commands.len(), 4);
    assert_eq!(script.find_label("a"), Some(0));
    assert_eq!(script.find_label("b"), Some(1));
    assert_eq!(script.find_label("c"), Some(3));
    assert_eq!(script.find_label("d"), None);
    assert!(matches!(&script.commands[0], Commands::VarCmds(v) if v.len() == 2));
    assert_eq!(script.get_background(0).map(|(k, v)| (k, v.clone())), Some((0, "one".to_string())));
    assert_eq!(script.get_background(2).map(|(k, v)| (k, v.clone())), Some((1, "two".to_string())));
    assert_eq!(script.get_background(100).map(|(k, v)| (k, v.clone())), Some((1, "two".to_string())));
}

#[test]
fn targets_resolve_by_the_shorthand_rules() {
    assert_eq!(resolve(&chars_of("other:end"), "cur"), label("other", "end"));
    assert_eq!(resolve(&chars_of("other:"), "cur"), label("other", "start"));
    assert_eq!(resolve(&chars_of(":end"), "cur"), label("cur", "end"));
    assert_eq!(resolve(&chars_of("other"), "cur"), label("other", "start"));
    assert_eq!(resolve(&chars_of(":"), "cur"), label("cur", "start"));
    assert_eq!(resolve(&chars_of("a:b:c"), "cur"), label("a", "b:c"));
    assert_eq!(target_string(&label("a", "b")), "a:b");
    for arg in ["other:end", "other:", ":end", "other", ":"] {
        let first = resolve(&chars_of(arg), "cur");
        let again = resolve(&chars_of(&target_string(&first)), "cur");
        assert_eq!(first, again);
    }
}

#[test]
fn jump_directive_carries_the_resolved_target() {
    let script = parse_script("@jump :end\n\n@jump next\n", "cur").unwrap();
    assert!(matches!(&script.commands[0], Commands::OneCmd(Command::Jump(l)) if *l == label("cur", "end")));
    assert!(matches!(&script.commands[1], Commands::OneCmd(Command::Jump(l)) if *l == label("next", "start")));
}

#[test]
fn each_error_has_an_input() {
    let invalid = parse_script("@bogus x\n", "s").unwrap_err();
    assert!(matches!(invalid, ParserError::InvalidCommand { line: 1, ref content } if content == "bogus x"));
    let no_space = parse_script("\n@bg\n", "s").unwrap_err();
    assert!(matches!(no_space, ParserError::InvalidCommand { line: 2, ref content } if content == "bg"));
    let malformed = parse_script("A“Hello\n", "s").unwrap_err();
    assert!(matches!(malformed, ParserError::MalformedDialogue { line: 1, ref content } if content == "A“Hello"));
    let unknown = parse_script("@bg a\n\nplain words\n", "s").unwrap_err();
    assert!(matches!(unknown, ParserError::UnknownLine { line: 3, ref content } if content == "plain words"));
    let percent = parse_script("%other 1\n", "s").unwrap_err();
    assert!(matches!(percent, ParserError::UnknownLine { line: 1, ref content } if content == "other 1"));
    let short = parse_script("@fg a|z1|body|face\n", "s").unwrap_err();
    assert!(matches!(short, ParserError::TooShort));
    let voice = parse_script("@voice a\n", "s").unwrap_err();
    assert!(matches!(voice, ParserError::TooShort));
    let choose = parse_script("@choose 2\nleft a:b\nright\n", "s").unwrap_err();
    assert!(matches!(choose, ParserError::ChooseError(ref m) if m == "Invalid choice: right"));
    let missing = parse_script("@choose 2\nleft a:b\n", "s").unwrap_err();
    assert!(matches!(missing, ParserError::ChooseError(ref m) if m == "Invalid choice: "));
    let count = parse_script("@choose many\n", "s").unwrap_err();
    assert!(matches!(count, ParserError::InvalidCommand { line: 1, ref content } if content == "choose many"));
    let clear = parse_script("@clear z1\n", "s").unwrap_err();
    assert!(matches!(clear, ParserError::InvalidCommand { line: 1, .. }));
}

#[test]
fn dialogue_ends_its_paragraph() {
    let script = parse_script("  @bg room  \nA “ Hello ” \nthis line is not read\n", "s").unwrap();
    assert_eq!(script.commands.len(), 1);
    match &script.commands[0] {
        Commands::VarCmds(v) => {
            assert_eq!(v.len(), 2);
            assert!(matches!(&v[1], Command::Dialogue { speaker, text } if speaker == "A" && text == "Hello"));
        }
        other => panic!("unexpected block {:?}", other),
    }
}

#[test]
fn figures_without_body_take_the_last_body_of_their_slot() {
    let text = "@fg amy|z1|stand|smile|0\n\n@fg amy|z1||frown|0\n\n@fg amy|z1||cry|0|200\n\n@fg amy|z1|sit|calm|0|100\n\n@fg bob|z1|lean|grin|2\n";
    let script = parse_script(text, "s").unwrap();
    assert_eq!(script.commands.len(), 5);
    let at = |i: usize| script.get_figures(i).map(|(k, f)| (k, f.0.clone())).unwrap();
    let (k0, f0) = at(0);
    assert_eq!(k0, 0);
    assert_eq!(f0.len(), 1);
    assert_eq!(f0[0].0, "z10");
    let (k1, f1) = at(1);
    assert_eq!(k1, 1);
    assert!(matches!(&f1[0].1, Command::Figure { body, face, delay, .. } if body == "stand" && face == "frown" && delay.is_none()));
    let (k2, f2) = at(2);
    assert_eq!(k2, 2);
    assert!(matches!(&f2[0].1, Command::Figure { body, face, delay, .. } if body == "stand" && face == "cry" && delay.is_none()));
    let (k3, _) = at(3);
    assert_eq!(k3, 2);
    let (k4, f4) = at(4);
    assert_eq!(k4, 4);
    assert_eq!(f4[0].0, "z12");
    assert_eq!(script.find_latest_fg(4, "z1", "0"), ("stand".to_string(), "cry".to_string()));
    assert_eq!(script.find_latest_fg(1, "z1", "0"), ("stand".to_string(), "frown".to_string()));
    assert_eq!(script.find_latest_fg(0, "z1", "0"), ("stand".to_string(), "smile".to_string()));
    assert_eq!(script.find_latest_fg(3, "z1", "2"), (String::new(), String::new()));
    assert!(matches!(
        &script.commands[3],
        Commands::OneCmd(Command::Figure { body, delay, .. }) if body == "sit" && delay.as_deref() == Some("100")
    ));
}

#[test]
fn clearing_everything_marks_the_block() {
    let script = parse_script("@bg a\n\n@clear All\n\n@clear z1|0\n\n@clear All|All\n", "s").unwrap();
    assert_eq!(script.clear, vec![1, 3]);
    assert!(matches!(&script.commands[1], Commands::OneCmd(Command::Clear(d, p)) if d == "All" && p == "All"));
    assert!(matches!(&script.commands[2], Commands::OneCmd(Command::Clear(d, p)) if d == "z1" && p == "0"));
}

#[test]
fn choices_of_one_text_keep_the_later_target() {
    let script = parse_script("@choose 3\nyes a:x\nno b:y\nyes c:z\nignored line\n", "s").unwrap();
    match &script.commands[0] {
        Commands::OneCmd(Command::Choice((_, options))) => {
            assert_eq!(options.len(), 2);
            assert_eq!(options[0], ("yes".to_string(), label("c", "z")));
            assert_eq!(options[1], ("no".to_string(), label("b", "y")));
        }
        other => panic!("unexpected block {:?}", other),
    }
    assert_eq!(script.get_choice_label("yes"), Some(&label("c", "z")));
}

#[test]
fn parse_block_appends_one_block() {
    let mut script = Script::new();
    script.name = "s".to_string();
    let lines = vec![(7, "@label here".to_string()), (8, "@bgm tune".to_string())];
    assert!(script.parse_block(&lines).is_ok());
    assert_eq!(script.commands.len(), 1);
    assert_eq!(script.find_label("here"), Some(0));
    let bad = vec![(9, "@label there".to_string()), (10, "nothing".to_string())];
    let err = script.parse_block(&bad).unwrap_err();
    assert!(matches!(err, ParserError::UnknownLine { line: 10, .. }));
    assert_eq!(script.commands.len(), 1);
    assert_eq!(script.find_label("there"), Some(1));
}

#[test]
fn with_name_names_and_compiles() {
    let mut script = Script::new();
    assert!(script.with_name("intro", "@label start\n\nA“Hi”\n").is_ok());
    assert_eq!(script.name(), "intro");
    assert_eq!(script.commands.len(), 2);
    let refused = script.with_name("other", "garbage");
    assert!(matches!(refused, Err(ParserError::UnknownLine { line: 1, content }) if content == "garbage"));
    assert_eq!(script.name(), "intro");
    assert_eq!(script.commands.len(), 2);
    assert_eq!(script.find_label("start"), Some(0));
}

#[test]
fn a_figure_without_body_keeps_its_own_face() {
    let script = parse_script("@fg amy|z1|stand|smile|0\n", "s").unwrap();
    let fig = |body: &str, face: &str, delay: Option<&str>| Command::Figure {
        name: "amy".to_string(),
        distance: "z1".to_string(),
        body: body.to_string(),
        face: face.to_string(),
        position: "0".to_string(),
        delay: delay.map(|d| d.to_string()),
    };
    let parts = |c: Option<Command>| match c {
        Some(Command::Figure { body, face, delay, .. }) => Some((body, face, delay)),
        _ => None,
    };
    let got = |b: &str, f: &str| Some((b.to_string(), f.to_string(), None));
    assert_eq!(parts(fig("", "cry", Some("200")).latest_fg(3, "z1", "0", &script)), got("stand", "cry"));
    assert_eq!(parts(fig("", "cry", None).latest_fg(3, "z1", "0", &script)), got("stand", "cry"));
    assert_eq!(parts(fig("", "", Some("200")).latest_fg(3, "z1", "0", &script)), got("stand", "smile"));
    assert_eq!(parts(fig("", "", None).latest_fg(3, "z1", "0", &script)), got("stand", "smile"));
    assert_eq!(parts(fig("sit", "", None).latest_fg(3, "z1", "0", &script)), got("sit", ""));
    assert_eq!(parts(fig("sit", "calm", Some("100")).latest_fg(3, "z1", "0", &script)), None);
    assert_eq!(parts(Command::Empty.latest_fg(3, "z1", "0", &script)), None);
}

#[test]
fn a_label_declared_twice_names_its_last_block() {
    let script = parse_script("@label a\n\n@bg x\n\n@label a\n@label b\n\n@choose 2\nyes :a\nyes :b\n", "s").unwrap();
    assert_eq!(script.commands.len(), 4);
    assert_eq!(script.labels.len(), 2);
    assert_eq!(script.find_label("a"), Some(2));
    assert_eq!(script.find_label("b"), Some(2));
    assert_eq!(script.choices.len(), 1);
    assert_eq!(script.get_choice_label("yes"), Some(&("s".to_string(), "b".to_string())));
}
