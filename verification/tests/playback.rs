use vn_engine::command::Command;
use vn_engine::config::VoiceConfig;
use vn_engine::error::EngineError;
use vn_engine::executor::{
    find_slot, Context, Effect, Executor, Jump, Pipeline, Settings, Shift, Slot,
};
use vn_engine::parser::parse_script;
use vn_engine::script::PreBgm;

fn settings() -> Settings {
    Settings { delay: 100, is_wait: true, is_auto: false, is_skip: false, text_speed: 30 }
}

fn context() -> Context {
    let mut voices = VoiceConfig::new();
    voices.insert("amy".to_string(), vec![("001".to_string(), 1500), ("002".to_string(), 700)]);
    Context { settings: settings(), voices, sources: Vec::new() }
}

fn executor(name: &str, text: &str) -> Executor {
    Executor::new(parse_script(text, name).unwrap())
}

fn show(effects: &Vec<Effect>) -> Vec<String> {
    effects.iter().map(|e| format!("{:?}", e)).collect()
}

fn mv(action: &str, position: &str, repeat: i32, delay: Option<&str>) -> Command {
    Command::Move {
        name: "amy".to_string(),
        distance: "z1".to_string(),
        body: "stand".to_string(),
        face: "smile".to_string(),
        position: position.to_string(),
        action: action.to_string(),
        repeat,
        delay: delay.map(|d| d.to_string()),
    }
}

#[test]
fn end_to_end_scenario() {
    let text = "@bg room\n\n@bgm theme\n\nA“Hello”\n\n@choose 1\n1 go:start\n\n";
    let mut ex = executor("go", text);
    let ctx = context();
    assert_eq!(ex.script.commands.len(), 4);

    let mut out = Vec::new();
    assert!(ex.execute_script(&ctx, &mut out).is_ok());
    assert!(matches!(&out[..], [Effect::SkipDelays, Effect::Background(b)] if b == "room"));
    assert_eq!(ex.script.index(), 1);

    let mut out = Vec::new();
    assert!(ex.execute_script(&ctx, &mut out).is_ok());
    assert!(matches!(&out[..], [Effect::SkipDelays, Effect::PlayBgm(b)] if b == "theme"));
    assert_eq!(ex.script.current_bgm(), "theme");

    let mut out = Vec::new();
    assert!(ex.execute_script(&ctx, &mut out).is_ok());
    assert!(matches!(&out[..], [Effect::SkipDelays, Effect::Speaker(s), Effect::StartText] if s == "A"));
    assert_eq!(ex.text.full_text, "Hello");
    assert_eq!(ex.text.speed, 30);
    assert!(ex.text.is_running);
    assert_eq!(ex.script.explain(), "Hello...");
    assert_eq!(ex.script.backlog.len(), 1);
    assert_eq!(ex.script.backlog[0].index, 3);

    // a click while the line is revealed finishes the line and does not advance
    let mut out = Vec::new();
    assert!(ex.execute_script(&ctx, &mut out).is_ok());
    assert!(matches!(&out[..], [Effect::SkipDelays]));
    assert_eq!(ex.script.index(), 3);
    assert_eq!(ex.text.poll(), Some("Hello".to_string()));
    assert_eq!(ex.text.poll(), None);

    let mut out = Vec::new();
    assert!(ex.execute_script(&ctx, &mut out).is_ok());
    assert!(matches!(&out[..], [Effect::SkipDelays, Effect::Choices(c)] if c == &vec!["1".to_string()]));
    assert!(ex.choose_lock);
    assert_eq!(ex.script.index(), 4);
    assert_eq!(ex.script.explain(), "选择支：...");
    assert_eq!(ex.script.backlog[1].front, "选择支");

    // locked: advancing changes nothing
    let mut out = Vec::new();
    assert!(ex.execute_script(&ctx, &mut out).is_ok());
    assert!(out.is_empty());
    assert_eq!(ex.script.index(), 4);
    assert!(ex.choose_lock);

    // a text that is no choice
    let mut out = Vec::new();
    assert_eq!(ex.execute_choose("go".to_string(), &ctx, &mut out), Err(EngineError::UiError));
    assert!(out.is_empty());
    assert!(ex.choose_lock);

    let mut out = Vec::new();
    assert!(ex.execute_choose("1".to_string(), &ctx, &mut out).is_ok());
    assert!(!ex.choose_lock);
    assert!(matches!(
        &out[..],
        [Effect::Choices(c), Effect::Speaker(s), Effect::Dialogue(d), Effect::ClearAll]
            if c.is_empty() && s.is_empty() && d == "1"
    ));
    assert_eq!(ex.script.name(), "go");
    assert_eq!(ex.script.index(), 4);
    assert_eq!(ex.script.backlog.len(), 3);
    assert_eq!(ex.script.backlog[2].back, "1");
}

#[test]
fn choice_jumps_to_the_label_of_its_target() {
    let text = "@label start\n@bg room\n\n@bgm theme\n\n@choose 2\nstay :start\nleave other:end\n";
    let mut ex = executor("main", text);
    let mut ctx = context();
    ctx.settings.is_auto = true;
    let mut out = Vec::new();
    for _ in 0..3 {
        ex.execute_script(&ctx, &mut out).unwrap();
    }
    assert!(ex.choose_lock);
    let mut out = Vec::new();
    assert!(ex.execute_choose("stay".to_string(), &ctx, &mut out).is_ok());
    assert!(matches!(&out[3..], [Effect::Auto(5000), Effect::ClearAll]));
    assert_eq!(ex.script.index(), 0);
    assert_eq!(ex.script.pre_bg, Some("room".to_string()));
    assert!(matches!(ex.script.pre_bgm, PreBgm::Stop));
    let mut out = Vec::new();
    ex.execute_script(&ctx, &mut out).unwrap();
    assert_eq!(
        show(&out),
        vec!["SkipDelays", "Background(\"room\")", "StopBgm", "Background(\"room\")", "Auto(100)"]
    );
    assert!(ex.script.pre_bg.is_none());
}

#[test]
fn jump_lands_with_what_is_in_force() {
    let text = "@bg one\n@bgm a\n\n@fg amy|z1|stand|smile|0\n\n@label mid\n@bg two\n\n@bgm b\n\n@label end\n";
    let mut ex = executor("main", text);
    let ctx = context();
    let mut out = Vec::new();
    assert!(ex.execute_jump(Jump::Label(("main".to_string(), "end".to_string())), &ctx, &mut out).is_ok());
    assert!(matches!(&out[..], [Effect::ClearAll]));
    assert_eq!(ex.script.index(), 4);
    assert_eq!(ex.script.pre_bg, Some("two".to_string()));
    assert!(matches!(&ex.script.pre_bgm, PreBgm::Play(b) if b == "b"));
    assert_eq!(ex.script.pre_figures.as_ref().map(|f| f.0.len()), Some(1));
    let mut out = Vec::new();
    ex.execute_script(&ctx, &mut out).unwrap();
    assert_eq!(out.len(), 4);
    assert!(matches!(&out[1], Effect::Background(b) if b == "two"));
    assert!(matches!(&out[2], Effect::PlayBgm(b) if b == "b"));
    assert!(matches!(
        &out[3],
        Effect::Figure { slot: Slot::Z1Center, name, body, face, .. } if name == "amy" && body == "stand" && face == "smile"
    ));
    // the same track plays already
    ex.script.set_current_bgm("a".to_string());
    let mut out = Vec::new();
    ex.execute_jump(Jump::Index(("main".to_string(), 1)), &ctx, &mut out).unwrap();
    assert!(matches!(ex.script.pre_bgm, PreBgm::Keep));
    assert_eq!(ex.script.index(), 1);
    // a label that the script does not have
    ex.execute_jump(Jump::Label(("main".to_string(), "nowhere".to_string())), &ctx, &mut out).unwrap();
    assert_eq!(ex.script.index(), 1);
    assert!(ex.script.pre_bg.is_none());
    // a block before the first
    ex.execute_jump(Jump::Index(("main".to_string(), -5)), &ctx, &mut out).unwrap();
    assert_eq!(ex.script.index(), 0);
}

#[test]
fn jump_to_another_script_carries_the_backlog() {
    let mut ex = executor("main", "A“one”\n\n@jump other:there\n");
    let mut ctx = context();
    let mut out = Vec::new();
    ex.execute_script(&ctx, &mut out).unwrap();
    ex.text.end();
    ex.text.poll();
    ex.text.poll();
    assert_eq!(ex.execute_script(&ctx, &mut out), Err(EngineError::FileError));
    assert_eq!(ex.script.name(), "main");
    assert_eq!(ex.script.index(), 2);
    ctx.sources.push(("other".to_string(), "nonsense".to_string()));
    assert_eq!(
        ex.execute_jump(Jump::Label(("other".to_string(), "there".to_string())), &ctx, &mut out),
        Err(EngineError::ParseError)
    );
    assert_eq!(ex.script.name(), "main");
    assert_eq!(ex.script.backlog.len(), 1);
    ctx.sources[0].1 = "@bg x\n\n@label there\nB“two”\n".to_string();
    let mut out = Vec::new();
    assert!(ex.execute_jump(Jump::Label(("other".to_string(), "there".to_string())), &ctx, &mut out).is_ok());
    assert_eq!(ex.script.name(), "other");
    assert_eq!(ex.script.index(), 1);
    assert_eq!(ex.script.backlog.len(), 1);
    assert_eq!(ex.script.backlog[0].script, "main");
    assert_eq!(ex.script.pre_bg, Some("x".to_string()));
    ex.execute_script(&ctx, &mut out).unwrap();
    assert_eq!(ex.script.backlog.len(), 2);
    assert_eq!(ex.script.backlog[1].script, "other");
}

#[test]
fn voices_set_the_auto_timer() {
    let text = "@voice amy|001\n@voice amy|002\n@voice cat|001\nA“hi”\n\n@voice amy|404\n";
    let mut ex = executor("main", text);
    let mut ctx = context();
    ctx.settings.is_auto = true;
    let mut out = Vec::new();
    ex.execute_script(&ctx, &mut out).unwrap();
    assert_eq!(
        show(&out),
        vec![
            "SkipDelays",
            "PlayVoice { name: \"amy\", voice: \"001\" }",
            "PlayVoice { name: \"amy\", voice: \"002\" }",
            "Speaker(\"A\")",
            "StartText",
            "Auto(2300)"
        ]
    );
    let mut out = Vec::new();
    assert_eq!(ex.apply_command(Command::PlayVoice { name: "amy".to_string(), voice: "002".to_string() }, &ctx, &mut out), Ok(700));
    ctx.settings.is_wait = false;
    ex.text.is_running = false;
    ex.script.set_index(0);
    let mut out = Vec::new();
    ex.execute_script(&ctx, &mut out).unwrap();
    assert!(matches!(out.last(), Some(Effect::Auto(100))));
    ctx.settings.is_wait = true;
    ctx.settings.delay = u64::MAX - 10;
    ex.text.is_running = false;
    ex.script.set_index(0);
    let mut out = Vec::new();
    ex.execute_script(&ctx, &mut out).unwrap();
    assert!(matches!(out.last(), Some(Effect::Auto(u64::MAX))));
}

#[test]
fn end_of_script_is_a_quiet_step() {
    let mut ex = executor("main", "@bg a\n");
    let ctx = context();
    let mut out = Vec::new();
    ex.execute_script(&ctx, &mut out).unwrap();
    let mut out = Vec::new();
    assert!(ex.execute_script(&ctx, &mut out).is_ok());
    assert!(matches!(&out[..], [Effect::SkipDelays]));
    assert_eq!(ex.script.index(), 1);
}

#[test]
fn a_block_that_clears_everything_empties_the_pipelines() {
    let mut ex = executor("main", "@bg a\n\n@clear All\n\n@clear z1|2\n\n@clear q|9\n");
    let ctx = context();
    let mut out = Vec::new();
    ex.execute_script(&ctx, &mut out).unwrap();
    let mut out = Vec::new();
    ex.execute_script(&ctx, &mut out).unwrap();
    assert!(matches!(&out[..], [Effect::ClearDelays, Effect::ClearAll]));
    let mut out = Vec::new();
    ex.execute_script(&ctx, &mut out).unwrap();
    assert!(matches!(&out[..], [Effect::SkipDelays, Effect::ClearFigure(Slot::Z1Right)]));
    let mut out = Vec::new();
    assert_eq!(ex.execute_script(&ctx, &mut out), Err(EngineError::UiError));
    assert!(matches!(&out[..], [Effect::SkipDelays]));
    assert_eq!(ex.clean_fg("no", "0", &mut out), Ok(()));
    assert!(matches!(out.last(), Some(Effect::ClearFigure(Slot::NoCenter))));
}

#[test]
fn figures_show_at_once_or_go_to_the_pipeline() {
    let text = "@fg amy|z1|stand|smile|0\n\n@fg amy|z1||frown|0\n\n@fg amy|z1|sit||0\n\n@fg amy|z1|run|wow|0|250\n\n@fg amy|z9|run|wow|0\n";
    let mut ex = executor("main", text);
    let ctx = context();
    let mut all = Vec::new();
    for _ in 0..4 {
        let mut out = Vec::new();
        ex.execute_script(&ctx, &mut out).unwrap();
        all.push(out);
    }
    assert!(matches!(&all[0][1], Effect::Figure { slot: Slot::Z1Center, body, face, distance, .. } if body == "stand" && face == "smile" && distance == "z1"));
    assert!(matches!(&all[1][1], Effect::Figure { body, face, .. } if body == "stand" && face == "frown"));
    assert!(matches!(&all[2][1], Effect::Figure { body, face, .. } if body == "sit" && face == "frown"));
    assert!(matches!(&all[3][1], Effect::Delay(Pipeline::Figure, Command::Figure { body, delay: Some(d), .. }) if body == "run" && d == "250"));
    let mut out = Vec::new();
    assert_eq!(ex.execute_script(&ctx, &mut out), Err(EngineError::UiError));
    assert_eq!(ex.show_fg(&Command::Empty, &mut out), Err(EngineError::UiError));
    assert_eq!(find_slot("z1", "-2"), Some(Slot::Z1Left));
    assert_eq!(find_slot("no", "0"), Some(Slot::NoCenter));
    assert_eq!(find_slot("no", "2"), None);
}

#[test]
fn gestures_hand_their_next_round_to_the_pipelines() {
    let ex = executor("main", "@bg a\n");
    let mut out = Vec::new();
    assert!(ex.show_move(&mv("nod", "0", 3, None), &mut out).is_ok());
    assert!(matches!(
        &out[..],
        [
            Effect::Delay(Pipeline::Loop, Command::Move { action: a1, delay: Some(d1), .. }),
            Effect::Delay(Pipeline::Loop, Command::Move { action: a2, repeat: 2, delay: Some(d2), .. }),
            Effect::Offset(Slot::Z1Center, Shift::Nod)
        ] if a1 == "back" && d1 == "150" && a2 == "nod" && d2 == "301"
    ));
    let mut out = Vec::new();
    assert!(ex.show_move(&mv("nod", "-2", 1, None), &mut out).is_ok());
    assert!(matches!(
        &out[..],
        [Effect::Delay(Pipeline::Move, Command::Move { action, repeat: 1, .. }), Effect::Offset(Slot::Z1Left, Shift::Nod)]
            if action == "back"
    ));
    let mut out = Vec::new();
    assert!(ex.show_move(&mv("to2", "0", 1, None), &mut out).is_ok());
    assert!(matches!(
        &out[..],
        [
            Effect::Delay(Pipeline::Move, Command::Figure { position, delay: Some(d), .. }),
            Effect::Delay(Pipeline::Move, Command::Move { action, .. }),
            Effect::Offset(Slot::Z1Center, Shift::Right)
        ] if position == "2" && d == "150" && action == "back_and_clean"
    ));
    let mut out = Vec::new();
    assert!(ex.show_move(&mv("to2", "0", 0, None), &mut out).is_ok());
    assert!(matches!(&out[1], Effect::Delay(Pipeline::Loop, Command::Move { action, repeat: -1, .. }) if action == "to2"));
    let mut out = Vec::new();
    assert!(ex.show_move(&mv("to0", "2", 1, None), &mut out).is_ok());
    assert!(matches!(
        &out[..],
        [
            Effect::Delay(Pipeline::Move, Command::Figure { position, .. }),
            Effect::Delay(Pipeline::Move, Command::Move { action, .. }),
            Effect::Offset(Slot::Z1Right, Shift::Left)
        ] if position == "0" && action == "back"
    ));
    let mut out = Vec::new();
    assert!(ex.show_move(&mv("back", "2", 1, None), &mut out).is_ok());
    assert!(matches!(&out[..], [Effect::Offset(Slot::Z1Right, Shift::Rest)]));
    let mut out = Vec::new();
    assert!(ex.show_move(&mv("back_and_clean", "2", 1, None), &mut out).is_ok());
    assert!(matches!(&out[..], [Effect::ClearFigure(Slot::Z1Right), Effect::Offset(Slot::Z1Right, Shift::Rest)]));
    let mut out = Vec::new();
    assert!(ex.show_move(&mv("nod", "0", 1, Some("40")), &mut out).is_ok());
    assert!(matches!(&out[..], [Effect::Delay(Pipeline::Figure, Command::Move { delay: Some(d), .. })] if d == "40"));
    let mut out = Vec::new();
    assert_eq!(ex.show_move(&mv("to2", "2", 1, None), &mut out), Err(EngineError::UiError));
    assert_eq!(ex.show_move(&mv("to0", "0", 1, None), &mut out), Err(EngineError::UiError));
    assert_eq!(ex.show_move(&mv("dance", "0", 1, None), &mut out), Err(EngineError::UiError));
    assert_eq!(ex.show_move(&mv("nod", "7", 1, None), &mut out), Err(EngineError::UiError));
    assert_eq!(ex.show_move(&Command::Empty, &mut out), Err(EngineError::UiError));
    let no = Command::Move {
        name: "amy".to_string(),
        distance: "no".to_string(),
        body: String::new(),
        face: String::new(),
        position: "0".to_string(),
        action: "back".to_string(),
        repeat: 1,
        delay: None,
    };
    assert_eq!(ex.show_move(&no, &mut out), Err(EngineError::UiError));
    assert!(out.is_empty());
}

#[test]
fn music_that_plays_is_not_started_again() {
    let mut ex = executor("main", "@bgm a\n\n@bgm a\n\n@bgm b\n");
    let ctx = context();
    let mut out = Vec::new();
    for _ in 0..3 {
        ex.execute_script(&ctx, &mut out).unwrap();
    }
    assert_eq!(
        show(&out),
        vec!["SkipDelays", "PlayBgm(\"a\")", "SkipDelays", "SkipDelays", "PlayBgm(\"b\")"]
    );
}

#[test]
fn load_jumps_before_the_block_and_applies_it() {
    let mut ex = executor("main", "@bg one\n\n@bg two\n\n@bg three\n");
    let ctx = context();
    let mut out = Vec::new();
    assert!(ex.execute_load(String::new(), 2, &ctx, &mut out).is_ok());
    assert!(out.is_empty());
    assert!(ex.execute_load("main".to_string(), 2, &ctx, &mut out).is_ok());
    assert_eq!(
        show(&out),
        vec![
            "Screen(2)",
            "Choices([])",
            "ClearAll",
            "SkipDelays",
            "Background(\"two\")",
            "StopBgm",
            "Background(\"two\")"
        ]
    );
    assert_eq!(ex.script.index(), 2);
    let mut out = Vec::new();
    assert!(ex.execute_backlog_jump("main".to_string(), 0, &ctx, &mut out).is_ok());
    assert!(matches!(&out[0], Effect::BacklogClosed));
    assert_eq!(ex.script.index(), 1);
    assert_eq!(ex.execute_load("gone".to_string(), i32::MIN, &ctx, &mut out), Err(EngineError::FileError));
}

#[test]
fn backlog_is_shown_and_scrolled() {
    let mut ex = executor("main", "A“1”\n\nA“2”\n\nA“3”\n\nA“4”\n\nA“5”\n\nA“6”\n");
    let ctx = context();
    let mut out = Vec::new();
    for _ in 0..6 {
        ex.execute_script(&ctx, &mut out).unwrap();
        ex.text.is_running = false;
    }
    let mut out = Vec::new();
    ex.execute_backlog(&mut out);
    ex.execute_backlog_change(1, &mut out);
    ex.execute_backlog_change(9, &mut out);
    let texts: Vec<Vec<String>> = out
        .iter()
        .map(|e| match e {
            Effect::Backlog(lines) => lines.iter().map(|l| l.back.clone()).collect(),
            _ => Vec::new(),
        })
        .collect();
    assert_eq!(texts, vec![vec!["3", "4", "5", "6"], vec!["2", "3", "4", "5"], vec!["1", "2", "3", "4"]]);
}

#[test]
fn controls_flip_the_switches() {
    let ex = executor("main", "@bg a\n");
    let mut ctx = context();
    let mut out = Vec::new();
    ex.execute_auto(true, &ctx, &mut out);
    ex.execute_auto(false, &ctx, &mut out);
    ex.execute_skip(true, &ctx, &mut out);
    ex.execute_skip(false, &ctx, &mut out);
    ctx.settings.is_auto = true;
    ctx.settings.is_skip = true;
    ex.execute_auto(false, &ctx, &mut out);
    ex.execute_skip(false, &ctx, &mut out);
    assert_eq!(
        show(&out),
        vec![
            "Auto(1000)", "ToggleAuto", "AutoOff", "ToggleSkip", "SkipOff", "ToggleAuto", "AutoOff",
            "ToggleSkip", "SkipOff"
        ]
    );
}

#[test]
fn saving_replaces_one_slot() {
    let mut ex = executor("main", "A“Hello there”\n");
    let ctx = context();
    let mut out = Vec::new();
    ex.execute_script(&ctx, &mut out).unwrap();
    let slot = |name: &str| vn_engine::config::SaveData::new(name.to_string(), 0, String::new(), String::new());
    let items = vec![slot("a"), slot("b"), slot("c")];
    let saved = ex.execute_save(1, items, "bg/room.png".to_string());
    assert_eq!(saved.len(), 3);
    assert_eq!(saved[0].script, "a");
    assert_eq!((saved[1].script.as_str(), saved[1].block_index, saved[1].explain.as_str(), saved[1].image_path.as_str()), ("main", 1, "Hello there...", "bg/room.png"));
    assert_eq!(saved[2].script, "c");
    let same = ex.execute_save(7, saved, "x".to_string());
    assert_eq!(same[1].image_path, "bg/room.png");
    let same = ex.execute_save(-1, same, "x".to_string());
    assert_eq!(same[1].script, "main");
}

#[test]
fn a_delayed_figure_with_a_body_is_found_by_the_figures_after_it() {
    let text = "@fg amy|z1|run|wow|0|250\n\n@fg amy|z1|||0\n\n@fg amy|z1||shy|0\n";
    let mut ex = executor("main", text);
    let ctx = context();
    let mut all = Vec::new();
    for _ in 0..3 {
        let mut out = Vec::new();
        ex.execute_script(&ctx, &mut out).unwrap();
        all.push(out);
    }
    assert!(matches!(&all[0][1], Effect::Delay(Pipeline::Figure, Command::Figure { body, .. }) if body == "run"));
    assert!(matches!(&all[1][1], Effect::Figure { body, face, .. } if body == "run" && face == "wow"));
    assert!(matches!(&all[2][1], Effect::Figure { body, face, .. } if body == "run" && face == "shy"));
}

#[test]
fn a_command_from_a_pipeline_is_shown_or_moved() {
    let ex = executor("main", "@fg amy|z1|stand|smile|0\n");
    let shown = Command::Figure {
        name: "amy".to_string(),
        distance: "z1".to_string(),
        body: String::new(),
        face: "calm".to_string(),
        position: "0".to_string(),
        delay: None,
    };
    let mut out = Vec::new();
    assert!(ex.apply_delayed(&shown, &mut out).is_ok());
    assert!(matches!(&out[..], [Effect::Figure { slot: Slot::Z1Center, body, face, .. }] if body == "stand" && face == "calm"));
    let mut out = Vec::new();
    assert!(ex.apply_delayed(&mv("back", "0", 1, None), &mut out).is_ok());
    assert!(matches!(&out[..], [Effect::Offset(Slot::Z1Center, Shift::Rest)]));
    let mut out = Vec::new();
    assert!(ex.apply_delayed(&Command::Label("stray".to_string()), &mut out).is_ok());
    assert!(out.is_empty());
    let mut out = Vec::new();
    assert_eq!(ex.apply_delayed(&mv("fly", "0", 1, None), &mut out), Err(EngineError::UiError));
}
