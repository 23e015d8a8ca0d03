use vn_engine::command::{Command, ParserError};
use vn_engine::config::{
    CgConfig, CgLength, Character, EngineConfig, ExtraConfig, InitializeConfig, Length, SaveData,
    VoiceConfig,
};
use vn_engine::error::EngineError;

fn config() -> EngineConfig {
    EngineConfig::new(
        InitializeConfig {
            script_path: "./source/script/".to_string(),
            background_path: "./source/background/".to_string(),
            voice_path: "./source/voice/".to_string(),
            bgm_path: "./source/bgm/".to_string(),
            figure_path: "./source/figure/".to_string(),
            save_path: "./source/save/".to_string(),
        },
        Character { list: vec!["amy".to_string(), "bob".to_string()] },
    )
}

#[test]
fn engine_config_gives_its_paths() {
    let c = config();
    assert_eq!(c.script_path(), "./source/script/");
    assert_eq!(c.background_path(), "./source/background/");
    assert_eq!(c.voice_path(), "./source/voice/");
    assert_eq!(c.bgm_path(), "./source/bgm/");
    assert_eq!(c.figure_path(), "./source/figure/");
    assert_eq!(c.save_path(), "./source/save/");
    assert_eq!(c.characters().len(), 2);
    assert_eq!(c.script_file("ky01"), "./source/script/ky01.reg");
    assert_eq!(c.background_file("room"), "./source/background/room.png");
    assert_eq!(c.bgm_file("theme"), "./source/bgm/theme.ogg");
    assert_eq!(c.voice_file("amy", "001"), "./source/voice//amy/001.ogg");
    assert_eq!(c.figure_file("amy", "z1", "stand"), "./source/figure/amy/z1/stand.png");
}

#[test]
fn gallery_is_found_by_name_and_number() {
    assert_eq!(CgConfig::new(7).cg(), 7);
    assert_eq!(ExtraConfig::new(9).cg(), 9);
    let entries = vec![
        Length { name: "dawn".to_string(), index: 3, length: 10 },
        Length { name: "dusk".to_string(), index: 1, length: 20 },
        Length { name: "dawn".to_string(), index: 5, length: 30 },
        Length { name: "noon".to_string(), index: 1, length: 40 },
    ];
    let cg = CgLength::from_entries(&entries);
    assert_eq!(cg.find_by_name("dawn"), Some(&(5, 30)));
    assert_eq!(cg.find_by_name("dusk"), Some(&(1, 20)));
    assert_eq!(cg.find_by_name("night"), None);
    assert_eq!(cg.find_by_id(1), Some(&("noon".to_string(), 40)));
    assert_eq!(cg.find_by_id(3), Some(&("dawn".to_string(), 10)));
    assert_eq!(cg.find_by_id(2), None);
    assert_eq!(cg.find_by_id(u64::MAX), None);
}

#[test]
fn voice_lengths_are_found_by_character_and_clip() {
    let mut v = VoiceConfig::new();
    v.insert("amy".to_string(), vec![("001".to_string(), 1500), ("002".to_string(), 2000)]);
    v.insert("bob".to_string(), vec![]);
    assert_eq!(v.find("amy").map(|c| c.len()), Some(2));
    assert_eq!(v.find("cat"), None);
    assert_eq!(v.length_of("amy", "002"), Some(2000));
    assert_eq!(v.length_of("amy", "404"), Some(0));
    assert_eq!(v.length_of("bob", "001"), Some(0));
    assert_eq!(v.length_of("cat", "001"), None);
    v.insert("amy".to_string(), vec![("001".to_string(), 7)]);
    assert_eq!(v.length_of("amy", "001"), Some(7));
    assert_eq!(v.length_of("amy", "002"), Some(0));
}

#[test]
fn save_data_keeps_its_fields() {
    let s = SaveData::new("main".to_string(), 12, "Hello...".to_string(), "bg/room.png".to_string());
    assert_eq!((s.script.as_str(), s.block_index, s.explain.as_str(), s.image_path.as_str()), ("main", 12, "Hello...", "bg/room.png"));
}

#[test]
fn parser_errors_are_parse_errors() {
    assert_eq!(EngineError::from(ParserError::TooShort), EngineError::ParseError);
    assert_eq!(
        EngineError::from(ParserError::UnknownLine { line: 3, content: "x".to_string() }),
        EngineError::ParseError
    );
}

#[test]
fn gestures_are_built_from_a_move() {
    let m = Command::Move {
        name: "amy".to_string(),
        distance: "z1".to_string(),
        body: "stand".to_string(),
        face: "smile".to_string(),
        position: "0".to_string(),
        action: "nod".to_string(),
        repeat: 3,
        delay: None,
    };
    assert_eq!(m.action(), "nod");
    assert_eq!(Command::Empty.action(), "");
    assert!(matches!(m.back(), Command::Move { ref action, repeat: 3, delay: Some(ref d), .. } if action == "back" && d == "150"));
    assert!(matches!(m.back_and_clean(), Command::Move { ref action, delay: Some(ref d), .. } if action == "back_and_clean" && d == "150"));
    assert!(matches!(m.repeated(), Command::Move { ref action, repeat: 2, delay: Some(ref d), .. } if action == "nod" && d == "301"));
    assert!(matches!(m.repeated().repeated().repeated(), Command::Move { repeat: -1, .. }));
    assert!(matches!(m.figure_at("2"), Command::Figure { ref position, ref body, delay: Some(ref d), .. } if position == "2" && body == "stand" && d == "150"));
    let mut delayed = m.back();
    delayed.delete_delay();
    assert!(matches!(delayed, Command::Move { delay: None, .. }));
    let mut label = Command::Label("x".to_string());
    label.delete_delay();
    assert!(matches!(label, Command::Label(ref l) if l == "x"));
    assert!(matches!(m.clone(), Command::Move { repeat: 3, .. }));
}
