use ttsst::error::Error;
use ttsst::objects::{hidden_name, Mode, Object, Objects};
use ttsst::parser::{guid, path_is_json, ParseError};
use ttsst::script_states::{ScriptState, ScriptStates};
use ttsst::tags::{Tag, Tags};

fn object(guid: &str, name: &str, tags: &[&str]) -> Object {
    let mut o = Object::new(guid.to_string());
    o.name = name.to_string();
    o.tags = Tags(tags.iter().map(|t| Tag::new(t.to_string())).collect());
    o
}

#[test]
fn valid_lua_resolves_a_single_tag() {
    let o = object("a1b2c3", "Deck", &["Red", "lua/deck.lua", "xml/deck.xml"]);
    assert_eq!(o.valid_lua().unwrap().unwrap().as_str(), "lua/deck.lua");
    assert_eq!(o.valid_xml().unwrap().unwrap().as_str(), "xml/deck.xml");
    let none = object("a1b2c3", "Deck", &["Red"]);
    assert!(none.valid_lua().unwrap().is_none());
}

#[test]
fn valid_lua_reports_ambiguity() {
    let o = object("a1b2c3", "Deck", &["lua/one.lua", "Red", "lua/two.lua"]);
    match o.valid_lua() {
        Err(Error::AmbiguousTag { guid, tags }) => {
            assert_eq!(guid, "a1b2c3");
            let texts: Vec<&str> = tags.iter().map(|t| t.as_str()).collect();
            assert_eq!(texts, vec!["lua/one.lua", "lua/two.lua"]);
        }
        _ => panic!("expected an ambiguity error"),
    }
}

#[test]
fn find_object_by_guid() {
    let objects = Objects(vec![object("aaaaaa", "A", &[]), object("bbbbbb", "B", &[])]);
    assert_eq!(objects.find_object("bbbbbb").ok().map(|o| o.name.clone()), Some("B".to_string()));
    assert_eq!(objects.position("aaaaaa"), Some(0));
    match objects.find_object("cccccc") {
        Err(Error::UnknownObject { guid }) => assert_eq!(guid, "cccccc"),
        _ => panic!("expected an unknown-object error"),
    }
    assert!(objects.check_known(&vec!["aaaaaa".to_string(), "bbbbbb".to_string()]).is_ok());
    assert!(matches!(
        objects.check_known(&vec!["aaaaaa".to_string(), "zzzzzz".to_string()]),
        Err(Error::UnknownObject { .. })
    ));
}

#[test]
fn hidden_objects_are_filtered() {
    let objects = Objects(vec![
        object("aaaaaa", "HandTrigger", &[]),
        object("bbbbbb", "Deck", &[]),
        object("cccccc", "FogOfWar", &[]),
        object("dddddd", "FogOfWarTrigger", &[]),
    ]);
    let shown = objects.filter_hidden().into_inner();
    assert_eq!(shown.len(), 1);
    assert_eq!(shown[0].guid, "bbbbbb");
    assert!(hidden_name("HandTrigger"));
    assert!(!hidden_name("Hand"));
}

#[test]
fn mode_messages() {
    assert_eq!(Mode::Attach.msg(), "Select the object to attach the script or ui element to:");
    assert_eq!(Mode::Detach.msg(), "Select the object to detach the script and ui element from:");
}

#[test]
fn guid_parser() {
    assert_eq!(guid("A1b2C3"), Ok("A1b2C3".to_string()));
    assert_eq!(guid("a1b2c"), Err(ParseError::InvalidGUID));
    assert_eq!(guid("a1b2c3d"), Err(ParseError::InvalidGUID));
    assert_eq!(guid("a1-2c3"), Err(ParseError::InvalidGUID));
    assert_eq!(guid("a1b2cé"), Err(ParseError::InvalidGUID));
}

#[test]
fn json_path_parser() {
    assert_eq!(path_is_json("backup/save.json"), Ok("backup/save.json".to_string()));
    assert_eq!(path_is_json("save.txt"), Err(ParseError::NotJsonFile));
    assert_eq!(path_is_json(".json"), Err(ParseError::NotJsonFile));
    assert_eq!(path_is_json("dir/.json"), Err(ParseError::NotJsonFile));
}

#[test]
fn script_state_lookup() {
    let states = ScriptStates(vec![
        ScriptState { guid: "-1".to_string(), name: None, script: Some("g".to_string()), ui: None },
        ScriptState { guid: "abcdef".to_string(), name: None, script: None, ui: Some("<x/>".to_string()) },
    ]);
    let g = states.global().unwrap();
    assert_eq!(g.script(), "g");
    assert_eq!(g.ui(), "");
    let o = states.get("abcdef".to_string()).unwrap();
    assert_eq!(o.script(), "");
    assert_eq!(o.ui(), "<x/>");
    assert!(states.get("zzzzzz".to_string()).is_none());
}

#[test]
fn objects_are_listed_by_nickname_and_tags() {
    let mut o = object("a1b2c3", "Deck", &["Red", "xml/deck.xml", "lua/deck.lua"]);
    assert_eq!(o.display_name(), "Deck");
    o.nickname = "Dealer".to_string();
    assert_eq!(o.display_name(), "Dealer");
    let shown: Vec<String> = o.shown_tags().iter().map(|t| t.as_str().to_string()).collect();
    assert_eq!(shown, vec!["lua/deck.lua", "xml/deck.xml"]);
    let ambiguous = object("a1b2c3", "Deck", &["lua/a.lua", "lua/b.lua", "xml/deck.xml"]);
    assert!(ambiguous.shown_tags().is_empty());
}
