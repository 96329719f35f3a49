use ttsst::error::Error;
use ttsst::tags::{is_under, normalize_path, reduce_paths, Namespace, Tag, TagFilter, Tags};

fn tag(s: &str) -> Tag {
    Tag::new(s.to_string())
}

fn texts(tags: &Tags) -> Vec<String> {
    tags.0.iter().map(|t| t.as_str().to_string()).collect()
}

#[test]
fn lua_tags_follow_the_convention() {
    assert!(tag("lua/scripts/foo.lua").is_lua());
    assert!(tag("lua/foo.ttslua").is_lua());
    assert!(!tag("lua/.lua").is_lua());
    assert!(!tag("lua/foo.xml").is_lua());
    assert!(!tag("scripts/foo.lua").is_lua());
    assert!(!tag("lua/fo\no.lua").is_lua());
    assert!(!tag("lua/x.ttslu").is_lua());
}

#[test]
fn xml_tags_follow_the_convention() {
    assert!(tag("xml/ui/panel.xml").is_xml());
    assert!(!tag("xml/.xml").is_xml());
    assert!(!tag("xml/panel.lua").is_xml());
    assert!(tag("xml/ui/panel.xml").is_valid());
    assert!(!tag("Red Team").is_valid());
}

#[test]
fn namespace_of_tags() {
    assert_eq!(tag("lua/a.lua").namespace(), Some(Namespace::Lua));
    assert_eq!(tag("xml/a.xml").namespace(), Some(Namespace::Xml));
    assert_eq!(tag("anything").namespace(), None);
    assert!(tag("lua/a.lua").is_in(Namespace::Lua));
    assert!(!tag("lua/a.lua").is_in(Namespace::Xml));
}

#[test]
fn tag_path_names_the_file() {
    assert_eq!(tag("lua/foo/bar.lua").path().ok(), Some("./foo/bar.lua".to_string()));
    assert_eq!(tag("xml/ui.xml").path().ok(), Some("./ui.xml".to_string()));
    match tag("Red Team").path() {
        Err(Error::InvalidTag { tag }) => assert_eq!(tag, "Red Team"),
        _ => panic!("expected an invalid tag error"),
    }
}

#[test]
fn tag_starts_with_compares_whole_components() {
    let t = tag("lua/scripts/bar.lua");
    assert!(t.starts_with("./"));
    assert!(t.starts_with("."));
    assert!(t.starts_with("./scripts"));
    assert!(t.starts_with("scripts/"));
    assert!(t.starts_with("./scripts/bar.lua"));
    assert!(!t.starts_with("./scr"));
    assert!(!t.starts_with("./other"));
    assert!(!tag("Red Team").starts_with("./"));
}

#[test]
fn paths_normalize() {
    assert_eq!(normalize_path("./scripts/"), "scripts");
    assert_eq!(normalize_path("."), "");
    assert_eq!(normalize_path("a/b"), "a/b");
    assert!(is_under("./a/b.lua", "a"));
    assert!(!is_under("./ab/b.lua", "a"));
}

#[test]
fn tag_from_path() {
    assert_eq!(Tag::try_from_path("scripts/foo.lua").unwrap().as_str(), "lua/scripts/foo.lua");
    assert_eq!(Tag::try_from_path("./scripts/foo.ttslua").unwrap().as_str(), "lua/scripts/foo.ttslua");
    assert_eq!(Tag::try_from_path("./ui/panel.xml").unwrap().as_str(), "xml/ui/panel.xml");
    match Tag::try_from_path("/abs/foo.lua") {
        Err(Error::NotRelative { path }) => assert_eq!(path, "/abs/foo.lua"),
        _ => panic!("expected a not-relative error"),
    }
    match Tag::try_from_path("./notes.txt") {
        Err(Error::UnsupportedFile { path }) => assert_eq!(path, "./notes.txt"),
        _ => panic!("expected an unsupported-file error"),
    }
}

#[test]
fn replace_namespace_keeps_one_tag_and_foreign_tags() {
    let mut tags = Tags(vec![tag("Red Team"), tag("lua/old.lua"), tag("xml/ui.xml"), tag("lua/older.lua")]);
    tags.replace_namespace(tag("lua/scripts/new.lua"));
    assert_eq!(texts(&tags), vec!["Red Team", "xml/ui.xml", "lua/scripts/new.lua"]);
    assert_eq!(tags.filter_namespace(Namespace::Lua).len(), 1);
    assert_eq!(texts(&tags.filter_invalid()), vec!["Red Team"]);
}

#[test]
fn remove_valid_keeps_foreign_tags() {
    let mut tags = Tags(vec![tag("lua/a.lua"), tag("Red Team"), tag("xml/b.xml"), tag("Blue")]);
    tags.remove_valid();
    assert_eq!(texts(&tags), vec!["Red Team", "Blue"]);
}

#[test]
fn filters_partition_tags() {
    let tags = Tags(vec![tag("lua/a.lua"), tag("Red Team"), tag("xml/b.xml")]);
    assert_eq!(texts(&tags.filter_valid()), vec!["lua/a.lua", "xml/b.xml"]);
    assert_eq!(texts(&tags.filter(TagFilter::NotIn(Namespace::Lua))), vec!["Red Team", "xml/b.xml"]);
    assert_eq!(texts(&tags.clone()), vec!["lua/a.lua", "Red Team", "xml/b.xml"]);
}

#[test]
fn reduce_keeps_outermost_paths_once() {
    let paths: Vec<String> = vec!["./scripts", "./scripts/a.lua", "./ui/", "scripts", "./ui/b.xml", "./other.lua"]
        .into_iter()
        .map(String::from)
        .collect();
    assert_eq!(reduce_paths(&paths), vec!["./scripts", "./ui/", "./other.lua"]);
    let root: Vec<String> = vec!["./".to_string(), "./scripts".to_string()];
    assert_eq!(reduce_paths(&root), vec!["./"]);
    assert!(reduce_paths(&vec![]).is_empty());
}
