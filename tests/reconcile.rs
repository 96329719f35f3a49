use ttsst::error::Error;
use ttsst::globals::{global_candidates, resolve_global, update_globals, Root};
use ttsst::objects::{Object, Objects};
use ttsst::reconcile::{
    attach, check_consistency, detach, expand_tabs_in, files_needed, reload, SourceFile,
};
use ttsst::save::{Label, Save};
use ttsst::tags::{Namespace, Tag, Tags};

fn object(guid: &str, tags: &[&str], script: &str, ui: &str) -> Object {
    let mut o = Object::new(guid.to_string());
    o.tags = Tags(tags.iter().map(|t| Tag::new(t.to_string())).collect());
    o.lua_script = script.to_string();
    o.xml_ui = ui.to_string();
    o
}

fn save(objects: Vec<Object>) -> Save {
    Save {
        name: "Test".to_string(),
        lua_script: "global".to_string(),
        xml_ui: "<ui/>".to_string(),
        objects: Objects(objects),
        labels: vec![],
        extra: "{}".to_string(),
    }
}

fn file(path: &str, contents: &str) -> SourceFile {
    SourceFile { path: path.to_string(), contents: contents.to_string() }
}

fn tag_texts(o: &Object) -> Vec<String> {
    o.tags.0.iter().map(|t| t.as_str().to_string()).collect()
}

fn snapshot(s: &Save) -> Vec<(String, Vec<String>, String, String)> {
    s.objects
        .0
        .iter()
        .map(|o| (o.guid.clone(), tag_texts(o), o.lua_script.clone(), o.xml_ui.clone()))
        .collect()
}

#[test]
fn tabs_expand_to_four_spaces() {
    assert_eq!(expand_tabs_in("a\tb\t"), "a    b    ");
    assert_eq!(expand_tabs_in(""), "");
}

#[test]
fn attach_script_to_untagged_object() {
    let mut s = save(vec![object("A1B2C3", &[], "", ""), object("D4E5F6", &[], "", "")]);
    let tag = attach(&mut s, &vec!["A1B2C3".to_string()], "scripts/foo.lua", "print('foo')").ok().unwrap();
    assert_eq!(tag.as_str(), "lua/scripts/foo.lua");
    let o = &s.objects.0[0];
    assert_eq!(tag_texts(o), vec!["lua/scripts/foo.lua"]);
    assert_eq!(o.valid_lua().ok().unwrap().unwrap().as_str(), "lua/scripts/foo.lua");
    assert_eq!(o.lua_script, "print('foo')");
    assert_eq!(s.objects.0[1].lua_script, "");
    assert!(s.objects.0[1].tags.0.is_empty());
    let mut api = ttsst::protocol::ExternalEditorApi::new();
    let request = api.reload(s.script_states());
    assert_eq!(request.message_id, 1);
    let states = &request.script_states.0;
    assert_eq!(states[0].guid, "A1B2C3");
    assert_eq!(states[0].script.as_deref(), Some("print('foo')"));
    assert_eq!(states[2].guid, "-1");
}

#[test]
fn attach_replaces_the_old_tag_and_keeps_foreign_tags() {
    let mut s = save(vec![object("A1B2C3", &["Red", "lua/old.lua", "xml/ui.xml"], "old", "<x/>")]);
    attach(&mut s, &vec!["A1B2C3".to_string()], "./scripts/new.ttslua", "new\tcode").ok().unwrap();
    let o = &s.objects.0[0];
    assert_eq!(tag_texts(o), vec!["Red", "xml/ui.xml", "lua/scripts/new.ttslua"]);
    assert_eq!(o.lua_script, "new    code");
    assert_eq!(o.xml_ui, "<x/>");
}

#[test]
fn attach_ui_file() {
    let mut s = save(vec![object("A1B2C3", &["lua/a.lua"], "a", "")]);
    attach(&mut s, &vec!["A1B2C3".to_string()], "ui/panel.xml", "<Panel/>").ok().unwrap();
    let o = &s.objects.0[0];
    assert_eq!(tag_texts(o), vec!["lua/a.lua", "xml/ui/panel.xml"]);
    assert_eq!(o.xml_ui, "<Panel/>");
    assert_eq!(o.lua_script, "a");
}

#[test]
fn attach_errors_leave_the_save_alone() {
    let mut s = save(vec![object("A1B2C3", &["lua/a.lua"], "a", "")]);
    let before = snapshot(&s);
    assert!(matches!(
        attach(&mut s, &vec!["ZZZZZZ".to_string()], "scripts/foo.lua", "x"),
        Err(Error::UnknownObject { .. })
    ));
    assert!(matches!(
        attach(&mut s, &vec!["A1B2C3".to_string()], "notes.txt", "x"),
        Err(Error::UnsupportedFile { .. })
    ));
    assert!(matches!(
        attach(&mut s, &vec!["A1B2C3".to_string()], "/abs/foo.lua", "x"),
        Err(Error::NotRelative { .. })
    ));
    assert_eq!(snapshot(&s), before);
}

#[test]
fn detach_removes_valid_tags_and_bodies() {
    let mut s = save(vec![
        object("A1B2C3", &["Red", "lua/a.lua", "xml/a.xml"], "a", "<a/>"),
        object("D4E5F6", &["lua/b.lua"], "b", ""),
    ]);
    detach(&mut s, &vec!["A1B2C3".to_string()]).ok().unwrap();
    let o = &s.objects.0[0];
    assert_eq!(tag_texts(o), vec!["Red"]);
    assert_eq!(o.lua_script, "");
    assert_eq!(o.xml_ui, "");
    assert_eq!(s.objects.0[1].lua_script, "b");
    assert!(matches!(detach(&mut s, &vec!["ZZZZZZ".to_string()]), Err(Error::UnknownObject { .. })));
}

#[test]
fn watch_event_updates_every_object_using_the_file() {
    let mut s = save(vec![
        object("AAAAAA", &["lua/scripts/bar.lua"], "old", ""),
        object("BBBBBB", &["Red", "lua/scripts/bar.lua"], "old", ""),
        object("CCCCCC", &["lua/scripts/other.lua"], "other", ""),
    ]);
    let paths = vec!["./scripts/bar.lua".to_string()];
    let needed = files_needed(&s.objects, &paths, &None);
    assert_eq!(needed, vec!["./scripts/bar.lua".to_string()]);
    let files = vec![file("./scripts/bar.lua", "new")];
    assert_eq!(reload(&mut s, &paths, &None, &files).ok(), Some(true));
    assert_eq!(s.objects.0[0].lua_script, "new");
    assert_eq!(s.objects.0[1].lua_script, "new");
    assert_eq!(s.objects.0[2].lua_script, "other");
}

#[test]
fn reload_twice_changes_nothing_the_second_time() {
    let mut s = save(vec![
        object("AAAAAA", &["lua/scripts/a.lua", "xml/ui/a.xml"], "old", "<old/>"),
        object("BBBBBB", &[], "stale", ""),
    ]);
    let paths = vec!["./".to_string()];
    let files = vec![file("./scripts/a.lua", "new\t1"), file("./ui/a.xml", "<new/>")];
    assert_eq!(reload(&mut s, &paths, &None, &files).ok(), Some(true));
    assert_eq!(s.objects.0[0].lua_script, "new    1");
    assert_eq!(s.objects.0[0].xml_ui, "<new/>");
    assert_eq!(s.objects.0[1].lua_script, "");
    let after_first = snapshot(&s);
    assert_eq!(reload(&mut s, &paths, &None, &files).ok(), Some(false));
    assert_eq!(snapshot(&s), after_first);
}

#[test]
fn reload_without_changes_keeps_the_save() {
    let mut s = save(vec![object("AAAAAA", &["Red", "lua/a.lua"], "code", ""), object("BBBBBB", &[], "", "")]);
    let before = snapshot(&s);
    assert_eq!(reload(&mut s, &vec![], &None, &vec![]).ok(), Some(false));
    assert_eq!(snapshot(&s), before);
    assert_eq!(s.name, "Test");
    assert_eq!(s.extra, "{}");
}

#[test]
fn reload_of_a_single_object() {
    let mut s = save(vec![
        object("AAAAAA", &["lua/a.lua"], "old", ""),
        object("BBBBBB", &["lua/a.lua"], "old", ""),
    ]);
    let files = vec![file("./a.lua", "new")];
    let guid = Some("BBBBBB".to_string());
    assert_eq!(reload(&mut s, &vec![".".to_string()], &guid, &files).ok(), Some(true));
    assert_eq!(s.objects.0[0].lua_script, "old");
    assert_eq!(s.objects.0[1].lua_script, "new");
    let unknown = Some("ZZZZZZ".to_string());
    assert!(matches!(reload(&mut s, &vec![".".to_string()], &unknown, &files), Err(Error::UnknownObject { .. })));
}

#[test]
fn reload_fails_on_ambiguous_tags_and_missing_files() {
    let mut s = save(vec![object("AAAAAA", &["lua/a.lua", "lua/b.lua"], "old", "")]);
    let before = snapshot(&s);
    assert!(matches!(
        reload(&mut s, &vec![".".to_string()], &None, &vec![]),
        Err(Error::AmbiguousTag { .. })
    ));
    assert_eq!(snapshot(&s), before);
    let mut t = save(vec![object("AAAAAA", &["lua/a.lua"], "old", "")]);
    match reload(&mut t, &vec![".".to_string()], &None, &vec![]) {
        Err(Error::MissingFile { path }) => assert_eq!(path, "./a.lua"),
        _ => panic!("expected a missing-file error"),
    }
}

#[test]
fn global_file_wins_over_stored_body() {
    let found = vec![file("./Global.lua", "from file")];
    assert_eq!(resolve_global("stored", &found, Namespace::Lua).ok(), Some("from file".to_string()));
    assert_eq!(resolve_global("stored", &vec![], Namespace::Lua).ok(), Some("stored".to_string()));
    let empty = vec![file("./Global.xml", "")];
    assert_eq!(
        resolve_global("stored", &empty, Namespace::Xml).ok(),
        Some("<!-- Xml UI. See documentation: https://api.tabletopsimulator.com/ui/introUI/ -->".to_string())
    );
    let empty_lua = vec![file("./Global.lua", "")];
    assert_eq!(
        resolve_global("stored", &empty_lua, Namespace::Lua).ok(),
        Some("--[[ Lua code. See documentation: https://api.tabletopsimulator.com/ --]]".to_string())
    );
    let two = vec![file("./Global.lua", "a"), file("./Global.ttslua", "b")];
    match resolve_global("stored", &two, Namespace::Lua) {
        Err(Error::AmbiguousGlobal { paths }) => {
            assert_eq!(paths, vec!["./Global.lua".to_string(), "./Global.ttslua".to_string()])
        }
        _ => panic!("expected an ambiguity error"),
    }
}

#[test]
fn update_globals_sets_both_bodies() {
    let mut s = save(vec![]);
    let lua = vec![file("./Global.lua", "g\tx")];
    assert_eq!(update_globals(&mut s, &lua, &vec![]).ok(), Some(true));
    assert_eq!(s.lua_script, "g    x");
    assert_eq!(s.xml_ui, "<ui/>");
    assert_eq!(update_globals(&mut s, &lua, &vec![]).ok(), Some(false));
    let two = vec![file("./Global.xml", "a"), file("./ui/Global.xml", "b")];
    assert!(matches!(update_globals(&mut s, &vec![], &two), Err(Error::AmbiguousGlobal { .. })));
    assert_eq!(s.lua_script, "g    x");
}

#[test]
fn global_candidates_from_roots() {
    let roots = vec![
        Root { path: ".".to_string(), is_dir: true },
        Root { path: "./src/".to_string(), is_dir: true },
        Root { path: "./other/Global.lua".to_string(), is_dir: false },
        Root { path: "./other/main.lua".to_string(), is_dir: false },
        Root { path: ".".to_string(), is_dir: true },
    ];
    assert_eq!(
        global_candidates(&roots, Namespace::Lua),
        vec!["./Global.lua", "./Global.ttslua", "./src/Global.lua", "./src/Global.ttslua", "./other/Global.lua"]
    );
    assert_eq!(global_candidates(&roots, Namespace::Xml), vec!["./Global.xml", "./src/Global.xml"]);
}

#[test]
fn consistency_check_warns_about_untagged_bodies() {
    let objects = Objects(vec![
        object("AAAAAA", &["Red"], "code", ""),
        object("BBBBBB", &["lua/b.lua"], "code", "<ui/>"),
        object("CCCCCC", &[], "", ""),
    ]);
    let warnings = check_consistency(&objects).ok().unwrap();
    let got: Vec<(String, Namespace)> = warnings.iter().map(|w| (w.guid.clone(), w.namespace)).collect();
    assert_eq!(got, vec![("AAAAAA".to_string(), Namespace::Lua), ("BBBBBB".to_string(), Namespace::Xml)]);
    let bad = Objects(vec![object("AAAAAA", &["xml/a.xml", "xml/b.xml"], "", "")]);
    assert!(matches!(check_consistency(&bad), Err(Error::AmbiguousTag { .. })));
}

#[test]
fn component_tags_for_object_tags() {
    let mut s = save(vec![object("AAAAAA", &["lua/a.lua"], "a", "")]);
    assert!(!s.push_object_tag(Tag::new("lua/a.lua".to_string())));
    assert!(s.push_object_tag(Tag::new("lua/b.lua".to_string())));
    assert!(!s.push_object_tag(Tag::new("lua/b.lua".to_string())));
    assert_eq!(s.labels.len(), 1);
    assert_eq!(s.labels[0].displayed, "lua/b.lua");
    assert_eq!(s.labels[0].normalized, "lua/b.lua");
    s.labels.push(Label { displayed: "lua/a.lua".to_string(), normalized: "lua/a.lua".to_string() });
    s.labels.push(Label { displayed: "Red".to_string(), normalized: "red".to_string() });
    s.remove_object_tags();
    let left: Vec<&str> = s.labels.iter().map(|l| l.displayed.as_str()).collect();
    assert_eq!(left, vec!["lua/b.lua", "Red"]);
}
