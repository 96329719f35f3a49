use vstd::prelude::*;

use crate::error::Error;
use crate::objects::{
    all_known, body_of, has_guid, object_views, resolve, Object, ObjectView, Objects,
};
use crate::save::{Save, SaveView};
use crate::tags::{
    filtered, in_namespace, is_valid_tag, keeps, namespace_of, path_under, tag_of_path, tag_path, under_any,
    Namespace, Tag, TagFilter,
};
use crate::text::{
    contains_str, lemma_filter_none, lemma_filter_passes, lemma_filter_push, lemma_filter_twice,
    string_views,
};

verus! {

/// `s` with every tab replaced by four spaces.
pub open spec fn expand_tabs(s: Seq<char>) -> Seq<char>
    decreases s.len(),
{
    if s.len() == 0 {
        Seq::empty()
    } else {
        expand_tabs(s.drop_last()) + (if s.last() == '\t' {
            seq![' ', ' ', ' ', ' ']
        } else {
            seq![s.last()]
        })
    }
}

/// Replaces every tab of `s` by four spaces, as file contents are read.
pub fn expand_tabs_in(s: &str) -> (r: String)
    ensures
        r@ == expand_tabs(s@),
{
    proof {
        reveal_strlit("    ");
    }
    let n = s.unicode_len();
    let mut out = String::new();
    let mut i: usize = 0;
    while i < n
        invariant
            n == s@.len(),
            i <= n,
            out@ == expand_tabs(s@.take(i as int)),
        decreases n - i,
    {
        assert(s@.take(i + 1).drop_last() =~= s@.take(i as int));
        if s.get_char(i) == '\t' {
            let spaces = "    ";
            proof {
                reveal_strlit("    ");
            }
            assert(spaces@ =~= seq![' ', ' ', ' ', ' ']);
            out.append(spaces);
        } else {
            let c = s.substring_char(i, i + 1);
            assert(c@ =~= seq![s@[i as int]]);
            out.append(c);
        }
        i = i + 1;
    }
    assert(s@.take(n as int) =~= s@);
    out
}

/// An object that an operation addresses: its identifier is among `guids`.
pub open spec fn selected(o: ObjectView, guids: Seq<Seq<char>>) -> bool {
    guids.contains(o.guid)
}

/// What attaching the file of the valid tag `tag`, with contents `contents`,
/// makes of an object: the tags of that namespace give way to `tag`, and the
/// body of that namespace becomes `contents`.
pub open spec fn attached(o: ObjectView, tag: Seq<char>, contents: Seq<char>) -> ObjectView {
    let ns = namespace_of(tag);
    let tags = filtered(o.tags, TagFilter::NotIn(ns)).push(tag);
    match ns {
        Namespace::Lua => ObjectView { tags, lua_script: contents, ..o },
        Namespace::Xml => ObjectView { tags, xml_ui: contents, ..o },
    }
}

/// What detaching makes of an object: only its foreign tags stay, and both
/// bodies are empty.
pub open spec fn detached(o: ObjectView) -> ObjectView {
    ObjectView {
        tags: filtered(o.tags, TagFilter::Foreign),
        lua_script: Seq::empty(),
        xml_ui: Seq::empty(),
        ..o
    }
}

/// A change made to each object that an operation addresses.
enum Edit {
    /// Bind the file of a valid tag, with the given contents.
    Attach { tag: Tag, contents: String },
    /// Remove every valid tag and both bodies.
    Detach,
}

/// What `e` makes of an object.
spec fn edited(o: ObjectView, e: Edit) -> ObjectView {
    match e {
        Edit::Attach { tag, contents } => attached(o, tag@, contents@),
        Edit::Detach => detached(o),
    }
}

/// An attach binds a valid tag.
spec fn edit_valid(e: Edit) -> bool {
    match e {
        Edit::Attach { tag, contents } => is_valid_tag(tag@),
        Edit::Detach => true,
    }
}

/// The objects after `e` was made to those that `guids` selects.
spec fn edit_all(objs: Seq<ObjectView>, guids: Seq<Seq<char>>, e: Edit) -> Seq<
    ObjectView,
> {
    objs.map_values(|o: ObjectView| if selected(o, guids) { edited(o, e) } else { o })
}

/// The objects after attaching the file of `tag`, with `contents`, to those
/// that `guids` selects.
pub open spec fn attach_all(
    objs: Seq<ObjectView>,
    guids: Seq<Seq<char>>,
    tag: Seq<char>,
    contents: Seq<char>,
) -> Seq<ObjectView> {
    objs.map_values(
        |o: ObjectView|
            if selected(o, guids) {
                attached(o, tag, contents)
            } else {
                o
            },
    )
}

/// The objects after detaching those that `guids` selects.
pub open spec fn detach_all(objs: Seq<ObjectView>, guids: Seq<Seq<char>>) -> Seq<ObjectView> {
    objs.map_values(|o: ObjectView| if selected(o, guids) { detached(o) } else { o })
}

/// Makes `e` to a copy of `o`.
fn edit_object(o: &Object, e: &Edit) -> (r: Object)
    requires
        edit_valid(*e),
    ensures
        r@ == edited(o@, *e),
{
    let mut n = o.clone();
    match e {
        Edit::Attach { tag, contents } => {
            let ns = match tag.namespace() {
                Some(ns) => ns,
                None => Namespace::Lua,
            };
            n.tags.replace_namespace(tag.clone());
            n.set_body(ns, contents.clone());
        },
        Edit::Detach => {
            n.tags.remove_valid();
            n.lua_script = String::new();
            n.xml_ui = String::new();
        },
    }
    n
}

/// The objects with `e` made to those that `guids` selects.
fn edit_selected(objs: &Objects, guids: &Vec<String>, e: &Edit) -> (r: Objects)
    requires
        edit_valid(*e),
    ensures
        r@ == edit_all(objs@, string_views(guids@), *e),
{
    let ghost gv = string_views(guids@);
    let mut out: Vec<Object> = Vec::new();
    let mut i: usize = 0;
    while i < objs.0.len()
        invariant
            i <= objs.0@.len(),
            edit_valid(*e),
            gv == string_views(guids@),
            object_views(out@) == edit_all(objs@, gv, *e).take(i as int),
        decreases objs.0@.len() - i,
    {
        let o = &objs.0[i];
        let n = if contains_str(guids, o.guid.as_str()) {
            edit_object(o, e)
        } else {
            o.clone()
        };
        let ghost before = out@;
        out.push(n);
        assert(object_views(out@) =~= object_views(before).push(n@));
        assert(object_views(out@) =~= edit_all(objs@, gv, *e).take(i + 1));
        i = i + 1;
    }
    assert(edit_all(objs@, gv, *e).take(i as int) =~= edit_all(objs@, gv, *e));
    Objects(out)
}

/// Attaches the file at `path`, whose contents are `contents`, to every
/// object that `guids` names: each loses its tags of the file's namespace,
/// gains the tag for the file, and takes the contents (tabs expanded) as its
/// script or UI. Returns the tag. An unknown identifier, or a path that names
/// no script or UI file, leaves the save as it was.
pub fn attach(save: &mut Save, guids: &Vec<String>, path: &str, contents: &str) -> (r: Result<
    Tag,
    Error,
>)
    ensures
        r is Ok <==> all_known(old(save)@.objects, string_views(guids@)) && tag_of_path(path@) is Some,
        r is Ok ==> r->Ok_0@ == tag_of_path(path@)->Some_0 && final(save)@ == (SaveView {
            objects: attach_all(
                old(save)@.objects,
                string_views(guids@),
                r->Ok_0@,
                expand_tabs(contents@),
            ),
            ..old(save)@
        }),
        r is Err ==> final(save)@ == old(save)@,
        !all_known(old(save)@.objects, string_views(guids@)) ==> r is Err && r->Err_0 is UnknownObject,
{
    save.objects.check_known(guids)?;
    let tag = Tag::try_from_path(path)?;
    let body = expand_tabs_in(contents);
    let e = Edit::Attach { tag: tag.clone(), contents: body };
    let objects = edit_selected(&save.objects, guids, &e);
    assert(objects@ =~= attach_all(
        old(save)@.objects,
        string_views(guids@),
        tag@,
        expand_tabs(contents@),
    ));
    save.objects = objects;
    Ok(tag)
}

/// Detaches every object that `guids` names: each keeps only its foreign
/// tags, and its script and UI become empty. An unknown identifier leaves
/// the save as it was.
pub fn detach(save: &mut Save, guids: &Vec<String>) -> (r: Result<(), Error>)
    ensures
        r is Ok <==> all_known(old(save)@.objects, string_views(guids@)),
        r is Ok ==> final(save)@ == (SaveView {
            objects: detach_all(old(save)@.objects, string_views(guids@)),
            ..old(save)@
        }),
        r is Err ==> final(save)@ == old(save)@ && r->Err_0 is UnknownObject,
{
    save.objects.check_known(guids)?;
    let e = Edit::Detach;
    let objects = edit_selected(&save.objects, guids, &e);
    assert(objects@ =~= detach_all(old(save)@.objects, string_views(guids@)));
    save.objects = objects;
    Ok(())
}

/// Attaching the file of a valid tag leaves the object with exactly one
/// valid tag of that namespace, the new one, in place of any earlier one; its
/// foreign tags stay as they were, and the body of that namespace is the
/// file's contents.
pub proof fn lemma_attached_object(o: ObjectView, tag: Seq<char>, contents: Seq<char>)
    requires
        is_valid_tag(tag),
    ensures
        filtered(attached(o, tag, contents).tags, TagFilter::In(namespace_of(tag))) == seq![tag],
        resolve(attached(o, tag, contents).tags, namespace_of(tag)) == Some(Some(tag)),
        filtered(attached(o, tag, contents).tags, TagFilter::Foreign) == filtered(
            o.tags,
            TagFilter::Foreign,
        ),
        body_of(attached(o, tag, contents), namespace_of(tag)) == contents,
{
    let ns = namespace_of(tag);
    let not_in = |t: Seq<char>| keeps(TagFilter::NotIn(ns), t);
    let is_in = |t: Seq<char>| keeps(TagFilter::In(ns), t);
    let foreign = |t: Seq<char>| keeps(TagFilter::Foreign, t);
    let k = o.tags.filter(not_in);
    lemma_filter_passes(o.tags, not_in);
    lemma_filter_none(k, is_in);
    lemma_filter_push(k, is_in, tag);
    assert(Seq::<Seq<char>>::empty().push(tag) =~= seq![tag]);
    lemma_filter_push(k, foreign, tag);
    assert forall|t: Seq<char>| #[trigger] foreign(t) implies not_in(t) by {}
    lemma_filter_twice(o.tags, not_in, foreign);
}

/// Detaching an object removes every valid tag of both namespaces and both
/// bodies, and keeps its foreign tags as they were.
pub proof fn lemma_detached_object(o: ObjectView)
    ensures
        filtered(detached(o).tags, TagFilter::Valid) == Seq::<Seq<char>>::empty(),
        resolve(detached(o).tags, Namespace::Lua) == Some(None::<Seq<char>>),
        resolve(detached(o).tags, Namespace::Xml) == Some(None::<Seq<char>>),
        filtered(detached(o).tags, TagFilter::Foreign) == filtered(o.tags, TagFilter::Foreign),
        detached(o).lua_script.len() == 0,
        detached(o).xml_ui.len() == 0,
{
    let foreign = |t: Seq<char>| keeps(TagFilter::Foreign, t);
    let k = o.tags.filter(foreign);
    lemma_filter_passes(o.tags, foreign);
    lemma_filter_none(k, |t: Seq<char>| keeps(TagFilter::Valid, t));
    lemma_filter_none(k, |t: Seq<char>| keeps(TagFilter::In(Namespace::Lua), t));
    lemma_filter_none(k, |t: Seq<char>| keeps(TagFilter::In(Namespace::Xml), t));
    lemma_filter_twice(o.tags, foreign, foreign);
}

/// After an attach, every selected object holds exactly the attached tag in
/// its namespace, its foreign tags are those it had, and its body of that
/// namespace is the contents; the other objects are unchanged.
pub proof fn lemma_attach_invariant(
    objs: Seq<ObjectView>,
    guids: Seq<Seq<char>>,
    tag: Seq<char>,
    contents: Seq<char>,
)
    requires
        is_valid_tag(tag),
    ensures
        forall|i: int|
            0 <= i < objs.len() && selected(objs[i], guids) ==> {
                &&& resolve(#[trigger] attach_all(objs, guids, tag, contents)[i].tags, namespace_of(tag))
                    == Some(Some(tag))
                &&& filtered(attach_all(objs, guids, tag, contents)[i].tags, TagFilter::Foreign)
                    == filtered(objs[i].tags, TagFilter::Foreign)
                &&& body_of(attach_all(objs, guids, tag, contents)[i], namespace_of(tag))
                    == contents
            },
        forall|i: int|
            0 <= i < objs.len() && !selected(objs[i], guids) ==> #[trigger] attach_all(
                objs,
                guids,
                tag,
                contents,
            )[i] == objs[i],
{
    assert forall|i: int| 0 <= i < objs.len() && selected(objs[i], guids) implies {
        &&& resolve(#[trigger] attach_all(objs, guids, tag, contents)[i].tags, namespace_of(tag))
            == Some(Some(tag))
        &&& filtered(attach_all(objs, guids, tag, contents)[i].tags, TagFilter::Foreign)
            == filtered(objs[i].tags, TagFilter::Foreign)
        &&& body_of(attach_all(objs, guids, tag, contents)[i], namespace_of(tag)) == contents
    } by {
        lemma_attached_object(objs[i], tag, contents);
    }
}

/// After a detach, no selected object holds a valid tag or a body, each
/// keeps its foreign tags, and the other objects are unchanged.
pub proof fn lemma_detach_invariant(objs: Seq<ObjectView>, guids: Seq<Seq<char>>)
    ensures
        forall|i: int|
            0 <= i < objs.len() && selected(objs[i], guids) ==> {
                &&& filtered(#[trigger] detach_all(objs, guids)[i].tags, TagFilter::Valid)
                    == Seq::<Seq<char>>::empty()
                &&& filtered(detach_all(objs, guids)[i].tags, TagFilter::Foreign) == filtered(
                    objs[i].tags,
                    TagFilter::Foreign,
                )
                &&& detach_all(objs, guids)[i].lua_script.len() == 0
                &&& detach_all(objs, guids)[i].xml_ui.len() == 0
            },
        forall|i: int|
            0 <= i < objs.len() && !selected(objs[i], guids) ==> #[trigger] detach_all(objs, guids)[i]
                == objs[i],
{
    assert forall|i: int| 0 <= i < objs.len() && selected(objs[i], guids) implies {
        &&& filtered(#[trigger] detach_all(objs, guids)[i].tags, TagFilter::Valid)
            == Seq::<Seq<char>>::empty()
        &&& filtered(detach_all(objs, guids)[i].tags, TagFilter::Foreign) == filtered(
            objs[i].tags,
            TagFilter::Foreign,
        )
        &&& detach_all(objs, guids)[i].lua_script.len() == 0
        &&& detach_all(objs, guids)[i].xml_ui.len() == 0
    } by {
        lemma_detached_object(objs[i]);
    }
}

/// A file read from disk: its path, as a tag names it, and its contents.
pub struct SourceFile {
    pub path: String,
    pub contents: String,
}

/// The paths and contents of a sequence of files.
pub open spec fn file_views(v: Seq<SourceFile>) -> Seq<(Seq<char>, Seq<char>)> {
    v.map_values(|f: SourceFile| (f.path@, f.contents@))
}

/// The contents given for the path `p`: those of the first file with that path.
pub open spec fn lookup(files: Seq<(Seq<char>, Seq<char>)>, p: Seq<char>) -> Option<Seq<char>> {
    if exists|i: int| 0 <= i < files.len() && files[i].0 == p {
        let i = choose|i: int|
            0 <= i < files.len() && files[i].0 == p && forall|j: int|
                0 <= j < i ==> files[j].0 != p;
        Some(files[i].1)
    } else {
        None
    }
}

/// The body that reloading gives object `o` in namespace `ns`, or `None`
/// when it cannot: the tags of `ns` are ambiguous, or the file is missing.
/// With no valid tag the body is emptied; with a tag whose file lies under a
/// changed path the body is the file's contents, tabs expanded; otherwise it
/// stays.
pub open spec fn reloaded_body(
    o: ObjectView,
    ns: Namespace,
    paths: Seq<Seq<char>>,
    files: Seq<(Seq<char>, Seq<char>)>,
) -> Option<Seq<char>> {
    match resolve(o.tags, ns) {
        None => None,
        Some(None) => Some(Seq::empty()),
        Some(Some(t)) => if under_any(tag_path(t), paths) {
            match lookup(files, tag_path(t)) {
                Some(c) => Some(expand_tabs(c)),
                None => None,
            }
        } else {
            Some(body_of(o, ns))
        },
    }
}

/// Reloading can be done for `o`.
pub open spec fn reload_ok(
    o: ObjectView,
    paths: Seq<Seq<char>>,
    files: Seq<(Seq<char>, Seq<char>)>,
) -> bool {
    reloaded_body(o, Namespace::Lua, paths, files) is Some && reloaded_body(
        o,
        Namespace::Xml,
        paths,
        files,
    ) is Some
}

/// What reloading makes of `o` (when it can be done).
pub open spec fn reloaded(
    o: ObjectView,
    paths: Seq<Seq<char>>,
    files: Seq<(Seq<char>, Seq<char>)>,
) -> ObjectView {
    ObjectView {
        lua_script: match reloaded_body(o, Namespace::Lua, paths, files) {
            Some(b) => b,
            None => o.lua_script,
        },
        xml_ui: match reloaded_body(o, Namespace::Xml, paths, files) {
            Some(b) => b,
            None => o.xml_ui,
        },
        ..o
    }
}

/// An object that a reload pass addresses: every object, or those with the
/// identifier `guid`.
pub open spec fn targeted(o: ObjectView, guid: Option<Seq<char>>) -> bool {
    match guid {
        None => true,
        Some(g) => o.guid == g,
    }
}

/// The objects after a reload pass.
pub open spec fn reload_all(
    objs: Seq<ObjectView>,
    paths: Seq<Seq<char>>,
    guid: Option<Seq<char>>,
    files: Seq<(Seq<char>, Seq<char>)>,
) -> Seq<ObjectView> {
    objs.map_values(
        |o: ObjectView|
            if targeted(o, guid) {
                reloaded(o, paths, files)
            } else {
                o
            },
    )
}

/// A reload pass fails: `guid` names no object, or some addressed object
/// cannot be reloaded.
pub open spec fn reload_fails(
    objs: Seq<ObjectView>,
    paths: Seq<Seq<char>>,
    guid: Option<Seq<char>>,
    files: Seq<(Seq<char>, Seq<char>)>,
) -> bool {
    ||| (guid is Some && !has_guid(objs, guid->Some_0))
    ||| exists|i: int|
        0 <= i < objs.len() && targeted(objs[i], guid) && !reload_ok(#[trigger] objs[i], paths, files)
}

pub open spec fn opt_view(g: Option<String>) -> Option<Seq<char>> {
    match g {
        Some(s) => Some(s@),
        None => None,
    }
}

/// The contents supplied for `path`.
pub fn find_file<'a>(files: &'a Vec<SourceFile>, path: &str) -> (r: Option<&'a String>)
    ensures
        r is None ==> lookup(file_views(files@), path@) is None,
        r is Some ==> lookup(file_views(files@), path@) == Some(r->Some_0@),
{
    let ghost fv = file_views(files@);
    let mut i: usize = 0;
    while i < files.len()
        invariant
            i <= files@.len(),
            fv == file_views(files@),
            forall|j: int| 0 <= j < i ==> fv[j].0 != path@,
        decreases files@.len() - i,
    {
        if crate::text::str_equal(files[i].path.as_str(), path) {
            proof {
                assert(fv[i as int].0 == path@);
                let k = choose|k: int|
                    0 <= k < fv.len() && fv[k].0 == path@ && forall|j: int|
                        0 <= j < k ==> fv[j].0 != path@;
                if k < i {
                } else if k > i {
                    assert(fv[i as int].0 != path@);
                }
                assert(k == i);
            }
            return Some(&files[i].contents);
        }
        i = i + 1;
    }
    None
}

/// Whether the file a valid tag names lies under one of `paths`.
fn tag_under_any(tag: &Tag, paths: &Vec<String>) -> (r: bool)
    requires
        is_valid_tag(tag@),
    ensures
        r == under_any(tag_path(tag@), string_views(paths@)),
{
    let mut k: usize = 0;
    while k < paths.len()
        invariant
            k <= paths@.len(),
            is_valid_tag(tag@),
            forall|j: int| 0 <= j < k ==> !path_under(tag_path(tag@), #[trigger] string_views(paths@)[j]),
        decreases paths@.len() - k,
    {
        if tag.starts_with(paths[k].as_str()) {
            assert(path_under(tag_path(tag@), string_views(paths@)[k as int]));
            return true;
        }
        k = k + 1;
    }
    false
}

/// The body that reloading gives `o` in `ns`; the error names the ambiguous
/// tags or the missing file.
fn reload_body(o: &Object, ns: Namespace, paths: &Vec<String>, files: &Vec<SourceFile>) -> (r:
    Result<String, Error>)
    ensures
        r is Ok <==> reloaded_body(o@, ns, string_views(paths@), file_views(files@)) is Some,
        r is Ok ==> Some(r->Ok_0@) == reloaded_body(o@, ns, string_views(paths@), file_views(files@)),
        r is Err ==> r->Err_0 is AmbiguousTag || r->Err_0 is MissingFile,
{
    match o.valid_tag(ns) {
        Err(e) => Err(e),
        Ok(None) => Ok(String::new()),
        Ok(Some(tag)) => {
            proof {
                crate::text::lemma_filter_passes(o@.tags, |t: Seq<char>| keeps(TagFilter::In(ns), t));
                assert(in_namespace(ns, tag@));
            }
            if tag_under_any(&tag, paths) {
                let p = match tag.path() {
                    Ok(p) => p,
                    Err(e) => return Err(e),
                };
                match find_file(files, p.as_str()) {
                    Some(c) => Ok(expand_tabs_in(c.as_str())),
                    None => Err(Error::MissingFile { path: p }),
                }
            } else {
                Ok(o.body(ns).clone())
            }
        },
    }
}

/// What reloading makes of `o`.
fn reload_object(o: &Object, paths: &Vec<String>, files: &Vec<SourceFile>) -> (r: Result<
    Object,
    Error,
>)
    ensures
        r is Ok <==> reload_ok(o@, string_views(paths@), file_views(files@)),
        r is Ok ==> r->Ok_0@ == reloaded(o@, string_views(paths@), file_views(files@)),
        r is Err ==> r->Err_0 is AmbiguousTag || r->Err_0 is MissingFile,
{
    let lua = reload_body(o, Namespace::Lua, paths, files)?;
    let xml = reload_body(o, Namespace::Xml, paths, files)?;
    let mut n = o.clone();
    n.lua_script = lua;
    n.xml_ui = xml;
    Ok(n)
}

/// A reload pass: every addressed object (every object, or those with the
/// identifier `guid`) has its script and UI re-read from the files its
/// valid tags name, where those lie under one of the changed `paths`, and
/// emptied where it has no valid tag. `files` holds the contents read for
/// those files. Returns whether anything changed; on an error the save is as
/// it was.
pub fn reload(
    save: &mut Save,
    paths: &Vec<String>,
    guid: &Option<String>,
    files: &Vec<SourceFile>,
) -> (r: Result<bool, Error>)
    ensures
        r is Err <==> reload_fails(
            old(save)@.objects,
            string_views(paths@),
            opt_view(*guid),
            file_views(files@),
        ),
        r is Err ==> final(save)@ == old(save)@,
        r is Ok ==> final(save)@ == (SaveView {
            objects: reload_all(
                old(save)@.objects,
                string_views(paths@),
                opt_view(*guid),
                file_views(files@),
            ),
            ..old(save)@
        }),
        r is Ok ==> (r->Ok_0 <==> final(save)@ != old(save)@),
        r is Err && guid is Some && !has_guid(old(save)@.objects, opt_view(*guid)->Some_0)
            ==> r->Err_0 is UnknownObject,
        r is Err ==> r->Err_0 is UnknownObject || r->Err_0 is AmbiguousTag
            || r->Err_0 is MissingFile,
{
    let ghost pv = string_views(paths@);
    let ghost gv = opt_view(*guid);
    let ghost fv = file_views(files@);
    let ghost objs = save.objects@;
    if let Some(g) = guid {
        save.objects.find_object(g.as_str())?;
    }
    let mut out: Vec<Object> = Vec::new();
    let mut changed = false;
    let mut i: usize = 0;
    while i < save.objects.0.len()
        invariant
            i <= save.objects.0@.len(),
            save.objects@ == objs,
            save@ == old(save)@,
            pv == string_views(paths@),
            gv == opt_view(*guid),
            fv == file_views(files@),
            gv is Some ==> has_guid(objs, gv->Some_0),
            object_views(out@) == reload_all(objs, pv, gv, fv).take(i as int),
            forall|j: int| 0 <= j < i && targeted(objs[j], gv) ==> reload_ok(#[trigger] objs[j], pv, fv),
            changed <==> exists|j: int| 0 <= j < i && #[trigger] reload_all(objs, pv, gv, fv)[j] != objs[j],
        decreases save.objects.0@.len() - i,
    {
        let o = &save.objects.0[i];
        let target = match guid {
            Some(g) => crate::text::str_equal(o.guid.as_str(), g.as_str()),
            None => true,
        };
        let n = if target {
            match reload_object(o, paths, files) {
                Ok(n) => n,
                Err(e) => {
                    assert(!reload_ok(objs[i as int], pv, fv));
                    return Err(e);
                },
            }
        } else {
            o.clone()
        };
        assert(n@ == reload_all(objs, pv, gv, fv)[i as int]);
        if n.lua_script != o.lua_script || n.xml_ui != o.xml_ui {
            changed = true;
        } else {
            assert(n@ =~= o@);
        }
        let ghost before = out@;
        out.push(n);
        assert(object_views(out@) =~= object_views(before).push(n@));
        assert(object_views(out@) =~= reload_all(objs, pv, gv, fv).take(i + 1));
        i = i + 1;
    }
    assert(reload_all(objs, pv, gv, fv).take(i as int) =~= reload_all(objs, pv, gv, fv));
    save.objects = Objects(out);
    proof {
        if changed {
            let j = choose|j: int| 0 <= j < i && #[trigger] reload_all(objs, pv, gv, fv)[j] != objs[j];
            assert(save@.objects[j] != old(save)@.objects[j]);
        } else {
            assert(save@.objects =~= old(save)@.objects);
            assert(save@ =~= old(save)@);
        }
    }
    Ok(changed)
}

/// Reloading an object that could be reloaded gives an object that can be
/// reloaded again with the same paths and files, and that stays as it is.
pub proof fn lemma_reloaded_object_stable(
    o: ObjectView,
    paths: Seq<Seq<char>>,
    files: Seq<(Seq<char>, Seq<char>)>,
)
    requires
        reload_ok(o, paths, files),
    ensures
        reload_ok(reloaded(o, paths, files), paths, files),
        reloaded(reloaded(o, paths, files), paths, files) == reloaded(o, paths, files),
{
    let n = reloaded(o, paths, files);
    assert(n.tags == o.tags);
    assert(reloaded_body(n, Namespace::Lua, paths, files) == Some(n.lua_script));
    assert(reloaded_body(n, Namespace::Xml, paths, files) == Some(n.xml_ui));
    assert(reloaded(n, paths, files) =~= n);
}

/// A reload pass depends on the changed paths only through the files they
/// hold: two sets of paths that hold the same files (such as some paths and
/// `reduce_paths` of them) give the same pass.
pub proof fn lemma_reload_same_cover(
    objs: Seq<ObjectView>,
    paths: Seq<Seq<char>>,
    other: Seq<Seq<char>>,
    guid: Option<Seq<char>>,
    files: Seq<(Seq<char>, Seq<char>)>,
)
    requires
        forall|x: Seq<char>| #[trigger] under_any(x, paths) == under_any(x, other),
    ensures
        reload_fails(objs, paths, guid, files) == reload_fails(objs, other, guid, files),
        reload_all(objs, paths, guid, files) == reload_all(objs, other, guid, files),
{
    assert forall|o: ObjectView, ns: Namespace|
        #[trigger] reloaded_body(o, ns, paths, files) == reloaded_body(o, ns, other, files) by {
        match resolve(o.tags, ns) {
            Some(Some(t)) => {
                assert(under_any(tag_path(t), paths) == under_any(tag_path(t), other));
            },
            _ => {},
        }
    }
    assert(reload_all(objs, paths, guid, files) =~= reload_all(objs, other, guid, files));
    if reload_fails(objs, paths, guid, files) {
        if !(guid is Some && !has_guid(objs, guid->Some_0)) {
            let i = choose|i: int|
                0 <= i < objs.len() && targeted(objs[i], guid) && !reload_ok(#[trigger] objs[i], paths, files);
            assert(!reload_ok(objs[i], other, files));
        }
    }
    if reload_fails(objs, other, guid, files) {
        if !(guid is Some && !has_guid(objs, guid->Some_0)) {
            let i = choose|i: int|
                0 <= i < objs.len() && targeted(objs[i], guid) && !reload_ok(#[trigger] objs[i], other, files);
            assert(!reload_ok(objs[i], paths, files));
        }
    }
}

/// A reload pass run a second time, with no change to the files in between
/// (the same changed paths and the same contents), succeeds and changes
/// nothing, so that it leads to no write-back.
pub proof fn lemma_reload_idempotent(
    objs: Seq<ObjectView>,
    paths: Seq<Seq<char>>,
    guid: Option<Seq<char>>,
    files: Seq<(Seq<char>, Seq<char>)>,
)
    requires
        !reload_fails(objs, paths, guid, files),
    ensures
        !reload_fails(reload_all(objs, paths, guid, files), paths, guid, files),
        reload_all(reload_all(objs, paths, guid, files), paths, guid, files) == reload_all(
            objs,
            paths,
            guid,
            files,
        ),
{
    let once = reload_all(objs, paths, guid, files);
    let twice = reload_all(once, paths, guid, files);
    assert forall|i: int| 0 <= i < objs.len() implies #[trigger] once[i].guid == objs[i].guid
        && (targeted(once[i], guid) ==> reload_ok(once[i], paths, files)) && twice[i] == once[i] by {
        if targeted(objs[i], guid) {
            lemma_reloaded_object_stable(objs[i], paths, files);
        }
    }
    if guid is Some {
        let k = choose|k: int| 0 <= k < objs.len() && objs[k].guid == guid->Some_0;
        assert(once[k].guid == guid->Some_0);
    }
    assert(twice =~= once);
}

/// After a successful reload pass every addressed object has at most one
/// valid tag in each namespace: a pass that meets an object with several
/// fails instead.
pub proof fn lemma_reload_unambiguous(
    objs: Seq<ObjectView>,
    paths: Seq<Seq<char>>,
    guid: Option<Seq<char>>,
    files: Seq<(Seq<char>, Seq<char>)>,
)
    requires
        !reload_fails(objs, paths, guid, files),
    ensures
        forall|i: int|
            0 <= i < objs.len() && targeted(objs[i], guid) ==> {
                &&& filtered(
                    #[trigger] reload_all(objs, paths, guid, files)[i].tags,
                    TagFilter::In(Namespace::Lua),
                ).len() <= 1
                &&& filtered(reload_all(objs, paths, guid, files)[i].tags, TagFilter::In(Namespace::Xml)).len()
                    <= 1
            },
{
}

/// The file that the valid tag of `o` in `ns` names, if there is exactly one
/// such tag and its file lies under one of `paths`.
pub open spec fn needed_file(o: ObjectView, ns: Namespace, paths: Seq<Seq<char>>) -> Option<
    Seq<char>,
> {
    match resolve(o.tags, ns) {
        Some(Some(t)) => if under_any(tag_path(t), paths) {
            Some(tag_path(t))
        } else {
            None
        },
        _ => None,
    }
}

/// A file whose contents a reload pass needs: one that the valid tag of an
/// addressed object names and that lies under a changed path.
pub open spec fn needed(
    objs: Seq<ObjectView>,
    paths: Seq<Seq<char>>,
    guid: Option<Seq<char>>,
    p: Seq<char>,
) -> bool {
    exists|i: int, ns: Namespace|
        0 <= i < objs.len() && targeted(objs[i], guid) && #[trigger] needed_file(objs[i], ns, paths)
            == Some(p)
}

/// The paths of the files whose contents a reload pass with these changed
/// `paths` needs, each once.
pub fn files_needed(objects: &Objects, paths: &Vec<String>, guid: &Option<String>) -> (r: Vec<
    String,
>)
    ensures
        forall|k: int|
            0 <= k < r@.len() ==> needed(objects@, string_views(paths@), opt_view(*guid), #[trigger] r@[k]@),
        forall|p: Seq<char>|
            needed(objects@, string_views(paths@), opt_view(*guid), p) ==> string_views(r@).contains(p),
{
    let ghost pv = string_views(paths@);
    let ghost gv = opt_view(*guid);
    let mut out: Vec<String> = Vec::new();
    let mut i: usize = 0;
    while i < objects.0.len()
        invariant
            i <= objects.0@.len(),
            pv == string_views(paths@),
            gv == opt_view(*guid),
            forall|k: int| 0 <= k < out@.len() ==> needed(objects@, pv, gv, #[trigger] out@[k]@),
            forall|j: int, ns: Namespace|
                0 <= j < i && targeted(objects@[j], gv) && #[trigger] needed_file(objects@[j], ns, pv)
                    is Some ==> string_views(out@).contains(needed_file(objects@[j], ns, pv)->Some_0),
        decreases objects.0@.len() - i,
    {
        let o = &objects.0[i];
        let target = match guid {
            Some(g) => crate::text::str_equal(o.guid.as_str(), g.as_str()),
            None => true,
        };
        let mut n: usize = 0;
        while n < 2
            invariant
                n <= 2,
                i < objects.0@.len(),
                o == objects.0@[i as int],
                target == targeted(objects@[i as int], gv),
                pv == string_views(paths@),
                gv == opt_view(*guid),
                forall|k: int| 0 <= k < out@.len() ==> needed(objects@, pv, gv, #[trigger] out@[k]@),
                forall|j: int, ns: Namespace|
                    0 <= j < i && targeted(objects@[j], gv) && #[trigger] needed_file(
                        objects@[j],
                        ns,
                        pv,
                    ) is Some ==> string_views(out@).contains(
                        needed_file(objects@[j], ns, pv)->Some_0,
                    ),
                forall|ns: Namespace|
                    (n >= 1 && ns == Namespace::Lua || n >= 2 && ns == Namespace::Xml) && target
                        && #[trigger] needed_file(objects@[i as int], ns, pv) is Some ==> string_views(
                        out@,
                    ).contains(needed_file(objects@[i as int], ns, pv)->Some_0),
            decreases 2 - n,
        {
            let ns = if n == 0 {
                Namespace::Lua
            } else {
                Namespace::Xml
            };
            if target {
                if let Ok(Some(tag)) = o.valid_tag(ns) {
                    proof {
                        crate::text::lemma_filter_passes(
                            o@.tags,
                            |t: Seq<char>| keeps(TagFilter::In(ns), t),
                        );
                    }
                    if tag_under_any(&tag, paths) {
                        if let Ok(p) = tag.path() {
                            assert(needed_file(objects@[i as int], ns, pv) == Some(p@));
                            if !contains_str(&out, p.as_str()) {
                                let ghost before = out@;
                                out.push(p);
                                assert(string_views(out@) =~= string_views(before).push(p@));
                                assert(string_views(out@)[out@.len() - 1] == p@);
                                assert forall|q: Seq<char>|
                                    string_views(before).contains(q) implies string_views(
                                    out@,
                                ).contains(q) by {
                                    let k = choose|k: int|
                                        0 <= k < string_views(before).len()
                                            && string_views(before)[k] == q;
                                    assert(string_views(out@)[k] == q);
                                }
                            }
                        }
                    }
                }
            }
            n = n + 1;
        }
        assert forall|ns: Namespace|
            targeted(objects@[i as int], gv) && #[trigger] needed_file(objects@[i as int], ns, pv) is Some
                implies string_views(out@).contains(needed_file(objects@[i as int], ns, pv)->Some_0) by {
            if ns == Namespace::Lua {
            } else {
            }
        }
        i = i + 1;
    }
    proof {
        assert forall|p: Seq<char>| needed(objects@, pv, gv, p) implies string_views(out@).contains(p) by {
            let (j, ns) = choose|j: int, ns: Namespace|
                0 <= j < objects@.len() && targeted(objects@[j], gv) && #[trigger] needed_file(
                    objects@[j],
                    ns,
                    pv,
                ) == Some(p);
        }
    }
    out
}

/// An object that holds a body in a namespace without a valid tag for it:
/// the tag was removed by hand, and the body should be detached.
pub struct Warning {
    pub guid: String,
    pub namespace: Namespace,
}

/// `o` holds a body of `ns` but no valid tag of `ns`.
pub open spec fn unbacked(o: ObjectView, ns: Namespace) -> bool {
    resolve(o.tags, ns) == Some(None::<Seq<char>>) && body_of(o, ns).len() > 0
}

/// The warnings for one object, script before UI.
pub open spec fn object_warnings(o: ObjectView) -> Seq<(Seq<char>, Namespace)> {
    (if unbacked(o, Namespace::Lua) {
        seq![(o.guid, Namespace::Lua)]
    } else {
        Seq::empty()
    }) + (if unbacked(o, Namespace::Xml) {
        seq![(o.guid, Namespace::Xml)]
    } else {
        Seq::empty()
    })
}

/// The warnings for a sequence of objects, in order.
pub open spec fn warnings_of(objs: Seq<ObjectView>) -> Seq<(Seq<char>, Namespace)>
    decreases objs.len(),
{
    if objs.len() == 0 {
        Seq::empty()
    } else {
        warnings_of(objs.drop_last()) + object_warnings(objs.last())
    }
}

/// Some object has several valid tags in a namespace.
pub open spec fn some_ambiguous(objs: Seq<ObjectView>) -> bool {
    exists|i: int, ns: Namespace| 0 <= i < objs.len() && #[trigger] resolve(objs[i].tags, ns) is None
}

pub open spec fn warning_views(v: Seq<Warning>) -> Seq<(Seq<char>, Namespace)> {
    v.map_values(|w: Warning| (w.guid@, w.namespace))
}

/// The check made before a save is committed: an object with several valid
/// tags in a namespace is an error; one that holds a body without a valid
/// tag for it is a warning.
pub fn check_consistency(objects: &Objects) -> (r: Result<Vec<Warning>, Error>)
    ensures
        r is Err <==> some_ambiguous(objects@),
        r is Err ==> r->Err_0 is AmbiguousTag,
        r is Ok ==> warning_views(r->Ok_0@) == warnings_of(objects@),
{
    let mut out: Vec<Warning> = Vec::new();
    let mut i: usize = 0;
    while i < objects.0.len()
        invariant
            i <= objects.0@.len(),
            warning_views(out@) == warnings_of(objects@.take(i as int)),
            forall|j: int, ns: Namespace| 0 <= j < i ==> #[trigger] resolve(objects@[j].tags, ns) is Some,
        decreases objects.0@.len() - i,
    {
        let o = &objects.0[i];
        let lua = match o.valid_tag(Namespace::Lua) {
            Ok(t) => t,
            Err(e) => {
                assert(resolve(objects@[i as int].tags, Namespace::Lua) is None);
                return Err(e);
            },
        };
        let xml = match o.valid_tag(Namespace::Xml) {
            Ok(t) => t,
            Err(e) => {
                assert(resolve(objects@[i as int].tags, Namespace::Xml) is None);
                return Err(e);
            },
        };
        let ghost before = out@;
        if lua.is_none() && o.lua_script.unicode_len() > 0 {
            out.push(Warning { guid: o.guid.clone(), namespace: Namespace::Lua });
        }
        let ghost mid = out@;
        if xml.is_none() && o.xml_ui.unicode_len() > 0 {
            out.push(Warning { guid: o.guid.clone(), namespace: Namespace::Xml });
        }
        assert(objects@.take(i + 1).drop_last() =~= objects@.take(i as int));
        assert(warning_views(mid) =~= warning_views(before) + (if unbacked(o@, Namespace::Lua) {
            seq![(o@.guid, Namespace::Lua)]
        } else {
            Seq::empty()
        }));
        assert(warning_views(out@) =~= warning_views(before) + object_warnings(o@));
        assert forall|j: int, ns: Namespace| 0 <= j < i + 1 implies #[trigger] resolve(objects@[j].tags, ns) is Some by {
            if j == i {
                if ns == Namespace::Lua {
                } else {
                }
            }
        }
        i = i + 1;
    }
    assert(objects@.take(i as int) =~= objects@);
    Ok(out)
}

} // verus!
