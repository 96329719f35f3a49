use vstd::prelude::*;

use crate::error::Error;
use crate::tags::{filtered, tag_views, Namespace, Tag, TagFilter, Tags};
use crate::text::{str_equal, string_views};

verus! {

/// An object of a save as the contracts see it.
#[verifier::ext_equal]
pub struct ObjectView {
    pub guid: Seq<char>,
    pub name: Seq<char>,
    pub nickname: Seq<char>,
    pub lua_script: Seq<char>,
    pub xml_ui: Seq<char>,
    pub tags: Seq<Seq<char>>,
    pub extra: Seq<char>,
}

/// An object loaded in the current save.
#[derive(Debug)]
pub struct Object {
    pub guid: String,
    pub name: String,
    pub nickname: String,
    pub lua_script: String,
    pub xml_ui: String,
    pub tags: Tags,
    /// The object's other fields, kept as the JSON text they were read from.
    pub extra: String,
}

impl View for Object {
    type V = ObjectView;

    open spec fn view(&self) -> ObjectView {
        ObjectView {
            guid: self.guid@,
            name: self.name@,
            nickname: self.nickname@,
            lua_script: self.lua_script@,
            xml_ui: self.xml_ui@,
            tags: self.tags@,
            extra: self.extra@,
        }
    }
}

impl Clone for Object {
    fn clone(&self) -> (r: Self)
        ensures
            r@ == self@,
    {
        Object {
            guid: self.guid.clone(),
            name: self.name.clone(),
            nickname: self.nickname.clone(),
            lua_script: self.lua_script.clone(),
            xml_ui: self.xml_ui.clone(),
            tags: self.tags.clone(),
            extra: self.extra.clone(),
        }
    }
}

/// The body an object holds for a namespace: its script or its UI markup.
pub open spec fn body_of(o: ObjectView, ns: Namespace) -> Seq<char> {
    match ns {
        Namespace::Lua => o.lua_script,
        Namespace::Xml => o.xml_ui,
    }
}

/// How an object's tags of one namespace resolve: `Some(None)` for none,
/// `Some(Some(t))` for the single tag `t`, `None` when there are several.
pub open spec fn resolve(tags: Seq<Seq<char>>, ns: Namespace) -> Option<Option<Seq<char>>> {
    let v = filtered(tags, TagFilter::In(ns));
    if v.len() == 0 {
        Some(None)
    } else if v.len() == 1 {
        Some(Some(v[0]))
    } else {
        None
    }
}

/// `r` is what `Object::valid_tag` gives for an object `o` and namespace `ns`.
pub open spec fn valid_tag_result(o: ObjectView, ns: Namespace, r: Result<Option<Tag>, Error>) -> bool {
    match resolve(o.tags, ns) {
        Some(None) => r is Ok && r->Ok_0 is None,
        Some(Some(t)) => r is Ok && r->Ok_0 is Some && r->Ok_0->Some_0@ == t,
        None => r is Err && r->Err_0 is AmbiguousTag && r->Err_0->AmbiguousTag_guid@ == o.guid
            && tag_views(r->Err_0->AmbiguousTag_tags@) == filtered(o.tags, TagFilter::In(ns)),
    }
}

/// The tags an object is listed with (see `Object::shown_tags`).
pub open spec fn shown_tags_of(o: ObjectView) -> Seq<Seq<char>> {
    match (resolve(o.tags, Namespace::Lua), resolve(o.tags, Namespace::Xml)) {
        (Some(l), Some(x)) => (match l {
            Some(t) => seq![t],
            None => Seq::empty(),
        }) + (match x {
            Some(t) => seq![t],
            None => Seq::empty(),
        }),
        _ => Seq::empty(),
    }
}

impl Object {
    /// An object with the given identifier and nothing else.
    pub fn new(guid: String) -> (r: Object)
        ensures
            r.guid@ == guid@,
            r.name@.len() == 0,
            r.nickname@.len() == 0,
            r.lua_script@.len() == 0,
            r.xml_ui@.len() == 0,
            r@.tags.len() == 0,
            r.extra@.len() == 0,
    {
        Object {
            guid,
            name: String::new(),
            nickname: String::new(),
            lua_script: String::new(),
            xml_ui: String::new(),
            tags: Tags::new(),
            extra: String::new(),
        }
    }

    /// The body the object holds for `ns`.
    pub fn body(&self, ns: Namespace) -> (r: &String)
        ensures
            r@ == body_of(self@, ns),
    {
        match ns {
            Namespace::Lua => &self.lua_script,
            Namespace::Xml => &self.xml_ui,
        }
    }

    /// Replaces the body the object holds for `ns`.
    pub fn set_body(&mut self, ns: Namespace, body: String)
        ensures
            body_of(final(self)@, ns) == body@,
            final(self)@ == (match ns {
                Namespace::Lua => ObjectView { lua_script: body@, ..old(self)@ },
                Namespace::Xml => ObjectView { xml_ui: body@, ..old(self)@ },
            }),
    {
        match ns {
            Namespace::Lua => self.lua_script = body,
            Namespace::Xml => self.xml_ui = body,
        }
    }

    /// The object's single valid tag of `ns`, if it has one; an error naming
    /// the object and the tags when it has several.
    pub fn valid_tag(&self, ns: Namespace) -> (r: Result<Option<Tag>, Error>)
        ensures
            valid_tag_result(self@, ns, r),
    {
        let valid = self.tags.filter_namespace(ns);
        let n = valid.len();
        if n == 0 {
            Ok(None)
        } else if n == 1 {
            Ok(Some(valid.0[0].clone()))
        } else {
            Err(Error::AmbiguousTag { guid: self.guid.clone(), tags: valid.into_inner() })
        }
    }

    /// The name an object is listed under: its nickname, or its name when it
    /// has none.
    pub fn display_name(&self) -> (r: &String)
        ensures
            r@ == (if self.nickname@.len() > 0 {
                self.nickname@
            } else {
                self.name@
            }),
    {
        if self.nickname.unicode_len() > 0 {
            &self.nickname
        } else {
            &self.name
        }
    }

    /// The tags an object is listed with: its lua tag and its xml tag, each
    /// where it has exactly one; none when either namespace is ambiguous.
    pub fn shown_tags(&self) -> (r: Vec<Tag>)
        ensures
            tag_views(r@) == shown_tags_of(self@),
    {
        let lua = self.valid_lua();
        let xml = self.valid_xml();
        let mut out: Vec<Tag> = Vec::new();
        match (lua, xml) {
            (Ok(l), Ok(x)) => {
                if let Some(l) = l {
                    out.push(l);
                }
                if let Some(x) = x {
                    out.push(x);
                }
            },
            _ => {},
        }
        assert(tag_views(out@) =~= shown_tags_of(self@));
        out
    }

    /// The object's single valid lua tag, if it has one.
    pub fn valid_lua(&self) -> (r: Result<Option<Tag>, Error>)
        ensures
            valid_tag_result(self@, Namespace::Lua, r),
    {
        self.valid_tag(Namespace::Lua)
    }

    /// The object's single valid xml tag, if it has one.
    pub fn valid_xml(&self) -> (r: Result<Option<Tag>, Error>)
        ensures
            valid_tag_result(self@, Namespace::Xml, r),
    {
        self.valid_tag(Namespace::Xml)
    }
}

/// The views of a sequence of objects.
pub open spec fn object_views(v: Seq<Object>) -> Seq<ObjectView> {
    v.map_values(|o: Object| o@)
}

/// Some object of `objs` has the identifier `guid`.
pub open spec fn has_guid(objs: Seq<ObjectView>, guid: Seq<char>) -> bool {
    exists|i: int| 0 <= i < objs.len() && objs[i].guid == guid
}

/// Every identifier of `guids` names an object of `objs`.
pub open spec fn all_known(objs: Seq<ObjectView>, guids: Seq<Seq<char>>) -> bool {
    forall|j: int| 0 <= j < guids.len() ==> has_guid(objs, #[trigger] guids[j])
}

/// The objects of a save, in save order.
#[derive(Debug)]
pub struct Objects(pub Vec<Object>);

impl View for Objects {
    type V = Seq<ObjectView>;

    open spec fn view(&self) -> Seq<ObjectView> {
        object_views(self.0@)
    }
}

impl Objects {
    /// Consumes `Objects`, returning the wrapped value.
    pub fn into_inner(self) -> (r: Vec<Object>)
        ensures
            object_views(r@) == self@,
    {
        self.0
    }

    /// The number of objects.
    pub fn len(&self) -> (r: usize)
        ensures
            r == self@.len(),
    {
        self.0.len()
    }

    /// The index of the first object with the identifier `guid`.
    pub fn position(&self, guid: &str) -> (r: Option<usize>)
        ensures
            r is None <==> !has_guid(self@, guid@),
            r is Some ==> r->Some_0 < self@.len() && self@[r->Some_0 as int].guid == guid@
                && forall|j: int| 0 <= j < r->Some_0 ==> self@[j].guid != guid@,
    {
        let mut i: usize = 0;
        while i < self.0.len()
            invariant
                i <= self@.len(),
                self@.len() == self.0@.len(),
                forall|j: int| 0 <= j < i ==> self@[j].guid != guid@,
            decreases self.0@.len() - i,
        {
            if str_equal(self.0[i].guid.as_str(), guid) {
                assert(self@[i as int].guid == guid@);
                return Some(i);
            }
            i = i + 1;
        }
        None
    }

    /// The first object with the identifier `guid`.
    pub fn find_object(&self, guid: &str) -> (r: Result<&Object, Error>)
        ensures
            r is Err <==> !has_guid(self@, guid@),
            r is Ok ==> r->Ok_0.guid@ == guid@ && exists|i: int|
                0 <= i < self@.len() && self@[i] == r->Ok_0@,
            r is Err ==> r->Err_0 is UnknownObject && r->Err_0->UnknownObject_guid@ == guid@,
    {
        match self.position(guid) {
            Some(i) => Ok(&self.0[i]),
            None => Err(Error::UnknownObject { guid: String::from_str(guid) }),
        }
    }

    /// Checks that every identifier of `guids` names an object; the error
    /// names one that does not.
    pub fn check_known(&self, guids: &Vec<String>) -> (r: Result<(), Error>)
        ensures
            r is Ok <==> all_known(self@, string_views(guids@)),
            r is Err ==> r->Err_0 is UnknownObject && !has_guid(self@, r->Err_0->UnknownObject_guid@),
    {
        let mut j: usize = 0;
        while j < guids.len()
            invariant
                j <= guids@.len(),
                forall|k: int| 0 <= k < j ==> has_guid(self@, #[trigger] string_views(guids@)[k]),
            decreases guids@.len() - j,
        {
            if self.position(guids[j].as_str()).is_none() {
                assert(!has_guid(self@, string_views(guids@)[j as int]));
                return Err(Error::UnknownObject { guid: guids[j].clone() });
            }
            j = j + 1;
        }
        Ok(())
    }

    /// The objects whose names are not those of the game's hidden helper
    /// objects (hand triggers and fog of war).
    pub fn filter_hidden(self) -> (r: Objects)
        ensures
            r@ == self@.filter(|o: ObjectView| !is_hidden_name(o.name)),
    {
        let ghost pred = |o: ObjectView| !is_hidden_name(o.name);
        let mut out: Vec<Object> = Vec::new();
        let mut i: usize = 0;
        while i < self.0.len()
            invariant
                i <= self.0@.len(),
                pred == (|o: ObjectView| !is_hidden_name(o.name)),
                object_views(out@) == self@.take(i as int).filter(pred),
            decreases self.0@.len() - i,
        {
            proof {
                crate::text::lemma_filter_step(self@, pred, i as int);
            }
            if !hidden_name(self.0[i].name.as_str()) {
                let o = self.0[i].clone();
                let ghost before = out@;
                out.push(o);
                assert(object_views(out@) =~= object_views(before).push(o@));
            }
            i = i + 1;
        }
        assert(self@.take(i as int) =~= self@);
        Objects(out)
    }
}

/// The names of the game's hidden helper objects.
pub open spec fn is_hidden_name(name: Seq<char>) -> bool {
    name == "HandTrigger"@ || name == "FogOfWar"@ || name == "FogOfWarTrigger"@
}

/// Whether `name` is that of a hidden helper object.
pub fn hidden_name(name: &str) -> (r: bool)
    ensures
        r == is_hidden_name(name@),
{
    str_equal(name, "HandTrigger") || str_equal(name, "FogOfWar") || str_equal(
        name,
        "FogOfWarTrigger",
    )
}

/// Where an object is picked from a list, what the prompt asks for.
pub enum Mode {
    Attach,
    Detach,
}

impl Mode {
    /// The prompt shown when objects are picked for this mode.
    pub fn msg(&self) -> (r: &'static str)
        ensures
            r@ == (match self {
                Mode::Attach => "Select the object to attach the script or ui element to:"@,
                Mode::Detach => "Select the object to detach the script and ui element from:"@,
            }),
    {
        match self {
            Mode::Attach => "Select the object to attach the script or ui element to:",
            Mode::Detach => "Select the object to detach the script and ui element from:",
        }
    }
}

} // verus!
