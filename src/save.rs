use vstd::prelude::*;

use crate::objects::{ObjectView, Objects};
use crate::tags::Tag;
use crate::text::str_equal;

verus! {

/// A save as the contracts see it.
#[verifier::ext_equal]
pub struct SaveView {
    pub name: Seq<char>,
    pub lua_script: Seq<char>,
    pub xml_ui: Seq<char>,
    pub objects: Seq<ObjectView>,
    pub labels: Seq<(Seq<char>, Seq<char>)>,
    pub extra: Seq<char>,
}

/// The persisted state of one game session: its name, the save-wide script
/// and UI, and its objects in order.
#[derive(Debug)]
pub struct Save {
    pub name: String,
    pub lua_script: String,
    pub xml_ui: String,
    pub objects: Objects,
    /// The save's component tags: the tags the game offers for objects.
    pub labels: Vec<Label>,
    /// The save's other fields, kept as the JSON text they were read from.
    pub extra: String,
}

impl View for Save {
    type V = SaveView;

    open spec fn view(&self) -> SaveView {
        SaveView {
            name: self.name@,
            lua_script: self.lua_script@,
            xml_ui: self.xml_ui@,
            objects: self.objects@,
            labels: label_views(self.labels@),
            extra: self.extra@,
        }
    }
}

/// A component tag of the save, as shown and as compared.
#[derive(Debug)]
pub struct Label {
    pub displayed: String,
    pub normalized: String,
}

pub open spec fn label_views(v: Seq<Label>) -> Seq<(Seq<char>, Seq<char>)> {
    v.map_values(|l: Label| (l.displayed@, l.normalized@))
}

impl Label {
    /// The component tag for an object tag: its text, shown and compared as is.
    pub fn from_tag(tag: &Tag) -> (r: Label)
        ensures
            r.displayed@ == tag@,
            r.normalized@ == tag@,
    {
        Label { displayed: String::from_str(tag.as_str()), normalized: String::from_str(tag.as_str()) }
    }
}

/// Some object of `objs` carries the tag `t`.
pub open spec fn tag_in_objects(objs: Seq<ObjectView>, t: Seq<char>) -> bool {
    exists|i: int| 0 <= i < objs.len() && #[trigger] objs[i].tags.contains(t)
}

/// The component tag `l` is that of a tag some object of `objs` carries.
pub open spec fn label_of_object_tag(objs: Seq<ObjectView>, l: (Seq<char>, Seq<char>)) -> bool {
    l.0 == l.1 && tag_in_objects(objs, l.0)
}

/// Whether some object of `objects` carries a tag with the text `t`.
fn objects_carry(objects: &Objects, t: &str) -> (r: bool)
    ensures
        r == tag_in_objects(objects@, t@),
{
    let mut i: usize = 0;
    while i < objects.0.len()
        invariant
            i <= objects@.len(),
            objects@.len() == objects.0@.len(),
            forall|k: int| 0 <= k < i ==> !(#[trigger] objects@[k]).tags.contains(t@),
        decreases objects.0@.len() - i,
    {
        let tags = &objects.0[i].tags.0;
        let mut j: usize = 0;
        while j < tags.len()
            invariant
                i < objects.0@.len(),
                tags == objects.0@[i as int].tags.0,
                j <= tags@.len(),
                forall|k: int| 0 <= k < j ==> tags@[k]@ != t@,
            decreases tags@.len() - j,
        {
            if str_equal(tags[j].as_str(), t) {
                assert(objects@[i as int].tags[j as int] == t@);
                assert(objects@[i as int].tags.contains(t@));
                return true;
            }
            j = j + 1;
        }
        assert(!objects@[i as int].tags.contains(t@)) by {
            if objects@[i as int].tags.contains(t@) {
                let k = choose|k: int| 0 <= k < objects@[i as int].tags.len() && objects@[i as int].tags[k] == t@;
                assert(tags@[k]@ == t@);
            }
        }
        i = i + 1;
    }
    false
}

impl Save {
    /// Adds `tag` as a component tag, unless it is one already or some object
    /// carries it; returns whether it was added.
    pub fn push_object_tag(&mut self, tag: Tag) -> (r: bool)
        ensures
            r == (!old(self)@.labels.contains((tag@, tag@)) && !tag_in_objects(old(self)@.objects, tag@)),
            final(self)@ == (SaveView {
                labels: if r {
                    old(self)@.labels.push((tag@, tag@))
                } else {
                    old(self)@.labels
                },
                ..old(self)@
            }),
    {
        let mut known = false;
        let mut i: usize = 0;
        while i < self.labels.len()
            invariant
                i <= self.labels@.len(),
                known == exists|k: int| 0 <= k < i && label_views(self.labels@)[k] == (tag@, tag@),
            decreases self.labels@.len() - i,
        {
            let l = &self.labels[i];
            if str_equal(l.displayed.as_str(), tag.as_str()) && str_equal(l.normalized.as_str(), tag.as_str()) {
                assert(label_views(self.labels@)[i as int] == (tag@, tag@));
                known = true;
            }
            i = i + 1;
        }
        if !known && !objects_carry(&self.objects, tag.as_str()) {
            let label = Label::from_tag(&tag);
            let ghost before = self.labels@;
            self.labels.push(label);
            assert(label_views(self.labels@) =~= label_views(before).push((tag@, tag@)));
            true
        } else {
            false
        }
    }

    /// Removes the component tags that are tags of some object.
    pub fn remove_object_tags(&mut self)
        ensures
            final(self)@ == (SaveView {
                labels: old(self)@.labels.filter(
                    |l: (Seq<char>, Seq<char>)| !label_of_object_tag(old(self)@.objects, l),
                ),
                ..old(self)@
            }),
    {
        let ghost objs = self.objects@;
        let ghost pred = |l: (Seq<char>, Seq<char>)| !label_of_object_tag(objs, l);
        let ghost lv = label_views(self.labels@);
        let mut kept: Vec<Label> = Vec::new();
        let mut i: usize = 0;
        while i < self.labels.len()
            invariant
                i <= self.labels@.len(),
                lv == label_views(self.labels@),
                objs == self.objects@,
                pred == (|l: (Seq<char>, Seq<char>)| !label_of_object_tag(objs, l)),
                label_views(kept@) == lv.take(i as int).filter(pred),
            decreases self.labels@.len() - i,
        {
            let l = &self.labels[i];
            let drop = str_equal(l.displayed.as_str(), l.normalized.as_str()) && objects_carry(
                &self.objects,
                l.displayed.as_str(),
            );
            proof {
                crate::text::lemma_filter_step(lv, pred, i as int);
            }
            if !drop {
                let copy = Label { displayed: l.displayed.clone(), normalized: l.normalized.clone() };
                let ghost before = kept@;
                kept.push(copy);
                assert(label_views(kept@) =~= label_views(before).push(lv[i as int]));
            }
            i = i + 1;
        }
        assert(lv.take(i as int) =~= lv);
        self.labels = kept;
    }
}

} // verus!
