use vstd::prelude::*;

use crate::save::Save;
use crate::text::str_equal;

verus! {

/// The identifier under which the game addresses the save-wide script and UI.
pub open spec fn global_guid() -> Seq<char> {
    seq!['-', '1']
}

/// The script and UI of one object as the game exchanges them.
#[derive(Debug)]
pub struct ScriptState {
    pub guid: String,
    pub name: Option<String>,
    pub script: Option<String>,
    pub ui: Option<String>,
}

/// The text of an optional string, empty when there is none.
pub open spec fn text_or_empty(s: Option<String>) -> Seq<char> {
    match s {
        Some(t) => t@,
        None => Seq::empty(),
    }
}

impl ScriptState {
    /// The script, empty when there is none.
    pub fn script(&self) -> (r: String)
        ensures
            r@ == text_or_empty(self.script),
    {
        match &self.script {
            Some(script) => script.clone(),
            None => String::new(),
        }
    }

    /// The UI markup, empty when there is none.
    pub fn ui(&self) -> (r: String)
        ensures
            r@ == text_or_empty(self.ui),
    {
        match &self.ui {
            Some(ui) => ui.clone(),
            None => String::new(),
        }
    }
}

/// The script states of every object of a save.
#[derive(Debug)]
pub struct ScriptStates(pub Vec<ScriptState>);

impl ScriptStates {
    /// The first state with the identifier `guid`.
    pub fn get(&self, guid: String) -> (r: Option<&ScriptState>)
        ensures
            r is None <==> forall|i: int| 0 <= i < self.0@.len() ==> self.0@[i].guid@ != guid@,
            r is Some ==> exists|i: int|
                0 <= i < self.0@.len() && self.0@[i] == *r->Some_0 && self.0@[i].guid@ == guid@
                    && forall|j: int| 0 <= j < i ==> self.0@[j].guid@ != guid@,
    {
        let mut i: usize = 0;
        while i < self.0.len()
            invariant
                i <= self.0@.len(),
                forall|j: int| 0 <= j < i ==> self.0@[j].guid@ != guid@,
            decreases self.0@.len() - i,
        {
            if str_equal(self.0[i].guid.as_str(), guid.as_str()) {
                return Some(&self.0[i]);
            }
            i = i + 1;
        }
        None
    }

    /// The state of the save-wide script and UI.
    pub fn global(&self) -> (r: Option<&ScriptState>)
        ensures
            r is None <==> forall|i: int|
                0 <= i < self.0@.len() ==> self.0@[i].guid@ != global_guid(),
            r is Some ==> exists|i: int|
                0 <= i < self.0@.len() && self.0@[i] == *r->Some_0 && self.0@[i].guid@
                    == global_guid() && forall|j: int|
                    0 <= j < i ==> self.0@[j].guid@ != global_guid(),
    {
        proof {
            reveal_strlit("-1");
        }
        let g = String::from_str("-1");
        assert(g@ =~= global_guid());
        self.get(g)
    }
}

/// The states that a reload request carries for `save`: each object's
/// identifier, script and UI in save order, then the save-wide script and UI
/// under the global identifier.
pub open spec fn states_of(save: crate::save::SaveView, states: Seq<ScriptState>) -> bool {
    &&& states.len() == save.objects.len() + 1
    &&& forall|i: int|
        0 <= i < save.objects.len() ==> {
            &&& (#[trigger] states[i]).guid@ == save.objects[i].guid
            &&& states[i].name is None
            &&& states[i].script is Some && states[i].script->Some_0@ == save.objects[i].lua_script
            &&& states[i].ui is Some && states[i].ui->Some_0@ == save.objects[i].xml_ui
        }
    &&& states.last().guid@ == global_guid()
    &&& states.last().name is None
    &&& states.last().script is Some && states.last().script->Some_0@ == save.lua_script
    &&& states.last().ui is Some && states.last().ui->Some_0@ == save.xml_ui
}

impl Save {
    /// The states that a reload request carries for this save.
    pub fn script_states(&self) -> (r: ScriptStates)
        ensures
            states_of(self@, r.0@),
    {
        let mut out: Vec<ScriptState> = Vec::new();
        let mut i: usize = 0;
        while i < self.objects.0.len()
            invariant
                i <= self.objects.0@.len(),
                out@.len() == i,
                forall|k: int|
                    0 <= k < i ==> {
                        &&& (#[trigger] out@[k]).guid@ == self@.objects[k].guid
                        &&& out@[k].name is None
                        &&& out@[k].script is Some && out@[k].script->Some_0@
                            == self@.objects[k].lua_script
                        &&& out@[k].ui is Some && out@[k].ui->Some_0@ == self@.objects[k].xml_ui
                    },
            decreases self.objects.0@.len() - i,
        {
            let o = &self.objects.0[i];
            out.push(
                ScriptState {
                    guid: o.guid.clone(),
                    name: None,
                    script: Some(o.lua_script.clone()),
                    ui: Some(o.xml_ui.clone()),
                },
            );
            i = i + 1;
        }
        proof {
            reveal_strlit("-1");
        }
        let g = String::from_str("-1");
        assert(g@ =~= global_guid());
        out.push(
            ScriptState {
                guid: g,
                name: None,
                script: Some(self.lua_script.clone()),
                ui: Some(self.xml_ui.clone()),
            },
        );
        ScriptStates(out)
    }
}

} // verus!
