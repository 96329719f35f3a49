use vstd::prelude::*;

use crate::error::Error;
use crate::reconcile::{expand_tabs, expand_tabs_in, file_views, SourceFile};
use crate::save::{Save, SaveView};
use crate::tags::Namespace;
use crate::text::{contains_str, has_suffix, str_equal, str_has_suffix, string_views};

verus! {

/// The file names that can hold the save-wide body of a namespace.
pub open spec fn global_names(ns: Namespace) -> Seq<Seq<char>> {
    match ns {
        Namespace::Lua => seq!["Global.lua"@, "Global.ttslua"@],
        Namespace::Xml => seq!["Global.xml"@],
    }
}

/// The text that stands for an empty save-wide body of a namespace, since
/// the game treats an empty one specially.
pub open spec fn placeholder(ns: Namespace) -> Seq<char> {
    match ns {
        Namespace::Lua => "--[[ Lua code. See documentation: https://api.tabletopsimulator.com/ --]]"@,
        Namespace::Xml => "<!-- Xml UI. See documentation: https://api.tabletopsimulator.com/ui/introUI/ -->"@,
    }
}

/// A path the operator gave: the directory or file it names.
pub struct Root {
    pub path: String,
    pub is_dir: bool,
}

/// `name` inside the directory `dir`.
pub open spec fn join(dir: Seq<char>, name: Seq<char>) -> Seq<char> {
    if dir.len() > 0 && dir.last() == '/' {
        dir + name
    } else {
        dir + seq!['/'] + name
    }
}

/// Where a root could hold the global file `name`: inside it when it is a
/// directory, the root itself when it is a file of that name.
pub open spec fn candidate(path: Seq<char>, is_dir: bool, name: Seq<char>) -> Option<Seq<char>> {
    if is_dir {
        Some(join(path, name))
    } else if path == name || has_suffix(path, seq!['/'] + name) {
        Some(path)
    } else {
        None
    }
}

/// `c` is where one of `roots` could hold a global file of `ns`.
pub open spec fn is_candidate(roots: Seq<Root>, ns: Namespace, c: Seq<char>) -> bool {
    exists|k: int, j: int|
        0 <= k < roots.len() && 0 <= j < global_names(ns).len() && #[trigger] candidate(
            roots[k].path@,
            roots[k].is_dir,
            #[trigger] global_names(ns)[j],
        ) == Some(c)
}

fn name_list(ns: Namespace) -> (r: Vec<String>)
    ensures
        string_views(r@) == global_names(ns),
{
    let r = match ns {
        Namespace::Lua => vec![String::from_str("Global.lua"), String::from_str("Global.ttslua")],
        Namespace::Xml => vec![String::from_str("Global.xml")],
    };
    assert(string_views(r@) =~= global_names(ns));
    r
}

fn candidate_of(root: &Root, name: &String) -> (r: Option<String>)
    ensures
        opt_text(r) == candidate(root.path@, root.is_dir, name@),
{
    proof {
        reveal_strlit("/");
    }
    if root.is_dir {
        let n = root.path.unicode_len();
        let mut p = root.path.clone();
        if !(n > 0 && root.path.as_str().get_char(n - 1) == '/') {
            p.append("/");
        }
        p.append(name.as_str());
        assert(p@ =~= join(root.path@, name@));
        Some(p)
    } else {
        let mut sep = String::from_str("/");
        sep.append(name.as_str());
        assert(sep@ =~= seq!['/'] + name@);
        if str_equal(root.path.as_str(), name.as_str()) || str_has_suffix(
            root.path.as_str(),
            sep.as_str(),
        ) {
            Some(root.path.clone())
        } else {
            None
        }
    }
}

pub open spec fn opt_text(s: Option<String>) -> Option<Seq<char>> {
    match s {
        Some(t) => Some(t@),
        None => None,
    }
}

/// Every place where `roots` could hold a global file of `ns`, each once;
/// which of them exist is for the caller to find out.
pub fn global_candidates(roots: &Vec<Root>, ns: Namespace) -> (r: Vec<String>)
    ensures
        forall|i: int| 0 <= i < r@.len() ==> is_candidate(roots@, ns, #[trigger] r@[i]@),
        forall|c: Seq<char>| is_candidate(roots@, ns, c) ==> string_views(r@).contains(c),
        forall|a: int, b: int| 0 <= a < b < r@.len() ==> r@[a]@ != r@[b]@,
{
    let names = name_list(ns);
    let mut out: Vec<String> = Vec::new();
    let mut k: usize = 0;
    while k < roots.len()
        invariant
            k <= roots@.len(),
            string_views(names@) == global_names(ns),
            forall|i: int| 0 <= i < out@.len() ==> is_candidate(roots@, ns, #[trigger] out@[i]@),
            forall|a: int, b: int| 0 <= a < b < out@.len() ==> out@[a]@ != out@[b]@,
            forall|kk: int, j: int|
                0 <= kk < k && 0 <= j < global_names(ns).len() && #[trigger] candidate(
                    roots@[kk].path@,
                    roots@[kk].is_dir,
                    global_names(ns)[j],
                ) is Some ==> string_views(out@).contains(
                    candidate(roots@[kk].path@, roots@[kk].is_dir, global_names(ns)[j])->Some_0,
                ),
        decreases roots@.len() - k,
    {
        let mut j: usize = 0;
        while j < names.len()
            invariant
                k < roots@.len(),
                j <= names@.len(),
                string_views(names@) == global_names(ns),
                forall|i: int| 0 <= i < out@.len() ==> is_candidate(roots@, ns, #[trigger] out@[i]@),
                forall|a: int, b: int| 0 <= a < b < out@.len() ==> out@[a]@ != out@[b]@,
                forall|kk: int, jj: int|
                    (0 <= kk < k && 0 <= jj < global_names(ns).len() || kk == k && 0 <= jj < j)
                        && #[trigger] candidate(
                        roots@[kk].path@,
                        roots@[kk].is_dir,
                        global_names(ns)[jj],
                    ) is Some ==> string_views(out@).contains(
                        candidate(roots@[kk].path@, roots@[kk].is_dir, global_names(ns)[jj])->Some_0,
                    ),
            decreases names@.len() - j,
        {
            assert(names@[j as int]@ == global_names(ns)[j as int]);
            if let Some(c) = candidate_of(&roots[k], &names[j]) {
                assert(is_candidate(roots@, ns, c@));
                if !contains_str(&out, c.as_str()) {
                    let ghost before = out@;
                    out.push(c);
                    assert(string_views(out@) =~= string_views(before).push(c@));
                    assert(string_views(out@)[out@.len() - 1] == c@);
                    assert forall|q: Seq<char>| string_views(before).contains(q) implies string_views(
                        out@,
                    ).contains(q) by {
                        let i = choose|i: int| 0 <= i < string_views(before).len() && string_views(before)[i] == q;
                        assert(string_views(out@)[i] == q);
                    }
                    assert forall|a: int, b: int| 0 <= a < b < out@.len() implies out@[a]@ != out@[b]@ by {
                        if b == out@.len() - 1 {
                            assert(string_views(before)[a] == before[a]@);
                        }
                    }
                }
            }
            j = j + 1;
        }
        k = k + 1;
    }
    proof {
        assert forall|c: Seq<char>| is_candidate(roots@, ns, c) implies string_views(out@).contains(c) by {
            let (kk, jj) = choose|kk: int, jj: int|
                0 <= kk < roots@.len() && 0 <= jj < global_names(ns).len() && #[trigger] candidate(
                    roots@[kk].path@,
                    roots@[kk].is_dir,
                    #[trigger] global_names(ns)[jj],
                ) == Some(c);
        }
    }
    out
}

/// The save-wide body of `ns` given the global files `found` that exist and
/// the body the save holds: a single file's contents (tabs expanded, or the
/// placeholder when it is empty) win over the stored body, which stays when
/// there is no file; two or more files are ambiguous.
pub open spec fn global_body(
    stored: Seq<char>,
    found: Seq<(Seq<char>, Seq<char>)>,
    ns: Namespace,
) -> Option<Seq<char>> {
    if found.len() == 0 {
        Some(stored)
    } else if found.len() == 1 {
        if found[0].1.len() == 0 {
            Some(placeholder(ns))
        } else {
            Some(expand_tabs(found[0].1))
        }
    } else {
        None
    }
}

/// The save-wide body of `ns` (see `global_body`); the error names the files
/// when there are several.
pub fn resolve_global(stored: &str, found: &Vec<SourceFile>, ns: Namespace) -> (r: Result<
    String,
    Error,
>)
    ensures
        r is Ok <==> global_body(stored@, file_views(found@), ns) is Some,
        r is Ok ==> Some(r->Ok_0@) == global_body(stored@, file_views(found@), ns),
        r is Err ==> r->Err_0 is AmbiguousGlobal && r->Err_0->AmbiguousGlobal_paths@.len()
            == found@.len() && forall|i: int|
            0 <= i < found@.len() ==> r->Err_0->AmbiguousGlobal_paths@[i]@ == #[trigger] found@[i].path@,
{
    if found.len() == 0 {
        Ok(String::from_str(stored))
    } else if found.len() == 1 {
        let contents = &found[0].contents;
        if contents.unicode_len() == 0 {
            let p = match ns {
                Namespace::Lua => String::from_str(
                    "--[[ Lua code. See documentation: https://api.tabletopsimulator.com/ --]]",
                ),
                Namespace::Xml => String::from_str(
                    "<!-- Xml UI. See documentation: https://api.tabletopsimulator.com/ui/introUI/ -->",
                ),
            };
            Ok(p)
        } else {
            Ok(expand_tabs_in(contents.as_str()))
        }
    } else {
        let mut paths: Vec<String> = Vec::new();
        let mut i: usize = 0;
        while i < found.len()
            invariant
                i <= found@.len(),
                paths@.len() == i,
                forall|j: int| 0 <= j < i ==> paths@[j]@ == #[trigger] found@[j].path@,
            decreases found@.len() - i,
        {
            paths.push(found[i].path.clone());
            i = i + 1;
        }
        Err(Error::AmbiguousGlobal { paths })
    }
}

/// Sets the save-wide script and UI from the global files found (see
/// `global_body`). Returns whether either changed; on an error the save is
/// as it was.
pub fn update_globals(save: &mut Save, lua_found: &Vec<SourceFile>, xml_found: &Vec<SourceFile>) -> (r:
    Result<bool, Error>)
    ensures
        r is Ok <==> global_body(old(save)@.lua_script, file_views(lua_found@), Namespace::Lua) is Some
            && global_body(old(save)@.xml_ui, file_views(xml_found@), Namespace::Xml) is Some,
        r is Ok ==> final(save)@ == (SaveView {
            lua_script: global_body(
                old(save)@.lua_script,
                file_views(lua_found@),
                Namespace::Lua,
            )->Some_0,
            xml_ui: global_body(old(save)@.xml_ui, file_views(xml_found@), Namespace::Xml)->Some_0,
            ..old(save)@
        }),
        r is Ok ==> (r->Ok_0 <==> final(save)@ != old(save)@),
        r is Err ==> final(save)@ == old(save)@ && r->Err_0 is AmbiguousGlobal,
{
    let lua = resolve_global(save.lua_script.as_str(), lua_found, Namespace::Lua)?;
    let xml = resolve_global(save.xml_ui.as_str(), xml_found, Namespace::Xml)?;
    let changed = lua != save.lua_script || xml != save.xml_ui;
    save.lua_script = lua;
    save.xml_ui = xml;
    proof {
        if !changed {
            assert(save@ =~= old(save)@);
        }
    }
    Ok(changed)
}

} // verus!
