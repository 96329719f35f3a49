use vstd::prelude::*;

use crate::error::Error;
use crate::text::{
    has_prefix, has_suffix, lemma_filter_step, single_line, str_has_prefix, str_has_suffix,
    str_single_line, str_tail,
};

verus! {

/// The two kinds of file a tag can bind to an object.
#[derive(PartialEq, Eq, Structural, Clone, Copy, Debug)]
pub enum Namespace {
    /// Lua scripts: `lua/<path>.lua` or `lua/<path>.ttslua`.
    Lua,
    /// XML UI markup: `xml/<path>.xml`.
    Xml,
}

pub open spec fn lua_prefix() -> Seq<char> {
    seq!['l', 'u', 'a', '/']
}

pub open spec fn xml_prefix() -> Seq<char> {
    seq!['x', 'm', 'l', '/']
}

pub open spec fn lua_suffix() -> Seq<char> {
    seq!['.', 'l', 'u', 'a']
}

pub open spec fn ttslua_suffix() -> Seq<char> {
    seq!['.', 't', 't', 's', 'l', 'u', 'a']
}

pub open spec fn xml_suffix() -> Seq<char> {
    seq!['.', 'x', 'm', 'l']
}

pub open spec fn current_dir() -> Seq<char> {
    seq!['.', '/']
}

/// `lua/`, at least one character, then `.lua` or `.ttslua`, all on one line.
pub open spec fn is_lua_tag(s: Seq<char>) -> bool {
    &&& has_prefix(s, lua_prefix())
    &&& single_line(s)
    &&& ((s.len() > 8 && has_suffix(s, lua_suffix())) || (s.len() > 11 && has_suffix(
        s,
        ttslua_suffix(),
    )))
}

/// `xml/`, at least one character, then `.xml`, all on one line.
pub open spec fn is_xml_tag(s: Seq<char>) -> bool {
    &&& has_prefix(s, xml_prefix())
    &&& single_line(s)
    &&& s.len() > 8
    &&& has_suffix(s, xml_suffix())
}

pub open spec fn in_namespace(ns: Namespace, s: Seq<char>) -> bool {
    match ns {
        Namespace::Lua => is_lua_tag(s),
        Namespace::Xml => is_xml_tag(s),
    }
}

/// A tag is valid when it follows the convention of one of the namespaces.
pub open spec fn is_valid_tag(s: Seq<char>) -> bool {
    is_lua_tag(s) || is_xml_tag(s)
}

/// No tag follows both conventions.
pub proof fn lemma_namespaces_disjoint(s: Seq<char>)
    ensures
        !(is_lua_tag(s) && is_xml_tag(s)),
{
    if is_lua_tag(s) && is_xml_tag(s) {
        assert(s.subrange(0, 4)[0] == 'l');
        assert(s.subrange(0, 4)[0] == 'x');
    }
}

/// The path, relative to the working directory, of the file a valid tag names:
/// `lua/foo/bar.lua` names `./foo/bar.lua`.
pub open spec fn tag_path(s: Seq<char>) -> Seq<char> {
    current_dir() + s.subrange(4, s.len() as int)
}

/// A path without a leading `./` (a lone `.` is the empty path).
pub open spec fn strip_current_dir(p: Seq<char>) -> Seq<char> {
    if has_prefix(p, current_dir()) {
        p.subrange(2, p.len() as int)
    } else if p == seq!['.'] {
        Seq::empty()
    } else {
        p
    }
}

/// A path without a leading `./` and without a trailing `/`.
pub open spec fn normalize(p: Seq<char>) -> Seq<char> {
    let q = strip_current_dir(p);
    if q.len() > 0 && q.last() == '/' {
        q.drop_last()
    } else {
        q
    }
}

/// `p` is `base` itself or lies inside the directory `base`, compared by
/// whole path components.
pub open spec fn path_under(p: Seq<char>, base: Seq<char>) -> bool {
    let b = normalize(base);
    let q = normalize(p);
    b.len() == 0 || q == b || has_prefix(q, b.push('/'))
}

/// The part of a path after an optional leading `./`.
pub open spec fn relative_part(p: Seq<char>) -> Seq<char> {
    if has_prefix(p, current_dir()) {
        p.subrange(2, p.len() as int)
    } else {
        p
    }
}

/// The tag that names the file at path `p`, if `p` is relative and names a
/// script or UI file.
pub open spec fn tag_of_path(p: Seq<char>) -> Option<Seq<char>> {
    if has_prefix(p, seq!['/']) {
        None
    } else if is_lua_tag(lua_prefix() + relative_part(p)) {
        Some(lua_prefix() + relative_part(p))
    } else if is_xml_tag(xml_prefix() + relative_part(p)) {
        Some(xml_prefix() + relative_part(p))
    } else {
        None
    }
}

/// Drops a leading `./` (or a lone `.`) and a trailing `/` from a path.
pub fn normalize_path(p: &str) -> (r: String)
    ensures
        r@ == normalize(p@),
{
    proof {
        reveal_strlit("./");
    }
    assert(current_dir() =~= "./"@);
    let n = p.unicode_len();
    let q: String = if str_has_prefix(p, "./") {
        str_tail(p, 2)
    } else if n == 1 && p.get_char(0) == '.' {
        assert(p@ =~= seq!['.']);
        String::new()
    } else {
        if n == 1 {
            assert(p@ != seq!['.']) by {
                if p@ == seq!['.'] {
                    assert(p@[0] == '.');
                }
            }
        }
        String::from_str(p)
    };
    let m = q.unicode_len();
    if m > 0 && q.as_str().get_char(m - 1) == '/' {
        let r = String::from_str(q.as_str().substring_char(0, m - 1));
        assert(r@ =~= q@.drop_last());
        r
    } else {
        q
    }
}

/// Whether `p` is `base` or lies inside it (see `path_under`).
pub fn is_under(p: &str, base: &str) -> (r: bool)
    ensures
        r == path_under(p@, base@),
{
    let b = normalize_path(base);
    let q = normalize_path(p);
    if b.unicode_len() == 0 || q == b {
        return true;
    }
    let mut bs = b.clone();
    proof {
        reveal_strlit("/");
    }
    bs.append("/");
    assert(bs@ =~= b@.push('/'));
    str_has_prefix(q.as_str(), bs.as_str())
}

/// Some path of `paths` holds `p` (see `path_under`).
pub open spec fn under_any(p: Seq<char>, paths: Seq<Seq<char>>) -> bool {
    exists|k: int| 0 <= k < paths.len() && path_under(p, #[trigger] paths[k])
}

/// A path inside a path inside `q` is inside `q`.
pub proof fn lemma_under_transitive(x: Seq<char>, p: Seq<char>, q: Seq<char>)
    requires
        path_under(x, p),
        path_under(p, q),
    ensures
        path_under(x, q),
{
    let bx = normalize(x);
    let bp = normalize(p);
    let bq = normalize(q);
    if bq.len() > 0 && bp != bq && bx != bp {
        let n = bq.len() + 1;
        assert(bx.subrange(0, n as int) =~= bx.subrange(0, (bp.len() + 1) as int).subrange(0, n as int));
        assert(bp.push('/').subrange(0, n as int) =~= bp.subrange(0, n as int));
    }
}

/// A path that lies inside a different path is longer, once normalized.
proof fn lemma_covered_shorter(p: Seq<char>, q: Seq<char>)
    requires
        normalize(q) != normalize(p),
        path_under(p, q),
    ensures
        normalize(q).len() < normalize(p).len(),
{
    if normalize(q).len() == 0 && normalize(p).len() == 0 {
        assert(normalize(q) =~= normalize(p));
    }
}

/// Every path of `paths` lies inside one that no other path contains.
proof fn lemma_uncovered_ancestor(i: int, paths: Seq<Seq<char>>)
    requires
        0 <= i < paths.len(),
    ensures
        exists|m: int| 0 <= m < paths.len() && !covered(paths[m], paths) && path_under(paths[i], #[trigger] paths[m]),
    decreases normalize(paths[i]).len(),
{
    if !covered(paths[i], paths) {
        assert(path_under(paths[i], paths[i]));
    } else {
        let k = choose|k: int|
            0 <= k < paths.len() && normalize(#[trigger] paths[k]) != normalize(paths[i]) && path_under(
                paths[i],
                paths[k],
            );
        lemma_covered_shorter(paths[i], paths[k]);
        lemma_uncovered_ancestor(k, paths);
        let m = choose|m: int|
            0 <= m < paths.len() && !covered(paths[m], paths) && path_under(paths[k], #[trigger] paths[m]);
        lemma_under_transitive(paths[i], paths[k], paths[m]);
    }
}

/// `p` lies inside another path of `paths`: one that differs from `p`
/// after normalizing.
pub open spec fn covered(p: Seq<char>, paths: Seq<Seq<char>>) -> bool {
    exists|k: int|
        0 <= k < paths.len() && normalize(#[trigger] paths[k]) != normalize(p) && path_under(
            p,
            paths[k],
        )
}

/// Whether `p` lies inside another path of `paths`.
fn is_covered(p: &String, paths: &Vec<String>) -> (r: bool)
    ensures
        r == covered(p@, crate::text::string_views(paths@)),
{
    let ghost pv = crate::text::string_views(paths@);
    let np = normalize_path(p.as_str());
    let mut k: usize = 0;
    while k < paths.len()
        invariant
            k <= paths@.len(),
            pv == crate::text::string_views(paths@),
            np@ == normalize(p@),
            forall|j: int|
                0 <= j < k ==> !(normalize(#[trigger] pv[j]) != normalize(p@) && path_under(p@, pv[j])),
        decreases paths@.len() - k,
    {
        let nq = normalize_path(paths[k].as_str());
        if nq != np && is_under(p.as_str(), paths[k].as_str()) {
            assert(normalize(pv[k as int]) != normalize(p@) && path_under(p@, pv[k as int]));
            return true;
        }
        k = k + 1;
    }
    false
}

/// The paths of `paths` that no other of them contains, each once (paths
/// that normalize alike count as one): the smallest set of roots that covers
/// the same files.
pub fn reduce_paths(paths: &Vec<String>) -> (r: Vec<String>)
    ensures
        forall|k: int|
            0 <= k < r@.len() ==> crate::text::string_views(paths@).contains(#[trigger] r@[k]@)
                && !covered(r@[k]@, crate::text::string_views(paths@)),
        forall|i: int|
            0 <= i < paths@.len() && !covered(#[trigger] paths@[i]@, crate::text::string_views(paths@))
                ==> exists|k: int| 0 <= k < r@.len() && normalize(r@[k]@) == normalize(paths@[i]@),
        forall|a: int, b: int| 0 <= a < b < r@.len() ==> normalize(r@[a]@) != normalize(r@[b]@),
        forall|x: Seq<char>|
            under_any(x, crate::text::string_views(r@)) == under_any(x, crate::text::string_views(paths@)),
{
    let ghost pv = crate::text::string_views(paths@);
    let mut out: Vec<String> = Vec::new();
    let mut i: usize = 0;
    while i < paths.len()
        invariant
            i <= paths@.len(),
            pv == crate::text::string_views(paths@),
            forall|k: int| 0 <= k < out@.len() ==> pv.contains(#[trigger] out@[k]@) && !covered(out@[k]@, pv),
            forall|j: int|
                0 <= j < i && !covered(#[trigger] paths@[j]@, pv) ==> exists|k: int|
                    0 <= k < out@.len() && normalize(out@[k]@) == normalize(paths@[j]@),
            forall|a: int, b: int| 0 <= a < b < out@.len() ==> normalize(out@[a]@) != normalize(out@[b]@),
        decreases paths@.len() - i,
    {
        let p = &paths[i];
        assert(pv[i as int] == p@);
        if !is_covered(p, paths) {
            let np = normalize_path(p.as_str());
            let mut seen = false;
            let mut k: usize = 0;
            while k < out.len()
                invariant
                    k <= out@.len(),
                    np@ == normalize(p@),
                    seen == exists|j: int| 0 <= j < k && normalize(out@[j]@) == np@,
                decreases out@.len() - k,
            {
                if normalize_path(out[k].as_str()) == np {
                    seen = true;
                }
                k = k + 1;
            }
            if !seen {
                let ghost before = out@;
                out.push(p.clone());
                assert(out@[out@.len() - 1]@ == p@);
                assert forall|j: int|
                    0 <= j < i + 1 && !covered(#[trigger] paths@[j]@, pv) implies exists|k: int|
                    0 <= k < out@.len() && normalize(out@[k]@) == normalize(paths@[j]@) by {
                    if j < i {
                        let k = choose|k: int|
                            0 <= k < before.len() && normalize(before[k]@) == normalize(paths@[j]@);
                        assert(out@[k] == before[k]);
                    } else {
                        assert(normalize(out@[out@.len() - 1]@) == normalize(paths@[j]@));
                    }
                }
            }
        }
        i = i + 1;
    }
    proof {
        let rv = crate::text::string_views(out@);
        assert forall|x: Seq<char>| under_any(x, rv) == under_any(x, pv) by {
            if under_any(x, rv) {
                let k = choose|k: int| 0 <= k < rv.len() && path_under(x, #[trigger] rv[k]);
                assert(pv.contains(out@[k]@));
                let j = choose|j: int| 0 <= j < pv.len() && pv[j] == out@[k]@;
                assert(path_under(x, pv[j]));
            }
            if under_any(x, pv) {
                let j = choose|j: int| 0 <= j < pv.len() && path_under(x, #[trigger] pv[j]);
                lemma_uncovered_ancestor(j, pv);
                let m = choose|m: int| 0 <= m < pv.len() && !covered(pv[m], pv) && path_under(pv[j], #[trigger] pv[m]);
                lemma_under_transitive(x, pv[j], pv[m]);
                assert(pv[m] == paths@[m]@);
                let k = choose|k: int| 0 <= k < out@.len() && normalize(out@[k]@) == normalize(paths@[m]@);
                assert(path_under(x, rv[k]));
            }
        }
    }
    out
}

/// A tag associated with an object.
#[derive(Debug)]
pub struct Tag(pub String);

impl View for Tag {
    type V = Seq<char>;

    open spec fn view(&self) -> Seq<char> {
        self.0@
    }
}

impl Clone for Tag {
    fn clone(&self) -> (r: Self)
        ensures
            r == *self,
    {
        Tag(self.0.clone())
    }
}

impl PartialEq for Tag {
    fn eq(&self, other: &Tag) -> (r: bool) {
        self.0 == other.0
    }
}

impl vstd::std_specs::cmp::PartialEqSpecImpl for Tag {
    open spec fn obeys_eq_spec() -> bool {
        true
    }

    open spec fn eq_spec(&self, other: &Tag) -> bool {
        self@ == other@
    }
}

impl Tag {
    /// A tag with the given text, whether or not it follows a convention.
    pub fn new(s: String) -> (r: Tag)
        ensures
            r@ == s@,
    {
        Tag(s)
    }

    /// Consumes the tag, returning its text.
    pub fn into_inner(self) -> (r: String)
        ensures
            r@ == self@,
    {
        self.0
    }

    /// The tag's text.
    pub fn as_str(&self) -> (r: &str)
        ensures
            r@ == self@,
    {
        self.0.as_str()
    }

    /// Whether the tag follows the `lua/<path>.lua` convention.
    pub fn is_lua(&self) -> (r: bool)
        ensures
            r == is_lua_tag(self@),
    {
        proof {
            reveal_strlit("lua/");
            reveal_strlit(".lua");
            reveal_strlit(".ttslua");
        }
        assert(lua_prefix() =~= "lua/"@);
        assert(lua_suffix() =~= ".lua"@);
        assert(ttslua_suffix() =~= ".ttslua"@);
        let s = self.0.as_str();
        let n = s.unicode_len();
        str_has_prefix(s, "lua/") && str_single_line(s) && ((n > 8 && str_has_suffix(s, ".lua")) || (
        n > 11 && str_has_suffix(s, ".ttslua")))
    }

    /// Whether the tag follows the `xml/<path>.xml` convention.
    pub fn is_xml(&self) -> (r: bool)
        ensures
            r == is_xml_tag(self@),
    {
        proof {
            reveal_strlit("xml/");
            reveal_strlit(".xml");
        }
        assert(xml_prefix() =~= "xml/"@);
        assert(xml_suffix() =~= ".xml"@);
        let s = self.0.as_str();
        let n = s.unicode_len();
        str_has_prefix(s, "xml/") && str_single_line(s) && n > 8 && str_has_suffix(s, ".xml")
    }

    /// Whether the tag follows the convention of `ns`.
    pub fn is_in(&self, ns: Namespace) -> (r: bool)
        ensures
            r == in_namespace(ns, self@),
    {
        match ns {
            Namespace::Lua => self.is_lua(),
            Namespace::Xml => self.is_xml(),
        }
    }

    /// Whether the tag follows either convention.
    pub fn is_valid(&self) -> (r: bool)
        ensures
            r == is_valid_tag(self@),
    {
        self.is_lua() || self.is_xml()
    }

    /// The namespace whose convention the tag follows, if any.
    pub fn namespace(&self) -> (r: Option<Namespace>)
        ensures
            r == Some(Namespace::Lua) <==> is_lua_tag(self@),
            r == Some(Namespace::Xml) <==> is_xml_tag(self@),
            r is None <==> !is_valid_tag(self@),
    {
        proof {
            lemma_namespaces_disjoint(self@);
        }
        if self.is_lua() {
            Some(Namespace::Lua)
        } else if self.is_xml() {
            Some(Namespace::Xml)
        } else {
            None
        }
    }

    /// The path of the file a valid tag names: `lua/foo/bar.lua` gives
    /// `./foo/bar.lua`.
    pub fn path(&self) -> (r: Result<String, Error>)
        ensures
            is_valid_tag(self@) ==> r is Ok && r->Ok_0@ == tag_path(self@),
            !is_valid_tag(self@) ==> r is Err && r->Err_0 is InvalidTag && r->Err_0->InvalidTag_tag@
                == self@,
    {
        if self.is_valid() {
            let mut p = String::from_str("./");
            let rest = str_tail(self.0.as_str(), 4);
            p.append(rest.as_str());
            proof {
                reveal_strlit("./");
            }
            assert(p@ =~= tag_path(self@));
            Ok(p)
        } else {
            Err(Error::InvalidTag { tag: self.0.clone() })
        }
    }

    /// Whether the tag is valid and names a file at or inside `base`.
    pub fn starts_with(&self, base: &str) -> (r: bool)
        ensures
            r == (is_valid_tag(self@) && path_under(tag_path(self@), base@)),
    {
        match self.path() {
            Ok(p) => is_under(p.as_str(), base),
            Err(_) => false,
        }
    }

    /// The tag for the file at `path`, relative to the working directory:
    /// `./scripts/foo.lua` gives `lua/scripts/foo.lua`, `ui/bar.xml` gives
    /// `xml/ui/bar.xml`.
    pub fn try_from_path(path: &str) -> (r: Result<Tag, Error>)
        ensures
            tag_of_path(path@) is Some ==> r is Ok && r->Ok_0@ == tag_of_path(path@)->Some_0,
            has_prefix(path@, seq!['/']) ==> r is Err && r->Err_0 is NotRelative
                && r->Err_0->NotRelative_path@ == path@,
            tag_of_path(path@) is None && !has_prefix(path@, seq!['/']) ==> r is Err
                && r->Err_0 is UnsupportedFile && r->Err_0->UnsupportedFile_path@ == path@,
    {
        proof {
            reveal_strlit("/");
            reveal_strlit("./");
            reveal_strlit("lua/");
            reveal_strlit("xml/");
        }
        assert(seq!['/'] =~= "/"@);
        assert(current_dir() =~= "./"@);
        assert(lua_prefix() =~= "lua/"@);
        assert(xml_prefix() =~= "xml/"@);
        if str_has_prefix(path, "/") {
            return Err(Error::NotRelative { path: String::from_str(path) });
        }
        let rel: String = if str_has_prefix(path, "./") {
            str_tail(path, 2)
        } else {
            String::from_str(path)
        };
        let lua = Tag(String::from_str("lua/").concat(rel.as_str()));
        if lua.is_lua() {
            return Ok(lua);
        }
        let xml = Tag(String::from_str("xml/").concat(rel.as_str()));
        if xml.is_xml() {
            return Ok(xml);
        }
        Err(Error::UnsupportedFile { path: String::from_str(path) })
    }
}

/// Which tags a filter keeps.
#[derive(PartialEq, Eq, Structural, Clone, Copy, Debug)]
pub enum TagFilter {
    /// Tags of the namespace.
    In(Namespace),
    /// Tags that are not of the namespace: the other namespace and foreign tags.
    NotIn(Namespace),
    /// Tags of either namespace.
    Valid,
    /// Tags of neither namespace.
    Foreign,
}

pub open spec fn keeps(f: TagFilter, t: Seq<char>) -> bool {
    match f {
        TagFilter::In(ns) => in_namespace(ns, t),
        TagFilter::NotIn(ns) => !in_namespace(ns, t),
        TagFilter::Valid => is_valid_tag(t),
        TagFilter::Foreign => !is_valid_tag(t),
    }
}

/// The tags of `tags` that `f` keeps, in their order.
pub open spec fn filtered(tags: Seq<Seq<char>>, f: TagFilter) -> Seq<Seq<char>> {
    tags.filter(|t: Seq<char>| keeps(f, t))
}

/// The namespace of a valid tag.
pub open spec fn namespace_of(t: Seq<char>) -> Namespace {
    if is_lua_tag(t) {
        Namespace::Lua
    } else {
        Namespace::Xml
    }
}

/// The texts of a sequence of tags.
pub open spec fn tag_views(v: Seq<Tag>) -> Seq<Seq<char>> {
    v.map_values(|t: Tag| t@)
}

/// The tags of an object, in the order they are shown.
#[derive(Debug)]
pub struct Tags(pub Vec<Tag>);

impl View for Tags {
    type V = Seq<Seq<char>>;

    open spec fn view(&self) -> Seq<Seq<char>> {
        tag_views(self.0@)
    }
}

impl Clone for Tags {
    fn clone(&self) -> (r: Self)
        ensures
            r@ == self@,
    {
        let mut out: Vec<Tag> = Vec::new();
        let mut i: usize = 0;
        while i < self.0.len()
            invariant
                i <= self.0@.len(),
                tag_views(out@) == self@.take(i as int),
            decreases self.0@.len() - i,
        {
            let t = self.0[i].clone();
            let ghost before = out@;
            out.push(t);
            assert(tag_views(out@) =~= tag_views(before).push(t@));
            assert(tag_views(out@) =~= self@.take(i + 1));
            i = i + 1;
        }
        assert(self@.take(i as int) =~= self@);
        Tags(out)
    }
}

impl Tags {
    /// No tags.
    pub fn new() -> (r: Tags)
        ensures
            r@ == Seq::<Seq<char>>::empty(),
    {
        let r = Tags(Vec::new());
        assert(r@ =~= Seq::<Seq<char>>::empty());
        r
    }

    /// Consumes `Tags`, returning the wrapped value.
    pub fn into_inner(self) -> (r: Vec<Tag>)
        ensures
            tag_views(r@) == self@,
    {
        self.0
    }

    /// The number of tags.
    pub fn len(&self) -> (r: usize)
        ensures
            r == self@.len(),
    {
        self.0.len()
    }

    /// Appends `tag`.
    pub fn push(&mut self, tag: Tag)
        ensures
            final(self)@ == old(self)@.push(tag@),
    {
        self.0.push(tag);
        assert(final(self)@ =~= old(self)@.push(tag@));
    }

    /// The tags that `f` keeps, in their order.
    pub fn filter(&self, f: TagFilter) -> (r: Tags)
        ensures
            r@ == filtered(self@, f),
    {
        let ghost pred = |t: Seq<char>| keeps(f, t);
        let mut out: Vec<Tag> = Vec::new();
        let mut i: usize = 0;
        while i < self.0.len()
            invariant
                i <= self.0@.len(),
                pred == (|t: Seq<char>| keeps(f, t)),
                tag_views(out@) == self@.take(i as int).filter(pred),
            decreases self.0@.len() - i,
        {
            let t = &self.0[i];
            let keep = match f {
                TagFilter::In(ns) => t.is_in(ns),
                TagFilter::NotIn(ns) => !t.is_in(ns),
                TagFilter::Valid => t.is_valid(),
                TagFilter::Foreign => !t.is_valid(),
            };
            proof {
                lemma_filter_step(self@, pred, i as int);
            }
            if keep {
                out.push(t.clone());
            }
            assert(tag_views(out@) =~= self@.take(i + 1).filter(pred));
            i = i + 1;
        }
        assert(self@.take(i as int) =~= self@);
        Tags(out)
    }

    /// The tags of `ns`.
    pub fn filter_namespace(&self, ns: Namespace) -> (r: Tags)
        ensures
            r@ == filtered(self@, TagFilter::In(ns)),
    {
        self.filter(TagFilter::In(ns))
    }

    /// Tags that follow the convention of a namespace.
    pub fn filter_valid(&self) -> (r: Tags)
        ensures
            r@ == filtered(self@, TagFilter::Valid),
    {
        self.filter(TagFilter::Valid)
    }

    /// Tags that follow neither convention.
    pub fn filter_invalid(&self) -> (r: Tags)
        ensures
            r@ == filtered(self@, TagFilter::Foreign),
    {
        self.filter(TagFilter::Foreign)
    }

    /// Removes every tag of the namespace of `tag`, then appends `tag`; tags
    /// of the other namespace and foreign tags stay as they were.
    pub fn replace_namespace(&mut self, tag: Tag)
        requires
            is_valid_tag(tag@),
        ensures
            final(self)@ == filtered(old(self)@, TagFilter::NotIn(namespace_of(tag@))).push(tag@),
    {
        let ns = match tag.namespace() {
            Some(ns) => ns,
            None => Namespace::Lua,
        };
        let mut kept = self.filter(TagFilter::NotIn(ns));
        kept.push(tag);
        *self = kept;
    }

    /// Removes every tag that follows a convention; foreign tags stay.
    pub fn remove_valid(&mut self)
        ensures
            final(self)@ == filtered(old(self)@, TagFilter::Foreign),
    {
        *self = self.filter(TagFilter::Foreign);
    }
}

} // verus!
