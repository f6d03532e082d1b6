//! The folders the application works in: the root of the file tree, the
//! search through it, the summary of the model's working folder that goes
//! into the system prompt, and the rule that keeps the model's file access
//! inside that folder.

use vstd::prelude::*;
use crate::listing::{TreeEntry, TreeEntryView};
use crate::scan::contains_seq;
use crate::text::{chars_of, is_blank, push_str, spec_to_lowercase, to_lowercase, trim, trim_spec};
use crate::tools::{flow_file_prefix, starts_with, starts_with_exec};

verus! {

/// An ASCII letter.
pub open spec fn is_ascii_letter(c: char) -> bool {
    ('a' <= c <= 'z') || ('A' <= c <= 'Z')
}

/// The root folder the user typed, as it is used: `None` when the field is
/// blank (the default folder is used), a bare drive such as "h:" made into
/// its root "h:\\", and otherwise the trimmed text.
pub open spec fn workspace_root_spec(typed: Seq<char>) -> Option<Seq<char>> {
    let t = trim_spec(typed);
    if t.len() == 0 {
        None
    } else if t.len() == 2 && t[1] == ':' && is_ascii_letter(t[0]) {
        Some(t.push('\\'))
    } else {
        Some(t)
    }
}

/// The folder that the tree shows for the typed root (see `workspace_root_spec`).
pub fn workspace_root_text(typed: &str) -> (r: Option<String>)
    ensures
        opt_chars(r) == workspace_root_spec(typed@),
{
    let t = trim(typed);
    let cs = chars_of(t.as_str());
    if cs.len() == 0 {
        return None;
    }
    if cs.len() == 2 && cs[1] == ':' && (('a' <= cs[0] && cs[0] <= 'z') || ('A' <= cs[0] && cs[0]
        <= 'Z')) {
        let mut out = t;
        push_str(&mut out, "\\");
        proof {
            reveal_strlit("\\");
        }
        assert(out@ =~= trim_spec(typed@).push('\\'));
        return Some(out);
    }
    Some(t)
}

/// View of an optional string.
pub open spec fn opt_chars(o: Option<String>) -> Option<Seq<char>> {
    match o {
        Some(s) => Some(s@),
        None => None,
    }
}

/// A name matches a search when its lowercase form contains the lowercase query.
pub open spec fn name_matches(name: Seq<char>, needle: Seq<char>) -> bool {
    contains_seq(spec_to_lowercase(name), needle)
}

/// A breadth-first search by name through a folder tree: the caller lists
/// the folders it is handed, and the search keeps the matches (up to a
/// limit) and the sub-folders still to visit (down to a depth).
pub struct TreeSearch {
    needle: Vec<char>,
    max_depth: u32,
    max_results: usize,
    found: Vec<TreeEntry>,
    queue: Vec<(String, u32)>,
    next: usize,
}

impl TreeSearch {
    /// Lowercase query.
    pub closed spec fn needle(&self) -> Seq<char> {
        self.needle@
    }

    pub closed spec fn max_depth(&self) -> u32 {
        self.max_depth
    }

    pub closed spec fn max_results(&self) -> usize {
        self.max_results
    }

    /// Matches found so far, in the order met.
    pub closed spec fn found(&self) -> Seq<TreeEntryView> {
        self.found@.map_values(|e: TreeEntry| e@)
    }

    /// Folders still to list, with their depth, first to list first.
    pub closed spec fn pending(&self) -> Seq<(Seq<char>, u32)> {
        self.queue@.subrange(self.next as int, self.queue@.len() as int).map_values(
            |q: (String, u32)| (q.0@, q.1),
        )
    }

    /// What every search keeps true: never more matches than the limit, and
    /// every match matches.
    pub closed spec fn wf(&self) -> bool {
        &&& self.next <= self.queue@.len()
        &&& self.found@.len() <= self.max_results
        &&& forall|i: int|
            0 <= i < self.found@.len() ==> name_matches(
                (#[trigger] self.found@[i]).name@,
                self.needle@,
            )
    }

    /// A search for `query` from folder `root`: the root is the one folder
    /// waiting, at depth 0.
    pub fn new(root: &str, query: &str, max_depth: u32, max_results: usize) -> (s: Self)
        ensures
            s.wf(),
            s.needle() == spec_to_lowercase(query@),
            s.max_depth() == max_depth,
            s.max_results() == max_results,
            s.found().len() == 0,
            s.pending() == seq![(root@, 0u32)],
    {
        let q = to_lowercase(query);
        let needle = chars_of(q.as_str());
        let mut queue: Vec<(String, u32)> = Vec::new();
        queue.push((root.to_owned(), 0));
        let s = TreeSearch { needle, max_depth, max_results, found: Vec::new(), queue, next: 0 };
        assert(s.pending() =~= seq![(root@, 0u32)]);
        s
    }

    /// The search is over: the limit of matches is reached.
    pub fn is_full(&self) -> (b: bool)
        ensures
            b == (self.found().len() >= self.max_results()),
    {
        self.found.len() >= self.max_results
    }

    /// The next folder to list and its depth; none when no folder is
    /// waiting or the limit of matches is reached.
    pub fn next_dir(&mut self) -> (r: Option<(String, u32)>)
        requires
            old(self).wf(),
        ensures
            final(self).wf(),
            final(self).found() == old(self).found(),
            final(self).needle() == old(self).needle(),
            final(self).max_depth() == old(self).max_depth(),
            final(self).max_results() == old(self).max_results(),
            match r {
                Some(d) => old(self).pending().len() > 0 && (d.0@, d.1) == old(self).pending()[0]
                    && final(self).pending() == old(self).pending().drop_first()
                    && old(self).found().len() < old(self).max_results(),
                None => old(self).pending().len() == 0 || old(self).found().len() >= old(
                    self,
                ).max_results(),
            },
    {
        if self.next >= self.queue.len() {
            return None;
        }
        let i = self.next;
        self.next = self.next + 1;
        let ghost p0 = old(self).pending();
        assert(self.pending() =~= p0.drop_first());
        if self.found.len() >= self.max_results {
            return None;
        }
        let d = &self.queue[i];
        let r = (d.0.clone(), d.1);
        assert(p0[0] == (self.queue@[i as int].0@, self.queue@[i as int].1));
        Some(r)
    }

    /// Takes in one entry of a folder at depth `depth`: it is kept when its
    /// name matches and the limit is not reached, and a sub-folder waits for
    /// its turn when it lies above the depth limit. Nothing changes once the
    /// limit of matches is reached.
    pub fn visit(&mut self, depth: u32, entry: TreeEntry)
        requires
            old(self).wf(),
        ensures
            final(self).wf(),
            final(self).needle() == old(self).needle(),
            final(self).max_depth() == old(self).max_depth(),
            final(self).max_results() == old(self).max_results(),
            old(self).found().len() >= old(self).max_results() ==> final(self).found() == old(
                self,
            ).found() && final(self).pending() == old(self).pending(),
            old(self).found().len() < old(self).max_results() ==> {
                &&& final(self).found() == if name_matches(entry.name@, old(self).needle()) {
                    old(self).found().push(entry@)
                } else {
                    old(self).found()
                }
                &&& final(self).pending() == if entry.is_dir && depth + 1 < old(self).max_depth() {
                    old(self).pending().push((entry.path@, (depth + 1) as u32))
                } else {
                    old(self).pending()
                }
            },
    {
        if self.found.len() >= self.max_results {
            return;
        }
        let ghost p0 = self.pending();
        let ghost f0 = self.found();
        let lower = to_lowercase(entry.name.as_str());
        let lc = chars_of(lower.as_str());
        let hit = crate::scan::contains_exec(&lc, &self.needle);
        let deeper = entry.is_dir && (depth as u64) + 1 < self.max_depth as u64;
        if deeper {
            let p = entry.path.clone();
            self.queue.push((p, depth + 1));
            assert(self.pending() =~= p0.push((entry.path@, (depth + 1) as u32)));
        }
        if hit {
            self.found.push(entry);
            assert(self.found() =~= f0.push(entry@));
        }
    }

    /// The matches found.
    pub fn into_results(self) -> (v: Vec<TreeEntry>)
        ensures
            v@.map_values(|e: TreeEntry| e@) == self.found(),
    {
        self.found
    }
}

/// Project markers of the working folder.
pub struct ProjectMarkers {
    pub cargo_toml: bool,
    pub package_json: bool,
    pub requirements_txt: bool,
    pub pyproject_toml: bool,
    /// A `venv` or `.venv` folder.
    pub venv: bool,
}

/// One line per marker found, in a fixed order.
pub open spec fn marker_lines(m: ProjectMarkers) -> Seq<Seq<char>> {
    (if m.cargo_toml { seq!["Projet Rust (Cargo.toml)"@] } else { Seq::empty() }) + (
    if m.package_json {
        seq!["Projet Node (package.json)"@]
    } else {
        Seq::empty()
    }) + (if m.requirements_txt {
        seq!["Projet Python (requirements.txt)"@]
    } else {
        Seq::empty()
    }) + (if m.pyproject_toml {
        seq!["Projet Python (pyproject.toml)"@]
    } else {
        Seq::empty()
    }) + (if m.venv { seq!["venv detecte"@] } else { Seq::empty() })
}

/// Most folder entries named in the summary.
pub const CONTEXT_ENTRIES: usize = 15;

/// The entries named in the summary: flowchart files left out, the first
/// `CONTEXT_ENTRIES` of the rest, folders marked with a trailing "/".
pub open spec fn context_items(entries: Seq<(Seq<char>, bool)>) -> Seq<Seq<char>>
    decreases entries.len(),
{
    if entries.len() == 0 {
        Seq::empty()
    } else {
        let rest = context_items(entries.drop_last());
        let e = entries.last();
        if starts_with(e.0, flow_file_prefix()) || rest.len() >= CONTEXT_ENTRIES {
            rest
        } else {
            rest.push(if e.1 { e.0.push('/') } else { e.0 })
        }
    }
}

/// The texts of `parts` joined with `sep` between them.
pub open spec fn join(parts: Seq<Seq<char>>, sep: Seq<char>) -> Seq<char>
    decreases parts.len(),
{
    if parts.len() == 0 {
        Seq::empty()
    } else if parts.len() == 1 {
        parts[0]
    } else {
        join(parts.drop_last(), sep) + sep + parts.last()
    }
}

/// The summary of the working folder `dir` appended to the system prompt.
pub open spec fn workdir_context_spec(
    dir: Seq<char>,
    markers: ProjectMarkers,
    entries: Seq<(Seq<char>, bool)>,
) -> Seq<char> {
    let items = context_items(entries);
    let parts = seq!["Workdir: "@ + dir] + marker_lines(markers) + if items.len() > 0 {
        seq!["Contenu: "@ + join(items, ", "@)]
    } else {
        Seq::empty()
    };
    "\n\n[Contexte workdir IA]\n"@ + join(parts, "\n"@)
}

/// An entry as the summary names it: folders get a trailing "/".
fn entry_label(name: &str, is_dir: bool) -> (r: String)
    ensures
        r@ == if is_dir { name@.push('/') } else { name@ },
{
    let mut r = name.to_owned();
    if is_dir {
        push_str(&mut r, "/");
        proof {
            reveal_strlit("/");
        }
        assert(r@ =~= name@.push('/'));
    }
    r
}

fn join_exec(parts: &Vec<String>, sep: &str) -> (r: String)
    ensures
        r@ == join(parts@.map_values(|p: String| p@), sep@),
{
    let ghost ps = parts@.map_values(|p: String| p@);
    let mut r = String::new();
    let mut i: usize = 0;
    while i < parts.len()
        invariant
            i <= parts@.len(),
            ps == parts@.map_values(|p: String| p@),
            r@ == join(ps.take(i as int), sep@),
        decreases parts.len() - i,
    {
        if i > 0 {
            push_str(&mut r, sep);
        }
        push_str(&mut r, parts[i].as_str());
        assert(ps.take(i + 1).drop_last() =~= ps.take(i as int));
        i = i + 1;
    }
    assert(ps.take(parts@.len() as int) =~= ps);
    r
}

/// Builds the summary of working folder `dir` from its markers and its
/// entries (name, is a folder) in the order the folder lists them.
pub fn workdir_context(dir: &str, markers: &ProjectMarkers, entries: &Vec<(String, bool)>) -> (r: String)
    ensures
        r@ == workdir_context_spec(
            dir@,
            *markers,
            entries@.map_values(|e: (String, bool)| (e.0@, e.1)),
        ),
{
    let ghost es = entries@.map_values(|e: (String, bool)| (e.0@, e.1));
    let mut items: Vec<String> = Vec::new();
    let mut i: usize = 0;
    let prefix = "_thought_flow.";
    proof {
        reveal_strlit("_thought_flow.");
    }
    while i < entries.len()
        invariant
            i <= entries@.len(),
            es == entries@.map_values(|e: (String, bool)| (e.0@, e.1)),
            prefix@ == flow_file_prefix(),
            items@.map_values(|p: String| p@) == context_items(es.take(i as int)),
        decreases entries.len() - i,
    {
        let e = &entries[i];
        assert(es.take(i + 1).drop_last() =~= es.take(i as int));
        assert(es.take(i + 1).last() == (e.0@, e.1));
        let ghost before = items@.map_values(|p: String| p@);
        if !starts_with_exec(e.0.as_str(), prefix) && items.len() < CONTEXT_ENTRIES {
            let name = entry_label(e.0.as_str(), e.1);
            items.push(name);
            assert(items@.map_values(|p: String| p@) =~= before.push(
                if e.1 { e.0@.push('/') } else { e.0@ },
            ));
        }
        i = i + 1;
    }
    assert(es.take(entries@.len() as int) =~= es);
    let mut parts: Vec<String> = Vec::new();
    let mut first = "Workdir: ".to_owned();
    push_str(&mut first, dir);
    parts.push(first);
    let ghost p1 = parts@.map_values(|p: String| p@);
    assert(p1 =~= seq!["Workdir: "@ + dir@]);
    if markers.cargo_toml {
        parts.push("Projet Rust (Cargo.toml)".to_owned());
    }
    if markers.package_json {
        parts.push("Projet Node (package.json)".to_owned());
    }
    if markers.requirements_txt {
        parts.push("Projet Python (requirements.txt)".to_owned());
    }
    if markers.pyproject_toml {
        parts.push("Projet Python (pyproject.toml)".to_owned());
    }
    if markers.venv {
        parts.push("venv detecte".to_owned());
    }
    assert(parts@.map_values(|p: String| p@) =~= p1 + marker_lines(*markers));
    let ghost p2 = parts@.map_values(|p: String| p@);
    if items.len() > 0 {
        let joined = join_exec(&items, ", ");
        let mut line = "Contenu: ".to_owned();
        push_str(&mut line, joined.as_str());
        parts.push(line);
        assert(parts@.map_values(|p: String| p@) =~= p2.push("Contenu: "@ + join(
            context_items(es),
            ", "@,
        )));
    } else {
        assert(parts@.map_values(|p: String| p@) =~= p2 + Seq::<Seq<char>>::empty());
    }
    let ghost items_spec = context_items(es);
    assert(parts@.map_values(|p: String| p@) =~= seq!["Workdir: "@ + dir@] + marker_lines(*markers)
        + if items_spec.len() > 0 {
        seq!["Contenu: "@ + join(items_spec, ", "@)]
    } else {
        Seq::empty()
    });
    let body = join_exec(&parts, "\n");
    let mut r = "\n\n[Contexte workdir IA]\n".to_owned();
    push_str(&mut r, body.as_str());
    r
}

/// The tools are offered to the model: they are switched on and a working
/// folder is set.
pub fn tools_active(enabled: bool, workdir: &str) -> (b: bool)
    ensures
        b == (enabled && trim_spec(workdir@).len() > 0),
{
    enabled && !is_blank(workdir)
}

/// The system prompt sent: the user's prompt, followed by the working-folder
/// summary when there is one.
pub fn compose_system_prompt(base: &str, context: Option<&str>) -> (r: String)
    ensures
        r@ == base@ + match context {
            Some(c) => c@,
            None => Seq::empty(),
        },
{
    let mut r = base.to_owned();
    match context {
        Some(c) => push_str(&mut r, c),
        None => {},
    }
    r
}

/// A system message is sent only when the prompt is not blank.
pub fn system_message(prompt: &str) -> (r: Option<String>)
    ensures
        match r {
            Some(s) => s@ == prompt@ && trim_spec(prompt@).len() > 0,
            None => trim_spec(prompt@).len() == 0,
        },
{
    if is_blank(prompt) {
        None
    } else {
        Some(prompt.to_owned())
    }
}

/// Path components (raw bytes) of `root` begin those of `path`: `path` lies
/// in `root` or is `root` itself.
pub open spec fn within(path: Seq<Seq<u8>>, root: Seq<Seq<u8>>) -> bool {
    root.len() <= path.len() && path.take(root.len() as int) == root
}

/// Why a path the model gave could not be used.
pub enum AccessFailure {
    /// No working folder is set.
    NoWorkdir,
    /// The working folder cannot be resolved (the system's message).
    BadWorkdir(String),
    /// The path exists and cannot be resolved.
    BadPath(String),
    /// The path has no parent folder.
    NoParent,
    /// The parent folder cannot be resolved.
    BadParent(String),
    /// The path has no file name.
    NoFileName,
    /// A ".." follows a folder that does not exist yet.
    /// The resolved path (shown) lies outside the resolved working folder (shown).
    Outside(String, String),
}

/// The text the model receives for a refused path.
pub open spec fn access_failure_text(f: AccessFailure) -> Seq<char> {
    match f {
        AccessFailure::NoWorkdir => "Aucun workdir IA defini. Definissez-en un (clic droit dans l'arborescence)."@,
        AccessFailure::BadWorkdir(e) => "workdir invalide: "@ + e@,
        AccessFailure::BadPath(e) => "chemin invalide: "@ + e@,
        AccessFailure::NoParent => "chemin invalide: pas de parent"@,
        AccessFailure::BadParent(e) => "parent invalide: "@ + e@,
        AccessFailure::NoFileName => "chemin invalide: pas de nom de fichier"@,
        AccessFailure::Outside(p, w) => "ACCES REFUSE : "@ + p@ + " est hors du workdir "@ + w@,
    }
}

/// Text of a refusal.
pub fn access_error(f: &AccessFailure) -> (t: String)
    ensures
        t@ == access_failure_text(*f),
{
    match f {
        AccessFailure::NoWorkdir => "Aucun workdir IA defini. Definissez-en un (clic droit dans l'arborescence).".to_owned(),
        AccessFailure::BadWorkdir(e) => {
            let mut t = "workdir invalide: ".to_owned();
            push_str(&mut t, e.as_str());
            t
        },
        AccessFailure::BadPath(e) => {
            let mut t = "chemin invalide: ".to_owned();
            push_str(&mut t, e.as_str());
            t
        },
        AccessFailure::NoParent => "chemin invalide: pas de parent".to_owned(),
        AccessFailure::BadParent(e) => {
            let mut t = "parent invalide: ".to_owned();
            push_str(&mut t, e.as_str());
            t
        },
        AccessFailure::NoFileName => "chemin invalide: pas de nom de fichier".to_owned(),
        AccessFailure::Outside(p, w) => {
            let mut t = "ACCES REFUSE : ".to_owned();
            push_str(&mut t, p.as_str());
            push_str(&mut t, " est hors du workdir ");
            push_str(&mut t, w.as_str());
            t
        },
    }
}

fn same_bytes(a: &Vec<u8>, b: &Vec<u8>) -> (r: bool)
    ensures
        r == (a@ == b@),
{
    if a.len() != b.len() {
        return false;
    }
    let mut i: usize = 0;
    while i < a.len()
        invariant
            a@.len() == b@.len(),
            i <= a@.len(),
            forall|k: int| 0 <= k < i ==> a@[k] == b@[k],
        decreases a.len() - i,
    {
        if a[i] != b[i] {
            return false;
        }
        i = i + 1;
    }
    assert(a@ =~= b@);
    true
}

/// The jail rule on resolved paths, component by component: a path is
/// allowed when the working folder's components begin its own.
pub fn is_within(path: &Vec<Vec<u8>>, root: &Vec<Vec<u8>>) -> (b: bool)
    ensures
        b == within(path@.map_values(|c: Vec<u8>| c@), root@.map_values(|c: Vec<u8>| c@)),
{
    let ghost pv = path@.map_values(|c: Vec<u8>| c@);
    let ghost rv = root@.map_values(|c: Vec<u8>| c@);
    if root.len() > path.len() {
        return false;
    }
    let mut i: usize = 0;
    while i < root.len()
        invariant
            root@.len() <= path@.len(),
            i <= root@.len(),
            pv == path@.map_values(|c: Vec<u8>| c@),
            rv == root@.map_values(|c: Vec<u8>| c@),
            forall|k: int| 0 <= k < i ==> pv[k] == rv[k],
        decreases root.len() - i,
    {
        if !same_bytes(&path[i], &root[i]) {
            assert(pv.take(rv.len() as int)[i as int] != rv[i as int]);
            return false;
        }
        i = i + 1;
    }
    assert(pv.take(rv.len() as int) =~= rv);
    true
}

/// The decision on a resolved path: allowed (the path's text is handed
/// back) when it lies within the working folder, refused otherwise with both
/// paths shown.
pub fn jail_check(
    path: &Vec<Vec<u8>>,
    path_text: &str,
    root: &Vec<Vec<u8>>,
    root_text: &str,
) -> (r: Result<String, AccessFailure>)
    ensures
        r is Ok <==> within(path@.map_values(|c: Vec<u8>| c@), root@.map_values(|c: Vec<u8>| c@)),
        r matches Ok(p) ==> p@ == path_text@,
        r matches Err(f) ==> f matches AccessFailure::Outside(p, w) && p@ == path_text@ && w@
            == root_text@,
{
    if is_within(path, root) {
        Ok(path_text.to_owned())
    } else {
        Err(AccessFailure::Outside(path_text.to_owned(), root_text.to_owned()))
    }
}

/// A path resolved by the system: its components (raw bytes) and how it is
/// shown.
pub struct ResolvedPath {
    pub components: Vec<Vec<u8>>,
    pub text: String,
}

/// Components of a resolved path, abstractly.
pub open spec fn components_of(p: ResolvedPath) -> Seq<Seq<u8>> {
    p.components@.map_values(|c: Vec<u8>| c@)
}

/// The outcome of checking a path the model gave, from what the system
/// answered at each step, in the order the checks are made: a working folder
/// is set; it resolves; the path (or, for a path that does not exist yet,
/// its parent and file name) resolves; the result lies within the working
/// folder.
pub open spec fn check_access_spec(
    workdir_set: bool,
    workdir: Result<ResolvedPath, String>,
    candidate: Result<ResolvedPath, AccessFailure>,
) -> Result<Seq<char>, AccessFailure> {
    if !workdir_set {
        Err(AccessFailure::NoWorkdir)
    } else {
        match workdir {
            Err(e) => Err(AccessFailure::BadWorkdir(e)),
            Ok(w) => match candidate {
                Err(f) => Err(f),
                Ok(p) => if within(components_of(p), components_of(w)) {
                    Ok(p.text@)
                } else {
                    Err(AccessFailure::Outside(p.text, w.text))
                },
            },
        }
    }
}

/// Decides whether the model may use a path: the resolved path's text when
/// it lies within the working folder, the first failure otherwise (see
/// `check_access_spec`).
pub fn check_access(
    workdir_set: bool,
    workdir: Result<ResolvedPath, String>,
    candidate: Result<ResolvedPath, AccessFailure>,
) -> (r: Result<String, AccessFailure>)
    ensures
        match (r, check_access_spec(workdir_set, workdir, candidate)) {
            (Ok(p), Ok(q)) => p@ == q,
            (Err(f), Err(g)) => access_failure_text(f) == access_failure_text(g),
            _ => false,
        },
{
    if !workdir_set {
        return Err(AccessFailure::NoWorkdir);
    }
    match workdir {
        Err(e) => Err(AccessFailure::BadWorkdir(e)),
        Ok(w) => match candidate {
            Err(f) => Err(f),
            Ok(p) => jail_check(&p.components, p.text.as_str(), &w.components, w.text.as_str()),
        },
    }
}

/// A component of the part of a path that does not exist yet.
pub enum TailPart {
    /// A name (raw bytes).
    Name(Vec<u8>),
    /// ".".
    Current,
    /// "..".
    Parent,
}

/// The names of a missing tail, in order ("." parts add nothing).
pub open spec fn tail_names(tail: Seq<TailPart>) -> Seq<Seq<u8>>
    decreases tail.len(),
{
    if tail.len() == 0 {
        Seq::empty()
    } else {
        tail_names(tail.drop_last()) + match tail.last() {
            TailPart::Name(n) => seq![n@],
            _ => Seq::empty(),
        }
    }
}

/// The tail climbs with "..".
pub open spec fn tail_climbs(tail: Seq<TailPart>) -> bool {
    exists|i: int| 0 <= i < tail.len() && tail[i] is Parent
}

/// Where a path under a folder that does not exist yet leads, for a tool
/// that makes the folders on its way (`creates_folders`): the resolved
/// components of its deepest existing folder followed by the names of the
/// missing part, when that part only names folders and ends with a name.
/// Otherwise, and for every other tool, the path keeps the refusal that its
/// missing parent folder gave (`refusal`).
pub open spec fn extend_missing_spec(
    creates_folders: bool,
    base: Seq<Seq<u8>>,
    tail: Seq<TailPart>,
    refusal: AccessFailure,
) -> Result<Seq<Seq<u8>>, AccessFailure> {
    if creates_folders && !tail_climbs(tail) && tail.len() > 0 && tail.last() is Name {
        Ok(base + tail_names(tail))
    } else {
        Err(refusal)
    }
}

fn copy_bytes(v: &Vec<u8>) -> (r: Vec<u8>)
    ensures
        r@ == v@,
{
    let mut r: Vec<u8> = Vec::new();
    let mut i: usize = 0;
    while i < v.len()
        invariant
            i <= v@.len(),
            r@ == v@.take(i as int),
        decreases v.len() - i,
    {
        r.push(v[i]);
        i = i + 1;
        assert(r@ =~= v@.take(i as int));
    }
    assert(v@.take(v@.len() as int) =~= v@);
    r
}

/// Resolves a path whose parent folder does not exist from its deepest
/// existing folder (already resolved) and the missing components after it
/// (see `extend_missing_spec`); the folders on the way are made when the
/// tool runs.
pub fn extend_missing(
    creates_folders: bool,
    base: &Vec<Vec<u8>>,
    tail: &Vec<TailPart>,
    refusal: AccessFailure,
) -> (r: Result<Vec<Vec<u8>>, AccessFailure>)
    ensures
        match (r, extend_missing_spec(creates_folders, base@.map_values(|c: Vec<u8>| c@), tail@, refusal)) {
            (Ok(p), Ok(q)) => p@.map_values(|c: Vec<u8>| c@) == q,
            (Err(f), Err(g)) => f == g,
            _ => false,
        },
{
    if !creates_folders {
        return Err(refusal);
    }
    let ghost bv = base@.map_values(|c: Vec<u8>| c@);
    let mut out: Vec<Vec<u8>> = Vec::new();
    let mut i: usize = 0;
    while i < base.len()
        invariant
            i <= base@.len(),
            bv == base@.map_values(|c: Vec<u8>| c@),
            out@.map_values(|c: Vec<u8>| c@) == bv.take(i as int),
        decreases base.len() - i,
    {
        let ghost before = out@.map_values(|c: Vec<u8>| c@);
        out.push(copy_bytes(&base[i]));
        assert(out@.map_values(|c: Vec<u8>| c@) =~= before.push(base@[i as int]@));
        assert(bv.take(i + 1) =~= bv.take(i as int).push(bv[i as int]));
        assert(out@.map_values(|c: Vec<u8>| c@) =~= bv.take(i + 1));
        i = i + 1;
    }
    assert(bv.take(base@.len() as int) =~= bv);
    let mut k: usize = 0;
    while k < tail.len()
        invariant
            k <= tail@.len(),
            bv == base@.map_values(|c: Vec<u8>| c@),
            forall|j: int| 0 <= j < k ==> !(tail@[j] is Parent),
            out@.map_values(|c: Vec<u8>| c@) == bv + tail_names(tail@.take(k as int)),
        decreases tail.len() - k,
    {
        assert(tail@.take(k + 1).drop_last() =~= tail@.take(k as int));
        assert(tail@.take(k + 1).last() == tail@[k as int]);
        match &tail[k] {
            TailPart::Name(n) => {
                let ghost before = out@.map_values(|c: Vec<u8>| c@);
                out.push(copy_bytes(n));
                assert(out@.map_values(|c: Vec<u8>| c@) =~= before.push(n@));
                assert(tail_names(tail@.take(k + 1)) == tail_names(tail@.take(k as int)) + seq![n@]);
                assert(out@.map_values(|c: Vec<u8>| c@) =~= bv + tail_names(tail@.take(k + 1)));
            },
            TailPart::Current => {
                assert(out@.map_values(|c: Vec<u8>| c@) =~= bv + tail_names(tail@.take(k + 1)));
            },
            TailPart::Parent => {
                assert(tail_climbs(tail@));
                return Err(refusal);
            },
        }
        k = k + 1;
    }
    assert(tail@.take(tail@.len() as int) =~= tail@);
    assert(!tail_climbs(tail@));
    if tail.len() == 0 {
        return Err(refusal);
    }
    match &tail[tail.len() - 1] {
        TailPart::Name(_) => Ok(out),
        _ => Err(refusal),
    }
}

/// A file or folder to be made in folders that do not exist yet is allowed
/// when its deepest existing folder lies in the working folder and the
/// missing part only names new folders and ends with a name: the path it
/// leads to lies in the working folder.
pub proof fn law_missing_folders_stay_inside(
    base: Seq<Seq<u8>>,
    tail: Seq<TailPart>,
    root: Seq<Seq<u8>>,
    refusal: AccessFailure,
)
    requires
        within(base, root),
        !tail_climbs(tail),
        tail.len() > 0,
        tail.last() is Name,
    ensures
        extend_missing_spec(true, base, tail, refusal) == Ok::<Seq<Seq<u8>>, AccessFailure>(base + tail_names(tail)),
        within(base + tail_names(tail), root),
{
    let p = base + tail_names(tail);
    assert(p.take(root.len() as int) =~= base.take(root.len() as int));
}

/// Only a tool that makes folders reaches through a missing folder: for any
/// other, a path whose parent folder is missing keeps the refusal it got.
pub proof fn law_missing_parent_refused_otherwise(
    base: Seq<Seq<u8>>,
    tail: Seq<TailPart>,
    refusal: AccessFailure,
)
    ensures
        extend_missing_spec(false, base, tail, refusal) == Err::<Seq<Seq<u8>>, AccessFailure>(refusal),
{
}

/// Access is granted only with a working folder set and resolved, and only
/// to a resolved path within it; the path granted is that path.
pub proof fn law_access_granted_only_inside(
    workdir_set: bool,
    workdir: Result<ResolvedPath, String>,
    candidate: Result<ResolvedPath, AccessFailure>,
)
    ensures
        check_access_spec(workdir_set, workdir, candidate) matches Ok(granted) ==> {
            &&& workdir_set
            &&& workdir matches Ok(w)
            &&& candidate matches Ok(p)
            &&& within(components_of(p), components_of(w))
            &&& granted == p.text@
        },
{
}

/// A path the model may use is always inside the working folder: whatever
/// the resolved components, the check allows exactly the paths that extend
/// the working folder, and the allowed path is never shorter than it.
pub proof fn law_jail_allows_only_inside(path: Seq<Seq<u8>>, root: Seq<Seq<u8>>)
    ensures
        within(path, root) ==> path.len() >= root.len() && forall|i: int|
            0 <= i < root.len() ==> path[i] == root[i],
        (exists|i: int| 0 <= i < root.len() && i < path.len() && path[i] != root[i]) ==> !within(
            path,
            root,
        ),
{
    if within(path, root) {
        assert forall|i: int| 0 <= i < root.len() implies path[i] == root[i] by {
            assert(path.take(root.len() as int)[i] == path[i]);
        }
    }
    if exists|i: int| 0 <= i < root.len() && i < path.len() && path[i] != root[i] {
        let i = choose|i: int| 0 <= i < root.len() && i < path.len() && path[i] != root[i];
        if within(path, root) {
            assert(path.take(root.len() as int)[i] == path[i]);
        }
    }
}

/// The model's working folder and the folder waiting for the user's
/// confirmation.
pub struct WorkdirChoice {
    /// The working folder ("" = none).
    pub current: String,
    /// A folder the user picked and has not confirmed yet.
    pub pending: Option<String>,
}

/// What the user answered in the confirmation window.
pub enum Confirmation {
    Yes,
    No,
}

/// Abstract choice: working folder, folder waiting.
pub open spec fn choice_view(c: WorkdirChoice) -> (Seq<char>, Option<Seq<char>>) {
    (c.current@, opt_chars(c.pending))
}

/// Folder `path` is the working folder `current` (trimmed).
pub open spec fn names_workdir(current: Seq<char>, path: Seq<char>) -> bool {
    trim_spec(current) == path
}

/// The choice after a right click on folder `path`.
pub open spec fn after_right_click(
    c: (Seq<char>, Option<Seq<char>>),
    path: Seq<char>,
) -> (Seq<char>, Option<Seq<char>>) {
    if names_workdir(c.0, path) {
        (Seq::empty(), c.1)
    } else {
        (c.0, Some(path))
    }
}

/// The choice after the user's answer.
pub open spec fn after_confirm(
    c: (Seq<char>, Option<Seq<char>>),
    yes: bool,
) -> (Seq<char>, Option<Seq<char>>) {
    match c.1 {
        Some(p) => if yes { (p, None) } else { (c.0, None) },
        None => (c.0, None),
    }
}

impl WorkdirChoice {
    /// Whether `path` is the working folder.
    pub fn is_workdir(&self, path: &str) -> (b: bool)
        ensures
            b == names_workdir(self.current@, path@),
    {
        let t = trim(self.current.as_str());
        crate::text::str_eq(t.as_str(), path)
    }

    /// A right click on folder `path`: the working folder is dropped when
    /// it is that folder, otherwise the folder waits for confirmation.
    pub fn right_click(&mut self, path: &str)
        ensures
            choice_view(*final(self)) == after_right_click(choice_view(*old(self)), path@),
    {
        if self.is_workdir(path) {
            self.current = String::new();
        } else {
            self.pending = Some(path.to_owned());
        }
    }

    /// The user's answer: yes makes the waiting folder the working folder,
    /// no keeps the working folder; either way nothing waits any more.
    pub fn confirm(&mut self, answer: Confirmation)
        ensures
            choice_view(*final(self)) == after_confirm(choice_view(*old(self)), answer is Yes),
    {
        let p = self.pending.take();
        match (answer, p) {
            (Confirmation::Yes, Some(p)) => {
                self.current = p;
            },
            _ => {},
        }
    }

    /// How the confirmation window names the working folder.
    pub fn current_label(&self) -> (t: String)
        ensures
            t@ == if trim_spec(self.current@).len() == 0 {
                "(aucun)"@
            } else {
                self.current@
            },
    {
        if is_blank(self.current.as_str()) {
            "(aucun)".to_owned()
        } else {
            self.current.as_str().to_owned()
        }
    }
}

/// Picking a folder that is not the working folder and confirming it makes
/// it the working folder; refusing leaves the working folder as it was; and
/// a right click on the working folder then drops it.
pub proof fn law_pick_and_confirm(c: (Seq<char>, Option<Seq<char>>), path: Seq<char>)
    requires
        !names_workdir(c.0, path),
    ensures
        after_confirm(after_right_click(c, path), true) == (path, None::<Seq<char>>),
        after_confirm(after_right_click(c, path), false) == (c.0, None::<Seq<char>>),
{
}

/// A right click on the working folder leaves no working folder.
pub proof fn law_right_click_drops_workdir(c: (Seq<char>, Option<Seq<char>>), path: Seq<char>)
    requires
        names_workdir(c.0, path),
    ensures
        after_right_click(c, path).0.len() == 0,
{
}

/// A name matches a search wherever the query occurs in its lowercase
/// form, at the start or anywhere after it.
pub proof fn law_name_matches_anywhere(name: Seq<char>, needle: Seq<char>, i: int)
    requires
        0 <= i,
        i + needle.len() <= spec_to_lowercase(name).len(),
        spec_to_lowercase(name).subrange(i, i + needle.len()) == needle,
    ensures
        name_matches(name, needle),
{
    assert(crate::scan::matches_at(spec_to_lowercase(name), needle, i));
}

/// A name matches a search only where the query occurs in its lowercase
/// form.
pub proof fn law_name_match_has_position(name: Seq<char>, needle: Seq<char>)
    requires
        name_matches(name, needle),
    ensures
        exists|i: int|
            0 <= i && i + needle.len() <= spec_to_lowercase(name).len() && #[trigger] spec_to_lowercase(
                name,
            ).subrange(i, i + needle.len()) == needle,
{
    let i = choose|i: int| crate::scan::matches_at(spec_to_lowercase(name), needle, i);
    assert(spec_to_lowercase(name).subrange(i, i + needle.len()) == needle);
}

/// A folder is the working folder exactly when it equals the working
/// folder's trimmed text.
pub proof fn law_workdir_is_trimmed_equal(current: Seq<char>, path: Seq<char>)
    ensures
        names_workdir(current, path) <==> trim_spec(current) == path,
{
}

/// A right click on any folder other than the (trimmed) working folder,
/// its parent or a sub-folder included, leaves the working folder as it is
/// and makes that folder wait for confirmation.
pub proof fn law_right_click_other_folder(c: (Seq<char>, Option<Seq<char>>), path: Seq<char>)
    requires
        trim_spec(c.0) != path,
    ensures
        after_right_click(c, path) == (c.0, Some(path)),
{
}

/// A right click on the (trimmed) working folder drops it and leaves any
/// waiting folder as it was.
pub proof fn law_right_click_same_folder(c: (Seq<char>, Option<Seq<char>>), path: Seq<char>)
    requires
        trim_spec(c.0) == path,
    ensures
        after_right_click(c, path) == (Seq::<char>::empty(), c.1),
{
}

} // verus!
