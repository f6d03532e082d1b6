//! The tools the model may call: their catalogue, how a call's name and
//! JSON arguments become a request, the checks made before any work, and
//! the texts that report each tool's outcome back to the model.

use vstd::prelude::*;
use crate::chat::opt_view;
use crate::json::{json_i64_at, json_str_at, json_u64_at, spec_json_i64_at, spec_json_str_at, spec_json_u64_at};
use crate::listing::{TreeEntry, TreeEntryView};
use crate::sizes::{format_size, format_size_spec};
use vstd::utf8::encode_utf8;
use crate::decode::{decode_output, decode_output_spec};
use crate::scan::{count_matches, count_matches_spec, lines_of, lines_spec, replace_first, replace_first_spec};
use crate::workspace::{
    access_error, access_failure_text, check_access_spec, components_of, within, AccessFailure,
    ResolvedPath,
};
use crate::text::{
    chars_of, decimal, decimal_i64, decimal_usize, is_blank, is_blank_spec, push_char, push_str,
    signed_decimal, str_eq, string_from_chars, take_chars, take_chars_spec, trim, trim_spec,
};

verus! {

/// Names of the tools, in catalogue order.
pub open spec fn tool_names() -> Seq<Seq<char>> {
    seq![
        "list_dir"@,
        "read_file"@,
        "write_file"@,
        "make_dir"@,
        "edit_file"@,
        "run_command"@,
        "save_knowledge"@,
        "search_knowledge"@,
        "list_knowledge"@,
        "delete_knowledge"@,
    ]
}

/// `o`, or `d` when absent.
pub open spec fn or_default(o: Option<Seq<char>>, d: Seq<char>) -> Seq<char> {
    match o {
        Some(s) => s,
        None => d,
    }
}

/// String argument at pointer `ptr` (such as "/path") of a call, "" when absent.
pub open spec fn str_arg(args: Seq<char>, ptr: Seq<char>) -> Seq<char> {
    or_default(spec_json_str_at(args, ptr), ""@)
}

/// Number of knowledge results asked for: 5 by default, kept within 1..=50.
pub open spec fn search_limit(requested: Option<u64>) -> u64 {
    let n: u64 = match requested {
        Some(n) => n,
        None => 5,
    };
    if n < 1 {
        1
    } else if n > 50 {
        50
    } else {
        n
    }
}

/// A tool call, with its arguments read.
pub enum ToolRequest {
    ListDir { path: String },
    ReadFile { path: String, start_line: Option<u64>, end_line: Option<u64> },
    WriteFile { path: String, content: String },
    MakeDir { path: String },
    EditFile { path: String, old: String, new: String },
    RunCommand { command: String },
    SaveKnowledge { title: String, content: String, tags: String },
    SearchKnowledge { query: String, limit: u64 },
    ListKnowledge { tag: String },
    DeleteKnowledge { id: Option<i64> },
    Unknown { name: String },
}

/// What a call named `name` with JSON arguments `args` asks for.
pub open spec fn request_matches(r: ToolRequest, name: Seq<char>, args: Seq<char>) -> bool {
    match r {
        ToolRequest::ListDir { path } => {
            &&& name == "list_dir"@
            &&& path@ == or_default(spec_json_str_at(args, "/path"@), "."@)
        },
        ToolRequest::ReadFile { path, start_line, end_line } => {
            &&& name == "read_file"@
            &&& path@ == str_arg(args, "/path"@)
            &&& start_line == spec_json_u64_at(args, "/start_line"@)
            &&& end_line == spec_json_u64_at(args, "/end_line"@)
        },
        ToolRequest::WriteFile { path, content } => {
            &&& name == "write_file"@
            &&& path@ == str_arg(args, "/path"@)
            &&& content@ == str_arg(args, "/content"@)
        },
        ToolRequest::MakeDir { path } => {
            &&& name == "make_dir"@
            &&& path@ == str_arg(args, "/path"@)
        },
        ToolRequest::EditFile { path, old, new } => {
            &&& name == "edit_file"@
            &&& path@ == str_arg(args, "/path"@)
            &&& old@ == str_arg(args, "/old_string"@)
            &&& new@ == str_arg(args, "/new_string"@)
        },
        ToolRequest::RunCommand { command } => {
            &&& name == "run_command"@
            &&& command@ == str_arg(args, "/command"@)
        },
        ToolRequest::SaveKnowledge { title, content, tags } => {
            &&& name == "save_knowledge"@
            &&& title@ == str_arg(args, "/title"@)
            &&& content@ == str_arg(args, "/content"@)
            &&& tags@ == str_arg(args, "/tags"@)
        },
        ToolRequest::SearchKnowledge { query, limit } => {
            &&& name == "search_knowledge"@
            &&& query@ == str_arg(args, "/query"@)
            &&& limit == search_limit(spec_json_u64_at(args, "/limit"@))
        },
        ToolRequest::ListKnowledge { tag } => {
            &&& name == "list_knowledge"@
            &&& tag@ == trim_spec(str_arg(args, "/tag"@))
        },
        ToolRequest::DeleteKnowledge { id } => {
            &&& name == "delete_knowledge"@
            &&& id == spec_json_i64_at(args, "/id"@)
        },
        ToolRequest::Unknown { name: n } => n@ == name && !tool_names().contains(name),
    }
}

fn str_arg_exec(args: &str, ptr: &str, default: &str) -> (s: String)
    ensures
        s@ == or_default(spec_json_str_at(args@, ptr@), default@),
{
    match json_str_at(args, ptr) {
        Some(v) => v,
        None => default.to_owned(),
    }
}

/// Reads the call of tool `name` with JSON arguments `args`.
pub fn parse_tool_call(name: &str, args: &str) -> (r: ToolRequest)
    ensures
        request_matches(r, name@, args@),
{
    if str_eq(name, "list_dir") {
        ToolRequest::ListDir { path: str_arg_exec(args, "/path", ".") }
    } else if str_eq(name, "read_file") {
        ToolRequest::ReadFile {
            path: str_arg_exec(args, "/path", ""),
            start_line: json_u64_at(args, "/start_line"),
            end_line: json_u64_at(args, "/end_line"),
        }
    } else if str_eq(name, "write_file") {
        ToolRequest::WriteFile {
            path: str_arg_exec(args, "/path", ""),
            content: str_arg_exec(args, "/content", ""),
        }
    } else if str_eq(name, "make_dir") {
        ToolRequest::MakeDir { path: str_arg_exec(args, "/path", "") }
    } else if str_eq(name, "edit_file") {
        ToolRequest::EditFile {
            path: str_arg_exec(args, "/path", ""),
            old: str_arg_exec(args, "/old_string", ""),
            new: str_arg_exec(args, "/new_string", ""),
        }
    } else if str_eq(name, "run_command") {
        ToolRequest::RunCommand { command: str_arg_exec(args, "/command", "") }
    } else if str_eq(name, "save_knowledge") {
        ToolRequest::SaveKnowledge {
            title: str_arg_exec(args, "/title", ""),
            content: str_arg_exec(args, "/content", ""),
            tags: str_arg_exec(args, "/tags", ""),
        }
    } else if str_eq(name, "search_knowledge") {
        let requested = json_u64_at(args, "/limit");
        let n: u64 = match requested {
            Some(n) => n,
            None => 5,
        };
        let limit = if n < 1 { 1 } else if n > 50 { 50 } else { n };
        ToolRequest::SearchKnowledge { query: str_arg_exec(args, "/query", ""), limit }
    } else if str_eq(name, "list_knowledge") {
        let raw = str_arg_exec(args, "/tag", "");
        ToolRequest::ListKnowledge { tag: trim(raw.as_str()) }
    } else if str_eq(name, "delete_knowledge") {
        ToolRequest::DeleteKnowledge { id: json_i64_at(args, "/id") }
    } else {
        proof {
            let t = tool_names();
            assert(t.len() == 10);
            assert(forall|k: int| 0 <= k < 10 ==> t[k] != name@) by {
                assert(t[0] == "list_dir"@);
                assert(t[1] == "read_file"@);
                assert(t[2] == "write_file"@);
                assert(t[3] == "make_dir"@);
                assert(t[4] == "edit_file"@);
                assert(t[5] == "run_command"@);
                assert(t[6] == "save_knowledge"@);
                assert(t[7] == "search_knowledge"@);
                assert(t[8] == "list_knowledge"@);
                assert(t[9] == "delete_knowledge"@);
            }
            assert(!t.contains(name@));
        }
        ToolRequest::Unknown { name: name.to_owned() }
    }
}

/// A tool's answer to the model.
pub struct ToolOutcome {
    pub text: String,
    pub is_error: bool,
}

/// The answer `text` with its error flag.
pub open spec fn outcome_is(o: ToolOutcome, text: Seq<char>, is_error: bool) -> bool {
    o.text@ == text && o.is_error == is_error
}

fn outcome(text: String, is_error: bool) -> (o: ToolOutcome)
    ensures
        o.text == text,
        o.is_error == is_error,
{
    ToolOutcome { text, is_error }
}

/// The answer given before any work, when a call cannot go on.
pub open spec fn precheck_spec(r: ToolRequest) -> Option<(Seq<char>, bool)> {
    match r {
        ToolRequest::EditFile { old, .. } => if old@.len() == 0 {
            Some(("old_string ne peut pas etre vide"@, true))
        } else {
            None
        },
        ToolRequest::RunCommand { command } => if command@.len() == 0 {
            Some(("command ne peut pas etre vide"@, true))
        } else {
            None
        },
        ToolRequest::SaveKnowledge { content, .. } => if is_blank_spec(content@) {
            Some(("content vide"@, true))
        } else {
            None
        },
        ToolRequest::SearchKnowledge { query, .. } => if is_blank_spec(query@) {
            Some(("query vide"@, true))
        } else {
            None
        },
        ToolRequest::DeleteKnowledge { id } => if id is None {
            Some(("id manquant ou invalide"@, true))
        } else {
            None
        },
        ToolRequest::Unknown { name } => Some(("Tool inconnu : "@ + name@, true)),
        _ => None,
    }
}

/// Checks made before any work: an empty edit pattern or command, blank
/// knowledge or query, a missing id, or an unknown tool end the call here.
pub fn precheck(r: &ToolRequest) -> (o: Option<ToolOutcome>)
    ensures
        match precheck_spec(*r) {
            Some((text, err)) => o matches Some(x) && outcome_is(x, text, err),
            None => o is None,
        },
{
    match r {
        ToolRequest::EditFile { old, .. } => {
            if old.as_str().unicode_len() == 0 {
                Some(outcome("old_string ne peut pas etre vide".to_owned(), true))
            } else {
                None
            }
        },
        ToolRequest::RunCommand { command } => {
            if command.as_str().unicode_len() == 0 {
                Some(outcome("command ne peut pas etre vide".to_owned(), true))
            } else {
                None
            }
        },
        ToolRequest::SaveKnowledge { content, .. } => {
            if is_blank(content.as_str()) {
                Some(outcome("content vide".to_owned(), true))
            } else {
                None
            }
        },
        ToolRequest::SearchKnowledge { query, .. } => {
            if is_blank(query.as_str()) {
                Some(outcome("query vide".to_owned(), true))
            } else {
                None
            }
        },
        ToolRequest::DeleteKnowledge { id } => {
            if id.is_none() {
                Some(outcome("id manquant ou invalide".to_owned(), true))
            } else {
                None
            }
        },
        ToolRequest::Unknown { name } => {
            let mut t = "Tool inconnu : ".to_owned();
            push_str(&mut t, name.as_str());
            Some(outcome(t, true))
        },
        _ => None,
    }
}

/// One parameter of a tool, as announced to the model.
pub struct ToolParam {
    pub name: &'static str,
    /// JSON type: "string" or "integer".
    pub kind: &'static str,
    pub description: &'static str,
    pub required: bool,
}

/// A tool as announced to the model.
pub struct ToolSpec {
    pub name: &'static str,
    pub description: &'static str,
    pub params: Vec<ToolParam>,
}

fn param(name: &'static str, kind: &'static str, description: &'static str, required: bool) -> (p: ToolParam)
    ensures
        p.name == name,
        p.kind == kind,
        p.description == description,
        p.required == required,
{
    ToolParam { name, kind, description, required }
}

/// Parameters of each tool, in catalogue order: name, JSON type,
/// description, required.
pub open spec fn tool_params() -> Seq<Seq<(Seq<char>, Seq<char>, Seq<char>, bool)>> {
    seq![
        seq![("path"@, "string"@, "Directory path to list (relative to workdir)"@, true)],
        seq![("path"@, "string"@, "File path to read (relative to workdir)"@, true), ("start_line"@, "integer"@, "Optional: first line to read (1-based)"@, false), ("end_line"@, "integer"@, "Optional: last line to read (1-based, inclusive)"@, false)],
        seq![("path"@, "string"@, "File path to write (relative to workdir)"@, true), ("content"@, "string"@, "Content to write"@, true)],
        seq![("path"@, "string"@, "Directory path to create (relative to workdir)"@, true)],
        seq![("path"@, "string"@, "File path to edit (relative to workdir)"@, true), ("old_string"@, "string"@, "Exact string to find and replace (must be unique in the file)"@, true), ("new_string"@, "string"@, "Replacement string"@, true)],
        seq![("command"@, "string"@, "Shell command to execute"@, true)],
        seq![("title"@, "string"@, "Short title (one line)"@, true), ("content"@, "string"@, "The full content to remember"@, true), ("tags"@, "string"@, "Optional comma-separated tags (e.g. 'user,preference')"@, false)],
        seq![("query"@, "string"@, "What to search for (natural language)"@, true), ("limit"@, "integer"@, "Max results to return (default 5)"@, false)],
        seq![("tag"@, "string"@, "Optional tag substring filter"@, false)],
        seq![("id"@, "integer"@, "Entry id to delete"@, true)],
    ]
}

/// A parameter, abstractly: name, JSON type, description, required.
pub open spec fn param_view(p: ToolParam) -> (Seq<char>, Seq<char>, Seq<char>, bool) {
    (p.name@, p.kind@, p.description@, p.required)
}

/// Descriptions of the tools, in catalogue order.
pub open spec fn tool_descriptions() -> Seq<Seq<char>> {
    seq![
        "List files and directories at the given path. Returns name, type (file/dir), and size for each entry. Capped at 200 entries."@,
        "Read the content of a text file. Returns the text content. Capped at 1MB."@,
        "Write content to a file. Creates parent directories if needed. Overwrites existing content."@,
        "Create a directory (and parent directories if needed)."@,
        "Edit a file by replacing an exact string with a new string. The old_string must appear exactly once in the file."@,
        "Execute a shell command in the workdir. Returns stdout and stderr. Timeout 30 seconds. Use cmd /C on Windows."@,
        "Save a piece of knowledge to the persistent vector database. The content will be embedded (nomic-embed-text) and stored for semantic search. Use this to remember facts, user preferences, decisions, insights — anything worth retrieving later."@,
        "Semantic search over the persistent knowledge database. Returns the top N most relevant entries with cosine similarity score. Use this before answering questions that might have been addressed before."@,
        "List stored knowledge entries (id, title, tags). Optionally filter by a tag substring."@,
        "Delete a knowledge entry by its id."@,
    ]
}

/// The tools announced to the model, in order: their names are
/// [`tool_names`], their descriptions [`tool_descriptions`] and their
/// parameters [`tool_params`].
pub fn tool_catalog() -> (c: Vec<ToolSpec>)
    ensures
        c@.len() == tool_names().len(),
        forall|i: int| 0 <= i < c@.len() ==> c@[i].name@ == tool_names()[i],
        forall|i: int|
            0 <= i < c@.len() ==> (#[trigger] c@[i]).params@.map_values(|p: ToolParam| param_view(p))
                == tool_params()[i],
        forall|i: int| 0 <= i < c@.len() ==> (#[trigger] c@[i]).description@ == tool_descriptions()[i],
{
    let mut c: Vec<ToolSpec> = Vec::new();
    let mut ps: Vec<ToolParam> = Vec::new();
    ps.push(param("path", "string", "Directory path to list (relative to workdir)", true));
    c.push(ToolSpec { name: "list_dir", description: "List files and directories at the given path. Returns name, type (file/dir), and size for each entry. Capped at 200 entries.", params: ps });
    let mut ps: Vec<ToolParam> = Vec::new();
    ps.push(param("path", "string", "File path to read (relative to workdir)", true));
    ps.push(param("start_line", "integer", "Optional: first line to read (1-based)", false));
    ps.push(param("end_line", "integer", "Optional: last line to read (1-based, inclusive)", false));
    c.push(ToolSpec { name: "read_file", description: "Read the content of a text file. Returns the text content. Capped at 1MB.", params: ps });
    let mut ps: Vec<ToolParam> = Vec::new();
    ps.push(param("path", "string", "File path to write (relative to workdir)", true));
    ps.push(param("content", "string", "Content to write", true));
    c.push(ToolSpec { name: "write_file", description: "Write content to a file. Creates parent directories if needed. Overwrites existing content.", params: ps });
    let mut ps: Vec<ToolParam> = Vec::new();
    ps.push(param("path", "string", "Directory path to create (relative to workdir)", true));
    c.push(ToolSpec { name: "make_dir", description: "Create a directory (and parent directories if needed).", params: ps });
    let mut ps: Vec<ToolParam> = Vec::new();
    ps.push(param("path", "string", "File path to edit (relative to workdir)", true));
    ps.push(param("old_string", "string", "Exact string to find and replace (must be unique in the file)", true));
    ps.push(param("new_string", "string", "Replacement string", true));
    c.push(ToolSpec { name: "edit_file", description: "Edit a file by replacing an exact string with a new string. The old_string must appear exactly once in the file.", params: ps });
    let mut ps: Vec<ToolParam> = Vec::new();
    ps.push(param("command", "string", "Shell command to execute", true));
    c.push(ToolSpec { name: "run_command", description: "Execute a shell command in the workdir. Returns stdout and stderr. Timeout 30 seconds. Use cmd /C on Windows.", params: ps });
    let mut ps: Vec<ToolParam> = Vec::new();
    ps.push(param("title", "string", "Short title (one line)", true));
    ps.push(param("content", "string", "The full content to remember", true));
    ps.push(param("tags", "string", "Optional comma-separated tags (e.g. 'user,preference')", false));
    c.push(ToolSpec { name: "save_knowledge", description: "Save a piece of knowledge to the persistent vector database. The content will be embedded (nomic-embed-text) and stored for semantic search. Use this to remember facts, user preferences, decisions, insights — anything worth retrieving later.", params: ps });
    let mut ps: Vec<ToolParam> = Vec::new();
    ps.push(param("query", "string", "What to search for (natural language)", true));
    ps.push(param("limit", "integer", "Max results to return (default 5)", false));
    c.push(ToolSpec { name: "search_knowledge", description: "Semantic search over the persistent knowledge database. Returns the top N most relevant entries with cosine similarity score. Use this before answering questions that might have been addressed before.", params: ps });
    let mut ps: Vec<ToolParam> = Vec::new();
    ps.push(param("tag", "string", "Optional tag substring filter", false));
    c.push(ToolSpec { name: "list_knowledge", description: "List stored knowledge entries (id, title, tags). Optionally filter by a tag substring.", params: ps });
    let mut ps: Vec<ToolParam> = Vec::new();
    ps.push(param("id", "integer", "Entry id to delete", true));
    c.push(ToolSpec { name: "delete_knowledge", description: "Delete a knowledge entry by its id.", params: ps });
    proof {
        let t = tool_names();
        assert(c@[0].name@ == t[0]);
        assert(c@[1].name@ == t[1]);
        assert(c@[2].name@ == t[2]);
        assert(c@[3].name@ == t[3]);
        assert(c@[4].name@ == t[4]);
        assert(c@[5].name@ == t[5]);
        assert(c@[6].name@ == t[6]);
        assert(c@[7].name@ == t[7]);
        assert(c@[8].name@ == t[8]);
        assert(c@[9].name@ == t[9]);
        let ps = tool_params();
        assert(c@[0].params@.map_values(|p: ToolParam| param_view(p)) =~= ps[0]);
        assert(c@[1].params@.map_values(|p: ToolParam| param_view(p)) =~= ps[1]);
        assert(c@[2].params@.map_values(|p: ToolParam| param_view(p)) =~= ps[2]);
        assert(c@[3].params@.map_values(|p: ToolParam| param_view(p)) =~= ps[3]);
        assert(c@[4].params@.map_values(|p: ToolParam| param_view(p)) =~= ps[4]);
        assert(c@[5].params@.map_values(|p: ToolParam| param_view(p)) =~= ps[5]);
        assert(c@[6].params@.map_values(|p: ToolParam| param_view(p)) =~= ps[6]);
        assert(c@[7].params@.map_values(|p: ToolParam| param_view(p)) =~= ps[7]);
        assert(c@[8].params@.map_values(|p: ToolParam| param_view(p)) =~= ps[8]);
        assert(c@[9].params@.map_values(|p: ToolParam| param_view(p)) =~= ps[9]);
        let ds = tool_descriptions();
        assert(c@[0].description@ == ds[0]);
        assert(c@[1].description@ == ds[1]);
        assert(c@[2].description@ == ds[2]);
        assert(c@[3].description@ == ds[3]);
        assert(c@[4].description@ == ds[4]);
        assert(c@[5].description@ == ds[5]);
        assert(c@[6].description@ == ds[6]);
        assert(c@[7].description@ == ds[7]);
        assert(c@[8].description@ == ds[8]);
        assert(c@[9].description@ == ds[9]);
    }
    c
}

/// Every tool the catalogue announces is one the dispatcher knows, and
/// every name the dispatcher knows is announced: a call by a catalogue name
/// never reads as an unknown tool.
pub proof fn law_catalog_matches_dispatch(name: Seq<char>, args: Seq<char>, r: ToolRequest)
    requires
        request_matches(r, name, args),
    ensures
        (r is Unknown) <==> !tool_names().contains(name),
{
    let t = tool_names();
    if !(r is Unknown) {
        assert(t[0] == "list_dir"@);
        assert(t[1] == "read_file"@);
        assert(t[2] == "write_file"@);
        assert(t[3] == "make_dir"@);
        assert(t[4] == "edit_file"@);
        assert(t[5] == "run_command"@);
        assert(t[6] == "save_knowledge"@);
        assert(t[7] == "search_knowledge"@);
        assert(t[8] == "list_knowledge"@);
        assert(t[9] == "delete_knowledge"@);
    }
}

/// `s` begins with `p`.
pub open spec fn starts_with(s: Seq<char>, p: Seq<char>) -> bool {
    s.len() >= p.len() && s.take(p.len() as int) == p
}

pub(crate) fn starts_with_exec(s: &str, p: &str) -> (b: bool)
    ensures
        b == starts_with(s@, p@),
{
    let x = chars_of(s);
    let y = chars_of(p);
    if x.len() < y.len() {
        return false;
    }
    let mut i: usize = 0;
    while i < y.len()
        invariant
            x@ == s@,
            y@ == p@,
            y@.len() <= x@.len(),
            i <= y@.len(),
            forall|k: int| 0 <= k < i ==> x@[k] == y@[k],
        decreases y.len() - i,
    {
        if x[i] != y[i] {
            assert(x@.take(y@.len() as int)[i as int] != y@[i as int]);
            return false;
        }
        i = i + 1;
    }
    assert(x@.take(y@.len() as int) =~= y@);
    true
}

/// Name prefix of the flowchart files, which listings do not show.
pub open spec fn flow_file_prefix() -> Seq<char> {
    "_thought_flow."@
}

/// The line a listing gives an entry.
pub open spec fn listing_line(e: TreeEntryView) -> Seq<char> {
    if e.truncated {
        e.name + "\n"@
    } else if e.is_dir {
        "[dir]  "@ + e.name + "\n"@
    } else {
        "[file] "@ + e.name + " ("@ + format_size_spec(e.size as nat) + ")\n"@
    }
}

/// Lines of the entries shown, in order (flowchart files are skipped).
pub open spec fn listing_lines(es: Seq<TreeEntryView>) -> Seq<char>
    decreases es.len(),
{
    if es.len() == 0 {
        Seq::empty()
    } else {
        listing_lines(es.drop_last()) + if starts_with(es.last().name, flow_file_prefix()) {
            Seq::empty()
        } else {
            listing_line(es.last())
        }
    }
}

/// What `list_dir` answers for the entries of a folder.
pub open spec fn listing_report_spec(es: Seq<TreeEntryView>) -> Seq<char> {
    if listing_lines(es).len() == 0 {
        "(vide ou inaccessible)"@
    } else {
        listing_lines(es)
    }
}

/// The answer of `list_dir` for the entries of a folder (never an error).
pub fn listing_report(entries: &Vec<TreeEntry>) -> (o: ToolOutcome)
    ensures
        outcome_is(o, listing_report_spec(entries@.map_values(|e: TreeEntry| e@)), false),
{
    let ghost es = entries@.map_values(|e: TreeEntry| e@);
    let mut out = String::new();
    let mut i: usize = 0;
    while i < entries.len()
        invariant
            es == entries@.map_values(|e: TreeEntry| e@),
            i <= entries@.len(),
            out@ == listing_lines(es.take(i as int)),
        decreases entries.len() - i,
    {
        let e = &entries[i];
        assert(es.take(i + 1).drop_last() =~= es.take(i as int));
        assert(es.take(i + 1).last() == e@);
        let ghost before = out@;
        if !starts_with_exec(e.name.as_str(), "_thought_flow.") {
            if e.truncated {
                push_str(&mut out, e.name.as_str());
                push_str(&mut out, "\n");
            } else if e.is_dir {
                push_str(&mut out, "[dir]  ");
                push_str(&mut out, e.name.as_str());
                push_str(&mut out, "\n");
            } else {
                push_str(&mut out, "[file] ");
                push_str(&mut out, e.name.as_str());
                push_str(&mut out, " (");
                let size = format_size(e.size);
                push_str(&mut out, size.as_str());
                push_str(&mut out, ")\n");
            }
            assert(out@ =~= before + listing_line(e@));
        } else {
            assert(out@ =~= before + Seq::<char>::empty());
        }
        i = i + 1;
    }
    assert(es.take(entries.len() as int) =~= es);
    if out.as_str().unicode_len() == 0 {
        outcome("(vide ou inaccessible)".to_owned(), false)
    } else {
        outcome(out, false)
    }
}

/// Largest file `read_file` reads (1 MiB).
pub const READ_LIMIT: u64 = 1048576;

/// The refusal of `read_file` for a file of `len` bytes, if it is too large.
pub fn size_guard(len: u64) -> (o: Option<ToolOutcome>)
    ensures
        len > READ_LIMIT ==> (o matches Some(x) && outcome_is(
            x,
            "Fichier trop gros ("@ + format_size_spec(len as nat) + ") — max 1 Mo"@,
            true,
        )),
        len <= READ_LIMIT ==> o is None,
{
    if len > READ_LIMIT {
        let mut t = "Fichier trop gros (".to_owned();
        let size = format_size(len);
        push_str(&mut t, size.as_str());
        push_str(&mut t, ") — max 1 Mo");
        Some(outcome(t, true))
    } else {
        None
    }
}

/// `d` right-aligned in four columns (`{:4}`).
pub open spec fn pad4(d: Seq<char>) -> Seq<char> {
    if d.len() < 4 {
        Seq::new((4 - d.len()) as nat, |i: int| ' ') + d
    } else {
        d
    }
}

/// A numbered line of `read_file`: "  12 | text".
pub open spec fn numbered_line(number: nat, line: Seq<char>) -> Seq<char> {
    pad4(decimal(number)) + " | "@ + line + "\n"@
}

/// Numbered lines of `ls` from index `s` up to (not including) index `k`.
pub open spec fn numbered_lines(ls: Seq<Seq<char>>, s: int, k: int) -> Seq<char>
    decreases k - s,
{
    if k <= s {
        Seq::empty()
    } else {
        numbered_lines(ls, s, k - 1) + numbered_line(k as nat, ls[k - 1])
    }
}

/// First line index a `read_file` window starts at (`start_line` counts from 1).
pub open spec fn window_start(start_line: u64, n: nat) -> int {
    let s0: int = (if start_line < 1 { 1u64 } else { start_line }) as usize as int - 1;
    if s0 < n { s0 } else { n as int }
}

/// Line index a `read_file` window stops before.
pub open spec fn window_end(end_line: Option<u64>, n: nat) -> int {
    let e0: int = match end_line {
        Some(e) => e as usize as int,
        None => n as int,
    };
    if e0 < n { e0 } else { n as int }
}

/// What `read_file` answers for a file's `content`.
pub open spec fn read_report_spec(content: Seq<char>, start_line: Option<u64>, end_line: Option<u64>) -> Seq<char> {
    match start_line {
        None => content,
        Some(st) => {
            let ls = lines_spec(content);
            numbered_lines(ls, window_start(st, ls.len()), window_end(end_line, ls.len()))
        },
    }
}

/// The window of lines asked for starts no later than it ends (the window
/// slice is taken only then).
pub open spec fn read_window_ok(content: Seq<char>, start_line: Option<u64>, end_line: Option<u64>) -> bool {
    match start_line {
        None => true,
        Some(st) => {
            let n = lines_spec(content).len();
            &&& (if st < 1 { 1u64 } else { st }) as usize >= 1
            &&& window_start(st, n) <= window_end(end_line, n)
        },
    }
}

fn push_padded(out: &mut String, number: usize)
    ensures
        final(out)@ == old(out)@ + pad4(decimal(number as nat)),
{
    let d = decimal_usize(number);
    let len = d.as_str().unicode_len();
    let mut k = len;
    let ghost pad_len: nat = if len < 4 { (4 - len) as nat } else { 0 };
    let mut pushed: usize = 0;
    while k < 4
        invariant
            len == decimal(number as nat).len(),
            d@ == decimal(number as nat),
            len <= k <= 4 || (len > 4 && k == len),
            pushed == k - len,
            out@ == old(out)@ + Seq::new(pushed as nat, |i: int| ' '),
        decreases 4 - k,
    {
        push_char(out, ' ');
        k = k + 1;
        pushed = pushed + 1;
        assert(out@ =~= old(out)@ + Seq::new(pushed as nat, |i: int| ' '));
    }
    push_str(out, d.as_str());
    if len < 4 {
        assert(pushed == 4 - len);
        assert(out@ =~= old(out)@ + pad4(decimal(number as nat)));
    } else {
        assert(pushed == 0);
        assert(out@ =~= old(out)@ + pad4(decimal(number as nat)));
    }
}

/// The answer of `read_file` for a file's `content`: all of it, or the
/// numbered lines of the window asked for.
pub fn read_report(content: &str, start_line: Option<u64>, end_line: Option<u64>) -> (o: ToolOutcome)
    requires
        read_window_ok(content@, start_line, end_line),
    ensures
        outcome_is(o, read_report_spec(content@, start_line, end_line), false),
{
    match start_line {
        None => outcome(content.to_owned(), false),
        Some(st) => {
            let chars = chars_of(content);
            let ls = lines_of(&chars);
            let ghost lv = ls@.map_values(|l: Vec<char>| l@);
            let n = ls.len();
            let s0: usize = (if st < 1 { 1u64 } else { st }) as usize - 1;
            let s: usize = if s0 < n { s0 } else { n };
            let e0: usize = match end_line {
                Some(e) => e as usize,
                None => n,
            };
            let e: usize = if e0 < n { e0 } else { n };
            assert(s as int == window_start(st, lv.len()));
            assert(e as int == window_end(end_line, lv.len()));
            let mut out = String::new();
            let mut k = s;
            while k < e
                invariant
                    lv == ls@.map_values(|l: Vec<char>| l@),
                    s <= k <= e <= n,
                    n == ls@.len(),
                    out@ == numbered_lines(lv, s as int, k as int),
                decreases e - k,
            {
                let ghost before = out@;
                push_padded(&mut out, k + 1);
                push_str(&mut out, " | ");
                let line = string_from_chars(&ls[k]);
                push_str(&mut out, line.as_str());
                push_str(&mut out, "\n");
                assert(lv[k as int] == ls@[k as int]@);
                assert(out@ =~= before + numbered_line((k + 1) as nat, lv[k as int]));
                k = k + 1;
            }
            outcome(out, false)
        },
    }
}

/// Whether `read_report` may be asked for this window (the slice
/// of lines is taken only when it starts no later than it ends).
pub fn read_window_is_valid(content: &str, start_line: Option<u64>, end_line: Option<u64>) -> (b: bool)
    ensures
        b == read_window_ok(content@, start_line, end_line),
{
    match start_line {
        None => true,
        Some(st) => {
            let chars = chars_of(content);
            let ls = lines_of(&chars);
            proof {
                assert(ls@.map_values(|l: Vec<char>| l@).len() == ls@.len());
            }
            let n = ls.len();
            let first = (if st < 1 { 1u64 } else { st }) as usize;
            if first < 1 {
                return false;
            }
            let s0: usize = first - 1;
            let s: usize = if s0 < n { s0 } else { n };
            let e0: usize = match end_line {
                Some(e) => e as usize,
                None => n,
            };
            let e: usize = if e0 < n { e0 } else { n };
            s <= e
        },
    }
}

/// What failed while a tool worked; each has its own wording.
pub enum Failure {
    /// A system error given as is (file metadata, waiting for a command).
    Other,
    Read,
    Write,
    MakeDir,
    Spawn,
    Embedding,
    DbInsert,
    DbPrepare,
    DbQuery,
    DbDelete,
}

/// The words that introduce a failure.
pub open spec fn failure_prefix(f: Failure) -> Seq<char> {
    match f {
        Failure::Other => "Erreur : "@,
        Failure::Read => "Erreur lecture : "@,
        Failure::Write => "Erreur ecriture : "@,
        Failure::MakeDir => "Erreur creation dossier : "@,
        Failure::Spawn => "Erreur execution : "@,
        Failure::Embedding => "embedding: "@,
        Failure::DbInsert => "DB insert: "@,
        Failure::DbPrepare => "DB prepare: "@,
        Failure::DbQuery => "DB query: "@,
        Failure::DbDelete => "DB delete: "@,
    }
}

/// The answer reporting failure `f` with the error's text `detail`.
pub fn failure_report(f: Failure, detail: &str) -> (o: ToolOutcome)
    ensures
        outcome_is(o, failure_prefix(f) + detail@, true),
{
    let mut t = match f {
        Failure::Other => "Erreur : ".to_owned(),
        Failure::Read => "Erreur lecture : ".to_owned(),
        Failure::Write => "Erreur ecriture : ".to_owned(),
        Failure::MakeDir => "Erreur creation dossier : ".to_owned(),
        Failure::Spawn => "Erreur execution : ".to_owned(),
        Failure::Embedding => "embedding: ".to_owned(),
        Failure::DbInsert => "DB insert: ".to_owned(),
        Failure::DbPrepare => "DB prepare: ".to_owned(),
        Failure::DbQuery => "DB query: ".to_owned(),
        Failure::DbDelete => "DB delete: ".to_owned(),
    };
    push_str(&mut t, detail);
    outcome(t, true)
}

/// An answer passed on as an error as it is (access refusals, database opening).
pub fn error_report(text: &str) -> (o: ToolOutcome)
    ensures
        outcome_is(o, text@, true),
{
    outcome(text.to_owned(), true)
}

/// The one operation on the file system that a file tool performs, on the
/// path it was granted.
pub enum FileAction {
    List,
    Read { start_line: Option<u64>, end_line: Option<u64> },
    Write { content: String },
    MakeDir,
    Edit { old: String, new: String },
}

/// What a file tool does once its path has been checked: answer with the
/// refusal, or perform its operation.
pub enum FileStep {
    Refuse(ToolOutcome),
    Perform(FileAction),
}

/// The file tools that make the folders on their way: `write_file` and
/// `make_dir`, as their descriptions in the catalogue say.
pub open spec fn creates_folders_spec(r: ToolRequest) -> bool {
    r is WriteFile || r is MakeDir
}

/// Whether the request makes the folders on its way.
pub fn creates_folders(r: &ToolRequest) -> (b: bool)
    ensures
        b == creates_folders_spec(*r),
{
    match r {
        ToolRequest::WriteFile { .. } | ToolRequest::MakeDir { .. } => true,
        _ => false,
    }
}

/// The requests that work on a path inside the workdir.
pub open spec fn is_file_request(r: ToolRequest) -> bool {
    r is ListDir || r is ReadFile || r is WriteFile || r is MakeDir || r is EditFile
}

/// `a` is the operation that `r` asks for, with the request's own values.
pub open spec fn action_of(a: FileAction, r: ToolRequest) -> bool {
    match (a, r) {
        (FileAction::List, ToolRequest::ListDir { .. }) => true,
        (FileAction::Read { start_line: s1, end_line: e1 }, ToolRequest::ReadFile { start_line, end_line, .. }) =>
            s1 == start_line && e1 == end_line,
        (FileAction::Write { content: c1 }, ToolRequest::WriteFile { content, .. }) => c1@ == content@,
        (FileAction::MakeDir, ToolRequest::MakeDir { .. }) => true,
        (FileAction::Edit { old: o1, new: n1 }, ToolRequest::EditFile { old, new, .. }) =>
            o1@ == old@ && n1@ == new@,
        _ => false,
    }
}

/// The step of a file request `r` whose path check gave `access` (the
/// granted path's text, or the refusal's text): a refused path is answered
/// with the refusal as an error, and only a granted path leads to an
/// operation.
pub open spec fn file_step_holds(s: Option<FileStep>, r: ToolRequest, access: Result<Seq<char>, Seq<char>>) -> bool {
    if !is_file_request(r) {
        s is None
    } else {
        match access {
            Err(e) => s matches Some(FileStep::Refuse(o)) && outcome_is(o, e, true),
            Ok(_) => s matches Some(FileStep::Perform(a)) && action_of(a, r),
        }
    }
}

/// A path check's result as texts: the granted path, or the refusal.
pub open spec fn access_texts(access: Result<Seq<char>, AccessFailure>) -> Result<Seq<char>, Seq<char>> {
    match access {
        Ok(p) => Ok(p),
        Err(f) => Err(access_failure_text(f)),
    }
}

/// The view of `check_access`'s result.
pub open spec fn access_view(access: Result<String, AccessFailure>) -> Result<Seq<char>, AccessFailure> {
    match access {
        Ok(p) => Ok(p@),
        Err(f) => Err(f),
    }
}

/// Decides what a file request does once `check_access` has judged its path.
pub fn file_step(r: &ToolRequest, access: &Result<String, AccessFailure>) -> (s: Option<FileStep>)
    ensures
        file_step_holds(s, *r, access_texts(access_view(*access))),
{
    let action = match r {
        ToolRequest::ListDir { .. } => FileAction::List,
        ToolRequest::ReadFile { start_line, end_line, .. } =>
            FileAction::Read { start_line: *start_line, end_line: *end_line },
        ToolRequest::WriteFile { content, .. } => FileAction::Write { content: content.clone() },
        ToolRequest::MakeDir { .. } => FileAction::MakeDir,
        ToolRequest::EditFile { old, new, .. } => FileAction::Edit { old: old.clone(), new: new.clone() },
        _ => return None,
    };
    match access {
        Err(f) => Some(FileStep::Refuse(outcome(access_error(f), true))),
        Ok(_) => Some(FileStep::Perform(action)),
    }
}

/// A file tool touches the file system only inside the working folder: when
/// its step follows the path check, an operation comes only with a working
/// folder set and resolved and a resolved path within it, and a refused path
/// is answered with the refusal's text as an error, with no operation.
pub proof fn law_file_tool_acts_only_inside(
    s: Option<FileStep>,
    r: ToolRequest,
    workdir_set: bool,
    workdir: Result<ResolvedPath, String>,
    candidate: Result<ResolvedPath, AccessFailure>,
)
    requires
        is_file_request(r),
        file_step_holds(s, r, access_texts(check_access_spec(workdir_set, workdir, candidate))),
    ensures
        s matches Some(FileStep::Perform(_)) ==> {
            &&& workdir_set
            &&& workdir matches Ok(w)
            &&& candidate matches Ok(p)
            &&& within(components_of(p), components_of(w))
        },
        check_access_spec(workdir_set, workdir, candidate) matches Err(f) ==> {
            &&& s matches Some(FileStep::Refuse(o))
            &&& o.text@ == access_failure_text(f)
            &&& o.is_error
        },
{
}

/// The answer of `write_file` once `content` is written to `path`.
pub fn write_report(content: &str, path: &str) -> (o: ToolOutcome)
    ensures
        outcome_is(o, "OK — "@ + decimal(utf8_len(content@) as nat) + " octets ecrits dans "@ + path@, false),
{
    let mut t = "OK — ".to_owned();
    let d = decimal_usize(content.len());
    push_str(&mut t, d.as_str());
    push_str(&mut t, " octets ecrits dans ");
    push_str(&mut t, path);
    outcome(t, false)
}

/// The answer of `make_dir` once `path` exists.
pub fn make_dir_report(path: &str) -> (o: ToolOutcome)
    ensures
        outcome_is(o, "OK — dossier cree : "@ + path@, false),
{
    let mut t = "OK — dossier cree : ".to_owned();
    push_str(&mut t, path);
    outcome(t, false)
}

/// What `edit_file` does with a file's `content`: the edited text when
/// `old` occurs exactly once (counted left to right without overlap),
/// otherwise the refusal naming `path`.
pub open spec fn edit_spec(content: Seq<char>, old: Seq<char>, new: Seq<char>, path: Seq<char>) -> Result<Seq<char>, Seq<char>> {
    let n = count_matches_spec(content, old);
    if n == 0 {
        Err("old_string introuvable dans "@ + path)
    } else if n > 1 {
        Err("old_string trouvee "@ + decimal(n) + " fois (doit etre unique) dans "@ + path)
    } else {
        Ok(replace_first_spec(content, old, new))
    }
}

/// Applies an edit to a file's `content` (see [`edit_spec`]); `old` is not empty.
pub fn plan_edit(content: &str, old: &str, new: &str, path: &str) -> (r: Result<String, ToolOutcome>)
    requires
        old@.len() > 0,
    ensures
        match edit_spec(content@, old@, new@, path@) {
            Ok(t) => r matches Ok(s) && s@ == t,
            Err(t) => r matches Err(o) && outcome_is(o, t, true),
        },
{
    let c = chars_of(content);
    let o = chars_of(old);
    let n = count_matches(&c, &o);
    if n == 0 {
        let mut t = "old_string introuvable dans ".to_owned();
        push_str(&mut t, path);
        Err(outcome(t, true))
    } else if n > 1 {
        let mut t = "old_string trouvee ".to_owned();
        let d = decimal_usize(n);
        push_str(&mut t, d.as_str());
        push_str(&mut t, " fois (doit etre unique) dans ");
        push_str(&mut t, path);
        Err(outcome(t, true))
    } else {
        let w = chars_of(new);
        let r = replace_first(&c, &o, &w);
        Ok(string_from_chars(&r))
    }
}

/// The answer of `edit_file` once `path` is rewritten; the count given is
/// the byte length of the replaced text `old`.
pub fn edit_report(path: &str, old: &str) -> (o: ToolOutcome)
    ensures
        outcome_is(
            o,
            "OK — edit applique dans "@ + path@ + " ("@ + decimal(utf8_len(old@) as nat) + " chars remplaces)"@,
            false,
        ),
{
    let mut t = "OK — edit applique dans ".to_owned();
    push_str(&mut t, path);
    push_str(&mut t, " (");
    let d = decimal_usize(old.len());
    push_str(&mut t, d.as_str());
    push_str(&mut t, " chars remplaces)");
    outcome(t, false)
}

/// The shell line run for `command`: the console is switched to UTF-8 first.
pub fn command_line(command: &str) -> (line: String)
    ensures
        line@ == "chcp 65001 >nul & "@ + command@,
{
    let mut t = "chcp 65001 >nul & ".to_owned();
    push_str(&mut t, command);
    t
}

/// The answer when a command ran out of time and was killed.
pub fn timeout_report() -> (o: ToolOutcome)
    ensures
        outcome_is(o, "TIMEOUT (30s) — commande interrompue. Le process a ete tue."@, true),
{
    outcome("TIMEOUT (30s) — commande interrompue. Le process a ete tue.".to_owned(), true)
}

/// Characters of a command's standard output that are kept.
pub const STDOUT_KEEP: usize = 10000;

/// Characters of a command's error output that are kept.
pub const STDERR_KEEP: usize = 5000;

/// Byte length of the UTF-8 encoding of `s`, as `str::len` gives it.
pub open spec fn utf8_len(s: Seq<char>) -> usize {
    encode_utf8(s).len() as usize
}

/// What `run_command` answers for a command's outputs and exit code: the
/// decoded output (first 10 000 characters, with a note when it is longer
/// than 10 000 bytes), then the error output after "[stderr] " (first 5 000
/// characters), then the exit code; or a "no output" notice.
pub open spec fn command_report_spec(stdout: Seq<u8>, stderr: Seq<u8>, exit: i32) -> Seq<char> {
    let out = decode_output_spec(stdout);
    let err = decode_output_spec(stderr);
    let a: Seq<char> = if out.len() > 0 {
        take_chars_spec(out, STDOUT_KEEP as nat) + if utf8_len(out) > STDOUT_KEEP {
            "\n... (tronque a 10KB)"@
        } else {
            Seq::empty()
        }
    } else {
        Seq::empty()
    };
    let b: Seq<char> = if err.len() > 0 {
        a + (if a.len() > 0 { "\n"@ } else { Seq::empty() }) + "[stderr] "@ + take_chars_spec(err, STDERR_KEEP as nat)
    } else {
        a
    };
    if b.len() == 0 {
        "(pas de sortie, exit code "@ + signed_decimal(exit as int) + ")"@
    } else {
        b + "\n[exit "@ + signed_decimal(exit as int) + "]"@
    }
}

/// The answer of `run_command` for a command's raw outputs and exit code
/// (an error when the exit code is not 0).
pub fn command_report(stdout: &[u8], stderr: &[u8], exit: i32) -> (o: ToolOutcome)
    ensures
        outcome_is(o, command_report_spec(stdout@, stderr@, exit), exit != 0),
{
    let out = decode_output(stdout);
    let err = decode_output(stderr);
    let ghost o = decode_output_spec(stdout@);
    let ghost e = decode_output_spec(stderr@);
    let ghost spec_a: Seq<char> = if o.len() > 0 {
        take_chars_spec(o, STDOUT_KEEP as nat) + if utf8_len(o) > STDOUT_KEEP {
            "\n... (tronque a 10KB)"@
        } else {
            Seq::empty()
        }
    } else {
        Seq::empty()
    };
    let ghost spec_b: Seq<char> = if e.len() > 0 {
        spec_a + (if spec_a.len() > 0 { "\n"@ } else { Seq::empty() }) + "[stderr] "@ + take_chars_spec(e, STDERR_KEEP as nat)
    } else {
        spec_a
    };
    let mut t = String::new();
    if out.as_str().unicode_len() > 0 {
        let kept = take_chars(out.as_str(), STDOUT_KEEP);
        push_str(&mut t, kept.as_str());
        assert(t@ =~= take_chars_spec(o, STDOUT_KEEP as nat));
        let nbytes = out.as_str().len();
        assert(nbytes == utf8_len(o));
        if nbytes > STDOUT_KEEP {
            push_str(&mut t, "\n... (tronque a 10KB)");
        }
        assert(t@ =~= spec_a);
    } else {
        assert(t@ =~= spec_a);
    }
    if err.as_str().unicode_len() > 0 {
        if t.as_str().unicode_len() > 0 {
            push_str(&mut t, "\n");
        }
        push_str(&mut t, "[stderr] ");
        let kept = take_chars(err.as_str(), STDERR_KEEP);
        push_str(&mut t, kept.as_str());
    }
    assert(t@ =~= spec_b);
    let code = decimal_i64(exit as i64);
    if t.as_str().unicode_len() == 0 {
        let mut u = "(pas de sortie, exit code ".to_owned();
        push_str(&mut u, code.as_str());
        push_str(&mut u, ")");
        assert(u@ =~= command_report_spec(stdout@, stderr@, exit));
        outcome(u, exit != 0)
    } else {
        let ghost before = t@;
        push_str(&mut t, "\n[exit ");
        push_str(&mut t, code.as_str());
        push_str(&mut t, "]");
        assert(t@ =~= before + "\n[exit "@ + signed_decimal(exit as int) + "]"@);
        assert(t@ =~= command_report_spec(stdout@, stderr@, exit));
        outcome(t, exit != 0)
    }
}

/// The answer of `save_knowledge` once entry `id` is stored with an
/// embedding of `dims` numbers for `content`.
pub fn saved_report(id: i64, dims: usize, content: &str) -> (o: ToolOutcome)
    ensures
        outcome_is(
            o,
            "OK — #"@ + signed_decimal(id as int) + " sauvegarde ("@ + decimal(dims as nat) + " dims, "@
                + decimal(utf8_len(content@) as nat) + " octets)"@,
            false,
        ),
{
    let mut t = "OK — #".to_owned();
    let a = decimal_i64(id);
    push_str(&mut t, a.as_str());
    push_str(&mut t, " sauvegarde (");
    let b = decimal_usize(dims);
    push_str(&mut t, b.as_str());
    push_str(&mut t, " dims, ");
    let c = decimal_usize(content.len());
    push_str(&mut t, c.as_str());
    push_str(&mut t, " octets)");
    outcome(t, false)
}

/// The answer of `search_knowledge` when nothing is stored.
pub fn search_empty_report() -> (o: ToolOutcome)
    ensures
        outcome_is(o, "(base vide — aucune connaissance sauvegardee)"@, false),
{
    outcome("(base vide — aucune connaissance sauvegardee)".to_owned(), false)
}

/// Characters of an entry's content shown in search results.
pub const SNIPPET_CHARS: usize = 400;

/// One search result: id, score (as written by the caller), title, tags
/// ("(aucun)" when none) and the first 400 characters of the content, with
/// "..." when there is more.
pub open spec fn search_hit_spec(id: i64, score: Seq<char>, title: Seq<char>, tags: Seq<char>, content: Seq<char>) -> Seq<char> {
    "#"@ + signed_decimal(id as int) + " [score "@ + score + "] "@ + title + "\n  tags: "@ + (if tags.len()
        == 0 {
        "(aucun)"@
    } else {
        tags
    }) + "\n  "@ + take_chars_spec(content, SNIPPET_CHARS as nat) + (if content.len() > SNIPPET_CHARS {
        "..."@
    } else {
        Seq::empty()
    }) + "\n\n"@
}

/// Appends one search result to the answer being written.
pub fn push_search_hit(out: &mut String, id: i64, score: &str, title: &str, tags: &str, content: &str)
    ensures
        final(out)@ == old(out)@ + search_hit_spec(id, score@, title@, tags@, content@),
{
    push_str(out, "#");
    let a = decimal_i64(id);
    push_str(out, a.as_str());
    push_str(out, " [score ");
    push_str(out, score);
    push_str(out, "] ");
    push_str(out, title);
    push_str(out, "\n  tags: ");
    if tags.unicode_len() == 0 {
        push_str(out, "(aucun)");
    } else {
        push_str(out, tags);
    }
    push_str(out, "\n  ");
    let snippet = take_chars(content, SNIPPET_CHARS);
    push_str(out, snippet.as_str());
    if content.unicode_len() > SNIPPET_CHARS {
        push_str(out, "...");
    }
    push_str(out, "\n\n");
    assert(out@ =~= old(out)@ + search_hit_spec(id, score@, title@, tags@, content@));
}

/// A stored entry as listed: id, title and tags.
pub struct KnowledgeRow {
    pub id: i64,
    pub title: String,
    pub tags: String,
}

/// The line `list_knowledge` gives an entry ("aucun tag" when it has none).
pub open spec fn knowledge_line(r: KnowledgeRow) -> Seq<char> {
    "#"@ + signed_decimal(r.id as int) + " — "@ + r.title@ + " ["@ + (if r.tags@.len() == 0 {
        "aucun tag"@
    } else {
        r.tags@
    }) + "]\n"@
}

/// Lines of the first `k` entries.
pub open spec fn knowledge_lines(rows: Seq<KnowledgeRow>, k: int) -> Seq<char>
    decreases k,
{
    if k <= 0 {
        Seq::empty()
    } else {
        knowledge_lines(rows, k - 1) + knowledge_line(rows[k - 1])
    }
}

/// What `list_knowledge` answers for the entries found.
pub open spec fn knowledge_list_spec(rows: Seq<KnowledgeRow>) -> Seq<char> {
    if rows.len() == 0 {
        "(aucune entree)"@
    } else {
        decimal(rows.len()) + " entree(s) :\n"@ + knowledge_lines(rows, rows.len() as int)
    }
}

/// The answer of `list_knowledge` for the entries found (never an error).
pub fn knowledge_list_report(rows: &Vec<KnowledgeRow>) -> (o: ToolOutcome)
    ensures
        outcome_is(o, knowledge_list_spec(rows@), false),
{
    if rows.len() == 0 {
        return outcome("(aucune entree)".to_owned(), false);
    }
    let mut t = decimal_usize(rows.len());
    push_str(&mut t, " entree(s) :\n");
    let ghost head = t@;
    let mut i: usize = 0;
    while i < rows.len()
        invariant
            i <= rows@.len(),
            t@ == head + knowledge_lines(rows@, i as int),
        decreases rows.len() - i,
    {
        let r = &rows[i];
        let ghost before = t@;
        push_str(&mut t, "#");
        let a = decimal_i64(r.id);
        push_str(&mut t, a.as_str());
        push_str(&mut t, " — ");
        push_str(&mut t, r.title.as_str());
        push_str(&mut t, " [");
        if r.tags.as_str().unicode_len() == 0 {
            push_str(&mut t, "aucun tag");
        } else {
            push_str(&mut t, r.tags.as_str());
        }
        push_str(&mut t, "]\n");
        assert(t@ =~= before + knowledge_line(rows@[i as int]));
        i = i + 1;
    }
    outcome(t, false)
}

/// The answer of `delete_knowledge` once `deleted` entries with id `id` are gone.
pub fn delete_report(id: i64, deleted: usize) -> (o: ToolOutcome)
    ensures
        deleted == 0 ==> outcome_is(o, "#"@ + signed_decimal(id as int) + " introuvable"@, true),
        deleted > 0 ==> outcome_is(
            o,
            "OK — "@ + decimal(deleted as nat) + " entree(s) supprimee(s) (#"@ + signed_decimal(id as int)
                + ") "@,
            false,
        ),
{
    let a = decimal_i64(id);
    if deleted == 0 {
        let mut t = "#".to_owned();
        push_str(&mut t, a.as_str());
        push_str(&mut t, " introuvable");
        outcome(t, true)
    } else {
        let mut t = "OK — ".to_owned();
        let d = decimal_usize(deleted);
        push_str(&mut t, d.as_str());
        push_str(&mut t, " entree(s) supprimee(s) (#");
        push_str(&mut t, a.as_str());
        push_str(&mut t, ") ");
        outcome(t, false)
    }
}

} // verus!
