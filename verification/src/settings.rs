//! The saved settings (a JSON file): every field has a default that is used
//! when the file, or the field, is missing or of another type. The sampling
//! parameters, which are floating-point numbers, are read beside these.

use vstd::prelude::*;
use crate::chat::opt_view;
use crate::json::{
    json_bool_at, json_i64_at, json_object_text, json_str_at, json_u64_at, plain_distinct_keys, plain_key,
    reads_back, spec_json_bool_at, spec_json_i64_at, spec_json_str_at, spec_json_u64_at, JsonScalar,
};
use crate::tools::or_default;

verus! {

/// The settings kept between sessions (sampling parameters apart).
pub struct StoredSettings {
    pub show_predictor: bool,
    pub show_syco: bool,
    pub show_file_tree: bool,
    /// Root of the file tree ("" = the program's folder).
    pub workspace_path: String,
    /// The model's working folder ("" = none).
    pub ai_workdir: String,
    pub reasoning_default: bool,
    /// 0 = automatic budget.
    pub max_tokens_default: u32,
    pub seed: Option<i64>,
    pub tools_enabled: bool,
}

/// The settings of a fresh install.
pub open spec fn is_default_settings(s: StoredSettings) -> bool {
    &&& s.show_predictor
    &&& s.show_syco
    &&& s.show_file_tree
    &&& s.workspace_path@.len() == 0
    &&& s.ai_workdir@.len() == 0
    &&& s.reasoning_default
    &&& s.max_tokens_default == 0
    &&& s.seed is None
    &&& !s.tools_enabled
}

/// The settings of a fresh install.
pub fn default_settings() -> (s: StoredSettings)
    ensures
        is_default_settings(s),
{
    StoredSettings {
        show_predictor: true,
        show_syco: true,
        show_file_tree: true,
        workspace_path: String::new(),
        ai_workdir: String::new(),
        reasoning_default: true,
        max_tokens_default: 0,
        seed: None,
        tools_enabled: false,
    }
}

/// A boolean field, or its default.
pub open spec fn bool_or(o: Option<bool>, d: bool) -> bool {
    match o {
        Some(b) => b,
        None => d,
    }
}

/// What the settings file `text` holds, each field read at its key.
pub open spec fn settings_read_from(s: StoredSettings, text: Seq<char>) -> bool {
    &&& s.show_predictor == bool_or(spec_json_bool_at(text, "/show_predictor"@), true)
    &&& s.show_syco == bool_or(spec_json_bool_at(text, "/show_syco"@), true)
    &&& s.show_file_tree == bool_or(spec_json_bool_at(text, "/show_file_tree"@), true)
    &&& s.workspace_path@ == or_default(spec_json_str_at(text, "/workspace_path"@), ""@)
    &&& s.ai_workdir@ == or_default(spec_json_str_at(text, "/ai_workdir"@), ""@)
    &&& s.reasoning_default == bool_or(spec_json_bool_at(text, "/reasoning_default"@), true)
    &&& s.max_tokens_default == (match spec_json_u64_at(text, "/max_tokens_default"@) {
        Some(n) => n,
        None => 0,
    }) as u32
    &&& s.seed == spec_json_i64_at(text, "/seed"@)
    &&& s.tools_enabled == bool_or(spec_json_bool_at(text, "/tools_enabled"@), false)
}

fn read_bool(text: &str, key: &str, d: bool) -> (b: bool)
    ensures
        b == bool_or(spec_json_bool_at(text@, key@), d),
{
    match json_bool_at(text, key) {
        Some(b) => b,
        None => d,
    }
}

fn read_text(text: &str, key: &str) -> (t: String)
    ensures
        t@ == or_default(spec_json_str_at(text@, key@), ""@),
{
    match json_str_at(text, key) {
        Some(t) => t,
        None => "".to_owned(),
    }
}

/// Reads the settings file's text (a missing file reads as "", which is
/// no JSON, so every field takes its default).
pub fn read_settings(text: &str) -> (s: StoredSettings)
    ensures
        settings_read_from(s, text@),
{
    let max_tokens = match json_u64_at(text, "/max_tokens_default") {
        Some(n) => n,
        None => 0,
    };
    StoredSettings {
        show_predictor: read_bool(text, "/show_predictor", true),
        show_syco: read_bool(text, "/show_syco", true),
        show_file_tree: read_bool(text, "/show_file_tree", true),
        workspace_path: read_text(text, "/workspace_path"),
        ai_workdir: read_text(text, "/ai_workdir"),
        reasoning_default: read_bool(text, "/reasoning_default", true),
        max_tokens_default: max_tokens as u32,
        seed: json_i64_at(text, "/seed"),
        tools_enabled: read_bool(text, "/tools_enabled", false),
    }
}

/// The settings text `text` holds `s`: each field reads back at its key,
/// an absent seed as `null`.
pub open spec fn settings_written(s: StoredSettings, text: Seq<char>) -> bool {
    &&& spec_json_bool_at(text, "/show_predictor"@) == Some(s.show_predictor)
    &&& spec_json_bool_at(text, "/show_syco"@) == Some(s.show_syco)
    &&& spec_json_bool_at(text, "/show_file_tree"@) == Some(s.show_file_tree)
    &&& spec_json_str_at(text, "/workspace_path"@) == Some(s.workspace_path@)
    &&& spec_json_str_at(text, "/ai_workdir"@) == Some(s.ai_workdir@)
    &&& spec_json_bool_at(text, "/reasoning_default"@) == Some(s.reasoning_default)
    &&& spec_json_u64_at(text, "/max_tokens_default"@) == Some(s.max_tokens_default as u64)
    &&& spec_json_i64_at(text, "/seed"@) == s.seed
    &&& spec_json_bool_at(text, "/tools_enabled"@) == Some(s.tools_enabled)
}

fn key(k: &str) -> (t: String)
    ensures
        t@ == k@,
{
    k.to_owned()
}

/// The settings file's text for `s` (sampling parameters apart): a JSON
/// object with one key per field.
pub fn settings_json(s: &StoredSettings) -> (t: String)
    ensures
        settings_written(*s, t@),
{
    let seed = match s.seed {
        Some(n) => JsonScalar::Signed(n),
        None => JsonScalar::Null,
    };
    let mut entries: Vec<(String, JsonScalar)> = Vec::new();
    entries.push((key("show_predictor"), JsonScalar::Bool(s.show_predictor)));
    entries.push((key("show_syco"), JsonScalar::Bool(s.show_syco)));
    entries.push((key("show_file_tree"), JsonScalar::Bool(s.show_file_tree)));
    entries.push((key("workspace_path"), JsonScalar::Text(s.workspace_path.clone())));
    entries.push((key("ai_workdir"), JsonScalar::Text(s.ai_workdir.clone())));
    entries.push((key("reasoning_default"), JsonScalar::Bool(s.reasoning_default)));
    entries.push((key("max_tokens_default"), JsonScalar::Unsigned(s.max_tokens_default as u64)));
    entries.push((key("seed"), seed));
    entries.push((key("tools_enabled"), JsonScalar::Bool(s.tools_enabled)));
    proof {
        reveal_strlit("show_predictor");
        reveal_strlit("show_syco");
        reveal_strlit("show_file_tree");
        reveal_strlit("workspace_path");
        reveal_strlit("ai_workdir");
        reveal_strlit("reasoning_default");
        reveal_strlit("max_tokens_default");
        reveal_strlit("seed");
        reveal_strlit("tools_enabled");
        reveal_strlit("/show_predictor");
        reveal_strlit("/show_syco");
        reveal_strlit("/show_file_tree");
        reveal_strlit("/workspace_path");
        reveal_strlit("/ai_workdir");
        reveal_strlit("/reasoning_default");
        reveal_strlit("/max_tokens_default");
        reveal_strlit("/seed");
        reveal_strlit("/tools_enabled");
        reveal_strlit("/");
        let keys = seq![
            "show_predictor"@, "show_syco"@, "show_file_tree"@, "workspace_path"@, "ai_workdir"@,
            "reasoning_default"@, "max_tokens_default"@, "seed"@, "tools_enabled"@,
        ];
        assert(entries@.len() == 9);
        assert forall|i: int| 0 <= i < 9 implies #[trigger] entries@[i].0@ == keys[i] by {}
        assert forall|i: int| 0 <= i < 9 implies plain_key(#[trigger] keys[i]) by {}
        assert forall|i: int, j: int| 0 <= i < j < 9 implies #[trigger] keys[i] != #[trigger] keys[j] by {
            if keys[i] == keys[j] {
                assert(keys[i].len() == keys[j].len());
                assert(keys[i][0] == keys[j][0]);
                assert(keys[i][4] == keys[j][4]);
                assert(keys[i][5] == keys[j][5]);
            }
        }
        assert(plain_distinct_keys(entries@));
    }
    let t = json_object_text(&entries);
    proof {
        assert(reads_back(t@, entries@[0]));
        assert(reads_back(t@, entries@[1]));
        assert(reads_back(t@, entries@[2]));
        assert(reads_back(t@, entries@[3]));
        assert(reads_back(t@, entries@[4]));
        assert(reads_back(t@, entries@[5]));
        assert(reads_back(t@, entries@[6]));
        assert(reads_back(t@, entries@[7]));
        assert(reads_back(t@, entries@[8]));
        assert("/"@ + "show_predictor"@ =~= "/show_predictor"@);
        assert("/"@ + "show_syco"@ =~= "/show_syco"@);
        assert("/"@ + "show_file_tree"@ =~= "/show_file_tree"@);
        assert("/"@ + "workspace_path"@ =~= "/workspace_path"@);
        assert("/"@ + "ai_workdir"@ =~= "/ai_workdir"@);
        assert("/"@ + "reasoning_default"@ =~= "/reasoning_default"@);
        assert("/"@ + "max_tokens_default"@ =~= "/max_tokens_default"@);
        assert("/"@ + "seed"@ =~= "/seed"@);
        assert("/"@ + "tools_enabled"@ =~= "/tools_enabled"@);
    }
    t
}

/// Settings read back as they were written: reading the text that holds
/// `s` gives `s` in every field.
pub proof fn law_settings_read_back(s: StoredSettings, text: Seq<char>, r: StoredSettings)
    requires
        settings_written(s, text),
        settings_read_from(r, text),
    ensures
        r.show_predictor == s.show_predictor,
        r.show_syco == s.show_syco,
        r.show_file_tree == s.show_file_tree,
        r.workspace_path@ == s.workspace_path@,
        r.ai_workdir@ == s.ai_workdir@,
        r.reasoning_default == s.reasoning_default,
        r.max_tokens_default == s.max_tokens_default,
        r.seed == s.seed,
        r.tools_enabled == s.tools_enabled,
{
}

} // verus!
