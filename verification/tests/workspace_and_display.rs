use test_egui_chat::chat::{ModelInfo, Role, ToolCallInfo};
use test_egui_chat::display::{
    budget_label, cut_bytes, flags_preview, flow_answer_label, flow_count_label, flow_log,
    flow_result_label, flow_tool_label, flow_user_label, model_entry_label, persona_title,
    reasoning_and_answer, reasoning_header, result_header, sender_label, short_model_name,
    system_badge_tooltip, tool_call_title,
};
use test_egui_chat::listing::TreeEntry;
use test_egui_chat::server::parse_models;
use test_egui_chat::session::ChatSession;
use test_egui_chat::settings::{default_settings, read_settings, settings_json, StoredSettings};
use test_egui_chat::text::is_blank;
use test_egui_chat::tools::{creates_folders, parse_tool_call};
use test_egui_chat::workspace::{
    access_error, check_access, compose_system_prompt, is_within, jail_check, system_message,
    tools_active, workdir_context, workspace_root_text, AccessFailure, Confirmation,
    ProjectMarkers, ResolvedPath, TreeSearch, WorkdirChoice, extend_missing, TailPart,
};

#[test]
fn workspace_root_rules() {
    assert_eq!(workspace_root_text("   "), None);
    assert_eq!(workspace_root_text(" h: ").as_deref(), Some("h:\\"));
    assert_eq!(workspace_root_text("Z:").as_deref(), Some("Z:\\"));
    assert_eq!(workspace_root_text("1:").as_deref(), Some("1:"));
    assert_eq!(workspace_root_text(" /home/u ").as_deref(), Some("/home/u"));
}

fn entry(name: &str, path: &str, is_dir: bool) -> TreeEntry {
    TreeEntry { name: name.to_string(), path: path.to_string(), is_dir, size: 0, truncated: false }
}

#[test]
fn search_breadth_first_with_limits() {
    let mut s = TreeSearch::new("/r", "READ", 2, 10);
    let (dir, depth) = s.next_dir().unwrap();
    assert_eq!(dir, "/r");
    assert_eq!(depth, 0);
    s.visit(0, entry("readme.md", "/r/readme.md", false));
    s.visit(0, entry("docs", "/r/docs", true));
    s.visit(0, entry("x.txt", "/r/x.txt", false));
    let (dir, depth) = s.next_dir().unwrap();
    assert_eq!(dir, "/r/docs");
    assert_eq!(depth, 1);
    // depth 1 + 1 is not below 2: sub-folders are not queued
    s.visit(1, entry("reader", "/r/docs/reader", true));
    assert!(s.next_dir().is_none());
    let found: Vec<String> = s.into_results().into_iter().map(|e| e.name).collect();
    assert_eq!(found, vec!["readme.md".to_string(), "reader".to_string()]);
}

#[test]
fn search_stops_at_result_limit() {
    let mut s = TreeSearch::new("/r", "a", 6, 1);
    s.next_dir().unwrap();
    s.visit(0, entry("a1", "/r/a1", true));
    assert!(s.is_full());
    s.visit(0, entry("a2", "/r/a2", false));
    assert!(s.next_dir().is_none());
    assert_eq!(s.into_results().len(), 1);
}

#[test]
fn workdir_summary() {
    let markers = ProjectMarkers {
        cargo_toml: true,
        package_json: false,
        requirements_txt: false,
        pyproject_toml: true,
        venv: true,
    };
    let entries = vec![
        ("src".to_string(), true),
        ("_thought_flow.md".to_string(), false),
        ("Cargo.toml".to_string(), false),
    ];
    assert_eq!(
        workdir_context("/w", &markers, &entries),
        "\n\n[Contexte workdir IA]\nWorkdir: /w\nProjet Rust (Cargo.toml)\nProjet Python (pyproject.toml)\nvenv detecte\nContenu: src/, Cargo.toml"
    );
    let none = ProjectMarkers {
        cargo_toml: false,
        package_json: false,
        requirements_txt: false,
        pyproject_toml: false,
        venv: false,
    };
    assert_eq!(workdir_context("/e", &none, &vec![]), "\n\n[Contexte workdir IA]\nWorkdir: /e");
}

#[test]
fn workdir_summary_names_fifteen_entries() {
    let none = ProjectMarkers {
        cargo_toml: false,
        package_json: false,
        requirements_txt: false,
        pyproject_toml: false,
        venv: false,
    };
    let entries: Vec<(String, bool)> = (0..20).map(|i| (format!("f{}", i), false)).collect();
    let text = workdir_context("/w", &none, &entries);
    assert!(text.ends_with("f13, f14"));
    assert!(!text.contains("f15"));
}

#[test]
fn system_prompt_composition() {
    assert!(tools_active(true, "/w"));
    assert!(!tools_active(true, "  "));
    assert!(!tools_active(false, "/w"));
    assert_eq!(compose_system_prompt("Be brief.", Some("\n\nctx")), "Be brief.\n\nctx");
    assert_eq!(compose_system_prompt("x", None), "x");
    assert_eq!(system_message("  "), None);
    assert_eq!(system_message("role").as_deref(), Some("role"));
}

fn comps(parts: &[&str]) -> Vec<Vec<u8>> {
    parts.iter().map(|p| p.as_bytes().to_vec()).collect()
}

#[test]
fn jail_by_components() {
    assert!(is_within(&comps(&["/", "w", "a.txt"]), &comps(&["/", "w"])));
    assert!(is_within(&comps(&["/", "w"]), &comps(&["/", "w"])));
    assert!(!is_within(&comps(&["/", "wx", "a"]), &comps(&["/", "w"])));
    assert!(!is_within(&comps(&["/"]), &comps(&["/", "w"])));
    let ok = jail_check(&comps(&["/", "w", "f"]), "/w/f", &comps(&["/", "w"]), "/w");
    assert_eq!(ok.ok().unwrap(), "/w/f");
    let refused = jail_check(&comps(&["/", "etc"]), "/etc", &comps(&["/", "w"]), "/w");
    assert_eq!(
        access_error(&refused.err().unwrap()),
        "ACCES REFUSE : /etc est hors du workdir /w"
    );
}

fn resolved(parts: &[&str], text: &str) -> ResolvedPath {
    ResolvedPath { components: comps(parts), text: text.to_string() }
}

#[test]
fn access_checks_in_order() {
    let no_wd = check_access(false, Ok(resolved(&["/"], "/")), Ok(resolved(&["/"], "/")));
    assert_eq!(
        access_error(&no_wd.err().unwrap()),
        "Aucun workdir IA defini. Definissez-en un (clic droit dans l'arborescence)."
    );
    let bad_wd = check_access(true, Err("gone".to_string()), Err(AccessFailure::NoParent));
    assert_eq!(access_error(&bad_wd.err().unwrap()), "workdir invalide: gone");
    let no_parent = check_access(true, Ok(resolved(&["/", "w"], "/w")), Err(AccessFailure::NoParent));
    assert_eq!(access_error(&no_parent.err().unwrap()), "chemin invalide: pas de parent");
    let granted = check_access(true, Ok(resolved(&["/", "w"], "/w")), Ok(resolved(&["/", "w", "n"], "/w/n")));
    assert_eq!(granted.ok().unwrap(), "/w/n");
    assert_eq!(access_error(&AccessFailure::BadParent("x".to_string())), "parent invalide: x");
    assert_eq!(access_error(&AccessFailure::BadPath("y".to_string())), "chemin invalide: y");
    assert_eq!(access_error(&AccessFailure::NoFileName), "chemin invalide: pas de nom de fichier");
}

#[test]
fn workdir_choice_flow() {
    let mut c = WorkdirChoice { current: String::new(), pending: None };
    assert_eq!(c.current_label(), "(aucun)");
    c.right_click("/p");
    assert_eq!(c.pending.as_deref(), Some("/p"));
    c.confirm(Confirmation::No);
    assert!(c.pending.is_none());
    assert_eq!(c.current, "");
    c.right_click("/p");
    c.confirm(Confirmation::Yes);
    assert_eq!(c.current, "/p");
    assert!(c.is_workdir("/p"));
    assert_eq!(c.current_label(), "/p");
    c.right_click("/p");
    assert_eq!(c.current, "");
}

#[test]
fn settings_defaults_and_reading() {
    let d = default_settings();
    assert!(d.show_predictor && d.show_syco && d.show_file_tree && d.reasoning_default);
    assert!(!d.tools_enabled);
    assert_eq!(d.max_tokens_default, 0);
    let missing = read_settings("");
    assert!(missing.show_predictor && !missing.tools_enabled);
    assert_eq!(missing.seed, None);
    let s = read_settings(
        "{\"show_syco\":false,\"workspace_path\":\"/ws\",\"ai_workdir\":7,\"max_tokens_default\":4096,\"seed\":-3,\"tools_enabled\":true}",
    );
    assert!(!s.show_syco);
    assert!(s.show_predictor);
    assert_eq!(s.workspace_path, "/ws");
    assert_eq!(s.ai_workdir, "");
    assert_eq!(s.max_tokens_default, 4096);
    assert_eq!(s.seed, Some(-3));
    assert!(s.tools_enabled);
    let wide = read_settings("{\"max_tokens_default\":4294967297}");
    assert_eq!(wide.max_tokens_default, 1);
}

#[test]
fn server_model_list() {
    let body = "{\"models\":[{\"type\":\"llm\",\"key\":\"a\",\"loaded_instances\":[]},{\"type\":\"embedding\",\"key\":\"e\"},{\"type\":\"llm\",\"key\":\"b\",\"loaded_instances\":[{\"id\":1}]},{\"type\":\"llm\"}]}";
    let ms = parse_models(body);
    let got: Vec<(String, bool)> = ms.into_iter().map(|m| (m.id, m.loaded)).collect();
    assert_eq!(got, vec![("a".to_string(), false), ("b".to_string(), true)]);
    assert!(parse_models("oops").is_empty());
    assert!(parse_models("{\"models\":{}}").is_empty());
}

#[test]
fn byte_cuts() {
    assert_eq!(cut_bytes("short", 10, 10, "..."), "short");
    assert_eq!(cut_bytes("abcdefgh", 4, 4, "..."), "abcd...");
    assert_eq!(cut_bytes("ééé", 4, 4, ""), "éé");
    assert_eq!(result_header(&"r".repeat(61)), format!("Resultat : {}...", "r".repeat(60)));
    assert_eq!(result_header("fine"), "Resultat : fine");
    assert_eq!(short_model_name(&"m".repeat(31)), format!("{}…", "m".repeat(29)));
    assert_eq!(short_model_name(&"m".repeat(30)), "m".repeat(30));
}

#[test]
fn message_labels() {
    assert_eq!(sender_label(Role::User, &Some("x".to_string())), "Toi");
    assert_eq!(sender_label(Role::Assistant, &Some("qwen".to_string())), "qwen");
    assert_eq!(sender_label(Role::Assistant, &None), "Bot");
    assert_eq!(reasoning_header("héllo"), "🧠 Raisonnement  (5 chars)");
    assert_eq!(tool_call_title("list_dir", false), "🔧 list_dir ✅");
    assert_eq!(tool_call_title("x", true), "🔧 x ❌");
    assert_eq!(
        reasoning_and_answer("r", "c"),
        "--- RAISONNEMENT ---\nr\n\n--- REPONSE ---\nc"
    );
    assert_eq!(model_entry_label("m", true), "●  m");
    assert_eq!(model_entry_label("m", false), "○  m");
    assert_eq!(budget_label(0, 2048), "Auto (2048)");
    assert_eq!(budget_label(512, 2048), "512");
    assert_eq!(persona_title("", true), "🎩 Ton system prompt (inactif)");
    assert_eq!(persona_title("abc", false), "🎩 Ton system prompt (3 chars, actif)");
}

#[test]
fn badge_tooltip() {
    assert_eq!(
        system_badge_tooltip("a\nb"),
        "System prompt actif (3 chars) :\n\na b"
    );
    let long = "x".repeat(81);
    assert_eq!(
        system_badge_tooltip(&long),
        format!("System prompt actif (81 chars) :\n\n{}...", "x".repeat(80))
    );
}

#[test]
fn flag_previews() {
    let few = vec!["a".to_string(), "b".to_string()];
    assert_eq!(flags_preview(&few), "→ a, b");
    let many: Vec<String> = (1..=7).map(|i| i.to_string()).collect();
    assert_eq!(flags_preview(&many), "→ 1, 2, 3, 4, 5 +2");
}

#[test]
fn flow_panel_texts() {
    assert_eq!(flow_user_label("question"), "User: question");
    assert_eq!(flow_user_label(&"q".repeat(45)), format!("User: {}", "q".repeat(40)));
    assert_eq!(flow_answer_label(""), "(en cours...)");
    assert_eq!(flow_answer_label(&"a".repeat(55)), format!("{}...", "a".repeat(50)));
    assert_eq!(flow_tool_label("read_file", true), "read_file X");
    assert_eq!(flow_tool_label("read_file", false), "read_file OK");
    assert_eq!(flow_result_label("first line\nsecond"), "first line");
    assert_eq!(flow_result_label(""), "");
    assert_eq!(flow_count_label(2), "2 tool calls");
}

#[test]
fn flow_debug_log() {
    let calls = vec![ToolCallInfo {
        id: "1".to_string(),
        name: "list_dir".to_string(),
        arguments: "{}".to_string(),
        result: "r".repeat(801),
        is_error: false,
    }];
    let log = flow_log("q", &calls, "answer");
    let expected = format!(
        "User: q\n\n[1] list_dir ✅\n  args: {{}}\n  result:\n{}\n  ... (tronque a 800 chars)\n\n---\nResponse:\nanswer\n",
        "r".repeat(800)
    );
    assert_eq!(log, expected);
}

fn parent_refusal() -> AccessFailure {
    AccessFailure::BadParent("No such file or directory (os error 2)".to_string())
}

#[test]
fn missing_folders_resolve_inside_the_workdir() {
    let base = comps(&["/", "w"]);
    let tail = vec![
        TailPart::Name(b"sub".to_vec()),
        TailPart::Current,
        TailPart::Name(b"f.txt".to_vec()),
    ];
    let got = extend_missing(true, &base, &tail, parent_refusal()).ok().unwrap();
    assert_eq!(got, comps(&["/", "w", "sub", "f.txt"]));
    let granted = check_access(
        true,
        Ok(resolved(&["/", "w"], "/w")),
        Ok(ResolvedPath { components: got, text: "/w/sub/f.txt".to_string() }),
    );
    assert_eq!(granted.ok().unwrap(), "/w/sub/f.txt");
    let climbing = vec![
        TailPart::Name(b"sub".to_vec()),
        TailPart::Parent,
        TailPart::Name(b"x".to_vec()),
    ];
    let refused = extend_missing(true, &base, &climbing, parent_refusal()).err().unwrap();
    assert_eq!(access_error(&refused), "parent invalide: No such file or directory (os error 2)");
    let no_name = extend_missing(true, &base, &vec![], parent_refusal()).err().unwrap();
    assert_eq!(access_error(&no_name), "parent invalide: No such file or directory (os error 2)");
}

#[test]
fn missing_parent_refused_for_readers() {
    let base = comps(&["/", "w"]);
    let tail = vec![TailPart::Name(b"sub".to_vec()), TailPart::Name(b"f.txt".to_vec())];
    let refused = extend_missing(false, &base, &tail, parent_refusal()).err().unwrap();
    assert_eq!(access_error(&refused), "parent invalide: No such file or directory (os error 2)");
    assert!(creates_folders(&parse_tool_call("write_file", "{\"path\":\"a\",\"content\":\"\"}")));
    assert!(creates_folders(&parse_tool_call("make_dir", "{\"path\":\"a\"}")));
    assert!(!creates_folders(&parse_tool_call("list_dir", "{\"path\":\"a\"}")));
    assert!(!creates_folders(&parse_tool_call("read_file", "{\"path\":\"a\"}")));
    assert!(!creates_folders(&parse_tool_call("edit_file", "{\"path\":\"a\",\"old_string\":\"o\"}")));
}

#[test]
fn picking_a_model() {
    let mut s = ChatSession::new();
    s.available = vec![
        ModelInfo { id: "a".to_string(), loaded: false },
        ModelInfo { id: "b".to_string(), loaded: true },
    ];
    assert!(!s.pick_model("b"));
    assert_eq!(s.model, "b");
    assert!(s.pick_model("a"));
    assert_eq!(s.model, "b");
    assert!(!s.pick_model("zzz"));
    assert_eq!(s.model, "b");
}

#[test]
fn whitespace_matches_unicode() {
    for u in 0..0x11_0000u32 {
        if let Some(c) = char::from_u32(u) {
            let s = c.to_string();
            assert_eq!(is_blank(&s), c.is_whitespace(), "U+{:04X}", u);
        }
    }
}

fn same_settings(a: &StoredSettings, b: &StoredSettings) -> bool {
    a.show_predictor == b.show_predictor
        && a.show_syco == b.show_syco
        && a.show_file_tree == b.show_file_tree
        && a.workspace_path == b.workspace_path
        && a.ai_workdir == b.ai_workdir
        && a.reasoning_default == b.reasoning_default
        && a.max_tokens_default == b.max_tokens_default
        && a.seed == b.seed
        && a.tools_enabled == b.tools_enabled
}

#[test]
fn settings_read_back_as_written() {
    let s = StoredSettings {
        show_predictor: false,
        show_syco: true,
        show_file_tree: false,
        workspace_path: "C:\\proj \"x\"/é~1".to_string(),
        ai_workdir: "/tmp/w\n".to_string(),
        reasoning_default: false,
        max_tokens_default: u32::MAX,
        seed: Some(i64::MIN),
        tools_enabled: true,
    };
    let text = settings_json(&s);
    assert!(same_settings(&read_settings(&text), &s));
    let d = default_settings();
    assert!(same_settings(&read_settings(&settings_json(&d)), &d));
    assert!(text.contains("\"seed\":-9223372036854775808"));
}
