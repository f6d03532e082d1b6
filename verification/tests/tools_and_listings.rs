use test_egui_chat::listing::{finish_listing, TreeEntry};
use test_egui_chat::tools::{
    command_line, command_report, delete_report, edit_report, error_report, failure_report,
    knowledge_list_report, listing_report, make_dir_report, parse_tool_call, plan_edit, precheck,
    push_search_hit, read_report, read_window_is_valid, saved_report, search_empty_report,
    size_guard, timeout_report, tool_catalog, write_report, Failure, FileAction, FileStep, KnowledgeRow,
    ToolRequest, file_step,
};
use test_egui_chat::workspace::{check_access, ResolvedPath};

fn entry(name: &str, is_dir: bool, size: u64) -> TreeEntry {
    TreeEntry {
        name: name.to_string(),
        path: format!("/w/{}", name),
        is_dir,
        size,
        truncated: false,
    }
}

#[test]
fn list_dir_filters_thought_flow_artifacts() {
    let entries = vec![
        entry("_thought_flow.md", false, 1),
        entry("_thought_flow.html", false, 1),
        entry("normal.md", false, 1),
        entry("_thought_flow_backup.md", false, 1),
        entry("src", true, 0),
    ];
    let listed = finish_listing(&entries, entries.len(), 200, "/w");
    let report = listing_report(&listed);
    assert!(!report.is_error);
    assert!(report.text.contains("[file] normal.md (1 B)"));
    assert!(report.text.contains("[dir]  src"));
    assert!(report.text.contains("_thought_flow_backup.md"));
    assert!(!report.text.contains("_thought_flow.md"));
    assert!(!report.text.contains("_thought_flow.html"));
}

#[test]
fn listing_order_and_marker() {
    let entries = vec![
        entry("b.txt", false, 2048),
        entry("Zeta", true, 0),
        entry("a.txt", false, 5),
        entry("alpha", true, 0),
    ];
    let out = finish_listing(&entries, 7, 4, "/w");
    let names: Vec<&str> = out.iter().map(|e| e.name.as_str()).collect();
    assert_eq!(names, vec!["alpha", "Zeta", "a.txt", "b.txt", "… (3 autres)"]);
    assert!(out[4].truncated);
    assert_eq!(out[4].path, "/w");
    let report = listing_report(&out);
    assert_eq!(
        report.text,
        "[dir]  alpha\n[dir]  Zeta\n[file] a.txt (5 B)\n[file] b.txt (2.0 KB)\n… (3 autres)\n"
    );
}

#[test]
fn listing_empty_folder() {
    let out = finish_listing(&vec![], 0, 200, "/w");
    assert!(out.is_empty());
    let r = listing_report(&out);
    assert_eq!(r.text, "(vide ou inaccessible)");
    assert!(!r.is_error);
    let only_flow = vec![entry("_thought_flow.md", false, 3)];
    assert_eq!(listing_report(&only_flow).text, "(vide ou inaccessible)");
}

#[test]
fn parse_calls() {
    assert!(matches!(parse_tool_call("list_dir", "{}"), ToolRequest::ListDir { path } if path == "."));
    match parse_tool_call("read_file", "{\"path\":\"a.txt\",\"start_line\":2}") {
        ToolRequest::ReadFile { path, start_line, end_line } => {
            assert_eq!(path, "a.txt");
            assert_eq!(start_line, Some(2));
            assert_eq!(end_line, None);
        }
        _ => panic!("read_file expected"),
    }
    assert!(matches!(parse_tool_call("search_knowledge", "{\"query\":\"q\",\"limit\":100}"), ToolRequest::SearchKnowledge { limit: 50, .. }));
    assert!(matches!(parse_tool_call("search_knowledge", "{\"query\":\"q\",\"limit\":0}"), ToolRequest::SearchKnowledge { limit: 1, .. }));
    assert!(matches!(parse_tool_call("search_knowledge", "{\"query\":\"q\"}"), ToolRequest::SearchKnowledge { limit: 5, .. }));
    assert!(matches!(parse_tool_call("list_knowledge", "{\"tag\":\"  x \"}"), ToolRequest::ListKnowledge { tag } if tag == "x"));
    assert!(matches!(parse_tool_call("delete_knowledge", "{\"id\":7}"), ToolRequest::DeleteKnowledge { id: Some(7) }));
    assert!(matches!(parse_tool_call("write_file", "not json"), ToolRequest::WriteFile { path, content } if path.is_empty() && content.is_empty()));
}

#[test]
fn prechecks() {
    let r = precheck(&parse_tool_call("frobnicate", "{}")).unwrap();
    assert_eq!(r.text, "Tool inconnu : frobnicate");
    assert!(r.is_error);
    let e = precheck(&parse_tool_call("edit_file", "{\"path\":\"f\",\"old_string\":\"\"}")).unwrap();
    assert_eq!(e.text, "old_string ne peut pas etre vide");
    let c = precheck(&parse_tool_call("run_command", "{}")).unwrap();
    assert_eq!(c.text, "command ne peut pas etre vide");
    assert_eq!(precheck(&parse_tool_call("save_knowledge", "{\"content\":\"  \"}")).unwrap().text, "content vide");
    assert_eq!(precheck(&parse_tool_call("search_knowledge", "{}")).unwrap().text, "query vide");
    assert_eq!(precheck(&parse_tool_call("delete_knowledge", "{\"id\":\"x\"}")).unwrap().text, "id manquant ou invalide");
    assert!(precheck(&parse_tool_call("list_dir", "{}")).is_none());
}

#[test]
fn catalog_lists_ten_tools() {
    let c = tool_catalog();
    let names: Vec<&str> = c.iter().map(|t| t.name).collect();
    assert_eq!(
        names,
        vec![
            "list_dir", "read_file", "write_file", "make_dir", "edit_file", "run_command",
            "save_knowledge", "search_knowledge", "list_knowledge", "delete_knowledge"
        ]
    );
}

#[test]
fn read_whole_file_and_window() {
    let r = read_report("a\nb\nc", None, None);
    assert_eq!(r.text, "a\nb\nc");
    assert!(!r.is_error);
    assert_eq!(read_report("a\nb\nc", Some(2), None).text, "   2 | b\n   3 | c\n");
    assert_eq!(read_report("a\nb\nc", Some(0), Some(1)).text, "   1 | a\n");
    assert_eq!(read_report("a\nb\nc", Some(9), None).text, "");
    assert!(!read_window_is_valid("a\nb\nc", Some(3), Some(1)));
    assert!(read_window_is_valid("a\nb\nc", Some(3), Some(2)));
    assert!(read_window_is_valid("a\nb\nc", Some(2), Some(2)));
}

#[test]
fn size_guard_limit() {
    assert!(size_guard(1048576).is_none());
    let r = size_guard(2_000_000).unwrap();
    assert_eq!(r.text, "Fichier trop gros (1.9 MB) — max 1 Mo");
    assert!(r.is_error);
}

#[test]
fn edit_counts_without_overlap() {
    assert_eq!(plan_edit("aaa", "aa", "x", "f").ok().unwrap(), "xa");
    let two = plan_edit("abab", "ab", "x", "f").err().unwrap();
    assert_eq!(two.text, "old_string trouvee 2 fois (doit etre unique) dans f");
    assert!(two.is_error);
    let none = plan_edit("abc", "z", "x", "f").err().unwrap();
    assert_eq!(none.text, "old_string introuvable dans f");
    assert_eq!(edit_report("/w/f", "aa").text, "OK — edit applique dans /w/f (2 chars remplaces)");
}

#[test]
fn write_and_make_dir_reports() {
    let w = write_report("héllo", "/w/f.txt");
    assert_eq!(w.text, "OK — 6 octets ecrits dans /w/f.txt");
    assert!(!w.is_error);
    assert_eq!(make_dir_report("/w/d").text, "OK — dossier cree : /w/d");
    assert_eq!(failure_report(Failure::Read, "denied").text, "Erreur lecture : denied");
    assert_eq!(failure_report(Failure::DbDelete, "x").text, "DB delete: x");
    assert!(error_report("nope").is_error);
}

#[test]
fn command_reports() {
    assert_eq!(command_line("dir"), "chcp 65001 >nul & dir");
    let ok = command_report(b"hi", b"", 0);
    assert_eq!(ok.text, "hi\n[exit 0]");
    assert!(!ok.is_error);
    let silent = command_report(b"", b"", 1);
    assert_eq!(silent.text, "(pas de sortie, exit code 1)");
    assert!(silent.is_error);
    let both = command_report(b"out", b"err", 2);
    assert_eq!(both.text, "out\n[stderr] err\n[exit 2]");
    let only_err = command_report(b"", b"caf\xe9", -1);
    assert_eq!(only_err.text, "[stderr] café\n[exit -1]");
    let t = timeout_report();
    assert!(t.is_error);
    assert!(t.text.starts_with("TIMEOUT (30s)"));
}

#[test]
fn long_output_is_cut() {
    let big = vec![b'x'; 10_001];
    let r = command_report(&big, b"", 0);
    let expected = format!("{}\n... (tronque a 10KB)\n[exit 0]", "x".repeat(10_000));
    assert_eq!(r.text, expected);
}

#[test]
fn knowledge_reports() {
    assert_eq!(saved_report(3, 768, "abc").text, "OK — #3 sauvegarde (768 dims, 3 octets)");
    assert_eq!(search_empty_report().text, "(base vide — aucune connaissance sauvegardee)");
    let mut out = String::new();
    push_search_hit(&mut out, 1, "0.900", "T", "", "body");
    assert_eq!(out, "#1 [score 0.900] T\n  tags: (aucun)\n  body\n\n");
    let rows = vec![
        KnowledgeRow { id: 2, title: "b".to_string(), tags: "".to_string() },
        KnowledgeRow { id: 1, title: "a".to_string(), tags: "x,y".to_string() },
    ];
    assert_eq!(
        knowledge_list_report(&rows).text,
        "2 entree(s) :\n#2 — b [aucun tag]\n#1 — a [x,y]\n"
    );
    assert_eq!(knowledge_list_report(&vec![]).text, "(aucune entree)");
    let gone = delete_report(5, 0);
    assert_eq!(gone.text, "#5 introuvable");
    assert!(gone.is_error);
    assert_eq!(delete_report(5, 1).text, "OK — 1 entree(s) supprimee(s) (#5) ");
}

#[test]
fn every_failure_has_its_words() {
    let cases = vec![
        (Failure::Other, "Erreur : x"),
        (Failure::Read, "Erreur lecture : x"),
        (Failure::Write, "Erreur ecriture : x"),
        (Failure::MakeDir, "Erreur creation dossier : x"),
        (Failure::Spawn, "Erreur execution : x"),
        (Failure::Embedding, "embedding: x"),
        (Failure::DbInsert, "DB insert: x"),
        (Failure::DbPrepare, "DB prepare: x"),
        (Failure::DbQuery, "DB query: x"),
        (Failure::DbDelete, "DB delete: x"),
    ];
    for (f, text) in cases {
        let o = failure_report(f, "x");
        assert_eq!(o.text, text);
        assert!(o.is_error);
    }
}

fn resolved_at(parts: &[&str]) -> ResolvedPath {
    ResolvedPath {
        components: parts.iter().map(|p| p.as_bytes().to_vec()).collect(),
        text: parts.join("/"),
    }
}

#[test]
fn refused_file_tool_performs_nothing() {
    let request = parse_tool_call("write_file", "{\"path\":\"../x.txt\",\"content\":\"x\"}");
    let verdict = check_access(true, Ok(resolved_at(&["", "w"])), Ok(resolved_at(&["", "x.txt"])));
    match file_step(&request, &verdict) {
        Some(FileStep::Refuse(answer)) => {
            assert!(answer.is_error);
            assert_eq!(answer.text, "ACCES REFUSE : /x.txt est hors du workdir /w");
        }
        _ => panic!("a refused path must be answered with the refusal"),
    }
}

#[test]
fn granted_file_tool_performs_its_operation() {
    let request = parse_tool_call("write_file", "{\"path\":\"sub/f.txt\",\"content\":\"x\"}");
    let verdict = check_access(true, Ok(resolved_at(&["", "w"])), Ok(resolved_at(&["", "w", "sub", "f.txt"])));
    assert_eq!(verdict.as_deref().ok(), Some("/w/sub/f.txt"));
    assert!(matches!(
        file_step(&request, &verdict),
        Some(FileStep::Perform(FileAction::Write { content })) if content == "x"
    ));
    let edit = parse_tool_call("edit_file", "{\"path\":\"a\",\"old_string\":\"o\",\"new_string\":\"n\"}");
    assert!(matches!(
        file_step(&edit, &verdict),
        Some(FileStep::Perform(FileAction::Edit { old, new })) if old == "o" && new == "n"
    ));
    let command = parse_tool_call("run_command", "{\"command\":\"ls\"}");
    assert!(file_step(&command, &verdict).is_none());
}
