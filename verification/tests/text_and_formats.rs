use test_egui_chat::chat::{Msg, Role, ToolCallInfo};
use test_egui_chat::clock::{current_timestamp, timestamp_text};
use test_egui_chat::decode::{cp1252_decode, decode_cp1252, decode_output};
use test_egui_chat::mermaid::{generate_thought_flow, mermaid_escape, thought_flow_html, thought_flow_markdown};
use test_egui_chat::sizes::format_size;
use test_egui_chat::text::{decimal_i64, decimal_u64, is_blank, take_chars, trim};

#[test]
fn format_size_bytes() {
    assert_eq!(format_size(0), "0 B");
    assert_eq!(format_size(12), "12 B");
    assert_eq!(format_size(1023), "1023 B");
}

#[test]
fn format_size_units() {
    assert_eq!(format_size(1024), "1.0 KB");
    assert_eq!(format_size(1536), "1.5 KB");
    assert_eq!(format_size(10 * 1024), "10.0 KB");
    assert_eq!(format_size(1048576), "1.0 MB");
    assert_eq!(format_size(3 * 1048576 + 400 * 1024), "3.4 MB");
    assert_eq!(format_size(1073741824), "1.0 GB");
    assert_eq!(format_size(5 * 1073741824), "5.0 GB");
}

#[test]
fn format_size_ties_round_to_even() {
    // 1.25 and 1.75 are exact halves: the digit kept is the even one.
    assert_eq!(format_size(1280), "1.2 KB");
    assert_eq!(format_size(1792), "1.8 KB");
    // just under the next unit
    assert_eq!(format_size(1048575), "1024.0 KB");
}

#[test]
fn format_size_largest() {
    assert_eq!(format_size(u64::MAX), "17179869184.0 GB");
}

#[test]
fn decimal_texts() {
    assert_eq!(decimal_u64(0), "0");
    assert_eq!(decimal_u64(1234567890), "1234567890");
    assert_eq!(decimal_u64(u64::MAX), u64::MAX.to_string());
    assert_eq!(decimal_i64(-42), "-42");
    assert_eq!(decimal_i64(i64::MIN), i64::MIN.to_string());
}

#[test]
fn trim_and_blank() {
    assert_eq!(trim("  a b \n"), "a b");
    assert_eq!(trim("\u{3000}x\u{3000}"), "x");
    assert!(is_blank(" \t\n"));
    assert!(!is_blank(" x "));
    assert_eq!(take_chars("héllo", 2), "hé");
}

#[test]
fn cp1252_table() {
    assert_eq!(cp1252_decode(0x80), '\u{20AC}');
    assert_eq!(cp1252_decode(0x92), '\u{2019}');
    assert_eq!(cp1252_decode(0x9F), '\u{0178}');
    assert_eq!(cp1252_decode(0x41), 'A');
    assert_eq!(cp1252_decode(0xE9), 'é');
    // undefined slots keep their code point
    assert_eq!(cp1252_decode(0x81), '\u{81}');
    assert_eq!(cp1252_decode(0x9D), '\u{9D}');
}

#[test]
fn decode_output_prefers_utf8() {
    assert_eq!(decode_output("héllo".as_bytes()), "héllo");
    assert_eq!(decode_output(b""), "");
}

#[test]
fn decode_output_falls_back_to_cp1252() {
    assert_eq!(decode_output(b"caf\xe9"), "café");
    assert_eq!(decode_output(b"\x80 \x93x\x94"), "€ \u{201C}x\u{201D}");
    assert_eq!(decode_cp1252(b"ab"), "ab");
}

#[test]
fn mermaid_escape_replaces_breaking_characters() {
    assert_eq!(
        mermaid_escape("a(b)[c]{d}|e<f>#g&h;i\"j\nk", 100),
        "a b  c  d /e f  g+h,i'j k"
    );
    assert_eq!(mermaid_escape("hello", 3), "hel");
    assert_eq!(mermaid_escape("", 10), "");
}

fn tool(name: &str, args: &str, result: &str, is_error: bool) -> ToolCallInfo {
    ToolCallInfo {
        id: "c".to_string(),
        name: name.to_string(),
        arguments: args.to_string(),
        result: result.to_string(),
        is_error,
    }
}

#[test]
fn thought_flow_without_tools() {
    let msg = Msg {
        role: Role::Assistant,
        content: "ans".to_string(),
        reasoning: String::new(),
        model: Some("m".to_string()),
        tool_calls: vec![],
    };
    let flow = generate_thought_flow(&msg, "q");
    assert_eq!(
        flow,
        "flowchart TD\n    U[\"User: q\"]\n    U --> R\n    R[\"Reponse: ans\"]\n    style U fill:#2a4a7f,stroke:#5588cc,color:#fff\n    style R fill:#2a6f2a,stroke:#55cc55,color:#fff\n"
    );
}

#[test]
fn thought_flow_with_tools() {
    let msg = Msg {
        role: Role::Assistant,
        content: "done".to_string(),
        reasoning: String::new(),
        model: None,
        tool_calls: vec![tool("list_dir", "{}", "ok", false), tool("read_file", "x", "bad", true)],
    };
    let flow = generate_thought_flow(&msg, "q");
    let expected = "flowchart TD\n    U[\"User: q\"]\n    U --> T0\n    T0[\"list_dir    \"]\n    T0 -->|OK: ok| T1\n    T1[\"read_file  x\"]\n    T1 -->|ERREUR: bad| R\n    R[\"Reponse: done\"]\n    style U fill:#2a4a7f,stroke:#5588cc,color:#fff\n    style R fill:#2a6f2a,stroke:#55cc55,color:#fff\n    style T0 fill:#5a4a1a,stroke:#ccaa44,color:#fff\n    style T1 fill:#7f2a2a,stroke:#cc5555,color:#fff\n";
    assert_eq!(flow, expected);
}

#[test]
fn thought_flow_documents() {
    assert_eq!(
        thought_flow_markdown("flowchart TD\n"),
        "# Thought Flow\n\n```mermaid\nflowchart TD\n\n```\n"
    );
    let html = thought_flow_html("X");
    assert!(html.starts_with("<!DOCTYPE html>"));
    assert!(html.contains("<pre class=\"mermaid\">\nX\n</pre>"));
    assert!(html.ends_with("</body></html>"));
}

#[test]
fn timestamps_are_decimal_seconds() {
    assert_eq!(timestamp_text(Some(1700000000)), "1700000000");
    assert_eq!(timestamp_text(None), "0");
    let t = current_timestamp();
    assert!(!t.is_empty());
    assert!(t.chars().all(|c| c.is_ascii_digit()));
    assert!(t.parse::<u64>().unwrap() > 1_600_000_000);
}

#[test]
fn escaped_labels_hold_no_breaking_character() {
    let nasty = "\"\n()[]{}|<>#&;ok é";
    let out = mermaid_escape(nasty, 100);
    assert!(!out.chars().any(|c| "\"\n()[]{}|<>#&;".contains(c)));
    assert_eq!(out.chars().count(), nasty.chars().count());
    assert!(out.ends_with("ok é"));
    assert_eq!(mermaid_escape(nasty, 4).chars().count(), 4);
}

fn float_reference(n: u64) -> String {
    const KB: u64 = 1024;
    const MB: u64 = KB * 1024;
    const GB: u64 = MB * 1024;
    if n >= GB {
        format!("{:.1} GB", n as f64 / GB as f64)
    } else if n >= MB {
        format!("{:.1} MB", n as f64 / MB as f64)
    } else if n >= KB {
        format!("{:.1} KB", n as f64 / KB as f64)
    } else {
        format!("{} B", n)
    }
}

#[test]
fn format_size_agrees_with_float_formatting() {
    for n in 0..70_000u64 {
        assert_eq!(format_size(n), float_reference(n), "n = {}", n);
    }
    let mut x: u64 = 0x9E37_79B9_7F4A_7C15;
    for _ in 0..30_000 {
        x ^= x << 13;
        x ^= x >> 7;
        x ^= x << 17;
        for n in [x, x >> 8, x >> 20, x >> 33, x >> 40, x >> 50] {
            assert_eq!(format_size(n), float_reference(n), "n = {}", n);
        }
    }
    for k in 10..64u32 {
        let p = 1u64 << k;
        for n in [p - 1, p, p + 1, p + p / 2, p + p / 20, p + p / 40] {
            assert_eq!(format_size(n), float_reference(n), "n = {}", n);
        }
    }
    assert_eq!(format_size(u64::MAX), float_reference(u64::MAX));
}
