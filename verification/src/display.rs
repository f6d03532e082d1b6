//! The texts the window shows: message headers, tool-call bubbles, previews
//! cut to a number of bytes, the system-prompt badge, the flow panel and
//! its debug log.

use vstd::prelude::*;
use vstd::utf8::{decode_utf8, encode_utf8, is_char_boundary};
use vstd::string::StringSliceAdditionalSpecFns;
use crate::chat::{Role, ToolCallInfo, ToolCallView};
use crate::tools::utf8_len;
use crate::text::{chars_of, decimal, decimal_u64, decimal_usize, push_char, push_str, take_chars, take_chars_spec, string_from_chars};

verus! {

/// The text of the first `n` bytes of `s`.
pub open spec fn byte_prefix(s: Seq<char>, n: int) -> Seq<char> {
    decode_utf8(encode_utf8(s).subrange(0, n))
}

/// `s` can be cut at byte `keep` when it is longer than `limit` bytes
/// (cutting inside a character panics).
pub open spec fn cut_fits(s: Seq<char>, limit: nat, keep: nat) -> bool {
    utf8_len(s) > limit ==> is_char_boundary(encode_utf8(s), keep as int)
}

/// `s` when it has at most `limit` bytes; otherwise its first `keep` bytes
/// followed by `suffix`.
pub open spec fn cut_spec(s: Seq<char>, limit: nat, keep: nat, suffix: Seq<char>) -> Seq<char> {
    if utf8_len(s) > limit {
        byte_prefix(s, keep as int) + suffix
    } else {
        s
    }
}

/// Cuts `s` to `keep` bytes and appends `suffix` when it is longer than
/// `limit` bytes.
pub fn cut_bytes(s: &str, limit: usize, keep: usize, suffix: &str) -> (r: String)
    requires
        cut_fits(s@, limit as nat, keep as nat),
    ensures
        r@ == cut_spec(s@, limit as nat, keep as nat, suffix@),
{
    if s.len() > limit {
        let (head, _) = s.split_at(keep);
        proof {
            vstd::utf8::encode_utf8_decode_utf8(head@);
            assert(head.spec_bytes() =~= encode_utf8(s@).subrange(0, keep as int));
            assert(encode_utf8(head@) == encode_utf8(s@).subrange(0, keep as int));
            assert(head@ == byte_prefix(s@, keep as int));
        }
        let mut r = head.to_owned();
        push_str(&mut r, suffix);
        r
    } else {
        s.to_owned()
    }
}

/// Who a message is shown as: "Toi" for the user, the answering model (or
/// "Bot") for an answer.
pub fn sender_label(role: Role, model: &Option<String>) -> (t: String)
    ensures
        t@ == match role {
            Role::User => "Toi"@,
            Role::Assistant => match model {
                Some(m) => m@,
                None => "Bot"@,
            },
        },
{
    match role {
        Role::User => "Toi".to_owned(),
        Role::Assistant => match model {
            Some(m) => m.as_str().to_owned(),
            None => "Bot".to_owned(),
        },
    }
}

/// Header of the reasoning bubble, with the reasoning's length in characters.
pub fn reasoning_header(reasoning: &str) -> (t: String)
    ensures
        t@ == "🧠 Raisonnement  ("@ + decimal(reasoning@.len()) + " chars)"@,
{
    let mut t = "🧠 Raisonnement  (".to_owned();
    let n = decimal_usize(reasoning.unicode_len());
    push_str(&mut t, n.as_str());
    push_str(&mut t, " chars)");
    t
}

/// Title of a tool-call bubble: the tool's name and a mark for success or
/// failure.
pub fn tool_call_title(name: &str, is_error: bool) -> (t: String)
    ensures
        t@ == "🔧 "@ + name@ + " "@ + if is_error { "❌"@ } else { "✅"@ },
{
    let mut t = "🔧 ".to_owned();
    push_str(&mut t, name);
    push_str(&mut t, " ");
    if is_error {
        push_str(&mut t, "❌");
    } else {
        push_str(&mut t, "✅");
    }
    t
}

/// Header of a tool call's result: its first 60 bytes, "..." when cut.
pub fn result_header(result: &str) -> (t: String)
    requires
        cut_fits(result@, 60, 60),
    ensures
        t@ == "Resultat : "@ + cut_spec(result@, 60, 60, "..."@),
{
    let mut t = "Resultat : ".to_owned();
    let c = cut_bytes(result, 60, 60, "...");
    push_str(&mut t, c.as_str());
    t
}

/// The reasoning and the answer copied together.
pub fn reasoning_and_answer(reasoning: &str, content: &str) -> (t: String)
    ensures
        t@ == "--- RAISONNEMENT ---\n"@ + reasoning@ + "\n\n--- REPONSE ---\n"@ + content@,
{
    let mut t = "--- RAISONNEMENT ---\n".to_owned();
    push_str(&mut t, reasoning);
    push_str(&mut t, "\n\n--- REPONSE ---\n");
    push_str(&mut t, content);
    t
}

/// `s` with every line break made a space.
pub open spec fn one_line(s: Seq<char>) -> Seq<char> {
    s.map_values(|c: char| if c == '\n' { ' ' } else { c })
}

/// Tooltip of the system-prompt badge: its length, then its first 80
/// characters on one line, "..." when it is longer.
pub fn system_badge_tooltip(prompt: &str) -> (t: String)
    ensures
        t@ == "System prompt actif ("@ + decimal(prompt@.len()) + " chars) :\n\n"@ + one_line(
            take_chars_spec(prompt@, 80),
        ) + if prompt@.len() > 80 {
            "..."@
        } else {
            Seq::empty()
        },
{
    let head = take_chars(prompt, 80);
    let cs = chars_of(head.as_str());
    let mut flat: Vec<char> = Vec::new();
    let mut i: usize = 0;
    while i < cs.len()
        invariant
            i <= cs@.len(),
            flat@ == one_line(cs@.take(i as int)),
        decreases cs.len() - i,
    {
        let c = cs[i];
        flat.push(if c == '\n' { ' ' } else { c });
        i = i + 1;
        assert(flat@ =~= one_line(cs@.take(i as int)));
    }
    assert(cs@.take(cs@.len() as int) =~= cs@);
    let mut t = "System prompt actif (".to_owned();
    let n = decimal_usize(prompt.unicode_len());
    push_str(&mut t, n.as_str());
    push_str(&mut t, " chars) :\n\n");
    let f = string_from_chars(&flat);
    push_str(&mut t, f.as_str());
    if prompt.unicode_len() > 80 {
        push_str(&mut t, "...");
    }
    t
}

/// Title of the system-prompt editor.
pub fn persona_title(prompt: &str, blank: bool) -> (t: String)
    ensures
        t@ == if blank {
            "🎩 Ton system prompt (inactif)"@
        } else {
            "🎩 Ton system prompt ("@ + decimal(prompt@.len()) + " chars, actif)"@
        },
{
    if blank {
        "🎩 Ton system prompt (inactif)".to_owned()
    } else {
        let mut t = "🎩 Ton system prompt (".to_owned();
        let n = decimal_usize(prompt.unicode_len());
        push_str(&mut t, n.as_str());
        push_str(&mut t, " chars, actif)");
        t
    }
}

/// A model in the picker: a full dot when it is loaded.
pub fn model_entry_label(id: &str, loaded: bool) -> (t: String)
    ensures
        t@ == (if loaded { "●"@ } else { "○"@ }) + "  "@ + id@,
{
    let mut t = if loaded { "●".to_owned() } else { "○".to_owned() };
    push_str(&mut t, "  ");
    push_str(&mut t, id);
    t
}

/// The token budget shown: "Auto (n)" with the budget the next request
/// would get, or the fixed budget.
pub fn budget_label(max_tokens: u32, auto_budget: u32) -> (t: String)
    ensures
        t@ == if max_tokens == 0 {
            "Auto ("@ + decimal(auto_budget as nat) + ")"@
        } else {
            decimal(max_tokens as nat)
        },
{
    if max_tokens == 0 {
        let mut t = "Auto (".to_owned();
        let n = decimal_u64(auto_budget as u64);
        push_str(&mut t, n.as_str());
        push_str(&mut t, ")");
        t
    } else {
        decimal_u64(max_tokens as u64)
    }
}

/// The last flags of a model: the first five, joined, and how many more.
pub open spec fn flags_preview_spec(flags: Seq<Seq<char>>) -> Seq<char> {
    "→ "@ + join_comma(flags.take(if flags.len() > 5 { 5 } else { flags.len() as int })) + if flags.len() > 5 {
        " +"@ + decimal((flags.len() - 5) as nat)
    } else {
        Seq::empty()
    }
}

/// Texts joined with ", ".
pub open spec fn join_comma(parts: Seq<Seq<char>>) -> Seq<char>
    decreases parts.len(),
{
    if parts.len() == 0 {
        Seq::empty()
    } else if parts.len() == 1 {
        parts[0]
    } else {
        join_comma(parts.drop_last()) + ", "@ + parts.last()
    }
}

/// The line under a model's gauge listing its last flags.
pub fn flags_preview(flags: &Vec<String>) -> (t: String)
    ensures
        t@ == flags_preview_spec(flags@.map_values(|f: String| f@)),
{
    let ghost fs = flags@.map_values(|f: String| f@);
    let n: usize = if flags.len() > 5 { 5 } else { flags.len() };
    let mut joined = String::new();
    let mut i: usize = 0;
    while i < n
        invariant
            n <= flags@.len(),
            n <= 5,
            i <= n,
            fs == flags@.map_values(|f: String| f@),
            joined@ == join_comma(fs.take(i as int)),
        decreases n - i,
    {
        if i > 0 {
            push_str(&mut joined, ", ");
        }
        push_str(&mut joined, flags[i].as_str());
        assert(fs.take(i + 1).drop_last() =~= fs.take(i as int));
        i = i + 1;
    }
    let mut t = "→ ".to_owned();
    push_str(&mut t, joined.as_str());
    if flags.len() > 5 {
        push_str(&mut t, " +");
        let d = decimal_usize(flags.len() - 5);
        push_str(&mut t, d.as_str());
    }
    t
}

/// A model's name in the gauge list: cut to 29 bytes and "…" past 30 bytes.
pub fn short_model_name(model: &str) -> (t: String)
    requires
        cut_fits(model@, 30, 29),
    ensures
        t@ == cut_spec(model@, 30, 29, "…"@),
{
    cut_bytes(model, 30, 29, "…")
}

/// Text of the flow panel's user box: the first 50 characters of the
/// question, cut to 40 bytes.
pub fn flow_user_label(prompt: &str) -> (t: String)
    requires
        cut_fits(take_chars_spec(prompt@, 50), 40, 40),
    ensures
        t@ == "User: "@ + cut_spec(take_chars_spec(prompt@, 50), 40, 40, Seq::empty()),
{
    let head = take_chars(prompt, 50);
    let c = cut_bytes(head.as_str(), 40, 40, "");
    let mut t = "User: ".to_owned();
    push_str(&mut t, c.as_str());
    proof {
        reveal_strlit("");
    }
    t
}

/// Text of the flow panel's answer box: "(en cours...)" while there is no
/// text; otherwise the first 60 characters, cut to 50 bytes with "...".
pub fn flow_answer_label(content: &str) -> (t: String)
    requires
        cut_fits(take_chars_spec(content@, 60), 50, 50),
    ensures
        t@ == if content@.len() == 0 {
            "(en cours...)"@
        } else {
            cut_spec(take_chars_spec(content@, 60), 50, 50, "..."@)
        },
{
    let head = take_chars(content, 60);
    if head.as_str().unicode_len() == 0 {
        "(en cours...)".to_owned()
    } else {
        cut_bytes(head.as_str(), 50, 50, "...")
    }
}

/// Title of a tool box in the flow panel.
pub fn flow_tool_label(name: &str, is_error: bool) -> (t: String)
    ensures
        t@ == name@ + " "@ + if is_error { "X"@ } else { "OK"@ },
{
    let mut t = name.to_owned();
    push_str(&mut t, " ");
    if is_error {
        push_str(&mut t, "X");
    } else {
        push_str(&mut t, "OK");
    }
    t
}

/// The first line of `s` (up to "\n", without a trailing "\r").
pub open spec fn first_line(s: Seq<char>) -> Seq<char> {
    let ls = crate::scan::lines_spec(s);
    if ls.len() > 0 { ls[0] } else { Seq::empty() }
}

/// The result under a tool box: the first 30 characters of its first line.
pub fn flow_result_label(result: &str) -> (t: String)
    ensures
        t@ == take_chars_spec(first_line(result@), 30),
{
    let cs = chars_of(result);
    let ls = crate::scan::lines_of(&cs);
    if ls.len() > 0 {
        let l = string_from_chars(&ls[0]);
        take_chars(l.as_str(), 30)
    } else {
        String::new()
    }
}

/// One tool call in the debug log.
pub open spec fn log_entry(i: nat, tc: ToolCallView) -> Seq<char> {
    "["@ + decimal(i + 1) + "] "@ + tc.name + " "@ + (if tc.is_error { "❌"@ } else { "✅"@ })
        + "\n"@ + "  args: "@ + tc.arguments + "\n"@ + "  result:\n"@ + take_chars_spec(
        tc.result,
        800,
    ) + (if tc.result.len() > 800 { "\n  ... (tronque a 800 chars)"@ } else { Seq::empty() })
        + "\n\n"@
}

/// The log entries of the calls `tcs`, numbered from 1.
pub open spec fn log_entries(tcs: Seq<ToolCallView>) -> Seq<char>
    decreases tcs.len(),
{
    if tcs.len() == 0 {
        Seq::empty()
    } else {
        log_entries(tcs.drop_last()) + log_entry((tcs.len() - 1) as nat, tcs.last())
    }
}

/// The debug log copied from the flow panel.
pub open spec fn flow_log_spec(user: Seq<char>, tcs: Seq<ToolCallView>, response: Seq<char>) -> Seq<char> {
    "User: "@ + user + "\n\n"@ + log_entries(tcs) + "---\nResponse:\n"@ + response + "\n"@
}

fn log_entry_exec(i: usize, tc: &ToolCallInfo) -> (t: String)
    requires
        i < usize::MAX,
    ensures
        t@ == log_entry(i as nat, tc@),
{
    let mut t = "[".to_owned();
    let d = decimal_usize(i + 1);
    push_str(&mut t, d.as_str());
    push_str(&mut t, "] ");
    push_str(&mut t, tc.name.as_str());
    push_str(&mut t, " ");
    if tc.is_error {
        push_str(&mut t, "❌");
    } else {
        push_str(&mut t, "✅");
    }
    push_str(&mut t, "\n");
    push_str(&mut t, "  args: ");
    push_str(&mut t, tc.arguments.as_str());
    push_str(&mut t, "\n");
    push_str(&mut t, "  result:\n");
    let head = take_chars(tc.result.as_str(), 800);
    push_str(&mut t, head.as_str());
    if tc.result.as_str().unicode_len() > 800 {
        push_str(&mut t, "\n  ... (tronque a 800 chars)");
    }
    push_str(&mut t, "\n\n");
    t
}

/// The debug log of an answer's tool calls: the question, each call with
/// its arguments and the first 800 characters of its result, then the
/// answer.
pub fn flow_log(user: &str, tool_calls: &Vec<ToolCallInfo>, response: &str) -> (t: String)
    ensures
        t@ == flow_log_spec(user@, tool_calls@.map_values(|c: ToolCallInfo| c@), response@),
{
    let ghost tcs = tool_calls@.map_values(|c: ToolCallInfo| c@);
    let mut t = "User: ".to_owned();
    push_str(&mut t, user);
    push_str(&mut t, "\n\n");
    let ghost head = t@;
    let mut i: usize = 0;
    while i < tool_calls.len()
        invariant
            i <= tool_calls@.len(),
            tcs == tool_calls@.map_values(|c: ToolCallInfo| c@),
            t@ == head + log_entries(tcs.take(i as int)),
        decreases tool_calls.len() - i,
    {
        let e = log_entry_exec(i, &tool_calls[i]);
        push_str(&mut t, e.as_str());
        assert(tcs.take(i + 1).drop_last() =~= tcs.take(i as int));
        assert(tcs.take(i + 1).last() == tool_calls@[i as int]@);
        i = i + 1;
    }
    assert(tcs.take(tool_calls@.len() as int) =~= tcs);
    push_str(&mut t, "---\nResponse:\n");
    push_str(&mut t, response);
    push_str(&mut t, "\n");
    t
}

/// The count under the flow panel.
pub fn flow_count_label(n: usize) -> (t: String)
    ensures
        t@ == decimal(n as nat) + " tool calls"@,
{
    let mut t = decimal_usize(n);
    push_str(&mut t, " tool calls");
    t
}

} // verus!
