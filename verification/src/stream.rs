//! The model server's streamed answer (server-sent events): framing of
//! events and `data:` payloads, reading of each JSON chunk, assembly of
//! streamed tool calls, and the rounds of the tool loop.

use vstd::prelude::*;
use crate::chat::opt_view;
use crate::scan::{first_match_from, find_from, lemma_first_match_from, lines_of, lines_spec, matches_at};
use crate::json::{
    json_array_len_at, json_str_at, json_u64_at, spec_json_array_len_at, spec_json_str_at,
    spec_json_u64_at,
};
use crate::text::{chars_of, decimal, decimal_usize, push_str, string_from_chars, trim, trim_spec};
use crate::tools::or_default;
use crate::tools::starts_with;
use crate::session::Incoming;

verus! {

/// Events of `b` from index `start`: the text before each "\n\n".
pub open spec fn events_from(b: Seq<char>, start: int) -> Seq<Seq<char>>
    decreases b.len() - start,
{
    if start < 0 || start > b.len() {
        Seq::empty()
    } else {
        match first_match_from(b, seq!['\n', '\n'], start) {
            Some(i) => {
                proof {
                    lemma_first_match_from(b, seq!['\n', '\n'], start);
                }
                seq![b.subrange(start, i)] + events_from(b, i + 2)
            },
            None => Seq::empty(),
        }
    }
}

/// What is left of `b` after its complete events, from index `start`.
pub open spec fn rest_from(b: Seq<char>, start: int) -> Seq<char>
    decreases b.len() - start,
{
    if start < 0 || start > b.len() {
        Seq::empty()
    } else {
        match first_match_from(b, seq!['\n', '\n'], start) {
            Some(i) => {
                proof {
                    lemma_first_match_from(b, seq!['\n', '\n'], start);
                }
                rest_from(b, i + 2)
            },
            None => b.subrange(start, b.len() as int),
        }
    }
}

/// A line that ends the stream: "data: [DONE]" (spaces around allowed).
pub open spec fn is_done_payload(data: Seq<char>) -> bool {
    trim_spec(data) == "[DONE]"@
}

/// Payloads of the `data: ` lines of `lines` from index `i`, up to a
/// "[DONE]" one; and whether that end was met.
pub open spec fn scan_lines(lines: Seq<Seq<char>>, i: int) -> (Seq<Seq<char>>, bool)
    decreases lines.len() - i,
{
    if i < 0 || i >= lines.len() {
        (Seq::empty(), false)
    } else if starts_with(lines[i], "data: "@) {
        let d = lines[i].subrange(6, lines[i].len() as int);
        if is_done_payload(d) {
            (Seq::empty(), true)
        } else {
            let r = scan_lines(lines, i + 1);
            (seq![d] + r.0, r.1)
        }
    } else {
        scan_lines(lines, i + 1)
    }
}

/// Payloads of the events `evs` from index `j`, up to the end of the stream.
pub open spec fn scan_events(evs: Seq<Seq<char>>, j: int) -> (Seq<Seq<char>>, bool)
    decreases evs.len() - j,
{
    if j < 0 || j >= evs.len() {
        (Seq::empty(), false)
    } else {
        let p = scan_lines(lines_spec(evs[j]), 0);
        if p.1 {
            p
        } else {
            let q = scan_events(evs, j + 1);
            (p.0 + q.0, q.1)
        }
    }
}

/// Payloads found when a chunk arrives.
pub struct SseBatch {
    /// The `data:` payloads, in order.
    pub payloads: Vec<String>,
    /// "[DONE]" was met: the stream is over and what follows is ignored.
    pub done: bool,
}

/// Splits the text of a stream into events and `data:` payloads.
pub struct SseDecoder {
    buffer: String,
}

impl SseDecoder {
    /// Text received and not yet part of a complete event.
    pub closed spec fn pending(&self) -> Seq<char> {
        self.buffer@
    }

    /// Nothing received yet.
    pub fn new() -> (d: Self)
        ensures
            d.pending().len() == 0,
    {
        SseDecoder { buffer: String::new() }
    }

    /// Takes in the next piece of the stream and gives the payloads of the
    /// events it completes, in order, up to "[DONE]".
    pub fn feed(&mut self, chunk: &str) -> (batch: SseBatch)
        ensures
            ({
                let b = old(self).pending() + chunk@;
                let r = scan_events(events_from(b, 0), 0);
                &&& batch.payloads@.map_values(|s: String| s@) == r.0
                &&& batch.done == r.1
                &&& !batch.done ==> final(self).pending() == rest_from(b, 0)
                &&& batch.done ==> final(self).pending() == old(self).pending()
            }),
    {
        let ghost b0 = self.buffer@ + chunk@;
        let mut bs = chars_of(self.buffer.as_str());
        let cs = chars_of(chunk);
        let mut k: usize = 0;
        while k < cs.len()
            invariant
                k <= cs@.len(),
                bs@ == old(self).buffer@ + cs@.take(k as int),
            decreases cs.len() - k,
        {
            bs.push(cs[k]);
            k = k + 1;
            assert(bs@ =~= old(self).buffer@ + cs@.take(k as int));
        }
        assert(cs@.take(cs@.len() as int) =~= cs@);
        let sep: Vec<char> = vec!['\n', '\n'];
        assert(sep@ =~= seq!['\n', '\n']);
        let mut payloads: Vec<String> = Vec::new();
        let mut pos: usize = 0;
        proof {
            assert(events_from(b0, 0) =~= events_from(b0, 0).skip(0));
        }
        loop
            invariant
                b0 == old(self).buffer@ + chunk@,
                sep@ == seq!['\n', '\n'],
                bs@ == b0,
                pos <= bs@.len(),
                ({
                    let whole = scan_events(events_from(b0, 0), 0);
                    let tail = scan_events(events_from(b0, pos as int), 0);
                    &&& whole.0 == payloads@.map_values(|s: String| s@) + tail.0
                    &&& whole.1 == tail.1
                }),
                rest_from(b0, 0) == rest_from(b0, pos as int),
                self.buffer@ == old(self).buffer@,
            decreases bs.len() - pos,
        {
            proof {
                lemma_first_match_from(b0, sep@, pos as int);
            }
            match find_from(&bs, &sep, pos) {
                None => {
                    let mut rest: Vec<char> = Vec::new();
                    let mut k = pos;
                    while k < bs.len()
                        invariant
                            pos <= k <= bs@.len(),
                            rest@ == bs@.subrange(pos as int, k as int),
                        decreases bs.len() - k,
                    {
                        rest.push(bs[k]);
                        k = k + 1;
                        assert(rest@ =~= bs@.subrange(pos as int, k as int));
                    }
                    self.buffer = string_from_chars(&rest);
                    assert(events_from(b0, pos as int) =~= Seq::<Seq<char>>::empty());
                    assert(payloads@.map_values(|s: String| s@) + Seq::<Seq<char>>::empty()
                        =~= payloads@.map_values(|s: String| s@));
                    return SseBatch { payloads, done: false };
                },
                Some(i) => {
                    let mut ev: Vec<char> = Vec::new();
                    let mut k = pos;
                    while k < i
                        invariant
                            pos <= k <= i,
                            i + 2 <= bs@.len(),
                            ev@ == bs@.subrange(pos as int, k as int),
                        decreases i - k,
                    {
                        ev.push(bs[k]);
                        k = k + 1;
                        assert(ev@ =~= bs@.subrange(pos as int, k as int));
                    }
                    let ghost evs = events_from(b0, pos as int);
                    assert(evs == seq![ev@] + events_from(b0, i + 2));
                    assert(evs[0] == ev@);
                    assert(evs.drop_first() =~= events_from(b0, i + 2));
                    proof {
                        lemma_scan_events_step(evs);
                    }
                    let (found, done) = event_payloads(&ev);
                    let mut found = found;
                    let ghost before = payloads@.map_values(|s: String| s@);
                    let ghost fv = found@.map_values(|s: String| s@);
                    payloads.append(&mut found);
                    assert(payloads@.map_values(|s: String| s@) =~= before + fv);
                    if done {
                        return SseBatch { payloads, done: true };
                    }
                    assert(before + fv + scan_events(events_from(b0, i + 2), 0).0 =~= before + (fv
                        + scan_events(events_from(b0, i + 2), 0).0));
                    pos = i + 2;
                },
            }
        }
    }
}

proof fn lemma_scan_events_step(evs: Seq<Seq<char>>)
    requires
        evs.len() > 0,
    ensures
        ({
            let p = scan_lines(lines_spec(evs[0]), 0);
            let q = scan_events(evs.drop_first(), 0);
            scan_events(evs, 0) == if p.1 { p } else { (p.0 + q.0, q.1) }
        }),
{
    lemma_scan_events_shift(evs, 1);
}

proof fn lemma_scan_events_shift(evs: Seq<Seq<char>>, j: int)
    requires
        0 <= j <= evs.len(),
    ensures
        scan_events(evs, j) == scan_events(evs.skip(j), 0),
    decreases evs.len() - j,
{
    if j < evs.len() {
        lemma_scan_events_shift(evs, j + 1);
        lemma_scan_events_shift(evs.skip(j), 1);
        assert(evs.skip(j).skip(1) =~= evs.skip(j + 1));
        assert(evs.skip(j)[0] == evs[j]);
    } else {
        assert(evs.skip(j).len() == 0);
    }
}

/// The leftmost match is pinned down by its defining property.
proof fn lemma_first_match_is(s: Seq<char>, p: Seq<char>, start: int, r: Option<int>)
    requires
        0 <= start,
        match r {
            Some(i) => start <= i && matches_at(s, p, i) && forall|j: int|
                start <= j < i ==> !matches_at(s, p, j),
            None => forall|j: int| start <= j ==> !matches_at(s, p, j),
        },
    ensures
        first_match_from(s, p, start) == r,
{
    lemma_first_match_from(s, p, start);
    match (first_match_from(s, p, start), r) {
        (Some(a), Some(b)) => {
            if a < b {
                assert(!matches_at(s, p, a));
            } else if b < a {
                assert(!matches_at(s, p, b));
            }
        },
        (Some(a), None) => {
            assert(!matches_at(s, p, a));
        },
        (None, Some(b)) => {
            assert(!matches_at(s, p, b));
        },
        (None, None) => {},
    }
}

/// Events and rest of `z` from `k + m` are those of `z` without its first
/// `k` characters, from `m`.
proof fn lemma_events_shift(z: Seq<char>, k: int, m: int)
    requires
        0 <= k <= z.len(),
        0 <= m,
        k + m <= z.len(),
    ensures
        events_from(z, k + m) == events_from(z.skip(k), m),
        rest_from(z, k + m) == rest_from(z.skip(k), m),
    decreases z.len() - (k + m),
{
    let sep = seq!['\n', '\n'];
    let w = z.skip(k);
    assert forall|j: int| m <= j implies matches_at(w, sep, j) == matches_at(z, sep, j + k) by {
        if matches_at(w, sep, j) {
            assert(z.subrange(j + k, j + k + 2) =~= w.subrange(j, j + 2));
        }
        if matches_at(z, sep, j + k) {
            assert(z.subrange(j + k, j + k + 2) =~= w.subrange(j, j + 2));
        }
    }
    lemma_first_match_from(z, sep, k + m);
    match first_match_from(z, sep, k + m) {
        Some(i) => {
            assert forall|j: int| m <= j < i - k implies !matches_at(w, sep, j) by {
                assert(!matches_at(z, sep, j + k));
            }
            assert(matches_at(w, sep, i - k)) by {
                assert(matches_at(z, sep, (i - k) + k));
            }
            lemma_first_match_is(w, sep, m, Some(i - k));
            lemma_events_shift(z, k, i - k + 2);
            assert(w.subrange(m, i - k) =~= z.subrange(k + m, i));
        },
        None => {
            assert forall|j: int| m <= j implies !matches_at(w, sep, j) by {
                assert(!matches_at(z, sep, j + k));
            }
            lemma_first_match_is(w, sep, m, None);
            assert(w.subrange(m, w.len() as int) =~= z.subrange(k + m, z.len() as int));
        },
    }
}

/// Appending text after `x` leaves the complete events of `x` as they are:
/// the events of `x + y` are those of `x` followed by those of what `x`
/// leaves over, continued by `y`.
proof fn lemma_events_append(x: Seq<char>, y: Seq<char>, start: int)
    requires
        0 <= start <= x.len(),
    ensures
        events_from(x + y, start) == events_from(x, start) + events_from(rest_from(x, start) + y, 0),
        rest_from(x + y, start) == rest_from(rest_from(x, start) + y, 0),
    decreases x.len() - start,
{
    let sep = seq!['\n', '\n'];
    let xy = x + y;
    lemma_first_match_from(x, sep, start);
    match first_match_from(x, sep, start) {
        Some(i) => {
            assert(i + 2 <= x.len());
            assert forall|j: int| start <= j < i implies !matches_at(xy, sep, j) by {
                if matches_at(xy, sep, j) {
                    assert(x.subrange(j, j + 2) =~= xy.subrange(j, j + 2));
                    assert(matches_at(x, sep, j));
                }
            }
            assert(matches_at(xy, sep, i)) by {
                assert(x.subrange(i, i + 2) =~= xy.subrange(i, i + 2));
            }
            lemma_first_match_is(xy, sep, start, Some(i));
            lemma_events_append(x, y, i + 2);
            assert(xy.subrange(start, i) =~= x.subrange(start, i));
            assert(events_from(x, start) == seq![x.subrange(start, i)] + events_from(x, i + 2));
            assert(events_from(xy, start) == seq![x.subrange(start, i)] + events_from(xy, i + 2));
            assert(seq![x.subrange(start, i)] + (events_from(x, i + 2) + events_from(
                rest_from(x, i + 2) + y,
                0,
            )) =~= seq![x.subrange(start, i)] + events_from(x, i + 2) + events_from(
                rest_from(x, i + 2) + y,
                0,
            ));
        },
        None => {
            let r = x.subrange(start, x.len() as int);
            assert(rest_from(x, start) == r);
            assert(events_from(x, start) == Seq::<Seq<char>>::empty());
            lemma_events_shift(xy, start, 0);
            assert(xy.skip(start) =~= r + y);
            assert(Seq::<Seq<char>>::empty() + events_from(r + y, 0) =~= events_from(r + y, 0));
        },
    }
}

/// Payloads of the events `e1` then `e2`: those of `e1`, then, unless `e1`
/// ended the stream, those of `e2`.
proof fn lemma_scan_events_concat(e1: Seq<Seq<char>>, e2: Seq<Seq<char>>)
    ensures
        scan_events(e1 + e2, 0) == if scan_events(e1, 0).1 {
            scan_events(e1, 0)
        } else {
            (scan_events(e1, 0).0 + scan_events(e2, 0).0, scan_events(e2, 0).1)
        },
    decreases e1.len(),
{
    if e1.len() == 0 {
        assert(e1 + e2 =~= e2);
        assert(Seq::<Seq<char>>::empty() + scan_events(e2, 0).0 =~= scan_events(e2, 0).0);
    } else {
        let e = e1 + e2;
        lemma_scan_events_step(e);
        lemma_scan_events_step(e1);
        assert(e.drop_first() =~= e1.drop_first() + e2);
        assert(e[0] == e1[0]);
        lemma_scan_events_concat(e1.drop_first(), e2);
        let p = scan_lines(lines_spec(e1[0]), 0);
        let q = scan_events(e1.drop_first(), 0);
        if !p.1 && !q.1 {
            assert(p.0 + (q.0 + scan_events(e2, 0).0) =~= p.0 + q.0 + scan_events(e2, 0).0);
        }
    }
}

/// Cutting the stream into chunks changes nothing: taking in `a` and then
/// `c` gives the payloads (and keeps the text) that taking in `a + c` at
/// once gives, and once "[DONE]" is met in `a`, `c` is not read.
pub proof fn law_chunking_is_invisible(pending: Seq<char>, a: Seq<char>, c: Seq<char>)
    ensures
        ({
            let b1 = pending + a;
            let r1 = scan_events(events_from(b1, 0), 0);
            let b2 = rest_from(b1, 0) + c;
            let r2 = scan_events(events_from(b2, 0), 0);
            let whole = scan_events(events_from(pending + a + c, 0), 0);
            &&& r1.1 ==> whole == r1
            &&& !r1.1 ==> whole.0 == r1.0 + r2.0 && whole.1 == r2.1
            &&& rest_from(pending + a + c, 0) == rest_from(b2, 0)
        }),
{
    let b1 = pending + a;
    lemma_events_append(b1, c, 0);
    assert(pending + a + c =~= b1 + c);
    lemma_scan_events_concat(events_from(b1, 0), events_from(rest_from(b1, 0) + c, 0));
}

/// Payloads of one event's `data:` lines, up to "[DONE]".
fn event_payloads(ev: &Vec<char>) -> (r: (Vec<String>, bool))
    ensures
        ({
            let s = scan_lines(lines_spec(ev@), 0);
            &&& r.0@.map_values(|x: String| x@) == s.0
            &&& r.1 == s.1
        }),
{
    let ls = lines_of(ev);
    let ghost lv = ls@.map_values(|l: Vec<char>| l@);
    let mut out: Vec<String> = Vec::new();
    let mut i: usize = 0;
    while i < ls.len()
        invariant
            lv == ls@.map_values(|l: Vec<char>| l@),
            lv == lines_spec(ev@),
            i <= ls@.len(),
            ({
                let whole = scan_lines(lv, 0);
                let tail = scan_lines(lv, i as int);
                &&& whole.0 == out@.map_values(|x: String| x@) + tail.0
                &&& whole.1 == tail.1
            }),
        decreases ls.len() - i,
    {
        let l: &Vec<char> = &ls[i];
        assert(lv[i as int] == l@);
        let ghost before = out@.map_values(|x: String| x@);
        if starts_with_data(l) {
            let mut d: Vec<char> = Vec::new();
            let mut k: usize = 6;
            while k < l.len()
                invariant
                    6 <= k <= l@.len(),
                    d@ == l@.subrange(6, k as int),
                decreases l@.len() - k,
            {
                d.push(l[k]);
                k = k + 1;
                assert(d@ =~= l@.subrange(6, k as int));
            }
            let data = string_from_chars(&d);
            let t = trim(data.as_str());
            if crate::text::str_eq(t.as_str(), "[DONE]") {
                assert(before + Seq::<Seq<char>>::empty() =~= before);
                return (out, true);
            }
            out.push(data);
            assert(out@.map_values(|x: String| x@) =~= before.push(d@));
            assert(before + (seq![d@] + scan_lines(lv, i + 1).0) =~= before.push(d@) + scan_lines(
                lv,
                i + 1,
            ).0);
        }
        i = i + 1;
    }
    assert(out@.map_values(|x: String| x@) + Seq::<Seq<char>>::empty() =~= out@.map_values(
        |x: String| x@,
    ));
    (out, false)
}

fn starts_with_data(l: &Vec<char>) -> (b: bool)
    ensures
        b == starts_with(l@, "data: "@),
        b ==> l@.len() >= 6,
{
    proof {
        reveal_strlit("data: ");
    }
    if l.len() < 6 {
        return false;
    }
    let r = l[0] == 'd' && l[1] == 'a' && l[2] == 't' && l[3] == 'a' && l[4] == ':' && l[5] == ' ';
    proof {
        if r {
            assert(l@.take(6) =~= "data: "@);
        } else {
            assert(l@.take(6) != "data: "@) by {
                if l@.take(6) == "data: "@ {
                    assert(l@.take(6)[0] == 'd');
                    assert(l@.take(6)[1] == 'a');
                    assert(l@.take(6)[2] == 't');
                    assert(l@.take(6)[3] == 'a');
                    assert(l@.take(6)[4] == ':');
                    assert(l@.take(6)[5] == ' ');
                }
            }
        }
    }
    r
}

/// Pointer to field `field` of the `k`-th streamed tool call of a chunk.
pub open spec fn tool_call_ptr(k: nat, field: Seq<char>) -> Seq<char> {
    "/choices/0/delta/tool_calls/"@ + decimal(k) + field
}

/// A string that is there and not empty.
pub open spec fn non_empty(o: Option<Seq<char>>) -> Option<Seq<char>> {
    match o {
        Some(s) => if s.len() > 0 { Some(s) } else { None },
        None => None,
    }
}

/// A piece of a tool call, as one chunk streams it.
pub struct ToolCallDelta {
    /// Position of the call among the answer's calls (0 when not given).
    pub index: usize,
    pub id: Option<String>,
    pub name: Option<String>,
    /// Next piece of the call's JSON arguments.
    pub arguments: Option<String>,
}

/// What the `k`-th tool-call piece of chunk `data` says.
pub open spec fn delta_matches(d: ToolCallDelta, data: Seq<char>, k: nat) -> bool {
    &&& d.index == (match spec_json_u64_at(data, tool_call_ptr(k, "/index"@)) {
        Some(n) => n,
        None => 0,
    }) as usize
    &&& opt_view(d.id) == spec_json_str_at(data, tool_call_ptr(k, "/id"@))
    &&& opt_view(d.name) == spec_json_str_at(data, tool_call_ptr(k, "/function/name"@))
    &&& opt_view(d.arguments) == spec_json_str_at(data, tool_call_ptr(k, "/function/arguments"@))
}

/// What one streamed chunk carries.
pub struct ChunkInfo {
    /// Reasoning text (only when not empty).
    pub reasoning: Option<String>,
    /// Answer text (only when not empty).
    pub content: Option<String>,
    /// Tool-call pieces, when the chunk has a tool-call list.
    pub tool_calls: Option<Vec<ToolCallDelta>>,
    /// Completion tokens and finish reason ("" when absent), in the last chunk.
    pub usage: Option<(u32, String)>,
}

/// The chunk's "choices" is a list: only then is there a first choice to
/// read (an object keyed "0" is no list).
pub open spec fn has_choice_list(data: Seq<char>) -> bool {
    spec_json_array_len_at(data, "/choices"@) is Some
}

/// A string of the first choice, at `ptr` (under "/choices/0").
pub open spec fn choice_str(data: Seq<char>, ptr: Seq<char>) -> Option<Seq<char>> {
    if has_choice_list(data) { spec_json_str_at(data, ptr) } else { None }
}

/// What chunk `data` (a JSON text) carries.
pub open spec fn chunk_matches(c: ChunkInfo, data: Seq<char>) -> bool {
    &&& opt_view(c.reasoning) == non_empty(
        choice_str(data, "/choices/0/delta/reasoning_content"@),
    )
    &&& opt_view(c.content) == non_empty(choice_str(data, "/choices/0/delta/content"@))
    &&& (c.tool_calls is Some <==> (has_choice_list(data) && spec_json_array_len_at(
        data,
        "/choices/0/delta/tool_calls"@,
    ) is Some))
    &&& (c.tool_calls matches Some(v) ==> {
        &&& v@.len() == spec_json_array_len_at(data, "/choices/0/delta/tool_calls"@)->0
        &&& forall|k: int| 0 <= k < v@.len() ==> delta_matches(#[trigger] v@[k], data, k as nat)
    })
    &&& (c.usage is Some <==> spec_json_u64_at(data, "/usage/completion_tokens"@) is Some)
    &&& (c.usage matches Some((used, finish)) ==> {
        &&& used == spec_json_u64_at(data, "/usage/completion_tokens"@)->0 as u32
        &&& finish@ == or_default(choice_str(data, "/choices/0/finish_reason"@), ""@)
    })
}

fn non_empty_exec(o: Option<String>) -> (r: Option<String>)
    ensures
        opt_view(r) == non_empty(opt_view(o)),
{
    match o {
        Some(s) => if s.as_str().unicode_len() > 0 { Some(s) } else { None },
        None => None,
    }
}

fn tool_call_ptr_exec(k: usize, field: &str) -> (p: String)
    ensures
        p@ == tool_call_ptr(k as nat, field@),
{
    let mut p = "/choices/0/delta/tool_calls/".to_owned();
    let d = decimal_usize(k);
    push_str(&mut p, d.as_str());
    push_str(&mut p, field);
    p
}

/// Reads one streamed chunk.
pub fn interpret_chunk(data: &str) -> (c: ChunkInfo)
    ensures
        chunk_matches(c, data@),
{
    let listed = json_array_len_at(data, "/choices").is_some();
    let reasoning = if listed {
        non_empty_exec(json_str_at(data, "/choices/0/delta/reasoning_content"))
    } else {
        None
    };
    let content = if listed {
        non_empty_exec(json_str_at(data, "/choices/0/delta/content"))
    } else {
        None
    };
    let calls_len = if listed {
        json_array_len_at(data, "/choices/0/delta/tool_calls")
    } else {
        None
    };
    let tool_calls = match calls_len {
        None => None,
        Some(n) => {
            let mut v: Vec<ToolCallDelta> = Vec::new();
            let mut k: usize = 0;
            while k < n
                invariant
                    k <= n,
                    v@.len() == k,
                    forall|j: int| 0 <= j < k ==> delta_matches(#[trigger] v@[j], data@, j as nat),
                decreases n - k,
            {
                let pi = tool_call_ptr_exec(k, "/index");
                let index = match json_u64_at(data, pi.as_str()) {
                    Some(x) => x,
                    None => 0,
                } as usize;
                let p_id = tool_call_ptr_exec(k, "/id");
                let p_name = tool_call_ptr_exec(k, "/function/name");
                let p_args = tool_call_ptr_exec(k, "/function/arguments");
                let d = ToolCallDelta {
                    index,
                    id: json_str_at(data, p_id.as_str()),
                    name: json_str_at(data, p_name.as_str()),
                    arguments: json_str_at(data, p_args.as_str()),
                };
                v.push(d);
                k = k + 1;
            }
            Some(v)
        },
    };
    let usage = match json_u64_at(data, "/usage/completion_tokens") {
        None => None,
        Some(used) => {
            let found = if listed {
                json_str_at(data, "/choices/0/finish_reason")
            } else {
                None
            };
            let finish = match found {
                Some(f) => f,
                None => "".to_owned(),
            };
            Some((used as u32, finish))
        },
    };
    ChunkInfo { reasoning, content, tool_calls, usage }
}

/// A tool call being assembled from streamed pieces.
pub struct PendingCall {
    pub id: String,
    pub name: String,
    pub arguments: String,
}

/// An assembled call, abstractly: id, name, JSON arguments.
pub open spec fn pending_view(c: PendingCall) -> (Seq<char>, Seq<char>, Seq<char>) {
    (c.id@, c.name@, c.arguments@)
}

/// The calls after one more piece: the list grows with empty calls up to the
/// piece's position; there the id and name are replaced when given and the
/// arguments piece is appended.
pub open spec fn apply_delta_spec(
    calls: Seq<(Seq<char>, Seq<char>, Seq<char>)>,
    index: nat,
    id: Option<Seq<char>>,
    name: Option<Seq<char>>,
    args: Option<Seq<char>>,
) -> Seq<(Seq<char>, Seq<char>, Seq<char>)> {
    let padded = if calls.len() <= index {
        calls + Seq::new((index + 1 - calls.len()) as nat, |i: int| (Seq::<char>::empty(), Seq::<char>::empty(), Seq::<char>::empty()))
    } else {
        calls
    };
    let e = padded[index as int];
    padded.update(
        index as int,
        (
            match id { Some(x) => x, None => e.0 },
            match name { Some(x) => x, None => e.1 },
            match args { Some(x) => e.2 + x, None => e.2 },
        ),
    )
}

/// Tool calls of one round, assembled from the stream.
pub struct ToolCallBuffer {
    calls: Vec<PendingCall>,
}

impl ToolCallBuffer {
    /// The calls, abstractly.
    pub closed spec fn view(&self) -> Seq<(Seq<char>, Seq<char>, Seq<char>)> {
        self.calls@.map_values(|c: PendingCall| pending_view(c))
    }

    /// No call yet.
    pub fn new() -> (b: Self)
        ensures
            b.view().len() == 0,
    {
        ToolCallBuffer { calls: Vec::new() }
    }

    /// Number of calls.
    pub fn len(&self) -> (n: usize)
        ensures
            n == self.view().len(),
    {
        self.calls.len()
    }

    /// The `i`-th call.
    pub fn get(&self, i: usize) -> (c: &PendingCall)
        requires
            i < self.view().len(),
        ensures
            pending_view(*c) == self.view()[i as int],
    {
        &self.calls[i]
    }

    /// Takes in one streamed piece (whose position is below `usize::MAX`).
    pub fn apply(&mut self, d: &ToolCallDelta)
        requires
            d.index < usize::MAX,
        ensures
            final(self).view() == apply_delta_spec(
                old(self).view(),
                d.index as nat,
                opt_view(d.id),
                opt_view(d.name),
                opt_view(d.arguments),
            ),
    {
        let ghost v0 = self.view();
        if self.calls.len() <= d.index {
            while self.calls.len() <= d.index
                invariant
                    d.index < usize::MAX,
                    v0.len() <= d.index,
                    v0.len() <= self.calls@.len() <= d.index + 1,
                    self.view() == v0 + Seq::new(
                        (self.calls@.len() - v0.len()) as nat,
                        |i: int| (Seq::<char>::empty(), Seq::<char>::empty(), Seq::<char>::empty()),
                    ),
                decreases d.index + 1 - self.calls@.len(),
            {
                let ghost before = self.view();
                self.calls.push(
                    PendingCall { id: String::new(), name: String::new(), arguments: String::new() },
                );
                assert(self.view() =~= before.push(
                    (Seq::<char>::empty(), Seq::<char>::empty(), Seq::<char>::empty()),
                ));
                assert(self.view() =~= v0 + Seq::new(
                    (self.calls@.len() - v0.len()) as nat,
                    |i: int| (Seq::<char>::empty(), Seq::<char>::empty(), Seq::<char>::empty()),
                ));
            }
        } else {
            assert(self.view() == v0);
        }
        let ghost padded = self.view();
        assert(padded == if v0.len() <= d.index {
            v0 + Seq::new(
                (d.index + 1 - v0.len()) as nat,
                |i: int| (Seq::<char>::empty(), Seq::<char>::empty(), Seq::<char>::empty()),
            )
        } else {
            v0
        });
        let i = d.index;
        let cur = &self.calls[i];
        let mut c = PendingCall {
            id: cur.id.clone(),
            name: cur.name.clone(),
            arguments: cur.arguments.clone(),
        };
        let ghost e = padded[i as int];
        assert(pending_view(c) == e);
        match &d.id {
            Some(x) => {
                c.id = x.clone();
            },
            None => {},
        }
        match &d.name {
            Some(x) => {
                c.name = x.clone();
            },
            None => {},
        }
        match &d.arguments {
            Some(x) => {
                push_str(&mut c.arguments, x.as_str());
            },
            None => {},
        }
        self.calls.set(i, c);
        assert(self.view() =~= apply_delta_spec(v0, d.index as nat, opt_view(d.id), opt_view(d.name), opt_view(d.arguments)));
    }
}


/// A piece of the answer that a chunk hands on to the conversation.
pub enum StreamPiece {
    Reasoning(Seq<char>),
    Text(Seq<char>),
    Usage(u32, Seq<char>),
}

/// The piece an event carries, when it is one of the streamed kinds.
pub open spec fn piece_of(e: Incoming) -> Option<StreamPiece> {
    match e {
        Incoming::ReasoningToken(t) => Some(StreamPiece::Reasoning(t@)),
        Incoming::Token(t) => Some(StreamPiece::Text(t@)),
        Incoming::Usage { used, finish } => Some(StreamPiece::Usage(used, finish@)),
        _ => None,
    }
}

/// The pieces of a chunk, in the order they are handed on: reasoning, then
/// answer text, then usage.
pub open spec fn chunk_pieces(c: ChunkInfo) -> Seq<StreamPiece> {
    (match c.reasoning {
        Some(r) => seq![StreamPiece::Reasoning(r@)],
        None => Seq::empty(),
    }) + (match c.content {
        Some(t) => seq![StreamPiece::Text(t@)],
        None => Seq::empty(),
    }) + (match c.usage {
        Some(u) => seq![StreamPiece::Usage(u.0, u.1@)],
        None => Seq::empty(),
    })
}

/// The calls after the pieces `ds`, taken in order.
pub open spec fn apply_deltas(
    calls: Seq<(Seq<char>, Seq<char>, Seq<char>)>,
    ds: Seq<ToolCallDelta>,
) -> Seq<(Seq<char>, Seq<char>, Seq<char>)>
    decreases ds.len(),
{
    if ds.len() == 0 {
        calls
    } else {
        let d = ds.last();
        apply_delta_spec(
            apply_deltas(calls, ds.drop_last()),
            d.index as nat,
            opt_view(d.id),
            opt_view(d.name),
            opt_view(d.arguments),
        )
    }
}

/// The argument pieces of `ds`, joined in order (absent pieces add nothing).
pub open spec fn argument_pieces(ds: Seq<ToolCallDelta>) -> Seq<char>
    decreases ds.len(),
{
    if ds.len() == 0 {
        Seq::empty()
    } else {
        argument_pieces(ds.drop_last()) + match opt_view(ds.last().arguments) {
            Some(a) => a,
            None => Seq::empty(),
        }
    }
}

/// A call's arguments are the concatenation of the pieces streamed for it:
/// when every piece is for the existing call `k` and carries no id or name,
/// that call's arguments grow by the pieces in order, its id and name stay,
/// and no other call changes.
pub proof fn law_argument_pieces_concatenate(
    calls: Seq<(Seq<char>, Seq<char>, Seq<char>)>,
    ds: Seq<ToolCallDelta>,
    k: nat,
)
    requires
        k < calls.len(),
        forall|i: int|
            0 <= i < ds.len() ==> (#[trigger] ds[i]).index == k && ds[i].id is None
                && ds[i].name is None,
    ensures
        apply_deltas(calls, ds).len() == calls.len(),
        apply_deltas(calls, ds)[k as int] == (calls[k as int].0, calls[k as int].1, calls[k as int].2
            + argument_pieces(ds)),
        forall|j: int|
            0 <= j < calls.len() && j != k ==> (#[trigger] apply_deltas(calls, ds)[j]) == calls[j],
    decreases ds.len(),
{
    if ds.len() == 0 {
        assert(calls[k as int].2 + Seq::<char>::empty() =~= calls[k as int].2);
    } else {
        let front = ds.drop_last();
        assert forall|i: int| 0 <= i < front.len() implies (#[trigger] front[i]).index == k
            && front[i].id is None && front[i].name is None by {
            assert(front[i] == ds[i]);
        }
        law_argument_pieces_concatenate(calls, front, k);
        let d = ds.last();
        assert(d == ds[ds.len() - 1]);
        let before = apply_deltas(calls, front);
        let piece: Seq<char> = match opt_view(d.arguments) {
            Some(a) => a,
            None => Seq::empty(),
        };
        assert(calls[k as int].2 + argument_pieces(front) + piece =~= calls[k as int].2 + (
        argument_pieces(front) + piece));
        assert(apply_deltas(calls, ds) == apply_delta_spec(
            before,
            d.index as nat,
            opt_view(d.id),
            opt_view(d.name),
            opt_view(d.arguments),
        ));
    }
}

/// Every tool-call piece of the chunk has a position below `usize::MAX`.
pub open spec fn deltas_fit(c: ChunkInfo) -> bool {
    c.tool_calls matches Some(v) ==> forall|k: int|
        0 <= k < v@.len() ==> (#[trigger] v@[k]).index < usize::MAX
}

/// One round of the answer: one request and its streamed reply.
pub struct RoundState {
    content: String,
    calls: ToolCallBuffer,
    saw_tool_calls: bool,
}

impl RoundState {
    /// Answer text received in this round.
    pub closed spec fn content_view(&self) -> Seq<char> {
        self.content@
    }

    /// Tool calls assembled in this round.
    pub closed spec fn calls_view(&self) -> Seq<(Seq<char>, Seq<char>, Seq<char>)> {
        self.calls.view()
    }

    /// A chunk of this round had a tool-call list.
    pub closed spec fn saw_calls(&self) -> bool {
        self.saw_tool_calls
    }

    /// A round that has received nothing.
    pub fn new() -> (r: Self)
        ensures
            r.content_view().len() == 0,
            r.calls_view().len() == 0,
            !r.saw_calls(),
    {
        RoundState { content: String::new(), calls: ToolCallBuffer::new(), saw_tool_calls: false }
    }

    /// Takes in one chunk: the answer text grows, the tool-call pieces are
    /// assembled, and the events for the conversation come back in order.
    pub fn absorb(&mut self, c: ChunkInfo) -> (events: Vec<Incoming>)
        requires
            deltas_fit(c),
        ensures
            events@.map_values(|e: Incoming| piece_of(e)) == chunk_pieces(c).map_values(
                |p: StreamPiece| Some(p),
            ),
            final(self).content_view() == old(self).content_view() + match c.content {
                Some(t) => t@,
                None => Seq::empty(),
            },
            final(self).calls_view() == match c.tool_calls {
                Some(v) => apply_deltas(old(self).calls_view(), v@),
                None => old(self).calls_view(),
            },
            final(self).saw_calls() == (old(self).saw_calls() || c.tool_calls is Some),
    {
        let ghost c0 = c;
        let ghost pieces = chunk_pieces(c);
        let ChunkInfo { reasoning, content, tool_calls, usage } = c;
        let mut events: Vec<Incoming> = Vec::new();
        match reasoning {
            Some(r) => {
                events.push(Incoming::ReasoningToken(r));
            },
            None => {},
        }
        let ghost after_reasoning = events@.map_values(|e: Incoming| piece_of(e));
        match content {
            Some(t) => {
                push_str(&mut self.content, t.as_str());
                events.push(Incoming::Token(t));
            },
            None => {},
        }
        match tool_calls {
            Some(v) => {
                self.saw_tool_calls = true;
                let mut k: usize = 0;
                let ghost start = self.calls.view();
                let ghost text = self.content@;
                assert(v@.take(0) =~= Seq::<ToolCallDelta>::empty());
                while k < v.len()
                    invariant
                        k <= v@.len(),
                        forall|j: int| 0 <= j < v@.len() ==> (#[trigger] v@[j]).index < usize::MAX,
                        self.calls.view() == apply_deltas(start, v@.take(k as int)),
                        self.content@ == text,
                        self.saw_tool_calls,
                    decreases v.len() - k,
                {
                    self.calls.apply(&v[k]);
                    assert(v@.take(k + 1).drop_last() =~= v@.take(k as int));
                    k = k + 1;
                }
                assert(v@.take(v@.len() as int) =~= v@);
            },
            None => {},
        }
        match usage {
            Some(u) => {
                let (used, finish) = u;
                events.push(Incoming::Usage { used, finish });
            },
            None => {},
        }
        assert(events@.map_values(|e: Incoming| piece_of(e)) =~= pieces.map_values(
            |p: StreamPiece| Some(p),
        ));
        events
    }

    /// The round ends by running tools: it saw a tool-call list and
    /// assembled at least one call.
    pub fn wants_tools(&self) -> (b: bool)
        ensures
            b == (self.saw_calls() && self.calls_view().len() > 0),
    {
        self.saw_tool_calls && self.calls.len() > 0
    }

    /// Answer text of the round.
    pub fn content(&self) -> (t: &String)
        ensures
            t@ == self.content_view(),
    {
        &self.content
    }

    /// Text of the assistant message that records the round's tool calls:
    /// none when the round gave no text.
    pub fn assistant_content(&self) -> (t: Option<String>)
        ensures
            match t {
                Some(x) => x@ == self.content_view() && x@.len() > 0,
                None => self.content_view().len() == 0,
            },
    {
        if self.content.as_str().unicode_len() == 0 {
            None
        } else {
            Some(self.content.clone())
        }
    }

    /// Number of assembled calls.
    pub fn call_count(&self) -> (n: usize)
        ensures
            n == self.calls_view().len(),
    {
        self.calls.len()
    }

    /// The `i`-th assembled call.
    pub fn call(&self, i: usize) -> (c: &PendingCall)
        requires
            i < self.calls_view().len(),
        ensures
            pending_view(*c) == self.calls_view()[i as int],
    {
        self.calls.get(i)
    }
}

/// Most rounds (requests) one answer may take with its tool calls.
pub const MAX_TOOL_ROUNDS: u32 = 10;

/// What follows a round.
pub enum LoopStep {
    /// The answer is complete.
    Finish,
    /// Tools ran: the next round, with this number, sends their results.
    Next(u32),
    /// Tools ran in the last allowed round: the answer fails.
    GiveUp,
}

/// What follows round `round` (counted from 0).
pub open spec fn loop_step_spec(round: u32, run_tools: bool) -> LoopStep {
    if !run_tools {
        LoopStep::Finish
    } else if round + 1 < MAX_TOOL_ROUNDS {
        LoopStep::Next((round + 1) as u32)
    } else {
        LoopStep::GiveUp
    }
}

/// Decides what follows round `round`, given whether it ended with tool calls.
pub fn after_round(round: u32, run_tools: bool) -> (s: LoopStep)
    requires
        round < MAX_TOOL_ROUNDS,
    ensures
        s == loop_step_spec(round, run_tools),
{
    if !run_tools {
        LoopStep::Finish
    } else if round + 1 < MAX_TOOL_ROUNDS {
        LoopStep::Next(round + 1)
    } else {
        LoopStep::GiveUp
    }
}

/// Every round but the first is announced to the conversation.
pub fn round_notice(round: u32) -> (e: Option<Incoming>)
    ensures
        match e {
            Some(Incoming::ToolLoopIteration(n)) => round > 0 && n == round,
            Some(_) => false,
            None => round == 0,
        },
{
    if round > 0 {
        Some(Incoming::ToolLoopIteration(round))
    } else {
        None
    }
}

/// Rounds are numbered one after the other and stay below the limit: an
/// answer takes at most `MAX_TOOL_ROUNDS` requests.
pub proof fn law_tool_rounds_bounded(round: u32, run_tools: bool)
    requires
        round < MAX_TOOL_ROUNDS,
    ensures
        loop_step_spec(round, run_tools) matches LoopStep::Next(n) ==> n == round + 1 && n
            < MAX_TOOL_ROUNDS,
        loop_step_spec(round, run_tools) is Finish <==> !run_tools,
        round + 1 == MAX_TOOL_ROUNDS && run_tools ==> loop_step_spec(round, run_tools) is GiveUp,
{
}

/// Where an answer's tool loop stands.
pub enum LoopState {
    /// Round `n` (counted from 0) is under way or about to start.
    Running(u32),
    /// The answer is over; its final event was sent.
    Finished,
}

/// What happens to the tool loop.
pub enum LoopInput {
    /// A round starts.
    Begin,
    /// A round ended, with tool calls to run or not.
    End(bool),
    /// The request or the stream failed.
    Fail,
}

/// What the tool loop sends to the conversation at one step.
pub enum LoopOutput {
    Silent,
    /// The round's announcement.
    Notice(u32),
    /// The answer is complete.
    Done,
    /// The answer failed.
    Failed,
}

/// An output that ends the answer.
pub open spec fn is_final(o: LoopOutput) -> bool {
    o is Done || o is Failed
}

/// One step of the tool loop.
pub open spec fn loop_next(s: LoopState, i: LoopInput) -> (LoopState, LoopOutput) {
    match s {
        LoopState::Finished => (LoopState::Finished, LoopOutput::Silent),
        LoopState::Running(r) => match i {
            LoopInput::Begin => (
                LoopState::Running(r),
                if r > 0 { LoopOutput::Notice(r) } else { LoopOutput::Silent },
            ),
            LoopInput::End(run_tools) => match loop_step_spec(r, run_tools) {
                LoopStep::Finish => (LoopState::Finished, LoopOutput::Done),
                LoopStep::Next(n) => (LoopState::Running(n), LoopOutput::Silent),
                LoopStep::GiveUp => (LoopState::Finished, LoopOutput::Failed),
            },
            LoopInput::Fail => (LoopState::Finished, LoopOutput::Failed),
        },
    }
}

/// The state after the inputs `ins` from `s`, and the outputs sent on the
/// way (silent steps send nothing).
pub open spec fn run_loop(s: LoopState, ins: Seq<LoopInput>) -> (LoopState, Seq<LoopOutput>)
    decreases ins.len(),
{
    if ins.len() == 0 {
        (s, Seq::empty())
    } else {
        let before = run_loop(s, ins.drop_last());
        let step = loop_next(before.0, ins.last());
        (step.0, before.1 + if step.1 is Silent { Seq::empty() } else { seq![step.1] })
    }
}

/// A running loop stays below the round limit.
pub open spec fn loop_state_ok(s: LoopState) -> bool {
    s matches LoopState::Running(r) ==> r < MAX_TOOL_ROUNDS
}

/// Whatever happens (rounds, tool calls, failures), an answer sends at most
/// one final event, "done" or "failed", and it is the last thing it sends;
/// the loop is over exactly when it has been sent; and rounds stay below the
/// limit.
pub proof fn law_one_final_event_last(ins: Seq<LoopInput>)
    ensures
        ({
            let (f, outs) = run_loop(LoopState::Running(0), ins);
            &&& forall|i: int| 0 <= i < outs.len() && is_final(#[trigger] outs[i]) ==> i == outs.len() - 1
            &&& (f is Finished <==> exists|i: int| 0 <= i < outs.len() && is_final(#[trigger] outs[i]))
            &&& loop_state_ok(f)
        }),
    decreases ins.len(),
{
    if ins.len() > 0 {
        law_one_final_event_last(ins.drop_last());
        let (s1, o1) = run_loop(LoopState::Running(0), ins.drop_last());
        let step = loop_next(s1, ins.last());
        let outs = run_loop(LoopState::Running(0), ins).1;
        let added: Seq<LoopOutput> = if step.1 is Silent { Seq::empty() } else { seq![step.1] };
        assert(outs == o1 + added);
        match s1 {
            LoopState::Finished => {
                assert(outs =~= o1);
            },
            LoopState::Running(r) => {
                assert forall|i: int| 0 <= i < o1.len() implies !is_final(#[trigger] o1[i]) by {}
                if step.1 is Silent {
                    assert(outs =~= o1);
                } else {
                    assert(outs[outs.len() - 1] == step.1);
                    assert forall|i: int| 0 <= i < outs.len() - 1 implies outs[i] == o1[i] by {}
                    if is_final(step.1) {
                        assert(is_final(outs[outs.len() - 1]));
                    }
                }
            },
        }
    }
}

/// The tool loop of one answer: which round runs and whether the answer is
/// over.
pub struct ToolLoop {
    round: u32,
    finished: bool,
}

/// The event that goes with a loop output.
pub open spec fn event_matches(e: Option<Incoming>, o: LoopOutput) -> bool {
    match o {
        LoopOutput::Silent => e is None,
        LoopOutput::Notice(n) => e matches Some(Incoming::ToolLoopIteration(m)) && m == n,
        LoopOutput::Done => e matches Some(Incoming::StreamDone),
        LoopOutput::Failed => e matches Some(Incoming::StreamError(_)),
    }
}

impl ToolLoop {
    /// Where the loop stands.
    pub closed spec fn state(&self) -> LoopState {
        if self.finished { LoopState::Finished } else { LoopState::Running(self.round) }
    }

    /// Internal consistency.
    pub closed spec fn wf(&self) -> bool {
        !self.finished ==> self.round < MAX_TOOL_ROUNDS
    }

    /// A loop about to start its first round.
    pub fn new() -> (l: Self)
        ensures
            l.wf(),
            l.state() == LoopState::Running(0),
    {
        ToolLoop { round: 0, finished: false }
    }

    /// The answer is not over yet.
    pub fn is_running(&self) -> (b: bool)
        ensures
            b == (self.state() is Running),
    {
        !self.finished
    }

    /// A round starts: every round but the first is announced.
    pub fn begin_round(&mut self) -> (e: Option<Incoming>)
        requires
            old(self).wf(),
        ensures
            final(self).wf(),
            final(self).state() == loop_next(old(self).state(), LoopInput::Begin).0,
            event_matches(e, loop_next(old(self).state(), LoopInput::Begin).1),
    {
        if self.finished {
            None
        } else {
            round_notice(self.round)
        }
    }

    /// A round ended: the next round starts, or the answer is complete, or
    /// the rounds ran out (the answer fails with the matching message).
    pub fn end_round(&mut self, run_tools: bool) -> (e: Option<Incoming>)
        requires
            old(self).wf(),
        ensures
            final(self).wf(),
            final(self).state() == loop_next(old(self).state(), LoopInput::End(run_tools)).0,
            event_matches(e, loop_next(old(self).state(), LoopInput::End(run_tools)).1),
            e matches Some(Incoming::StreamError(t)) ==> t@ == rounds_exhausted_spec(),
    {
        if self.finished {
            return None;
        }
        match after_round(self.round, run_tools) {
            LoopStep::Finish => {
                self.finished = true;
                Some(Incoming::StreamDone)
            },
            LoopStep::Next(n) => {
                self.round = n;
                None
            },
            LoopStep::GiveUp => {
                self.finished = true;
                Some(Incoming::StreamError(rounds_exhausted()))
            },
        }
    }

    /// The request or the stream failed: the answer fails with `message`.
    pub fn fail(&mut self, message: String) -> (e: Option<Incoming>)
        requires
            old(self).wf(),
        ensures
            final(self).wf(),
            final(self).state() == loop_next(old(self).state(), LoopInput::Fail).0,
            event_matches(e, loop_next(old(self).state(), LoopInput::Fail).1),
            e matches Some(Incoming::StreamError(t)) ==> t@ == message@,
    {
        if self.finished {
            None
        } else {
            self.finished = true;
            Some(Incoming::StreamError(message))
        }
    }
}

/// Error text when the request could not be sent.
pub open spec fn http_error_spec(detail: Seq<char>) -> Seq<char> {
    "HTTP error: "@ + detail
}

/// Error text when the server answers with a failure status.
pub open spec fn status_error_spec(status: Seq<char>, body: Seq<char>) -> Seq<char> {
    "LM Studio "@ + status + " : "@ + body
}

/// Error text when the stream breaks.
pub open spec fn stream_error_spec(detail: Seq<char>) -> Seq<char> {
    "Stream error: "@ + detail
}

/// Error text when the tool loop runs out of rounds.
pub open spec fn rounds_exhausted_spec() -> Seq<char> {
    "Boucle tool_use : max 10 iterations atteint"@
}

pub fn http_error(detail: &str) -> (t: String)
    ensures
        t@ == http_error_spec(detail@),
{
    let mut t = "HTTP error: ".to_owned();
    push_str(&mut t, detail);
    t
}

pub fn status_error(status: &str, body: &str) -> (t: String)
    ensures
        t@ == status_error_spec(status@, body@),
{
    let mut t = "LM Studio ".to_owned();
    push_str(&mut t, status);
    push_str(&mut t, " : ");
    push_str(&mut t, body);
    t
}

pub fn stream_error(detail: &str) -> (t: String)
    ensures
        t@ == stream_error_spec(detail@),
{
    let mut t = "Stream error: ".to_owned();
    push_str(&mut t, detail);
    t
}

pub fn rounds_exhausted() -> (t: String)
    ensures
        t@ == rounds_exhausted_spec(),
{
    "Boucle tool_use : max 10 iterations atteint".to_owned()
}

} // verus!
