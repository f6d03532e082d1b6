//! What the model server answers besides the chat stream: its list of
//! models.

use vstd::prelude::*;
use crate::chat::ModelInfo;
use crate::json::{json_array_len_at, json_str_at, spec_json_array_len_at, spec_json_str_at};
use crate::text::{decimal, decimal_usize, push_str, str_eq};

verus! {

/// Pointer to field `field` of the `k`-th model of the list.
pub open spec fn model_ptr(k: nat, field: Seq<char>) -> Seq<char> {
    "/models/"@ + decimal(k) + field
}

/// What the list says of its `k`-th entry: a model (its key, and whether an
/// instance is loaded) when it is a language model with a key.
pub open spec fn listed_model(body: Seq<char>, k: nat) -> Option<(Seq<char>, bool)> {
    if spec_json_str_at(body, model_ptr(k, "/type"@)) == Some("llm"@) {
        match spec_json_str_at(body, model_ptr(k, "/key"@)) {
            Some(id) => Some(
                (
                    id,
                    match spec_json_array_len_at(body, model_ptr(k, "/loaded_instances"@)) {
                        Some(n) => n > 0,
                        None => false,
                    },
                ),
            ),
            None => None,
        }
    } else {
        None
    }
}

/// The models of the entries `0..n` of the list, in order.
pub open spec fn listed_models(body: Seq<char>, n: nat) -> Seq<(Seq<char>, bool)>
    decreases n,
{
    if n == 0 {
        Seq::empty()
    } else {
        let rest = listed_models(body, (n - 1) as nat);
        match listed_model(body, (n - 1) as nat) {
            Some(m) => rest.push(m),
            None => rest,
        }
    }
}

/// The language models of the server's answer `body` (none when it holds no
/// list).
pub open spec fn models_of(body: Seq<char>) -> Seq<(Seq<char>, bool)> {
    match spec_json_array_len_at(body, "/models"@) {
        Some(n) => listed_models(body, n as nat),
        None => Seq::empty(),
    }
}

fn model_ptr_exec(k: usize, field: &str) -> (p: String)
    ensures
        p@ == model_ptr(k as nat, field@),
{
    let mut p = "/models/".to_owned();
    let d = decimal_usize(k);
    push_str(&mut p, d.as_str());
    push_str(&mut p, field);
    p
}

/// Reads the server's list of models.
pub fn parse_models(body: &str) -> (ms: Vec<ModelInfo>)
    ensures
        ms@.map_values(|m: ModelInfo| (m.id@, m.loaded)) == models_of(body@),
{
    let n = match json_array_len_at(body, "/models") {
        Some(n) => n,
        None => {
            let v: Vec<ModelInfo> = Vec::new();
            assert(v@.map_values(|m: ModelInfo| (m.id@, m.loaded)) =~= Seq::<
                (Seq<char>, bool),
            >::empty());
            return v;
        },
    };
    let mut out: Vec<ModelInfo> = Vec::new();
    let mut k: usize = 0;
    while k < n
        invariant
            k <= n,
            spec_json_array_len_at(body@, "/models"@) == Some(n),
            out@.map_values(|m: ModelInfo| (m.id@, m.loaded)) == listed_models(body@, k as nat),
        decreases n - k,
    {
        let ghost before = out@.map_values(|m: ModelInfo| (m.id@, m.loaded));
        let pt = model_ptr_exec(k, "/type");
        let is_llm = match json_str_at(body, pt.as_str()) {
            Some(t) => str_eq(t.as_str(), "llm"),
            None => false,
        };
        if is_llm {
            let pk = model_ptr_exec(k, "/key");
            match json_str_at(body, pk.as_str()) {
                Some(id) => {
                    let pl = model_ptr_exec(k, "/loaded_instances");
                    let loaded = match json_array_len_at(body, pl.as_str()) {
                        Some(c) => c > 0,
                        None => false,
                    };
                    out.push(ModelInfo { id, loaded });
                    assert(out@.map_values(|m: ModelInfo| (m.id@, m.loaded)) =~= before.push(
                        listed_model(body@, k as nat)->0,
                    ));
                },
                None => {},
            }
        }
        k = k + 1;
    }
    out
}

} // verus!
