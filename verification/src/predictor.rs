//! Token-budget prediction. Prompts fall into five size buckets; for each
//! (model, bucket) the predictor keeps counters of what the model really used
//! and a running average supplied by the caller, and decides which rule sets
//! the next `max_tokens`.

use vstd::prelude::*;
use crate::table::ModelTable;
use crate::text::str_eq;

verus! {

/// Number of prompt-size buckets.
pub const BUCKET_COUNT: usize = 5;

/// Smallest budget the scaled rule allows.
pub const MIN_PREDICTION: u32 = 512;

/// Largest budget the scaled rule allows.
pub const MAX_PREDICTION: u32 = 16384;

/// Bucket of a prompt of `chars` characters: up to 60, 300, 1000, 3000, or more.
pub open spec fn bucket_spec(chars: nat) -> nat {
    if chars <= 60 {
        0
    } else if chars <= 300 {
        1
    } else if chars <= 1000 {
        2
    } else if chars <= 3000 {
        3
    } else {
        4
    }
}

/// Fallback budget of a bucket: 1024, 2048, 4096, 8192, 16384.
pub open spec fn fallback_tokens(bucket: nat) -> u32 {
    if bucket == 0 {
        1024
    } else if bucket == 1 {
        2048
    } else if bucket == 2 {
        4096
    } else if bucket == 3 {
        8192
    } else {
        16384
    }
}

/// Display name of a bucket.
pub open spec fn bucket_name_spec(bucket: nat) -> Seq<char> {
    if bucket == 0 {
        "tiny"@
    } else if bucket == 1 {
        "short"@
    } else if bucket == 2 {
        "medium"@
    } else if bucket == 3 {
        "long"@
    } else {
        "xlong"@
    }
}

/// Index (0..5) of the bucket a prompt of `chars` characters falls in.
pub fn bucket_of(chars: usize) -> (b: usize)
    ensures
        b == bucket_spec(chars as nat),
        b < BUCKET_COUNT,
{
    if chars <= 60 {
        0
    } else if chars <= 300 {
        1
    } else if chars <= 1000 {
        2
    } else if chars <= 3000 {
        3
    } else {
        4
    }
}

/// Budget used when nothing has been observed yet for this prompt size.
pub fn auto_max_tokens(prompt_chars: usize) -> (t: u32)
    ensures
        t == fallback_tokens(bucket_spec(prompt_chars as nat)),
{
    bucket_fallback(bucket_of(prompt_chars))
}

/// Fallback budget of bucket `bucket`.
pub fn bucket_fallback(bucket: usize) -> (t: u32)
    requires
        bucket < BUCKET_COUNT,
    ensures
        t == fallback_tokens(bucket as nat),
{
    if bucket == 0 {
        1024
    } else if bucket == 1 {
        2048
    } else if bucket == 2 {
        4096
    } else if bucket == 3 {
        8192
    } else {
        16384
    }
}

/// Display name of bucket `bucket`.
pub fn bucket_name(bucket: usize) -> (name: &'static str)
    requires
        bucket < BUCKET_COUNT,
    ensures
        name@ == bucket_name_spec(bucket as nat),
{
    if bucket == 0 {
        "tiny"
    } else if bucket == 1 {
        "short"
    } else if bucket == 2 {
        "medium"
    } else if bucket == 3 {
        "long"
    } else {
        "xlong"
    }
}

/// Budget of the scaled rule kept within [`MIN_PREDICTION`, `MAX_PREDICTION`].
pub fn clamp_prediction(raw: u32) -> (t: u32)
    ensures
        t == if raw < MIN_PREDICTION { MIN_PREDICTION } else if raw > MAX_PREDICTION {
            MAX_PREDICTION
        } else {
            raw
        },
{
    if raw < MIN_PREDICTION {
        MIN_PREDICTION
    } else if raw > MAX_PREDICTION {
        MAX_PREDICTION
    } else {
        raw
    }
}

/// What was observed for one (model, bucket).
pub struct BucketCounters {
    /// Observations recorded.
    pub samples: u32,
    /// Observations that ended with finish reason "length" (cut off).
    pub length_hits: u32,
    /// Budget allocated last time.
    pub last_allocated: u32,
    /// Completion tokens used last time.
    pub last_used: u32,
    /// Finish reason seen last time.
    pub last_finish: String,
}

/// Counters and the caller's running average for one (model, bucket).
pub struct BucketRecord<E> {
    /// Running average of tokens used, kept by the caller.
    pub ema: E,
    pub counters: BucketCounters,
}

/// The counters after one more observation.
pub open spec fn counters_after(
    prev: Option<BucketCounters>,
    c: BucketCounters,
    allocated: u32,
    used: u32,
    finish: Seq<char>,
) -> bool {
    let samples: int = match prev { Some(p) => p.samples as int, None => 0 };
    let hits: int = match prev { Some(p) => p.length_hits as int, None => 0 };
    &&& c.samples == samples + 1
    &&& c.length_hits == hits + if finish == "length"@ { 1int } else { 0int }
    &&& c.last_allocated == allocated
    &&& c.last_used == used
    &&& c.last_finish@ == finish
}

/// How the next budget is set for a (model, bucket).
pub enum PredictionRule {
    /// Nothing observed: use this fixed budget.
    Fallback { tokens: u32 },
    /// Running mean times a margin (1.8 when the model was cut off before,
    /// 1.3 otherwise), then kept within bounds by [`clamp_prediction`].
    Scaled { high_margin: bool },
}

/// The rule that applies given what is known of a (model, bucket).
pub open spec fn prediction_rule_spec(prev: Option<BucketCounters>, prompt_chars: nat) -> PredictionRule {
    match prev {
        None => PredictionRule::Fallback { tokens: fallback_tokens(bucket_spec(prompt_chars)) },
        Some(c) => if c.samples == 0 {
            PredictionRule::Fallback { tokens: fallback_tokens(bucket_spec(prompt_chars)) }
        } else {
            PredictionRule::Scaled { high_margin: c.length_hits > 0 }
        },
    }
}

/// Per (model, bucket) observations.
pub struct Predictor<E> {
    tiny: ModelTable<BucketRecord<E>>,
    short: ModelTable<BucketRecord<E>>,
    medium: ModelTable<BucketRecord<E>>,
    long: ModelTable<BucketRecord<E>>,
    xlong: ModelTable<BucketRecord<E>>,
}

impl<E> Predictor<E> {
    spec fn table(&self, bucket: nat) -> ModelTable<BucketRecord<E>> {
        if bucket == 0 {
            self.tiny
        } else if bucket == 1 {
            self.short
        } else if bucket == 2 {
            self.medium
        } else if bucket == 3 {
            self.long
        } else {
            self.xlong
        }
    }

    /// Internal consistency.
    pub closed spec fn wf(&self) -> bool {
        &&& self.tiny.wf()
        &&& self.short.wf()
        &&& self.medium.wf()
        &&& self.long.wf()
        &&& self.xlong.wf()
    }

    /// What is recorded for `model` in bucket `bucket` (`bucket < 5`).
    pub closed spec fn lookup(&self, model: Seq<char>, bucket: nat) -> Option<BucketRecord<E>> {
        let t = self.table(bucket).view();
        if bucket < BUCKET_COUNT && t.contains_key(model) {
            Some(t[model])
        } else {
            None
        }
    }

    /// What is recorded for the bucket a prompt of `prompt_chars` characters falls in.
    pub open spec fn lookup_prompt(&self, model: Seq<char>, prompt_chars: nat) -> Option<BucketRecord<E>> {
        self.lookup(model, bucket_spec(prompt_chars))
    }

    /// The counters recorded for `model` in the bucket of `prompt_chars`.
    pub open spec fn counters(&self, model: Seq<char>, prompt_chars: nat) -> Option<BucketCounters> {
        match self.lookup_prompt(model, prompt_chars) {
            Some(r) => Some(r.counters),
            None => None,
        }
    }

    /// An empty predictor.
    pub fn new() -> (p: Self)
        ensures
            p.wf(),
            forall|m: Seq<char>, b: nat| p.lookup(m, b) is None,
    {
        Predictor {
            tiny: ModelTable::new(),
            short: ModelTable::new(),
            medium: ModelTable::new(),
            long: ModelTable::new(),
            xlong: ModelTable::new(),
        }
    }

    fn table_exec(&self, bucket: usize) -> (t: &ModelTable<BucketRecord<E>>)
        requires
            bucket < BUCKET_COUNT,
        ensures
            *t == self.table(bucket as nat),
    {
        if bucket == 0 {
            &self.tiny
        } else if bucket == 1 {
            &self.short
        } else if bucket == 2 {
            &self.medium
        } else if bucket == 3 {
            &self.long
        } else {
            &self.xlong
        }
    }

    /// The record for `model` in the bucket of `prompt_chars`, if any.
    pub fn get(&self, model: &str, prompt_chars: usize) -> (r: Option<&BucketRecord<E>>)
        requires
            self.wf(),
        ensures
            r is Some <==> self.lookup_prompt(model@, prompt_chars as nat) is Some,
            r matches Some(rec) ==> self.lookup_prompt(model@, prompt_chars as nat) == Some(*rec),
    {
        let b = bucket_of(prompt_chars);
        self.table_exec(b).get(model)
    }

    /// The record for `model` in bucket `bucket`, if any.
    pub fn get_bucket(&self, model: &str, bucket: usize) -> (r: Option<&BucketRecord<E>>)
        requires
            self.wf(),
            bucket < BUCKET_COUNT,
        ensures
            r is Some <==> self.lookup(model@, bucket as nat) is Some,
            r matches Some(rec) ==> self.lookup(model@, bucket as nat) == Some(*rec),
    {
        self.table_exec(bucket).get(model)
    }

    /// Which rule sets the next budget for `model` and a prompt of `prompt_chars` characters.
    pub fn prediction_rule(&self, model: &str, prompt_chars: usize) -> (rule: PredictionRule)
        requires
            self.wf(),
        ensures
            rule == prediction_rule_spec(self.counters(model@, prompt_chars as nat), prompt_chars as nat),
    {
        match self.get(model, prompt_chars) {
            None => PredictionRule::Fallback { tokens: auto_max_tokens(prompt_chars) },
            Some(rec) => {
                if rec.counters.samples == 0 {
                    PredictionRule::Fallback { tokens: auto_max_tokens(prompt_chars) }
                } else {
                    PredictionRule::Scaled { high_margin: rec.counters.length_hits > 0 }
                }
            },
        }
    }

    /// Records one finished generation for `model` with a prompt of
    /// `prompt_chars` characters: `allocated` tokens were allowed, `used`
    /// were used, and it ended with `finish`. `ema` is the caller's new
    /// running average for that (model, bucket).
    pub fn record(
        &mut self,
        model: &str,
        prompt_chars: usize,
        allocated: u32,
        used: u32,
        finish: &str,
        ema: E,
    )
        requires
            old(self).wf(),
            old(self).counters(model@, prompt_chars as nat) matches Some(c) ==> c.samples < u32::MAX
                && c.length_hits < u32::MAX,
        ensures
            final(self).wf(),
            final(self).lookup_prompt(model@, prompt_chars as nat) matches Some(r) && r.ema == ema
                && counters_after(
                old(self).counters(model@, prompt_chars as nat),
                r.counters,
                allocated,
                used,
                finish@,
            ),
            forall|m: Seq<char>, b: nat|
                !(m == model@ && b == bucket_spec(prompt_chars as nat)) ==> final(self).lookup(m, b)
                    == old(self).lookup(m, b),
    {
        let b = bucket_of(prompt_chars);
        let (samples, hits) = match self.get(model, prompt_chars) {
            Some(rec) => (rec.counters.samples, rec.counters.length_hits),
            None => (0, 0),
        };
        let is_length = str_eq(finish, "length");
        let counters = BucketCounters {
            samples: samples + 1,
            length_hits: if is_length { hits + 1 } else { hits },
            last_allocated: allocated,
            last_used: used,
            last_finish: finish.to_owned(),
        };
        let rec = BucketRecord { ema, counters };
        if b == 0 {
            self.tiny.insert(model, rec);
        } else if b == 1 {
            self.short.insert(model, rec);
        } else if b == 2 {
            self.medium.insert(model, rec);
        } else if b == 3 {
            self.long.insert(model, rec);
        } else {
            self.xlong.insert(model, rec);
        }
    }
}

/// After an answer cut off by the budget ("length"), the bucket counts a
/// cut, so the wider margin (1.8) applies to its next budget; and every
/// observation counts one more sample.
pub proof fn law_cutoff_widens_margin(
    prev: Option<BucketCounters>,
    c: BucketCounters,
    allocated: u32,
    used: u32,
    prompt_chars: nat,
)
    requires
        counters_after(prev, c, allocated, used, "length"@),
    ensures
        c.length_hits > 0,
        c.samples >= 1,
        prediction_rule_spec(Some(c), prompt_chars) == (PredictionRule::Scaled { high_margin: true }),
{
}

/// A bucket with no observation uses its fixed budget; from the first
/// observation on, the running mean times the margin (1.3 without a cut-off)
/// sets it.
pub proof fn law_first_observation_scales(
    c: BucketCounters,
    allocated: u32,
    used: u32,
    finish: Seq<char>,
    prompt_chars: nat,
)
    requires
        counters_after(None, c, allocated, used, finish),
    ensures
        prediction_rule_spec(None, prompt_chars) == (PredictionRule::Fallback {
            tokens: fallback_tokens(bucket_spec(prompt_chars)),
        }),
        finish != "length"@ ==> prediction_rule_spec(Some(c), prompt_chars) == (PredictionRule::Scaled {
            high_margin: false,
        }),
{
}

} // verus!
