use test_egui_chat::predictor::{
    auto_max_tokens, bucket_fallback, bucket_name, bucket_of, clamp_prediction, PredictionRule,
    Predictor,
};
use test_egui_chat::sycophancy::{score_sycophancy, SycoMeter};

#[test]
fn buckets_by_prompt_length() {
    assert_eq!(bucket_of(0), 0);
    assert_eq!(bucket_of(60), 0);
    assert_eq!(bucket_of(61), 1);
    assert_eq!(bucket_of(300), 1);
    assert_eq!(bucket_of(301), 2);
    assert_eq!(bucket_of(1000), 2);
    assert_eq!(bucket_of(1001), 3);
    assert_eq!(bucket_of(3000), 3);
    assert_eq!(bucket_of(3001), 4);
    assert_eq!(bucket_of(usize::MAX), 4);
}

#[test]
fn fallback_budgets() {
    assert_eq!(auto_max_tokens(10), 1024);
    assert_eq!(auto_max_tokens(200), 2048);
    assert_eq!(auto_max_tokens(999), 4096);
    assert_eq!(auto_max_tokens(2000), 8192);
    assert_eq!(auto_max_tokens(100_000), 16384);
    assert_eq!(bucket_fallback(0), 1024);
    assert_eq!(bucket_fallback(4), 16384);
    assert_eq!(bucket_name(0), "tiny");
    assert_eq!(bucket_name(2), "medium");
    assert_eq!(bucket_name(4), "xlong");
}

#[test]
fn clamp_keeps_budget_in_bounds() {
    assert_eq!(clamp_prediction(0), 512);
    assert_eq!(clamp_prediction(511), 512);
    assert_eq!(clamp_prediction(2000), 2000);
    assert_eq!(clamp_prediction(16385), 16384);
}

#[test]
fn prediction_rule_follows_observations() {
    let mut p: Predictor<f32> = Predictor::new();
    assert!(matches!(p.prediction_rule("m", 10), PredictionRule::Fallback { tokens: 1024 }));
    p.record("m", 10, 1024, 300, "stop", 300.0);
    assert!(matches!(p.prediction_rule("m", 10), PredictionRule::Scaled { high_margin: false }));
    p.record("m", 20, 1024, 500, "stop", 360.0);
    assert!(matches!(p.prediction_rule("m", 10), PredictionRule::Scaled { high_margin: false }));
    p.record("m", 30, 1024, 1024, "length", 559.2);
    assert!(matches!(p.prediction_rule("m", 10), PredictionRule::Scaled { high_margin: true }));
    // another bucket and another model are untouched
    assert!(matches!(p.prediction_rule("m", 500), PredictionRule::Fallback { tokens: 4096 }));
    assert!(matches!(p.prediction_rule("other", 10), PredictionRule::Fallback { tokens: 1024 }));
}

#[test]
fn record_then_read_counters() {
    let mut p: Predictor<f32> = Predictor::new();
    p.record("m", 100, 2048, 700, "length", 700.0);
    p.record("m", 120, 4096, 900, "stop", 760.0);
    let r = p.get("m", 150).unwrap();
    assert_eq!(r.counters.samples, 2);
    assert_eq!(r.counters.length_hits, 1);
    assert_eq!(r.counters.last_allocated, 4096);
    assert_eq!(r.counters.last_used, 900);
    assert_eq!(r.counters.last_finish, "stop");
    assert_eq!(r.ema, 760.0);
    assert!(p.get("m", 10).is_none());
    assert!(p.get_bucket("m", 1).is_some());
}

#[test]
fn sycophancy_short_flattery() {
    let t = score_sycophancy("Great question! 🔥🔥");
    assert_eq!(t.base, 21);
    assert!(t.amplify);
    assert_eq!(t.flags, vec!["« great question »".to_string(), "🔥×2".to_string()]);
}

#[test]
fn sycophancy_is_case_insensitive() {
    let t = score_sycophancy("EXCELLENT QUESTION");
    assert_eq!(t.base, 15);
    assert!(t.amplify);
    assert_eq!(t.flags, vec!["« excellent question »".to_string()]);
}

#[test]
fn sycophancy_patterns_in_list_order() {
    let t = score_sycophancy("You're absolutely right! Bravo");
    assert_eq!(t.base, 32);
    assert_eq!(
        t.flags,
        vec![
            "« absolutely right »".to_string(),
            "« you're absolutely right »".to_string(),
            "« bravo »".to_string()
        ]
    );
}

#[test]
fn sycophancy_caps_openers() {
    let t = score_sycophancy("excellent question great question great point");
    assert_eq!(t.base, 35);
    assert_eq!(t.flags.len(), 3);
}

#[test]
fn sycophancy_unhedged_long_answer() {
    let long = "word ".repeat(31);
    let t = score_sycophancy(&long);
    assert_eq!(t.base, 20);
    assert!(!t.amplify);
    assert_eq!(t.flags, vec!["∅ hedging".to_string()]);
    let hedged = format!("{} however", "word ".repeat(31));
    let h = score_sycophancy(&hedged);
    assert_eq!(h.base, 0);
    assert!(h.flags.is_empty());
    assert!(!h.amplify);
}

#[test]
fn sycophancy_neutral_text() {
    let t = score_sycophancy("Voici le resultat.");
    assert_eq!(t.base, 0);
    assert!(!t.amplify);
    assert!(t.flags.is_empty());
}

#[test]
fn meter_counts_readings_per_model() {
    let mut m: SycoMeter<f32> = SycoMeter::new();
    assert_eq!(m.len(), 0);
    m.record("a", 10.0, 10.0, vec!["x".to_string()]);
    m.record("a", 12.0, 14.0, vec![]);
    m.record("b", 50.0, 50.0, vec![]);
    assert_eq!(m.len(), 2);
    let a = m.get("a").unwrap();
    assert_eq!(a.samples, 2);
    assert_eq!(a.ema, 12.0);
    assert_eq!(a.last_score, 14.0);
    assert!(a.last_flags.is_empty());
    assert_eq!(m.get("b").unwrap().samples, 1);
    assert!(m.get("c").is_none());
}

#[test]
fn cutoff_widens_margin() {
    let mut p: Predictor<f32> = Predictor::new();
    p.record("m", 5, 1024, 1024, "length", 1024.0);
    assert!(matches!(p.prediction_rule("m", 5), PredictionRule::Scaled { high_margin: true }));
    p.record("m", 5, 1024, 200, "stop", 777.0);
    assert!(matches!(p.prediction_rule("m", 5), PredictionRule::Scaled { high_margin: true }));
}
