use auria_node::handlers::{detokenize, supported_tiers, tokenize, InferenceRun};
use auria_node::startup::{
    bootstrap_address, cluster_timing, p2p_port_or_default, p2p_settings,
    settlement_contract_or_zero, settlement_schedule, ClusterTiming, SettlementSchedule,
    DEFAULT_P2P_PORT,
};
use auria_node::text::count_words;
use auria_node::types::{Tensor, TensorDType, UsageInfo};
use auria_node::Tier;

fn tensor_of(data: Vec<u8>) -> Tensor {
    let len = data.len() as u32;
    Tensor { data, shape: vec![1, len], dtype: TensorDType::INT8 }
}

#[test]
fn tokenize_ors_the_bytes_of_each_pair() {
    let t = tokenize("abcde");
    assert_eq!(t.data, vec![b'a' | b'b', b'c' | b'd', b'e']);
    assert_eq!(t.data, vec![0x63, 0x67, 0x65]);
    assert_eq!(t.shape, vec![1, 3]);
    assert_eq!(t.dtype, TensorDType::INT8);
}

#[test]
fn tokenize_even_length() {
    let t = tokenize("hello!");
    assert_eq!(t.data, vec![0x6d, 0x6c, 0x6f]);
    assert_eq!(t.shape, vec![1, 3]);
}

#[test]
fn tokenize_empty_prompt() {
    let t = tokenize("");
    assert!(t.data.is_empty());
    assert_eq!(t.shape, vec![1, 0]);
}

#[test]
fn tokenize_works_on_utf8_bytes() {
    // "é" is the two bytes 0xc3 0xa9.
    let t = tokenize("é!");
    assert_eq!(t.data, vec![0xc3 | 0xa9, b'!']);
    assert_eq!(t.shape, vec![1, 2]);
}

#[test]
fn detokenize_splits_on_spaces() {
    let words = detokenize(&tensor_of(b"hello  big world ".to_vec()));
    assert_eq!(words, vec!["hello".to_string(), "big".to_string(), "world".to_string()]);
}

#[test]
fn detokenize_drops_unprintable_bytes() {
    let words = detokenize(&tensor_of(vec![b'a', 0x00, b'b', b'\n', b'c', 0x7f]));
    assert_eq!(words, vec!["abc".to_string()]);
}

#[test]
fn detokenize_reads_seven_bits() {
    // 0xe1 & 0x7f is 'a', 0xa0 & 0x7f is the space.
    let words = detokenize(&tensor_of(vec![0xe1, 0xa0, b'b']));
    assert_eq!(words, vec!["a".to_string(), "b".to_string()]);
}

#[test]
fn detokenize_without_words_gives_placeholder() {
    assert_eq!(detokenize(&tensor_of(vec![])), vec!["[generated]".to_string()]);
    assert_eq!(detokenize(&tensor_of(vec![b' ', 0x01, b' '])), vec!["[generated]".to_string()]);
}

#[test]
fn count_words_on_unicode_white_space() {
    assert_eq!(count_words(""), 0);
    assert_eq!(count_words("   "), 0);
    assert_eq!(count_words("one"), 1);
    assert_eq!(count_words(" one  two\tthree\n"), 3);
    assert_eq!(count_words("a\u{3000}b\u{00a0}c"), 3);
    assert_eq!(count_words("héllo wörld"), 2);
}

#[test]
fn count_words_matches_split_whitespace() {
    for s in ["", "x", "  a b  ", "a\u{2009}b\u{85}c", "tab\tsep\u{202f}x y"] {
        assert_eq!(count_words(s), s.split_whitespace().count());
    }
}

#[test]
fn usage_sums_prompt_and_completion() {
    let u = UsageInfo::for_request("tell me a story", 20);
    assert_eq!(u, UsageInfo { prompt_tokens: 4, completion_tokens: 20, total_tokens: 24 });
    let u = UsageInfo::for_request("", 0);
    assert_eq!(u, UsageInfo { prompt_tokens: 0, completion_tokens: 0, total_tokens: 0 });
}

#[test]
fn supported_tiers_are_all_four() {
    assert_eq!(supported_tiers(), [Tier::Nano, Tier::Standard, Tier::Pro, Tier::Max]);
}

#[test]
fn inference_run_gathers_step_tokens_in_order() {
    let mut run = InferenceRun::new(3);
    let mut steps = Vec::new();
    while let Some(step) = run.next_step() {
        steps.push(step);
        assert_eq!(run.exec_state.position, step);
        run.absorb_step(vec![format!("t{}", step), "x".to_string()]);
    }
    assert_eq!(steps, vec![0, 1, 2]);
    let out = run.finish();
    assert_eq!(out.tokens, vec!["t0", "x", "t1", "x", "t2", "x"]);
    assert_eq!(out.usage.tokens_generated, 3);
}

#[test]
fn inference_run_with_no_steps() {
    let run = InferenceRun::new(0);
    assert_eq!(run.next_step(), None);
    let out = run.finish();
    assert!(out.tokens.is_empty());
    assert_eq!(out.usage.tokens_generated, 0);
}

#[test]
fn bootstrap_address_adds_default_port() {
    assert_eq!(bootstrap_address("10.0.0.5"), "10.0.0.5:9000");
    assert_eq!(bootstrap_address("peer.example:7000"), "peer.example:7000");
    assert_eq!(bootstrap_address(""), ":9000");
}

#[test]
fn p2p_port_defaults_to_9000() {
    assert_eq!(DEFAULT_P2P_PORT, 9000);
    assert_eq!(p2p_port_or_default(None), 9000);
    assert_eq!(p2p_port_or_default(Some(7777)), 7777);
}

#[test]
fn settlement_contract_defaults_to_zero_address() {
    assert_eq!(
        settlement_contract_or_zero(None),
        "0x0000000000000000000000000000000000000000"
    );
    assert_eq!(settlement_contract_or_zero(Some("0xabc".to_string())), "0xabc");
}

#[test]
fn p2p_settings_listen_everywhere() {
    let s = p2p_settings(None);
    assert_eq!(s.listen_address, "0.0.0.0");
    assert_eq!(s.listen_port, 9000);
    assert_eq!(s.max_peers, 50);
    assert!(s.enable_discovery);
    assert_eq!(p2p_settings(Some(4000)).listen_port, 4000);
}

#[test]
fn settlement_and_cluster_settings() {
    assert_eq!(
        settlement_schedule(),
        SettlementSchedule {
            settlement_interval_seconds: 3600,
            min_receipts_for_settlement: 10,
            auto_settle: false,
            settle_on_threshold: true,
            threshold_receipts: 100,
        }
    );
    assert_eq!(
        cluster_timing(),
        ClusterTiming {
            heartbeat_interval_ms: 1000,
            election_timeout_ms: 5000,
            max_workers: 100,
            task_timeout_seconds: 300,
            failure_detection_threshold: 3,
        }
    );
}
