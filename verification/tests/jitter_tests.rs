use audio_bridge::jitter::JitterBuffer;
use audio_bridge::history::{push_latency_sample, push_log_line};
use std::collections::VecDeque;

#[test]
fn frames_play_in_sequence_order() {
    let mut j = JitterBuffer::new();
    j.insert(5, vec![5]);
    j.insert(3, vec![3]);
    j.insert(4, vec![4]);
    assert_eq!(j.len(), 3);
    assert_eq!(j.playout(0, true), Some(vec![3]));
    assert_eq!(j.playout(0, true), Some(vec![4]));
    assert_eq!(j.playout(0, true), Some(vec![5]));
    assert_eq!(j.playout(0, true), None);
}

#[test]
fn playout_waits_for_delay() {
    let mut j = JitterBuffer::new();
    j.insert(1, vec![1]);
    j.insert(2, vec![2]);
    assert_eq!(j.playout(3, true), None);
    assert_eq!(j.len(), 2);
    j.insert(3, vec![3]);
    assert_eq!(j.playout(3, true), Some(vec![1]));
    assert_eq!(j.len(), 2);
}

#[test]
fn playout_drops_oldest_when_far_behind() {
    let mut j = JitterBuffer::new();
    for s in 0..6u64 {
        j.insert(s, vec![s as u8]);
    }
    // 6 held, delay 2: more than 2 + 3, so frame 0 is dropped and frame 1 played.
    assert_eq!(j.playout(2, true), Some(vec![1]));
    assert_eq!(j.len(), 4);
}

#[test]
fn unlicensed_playout() {
    let mut j = JitterBuffer::new();
    j.insert(1, vec![1]);
    j.insert(2, vec![2]);
    assert_eq!(j.playout(1, false), None);
    assert_eq!(j.len(), 1);
    assert_eq!(j.playout(5, false), None);
    assert_eq!(j.len(), 0);
}

#[test]
fn duplicate_sequence_replaces() {
    let mut j = JitterBuffer::new();
    j.insert(7, vec![1]);
    j.insert(7, vec![2]);
    assert_eq!(j.len(), 1);
    assert_eq!(j.pop_first(), Some((7, vec![2])));
    j.clear();
    assert_eq!(j.len(), 0);
}

#[test]
fn log_is_bounded() {
    let mut log: Vec<String> = Vec::new();
    for i in 0..150 {
        push_log_line(&mut log, format!("line {}", i));
        assert!(log.len() <= 100);
    }
    assert_eq!(log.len(), 100);
    assert_eq!(log[0], "line 50");
    assert_eq!(log[99], "line 149");
}

#[test]
fn latency_history_is_bounded() {
    let mut h: VecDeque<f64> = VecDeque::new();
    for i in 0..400 {
        push_latency_sample(&mut h, i as f64);
    }
    assert_eq!(h.len(), 300);
    assert_eq!(h.front(), Some(&100.0));
    assert_eq!(h.back(), Some(&399.0));
}
