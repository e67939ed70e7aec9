use std::collections::HashMap;

use lottery_api::error::AppError;
use lottery_api::lottery::{distinct_participants, draw, select_winners, DrawRequest};

fn names(list: &[&str]) -> Vec<String> {
    list.iter().map(|s| s.to_string()).collect()
}

fn bad_request_message(err: AppError) -> String {
    match err {
        AppError::BadRequest(m) => m,
        AppError::InternalServerError(m) => panic!("expected a rejected request, got: {}", m),
    }
}

#[test]
fn test_draw_success() {
    let req = DrawRequest {
        participants: vec!["a".into(), "b".into(), "c".into()],
        count: 2,
        seed: Some(42),
    };

    let result = draw(req);
    assert!(result.is_ok());

    let resp = result.unwrap();
    assert_eq!(resp.total_participants, 3);
    assert_eq!(resp.unique_participants, 3);
    assert_eq!(resp.winner_count, 2);
    assert_eq!(resp.winners.len(), 2);
}

#[test]
fn test_draw_duplicate_participants_deduped() {
    let req = DrawRequest {
        participants: vec![
            "alice".into(),
            "bob".into(),
            "alice".into(),
            "charlie".into(),
            "bob".into(),
        ],
        count: 2,
        seed: Some(42),
    };

    let result = draw(req);
    assert!(result.is_ok());

    let resp = result.unwrap();
    assert_eq!(resp.total_participants, 5);
    assert_eq!(resp.unique_participants, 3);
    assert_eq!(resp.winner_count, 2);
    assert_eq!(resp.winners.len(), 2);

    let mut winners = resp.winners.clone();
    winners.sort();
    winners.dedup();
    assert_eq!(winners.len(), 2, "中奖者不能有重复");
}

#[test]
fn test_draw_all_duplicates_only_one_unique() {
    let req = DrawRequest {
        participants: vec!["same".into(), "same".into(), "same".into()],
        count: 1,
        seed: None,
    };

    let result = draw(req);
    assert!(result.is_ok());

    let resp = result.unwrap();
    assert_eq!(resp.total_participants, 3);
    assert_eq!(resp.unique_participants, 1);
    assert_eq!(resp.winner_count, 1);
    assert_eq!(resp.winners, vec!["same"]);
}

#[test]
fn test_draw_count_exceeds_unique_participants() {
    let req = DrawRequest {
        participants: vec!["a".into(), "b".into(), "a".into(), "b".into()],
        count: 3,
        seed: None,
    };

    let result = draw(req);
    assert!(result.is_err());
}

#[test]
fn test_draw_winners_all_unique() {
    let participants: Vec<String> = (1..=100).map(|i| format!("user{}", i)).collect();
    let mut all_participants = participants.clone();
    all_participants.extend(participants.iter().take(20).cloned());

    let req = DrawRequest {
        participants: all_participants,
        count: 50,
        seed: Some(999),
    };

    let resp = draw(req).unwrap();

    let mut winners_sorted = resp.winners.clone();
    winners_sorted.sort();
    winners_sorted.dedup();
    assert_eq!(winners_sorted.len(), resp.winners.len(), "中奖列表中不能有重复用户");
    assert_eq!(resp.unique_participants, 100);
}

#[test]
fn test_draw_empty_participants() {
    let req = DrawRequest {
        participants: vec![],
        count: 1,
        seed: None,
    };

    let result = draw(req);
    assert!(result.is_err());
}

#[test]
fn test_draw_zero_count() {
    let req = DrawRequest {
        participants: vec!["a".into()],
        count: 0,
        seed: None,
    };

    let result = draw(req);
    assert!(result.is_err());
}

#[test]
fn test_draw_count_exceeds_participants() {
    let req = DrawRequest {
        participants: vec!["a".into(), "b".into()],
        count: 5,
        seed: None,
    };

    let result = draw(req);
    assert!(result.is_err());
}

#[test]
fn test_draw_deterministic_with_seed() {
    let participants: Vec<String> = (1..=10).map(|i| format!("user{}", i)).collect();

    let req1 = DrawRequest {
        participants: participants.clone(),
        count: 3,
        seed: Some(123),
    };

    let req2 = DrawRequest {
        participants,
        count: 3,
        seed: Some(123),
    };

    let resp1 = draw(req1).unwrap();
    let resp2 = draw(req2).unwrap();

    assert_eq!(resp1.winners, resp2.winners);
}

#[test]
fn test_randomness_distribution() {
    let participants: Vec<String> = (1..=10).map(|i| format!("user{}", i)).collect();
    let mut win_counts: HashMap<String, usize> = HashMap::new();

    let trials = 10000;
    for _ in 0..trials {
        let req = DrawRequest {
            participants: participants.clone(),
            count: 3,
            seed: None,
        };
        for winner in draw(req).unwrap().winners {
            *win_counts.entry(winner).or_insert(0) += 1;
        }
    }

    let expected = (trials * 3) as f64 / 10.0;
    for (_, count) in win_counts {
        let diff = (count as f64 - expected).abs() / expected;
        assert!(diff < 0.1, "分布偏差过大: expected {}, got {}", expected, count);
    }
}

// ---------------------------------------------------------------------------
// Further cases
// ---------------------------------------------------------------------------

#[test]
fn rejection_messages_are_exact() {
    let empty = draw(DrawRequest { participants: vec![], count: 1, seed: None });
    assert_eq!(bad_request_message(empty.unwrap_err()), "参与者列表不能为空");

    let zero = draw(DrawRequest { participants: names(&["a"]), count: 0, seed: None });
    assert_eq!(bad_request_message(zero.unwrap_err()), "中奖数量必须大于 0");

    let too_many = draw(DrawRequest {
        participants: names(&["a", "b", "a", "b"]),
        count: 3,
        seed: None,
    });
    assert_eq!(
        bad_request_message(too_many.unwrap_err()),
        "中奖数量 (3) 不能大于去重后参与者数量 (2)"
    );

    let big = draw(DrawRequest {
        participants: names(&["a", "b", "c", "d", "e", "f", "g", "h", "i", "j", "k", "l"]),
        count: 120,
        seed: Some(1),
    });
    assert_eq!(
        bad_request_message(big.unwrap_err()),
        "中奖数量 (120) 不能大于去重后参与者数量 (12)"
    );
}

#[test]
fn empty_list_is_refused_before_count() {
    // An empty list with a zero count is refused for the empty list.
    let res = draw(DrawRequest { participants: vec![], count: 0, seed: Some(3) });
    assert_eq!(bad_request_message(res.unwrap_err()), "参与者列表不能为空");
}

#[test]
fn distinct_keeps_first_occurrences_in_order() {
    let unique = distinct_participants(&names(&["bob", "alice", "bob", "carol", "alice", "dave"]));
    assert_eq!(unique, vec!["bob", "alice", "carol", "dave"]);
    assert!(distinct_participants(&vec![]).is_empty());
}

#[test]
fn select_winners_takes_the_front_of_the_order() {
    let r = select_winners(names(&["x", "y", "z", "w"]), 2, 7);
    assert_eq!(r.winners, vec!["x", "y"]);
    assert_eq!(r.total_participants, 7);
    assert_eq!(r.unique_participants, 4);
    assert_eq!(r.winner_count, 2);
}

#[test]
fn seeded_draw_shuffles_rather_than_taking_the_front() {
    // With a seed, some order of the ten names differs from the order given.
    let participants: Vec<String> = (1..=10).map(|i| format!("p{}", i)).collect();
    let mut differs = false;
    for seed in 0..20u64 {
        let r = draw(DrawRequest { participants: participants.clone(), count: 10, seed: Some(seed) })
            .unwrap();
        if r.winners != participants {
            differs = true;
        }
    }
    assert!(differs);
}

#[test]
fn seeded_draw_is_reproducible_with_repeated_names() {
    let list = names(&["a", "b", "a", "c", "d", "b", "e"]);
    let r1 = draw(DrawRequest { participants: list.clone(), count: 3, seed: Some(7) }).unwrap();
    let r2 = draw(DrawRequest { participants: list.clone(), count: 3, seed: Some(7) }).unwrap();
    assert_eq!(r1.winners, r2.winners);
    assert_eq!(r1.unique_participants, 5);
    assert_eq!(r1.total_participants, 7);
}

#[test]
fn full_draw_picks_every_distinct_participant() {
    let list = names(&["a", "b", "a", "c"]);
    for seed in [None, Some(5u64)] {
        let r = draw(DrawRequest { participants: list.clone(), count: 3, seed }).unwrap();
        let mut w = r.winners.clone();
        w.sort();
        assert_eq!(w, vec!["a", "b", "c"]);
    }
}

#[test]
fn winners_come_from_the_participants() {
    let list = names(&["ann", "ben", "cy", "dee", "ed"]);
    for seed in 0..10u64 {
        let r = draw(DrawRequest { participants: list.clone(), count: 2, seed: Some(seed) }).unwrap();
        for w in &r.winners {
            assert!(list.contains(w));
        }
    }
}
