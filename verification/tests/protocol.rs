use minmax_scan::{
    compare_response, done_response, error_response, execute, fold_answer, generate_response,
    rocket, start_scan, Command, ComputeMap, OpType, ProtocolError, Request, Response,
};

fn compute_max(length: usize) -> Request {
    Request::new("compute_max".to_string(), Some(length), None, None)
}

fn compute_min(length: usize) -> Request {
    Request::new("compute_min".to_string(), Some(length), None, None)
}

fn comp_result(request_id: u32, answer: bool) -> Request {
    Request::new("comp_result".to_string(), None, Some(request_id), Some(answer))
}

fn unknown_computation() -> Response {
    Response::Error { reason: ProtocolError::UnknownComputation }
}

fn window(map: &ComputeMap, id: u32) -> Option<(OpType, usize, usize)> {
    map.get(id).map(|state| (state.op(), state.left(), state.right()))
}

#[test]
fn response_builders() {
    assert_eq!(done_response(7), Response::Done { result: 7 });
    assert_eq!(
        compare_response(2, 9, 4),
        Response::Compare { left: 2, right: 9, request_id: 4 }
    );
    assert_eq!(
        error_response(ProtocolError::UnknownType),
        Response::Error { reason: ProtocolError::UnknownType }
    );
}

#[test]
fn fresh_server_state_is_empty() {
    let map = rocket();
    assert_eq!(map.last_id(), 0);
    assert_eq!(map.len(), 0);
    assert!(map.get(0).is_none());
    assert!(map.get(1).is_none());
    let map = ComputeMap::new();
    assert_eq!(map.last_id(), 0);
    assert_eq!(map.len(), 0);
    assert!(map.get(1).is_none());
}

#[test]
fn single_element_list_is_done_at_once() {
    let mut map = rocket();
    assert_eq!(generate_response(compute_max(1), &mut map), Response::Done { result: 0 });
    assert_eq!(map.last_id(), 0);
    assert!(map.get(1).is_none());
    assert_eq!(generate_response(compute_min(1), &mut map), Response::Done { result: 0 });
    assert_eq!(map.last_id(), 0);
    assert_eq!(map.len(), 0);
    assert!(map.get(1).is_none());
    assert_eq!(generate_response(comp_result(1, true), &mut map), unknown_computation());
    assert_eq!(generate_response(comp_result(42, false), &mut map), unknown_computation());
    assert_eq!(map.last_id(), 0);
}

#[test]
fn first_search_gets_id_one_and_the_whole_list() {
    let mut map = rocket();
    assert_eq!(
        generate_response(compute_max(5), &mut map),
        Response::Compare { left: 0, right: 4, request_id: 1 }
    );
    assert_eq!(map.last_id(), 1);
    assert_eq!(map.len(), 1);
    assert_eq!(window(&map, 1), Some((OpType::Max, 0, 4)));
}

#[test]
fn store_counts_the_searches_in_flight() {
    let mut map = rocket();
    for started in 1..=5usize {
        generate_response(compute_max(3), &mut map);
        assert_eq!(map.len(), started);
    }
    generate_response(comp_result(2, true), &mut map);
    assert_eq!(map.len(), 5);
    generate_response(comp_result(2, true), &mut map);
    assert_eq!(map.len(), 4);
    generate_response(comp_result(2, true), &mut map);
    assert_eq!(map.len(), 4);
    generate_response(compute_min(1), &mut map);
    assert_eq!(map.len(), 4);
    assert_eq!(map.last_id(), 5);
}

#[test]
fn max_search_runs_to_its_result() {
    let mut map = rocket();
    assert_eq!(
        generate_response(compute_max(4), &mut map),
        Response::Compare { left: 0, right: 3, request_id: 1 }
    );
    assert_eq!(
        generate_response(comp_result(1, true), &mut map),
        Response::Compare { left: 1, right: 3, request_id: 1 }
    );
    assert_eq!(
        generate_response(comp_result(1, false), &mut map),
        Response::Compare { left: 1, right: 2, request_id: 1 }
    );
    assert_eq!(generate_response(comp_result(1, true), &mut map), Response::Done { result: 2 });
    assert!(map.get(1).is_none());
    assert_eq!(map.last_id(), 1);
}

#[test]
fn min_search_runs_to_its_result() {
    let mut map = rocket();
    assert_eq!(
        generate_response(compute_min(4), &mut map),
        Response::Compare { left: 0, right: 3, request_id: 1 }
    );
    assert_eq!(
        generate_response(comp_result(1, true), &mut map),
        Response::Compare { left: 0, right: 2, request_id: 1 }
    );
    assert_eq!(
        generate_response(comp_result(1, false), &mut map),
        Response::Compare { left: 1, right: 2, request_id: 1 }
    );
    assert_eq!(generate_response(comp_result(1, true), &mut map), Response::Done { result: 1 });
    assert!(map.get(1).is_none());
}

#[test]
fn two_element_list_needs_one_comparison() {
    let mut map = rocket();
    assert_eq!(
        generate_response(compute_max(2), &mut map),
        Response::Compare { left: 0, right: 1, request_id: 1 }
    );
    assert_eq!(generate_response(comp_result(1, true), &mut map), Response::Done { result: 1 });
    assert_eq!(
        generate_response(compute_max(2), &mut map),
        Response::Compare { left: 0, right: 1, request_id: 2 }
    );
    assert_eq!(generate_response(comp_result(2, false), &mut map), Response::Done { result: 0 });
}

#[test]
fn ids_increase_whatever_completes_in_between() {
    let mut map = rocket();
    let mut last: u32 = 0;
    for round in 0..20usize {
        let request = if round % 2 == 0 { compute_max(2 + round % 3) } else { compute_min(3) };
        let id: u32 = match generate_response(request, &mut map) {
            Response::Compare { left, request_id, .. } => {
                assert_eq!(left, 0);
                request_id
            }
            other => panic!("no comparison asked for: {:?}", other),
        };
        assert!(id > last);
        assert_eq!(id, last + 1);
        assert_eq!(map.last_id(), id);
        last = id;
        // single-element searches and failures hand out no id
        assert_eq!(generate_response(compute_max(1), &mut map), Response::Done { result: 0 });
        assert_eq!(generate_response(comp_result(id + 1, true), &mut map), unknown_computation());
        assert_eq!(map.last_id(), id);
        // running some searches to their end frees no id either
        if round % 3 == 0 {
            let mut response = generate_response(comp_result(id, true), &mut map);
            while let Response::Compare { request_id, .. } = response {
                assert_eq!(request_id, id);
                response = generate_response(comp_result(id, false), &mut map);
            }
            assert!(matches!(response, Response::Done { .. }));
            assert_eq!(map.last_id(), id);
        }
    }
    assert_eq!(last, 20);
}

#[test]
fn every_answer_sequence_ends_after_length_minus_one_round_trips() {
    for n in 2..=8usize {
        let rounds: usize = n - 1;
        for pattern in 0..(1u32 << rounds) {
            for op in [OpType::Max, OpType::Min] {
                let mut map = rocket();
                let first = start_scan(&mut map, op, n);
                assert_eq!(first, Response::Compare { left: 0, right: n - 1, request_id: 1 });
                let mut response = first;
                let mut taken: usize = 0;
                while let Response::Compare { left, right, request_id } = response {
                    assert_eq!(request_id, 1);
                    assert!(left < right);
                    assert!(right <= n - 1);
                    assert_eq!(right - left, rounds - taken);
                    let answer = (pattern >> taken) & 1 == 1;
                    response = fold_answer(&mut map, 1, answer);
                    taken += 1;
                }
                assert_eq!(taken, rounds);
                match response {
                    Response::Done { result } => assert!(result <= n - 1),
                    other => panic!("no result: {:?}", other),
                }
                assert_eq!(fold_answer(&mut map, 1, true), unknown_computation());
            }
        }
    }
}

#[test]
fn max_with_all_true_ends_at_the_last_position() {
    let mut map = rocket();
    let mut response = generate_response(compute_max(6), &mut map);
    while let Response::Compare { .. } = response {
        response = generate_response(comp_result(1, true), &mut map);
    }
    assert_eq!(response, Response::Done { result: 5 });

    let mut response = generate_response(compute_min(6), &mut map);
    while let Response::Compare { .. } = response {
        response = generate_response(comp_result(2, true), &mut map);
    }
    assert_eq!(response, Response::Done { result: 0 });
}

#[test]
fn opposite_operators_with_complementary_answers_give_the_same_trace() {
    let answers = [false, true, true, false, true];
    let mut map = rocket();
    let max_first = generate_response(compute_max(6), &mut map);
    let min_first = generate_response(compute_min(6), &mut map);
    assert_eq!(max_first, Response::Compare { left: 0, right: 5, request_id: 1 });
    assert_eq!(min_first, Response::Compare { left: 0, right: 5, request_id: 2 });
    let expected: [(usize, usize); 4] = [(0, 4), (1, 4), (2, 4), (2, 3)];
    for round in 0..4usize {
        let max_reply = generate_response(comp_result(1, answers[round]), &mut map);
        let min_reply = generate_response(comp_result(2, !answers[round]), &mut map);
        let (left, right) = expected[round];
        assert_eq!(max_reply, Response::Compare { left, right, request_id: 1 });
        assert_eq!(min_reply, Response::Compare { left, right, request_id: 2 });
        assert_eq!(window(&map, 1), Some((OpType::Max, left, right)));
        assert_eq!(window(&map, 2), Some((OpType::Min, left, right)));
    }
    assert_eq!(generate_response(comp_result(1, answers[4]), &mut map), Response::Done { result: 3 });
    assert_eq!(generate_response(comp_result(2, !answers[4]), &mut map), Response::Done { result: 3 });
}

#[test]
fn interleaved_searches_do_not_touch_each_other() {
    let mut map = rocket();
    let a: u32 = match generate_response(compute_max(5), &mut map) {
        Response::Compare { left: 0, right: 4, request_id } => request_id,
        other => panic!("unexpected: {:?}", other),
    };
    let b: u32 = match generate_response(compute_min(4), &mut map) {
        Response::Compare { left: 0, right: 3, request_id } => request_id,
        other => panic!("unexpected: {:?}", other),
    };
    assert_eq!((a, b), (1, 2));

    // answer A
    assert_eq!(
        generate_response(comp_result(a, true), &mut map),
        Response::Compare { left: 1, right: 4, request_id: a }
    );
    assert_eq!(window(&map, b), Some((OpType::Min, 0, 3)));
    // then B
    assert_eq!(
        generate_response(comp_result(b, true), &mut map),
        Response::Compare { left: 0, right: 2, request_id: b }
    );
    assert_eq!(window(&map, a), Some((OpType::Max, 1, 4)));
    // then A again
    assert_eq!(
        generate_response(comp_result(a, false), &mut map),
        Response::Compare { left: 1, right: 3, request_id: a }
    );
    assert_eq!(window(&map, b), Some((OpType::Min, 0, 2)));

    // each one alone would have gone the same way
    let mut alone = rocket();
    assert_eq!(
        generate_response(compute_max(5), &mut alone),
        Response::Compare { left: 0, right: 4, request_id: 1 }
    );
    generate_response(comp_result(1, true), &mut alone);
    generate_response(comp_result(1, false), &mut alone);
    assert_eq!(window(&alone, 1), window(&map, a));

    // both run to their results
    assert_eq!(generate_response(comp_result(b, false), &mut map), Response::Compare { left: 1, right: 2, request_id: b });
    assert_eq!(generate_response(comp_result(a, false), &mut map), Response::Compare { left: 1, right: 2, request_id: a });
    assert_eq!(generate_response(comp_result(b, false), &mut map), Response::Done { result: 2 });
    assert_eq!(window(&map, a), Some((OpType::Max, 1, 2)));
    assert_eq!(generate_response(comp_result(a, true), &mut map), Response::Done { result: 2 });
    assert!(map.get(a).is_none());
    assert!(map.get(b).is_none());
    assert_eq!(map.len(), 0);
}

#[test]
fn answers_to_different_searches_commute() {
    let mut first = rocket();
    let mut second = rocket();
    for map in [&mut first, &mut second] {
        generate_response(compute_max(7), map);
        generate_response(compute_min(7), map);
    }
    let a1 = generate_response(comp_result(1, true), &mut first);
    let b1 = generate_response(comp_result(2, true), &mut first);
    let b2 = generate_response(comp_result(2, true), &mut second);
    let a2 = generate_response(comp_result(1, true), &mut second);
    assert_eq!(a1, a2);
    assert_eq!(b1, b2);
    assert_eq!(window(&first, 1), window(&second, 1));
    assert_eq!(window(&first, 2), window(&second, 2));
    assert_eq!(window(&first, 1), Some((OpType::Max, 1, 6)));
    assert_eq!(window(&first, 2), Some((OpType::Min, 0, 5)));
}

#[test]
fn unknown_id_is_rejected_without_touching_live_searches() {
    let mut map = rocket();
    generate_response(compute_max(5), &mut map);
    generate_response(compute_min(3), &mut map);
    generate_response(comp_result(1, true), &mut map);

    // never handed out
    for id in [0u32, 3, 4, 100, u32::MAX] {
        assert_eq!(generate_response(comp_result(id, true), &mut map), unknown_computation());
        assert_eq!(generate_response(comp_result(id, false), &mut map), unknown_computation());
        assert_eq!(window(&map, 1), Some((OpType::Max, 1, 4)));
        assert_eq!(window(&map, 2), Some((OpType::Min, 0, 2)));
        assert_eq!(map.last_id(), 2);
        assert_eq!(map.len(), 2);
    }

    // already done
    assert_eq!(
        generate_response(comp_result(2, true), &mut map),
        Response::Compare { left: 0, right: 1, request_id: 2 }
    );
    assert_eq!(generate_response(comp_result(2, true), &mut map), Response::Done { result: 0 });
    assert_eq!(generate_response(comp_result(2, true), &mut map), unknown_computation());
    assert_eq!(generate_response(comp_result(2, false), &mut map), unknown_computation());
    assert_eq!(window(&map, 1), Some((OpType::Max, 1, 4)));
    assert!(map.get(2).is_none());
    assert_eq!(map.last_id(), 2);

    // a later search does not bring the dead id back
    assert_eq!(
        generate_response(compute_min(2), &mut map),
        Response::Compare { left: 0, right: 1, request_id: 3 }
    );
    assert_eq!(generate_response(comp_result(2, true), &mut map), unknown_computation());
}

#[test]
fn unknown_type_is_rejected_without_touching_the_store() {
    let mut map = rocket();
    generate_response(compute_max(5), &mut map);
    let bogus = Request::new("bogus".to_string(), None, None, None);
    assert_eq!(
        generate_response(bogus, &mut map),
        Response::Error { reason: ProtocolError::UnknownType }
    );
    assert_eq!(map.last_id(), 1);
    assert_eq!(window(&map, 1), Some((OpType::Max, 0, 4)));

    for ty in ["", "compute", "COMPUTE_MAX", "compute_max ", "comp_results", "done", "compare"] {
        let request = Request::new(ty.to_string(), Some(4), Some(1), Some(true));
        assert_eq!(
            generate_response(request, &mut map),
            Response::Error { reason: ProtocolError::UnknownType }
        );
        assert_eq!(map.last_id(), 1);
        assert_eq!(map.len(), 1);
        assert_eq!(window(&map, 1), Some((OpType::Max, 0, 4)));
    }
}

#[test]
fn missing_fields_are_malformed() {
    let mut map = rocket();
    generate_response(compute_max(5), &mut map);
    let malformed = Response::Error { reason: ProtocolError::MalformedRequest };
    let requests = vec![
        Request::new("compute_max".to_string(), None, None, None),
        Request::new("compute_min".to_string(), None, None, None),
        Request::new("compute_max".to_string(), None, Some(1), Some(true)),
        Request::new("compute_max".to_string(), Some(0), None, None),
        Request::new("compute_min".to_string(), Some(0), None, None),
        Request::new("comp_result".to_string(), None, None, None),
        Request::new("comp_result".to_string(), None, Some(1), None),
        Request::new("comp_result".to_string(), None, None, Some(true)),
        Request::new("comp_result".to_string(), Some(5), None, Some(false)),
    ];
    for request in requests {
        assert_eq!(generate_response(request, &mut map), malformed);
        assert_eq!(map.last_id(), 1);
        assert_eq!(map.len(), 1);
        assert_eq!(window(&map, 1), Some((OpType::Max, 0, 4)));
    }
}

#[test]
fn fields_that_the_type_does_not_need_are_ignored() {
    let mut map = rocket();
    let start = Request::new("compute_min".to_string(), Some(3), Some(9), Some(true));
    assert_eq!(
        generate_response(start, &mut map),
        Response::Compare { left: 0, right: 2, request_id: 1 }
    );
    let answer = Request::new("comp_result".to_string(), Some(77), Some(1), Some(false));
    assert_eq!(
        generate_response(answer, &mut map),
        Response::Compare { left: 1, right: 2, request_id: 1 }
    );
}

#[test]
fn decode_gives_one_command_per_request_type() {
    assert_eq!(
        compute_max(5).decode(),
        Ok(Command::Start { op: OpType::Max, length: 5 })
    );
    assert_eq!(
        compute_min(1).decode(),
        Ok(Command::Start { op: OpType::Min, length: 1 })
    );
    assert_eq!(
        comp_result(3, false).decode(),
        Ok(Command::Answer { request_id: 3, answer: false })
    );
    assert_eq!(
        Request::new("bogus".to_string(), Some(5), Some(3), Some(true)).decode(),
        Err(ProtocolError::UnknownType)
    );
    assert_eq!(compute_max(0).decode(), Err(ProtocolError::MalformedRequest));
    assert_eq!(
        Request::new("comp_result".to_string(), None, Some(3), None).decode(),
        Err(ProtocolError::MalformedRequest)
    );
}

#[test]
fn execute_carries_out_commands() {
    let mut map = rocket();
    assert_eq!(
        execute(&mut map, Command::Start { op: OpType::Max, length: 3 }),
        Response::Compare { left: 0, right: 2, request_id: 1 }
    );
    assert_eq!(
        execute(&mut map, Command::Answer { request_id: 1, answer: false }),
        Response::Compare { left: 0, right: 1, request_id: 1 }
    );
    assert_eq!(
        execute(&mut map, Command::Answer { request_id: 1, answer: false }),
        Response::Done { result: 0 }
    );
    assert_eq!(
        execute(&mut map, Command::Start { op: OpType::Min, length: 1 }),
        Response::Done { result: 0 }
    );
    assert_eq!(
        execute(&mut map, Command::Start { op: OpType::Min, length: 0 }),
        Response::Error { reason: ProtocolError::MalformedRequest }
    );
    assert_eq!(map.last_id(), 1);
}

#[test]
fn start_scan_on_an_empty_list_is_malformed() {
    let mut map = rocket();
    assert_eq!(
        start_scan(&mut map, OpType::Max, 0),
        Response::Error { reason: ProtocolError::MalformedRequest }
    );
    assert_eq!(map.last_id(), 0);
}

#[test]
fn largest_list_that_fits_is_accepted() {
    let mut map = rocket();
    assert_eq!(
        start_scan(&mut map, OpType::Max, usize::MAX),
        Response::Compare { left: 0, right: usize::MAX - 1, request_id: 1 }
    );
    assert_eq!(
        fold_answer(&mut map, 1, false),
        Response::Compare { left: 0, right: usize::MAX - 2, request_id: 1 }
    );
    assert_eq!(
        fold_answer(&mut map, 1, true),
        Response::Compare { left: 1, right: usize::MAX - 2, request_id: 1 }
    );
}
