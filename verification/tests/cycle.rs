use athletes_offchain::cycle::{Action, Cycle, Event, Stage};
use athletes_offchain::error::{Failure, NetworkError, SigningError, SubmissionError};
use athletes_offchain::fetch::{Fetcher, RequestStatus, FETCH_TIMEOUT_MS, ORACLE_URL};
use athletes_offchain::payload::{Identity, OffchainPayload, SubmissionCall};
use athletes_offchain::record::OracleRecord;

type Key = &'static str;
type Sig = &'static str;

fn fresh() -> Cycle<Key> {
    Cycle::new(Fetcher::new(ORACLE_URL.to_string(), FETCH_TIMEOUT_MS))
}

fn identity(key: Key) -> Identity<Key> {
    Identity { public: key, encoded: key.as_bytes().to_vec() }
}

fn feed(cycle: Cycle<Key>, events: Vec<Event<Key, Sig>>) -> (Cycle<Key>, Vec<Action<Sig>>) {
    let mut cycle = cycle;
    let mut actions = Vec::new();
    for event in events {
        let (next, action) = cycle.step(event);
        cycle = next;
        actions.push(action);
    }
    (cycle, actions)
}

fn up_to_parsed(body: &[u8]) -> (Cycle<Key>, Vec<Action<Sig>>) {
    feed(
        fresh(),
        vec![
            Event::Triggered { now_ms: 10_000 },
            Event::Status(RequestStatus::Finished(200)),
            Event::Body(body.to_vec()),
        ],
    )
}

#[test]
fn a_cycle_runs_from_the_trigger_to_the_pool() {
    let cycle = fresh();
    assert_eq!(cycle.stage, Stage::Start);
    assert_eq!(cycle.outcome(), None);
    assert_eq!(cycle.fetcher.url, "http://www.foo.com");

    let (cycle, action) = cycle.step(Event::<Key, Sig>::Triggered { now_ms: 10_000 });
    assert_eq!(action, Action::Fetch { deadline: 12_000 });
    assert_eq!(cycle.stage, Stage::Fetching { deadline: 12_000 });

    let (cycle, action) = cycle.step(Event::<Key, Sig>::Status(RequestStatus::Finished(200)));
    assert_eq!(action, Action::ReadBody);
    assert_eq!(cycle.stage, Stage::Fetched);

    let (cycle, action) = cycle.step(Event::<Key, Sig>::Body(b"7,42,1000,250".to_vec()));
    assert_eq!(action, Action::ListIdentities);
    assert_eq!(
        cycle.stage,
        Stage::Parsed {
            record: OracleRecord { class_id: 7, instance_id: 42, views: 1000, votes: 250 }
        }
    );
    assert_eq!(cycle.signer(), None);

    let (cycle, action) = cycle.step(Event::<Key, Sig>::Identities(vec![identity("K")]));
    assert_eq!(
        action,
        Action::Sign {
            message: vec![7, 0, 0, 0, 42, 0, 0, 0, b'K', 0xe8, 0x03, 0, 0, 250, 0, 0, 0]
        }
    );
    assert_eq!(
        cycle.stage,
        Stage::Signing {
            payload: OffchainPayload {
                class_id: 7,
                instance_id: 42,
                public: "K",
                views: 1000,
                votes: 250
            }
        }
    );
    assert_eq!(cycle.signer(), Some(&"K"));
    assert_eq!(cycle.outcome(), None);

    let (cycle, action) = cycle.step(Event::Signature(Some("S")));
    assert_eq!(
        action,
        Action::Submit {
            call: SubmissionCall {
                class_id: 7,
                instance_id: 42,
                signature: "S",
                views: 1000,
                votes: 250
            }
        }
    );
    assert_eq!(cycle.stage, Stage::Submitting);
    assert_eq!(cycle.signer(), None);

    let (cycle, action) = cycle.step(Event::<Key, Sig>::Submitted { accepted: true });
    assert_eq!(action, Action::Nothing);
    assert_eq!(cycle.stage, Stage::Done);
    assert_eq!(cycle.outcome(), Some(Ok(())));
    assert_eq!(cycle.fetcher.timeout_ms, 2_000);
}

#[test]
fn a_body_with_a_missing_field_ends_the_cycle() {
    let (cycle, actions) = up_to_parsed(b"7,42,1000");
    assert_eq!(cycle.stage, Stage::Failed(Failure::Parse));
    assert_eq!(cycle.outcome(), Some(Err(Failure::Parse)));
    assert_eq!(cycle.outcome().unwrap().unwrap_err().reason(), "Failed to fetch info");
    assert_eq!(
        actions,
        vec![Action::Fetch { deadline: 12_000 }, Action::ReadBody, Action::Nothing]
    );
    let (cycle, actions) = feed(
        cycle,
        vec![
            Event::Identities(vec![identity("K")]),
            Event::Signature(Some("S")),
            Event::Submitted { accepted: true },
        ],
    );
    assert_eq!(cycle.stage, Stage::Failed(Failure::Parse));
    assert_eq!(actions, vec![Action::Nothing, Action::Nothing, Action::Nothing]);
}

#[test]
fn status_503_ends_the_cycle_before_the_body_is_read() {
    let (cycle, actions) = feed(
        fresh(),
        vec![Event::Triggered { now_ms: 0 }, Event::Status(RequestStatus::Finished(503))],
    );
    assert_eq!(cycle.stage, Stage::Failed(Failure::Network(NetworkError::BadStatus)));
    assert_eq!(actions, vec![Action::Fetch { deadline: 2_000 }, Action::Nothing]);
    let (cycle, actions) = feed(
        cycle,
        vec![Event::Body(b"7,42,1000,250".to_vec()), Event::Identities(vec![identity("K")])],
    );
    assert_eq!(cycle.stage, Stage::Failed(Failure::Network(NetworkError::BadStatus)));
    assert_eq!(actions, vec![Action::Nothing, Action::Nothing]);
    assert_eq!(cycle.outcome().unwrap().unwrap_err().reason(), "Failed to fetch info");
}

#[test]
fn a_missed_deadline_ends_the_cycle_whatever_the_body() {
    for body in [&b"7,42,1000,250"[..], &b""[..], &[0xff][..]] {
        let (cycle, actions) = feed(
            fresh(),
            vec![
                Event::Triggered { now_ms: 500 },
                Event::Status(RequestStatus::DeadlineReached),
                Event::Body(body.to_vec()),
            ],
        );
        assert_eq!(cycle.stage, Stage::Failed(Failure::Network(NetworkError::DeadlineReached)));
        assert_eq!(
            actions,
            vec![Action::Fetch { deadline: 2_500 }, Action::Nothing, Action::Nothing]
        );
    }
}

#[test]
fn a_request_that_cannot_be_sent_ends_the_cycle() {
    let (cycle, actions) =
        feed(fresh(), vec![Event::Triggered { now_ms: 1 }, Event::Status(RequestStatus::NotSent)]);
    assert_eq!(cycle.stage, Stage::Failed(Failure::Network(NetworkError::IoError)));
    assert_eq!(actions, vec![Action::Fetch { deadline: 2_001 }, Action::Nothing]);
    let (cycle, _) =
        feed(fresh(), vec![Event::Triggered { now_ms: 1 }, Event::Status(RequestStatus::IoError)]);
    assert_eq!(cycle.stage, Stage::Failed(Failure::Network(NetworkError::IoError)));
    let (cycle, _) =
        feed(fresh(), vec![Event::Triggered { now_ms: 1 }, Event::Status(RequestStatus::Invalid)]);
    assert_eq!(cycle.stage, Stage::Failed(Failure::Network(NetworkError::BadStatus)));
}

#[test]
fn a_body_that_is_not_text_ends_the_cycle() {
    let (cycle, actions) = up_to_parsed(&[0x37, 0x2c, 0xff]);
    assert_eq!(cycle.stage, Stage::Failed(Failure::Network(NetworkError::Undecodable)));
    assert_eq!(actions[2], Action::Nothing);
}

#[test]
fn no_identity_ends_the_cycle_before_any_submission() {
    let (cycle, _) = up_to_parsed(b"7,42,1000,250");
    let (cycle, actions) = feed(
        cycle,
        vec![
            Event::Identities(Vec::new()),
            Event::Signature(Some("S")),
            Event::Submitted { accepted: true },
            Event::Identities(vec![identity("K")]),
            Event::Signature(Some("S")),
        ],
    );
    assert_eq!(cycle.stage, Stage::Failed(Failure::Signing(SigningError::NoLocalAccount)));
    assert_eq!(
        cycle.outcome().unwrap().unwrap_err().reason(),
        "No local accounts accounts available."
    );
    assert!(actions.iter().all(|action| *action == Action::Nothing));
}

#[test]
fn runs_without_an_identity_never_sign_or_submit() {
    let scripts: Vec<Vec<Event<Key, Sig>>> = vec![
        vec![
            Event::Triggered { now_ms: 3 },
            Event::Status(RequestStatus::Finished(200)),
            Event::Body(b"1,2,3,4".to_vec()),
            Event::Signature(Some("S")),
            Event::Submitted { accepted: true },
            Event::Identities(Vec::new()),
            Event::Signature(Some("S")),
            Event::Submitted { accepted: true },
        ],
        vec![
            Event::Signature(Some("S")),
            Event::Submitted { accepted: true },
            Event::Triggered { now_ms: 3 },
            Event::Signature(Some("S")),
            Event::Status(RequestStatus::Finished(200)),
            Event::Submitted { accepted: true },
            Event::Body(b"1,2,3,4".to_vec()),
            Event::Signature(None),
        ],
        vec![Event::Identities(Vec::new()), Event::Body(Vec::new())],
    ];
    for script in scripts {
        let (cycle, actions) = feed(fresh(), script);
        assert_ne!(cycle.stage, Stage::Done);
        assert_ne!(cycle.stage, Stage::Submitting);
        for action in actions {
            assert!(!matches!(action, Action::Sign { .. } | Action::Submit { .. }));
        }
    }
}

#[test]
fn the_first_of_several_identities_signs() {
    let (cycle, _) = up_to_parsed(b"1,2,3,4");
    let (cycle, action) = cycle
        .step(Event::<Key, Sig>::Identities(vec![identity("first"), identity("second")]));
    assert_eq!(cycle.signer(), Some(&"first"));
    assert_eq!(
        action,
        Action::Sign {
            message: vec![
                1, 0, 0, 0, 2, 0, 0, 0, b'f', b'i', b'r', b's', b't', 3, 0, 0, 0, 4, 0, 0, 0
            ]
        }
    );
}

#[test]
fn a_key_that_gives_no_signature_ends_the_cycle() {
    let (cycle, _) = up_to_parsed(b"1,2,3,4");
    let (cycle, actions) =
        feed(cycle, vec![Event::Identities(vec![identity("K")]), Event::Signature(None)]);
    assert_eq!(cycle.stage, Stage::Failed(Failure::Signing(SigningError::NoLocalAccount)));
    assert_eq!(actions[1], Action::Nothing);
    let (cycle, actions) = feed(cycle, vec![Event::Signature(Some("S"))]);
    assert_eq!(cycle.stage, Stage::Failed(Failure::Signing(SigningError::NoLocalAccount)));
    assert_eq!(actions, vec![Action::Nothing]);
}

#[test]
fn a_call_that_the_pool_turns_down_ends_the_cycle() {
    let (cycle, _) = up_to_parsed(b"1,2,3,4");
    let (cycle, actions) = feed(
        cycle,
        vec![
            Event::Identities(vec![identity("K")]),
            Event::Signature(Some("S")),
            Event::Submitted { accepted: false },
        ],
    );
    assert_eq!(cycle.stage, Stage::Failed(Failure::Submission(SubmissionError::Rejected)));
    assert_eq!(cycle.outcome().unwrap().unwrap_err().reason(), "Unable to submit transaction");
    assert_eq!(actions[2], Action::Nothing);
}

#[test]
fn an_ended_cycle_stays_as_it_is() {
    let (done, _) = up_to_parsed(b"1,2,3,4");
    let (done, _) = feed(
        done,
        vec![
            Event::Identities(vec![identity("K")]),
            Event::Signature(Some("S")),
            Event::Submitted { accepted: true },
        ],
    );
    assert_eq!(done.stage, Stage::Done);
    let (done, actions) = feed(
        done,
        vec![
            Event::Triggered { now_ms: 9 },
            Event::Status(RequestStatus::Finished(200)),
            Event::Body(b"5,6,7,8".to_vec()),
            Event::Identities(vec![identity("K")]),
            Event::Signature(Some("S")),
            Event::Submitted { accepted: false },
        ],
    );
    assert_eq!(done.stage, Stage::Done);
    assert_eq!(done.outcome(), Some(Ok(())));
    assert!(actions.iter().all(|action| *action == Action::Nothing));
}

#[test]
fn an_event_out_of_turn_changes_nothing() {
    let (cycle, action) = fresh().step(Event::<Key, Sig>::Body(b"1,2,3,4".to_vec()));
    assert_eq!(cycle.stage, Stage::Start);
    assert_eq!(action, Action::Nothing);
    let (cycle, _) = cycle.step(Event::<Key, Sig>::Triggered { now_ms: 5 });
    let (cycle, action) = cycle.step(Event::<Key, Sig>::Triggered { now_ms: 50 });
    assert_eq!(cycle.stage, Stage::Fetching { deadline: 2_005 });
    assert_eq!(action, Action::Nothing);
    let (cycle, action) = cycle.step(Event::<Key, Sig>::Submitted { accepted: true });
    assert_eq!(cycle.stage, Stage::Fetching { deadline: 2_005 });
    assert_eq!(action, Action::Nothing);
    let (cycle, _) = cycle.step(Event::<Key, Sig>::Status(RequestStatus::Finished(200)));
    let (cycle, action) = cycle.step(Event::<Key, Sig>::Status(RequestStatus::Finished(503)));
    assert_eq!(cycle.stage, Stage::Fetched);
    assert_eq!(action, Action::Nothing);
}

#[test]
fn no_run_submits_twice() {
    let (cycle, _) = up_to_parsed(b"1,2,3,4");
    let (_, actions) = feed(
        cycle,
        vec![
            Event::Identities(vec![identity("K")]),
            Event::Signature(Some("S")),
            Event::Signature(Some("T")),
            Event::Identities(vec![identity("L")]),
            Event::Signature(Some("U")),
            Event::Submitted { accepted: true },
            Event::Signature(Some("V")),
        ],
    );
    let submissions =
        actions.iter().filter(|action| matches!(action, Action::Submit { .. })).count();
    assert_eq!(submissions, 1);
    let signings = actions.iter().filter(|action| matches!(action, Action::Sign { .. })).count();
    assert_eq!(signings, 1);
}

#[test]
fn a_deadline_near_the_end_of_time_saturates() {
    let (cycle, action) = fresh().step(Event::<Key, Sig>::Triggered { now_ms: u64::MAX - 7 });
    assert_eq!(action, Action::Fetch { deadline: u64::MAX });
    assert_eq!(cycle.stage, Stage::Fetching { deadline: u64::MAX });
}

fn place(action: &Action<Sig>) -> Option<u8> {
    match action {
        Action::Fetch { .. } => Some(0),
        Action::ReadBody => Some(1),
        Action::ListIdentities => Some(2),
        Action::Sign { .. } => Some(3),
        Action::Submit { .. } => Some(4),
        Action::Nothing => None,
    }
}

#[test]
fn what_is_asked_for_comes_in_its_order() {
    let script = || -> Vec<Event<Key, Sig>> {
        vec![
            Event::Signature(Some("early")),
            Event::Triggered { now_ms: 1 },
            Event::Triggered { now_ms: 2 },
            Event::Body(b"9,9,9,9".to_vec()),
            Event::Status(RequestStatus::Finished(200)),
            Event::Status(RequestStatus::Finished(200)),
            Event::Identities(vec![identity("K")]),
            Event::Body(b"1,2,3,4".to_vec()),
            Event::Body(b"5,6,7,8".to_vec()),
            Event::Submitted { accepted: true },
            Event::Identities(vec![identity("K"), identity("L")]),
            Event::Identities(vec![identity("M")]),
            Event::Signature(Some("S")),
            Event::Signature(Some("T")),
            Event::Triggered { now_ms: 3 },
            Event::Submitted { accepted: true },
            Event::Submitted { accepted: false },
        ]
    };
    let (cycle, actions) = feed(fresh(), script());
    assert_eq!(cycle.stage, Stage::Done);
    let places: Vec<u8> = actions.iter().filter_map(place).collect();
    assert_eq!(places, vec![0, 1, 2, 3, 4]);
    for skipped in 0..script().len() {
        let mut events = script();
        events.remove(skipped);
        let (_, actions) = feed(fresh(), events);
        let places: Vec<u8> = actions.iter().filter_map(place).collect();
        assert!(places.windows(2).all(|pair| pair[0] < pair[1]));
    }
}

#[test]
fn a_cycle_asks_for_one_fetch_only() {
    let (cycle, actions) = feed(
        fresh(),
        vec![
            Event::Triggered { now_ms: 1 },
            Event::Triggered { now_ms: 2 },
            Event::Status(RequestStatus::IoError),
            Event::Triggered { now_ms: 3 },
        ],
    );
    assert_eq!(cycle.stage, Stage::Failed(Failure::Network(NetworkError::IoError)));
    assert_eq!(
        actions,
        vec![Action::Fetch { deadline: 2_001 }, Action::Nothing, Action::Nothing, Action::Nothing]
    );
}
