use athletes_offchain::error::{SigningError, SubmissionError};
use athletes_offchain::payload::{
    build, package, select_identity, signing_message, submission_result, Identity,
    OffchainPayload, SubmissionCall,
};
use athletes_offchain::record::OracleRecord;
use parity_scale_codec::Encode;

fn record() -> OracleRecord {
    OracleRecord { class_id: 7, instance_id: 42, views: 1000, votes: 250 }
}

#[test]
fn a_payload_is_the_record_with_the_public_key() {
    let payload = build(record(), "K");
    assert_eq!(
        payload,
        OffchainPayload { class_id: 7, instance_id: 42, public: "K", views: 1000, votes: 250 }
    );
    assert_eq!(*payload.public(), "K");
}

#[test]
fn payloads_are_ordered_field_by_field() {
    let base = build(record(), 5u8);
    let by_class = OffchainPayload { class_id: 8, instance_id: 0, public: 0u8, views: 0, votes: 0 };
    let by_instance =
        OffchainPayload { class_id: 7, instance_id: 43, public: 0u8, views: 0, votes: 0 };
    let by_public =
        OffchainPayload { class_id: 7, instance_id: 42, public: 6u8, views: 0, votes: 0 };
    let by_views =
        OffchainPayload { class_id: 7, instance_id: 42, public: 5u8, views: 1001, votes: 0 };
    let by_votes =
        OffchainPayload { class_id: 7, instance_id: 42, public: 5u8, views: 1000, votes: 251 };
    assert!(base < by_class);
    assert!(base < by_instance);
    assert!(base < by_public);
    assert!(base < by_views);
    assert!(base < by_votes);
    assert!(by_votes < by_views);
    assert!(by_views < by_public);
    assert!(by_public < by_instance);
    assert!(by_instance < by_class);
    assert_eq!(base.cmp(&build(record(), 5u8)), std::cmp::Ordering::Equal);
    assert_eq!(base.partial_cmp(&build(record(), 5u8)), Some(std::cmp::Ordering::Equal));
    assert_eq!(base.partial_cmp(&by_votes), Some(std::cmp::Ordering::Less));
    assert_eq!(by_class.partial_cmp(&base), Some(std::cmp::Ordering::Greater));
    assert_eq!(by_votes.cmp(&base), std::cmp::Ordering::Greater);
    assert_ne!(base, by_votes);
    assert_eq!(base, build(record(), 5u8));
}

#[test]
fn payloads_whose_keys_do_not_compare_do_not_compare() {
    let a = OffchainPayload { class_id: 7, instance_id: 42, public: f64::NAN, views: 1, votes: 1 };
    let b = OffchainPayload { class_id: 7, instance_id: 42, public: 1.0f64, views: 0, votes: 0 };
    let c = OffchainPayload { class_id: 8, instance_id: 42, public: 1.0f64, views: 0, votes: 0 };
    assert_eq!(a.partial_cmp(&b), None);
    assert_eq!(a.partial_cmp(&c), Some(std::cmp::Ordering::Less));
    assert!(a != b);
    assert!(!(a < b) && !(a > b));
}

#[test]
fn the_order_by_hand_is_the_order_of_the_fields() {
    let values: [u32; 3] = [0, 1, u32::MAX];
    let mut payloads = Vec::new();
    for &class_id in values.iter() {
        for &instance_id in values.iter() {
            for &public in values.iter() {
                for &views in values.iter() {
                    for &votes in values.iter() {
                        payloads.push((class_id, instance_id, public, views, votes));
                    }
                }
            }
        }
    }
    for &a in payloads.iter() {
        for &b in payloads.iter() {
            let left = OffchainPayload {
                class_id: a.0,
                instance_id: a.1,
                public: a.2,
                views: a.3,
                votes: a.4,
            };
            let right = OffchainPayload {
                class_id: b.0,
                instance_id: b.1,
                public: b.2,
                views: b.3,
                votes: b.4,
            };
            assert_eq!(left.partial_cmp(&right), a.partial_cmp(&b));
            assert_eq!(left.cmp(&right), a.cmp(&b));
            assert_eq!(left == right, a == b);
        }
    }
}

#[test]
fn the_message_is_the_fields_in_order() {
    let payload = build(record(), ());
    assert_eq!(
        signing_message(&payload, &[0xaa, 0xbb, 0xcc]),
        vec![7, 0, 0, 0, 42, 0, 0, 0, 0xaa, 0xbb, 0xcc, 0xe8, 0x03, 0, 0, 250, 0, 0, 0]
    );
    assert_eq!(
        signing_message(&payload, &[]),
        vec![7, 0, 0, 0, 42, 0, 0, 0, 0xe8, 0x03, 0, 0, 250, 0, 0, 0]
    );
}

#[test]
fn each_number_is_encoded_lowest_byte_first() {
    let payload = OffchainPayload {
        class_id: 0x0102_0304,
        instance_id: u32::MAX,
        public: (),
        views: 0,
        votes: 0x8000_0001,
    };
    assert_eq!(
        signing_message(&payload, &[9]),
        vec![4, 3, 2, 1, 255, 255, 255, 255, 9, 0, 0, 0, 0, 1, 0, 0, 0x80]
    );
}

#[test]
fn the_message_is_the_encoding_of_the_fields() {
    let key: [u8; 32] = [0x5a; 32];
    let payload = build(record(), key);
    assert_eq!(
        signing_message(&payload, &key.encode()),
        (7u32, 42u32, key, 1000u32, 250u32).encode()
    );
    let other =
        OffchainPayload { class_id: 70_000, instance_id: 1 << 31, public: key, views: 3, votes: 0 };
    assert_eq!(
        signing_message(&other, &key.encode()),
        (70_000u32, 1u32 << 31, key, 3u32, 0u32).encode()
    );
}

#[test]
fn the_first_identity_signs() {
    let identities = vec![
        Identity { public: 'a', encoded: vec![1] },
        Identity { public: 'b', encoded: vec![2] },
        Identity { public: 'c', encoded: vec![3] },
    ];
    assert_eq!(select_identity(identities), Ok(Identity { public: 'a', encoded: vec![1] }));
    assert_eq!(
        select_identity(vec![Identity { public: 'z', encoded: Vec::new() }]),
        Ok(Identity { public: 'z', encoded: Vec::new() })
    );
}

#[test]
fn no_identity_is_no_local_account() {
    assert_eq!(select_identity(Vec::<Identity<char>>::new()), Err(SigningError::NoLocalAccount));
}

#[test]
fn the_call_carries_the_record_and_the_signature() {
    let call = package(build(record(), "K"), "S");
    assert_eq!(
        call,
        SubmissionCall { class_id: 7, instance_id: 42, signature: "S", views: 1000, votes: 250 }
    );
}

#[test]
fn the_pool_decides_the_submission() {
    assert_eq!(submission_result(true), Ok(()));
    assert_eq!(submission_result(false), Err(SubmissionError::Rejected));
}

#[test]
fn different_records_are_signed_over_different_messages() {
    let key = [1u8, 2, 3];
    let base = signing_message(&build(record(), ()), &key);
    let samples = [
        OracleRecord { class_id: 8, instance_id: 42, views: 1000, votes: 250 },
        OracleRecord { class_id: 7, instance_id: 43, views: 1000, votes: 250 },
        OracleRecord { class_id: 7, instance_id: 42, views: 1001, votes: 250 },
        OracleRecord { class_id: 7, instance_id: 42, views: 1000, votes: 251 },
        OracleRecord { class_id: 42, instance_id: 7, views: 1000, votes: 250 },
        OracleRecord { class_id: 7, instance_id: 42, views: 250, votes: 1000 },
        OracleRecord { class_id: 7 << 8, instance_id: 42, views: 1000, votes: 250 },
    ];
    for other in samples.iter() {
        assert_ne!(signing_message(&build(*other, ()), &key), base);
    }
    assert_ne!(signing_message(&build(record(), ()), &[1u8, 2, 4]), base);
    assert_eq!(signing_message(&build(record(), ()), &key), base);
    assert_eq!(base.len(), 16 + key.len());
}
