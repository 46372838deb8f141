use smithy_changelog::json::Timestamp;
use smithy_changelog::operation_ser::{
    serialize_complete_snapshot_error, serialize_complete_snapshot_response,
    serialize_list_changed_blocks_error, serialize_list_changed_blocks_response,
    serialize_list_snapshot_blocks_error, serialize_list_snapshot_blocks_response,
    serialize_put_snapshot_block_error, serialize_put_snapshot_block_response,
    serialize_start_snapshot_error, serialize_start_snapshot_response,
    serialize_structure_crate_error_validation_error, AccessDeniedError, Block, ChangedBlock,
    CompleteSnapshotError, CompleteSnapshotOutput, ConcurrentLimitExceededError, ConflictError,
    InternalServerError, ListChangedBlocksError, ListChangedBlocksOutput, ListSnapshotBlocksError,
    ListSnapshotBlocksOutput, PutSnapshotBlockError, PutSnapshotBlockOutput,
    RequestThrottledError, ResourceNotFoundError, ServiceQuotaExceededError, StartSnapshotError,
    StartSnapshotOutput, Tag, ValidationError,
};

fn s(v: &str) -> Option<String> {
    Some(v.to_string())
}

#[test]
fn access_denied_is_forbidden() {
    let error = CompleteSnapshotError::AccessDeniedError(AccessDeniedError {
        message: s("no \"access\"\n"),
        reason: s("UNAUTHORIZED_ACCOUNT"),
    });
    let response = serialize_complete_snapshot_error(&error).unwrap();
    assert_eq!(403, response.status);
    assert_eq!(
        "{\"Message\":\"no \\\"access\\\"\\n\",\"Reason\":\"UNAUTHORIZED_ACCOUNT\"}",
        response.body
    );
}

#[test]
fn error_statuses_of_each_operation() {
    let msg = |m: &str| InternalServerError { message: s(m) };
    let r = serialize_list_changed_blocks_error(&ListChangedBlocksError::InternalServerError(msg("x"))).unwrap();
    assert_eq!((500, "{\"Message\":\"x\"}".to_string()), (r.status, r.body));
    let r = serialize_list_snapshot_blocks_error(&ListSnapshotBlocksError::RequestThrottledError(
        RequestThrottledError { message: None, reason: s("ACCOUNT_THROTTLED") },
    ))
    .unwrap();
    assert_eq!((400, "{\"Reason\":\"ACCOUNT_THROTTLED\"}".to_string()), (r.status, r.body));
    let r = serialize_put_snapshot_block_error(&PutSnapshotBlockError::ResourceNotFoundError(
        ResourceNotFoundError { message: None, reason: None },
    ))
    .unwrap();
    assert_eq!((404, "{}".to_string()), (r.status, r.body));
    let r = serialize_put_snapshot_block_error(&PutSnapshotBlockError::ServiceQuotaExceededError(
        ServiceQuotaExceededError { message: s("q"), reason: None },
    ))
    .unwrap();
    assert_eq!(402, r.status);
    let r = serialize_start_snapshot_error(&StartSnapshotError::ConflictError(ConflictError {
        message: None,
    }))
    .unwrap();
    assert_eq!((503, "{}".to_string()), (r.status, r.body));
    let r = serialize_start_snapshot_error(&StartSnapshotError::ConcurrentLimitExceededError(
        ConcurrentLimitExceededError { message: s("busy") },
    ))
    .unwrap();
    assert_eq!(400, r.status);
    let r = serialize_start_snapshot_error(&StartSnapshotError::ValidationError(ValidationError {
        message: None,
        reason: s("INVALID_TAG"),
    }))
    .unwrap();
    assert_eq!(400, r.status);
}

#[test]
fn control_characters_are_escaped() {
    let body = serialize_structure_crate_error_validation_error(&ValidationError {
        message: s("a\u{1}b\tc\\"),
        reason: None,
    })
    .unwrap();
    assert_eq!("{\"Message\":\"a\\u0001b\\tc\\\\\"}", body);
}

#[test]
fn output_responses_have_default_status() {
    let r = serialize_complete_snapshot_response(&CompleteSnapshotOutput { status: s("pending") }).unwrap();
    assert_eq!((200, "{\"Status\":\"pending\"}".to_string()), (r.status, r.body));
    let r = serialize_put_snapshot_block_response(&PutSnapshotBlockOutput {
        checksum: s("abc"),
        checksum_algorithm: s("SHA256"),
    })
    .unwrap();
    assert_eq!((200, "{}".to_string()), (r.status, r.body));
}

#[test]
fn list_outputs_write_arrays_and_timestamps() {
    let output = ListChangedBlocksOutput {
        changed_blocks: Some(vec![
            ChangedBlock { block_index: Some(0), first_block_token: s("a"), second_block_token: None },
            ChangedBlock { block_index: Some(-1), first_block_token: None, second_block_token: s("b") },
        ]),
        expiry_time: Some(Timestamp { seconds: 1_600_000_000, subsecond_nanos: 500_000_000 }),
        volume_size: Some(8),
        block_size: Some(524288),
        next_token: None,
    };
    let r = serialize_list_changed_blocks_response(&output).unwrap();
    assert_eq!(200, r.status);
    assert_eq!(
        "{\"ChangedBlocks\":[{\"BlockIndex\":0,\"FirstBlockToken\":\"a\"},{\"BlockIndex\":-1,\"SecondBlockToken\":\"b\"}],\"ExpiryTime\":1600000000.5,\"VolumeSize\":8,\"BlockSize\":524288}",
        r.body
    );
    let output = ListSnapshotBlocksOutput {
        blocks: Some(vec![]),
        expiry_time: Some(Timestamp { seconds: 7, subsecond_nanos: 0 }),
        volume_size: None,
        block_size: None,
        next_token: s("t"),
    };
    let r = serialize_list_snapshot_blocks_response(&output).unwrap();
    assert_eq!("{\"Blocks\":[],\"ExpiryTime\":7,\"NextToken\":\"t\"}", r.body);
    let output = ListSnapshotBlocksOutput {
        blocks: Some(vec![Block { block_index: Some(3), block_token: s("tok") }]),
        expiry_time: None,
        volume_size: None,
        block_size: None,
        next_token: None,
    };
    let r = serialize_list_snapshot_blocks_response(&output).unwrap();
    assert_eq!("{\"Blocks\":[{\"BlockIndex\":3,\"BlockToken\":\"tok\"}]}", r.body);
}

#[test]
fn start_snapshot_output_members_in_order() {
    let output = StartSnapshotOutput {
        description: None,
        snapshot_id: s("snap-1"),
        owner_id: s("123"),
        status: s("pending"),
        start_time: Some(Timestamp { seconds: -2, subsecond_nanos: 120_000_000 }),
        volume_size: Some(1),
        block_size: None,
        tags: Some(vec![Tag { key: s("k"), value: s("v") }]),
        parent_snapshot_id: None,
        kms_key_arn: s("arn"),
    };
    let r = serialize_start_snapshot_response(&output).unwrap();
    assert_eq!(
        "{\"SnapshotId\":\"snap-1\",\"OwnerId\":\"123\",\"Status\":\"pending\",\"StartTime\":-2.12,\"VolumeSize\":1,\"Tags\":[{\"Key\":\"k\",\"Value\":\"v\"}],\"KmsKeyArn\":\"arn\"}",
        r.body
    );
}

#[test]
fn every_error_variant_has_its_status() {
    let denied = || AccessDeniedError { message: None, reason: None };
    assert_eq!(403, serialize_complete_snapshot_error(&CompleteSnapshotError::AccessDeniedError(denied())).unwrap().status);
    assert_eq!(
        400,
        serialize_complete_snapshot_error(&CompleteSnapshotError::ValidationError(ValidationError {
            message: None,
            reason: None
        }))
        .unwrap()
        .status
    );
    assert_eq!(
        500,
        serialize_start_snapshot_error(&StartSnapshotError::InternalServerError(InternalServerError {
            message: None
        }))
        .unwrap()
        .status
    );
    assert_eq!(403, serialize_start_snapshot_error(&StartSnapshotError::AccessDeniedError(denied())).unwrap().status);
}
