//! Responses of the EBS service operations: each outcome becomes an HTTP status and a
//! JSON document.
use vstd::prelude::*;

use crate::json::{
    integer_member, json_array, json_object, json_text, object_text, array_text,
    push_integer_member, push_raw_member, push_string_member, push_timestamp_member,
    string_member, timestamp_member, json_member, Timestamp,
};
use crate::text::views;

verus! {

/// A document that could not be written as JSON.
#[derive(Clone, Debug)]
pub struct SerializationError {
    pub message: String,
}

/// Why a response could not be built.
#[derive(Clone, Debug)]
pub enum SmithyRejection {
    Serialization(SerializationError),
}

/// An HTTP response: its status code and its body.
#[derive(Clone, Debug)]
pub struct HttpResponse {
    pub status: u16,
    pub body: String,
}

/// The status of a response built without a status of its own.
pub const DEFAULT_STATUS: u16 = 200;

pub open spec fn widen(o: Option<i32>) -> Option<i64> {
    match o {
        Some(v) => Some(v as i64),
        None => None,
    }
}

fn widen_exec(o: Option<i32>) -> (r: Option<i64>)
    ensures
        r == widen(o),
{
    match o {
        Some(v) => Some(v as i64),
        None => None,
    }
}

// ---------------------------------------------------------------------------
// Error shapes
// ---------------------------------------------------------------------------

/// The `AccessDeniedError` error shape.
#[derive(Clone, Debug)]
pub struct AccessDeniedError {
    pub message: Option<String>,
    pub reason: Option<String>,
}

/// The `InternalServerError` error shape.
#[derive(Clone, Debug)]
pub struct InternalServerError {
    pub message: Option<String>,
}

/// The `RequestThrottledError` error shape.
#[derive(Clone, Debug)]
pub struct RequestThrottledError {
    pub message: Option<String>,
    pub reason: Option<String>,
}

/// The `ResourceNotFoundError` error shape.
#[derive(Clone, Debug)]
pub struct ResourceNotFoundError {
    pub message: Option<String>,
    pub reason: Option<String>,
}

/// The `ServiceQuotaExceededError` error shape.
#[derive(Clone, Debug)]
pub struct ServiceQuotaExceededError {
    pub message: Option<String>,
    pub reason: Option<String>,
}

/// The `ValidationError` error shape.
#[derive(Clone, Debug)]
pub struct ValidationError {
    pub message: Option<String>,
    pub reason: Option<String>,
}

/// The `ConcurrentLimitExceededError` error shape.
#[derive(Clone, Debug)]
pub struct ConcurrentLimitExceededError {
    pub message: Option<String>,
}

/// The `ConflictError` error shape.
#[derive(Clone, Debug)]
pub struct ConflictError {
    pub message: Option<String>,
}

/// The members of an error with a message and a reason.
pub open spec fn message_reason_members(message: Option<String>, reason: Option<String>) -> Seq<Seq<char>> {
    string_member("Message"@, message) + string_member("Reason"@, reason)
}

/// The members of an error with a message only.
pub open spec fn message_members(message: Option<String>) -> Seq<Seq<char>> {
    string_member("Message"@, message)
}

fn message_reason_object(message: &Option<String>, reason: &Option<String>) -> (r: Vec<char>)
    ensures
        r@ == json_object(message_reason_members(*message, *reason)),
{
    let mut members: Vec<Vec<char>> = Vec::new();
    push_string_member(&mut members, "Message", message);
    push_string_member(&mut members, "Reason", reason);
    assert(views(members@) =~= message_reason_members(*message, *reason));
    object_text(&members)
}

fn message_object(message: &Option<String>) -> (r: Vec<char>)
    ensures
        r@ == json_object(message_members(*message)),
{
    let mut members: Vec<Vec<char>> = Vec::new();
    push_string_member(&mut members, "Message", message);
    assert(views(members@) =~= message_members(*message));
    object_text(&members)
}

/// The JSON document of the `AccessDeniedError` shape.
pub open spec fn access_denied_error_json(value: AccessDeniedError) -> Seq<char> {
    json_object(message_reason_members(value.message, value.reason))
}

/// Writes the `AccessDeniedError` shape as a JSON document.
pub fn serialize_structure_crate_error_access_denied_error(value: &AccessDeniedError) -> (r: Result<String, SerializationError>)
    ensures
        r matches Ok(s) && s@ == access_denied_error_json(*value),
{
    let out = message_reason_object(&value.message, &value.reason);
    Ok(json_text(&out))
}

/// The JSON document of the `InternalServerError` shape.
pub open spec fn internal_server_error_json(value: InternalServerError) -> Seq<char> {
    json_object(message_members(value.message))
}

/// Writes the `InternalServerError` shape as a JSON document.
pub fn serialize_structure_crate_error_internal_server_error(value: &InternalServerError) -> (r: Result<String, SerializationError>)
    ensures
        r matches Ok(s) && s@ == internal_server_error_json(*value),
{
    let out = message_object(&value.message);
    Ok(json_text(&out))
}

/// The JSON document of the `RequestThrottledError` shape.
pub open spec fn request_throttled_error_json(value: RequestThrottledError) -> Seq<char> {
    json_object(message_reason_members(value.message, value.reason))
}

/// Writes the `RequestThrottledError` shape as a JSON document.
pub fn serialize_structure_crate_error_request_throttled_error(value: &RequestThrottledError) -> (r: Result<String, SerializationError>)
    ensures
        r matches Ok(s) && s@ == request_throttled_error_json(*value),
{
    let out = message_reason_object(&value.message, &value.reason);
    Ok(json_text(&out))
}

/// The JSON document of the `ResourceNotFoundError` shape.
pub open spec fn resource_not_found_error_json(value: ResourceNotFoundError) -> Seq<char> {
    json_object(message_reason_members(value.message, value.reason))
}

/// Writes the `ResourceNotFoundError` shape as a JSON document.
pub fn serialize_structure_crate_error_resource_not_found_error(value: &ResourceNotFoundError) -> (r: Result<String, SerializationError>)
    ensures
        r matches Ok(s) && s@ == resource_not_found_error_json(*value),
{
    let out = message_reason_object(&value.message, &value.reason);
    Ok(json_text(&out))
}

/// The JSON document of the `ServiceQuotaExceededError` shape.
pub open spec fn service_quota_exceeded_error_json(value: ServiceQuotaExceededError) -> Seq<char> {
    json_object(message_reason_members(value.message, value.reason))
}

/// Writes the `ServiceQuotaExceededError` shape as a JSON document.
pub fn serialize_structure_crate_error_service_quota_exceeded_error(value: &ServiceQuotaExceededError) -> (r: Result<String, SerializationError>)
    ensures
        r matches Ok(s) && s@ == service_quota_exceeded_error_json(*value),
{
    let out = message_reason_object(&value.message, &value.reason);
    Ok(json_text(&out))
}

/// The JSON document of the `ValidationError` shape.
pub open spec fn validation_error_json(value: ValidationError) -> Seq<char> {
    json_object(message_reason_members(value.message, value.reason))
}

/// Writes the `ValidationError` shape as a JSON document.
pub fn serialize_structure_crate_error_validation_error(value: &ValidationError) -> (r: Result<String, SerializationError>)
    ensures
        r matches Ok(s) && s@ == validation_error_json(*value),
{
    let out = message_reason_object(&value.message, &value.reason);
    Ok(json_text(&out))
}

/// The JSON document of the `ConcurrentLimitExceededError` shape.
pub open spec fn concurrent_limit_exceeded_error_json(value: ConcurrentLimitExceededError) -> Seq<char> {
    json_object(message_members(value.message))
}

/// Writes the `ConcurrentLimitExceededError` shape as a JSON document.
pub fn serialize_structure_crate_error_concurrent_limit_exceeded_error(value: &ConcurrentLimitExceededError) -> (r: Result<String, SerializationError>)
    ensures
        r matches Ok(s) && s@ == concurrent_limit_exceeded_error_json(*value),
{
    let out = message_object(&value.message);
    Ok(json_text(&out))
}

/// The JSON document of the `ConflictError` shape.
pub open spec fn conflict_error_json(value: ConflictError) -> Seq<char> {
    json_object(message_members(value.message))
}

/// Writes the `ConflictError` shape as a JSON document.
pub fn serialize_structure_crate_error_conflict_error(value: &ConflictError) -> (r: Result<String, SerializationError>)
    ensures
        r matches Ok(s) && s@ == conflict_error_json(*value),
{
    let out = message_object(&value.message);
    Ok(json_text(&out))
}

// ---------------------------------------------------------------------------
// Output shapes
// ---------------------------------------------------------------------------

/// Output of `CompleteSnapshot`.
#[derive(Clone, Debug)]
pub struct CompleteSnapshotOutput {
    pub status: Option<String>,
}

/// A block that differs between two snapshots.
#[derive(Clone, Debug)]
pub struct ChangedBlock {
    pub block_index: Option<i32>,
    pub first_block_token: Option<String>,
    pub second_block_token: Option<String>,
}

/// Output of `ListChangedBlocks`.
#[derive(Clone, Debug)]
pub struct ListChangedBlocksOutput {
    pub changed_blocks: Option<Vec<ChangedBlock>>,
    pub expiry_time: Option<Timestamp>,
    pub volume_size: Option<i64>,
    pub block_size: Option<i32>,
    pub next_token: Option<String>,
}

/// A block of a snapshot.
#[derive(Clone, Debug)]
pub struct Block {
    pub block_index: Option<i32>,
    pub block_token: Option<String>,
}

/// Output of `ListSnapshotBlocks`.
#[derive(Clone, Debug)]
pub struct ListSnapshotBlocksOutput {
    pub blocks: Option<Vec<Block>>,
    pub expiry_time: Option<Timestamp>,
    pub volume_size: Option<i64>,
    pub block_size: Option<i32>,
    pub next_token: Option<String>,
}

/// Output of `PutSnapshotBlock`; both members travel in HTTP headers, not in the body.
#[derive(Clone, Debug)]
pub struct PutSnapshotBlockOutput {
    pub checksum: Option<String>,
    pub checksum_algorithm: Option<String>,
}

/// A tag of a snapshot.
#[derive(Clone, Debug)]
pub struct Tag {
    pub key: Option<String>,
    pub value: Option<String>,
}

/// Output of `StartSnapshot`.
#[derive(Clone, Debug)]
pub struct StartSnapshotOutput {
    pub description: Option<String>,
    pub snapshot_id: Option<String>,
    pub owner_id: Option<String>,
    pub status: Option<String>,
    pub start_time: Option<Timestamp>,
    pub volume_size: Option<i64>,
    pub block_size: Option<i32>,
    pub tags: Option<Vec<Tag>>,
    pub parent_snapshot_id: Option<String>,
    pub kms_key_arn: Option<String>,
}

pub open spec fn complete_snapshot_output_json(value: CompleteSnapshotOutput) -> Seq<char> {
    json_object(string_member("Status"@, value.status))
}

pub open spec fn changed_block_json(b: ChangedBlock) -> Seq<char> {
    json_object(integer_member("BlockIndex"@, widen(b.block_index)) + string_member(
        "FirstBlockToken"@,
        b.first_block_token,
    ) + string_member("SecondBlockToken"@, b.second_block_token))
}

pub open spec fn block_json(b: Block) -> Seq<char> {
    json_object(integer_member("BlockIndex"@, widen(b.block_index)) + string_member(
        "BlockToken"@,
        b.block_token,
    ))
}

pub open spec fn tag_json(t: Tag) -> Seq<char> {
    json_object(string_member("Key"@, t.key) + string_member("Value"@, t.value))
}

/// The member holding an optional list, as a JSON array of its items' documents.
pub open spec fn list_member<T>(key: Seq<char>, items: Option<Vec<T>>, item_json: spec_fn(T) -> Seq<char>) -> Seq<Seq<char>> {
    match items {
        Some(v) => seq![json_member(key, json_array(v@.map_values(item_json)))],
        None => seq![],
    }
}

pub open spec fn list_changed_blocks_output_json(value: ListChangedBlocksOutput) -> Seq<char> {
    json_object(
        list_member("ChangedBlocks"@, value.changed_blocks, |b: ChangedBlock| changed_block_json(b))
            + timestamp_member("ExpiryTime"@, value.expiry_time) + integer_member(
            "VolumeSize"@,
            value.volume_size,
        ) + integer_member("BlockSize"@, widen(value.block_size)) + string_member(
            "NextToken"@,
            value.next_token,
        ),
    )
}

pub open spec fn list_snapshot_blocks_output_json(value: ListSnapshotBlocksOutput) -> Seq<char> {
    json_object(
        list_member("Blocks"@, value.blocks, |b: Block| block_json(b)) + timestamp_member(
            "ExpiryTime"@,
            value.expiry_time,
        ) + integer_member("VolumeSize"@, value.volume_size) + integer_member(
            "BlockSize"@,
            widen(value.block_size),
        ) + string_member("NextToken"@, value.next_token),
    )
}

pub open spec fn put_snapshot_block_output_json(value: PutSnapshotBlockOutput) -> Seq<char> {
    json_object(seq![])
}

pub open spec fn start_snapshot_output_json(value: StartSnapshotOutput) -> Seq<char> {
    json_object(
        string_member("Description"@, value.description) + string_member(
            "SnapshotId"@,
            value.snapshot_id,
        ) + string_member("OwnerId"@, value.owner_id) + string_member("Status"@, value.status)
            + timestamp_member("StartTime"@, value.start_time) + integer_member(
            "VolumeSize"@,
            value.volume_size,
        ) + integer_member("BlockSize"@, widen(value.block_size)) + list_member(
            "Tags"@,
            value.tags,
            |t: Tag| tag_json(t),
        ) + string_member("ParentSnapshotId"@, value.parent_snapshot_id) + string_member(
            "KmsKeyArn"@,
            value.kms_key_arn,
        ),
    )
}

fn changed_block_text(b: &ChangedBlock) -> (r: Vec<char>)
    ensures
        r@ == changed_block_json(*b),
{
    let mut members: Vec<Vec<char>> = Vec::new();
    push_integer_member(&mut members, "BlockIndex", widen_exec(b.block_index));
    push_string_member(&mut members, "FirstBlockToken", &b.first_block_token);
    push_string_member(&mut members, "SecondBlockToken", &b.second_block_token);
    assert(views(members@) =~= integer_member("BlockIndex"@, widen(b.block_index)) + string_member(
        "FirstBlockToken"@,
        b.first_block_token,
    ) + string_member("SecondBlockToken"@, b.second_block_token));
    object_text(&members)
}

fn block_text(b: &Block) -> (r: Vec<char>)
    ensures
        r@ == block_json(*b),
{
    let mut members: Vec<Vec<char>> = Vec::new();
    push_integer_member(&mut members, "BlockIndex", widen_exec(b.block_index));
    push_string_member(&mut members, "BlockToken", &b.block_token);
    assert(views(members@) =~= integer_member("BlockIndex"@, widen(b.block_index)) + string_member(
        "BlockToken"@,
        b.block_token,
    ));
    object_text(&members)
}

fn tag_text(t: &Tag) -> (r: Vec<char>)
    ensures
        r@ == tag_json(*t),
{
    let mut members: Vec<Vec<char>> = Vec::new();
    push_string_member(&mut members, "Key", &t.key);
    push_string_member(&mut members, "Value", &t.value);
    assert(views(members@) =~= string_member("Key"@, t.key) + string_member("Value"@, t.value));
    object_text(&members)
}

fn push_changed_block_list(members: &mut Vec<Vec<char>>, key: &str, items: &Option<Vec<ChangedBlock>>)
    ensures
        views(final(members)@) == views(old(members)@) + list_member(key@, *items, |x: ChangedBlock| changed_block_json(x)),
{
    match items {
        Some(v) => {
            let mut values: Vec<Vec<char>> = Vec::new();
            let mut i: usize = 0;
            while i < v.len()
                invariant
                    i <= v.len(),
                    views(values@) == v@.take(i as int).map_values(|x: ChangedBlock| changed_block_json(x)),
                decreases v.len() - i,
            {
                let t = changed_block_text(&v[i]);
                let ghost before = views(values@);
                values.push(t);
                assert(views(values@) =~= before.push(t@));
                assert(v@.take(i + 1) =~= v@.take(i as int).push(v@[i as int]));
                assert(views(values@) =~= v@.take(i + 1).map_values(|x: ChangedBlock| changed_block_json(x)));
                i = i + 1;
            }
            assert(v@.take(v.len() as int) =~= v@);
            let a = array_text(&values);
            push_raw_member(members, key, &a);
            assert(views(members@) =~= views(old(members)@) + list_member(key@, *items, |x: ChangedBlock| changed_block_json(x)));
        },
        None => {
            assert(views(members@) =~= views(old(members)@) + list_member(key@, *items, |x: ChangedBlock| changed_block_json(x)));
        },
    }
}

fn push_block_list(members: &mut Vec<Vec<char>>, key: &str, items: &Option<Vec<Block>>)
    ensures
        views(final(members)@) == views(old(members)@) + list_member(key@, *items, |x: Block| block_json(x)),
{
    match items {
        Some(v) => {
            let mut values: Vec<Vec<char>> = Vec::new();
            let mut i: usize = 0;
            while i < v.len()
                invariant
                    i <= v.len(),
                    views(values@) == v@.take(i as int).map_values(|x: Block| block_json(x)),
                decreases v.len() - i,
            {
                let t = block_text(&v[i]);
                let ghost before = views(values@);
                values.push(t);
                assert(views(values@) =~= before.push(t@));
                assert(v@.take(i + 1) =~= v@.take(i as int).push(v@[i as int]));
                assert(views(values@) =~= v@.take(i + 1).map_values(|x: Block| block_json(x)));
                i = i + 1;
            }
            assert(v@.take(v.len() as int) =~= v@);
            let a = array_text(&values);
            push_raw_member(members, key, &a);
            assert(views(members@) =~= views(old(members)@) + list_member(key@, *items, |x: Block| block_json(x)));
        },
        None => {
            assert(views(members@) =~= views(old(members)@) + list_member(key@, *items, |x: Block| block_json(x)));
        },
    }
}

fn push_tag_list(members: &mut Vec<Vec<char>>, key: &str, items: &Option<Vec<Tag>>)
    ensures
        views(final(members)@) == views(old(members)@) + list_member(key@, *items, |x: Tag| tag_json(x)),
{
    match items {
        Some(v) => {
            let mut values: Vec<Vec<char>> = Vec::new();
            let mut i: usize = 0;
            while i < v.len()
                invariant
                    i <= v.len(),
                    views(values@) == v@.take(i as int).map_values(|x: Tag| tag_json(x)),
                decreases v.len() - i,
            {
                let t = tag_text(&v[i]);
                let ghost before = views(values@);
                values.push(t);
                assert(views(values@) =~= before.push(t@));
                assert(v@.take(i + 1) =~= v@.take(i as int).push(v@[i as int]));
                assert(views(values@) =~= v@.take(i + 1).map_values(|x: Tag| tag_json(x)));
                i = i + 1;
            }
            assert(v@.take(v.len() as int) =~= v@);
            let a = array_text(&values);
            push_raw_member(members, key, &a);
            assert(views(members@) =~= views(old(members)@) + list_member(key@, *items, |x: Tag| tag_json(x)));
        },
        None => {
            assert(views(members@) =~= views(old(members)@) + list_member(key@, *items, |x: Tag| tag_json(x)));
        },
    }
}

/// Writes the output of `CompleteSnapshot` as a JSON document.
pub fn serialize_structure_crate_output_complete_snapshot_output(value: &CompleteSnapshotOutput) -> (r: Result<String, SerializationError>)
    ensures
        r matches Ok(s) && s@ == complete_snapshot_output_json(*value),
{
    let mut members: Vec<Vec<char>> = Vec::new();
    push_string_member(&mut members, "Status", &value.status);
    let out = object_text(&members);
    Ok(json_text(&out))
}

/// Writes the output of `ListChangedBlocks` as a JSON document.
pub fn serialize_structure_crate_output_list_changed_blocks_output(value: &ListChangedBlocksOutput) -> (r: Result<String, SerializationError>)
    requires
        value.expiry_time matches Some(t) ==> t.is_valid(),
    ensures
        r matches Ok(s) && s@ == list_changed_blocks_output_json(*value),
{
    let mut members: Vec<Vec<char>> = Vec::new();
    push_changed_block_list(&mut members, "ChangedBlocks", &value.changed_blocks);
    push_timestamp_member(&mut members, "ExpiryTime", value.expiry_time);
    push_integer_member(&mut members, "VolumeSize", value.volume_size);
    push_integer_member(&mut members, "BlockSize", widen_exec(value.block_size));
    push_string_member(&mut members, "NextToken", &value.next_token);
    let out = object_text(&members);
    Ok(json_text(&out))
}

/// Writes the output of `ListSnapshotBlocks` as a JSON document.
pub fn serialize_structure_crate_output_list_snapshot_blocks_output(value: &ListSnapshotBlocksOutput) -> (r: Result<String, SerializationError>)
    requires
        value.expiry_time matches Some(t) ==> t.is_valid(),
    ensures
        r matches Ok(s) && s@ == list_snapshot_blocks_output_json(*value),
{
    let mut members: Vec<Vec<char>> = Vec::new();
    push_block_list(&mut members, "Blocks", &value.blocks);
    push_timestamp_member(&mut members, "ExpiryTime", value.expiry_time);
    push_integer_member(&mut members, "VolumeSize", value.volume_size);
    push_integer_member(&mut members, "BlockSize", widen_exec(value.block_size));
    push_string_member(&mut members, "NextToken", &value.next_token);
    let out = object_text(&members);
    Ok(json_text(&out))
}

/// Writes the output of `PutSnapshotBlock` as a JSON document.
pub fn serialize_structure_crate_output_put_snapshot_block_output(value: &PutSnapshotBlockOutput) -> (r: Result<String, SerializationError>)
    ensures
        r matches Ok(s) && s@ == put_snapshot_block_output_json(*value),
{
    let members: Vec<Vec<char>> = Vec::new();
    assert(views(members@) =~= seq![]);
    let out = object_text(&members);
    Ok(json_text(&out))
}

/// Writes the output of `StartSnapshot` as a JSON document.
pub fn serialize_structure_crate_output_start_snapshot_output(value: &StartSnapshotOutput) -> (r: Result<String, SerializationError>)
    requires
        value.start_time matches Some(t) ==> t.is_valid(),
    ensures
        r matches Ok(s) && s@ == start_snapshot_output_json(*value),
{
    let mut members: Vec<Vec<char>> = Vec::new();
    push_string_member(&mut members, "Description", &value.description);
    push_string_member(&mut members, "SnapshotId", &value.snapshot_id);
    push_string_member(&mut members, "OwnerId", &value.owner_id);
    push_string_member(&mut members, "Status", &value.status);
    push_timestamp_member(&mut members, "StartTime", value.start_time);
    push_integer_member(&mut members, "VolumeSize", value.volume_size);
    push_integer_member(&mut members, "BlockSize", widen_exec(value.block_size));
    push_tag_list(&mut members, "Tags", &value.tags);
    push_string_member(&mut members, "ParentSnapshotId", &value.parent_snapshot_id);
    push_string_member(&mut members, "KmsKeyArn", &value.kms_key_arn);
    let out = object_text(&members);
    Ok(json_text(&out))
}

// ---------------------------------------------------------------------------
// Responses
// ---------------------------------------------------------------------------

/// The response of a successful `CompleteSnapshot`: the default status and the output's document.
pub fn serialize_complete_snapshot_response(output: &CompleteSnapshotOutput) -> (r: Result<HttpResponse, SmithyRejection>)
    ensures
        r matches Ok(resp) && resp.status == DEFAULT_STATUS && resp.body@ == complete_snapshot_output_json(*output),
{
    match serialize_structure_crate_output_complete_snapshot_output(output) {
        Ok(payload) => Ok(HttpResponse { status: DEFAULT_STATUS, body: payload }),
        Err(e) => Err(SmithyRejection::Serialization(e)),
    }
}

/// The errors of `CompleteSnapshot`.
#[derive(Clone, Debug)]
pub enum CompleteSnapshotError {
    AccessDeniedError(AccessDeniedError),
    InternalServerError(InternalServerError),
    RequestThrottledError(RequestThrottledError),
    ResourceNotFoundError(ResourceNotFoundError),
    ServiceQuotaExceededError(ServiceQuotaExceededError),
    ValidationError(ValidationError),
}

/// The status code and the document that answer an error of `CompleteSnapshot`.
pub open spec fn complete_snapshot_error_response(error: CompleteSnapshotError) -> (u16, Seq<char>) {
    match error {
        CompleteSnapshotError::AccessDeniedError(e) => (403, access_denied_error_json(e)),
        CompleteSnapshotError::InternalServerError(e) => (500, internal_server_error_json(e)),
        CompleteSnapshotError::RequestThrottledError(e) => (400, request_throttled_error_json(e)),
        CompleteSnapshotError::ResourceNotFoundError(e) => (404, resource_not_found_error_json(e)),
        CompleteSnapshotError::ServiceQuotaExceededError(e) => (402, service_quota_exceeded_error_json(e)),
        CompleteSnapshotError::ValidationError(e) => (400, validation_error_json(e)),
    }
}

/// The response to an error of `CompleteSnapshot`.
pub fn serialize_complete_snapshot_error(error: &CompleteSnapshotError) -> (r: Result<HttpResponse, SmithyRejection>)
    ensures
        r matches Ok(resp) && resp.status == complete_snapshot_error_response(*error).0 && resp.body@
            == complete_snapshot_error_response(*error).1,
{
    match error {
        CompleteSnapshotError::AccessDeniedError(e) => {
            match serialize_structure_crate_error_access_denied_error(e) {
                Ok(payload) => Ok(HttpResponse { status: 403, body: payload }),
                Err(x) => Err(SmithyRejection::Serialization(x)),
            }
        },
        CompleteSnapshotError::InternalServerError(e) => {
            match serialize_structure_crate_error_internal_server_error(e) {
                Ok(payload) => Ok(HttpResponse { status: 500, body: payload }),
                Err(x) => Err(SmithyRejection::Serialization(x)),
            }
        },
        CompleteSnapshotError::RequestThrottledError(e) => {
            match serialize_structure_crate_error_request_throttled_error(e) {
                Ok(payload) => Ok(HttpResponse { status: 400, body: payload }),
                Err(x) => Err(SmithyRejection::Serialization(x)),
            }
        },
        CompleteSnapshotError::ResourceNotFoundError(e) => {
            match serialize_structure_crate_error_resource_not_found_error(e) {
                Ok(payload) => Ok(HttpResponse { status: 404, body: payload }),
                Err(x) => Err(SmithyRejection::Serialization(x)),
            }
        },
        CompleteSnapshotError::ServiceQuotaExceededError(e) => {
            match serialize_structure_crate_error_service_quota_exceeded_error(e) {
                Ok(payload) => Ok(HttpResponse { status: 402, body: payload }),
                Err(x) => Err(SmithyRejection::Serialization(x)),
            }
        },
        CompleteSnapshotError::ValidationError(e) => {
            match serialize_structure_crate_error_validation_error(e) {
                Ok(payload) => Ok(HttpResponse { status: 400, body: payload }),
                Err(x) => Err(SmithyRejection::Serialization(x)),
            }
        },
    }
}

/// The response of a successful `ListChangedBlocks`: the default status and the output's document.
pub fn serialize_list_changed_blocks_response(output: &ListChangedBlocksOutput) -> (r: Result<HttpResponse, SmithyRejection>)
    requires
        output.expiry_time matches Some(t) ==> t.is_valid(),
    ensures
        r matches Ok(resp) && resp.status == DEFAULT_STATUS && resp.body@ == list_changed_blocks_output_json(*output),
{
    match serialize_structure_crate_output_list_changed_blocks_output(output) {
        Ok(payload) => Ok(HttpResponse { status: DEFAULT_STATUS, body: payload }),
        Err(e) => Err(SmithyRejection::Serialization(e)),
    }
}

/// The errors of `ListChangedBlocks`.
#[derive(Clone, Debug)]
pub enum ListChangedBlocksError {
    AccessDeniedError(AccessDeniedError),
    InternalServerError(InternalServerError),
    RequestThrottledError(RequestThrottledError),
    ResourceNotFoundError(ResourceNotFoundError),
    ServiceQuotaExceededError(ServiceQuotaExceededError),
    ValidationError(ValidationError),
}

/// The status code and the document that answer an error of `ListChangedBlocks`.
pub open spec fn list_changed_blocks_error_response(error: ListChangedBlocksError) -> (u16, Seq<char>) {
    match error {
        ListChangedBlocksError::AccessDeniedError(e) => (403, access_denied_error_json(e)),
        ListChangedBlocksError::InternalServerError(e) => (500, internal_server_error_json(e)),
        ListChangedBlocksError::RequestThrottledError(e) => (400, request_throttled_error_json(e)),
        ListChangedBlocksError::ResourceNotFoundError(e) => (404, resource_not_found_error_json(e)),
        ListChangedBlocksError::ServiceQuotaExceededError(e) => (402, service_quota_exceeded_error_json(e)),
        ListChangedBlocksError::ValidationError(e) => (400, validation_error_json(e)),
    }
}

/// The response to an error of `ListChangedBlocks`.
pub fn serialize_list_changed_blocks_error(error: &ListChangedBlocksError) -> (r: Result<HttpResponse, SmithyRejection>)
    ensures
        r matches Ok(resp) && resp.status == list_changed_blocks_error_response(*error).0 && resp.body@
            == list_changed_blocks_error_response(*error).1,
{
    match error {
        ListChangedBlocksError::AccessDeniedError(e) => {
            match serialize_structure_crate_error_access_denied_error(e) {
                Ok(payload) => Ok(HttpResponse { status: 403, body: payload }),
                Err(x) => Err(SmithyRejection::Serialization(x)),
            }
        },
        ListChangedBlocksError::InternalServerError(e) => {
            match serialize_structure_crate_error_internal_server_error(e) {
                Ok(payload) => Ok(HttpResponse { status: 500, body: payload }),
                Err(x) => Err(SmithyRejection::Serialization(x)),
            }
        },
        ListChangedBlocksError::RequestThrottledError(e) => {
            match serialize_structure_crate_error_request_throttled_error(e) {
                Ok(payload) => Ok(HttpResponse { status: 400, body: payload }),
                Err(x) => Err(SmithyRejection::Serialization(x)),
            }
        },
        ListChangedBlocksError::ResourceNotFoundError(e) => {
            match serialize_structure_crate_error_resource_not_found_error(e) {
                Ok(payload) => Ok(HttpResponse { status: 404, body: payload }),
                Err(x) => Err(SmithyRejection::Serialization(x)),
            }
        },
        ListChangedBlocksError::ServiceQuotaExceededError(e) => {
            match serialize_structure_crate_error_service_quota_exceeded_error(e) {
                Ok(payload) => Ok(HttpResponse { status: 402, body: payload }),
                Err(x) => Err(SmithyRejection::Serialization(x)),
            }
        },
        ListChangedBlocksError::ValidationError(e) => {
            match serialize_structure_crate_error_validation_error(e) {
                Ok(payload) => Ok(HttpResponse { status: 400, body: payload }),
                Err(x) => Err(SmithyRejection::Serialization(x)),
            }
        },
    }
}

/// The response of a successful `ListSnapshotBlocks`: the default status and the output's document.
pub fn serialize_list_snapshot_blocks_response(output: &ListSnapshotBlocksOutput) -> (r: Result<HttpResponse, SmithyRejection>)
    requires
        output.expiry_time matches Some(t) ==> t.is_valid(),
    ensures
        r matches Ok(resp) && resp.status == DEFAULT_STATUS && resp.body@ == list_snapshot_blocks_output_json(*output),
{
    match serialize_structure_crate_output_list_snapshot_blocks_output(output) {
        Ok(payload) => Ok(HttpResponse { status: DEFAULT_STATUS, body: payload }),
        Err(e) => Err(SmithyRejection::Serialization(e)),
    }
}

/// The errors of `ListSnapshotBlocks`.
#[derive(Clone, Debug)]
pub enum ListSnapshotBlocksError {
    AccessDeniedError(AccessDeniedError),
    InternalServerError(InternalServerError),
    RequestThrottledError(RequestThrottledError),
    ResourceNotFoundError(ResourceNotFoundError),
    ServiceQuotaExceededError(ServiceQuotaExceededError),
    ValidationError(ValidationError),
}

/// The status code and the document that answer an error of `ListSnapshotBlocks`.
pub open spec fn list_snapshot_blocks_error_response(error: ListSnapshotBlocksError) -> (u16, Seq<char>) {
    match error {
        ListSnapshotBlocksError::AccessDeniedError(e) => (403, access_denied_error_json(e)),
        ListSnapshotBlocksError::InternalServerError(e) => (500, internal_server_error_json(e)),
        ListSnapshotBlocksError::RequestThrottledError(e) => (400, request_throttled_error_json(e)),
        ListSnapshotBlocksError::ResourceNotFoundError(e) => (404, resource_not_found_error_json(e)),
        ListSnapshotBlocksError::ServiceQuotaExceededError(e) => (402, service_quota_exceeded_error_json(e)),
        ListSnapshotBlocksError::ValidationError(e) => (400, validation_error_json(e)),
    }
}

/// The response to an error of `ListSnapshotBlocks`.
pub fn serialize_list_snapshot_blocks_error(error: &ListSnapshotBlocksError) -> (r: Result<HttpResponse, SmithyRejection>)
    ensures
        r matches Ok(resp) && resp.status == list_snapshot_blocks_error_response(*error).0 && resp.body@
            == list_snapshot_blocks_error_response(*error).1,
{
    match error {
        ListSnapshotBlocksError::AccessDeniedError(e) => {
            match serialize_structure_crate_error_access_denied_error(e) {
                Ok(payload) => Ok(HttpResponse { status: 403, body: payload }),
                Err(x) => Err(SmithyRejection::Serialization(x)),
            }
        },
        ListSnapshotBlocksError::InternalServerError(e) => {
            match serialize_structure_crate_error_internal_server_error(e) {
                Ok(payload) => Ok(HttpResponse { status: 500, body: payload }),
                Err(x) => Err(SmithyRejection::Serialization(x)),
            }
        },
        ListSnapshotBlocksError::RequestThrottledError(e) => {
            match serialize_structure_crate_error_request_throttled_error(e) {
                Ok(payload) => Ok(HttpResponse { status: 400, body: payload }),
                Err(x) => Err(SmithyRejection::Serialization(x)),
            }
        },
        ListSnapshotBlocksError::ResourceNotFoundError(e) => {
            match serialize_structure_crate_error_resource_not_found_error(e) {
                Ok(payload) => Ok(HttpResponse { status: 404, body: payload }),
                Err(x) => Err(SmithyRejection::Serialization(x)),
            }
        },
        ListSnapshotBlocksError::ServiceQuotaExceededError(e) => {
            match serialize_structure_crate_error_service_quota_exceeded_error(e) {
                Ok(payload) => Ok(HttpResponse { status: 402, body: payload }),
                Err(x) => Err(SmithyRejection::Serialization(x)),
            }
        },
        ListSnapshotBlocksError::ValidationError(e) => {
            match serialize_structure_crate_error_validation_error(e) {
                Ok(payload) => Ok(HttpResponse { status: 400, body: payload }),
                Err(x) => Err(SmithyRejection::Serialization(x)),
            }
        },
    }
}

/// The response of a successful `PutSnapshotBlock`: the default status and the output's document.
pub fn serialize_put_snapshot_block_response(output: &PutSnapshotBlockOutput) -> (r: Result<HttpResponse, SmithyRejection>)
    ensures
        r matches Ok(resp) && resp.status == DEFAULT_STATUS && resp.body@ == put_snapshot_block_output_json(*output),
{
    match serialize_structure_crate_output_put_snapshot_block_output(output) {
        Ok(payload) => Ok(HttpResponse { status: DEFAULT_STATUS, body: payload }),
        Err(e) => Err(SmithyRejection::Serialization(e)),
    }
}

/// The errors of `PutSnapshotBlock`.
#[derive(Clone, Debug)]
pub enum PutSnapshotBlockError {
    AccessDeniedError(AccessDeniedError),
    InternalServerError(InternalServerError),
    RequestThrottledError(RequestThrottledError),
    ResourceNotFoundError(ResourceNotFoundError),
    ServiceQuotaExceededError(ServiceQuotaExceededError),
    ValidationError(ValidationError),
}

/// The status code and the document that answer an error of `PutSnapshotBlock`.
pub open spec fn put_snapshot_block_error_response(error: PutSnapshotBlockError) -> (u16, Seq<char>) {
    match error {
        PutSnapshotBlockError::AccessDeniedError(e) => (403, access_denied_error_json(e)),
        PutSnapshotBlockError::InternalServerError(e) => (500, internal_server_error_json(e)),
        PutSnapshotBlockError::RequestThrottledError(e) => (400, request_throttled_error_json(e)),
        PutSnapshotBlockError::ResourceNotFoundError(e) => (404, resource_not_found_error_json(e)),
        PutSnapshotBlockError::ServiceQuotaExceededError(e) => (402, service_quota_exceeded_error_json(e)),
        PutSnapshotBlockError::ValidationError(e) => (400, validation_error_json(e)),
    }
}

/// The response to an error of `PutSnapshotBlock`.
pub fn serialize_put_snapshot_block_error(error: &PutSnapshotBlockError) -> (r: Result<HttpResponse, SmithyRejection>)
    ensures
        r matches Ok(resp) && resp.status == put_snapshot_block_error_response(*error).0 && resp.body@
            == put_snapshot_block_error_response(*error).1,
{
    match error {
        PutSnapshotBlockError::AccessDeniedError(e) => {
            match serialize_structure_crate_error_access_denied_error(e) {
                Ok(payload) => Ok(HttpResponse { status: 403, body: payload }),
                Err(x) => Err(SmithyRejection::Serialization(x)),
            }
        },
        PutSnapshotBlockError::InternalServerError(e) => {
            match serialize_structure_crate_error_internal_server_error(e) {
                Ok(payload) => Ok(HttpResponse { status: 500, body: payload }),
                Err(x) => Err(SmithyRejection::Serialization(x)),
            }
        },
        PutSnapshotBlockError::RequestThrottledError(e) => {
            match serialize_structure_crate_error_request_throttled_error(e) {
                Ok(payload) => Ok(HttpResponse { status: 400, body: payload }),
                Err(x) => Err(SmithyRejection::Serialization(x)),
            }
        },
        PutSnapshotBlockError::ResourceNotFoundError(e) => {
            match serialize_structure_crate_error_resource_not_found_error(e) {
                Ok(payload) => Ok(HttpResponse { status: 404, body: payload }),
                Err(x) => Err(SmithyRejection::Serialization(x)),
            }
        },
        PutSnapshotBlockError::ServiceQuotaExceededError(e) => {
            match serialize_structure_crate_error_service_quota_exceeded_error(e) {
                Ok(payload) => Ok(HttpResponse { status: 402, body: payload }),
                Err(x) => Err(SmithyRejection::Serialization(x)),
            }
        },
        PutSnapshotBlockError::ValidationError(e) => {
            match serialize_structure_crate_error_validation_error(e) {
                Ok(payload) => Ok(HttpResponse { status: 400, body: payload }),
                Err(x) => Err(SmithyRejection::Serialization(x)),
            }
        },
    }
}

/// The response of a successful `StartSnapshot`: the default status and the output's document.
pub fn serialize_start_snapshot_response(output: &StartSnapshotOutput) -> (r: Result<HttpResponse, SmithyRejection>)
    requires
        output.start_time matches Some(t) ==> t.is_valid(),
    ensures
        r matches Ok(resp) && resp.status == DEFAULT_STATUS && resp.body@ == start_snapshot_output_json(*output),
{
    match serialize_structure_crate_output_start_snapshot_output(output) {
        Ok(payload) => Ok(HttpResponse { status: DEFAULT_STATUS, body: payload }),
        Err(e) => Err(SmithyRejection::Serialization(e)),
    }
}

/// The errors of `StartSnapshot`.
#[derive(Clone, Debug)]
pub enum StartSnapshotError {
    AccessDeniedError(AccessDeniedError),
    ConcurrentLimitExceededError(ConcurrentLimitExceededError),
    ConflictError(ConflictError),
    InternalServerError(InternalServerError),
    RequestThrottledError(RequestThrottledError),
    ResourceNotFoundError(ResourceNotFoundError),
    ServiceQuotaExceededError(ServiceQuotaExceededError),
    ValidationError(ValidationError),
}

/// The status code and the document that answer an error of `StartSnapshot`.
pub open spec fn start_snapshot_error_response(error: StartSnapshotError) -> (u16, Seq<char>) {
    match error {
        StartSnapshotError::AccessDeniedError(e) => (403, access_denied_error_json(e)),
        StartSnapshotError::ConcurrentLimitExceededError(e) => (400, concurrent_limit_exceeded_error_json(e)),
        StartSnapshotError::ConflictError(e) => (503, conflict_error_json(e)),
        StartSnapshotError::InternalServerError(e) => (500, internal_server_error_json(e)),
        StartSnapshotError::RequestThrottledError(e) => (400, request_throttled_error_json(e)),
        StartSnapshotError::ResourceNotFoundError(e) => (404, resource_not_found_error_json(e)),
        StartSnapshotError::ServiceQuotaExceededError(e) => (402, service_quota_exceeded_error_json(e)),
        StartSnapshotError::ValidationError(e) => (400, validation_error_json(e)),
    }
}

/// The response to an error of `StartSnapshot`.
pub fn serialize_start_snapshot_error(error: &StartSnapshotError) -> (r: Result<HttpResponse, SmithyRejection>)
    ensures
        r matches Ok(resp) && resp.status == start_snapshot_error_response(*error).0 && resp.body@
            == start_snapshot_error_response(*error).1,
{
    match error {
        StartSnapshotError::AccessDeniedError(e) => {
            match serialize_structure_crate_error_access_denied_error(e) {
                Ok(payload) => Ok(HttpResponse { status: 403, body: payload }),
                Err(x) => Err(SmithyRejection::Serialization(x)),
            }
        },
        StartSnapshotError::ConcurrentLimitExceededError(e) => {
            match serialize_structure_crate_error_concurrent_limit_exceeded_error(e) {
                Ok(payload) => Ok(HttpResponse { status: 400, body: payload }),
                Err(x) => Err(SmithyRejection::Serialization(x)),
            }
        },
        StartSnapshotError::ConflictError(e) => {
            match serialize_structure_crate_error_conflict_error(e) {
                Ok(payload) => Ok(HttpResponse { status: 503, body: payload }),
                Err(x) => Err(SmithyRejection::Serialization(x)),
            }
        },
        StartSnapshotError::InternalServerError(e) => {
            match serialize_structure_crate_error_internal_server_error(e) {
                Ok(payload) => Ok(HttpResponse { status: 500, body: payload }),
                Err(x) => Err(SmithyRejection::Serialization(x)),
            }
        },
        StartSnapshotError::RequestThrottledError(e) => {
            match serialize_structure_crate_error_request_throttled_error(e) {
                Ok(payload) => Ok(HttpResponse { status: 400, body: payload }),
                Err(x) => Err(SmithyRejection::Serialization(x)),
            }
        },
        StartSnapshotError::ResourceNotFoundError(e) => {
            match serialize_structure_crate_error_resource_not_found_error(e) {
                Ok(payload) => Ok(HttpResponse { status: 404, body: payload }),
                Err(x) => Err(SmithyRejection::Serialization(x)),
            }
        },
        StartSnapshotError::ServiceQuotaExceededError(e) => {
            match serialize_structure_crate_error_service_quota_exceeded_error(e) {
                Ok(payload) => Ok(HttpResponse { status: 402, body: payload }),
                Err(x) => Err(SmithyRejection::Serialization(x)),
            }
        },
        StartSnapshotError::ValidationError(e) => {
            match serialize_structure_crate_error_validation_error(e) {
                Ok(payload) => Ok(HttpResponse { status: 400, body: payload }),
                Err(x) => Err(SmithyRejection::Serialization(x)),
            }
        },
    }
}

/// Every error of every operation is answered with a client (4xx) or server (5xx)
/// error status, never with the success status.
pub proof fn lemma_error_statuses_are_errors(complete_snapshot: CompleteSnapshotError, list_changed_blocks: ListChangedBlocksError, list_snapshot_blocks: ListSnapshotBlocksError, put_snapshot_block: PutSnapshotBlockError, start_snapshot: StartSnapshotError)
    ensures
        400 <= complete_snapshot_error_response(complete_snapshot).0 < 600,
        400 <= list_changed_blocks_error_response(list_changed_blocks).0 < 600,
        400 <= list_snapshot_blocks_error_response(list_snapshot_blocks).0 < 600,
        400 <= put_snapshot_block_error_response(put_snapshot_block).0 < 600,
        400 <= start_snapshot_error_response(start_snapshot).0 < 600,
{
}

/// `AccessDeniedError` is answered with status 403 and its own document, the same in every
/// operation that can fail with it.
pub proof fn lemma_access_denied_error_answer(e: AccessDeniedError)
    ensures
        complete_snapshot_error_response(CompleteSnapshotError::AccessDeniedError(e)) == (403u16, access_denied_error_json(e)),
        list_changed_blocks_error_response(ListChangedBlocksError::AccessDeniedError(e)) == (403u16, access_denied_error_json(e)),
        list_snapshot_blocks_error_response(ListSnapshotBlocksError::AccessDeniedError(e)) == (403u16, access_denied_error_json(e)),
        put_snapshot_block_error_response(PutSnapshotBlockError::AccessDeniedError(e)) == (403u16, access_denied_error_json(e)),
        start_snapshot_error_response(StartSnapshotError::AccessDeniedError(e)) == (403u16, access_denied_error_json(e)),
{
}

/// `InternalServerError` is answered with status 500 and its own document, the same in every
/// operation that can fail with it.
pub proof fn lemma_internal_server_error_answer(e: InternalServerError)
    ensures
        complete_snapshot_error_response(CompleteSnapshotError::InternalServerError(e)) == (500u16, internal_server_error_json(e)),
        list_changed_blocks_error_response(ListChangedBlocksError::InternalServerError(e)) == (500u16, internal_server_error_json(e)),
        list_snapshot_blocks_error_response(ListSnapshotBlocksError::InternalServerError(e)) == (500u16, internal_server_error_json(e)),
        put_snapshot_block_error_response(PutSnapshotBlockError::InternalServerError(e)) == (500u16, internal_server_error_json(e)),
        start_snapshot_error_response(StartSnapshotError::InternalServerError(e)) == (500u16, internal_server_error_json(e)),
{
}

/// `RequestThrottledError` is answered with status 400 and its own document, the same in every
/// operation that can fail with it.
pub proof fn lemma_request_throttled_error_answer(e: RequestThrottledError)
    ensures
        complete_snapshot_error_response(CompleteSnapshotError::RequestThrottledError(e)) == (400u16, request_throttled_error_json(e)),
        list_changed_blocks_error_response(ListChangedBlocksError::RequestThrottledError(e)) == (400u16, request_throttled_error_json(e)),
        list_snapshot_blocks_error_response(ListSnapshotBlocksError::RequestThrottledError(e)) == (400u16, request_throttled_error_json(e)),
        put_snapshot_block_error_response(PutSnapshotBlockError::RequestThrottledError(e)) == (400u16, request_throttled_error_json(e)),
        start_snapshot_error_response(StartSnapshotError::RequestThrottledError(e)) == (400u16, request_throttled_error_json(e)),
{
}

/// `ResourceNotFoundError` is answered with status 404 and its own document, the same in every
/// operation that can fail with it.
pub proof fn lemma_resource_not_found_error_answer(e: ResourceNotFoundError)
    ensures
        complete_snapshot_error_response(CompleteSnapshotError::ResourceNotFoundError(e)) == (404u16, resource_not_found_error_json(e)),
        list_changed_blocks_error_response(ListChangedBlocksError::ResourceNotFoundError(e)) == (404u16, resource_not_found_error_json(e)),
        list_snapshot_blocks_error_response(ListSnapshotBlocksError::ResourceNotFoundError(e)) == (404u16, resource_not_found_error_json(e)),
        put_snapshot_block_error_response(PutSnapshotBlockError::ResourceNotFoundError(e)) == (404u16, resource_not_found_error_json(e)),
        start_snapshot_error_response(StartSnapshotError::ResourceNotFoundError(e)) == (404u16, resource_not_found_error_json(e)),
{
}

/// `ServiceQuotaExceededError` is answered with status 402 and its own document, the same in every
/// operation that can fail with it.
pub proof fn lemma_service_quota_exceeded_error_answer(e: ServiceQuotaExceededError)
    ensures
        complete_snapshot_error_response(CompleteSnapshotError::ServiceQuotaExceededError(e)) == (402u16, service_quota_exceeded_error_json(e)),
        list_changed_blocks_error_response(ListChangedBlocksError::ServiceQuotaExceededError(e)) == (402u16, service_quota_exceeded_error_json(e)),
        list_snapshot_blocks_error_response(ListSnapshotBlocksError::ServiceQuotaExceededError(e)) == (402u16, service_quota_exceeded_error_json(e)),
        put_snapshot_block_error_response(PutSnapshotBlockError::ServiceQuotaExceededError(e)) == (402u16, service_quota_exceeded_error_json(e)),
        start_snapshot_error_response(StartSnapshotError::ServiceQuotaExceededError(e)) == (402u16, service_quota_exceeded_error_json(e)),
{
}

/// `ValidationError` is answered with status 400 and its own document, the same in every
/// operation that can fail with it.
pub proof fn lemma_validation_error_answer(e: ValidationError)
    ensures
        complete_snapshot_error_response(CompleteSnapshotError::ValidationError(e)) == (400u16, validation_error_json(e)),
        list_changed_blocks_error_response(ListChangedBlocksError::ValidationError(e)) == (400u16, validation_error_json(e)),
        list_snapshot_blocks_error_response(ListSnapshotBlocksError::ValidationError(e)) == (400u16, validation_error_json(e)),
        put_snapshot_block_error_response(PutSnapshotBlockError::ValidationError(e)) == (400u16, validation_error_json(e)),
        start_snapshot_error_response(StartSnapshotError::ValidationError(e)) == (400u16, validation_error_json(e)),
{
}

/// `ConcurrentLimitExceededError` is answered with status 400 and its own document, the same in every
/// operation that can fail with it.
pub proof fn lemma_concurrent_limit_exceeded_error_answer(e: ConcurrentLimitExceededError)
    ensures
        start_snapshot_error_response(StartSnapshotError::ConcurrentLimitExceededError(e)) == (400u16, concurrent_limit_exceeded_error_json(e)),
{
}

/// `ConflictError` is answered with status 503 and its own document, the same in every
/// operation that can fail with it.
pub proof fn lemma_conflict_error_answer(e: ConflictError)
    ensures
        start_snapshot_error_response(StartSnapshotError::ConflictError(e)) == (503u16, conflict_error_json(e)),
{
}

} // verus!
