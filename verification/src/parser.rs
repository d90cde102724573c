//! The event notification that the storage service queues when an object is
//! uploaded, and what a worker takes from it.

use vstd::prelude::*;

verus! {

/// One event record of a notification.
#[derive(Debug)]
pub struct Record {
    pub event_version: String,
    pub event_source: String,
    pub aws_region: String,
    pub event_time: String,
    pub event_name: String,
    pub s3: S3,
}

/// The storage part of an event record.
#[derive(Debug)]
pub struct S3 {
    pub s3_schema_version: String,
    pub configuration_id: String,
    pub bucket: Bucket,
    pub object: Object,
}

/// The bucket an event concerns.
#[derive(Debug)]
pub struct Bucket {
    pub name: String,
    pub arn: String,
}

/// The object an event concerns.
#[derive(Debug)]
pub struct Object {
    pub key: String,
    pub size: u64,
    pub sequencer: String,
}

/// A notification: its event records.
#[derive(Debug)]
pub struct ParsedMessage {
    pub records: Vec<Record>,
}

/// The object that a notification announces: the key and the bucket of its
/// first record.
#[derive(Debug)]
pub struct UploadedObject {
    pub key: String,
    pub bucket: String,
}

/// The object announced by `message`: the one of its first record.
pub open spec fn announced_object(message: ParsedMessage) -> UploadedObject
    recommends
        message.records.len() > 0,
{
    UploadedObject {
        key: message.records[0].s3.object.key,
        bucket: message.records[0].s3.bucket.name,
    }
}

impl ParsedMessage {
    /// The object that the first record of the notification announces, or
    /// none when the notification has no record.
    pub fn uploaded_object(&self) -> (object: Option<UploadedObject>)
        ensures
            self.records.len() > 0 ==> object == Some(announced_object(*self)),
            self.records.len() == 0 ==> object is None,
    {
        if self.records.len() > 0 {
            let record = &self.records[0];
            Some(
                UploadedObject {
                    key: record.s3.object.key.clone(),
                    bucket: record.s3.bucket.name.clone(),
                },
            )
        } else {
            None
        }
    }
}

} // verus!
