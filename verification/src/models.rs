//! The status of a video record, and the update that sets it.

use vstd::prelude::*;

verus! {

/// The life-cycle states of a video record.
#[allow(non_camel_case_types)]
#[derive(Debug, Clone, Copy, PartialEq, Eq, Structural)]
pub enum VideoStatus {
    UNUPLOADED,
    PENDING,
    PROCESSING,
    READY,
    FAILED,
    DELETED,
}

/// The name under which a status is stored.
pub open spec fn status_name(status: VideoStatus) -> Seq<char> {
    match status {
        VideoStatus::UNUPLOADED => "UNUPLOADED"@,
        VideoStatus::PENDING => "PENDING"@,
        VideoStatus::PROCESSING => "PROCESSING"@,
        VideoStatus::READY => "READY"@,
        VideoStatus::FAILED => "FAILED"@,
        VideoStatus::DELETED => "DELETED"@,
    }
}

impl VideoStatus {
    /// The name under which the status is stored: the variant's name.
    pub fn to_string(&self) -> (name: String)
        ensures
            name@ == status_name(*self),
    {
        match self {
            VideoStatus::UNUPLOADED => String::from_str("UNUPLOADED"),
            VideoStatus::PENDING => String::from_str("PENDING"),
            VideoStatus::PROCESSING => String::from_str("PROCESSING"),
            VideoStatus::READY => String::from_str("READY"),
            VideoStatus::FAILED => String::from_str("FAILED"),
            VideoStatus::DELETED => String::from_str("DELETED"),
        }
    }
}

/// Distinct statuses are stored under distinct names, so a stored name
/// gives back the status that was written.
pub proof fn lemma_status_names_distinct(a: VideoStatus, b: VideoStatus)
    ensures
        status_name(a) == status_name(b) <==> a == b,
{
    reveal_strlit("UNUPLOADED");
    reveal_strlit("PENDING");
    reveal_strlit("PROCESSING");
    reveal_strlit("READY");
    reveal_strlit("FAILED");
    reveal_strlit("DELETED");
    if status_name(a) == status_name(b) && a != b {
        let x = status_name(a);
        let y = status_name(b);
        assert(x.len() != y.len() || x[0] != y[0] || x[1] != y[1]);
    }
}

#[verifier::external_type_specification]
#[verifier::external_body]
pub struct ExObjectIdError(mongodb::bson::oid::Error);

/// Whether `c` is a hexadecimal digit, in either case.
pub open spec fn is_hex_digit(c: char) -> bool {
    ('0' <= c && c <= '9') || ('a' <= c && c <= 'f') || ('A' <= c && c <= 'F')
}

/// The value of the hexadecimal digit `c`.
pub open spec fn hex_value(c: char) -> int {
    if '0' <= c && c <= '9' {
        c as int - '0' as int
    } else if 'a' <= c && c <= 'f' {
        c as int - 'a' as int + 10
    } else {
        c as int - 'A' as int + 10
    }
}

/// Whether `s` is the text of an object id: 24 hexadecimal digits.
pub open spec fn is_object_id_text(s: Seq<char>) -> bool {
    s.len() == 24 && forall|i: int| 0 <= i < 24 ==> is_hex_digit(#[trigger] s[i])
}

/// The twelve bytes that the 24 hexadecimal digits `s` encode, two digits a
/// byte, the high half first.
pub open spec fn object_id_bytes(s: Seq<char>) -> Seq<u8> {
    Seq::new(12, |i: int| (hex_value(s[2 * i]) * 16 + hex_value(s[2 * i + 1])) as u8)
}

/// `ObjectId::parse_str` of the bson crate (re-exported by mongodb), giving
/// the bytes of the id. The contract claims what bson's source shows: the
/// text is hex-decoded (digits of either case, two to a byte, high half
/// first) and accepted exactly when it decodes to twelve bytes, that is when
/// it is 24 hexadecimal digits.
#[verifier::external_body]
fn parse_object_id(s: &str) -> (bytes: Result<[u8; 12], mongodb::bson::oid::Error>)
    ensures
        bytes is Ok <==> is_object_id_text(s@),
        bytes matches Ok(b) ==> b@ == object_id_bytes(s@),
{
    mongodb::bson::oid::ObjectId::parse_str(s).map(|id| id.bytes())
}

/// Why a status update cannot be formed.
#[derive(Debug, PartialEq, Eq)]
pub enum StatusUpdateError {
    /// The video id is not the text of an object id.
    InvalidVideoId,
}

/// The update of one video record: the record's object id, and the status
/// name to set.
#[derive(Debug)]
pub struct StatusUpdate {
    pub id: [u8; 12],
    pub status: String,
}

/// The update that sets the status of the video whose id is the text
/// `video_id`; fails when `video_id` is not 24 hexadecimal digits.
pub fn status_update(video_id: &str, status: VideoStatus) -> (update: Result<
    StatusUpdate,
    StatusUpdateError,
>)
    ensures
        is_object_id_text(video_id@) ==> (update matches Ok(u) && u.id@ == object_id_bytes(video_id@)
            && u.status@ == status_name(status)),
        !is_object_id_text(video_id@) ==> update == Err::<StatusUpdate, StatusUpdateError>(
            StatusUpdateError::InvalidVideoId,
        ),
{
    match parse_object_id(video_id) {
        Ok(id) => Ok(StatusUpdate { id, status: status.to_string() }),
        Err(_) => Err(StatusUpdateError::InvalidVideoId),
    }
}

/// The hexadecimal digit of `v` (`0 <= v < 16`), in lower case when
/// `upper` is false and in upper case otherwise.
pub open spec fn hex_digit(v: int, upper: bool) -> char {
    if v < 10 {
        ('0' as int + v) as char
    } else if upper {
        ('A' as int + v - 10) as char
    } else {
        ('a' as int + v - 10) as char
    }
}

/// The hexadecimal text of `bytes`, two digits a byte, the high half first.
pub open spec fn hex_text(bytes: Seq<u8>, upper: bool) -> Seq<char> {
    Seq::new(
        2 * bytes.len(),
        |i: int|
            hex_digit(
                if i % 2 == 0 {
                    bytes[i / 2] / 16
                } else {
                    bytes[i / 2] % 16
                } as int,
                upper,
            ),
    )
}

/// The text of an object id is accepted and decoded back to its bytes: any
/// twelve bytes written as 24 hexadecimal digits, in lower or in upper case,
/// form the text of an object id whose bytes are those twelve.
pub proof fn lemma_object_id_text_round_trip(bytes: Seq<u8>, upper: bool)
    requires
        bytes.len() == 12,
    ensures
        is_object_id_text(hex_text(bytes, upper)),
        object_id_bytes(hex_text(bytes, upper)) == bytes,
{
    let t = hex_text(bytes, upper);
    assert forall|i: int| 0 <= i < 24 implies is_hex_digit(#[trigger] t[i]) && hex_value(t[i]) == (
    if i % 2 == 0 {
        bytes[i / 2] / 16
    } else {
        bytes[i / 2] % 16
    }) by {
        let v: int = (if i % 2 == 0 {
            bytes[i / 2] / 16
        } else {
            bytes[i / 2] % 16
        }) as int;
        assert(0 <= v < 16);
    }
    assert forall|k: int| 0 <= k < 12 implies #[trigger] object_id_bytes(t)[k] == bytes[k] by {
        assert(t[2 * k] == t[2 * k]);
        assert((2 * k) / 2 == k && (2 * k + 1) / 2 == k);
        assert((2 * k) % 2 == 0 && (2 * k + 1) % 2 == 1);
        assert(hex_value(t[2 * k]) == bytes[k] / 16);
        assert(hex_value(t[2 * k + 1]) == bytes[k] % 16);
    }
    assert(object_id_bytes(t) =~= bytes);
}

} // verus!
