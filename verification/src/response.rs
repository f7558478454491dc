//! The envelope of every API reply, and the paging parameters of list
//! requests.
use vstd::prelude::*;
use crate::clock::{read_clock, rfc3339_text, Timestamp};

verus! {

/// Whether `text` is the RFC 3339 rendering of some instant at or after the
/// Unix epoch: the time a reply is stamped with.
pub open spec fn is_reply_time(text: Seq<char>) -> bool {
    exists|t: Timestamp|
        t.secs >= 0 && t.nanos < 1_000_000_000 && text == #[trigger] rfc3339_text(t.secs, t.nanos)
}

/// An API reply: status code, message, payload when there is one, and the
/// RFC 3339 time the reply was made.
pub struct ApiResponse<T> {
    pub code: u16,
    pub message: String,
    pub data: Option<T>,
    pub timestamp: String,
}

impl<T> ApiResponse<T> {
    /// A successful reply carrying `data`, stamped with the current time.
    pub fn success(data: T) -> (r: ApiResponse<T>)
        ensures
            r.code == 200,
            r.message@ == "success"@,
            r.data == Some(data),
            is_reply_time(r.timestamp@),
    {
        let now = read_clock();
        assert(is_reply_time(now.rfc3339@)) by {
            let t = now.instant;
            assert(now.rfc3339@ == rfc3339_text(t.secs, t.nanos));
        }
        ApiResponse { code: 200, message: String::from_str("success"), data: Some(data), timestamp: now.rfc3339 }
    }

    /// A failed reply with `code` and `message` and no payload, stamped with
    /// the current time.
    pub fn error(code: u16, message: String) -> (r: ApiResponse<T>)
        ensures
            r.code == code,
            r.message == message,
            r.data is None,
            is_reply_time(r.timestamp@),
    {
        let now = read_clock();
        assert(is_reply_time(now.rfc3339@)) by {
            let t = now.instant;
            assert(now.rfc3339@ == rfc3339_text(t.secs, t.nanos));
        }
        ApiResponse { code, message, data: None, timestamp: now.rfc3339 }
    }
}

/// Paging and filtering parameters of a list request.
pub struct PaginationQuery {
    pub limit: Option<u64>,
    pub offset: Option<u64>,
    pub start: Option<String>,
    pub end: Option<String>,
    pub layer_id: Option<u8>,
}

} // verus!
