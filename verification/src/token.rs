//! API token records: the stored row, its wire shape, timestamp checking,
//! the same-user rule, and the token lifetime cap. Key signing stays with
//! the caller; these functions decide and construct over plain values.

use vstd::prelude::*;

use crate::error::ApiError;
use crate::trusted::{chrono_ts_ok, timestamp_valid, uuid_new_v4_string, uuid_str_ok, uuid_valid};

verus! {

/// Longest token lifetime accepted in production: about one year, in
/// seconds.
pub const MAX_TTL: u64 = 365 * 24 * 60 * 60;

/// A stored token row.
#[derive(Debug, Clone)]
pub struct QueryToken {
    pub id: i32,
    pub uuid: String,
    pub user_id: i32,
    pub name: String,
    pub jwt: String,
    pub creation: i64,
    pub expiration: i64,
}

/// The token wire shape; identifiers are UUID strings and times are
/// range-checked whole-second Unix timestamps.
#[derive(Debug, Clone)]
pub struct JsonToken {
    pub uuid: String,
    pub user: String,
    pub name: String,
    pub token: String,
    pub creation: i64,
    pub expiration: i64,
}

/// A token row ready to insert.
#[derive(Debug, Clone)]
pub struct InsertToken {
    pub uuid: String,
    pub user_id: i32,
    pub name: String,
    pub jwt: String,
    pub creation: i64,
    pub expiration: i64,
}

/// A timestamp the date library can represent, passed through unchanged;
/// anything else is an error naming the timestamp.
pub fn to_date_time(timestamp: i64) -> (r: Result<i64, ApiError>)
    ensures
        match r {
            Ok(t) => chrono_ts_ok(timestamp) && t == timestamp,
            Err(e) => !chrono_ts_ok(timestamp) && e == ApiError::Timestamp(timestamp),
        },
{
    if timestamp_valid(timestamp) {
        Ok(timestamp)
    } else {
        Err(ApiError::Timestamp(timestamp))
    }
}

/// Only an administrator may act for another user.
pub fn same_user_check(is_admin: bool, auth_id: i32, user_id: i32) -> (r: Result<(), ApiError>)
    ensures
        match r {
            Ok(_) => is_admin || auth_id == user_id,
            Err(e) => !is_admin && auth_id != user_id && e == (ApiError::SameUser {
                auth: auth_id,
                user: user_id,
            }),
        },
{
    if is_admin || auth_id == user_id {
        Ok(())
    } else {
        Err(ApiError::SameUser { auth: auth_id, user: user_id })
    }
}

/// A requested lifetime over the cap is rejected, naming both.
pub fn check_max_ttl(ttl: u64) -> (r: Result<(), ApiError>)
    ensures
        match r {
            Ok(_) => ttl <= MAX_TTL,
            Err(e) => ttl > MAX_TTL && e == (ApiError::MaxTtl { requested: ttl, max: MAX_TTL }),
        },
{
    if ttl <= MAX_TTL {
        Ok(())
    } else {
        Err(ApiError::MaxTtl { requested: ttl, max: MAX_TTL })
    }
}

impl QueryToken {
    /// The wire shape of this row, given the owning user's UUID: the
    /// stored identifier must be a UUID and both times representable;
    /// each failure is scoped to its field's error.
    pub fn into_json(self, user: String) -> (r: Result<JsonToken, ApiError>)
        ensures
            match r {
                Ok(json) => uuid_str_ok(self.uuid@) && chrono_ts_ok(self.creation) && chrono_ts_ok(
                    self.expiration,
                ) && json.uuid@ == self.uuid@ && json.user@ == user@ && json.name@ == self.name@
                    && json.token@ == self.jwt@ && json.creation == self.creation
                    && json.expiration == self.expiration,
                Err(e) => (!uuid_str_ok(self.uuid@) && e == ApiError::InvalidUuid) || (uuid_str_ok(
                    self.uuid@,
                ) && !chrono_ts_ok(self.creation) && e == ApiError::Timestamp(self.creation)) || (
                uuid_str_ok(self.uuid@) && chrono_ts_ok(self.creation) && !chrono_ts_ok(
                    self.expiration,
                ) && e == ApiError::Timestamp(self.expiration)),
            },
    {
        if !uuid_valid(self.uuid.as_str()) {
            return Err(ApiError::InvalidUuid);
        }
        let QueryToken { id: _, uuid, user_id: _, name, jwt, creation, expiration } = self;
        let creation = to_date_time(creation)?;
        let expiration = to_date_time(expiration)?;
        Ok(JsonToken { uuid, user, name, token: jwt, creation, expiration })
    }
}

impl InsertToken {
    /// A row for a signed token: fresh UUID around the caller-supplied
    /// signed key and its validated claims. The same-user rule and the
    /// lifetime cap are checked here; signing itself is outside work.
    pub fn from_json(
        user_id: i32,
        name: String,
        jwt: String,
        issued_at: i64,
        expiration: i64,
        ttl: u64,
        is_admin: bool,
        auth_id: i32,
    ) -> (r: Result<InsertToken, ApiError>)
        ensures
            match r {
                Ok(row) => (is_admin || auth_id == user_id) && ttl <= MAX_TTL && row.uuid@.len()
                    == 36 && row.user_id == user_id && row.name@ == name@ && row.jwt@ == jwt@
                    && row.creation == issued_at && row.expiration == expiration,
                Err(e) => (!is_admin && auth_id != user_id && e == (ApiError::SameUser {
                    auth: auth_id,
                    user: user_id,
                })) || ((is_admin || auth_id == user_id) && ttl > MAX_TTL && e
                    == (ApiError::MaxTtl { requested: ttl, max: MAX_TTL })),
            },
    {
        let _ = match same_user_check(is_admin, auth_id, user_id) {
            Ok(x) => x,
            Err(e) => {
                return Err(e);
            },
        };
        let _ = match check_max_ttl(ttl) {
            Ok(x) => x,
            Err(e) => {
                return Err(e);
            },
        };
        Ok(
            InsertToken {
                uuid: uuid_new_v4_string(),
                user_id,
                name,
                jwt,
                creation: issued_at,
                expiration,
            },
        )
    }
}

} // verus!
