//! The HTTP statuses that the gateway answers with.
use vstd::prelude::*;

verus! {

pub const OK: u16 = 200;

pub const PARTIAL_CONTENT: u16 = 206;

pub const BAD_REQUEST: u16 = 400;

pub const UNAUTHORIZED: u16 = 401;

pub const FORBIDDEN: u16 = 403;

pub const NOT_FOUND: u16 = 404;

pub const CONFLICT: u16 = 409;

pub const GONE: u16 = 410;

pub const PAYLOAD_TOO_LARGE: u16 = 413;

pub const RANGE_NOT_SATISFIABLE: u16 = 416;

pub const MISDIRECTED_REQUEST: u16 = 421;

pub const UNPROCESSABLE_ENTITY: u16 = 422;

pub const TOO_MANY_REQUESTS: u16 = 429;

pub const INTERNAL_SERVER_ERROR: u16 = 500;

pub const INSUFFICIENT_STORAGE: u16 = 507;

} // verus!
