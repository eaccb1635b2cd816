//! Error codes defined by JSON-RPC and the Language Server Protocol.

use vstd::prelude::*;

verus! {

pub const PARSE_ERROR: i32 = -32700;

pub const INVALID_REQUEST: i32 = -32600;

pub const METHOD_NOT_FOUND: i32 = -32601;

pub const INVALID_PARAMS: i32 = -32602;

pub const INTERNAL_ERROR: i32 = -32603;

pub const JSONRPC_RESERVED_ERROR_RANGE_START: i32 = -32099;

pub const SERVER_NOT_INITIALIZED: i32 = -32002;

pub const UNKNOWN_ERROR_CODE: i32 = -32001;

pub const JSONRPC_RESERVED_ERROR_RANGE_END: i32 = -32000;

pub const LSP_RESERVED_ERROR_RANGE_START: i32 = -32899;

pub const CONTENT_MODIFIED: i32 = -32801;

pub const REQUEST_CANCELLED: i32 = -32800;

pub const LSP_RESERVED_ERROR_RANGE_END: i32 = -32800;

} // verus!
