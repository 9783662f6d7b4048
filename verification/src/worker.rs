//! What a worker reports, as plain values.

use vstd::prelude::*;

verus! {

/// How a worker's generation ended.
#[derive(Debug, Clone, Copy, PartialEq, Eq, Structural)]
pub enum FinishReason {
    Unspecified,
    Stop,
    Length,
    Cancelled,
    Error,
    PreemptedFatal,
}

/// What went wrong in a worker that finished with an error.
#[derive(Debug, Clone, Copy, PartialEq, Eq, Structural)]
pub enum WorkerErrorCode {
    Unspecified,
    InvalidRequest,
    CtxOverflow,
    GrammarUnsupported,
    GrammarCompile,
    OomRejected,
    Draining,
    Internal,
}

/// The terminal event of a worker stream.
#[derive(Debug)]
pub struct Finished {
    pub finish_reason: FinishReason,
    pub prompt_tokens: u32,
    pub completion_tokens: u32,
    pub error_code: WorkerErrorCode,
    pub error_detail: String,
    /// The stop string a tokenizer-owning worker matched; empty for none.
    pub matched_stop: String,
}

/// A failed call to a worker or to the job runner: the gRPC status code and
/// its message.
#[derive(Debug)]
pub struct RpcStatus {
    pub code: i32,
    pub message: String,
}

/// gRPC `INVALID_ARGUMENT`.
pub const RPC_INVALID_ARGUMENT: i32 = 3;

/// gRPC `NOT_FOUND`.
pub const RPC_NOT_FOUND: i32 = 5;

/// gRPC `UNAVAILABLE`.
pub const RPC_UNAVAILABLE: i32 = 14;

/// The words `tonic::Code` displays for a status code.
pub open spec fn rpc_code_words(code: i32) -> Seq<char> {
    match code {
        0i32 => "The operation completed successfully"@,
        1i32 => "The operation was cancelled"@,
        3i32 => "Client specified an invalid argument"@,
        4i32 => "Deadline expired before operation could complete"@,
        5i32 => "Some requested entity was not found"@,
        6i32 => "Some entity that we attempted to create already exists"@,
        7i32 => "The caller does not have permission to execute the specified operation"@,
        8i32 => "Some resource has been exhausted"@,
        9i32 => "The system is not in a state required for the operation's execution"@,
        10i32 => "The operation was aborted"@,
        11i32 => "Operation was attempted past the valid range"@,
        12i32 => "Operation is not implemented or not supported"@,
        13i32 => "Internal error"@,
        14i32 => "The service is currently unavailable"@,
        15i32 => "Unrecoverable data loss or corruption"@,
        16i32 => "The request does not have valid authentication credentials"@,
        _ => "Unknown error"@,
    }
}

/// The name `tonic::Code` has in debug output for a status code.
pub open spec fn rpc_code_name(code: i32) -> Seq<char> {
    match code {
        0i32 => "Ok"@,
        1i32 => "Cancelled"@,
        3i32 => "InvalidArgument"@,
        4i32 => "DeadlineExceeded"@,
        5i32 => "NotFound"@,
        6i32 => "AlreadyExists"@,
        7i32 => "PermissionDenied"@,
        8i32 => "ResourceExhausted"@,
        9i32 => "FailedPrecondition"@,
        10i32 => "Aborted"@,
        11i32 => "OutOfRange"@,
        12i32 => "Unimplemented"@,
        13i32 => "Internal"@,
        14i32 => "Unavailable"@,
        15i32 => "DataLoss"@,
        16i32 => "Unauthenticated"@,
        _ => "Unknown"@,
    }
}

/// `tonic::Code::from_i32` and its `Display`: the description of the status
/// code; a number without a meaning is an unknown error.
#[verifier::external_body]
pub(crate) fn code_words(code: i32) -> (r: String)
    ensures
        r@ == rpc_code_words(code),
{
    tonic::Code::from_i32(code).to_string()
}

/// `tonic::Code::from_i32` and its derived `Debug`: the name of the status
/// code; a number without a meaning is an unknown error.
#[verifier::external_body]
pub(crate) fn code_name(code: i32) -> (r: String)
    ensures
        r@ == rpc_code_name(code),
{
    format!("{:?}", tonic::Code::from_i32(code))
}

/// The status codes have the names and words of gRPC, and a number without a meaning is
/// unknown.
pub proof fn law_status_codes_have_their_names(code: i32)
    ensures
        rpc_code_name(RPC_INVALID_ARGUMENT) == "InvalidArgument"@,
        rpc_code_name(RPC_NOT_FOUND) == "NotFound"@,
        rpc_code_name(RPC_UNAVAILABLE) == "Unavailable"@,
        rpc_code_words(RPC_INVALID_ARGUMENT) == "Client specified an invalid argument"@,
        rpc_code_words(RPC_NOT_FOUND) == "Some requested entity was not found"@,
        rpc_code_words(RPC_UNAVAILABLE) == "The service is currently unavailable"@,
        code < 0 || code > 16 || code == 2 ==> rpc_code_name(code) == "Unknown"@
            && rpc_code_words(code) == "Unknown error"@,
{
}

} // verus!
