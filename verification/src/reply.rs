//! What comes back from a call, and what it means.

use crate::error::{
    refused_wording, shows_status, wording, ClientError, Document, Failure, Operation,
};
use crate::http::{status_shown, HttpStatus};
use crate::types::{ApiErrorResponse, ApiResponse};
use vstd::prelude::*;

verus! {

/// What came of a call whose answer is read.
#[derive(Debug)]
pub enum Reply<T> {
    /// There was no key to make the call with.
    NoKey(ClientError),
    /// The request did not reach the API.
    Unsent,
    /// The API refused, with or without a reason.
    Refused { status: HttpStatus, detail: Option<ApiErrorResponse> },
    /// The answer was not of the expected form.
    Unreadable,
    /// The API answered.
    Answered(ApiResponse<T>),
}

/// What came of a call whose answer is not read.
#[derive(Debug)]
pub enum Receipt {
    /// There was no key to make the call with.
    NoKey(ClientError),
    /// The request did not reach the API.
    Unsent,
    /// The API refused, with or without a reason.
    Refused { status: HttpStatus, detail: Option<ApiErrorResponse> },
    /// The API accepted the request.
    Accepted,
}

/// What an answer with the given status comes to: a successful one is read as the
/// document that was asked for, any other as a refusal and its reason.
pub open spec fn reply_to<T>(
    status: HttpStatus,
    answer: Option<ApiResponse<T>>,
    detail: Option<ApiErrorResponse>,
) -> Reply<T> {
    if status.succeeds() {
        match answer {
            Some(response) => Reply::Answered(response),
            None => Reply::Unreadable,
        }
    } else {
        Reply::Refused { status, detail }
    }
}

/// What an answer with the given status comes to where it is not read.
pub open spec fn receipt_for(status: HttpStatus, detail: Option<ApiErrorResponse>) -> Receipt {
    if status.succeeds() {
        Receipt::Accepted
    } else {
        Receipt::Refused { status, detail }
    }
}

impl<T> Reply<T> {
    /// What came of a call that was answered with the given status. `answer` and
    /// `detail` are its body read as the document that was asked for and as the
    /// reason of a refusal, as far as it can be read so.
    pub fn from_answer(
        status: HttpStatus,
        answer: Option<ApiResponse<T>>,
        detail: Option<ApiErrorResponse>,
    ) -> (reply: Reply<T>)
        ensures
            reply == reply_to(status, answer, detail),
    {
        if status.is_success() {
            match answer {
                Some(response) => Reply::Answered(response),
                None => Reply::Unreadable,
            }
        } else {
            Reply::Refused { status, detail }
        }
    }
}

impl Receipt {
    /// What came of a call that was answered with the given status. `detail` is its
    /// body read as the reason of a refusal, as far as it can be read so.
    pub fn from_answer(status: HttpStatus, detail: Option<ApiErrorResponse>) -> (receipt: Receipt)
        ensures
            receipt == receipt_for(status, detail),
    {
        if status.is_success() {
            Receipt::Accepted
        } else {
            Receipt::Refused { status, detail }
        }
    }
}

/// The message of a refusal.
pub open spec fn refusal(detail: Option<ApiErrorResponse>) -> Seq<char> {
    match detail {
        Some(detail) => detail.error.message@,
        None => "Unknown error"@,
    }
}

/// What a reply means for the call it belongs to.
pub open spec fn reply_outcome<T>(
    operation: Operation,
    document: Document,
    reply: Reply<T>,
) -> Result<T, Failure> {
    match reply {
        Reply::NoKey(error) => Err(error@),
        Reply::Unsent => Err(Failure::Unsent(operation)),
        Reply::Refused { status, detail } => Err(
            Failure::Refused { operation, status: status.number(), message: refusal(detail) },
        ),
        Reply::Unreadable => Err(Failure::Unreadable(document)),
        Reply::Answered(response) => Ok(response.data),
    }
}

/// What a receipt means for the call it belongs to.
pub open spec fn receipt_outcome(operation: Operation, receipt: Receipt) -> Result<(), Failure> {
    match receipt {
        Receipt::NoKey(error) => Err(error@),
        Receipt::Unsent => Err(Failure::Unsent(operation)),
        Receipt::Refused { status, detail } => Err(
            Failure::Refused { operation, status: status.number(), message: refusal(detail) },
        ),
        Receipt::Accepted => Ok(()),
    }
}

/// A result is as expected: the same value, or an error with the expected contents.
pub open spec fn meets<T>(result: Result<T, ClientError>, expected: Result<T, Failure>) -> bool {
    match (result, expected) {
        (Ok(value), Ok(wanted)) => value == wanted,
        (Err(error), Err(failure)) => error@ == failure,
        _ => false,
    }
}

/// The message of a refusal: what the API says, or `Unknown error` where it gives
/// no readable reason.
pub fn parse_error_response(detail: Option<ApiErrorResponse>) -> (message: String)
    ensures
        message@ == refusal(detail),
{
    match detail {
        Some(detail) => detail.error.message,
        None => "Unknown error".to_owned(),
    }
}

/// Turns a reply into the data it carries or the error it stands for.
pub fn settle<T>(operation: Operation, document: Document, reply: Reply<T>) -> (result: Result<
    T,
    ClientError,
>)
    ensures
        meets(result, reply_outcome(operation, document, reply)),
{
    match reply {
        Reply::NoKey(error) => Err(error),
        Reply::Unsent => Err(ClientError::Unsent(operation)),
        Reply::Refused { status, detail } => Err(
            ClientError::Refused { operation, status, message: parse_error_response(detail) },
        ),
        Reply::Unreadable => Err(ClientError::Unreadable(document)),
        Reply::Answered(response) => Ok(response.data),
    }
}

/// Turns a receipt into success or the error it stands for.
pub fn acknowledge(operation: Operation, receipt: Receipt) -> (result: Result<(), ClientError>)
    ensures
        meets(result, receipt_outcome(operation, receipt)),
{
    match receipt {
        Receipt::NoKey(error) => Err(error),
        Receipt::Unsent => Err(ClientError::Unsent(operation)),
        Receipt::Refused { status, detail } => Err(
            ClientError::Refused { operation, status, message: parse_error_response(detail) },
        ),
        Receipt::Accepted => Ok(()),
    }
}

/// A call succeeds exactly when its answer has a successful status and can be read as
/// the document that was asked for, and then yields the data of that document.
pub proof fn call_succeeds_when_answered<T>(
    operation: Operation,
    document: Document,
    status: HttpStatus,
    answer: Option<ApiResponse<T>>,
    detail: Option<ApiErrorResponse>,
)
    ensures
        ({
            let outcome = reply_outcome(operation, document, reply_to(status, answer, detail));
            &&& outcome is Ok <==> status.succeeds() && answer is Some
            &&& outcome is Ok ==> outcome->Ok_0 == answer->0.data
        }),
{
}

/// A refused call fails in the same way whether its answer would be read or not: with
/// what it was, the status where that is shown, and the reason that the API gave, or
/// `Unknown error` where it gave none that can be read.
pub proof fn refused_call_gives_reason<T>(
    operation: Operation,
    document: Document,
    status: HttpStatus,
    answer: Option<ApiResponse<T>>,
    detail: Option<ApiErrorResponse>,
)
    requires
        !status.succeeds(),
    ensures
        ({
            let read = reply_outcome(operation, document, reply_to(status, answer, detail));
            let unread = receipt_outcome(operation, receipt_for(status, detail));
            let reason = match detail {
                Some(detail) => detail.error.message@,
                None => "Unknown error"@,
            };
            &&& read is Err && unread is Err
            &&& read->Err_0 == unread->Err_0
            &&& wording(read->Err_0) == refused_wording(operation) + (if shows_status(operation) {
                " ("@ + status_shown(status.number()) + "): "@
            } else {
                ": "@
            }) + reason
        }),
{
    let failure = Failure::Refused {
        operation,
        status: status.number(),
        message: refusal(detail),
    };
    if shows_status(operation) {
        assert(wording(failure) =~= refused_wording(operation) + (" ("@ + status_shown(
            status.number(),
        ) + "): "@) + refusal(detail));
    }
}

/// What comes of a call without a successful answer: without a key the failure to get one,
/// and otherwise that the request did not arrive, that the answer cannot be read, or that
/// it was refused, each of that very call.
pub proof fn failed_call_says_why<T>(
    operation: Operation,
    document: Document,
    error: ClientError,
    status: HttpStatus,
    detail: Option<ApiErrorResponse>,
)
    ensures
        reply_outcome(operation, document, Reply::<T>::NoKey(error)) == Err::<T, Failure>(error@),
        reply_outcome(operation, document, Reply::<T>::Unsent) == Err::<T, Failure>(
            Failure::Unsent(operation),
        ),
        reply_outcome(operation, document, Reply::<T>::Unreadable) == Err::<T, Failure>(
            Failure::Unreadable(document),
        ),
        reply_outcome(operation, document, Reply::<T>::Refused { status, detail }) == Err::<
            T,
            Failure,
        >(
            Failure::Refused {
                operation,
                status: status.number(),
                message: match detail {
                    Some(detail) => detail.error.message@,
                    None => "Unknown error"@,
                },
            },
        ),
        receipt_outcome(operation, Receipt::NoKey(error)) == Err::<(), Failure>(error@),
        receipt_outcome(operation, Receipt::Unsent) == Err::<(), Failure>(
            Failure::Unsent(operation),
        ),
        receipt_outcome(operation, Receipt::Accepted) == Ok::<(), Failure>(()),
        receipt_outcome(operation, Receipt::Refused { status, detail }) == Err::<(), Failure>(
            Failure::Refused {
                operation,
                status: status.number(),
                message: match detail {
                    Some(detail) => detail.error.message@,
                    None => "Unknown error"@,
                },
            },
        ),
{
}

/// An answered call hands on what was answered, unchanged.
pub proof fn answered_call_hands_on<T>(
    operation: Operation,
    document: Document,
    response: ApiResponse<T>,
    result: Result<T, ClientError>,
)
    requires
        meets(result, reply_outcome(operation, document, Reply::Answered(response))),
    ensures
        result == Ok::<T, ClientError>(response.data),
{
}

/// A call that fails hands on an error with the contents of the failure.
pub proof fn failed_call_hands_on<T>(
    operation: Operation,
    document: Document,
    reply: Reply<T>,
    result: Result<T, ClientError>,
)
    requires
        meets(result, reply_outcome(operation, document, reply)),
        !(reply is Answered),
    ensures
        result is Err,
        result->Err_0@ == reply_outcome(operation, document, reply)->Err_0,
{
}

/// A successful answer that cannot be read fails as unreadable, whatever reason it could be
/// read as; one that is not read is accepted whatever it holds.
pub proof fn success_is_not_a_refusal<T>(
    operation: Operation,
    document: Document,
    status: HttpStatus,
    detail: Option<ApiErrorResponse>,
)
    requires
        200 <= status.number() <= 299,
    ensures
        reply_outcome(operation, document, reply_to::<T>(status, None, detail)) == Err::<
            T,
            Failure,
        >(Failure::Unreadable(document)),
        receipt_outcome(operation, receipt_for(status, detail)) == Ok::<(), Failure>(()),
{
}

/// Any other answer is a refusal, even one that could be read as the document that was
/// asked for.
pub proof fn other_status_is_a_refusal<T>(
    operation: Operation,
    document: Document,
    status: HttpStatus,
    answer: Option<ApiResponse<T>>,
    detail: Option<ApiErrorResponse>,
)
    requires
        !(200 <= status.number() <= 299),
    ensures
        reply_outcome(operation, document, reply_to(status, answer, detail)) is Err,
        reply_outcome(operation, document, reply_to(status, answer, detail))->Err_0 is Refused,
        receipt_outcome(operation, receipt_for(status, detail)) is Err,
{
}

} // verus!
