//! What a compile operation answers: the response and the error.

use crate::bytecode::{bytecode_text, hex_bytes, hex_text, lemma_hex_round_trip};
use crate::cleanup::{clean_error_content, clean_text, lemma_clean_keeps_visible};
use crate::diagnostics::{
    error_message, error_text, lemma_message_is_not_empty, MAIN_FILE_MARKER,
};
use crate::text::{first_occurrence, has_visible};
use vstd::prelude::*;
use vstd::string::StringExecFns;

verus! {

/// The name of the source file that holds the submitted contract.
pub const FILE_NAME: &'static str = "main.sw";

/// The answer to one compile request. Either the three artifacts are there
/// and `error` is `None`, or the artifacts are empty and `error` says why.
#[derive(Debug, Clone, PartialEq, Eq)]
pub struct CompileResponse {
    /// The ABI of the contract, as JSON text.
    pub abi: String,
    /// The bytecode of the contract, in lowercase hexadecimal.
    pub bytecode: String,
    /// The storage slots of the contract, as JSON text.
    pub storage_slots: String,
    /// The version that the compiler reported.
    pub forc_version: String,
    /// Why there are no artifacts, if there are none.
    pub error: Option<String>,
}

/// A `CompileResponse` as mathematical text.
pub ghost struct ResponseView {
    pub abi: Seq<char>,
    pub bytecode: Seq<char>,
    pub storage_slots: Seq<char>,
    pub forc_version: Seq<char>,
    pub error: Option<Seq<char>>,
}

impl ResponseView {
    /// Whether the response is either artifacts or an error: whether, with an
    /// error, there are no artifacts.
    pub open spec fn consistent(self) -> bool {
        self.error is Some ==> self.abi.len() == 0 && self.bytecode.len() == 0
            && self.storage_slots.len() == 0
    }
}

impl View for CompileResponse {
    type V = ResponseView;

    open spec fn view(&self) -> ResponseView {
        ResponseView {
            abi: self.abi@,
            bytecode: self.bytecode@,
            storage_slots: self.storage_slots@,
            forc_version: self.forc_version@,
            error: match self.error {
                Some(e) => Some(e@),
                None => None,
            },
        }
    }
}

/// Why a compile operation could not be carried out.
#[derive(Debug, Clone, PartialEq, Eq)]
pub enum ApiError {
    /// A step on the file system failed; the text names the step.
    Filesystem(String),
}

/// An `ApiError` as mathematical text.
pub ghost enum ApiErrorView {
    Filesystem(Seq<char>),
}

impl View for ApiError {
    type V = ApiErrorView;

    open spec fn view(&self) -> ApiErrorView {
        match self {
            ApiError::Filesystem(step) => ApiErrorView::Filesystem(step@),
        }
    }
}

impl ApiError {
    /// The step that failed.
    pub fn step(&self) -> (step: &str)
        ensures
            self@ == ApiErrorView::Filesystem(step@),
    {
        match self {
            ApiError::Filesystem(step) => step.as_str(),
        }
    }
}

/// The response to a request without a contract.
pub open spec fn no_contract_response() -> ResponseView {
    ResponseView {
        abi: Seq::empty(),
        bytecode: Seq::empty(),
        storage_slots: Seq::empty(),
        forc_version: Seq::empty(),
        error: Some("No contract."@),
    }
}

/// The response to a contract that compiled: the ABI and the storage slots
/// cleaned, the bytecode in hexadecimal, no error.
pub open spec fn success_response(
    abi: Seq<char>,
    bytecode: Seq<u8>,
    storage_slots: Seq<char>,
    forc_version: Seq<char>,
) -> ResponseView {
    ResponseView {
        abi: clean_text(abi, FILE_NAME@),
        bytecode: hex_text(bytecode),
        storage_slots: clean_text(storage_slots, FILE_NAME@),
        forc_version,
        error: None,
    }
}

/// The response to a contract that did not compile: no artifacts, and as
/// error the relevant part of what the compiler wrote, cleaned.
pub open spec fn failure_response(stderr: Seq<char>, forc_version: Seq<char>) -> ResponseView {
    ResponseView {
        abi: Seq::empty(),
        bytecode: Seq::empty(),
        storage_slots: Seq::empty(),
        forc_version,
        error: Some(error_message(stderr)),
    }
}

/// A response to a contract that compiled carries no error, and its bytecode
/// reads back as the bytes that the compiler left. It carries an ABI where
/// the compiler left one that is more than whitespace, bytecode where the
/// compiler left any, and a version where the compiler reported one.
pub proof fn lemma_compiled_response_is_populated(
    abi: Seq<char>,
    bytecode: Seq<u8>,
    storage_slots: Seq<char>,
    forc_version: Seq<char>,
)
    ensures
        ({
            let response = success_response(abi, bytecode, storage_slots, forc_version);
            &&& response.error is None
            &&& hex_bytes(response.bytecode) == Some(bytecode)
            &&& response.bytecode.len() == 2 * bytecode.len()
            &&& response.forc_version == forc_version
            &&& has_visible(abi) ==> response.abi.len() > 0
            &&& has_visible(storage_slots) ==> response.storage_slots.len() > 0
        }),
{
    reveal_strlit("main.sw");
    lemma_hex_round_trip(bytecode);
    if has_visible(abi) {
        lemma_clean_keeps_visible(abi, FILE_NAME@);
    }
    if has_visible(storage_slots) {
        lemma_clean_keeps_visible(storage_slots, FILE_NAME@);
    }
}

/// A response to a contract that did not compile carries no artifact, the
/// version that the compiler reported, and an error. The error is not empty
/// where the compiler spoke of the main source file or wrote anything but
/// whitespace.
pub proof fn lemma_failed_response_carries_error(stderr: Seq<char>, forc_version: Seq<char>)
    ensures
        ({
            let response = failure_response(stderr, forc_version);
            &&& response.abi.len() == 0
            &&& response.bytecode.len() == 0
            &&& response.storage_slots.len() == 0
            &&& response.forc_version == forc_version
            &&& response.error == Some(error_message(stderr))
            &&& (first_occurrence(stderr, MAIN_FILE_MARKER@) is Some || has_visible(stderr))
                ==> response.error->0.len() > 0
        }),
{
    if first_occurrence(stderr, MAIN_FILE_MARKER@) is Some || has_visible(stderr) {
        lemma_message_is_not_empty(stderr);
    }
}

impl CompileResponse {
    /// The response to a request without a contract.
    pub fn no_contract() -> (response: CompileResponse)
        ensures
            response@ == no_contract_response(),
            response@.consistent(),
    {
        CompileResponse {
            abi: String::new(),
            bytecode: String::new(),
            storage_slots: String::new(),
            forc_version: String::new(),
            error: Some(String::from_str("No contract.")),
        }
    }

    /// The response to a contract that compiled, from the artifacts that the
    /// compiler left and the version it reported.
    pub fn compiled(
        abi: String,
        bytecode: &Vec<u8>,
        storage_slots: String,
        forc_version: String,
    ) -> (response: CompileResponse)
        ensures
            response@ == success_response(abi@, bytecode@, storage_slots@, forc_version@),
            response@.consistent(),
    {
        CompileResponse {
            abi: clean_error_content(abi, FILE_NAME),
            bytecode: bytecode_text(bytecode, FILE_NAME),
            storage_slots: clean_error_content(storage_slots, FILE_NAME),
            forc_version,
            error: None,
        }
    }

    /// The response to a contract that did not compile, from what the compiler
    /// wrote to its error stream and the version it reported.
    pub fn failed(stderr: &str, forc_version: String) -> (response: CompileResponse)
        ensures
            response@ == failure_response(stderr@, forc_version@),
            response@.consistent(),
    {
        CompileResponse {
            abi: String::new(),
            bytecode: String::new(),
            storage_slots: String::new(),
            forc_version,
            error: Some(error_text(stderr)),
        }
    }
}

} // verus!
