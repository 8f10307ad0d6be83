//! The course of one compile operation, as a machine that is told what
//! happened outside and answers what to do next.
//!
//! The machine touches neither the file system nor a process. Its driver
//! performs each `Action` and reports the outcome as the `Event` that the
//! action calls for, until the action is `Action::Finish`.

use crate::project::{
    artifact, artifact_path, ABI_FILE, BYTECODE_FILE, STORAGE_SLOTS_FILE,
};
use crate::response::{
    failure_response, no_contract_response, success_response, ApiError, ApiErrorView,
    CompileResponse, ResponseView,
};
use crate::text::{trim, trim_text};
use vstd::prelude::*;
use vstd::string::{StrSliceExecFns, StringExecFns};
use vstd::utf8::{
    decode_utf8, encode_utf8, encode_utf8_decode_utf8, encode_utf8_valid_utf8, valid_utf8,
};

verus! {

/// What the machine waits for.
#[derive(Debug, PartialEq, Eq)]
pub enum State {
    /// The toolchain is being switched.
    SwitchingToolchain { contract: String },
    /// The compiler is being asked for its version.
    QueryingVersion { contract: String },
    /// A project is being created.
    CreatingProject { contract: String, forc_version: String },
    /// The contract is being written into the project.
    WritingSource { project: String, forc_version: String },
    /// The project is being built.
    Building { project: String, forc_version: String },
    /// The artifacts of the build are being read.
    ReadingArtifacts { project: String, forc_version: String },
    /// The project is being removed after a build that succeeded.
    RemovingBuilt { response: CompileResponse },
    /// The project is being removed after a build that failed.
    RemovingFailed { response: CompileResponse },
    /// The project is being removed because the contract could not be
    /// written into it.
    RemovingUnwritten,
    /// The operation is over.
    Finished,
}

/// What the driver is to do next.
#[derive(Debug, PartialEq, Eq)]
pub enum Action {
    /// Make `toolchain` the active toolchain; report `Event::ToolchainSwitched`.
    SwitchToolchain { toolchain: String },
    /// Ask the compiler for its version; report `Event::ForcVersion`.
    QueryVersion,
    /// Create a project under a fresh name; report `Event::ProjectCreated`.
    CreateProject,
    /// Write `contents` to the main source file of `project`; report
    /// `Event::MainFileWritten`.
    WriteMainFile { project: String, contents: Vec<u8> },
    /// Build `project`; report `Event::Built`.
    BuildProject { project: String },
    /// Read the three artifacts; report `Event::Artifacts`.
    ReadArtifacts { abi: String, bytecode: String, storage_slots: String },
    /// Remove `project` with all it holds; report `Event::ProjectRemoved`.
    RemoveProject { project: String },
    /// Hand the result to the caller; there is nothing to report.
    Finish(Result<CompileResponse, ApiError>),
}

/// What happened outside.
#[derive(Debug, PartialEq, Eq)]
pub enum Event {
    /// The toolchain manager was run.
    ToolchainSwitched,
    /// The compiler was asked for its version and printed this.
    ForcVersion(String),
    /// A project was created under this name, or could not be created.
    ProjectCreated(Option<String>),
    /// The main source file was written, or could not be written.
    MainFileWritten(bool),
    /// The compiler ran; `stderr` is what it wrote to its error stream.
    Built { success: bool, stderr: String },
    /// The artifacts as they were read: the ABI as text, the other two as
    /// bytes, empty where the file is missing.
    Artifacts { abi: String, bytecode: Vec<u8>, storage_slots: Vec<u8> },
    /// The project was removed, or could not be removed.
    ProjectRemoved(bool),
}

/// A `State` as mathematical text.
pub ghost enum StateView {
    SwitchingToolchain { contract: Seq<char> },
    QueryingVersion { contract: Seq<char> },
    CreatingProject { contract: Seq<char>, forc_version: Seq<char> },
    WritingSource { project: Seq<char>, forc_version: Seq<char> },
    Building { project: Seq<char>, forc_version: Seq<char> },
    ReadingArtifacts { project: Seq<char>, forc_version: Seq<char> },
    RemovingBuilt { response: ResponseView },
    RemovingFailed { response: ResponseView },
    RemovingUnwritten,
    Finished,
}

/// An `Action` as mathematical text.
pub ghost enum ActionView {
    SwitchToolchain { toolchain: Seq<char> },
    QueryVersion,
    CreateProject,
    WriteMainFile { project: Seq<char>, contents: Seq<u8> },
    BuildProject { project: Seq<char> },
    ReadArtifacts { abi: Seq<char>, bytecode: Seq<char>, storage_slots: Seq<char> },
    RemoveProject { project: Seq<char> },
    Finish(Result<ResponseView, ApiErrorView>),
}

/// An `Event` as mathematical text.
pub ghost enum EventView {
    ToolchainSwitched,
    ForcVersion(Seq<char>),
    ProjectCreated(Option<Seq<char>>),
    MainFileWritten(bool),
    Built { success: bool, stderr: Seq<char> },
    Artifacts { abi: Seq<char>, bytecode: Seq<u8>, storage_slots: Seq<u8> },
    ProjectRemoved(bool),
}

impl View for State {
    type V = StateView;

    open spec fn view(&self) -> StateView {
        match self {
            State::SwitchingToolchain { contract } => StateView::SwitchingToolchain {
                contract: contract@,
            },
            State::QueryingVersion { contract } => StateView::QueryingVersion {
                contract: contract@,
            },
            State::CreatingProject { contract, forc_version } => StateView::CreatingProject {
                contract: contract@,
                forc_version: forc_version@,
            },
            State::WritingSource { project, forc_version } => StateView::WritingSource {
                project: project@,
                forc_version: forc_version@,
            },
            State::Building { project, forc_version } => StateView::Building {
                project: project@,
                forc_version: forc_version@,
            },
            State::ReadingArtifacts { project, forc_version } => StateView::ReadingArtifacts {
                project: project@,
                forc_version: forc_version@,
            },
            State::RemovingBuilt { response } => StateView::RemovingBuilt { response: response@ },
            State::RemovingFailed { response } => StateView::RemovingFailed {
                response: response@,
            },
            State::RemovingUnwritten => StateView::RemovingUnwritten,
            State::Finished => StateView::Finished,
        }
    }
}

impl View for Action {
    type V = ActionView;

    open spec fn view(&self) -> ActionView {
        match self {
            Action::SwitchToolchain { toolchain } => ActionView::SwitchToolchain {
                toolchain: toolchain@,
            },
            Action::QueryVersion => ActionView::QueryVersion,
            Action::CreateProject => ActionView::CreateProject,
            Action::WriteMainFile { project, contents } => ActionView::WriteMainFile {
                project: project@,
                contents: contents@,
            },
            Action::BuildProject { project } => ActionView::BuildProject { project: project@ },
            Action::ReadArtifacts { abi, bytecode, storage_slots } => ActionView::ReadArtifacts {
                abi: abi@,
                bytecode: bytecode@,
                storage_slots: storage_slots@,
            },
            Action::RemoveProject { project } => ActionView::RemoveProject { project: project@ },
            Action::Finish(result) => ActionView::Finish(
                match result {
                    Ok(response) => Ok(response@),
                    Err(error) => Err(error@),
                },
            ),
        }
    }
}

impl View for Event {
    type V = EventView;

    open spec fn view(&self) -> EventView {
        match self {
            Event::ToolchainSwitched => EventView::ToolchainSwitched,
            Event::ForcVersion(version) => EventView::ForcVersion(version@),
            Event::ProjectCreated(name) => EventView::ProjectCreated(
                match name {
                    Some(name) => Some(name@),
                    None => None,
                },
            ),
            Event::MainFileWritten(done) => EventView::MainFileWritten(*done),
            Event::Built { success, stderr } => EventView::Built {
                success: *success,
                stderr: stderr@,
            },
            Event::Artifacts { abi, bytecode, storage_slots } => EventView::Artifacts {
                abi: abi@,
                bytecode: bytecode@,
                storage_slots: storage_slots@,
            },
            Event::ProjectRemoved(done) => EventView::ProjectRemoved(*done),
        }
    }
}

/// The text that `String::from_utf8_lossy` makes of `bytes`.
pub uninterp spec fn lossy_text(bytes: Seq<u8>) -> Seq<char>;

/// `String::from_utf8_lossy`, made an owned string: the text that `bytes`
/// hold, with a replacement character for each part that is no UTF-8. Bytes
/// that are UTF-8 throughout are decoded as they stand.
#[verifier::external_body]
fn decode_lossy(bytes: &Vec<u8>) -> (text: String)
    ensures
        text@ == lossy_text(bytes@),
        valid_utf8(bytes@) ==> text@ == decode_utf8(bytes@),
{
    String::from_utf8_lossy(bytes).into_owned()
}

/// The text of an artifact that was read as bytes: the text that the bytes
/// encode where they are UTF-8, and else what a lossy reading makes of them.
pub open spec fn artifact_text(bytes: Seq<u8>) -> Seq<char> {
    if valid_utf8(bytes) {
        decode_utf8(bytes)
    } else {
        lossy_text(bytes)
    }
}

/// An artifact that was written as text is read as that text.
pub proof fn lemma_artifact_text_of_text(text: Seq<char>)
    ensures
        artifact_text(encode_utf8(text)) == text,
{
    encode_utf8_valid_utf8(text);
    encode_utf8_decode_utf8(text);
}

/// The text of an artifact that was read as bytes.
pub fn read_as_text(bytes: &Vec<u8>) -> (text: String)
    ensures
        text@ == artifact_text(bytes@),
{
    decode_lossy(bytes)
}

/// The failure of the step named `step`.
pub open spec fn filesystem_failure(step: Seq<char>) -> ActionView {
    ActionView::Finish(Err(ApiErrorView::Filesystem(step)))
}

/// What the machine does at its start: without a contract it finishes at
/// once; with one it has the toolchain switched.
pub open spec fn initial(contract: Seq<char>, toolchain: Seq<char>) -> (StateView, ActionView) {
    if contract.len() == 0 {
        (StateView::Finished, ActionView::Finish(Ok(no_contract_response())))
    } else {
        (StateView::SwitchingToolchain { contract }, ActionView::SwitchToolchain { toolchain })
    }
}

/// What the machine does in `state` when told of `event`: the state it goes
/// to and the action it asks for, or `None` where `state` does not wait for
/// such an event.
pub open spec fn transition(state: StateView, event: EventView) -> Option<(StateView, ActionView)> {
    match (state, event) {
        (StateView::SwitchingToolchain { contract }, EventView::ToolchainSwitched) => Some(
            (StateView::QueryingVersion { contract }, ActionView::QueryVersion),
        ),
        (StateView::QueryingVersion { contract }, EventView::ForcVersion(printed)) => Some(
            (
                StateView::CreatingProject { contract, forc_version: trim(printed) },
                ActionView::CreateProject,
            ),
        ),
        (
            StateView::CreatingProject { contract, forc_version },
            EventView::ProjectCreated(Some(project)),
        ) => Some(
            (
                StateView::WritingSource { project, forc_version },
                ActionView::WriteMainFile { project, contents: encode_utf8(contract) },
            ),
        ),
        (StateView::CreatingProject { .. }, EventView::ProjectCreated(None)) => Some(
            (StateView::Finished, filesystem_failure("create project"@)),
        ),
        (StateView::WritingSource { project, forc_version }, EventView::MainFileWritten(true)) => Some(
            (StateView::Building { project, forc_version }, ActionView::BuildProject { project }),
        ),
        (StateView::WritingSource { project, .. }, EventView::MainFileWritten(false)) => Some(
            (StateView::RemovingUnwritten, ActionView::RemoveProject { project }),
        ),
        (
            StateView::Building { project, forc_version },
            EventView::Built { success: true, stderr },
        ) => Some(
            (
                StateView::ReadingArtifacts { project, forc_version },
                ActionView::ReadArtifacts {
                    abi: artifact_path(project, ABI_FILE@),
                    bytecode: artifact_path(project, BYTECODE_FILE@),
                    storage_slots: artifact_path(project, STORAGE_SLOTS_FILE@),
                },
            ),
        ),
        (
            StateView::Building { project, forc_version },
            EventView::Built { success: false, stderr },
        ) => Some(
            (
                StateView::RemovingFailed { response: failure_response(stderr, forc_version) },
                ActionView::RemoveProject { project },
            ),
        ),
        (
            StateView::ReadingArtifacts { project, forc_version },
            EventView::Artifacts { abi, bytecode, storage_slots },
        ) => Some(
            (
                StateView::RemovingBuilt {
                    response: success_response(
                        abi,
                        bytecode,
                        artifact_text(storage_slots),
                        forc_version,
                    ),
                },
                ActionView::RemoveProject { project },
            ),
        ),
        (StateView::RemovingBuilt { response }, EventView::ProjectRemoved(true)) => Some(
            (StateView::Finished, ActionView::Finish(Ok(response))),
        ),
        (StateView::RemovingBuilt { .. }, EventView::ProjectRemoved(false)) => Some(
            (StateView::Finished, filesystem_failure("remove project"@)),
        ),
        (StateView::RemovingFailed { response }, EventView::ProjectRemoved(_)) => Some(
            (StateView::Finished, ActionView::Finish(Ok(response))),
        ),
        (StateView::RemovingUnwritten, EventView::ProjectRemoved(_)) => Some(
            (StateView::Finished, filesystem_failure("write main file"@)),
        ),
        _ => None,
    }
}

/// A project that cannot be removed fails the operation where the build had
/// succeeded. Where the build had failed, or the contract could not be
/// written, it is passed over: the operation ends as if it had been removed.
pub proof fn lemma_removal_that_fails(response: ResponseView, removed: bool)
    ensures
        transition(StateView::RemovingBuilt { response }, EventView::ProjectRemoved(true)) == Some(
            (StateView::Finished, ActionView::Finish(Ok(response))),
        ),
        transition(StateView::RemovingBuilt { response }, EventView::ProjectRemoved(false))
            == Some((StateView::Finished, filesystem_failure("remove project"@))),
        transition(StateView::RemovingFailed { response }, EventView::ProjectRemoved(removed))
            == Some((StateView::Finished, ActionView::Finish(Ok(response)))),
        transition(StateView::RemovingUnwritten, EventView::ProjectRemoved(removed)) == Some(
            (StateView::Finished, filesystem_failure("write main file"@)),
        ),
{
}

/// Begins a compile operation on `contract` with the toolchain `toolchain`.
pub fn start(contract: String, toolchain: String) -> (next: (State, Action))
    ensures
        (next.0@, next.1@) == initial(contract@, toolchain@),
        contract@.len() == 0 ==> next.0@ == StateView::Finished && next.1@ == ActionView::Finish(
            Ok(no_contract_response()),
        ),
{
    if contract.as_str().is_empty() {
        (State::Finished, Action::Finish(Ok(CompileResponse::no_contract())))
    } else {
        (State::SwitchingToolchain { contract }, Action::SwitchToolchain { toolchain })
    }
}

/// The failure of the step named `step`.
fn fail(step: &str) -> (next: (State, Action))
    ensures
        next.0@ == StateView::Finished,
        next.1@ == filesystem_failure(step@),
{
    (State::Finished, Action::Finish(Err(ApiError::Filesystem(String::from_str(step)))))
}

/// Continues a compile operation: in `state`, told of `event`, the state to
/// go to and the action to perform; `None` where `state` does not wait for
/// such an event.
pub fn step(state: State, event: Event) -> (next: Option<(State, Action)>)
    ensures
        match next {
            Some((state2, action)) => transition(state@, event@) == Some((state2@, action@)),
            None => transition(state@, event@) is None,
        },
{
    match (state, event) {
        (State::SwitchingToolchain { contract }, Event::ToolchainSwitched) => Some(
            (State::QueryingVersion { contract }, Action::QueryVersion),
        ),
        (State::QueryingVersion { contract }, Event::ForcVersion(printed)) => {
            let forc_version = trim_text(printed.as_str());
            Some((State::CreatingProject { contract, forc_version }, Action::CreateProject))
        },
        (State::CreatingProject { contract, forc_version }, Event::ProjectCreated(Some(project))) => {
            let contents = contract.as_str().as_bytes_vec();
            let name = project.clone();
            Some(
                (
                    State::WritingSource { project, forc_version },
                    Action::WriteMainFile { project: name, contents },
                ),
            )
        },
        (State::CreatingProject { .. }, Event::ProjectCreated(None)) => Some(
            fail("create project"),
        ),
        (State::WritingSource { project, forc_version }, Event::MainFileWritten(true)) => {
            let name = project.clone();
            Some((State::Building { project, forc_version }, Action::BuildProject { project: name }))
        },
        (State::WritingSource { project, .. }, Event::MainFileWritten(false)) => Some(
            (State::RemovingUnwritten, Action::RemoveProject { project }),
        ),
        (State::Building { project, forc_version }, Event::Built { success: true, .. }) => {
            let abi = artifact(project.as_str(), ABI_FILE);
            let bytecode = artifact(project.as_str(), BYTECODE_FILE);
            let storage_slots = artifact(project.as_str(), STORAGE_SLOTS_FILE);
            Some(
                (
                    State::ReadingArtifacts { project, forc_version },
                    Action::ReadArtifacts { abi, bytecode, storage_slots },
                ),
            )
        },
        (State::Building { project, forc_version }, Event::Built { success: false, stderr }) => {
            let response = CompileResponse::failed(stderr.as_str(), forc_version);
            Some((State::RemovingFailed { response }, Action::RemoveProject { project }))
        },
        (
            State::ReadingArtifacts { project, forc_version },
            Event::Artifacts { abi, bytecode, storage_slots },
        ) => {
            let slots = read_as_text(&storage_slots);
            let response = CompileResponse::compiled(abi, &bytecode, slots, forc_version);
            Some((State::RemovingBuilt { response }, Action::RemoveProject { project }))
        },
        (State::RemovingBuilt { response }, Event::ProjectRemoved(true)) => Some(
            (State::Finished, Action::Finish(Ok(response))),
        ),
        (State::RemovingBuilt { .. }, Event::ProjectRemoved(false)) => Some(
            fail("remove project"),
        ),
        (State::RemovingFailed { response }, Event::ProjectRemoved(_)) => Some(
            (State::Finished, Action::Finish(Ok(response))),
        ),
        (State::RemovingUnwritten, Event::ProjectRemoved(_)) => Some(fail("write main file")),
        _ => None,
    }
}

} // verus!
