//! The service's error vocabulary.

use vstd::prelude::*;

verus! {

/// Every failure the service can report.
#[derive(Debug, PartialEq, Eq)]
pub enum AIServiceError {
    /// The process-wide service handle was used before it was set up.
    ServiceNotInitialized,
    /// The persistence store failed.
    DatabaseError { message: String },
    /// No model with the requested id is stored.
    ModelNotFound,
    /// The target worker is absent or its mailbox is closed.
    ModelUnavailable,
    /// A local model names no known shortcut and no weights repository.
    UnknownModelSource,
    /// Building an inference engine failed.
    BuildFailed { message: String },
    /// No task with the requested id is stored.
    TaskNotFound,
    /// The task is stored but not materialized in its worker.
    TaskNotSpawned,
    /// A task names the sentinel default model, but none is nominated.
    NoDefaultModel,
    /// The remote chat endpoint failed.
    RemoteApiError { message: String },
    /// The remote chat endpoint answered without any choice.
    RemoteNoChoice,
    /// No transcription stream with the requested id is open.
    StreamNotFound,
    /// The transcription stream no longer accepts samples.
    StreamClosed,
    /// A transcription session's worker died before it could be closed.
    SessionCrashed { message: String },
}

impl AIServiceError {
    /// An equal copy.
    pub fn duplicate(&self) -> (r: Self)
        ensures
            r == *self,
    {
        match self {
            AIServiceError::ServiceNotInitialized => AIServiceError::ServiceNotInitialized,
            AIServiceError::DatabaseError { message } => AIServiceError::DatabaseError {
                message: message.clone(),
            },
            AIServiceError::ModelNotFound => AIServiceError::ModelNotFound,
            AIServiceError::ModelUnavailable => AIServiceError::ModelUnavailable,
            AIServiceError::UnknownModelSource => AIServiceError::UnknownModelSource,
            AIServiceError::BuildFailed { message } => AIServiceError::BuildFailed {
                message: message.clone(),
            },
            AIServiceError::TaskNotFound => AIServiceError::TaskNotFound,
            AIServiceError::TaskNotSpawned => AIServiceError::TaskNotSpawned,
            AIServiceError::NoDefaultModel => AIServiceError::NoDefaultModel,
            AIServiceError::RemoteApiError { message } => AIServiceError::RemoteApiError {
                message: message.clone(),
            },
            AIServiceError::RemoteNoChoice => AIServiceError::RemoteNoChoice,
            AIServiceError::StreamNotFound => AIServiceError::StreamNotFound,
            AIServiceError::StreamClosed => AIServiceError::StreamClosed,
            AIServiceError::SessionCrashed { message } => AIServiceError::SessionCrashed {
                message: message.clone(),
            },
        }
    }
}

} // verus!
