//! What can go wrong while a workflow runs.

use vstd::prelude::*;
use crate::pregel::message::Source;
use crate::pregel::vertex::VertexId;

verus! {

/// The failures of the runtime.
#[derive(Debug, PartialEq)]
pub enum PregelError {
    /// A vertex failed during compute. Transient failures (I/O, timeouts) are
    /// `retryable`; the others are fatal at once.
    VertexError { vertex_id: VertexId, message: String, retryable: bool },
    /// A message was sent under a label that no edge carries from its
    /// sender.
    RoutingError { source: Source, label: String },
    /// An update does not fit the state it is merged into.
    StateMergeError { message: String },
    /// The cap on supersteps was reached with vertices still active.
    ConvergenceError { supersteps: u64 },
    /// A checkpoint could not be written or read.
    CheckpointError { message: String },
    /// A stored checkpoint was written by another version or for another
    /// schema.
    CheckpointIncompatible { found_version: u32 },
}

impl PregelError {
    /// A fatal vertex failure.
    pub fn vertex_error(vertex_id: VertexId, message: &str) -> (error: Self)
        ensures
            error matches PregelError::VertexError { vertex_id: v, message: m, retryable }
                && v == vertex_id && m@ == message@ && !retryable,
    {
        PregelError::VertexError { vertex_id, message: message.to_owned(), retryable: false }
    }

    /// A transient vertex failure, which the retry policy may retry.
    pub fn transient(vertex_id: VertexId, message: &str) -> (error: Self)
        ensures
            error matches PregelError::VertexError { vertex_id: v, message: m, retryable }
                && v == vertex_id && m@ == message@ && retryable,
    {
        PregelError::VertexError { vertex_id, message: message.to_owned(), retryable: true }
    }

    /// A vertex overran its compute timeout: a transient failure.
    pub fn timeout(vertex_id: VertexId) -> (error: Self)
        ensures
            error matches PregelError::VertexError { vertex_id: v, message: m, retryable }
                && v == vertex_id && m@ == "compute timed out"@ && retryable,
    {
        PregelError::VertexError {
            vertex_id,
            message: "compute timed out".to_owned(),
            retryable: true,
        }
    }

    /// Whether the error was raised by a vertex.
    pub open spec fn from_vertex(&self) -> bool {
        self is VertexError
    }

    /// Whether the error is a transient vertex failure.
    pub open spec fn retryable(&self) -> bool {
        self matches PregelError::VertexError { retryable, .. } && *retryable
    }

    pub fn is_vertex_error(&self) -> (answer: bool)
        ensures
            answer == self.from_vertex(),
    {
        match self {
            PregelError::VertexError { .. } => true,
            _ => false,
        }
    }

    pub fn is_retryable(&self) -> (answer: bool)
        ensures
            answer == self.retryable(),
    {
        match self {
            PregelError::VertexError { retryable, .. } => *retryable,
            _ => false,
        }
    }
}

impl Clone for PregelError {
    fn clone(&self) -> (copy: Self)
        ensures
            copy == *self,
    {
        match self {
            PregelError::VertexError { vertex_id, message, retryable } => {
                PregelError::VertexError {
                    vertex_id: vertex_id.clone(),
                    message: message.clone(),
                    retryable: *retryable,
                }
            },
            PregelError::RoutingError { source, label } => PregelError::RoutingError {
                source: source.clone(),
                label: label.clone(),
            },
            PregelError::StateMergeError { message } => PregelError::StateMergeError {
                message: message.clone(),
            },
            PregelError::ConvergenceError { supersteps } => PregelError::ConvergenceError {
                supersteps: *supersteps,
            },
            PregelError::CheckpointError { message } => PregelError::CheckpointError {
                message: message.clone(),
            },
            PregelError::CheckpointIncompatible { found_version } => {
                PregelError::CheckpointIncompatible { found_version: *found_version }
            },
        }
    }
}

} // verus!
