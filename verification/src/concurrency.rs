//! The error vocabulary of the concurrency runtime. The thread, lock,
//! channel and scheduler front-ends themselves live with the host driver —
//! they own OS threads and blocking calls — and report through these types.

use vstd::prelude::*;

use crate::strutil::str_copy;

verus! {

/// A failure while joining or managing a thread.
#[derive(Clone, Copy, Debug, PartialEq, Eq, Structural)]
pub enum ThreadError {
    JoinError,
    AlreadyJoined,
}

/// The rendered message of a thread failure.
pub open spec fn spec_thread_error_message(e: ThreadError) -> Seq<char> {
    match e {
        ThreadError::JoinError => "Failed to join thread"@,
        ThreadError::AlreadyJoined => "Thread already joined"@,
    }
}

impl ThreadError {
    /// Renders the failure as its user-facing message.
    pub fn message(&self) -> (r: String)
        ensures
            r@ == spec_thread_error_message(*self),
    {
        match self {
            ThreadError::JoinError => str_copy("Failed to join thread"),
            ThreadError::AlreadyJoined => str_copy("Thread already joined"),
        }
    }
}

/// A failure while handing work to the thread pool.
#[derive(Clone, Copy, Debug, PartialEq, Eq, Structural)]
pub enum ThreadPoolError {
    SendError,
    Shutdown,
}

/// The rendered message of a thread-pool failure.
pub open spec fn spec_thread_pool_error_message(e: ThreadPoolError) -> Seq<char> {
    match e {
        ThreadPoolError::SendError => "Failed to send job to thread pool"@,
        ThreadPoolError::Shutdown => "Thread pool is shut down"@,
    }
}

impl ThreadPoolError {
    /// Renders the failure as its user-facing message.
    pub fn message(&self) -> (r: String)
        ensures
            r@ == spec_thread_pool_error_message(*self),
    {
        match self {
            ThreadPoolError::SendError => str_copy("Failed to send job to thread pool"),
            ThreadPoolError::Shutdown => str_copy("Thread pool is shut down"),
        }
    }
}

/// A failure while locking a mutex.
#[derive(Clone, Copy, Debug, PartialEq, Eq, Structural)]
pub enum MutexError {
    PoisonError,
}

/// The rendered message of a mutex failure.
pub open spec fn spec_mutex_error_message(e: MutexError) -> Seq<char> {
    match e {
        MutexError::PoisonError => "Mutex poisoned"@,
    }
}

impl MutexError {
    /// Renders the failure as its user-facing message.
    pub fn message(&self) -> (r: String)
        ensures
            r@ == spec_mutex_error_message(*self),
    {
        match self {
            MutexError::PoisonError => str_copy("Mutex poisoned"),
        }
    }
}

/// A failure while locking a reader-writer lock.
#[derive(Clone, Copy, Debug, PartialEq, Eq, Structural)]
pub enum RwLockError {
    PoisonError,
}

/// The rendered message of a reader-writer lock failure.
pub open spec fn spec_rw_lock_error_message(e: RwLockError) -> Seq<char> {
    match e {
        RwLockError::PoisonError => "RwLock poisoned"@,
    }
}

impl RwLockError {
    /// Renders the failure as its user-facing message.
    pub fn message(&self) -> (r: String)
        ensures
            r@ == spec_rw_lock_error_message(*self),
    {
        match self {
            RwLockError::PoisonError => str_copy("RwLock poisoned"),
        }
    }
}

/// A failure on a message channel.
#[derive(Clone, Copy, Debug, PartialEq, Eq, Structural)]
pub enum ChannelError {
    SendError,
    RecvError,
    TryRecvError,
}

/// The rendered message of a channel failure.
pub open spec fn spec_channel_error_message(e: ChannelError) -> Seq<char> {
    match e {
        ChannelError::SendError => "Failed to send message"@,
        ChannelError::RecvError => "Failed to receive message"@,
        ChannelError::TryRecvError => "No message available"@,
    }
}

impl ChannelError {
    /// Renders the failure as its user-facing message.
    pub fn message(&self) -> (r: String)
        ensures
            r@ == spec_channel_error_message(*self),
    {
        match self {
            ChannelError::SendError => str_copy("Failed to send message"),
            ChannelError::RecvError => str_copy("Failed to receive message"),
            ChannelError::TryRecvError => str_copy("No message available"),
        }
    }
}

} // verus!
