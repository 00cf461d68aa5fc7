use vstd::prelude::*;

verus! {

/// The kinds of failure the core reports.
#[derive(Clone, Debug)]
pub enum CoreError {
    /// A plugin could not be loaded: config or artifact missing, component invalid.
    PluginLoad(String),
    /// A plugin trapped or failed, after its one retry.
    PluginCall(String),
    /// The sandbox's CPU deadline tripped.
    DeadlineExceeded,
    /// The plugin's worker went away before it replied.
    Channel,
    /// No reply came within the plugin's call timeout.
    Timeout,
    /// The storage backend failed; its message is kept.
    Storage(String),
    /// The requested entity does not exist.
    NotFound(String),
}

/// How the wait for one plugin reply ended.
#[derive(Debug)]
pub enum ReplyWait<T> {
    /// The worker replied in time, with the plugin's result or its error message.
    Replied(Result<T, String>),
    /// The worker dropped the reply slot without answering.
    Dropped,
    /// The call timeout elapsed first.
    Elapsed,
}

/// The name of an error's kind, as messages to the user show it.
pub open spec fn kind_name_spec(e: CoreError) -> Seq<char> {
    match e {
        CoreError::PluginLoad(_) => "PluginLoadError"@,
        CoreError::PluginCall(_) => "PluginCallError"@,
        CoreError::DeadlineExceeded => "DeadlineExceeded"@,
        CoreError::Channel => "ChannelError"@,
        CoreError::Timeout => "TimeoutError"@,
        CoreError::Storage(_) => "StorageError"@,
        CoreError::NotFound(_) => "NotFound"@,
    }
}

impl CoreError {
    /// The name of the error's kind, for messages to the user.
    pub fn kind_name(&self) -> (r: &'static str)
        ensures
            r@ == kind_name_spec(*self),
    {
        match self {
            CoreError::PluginLoad(_) => "PluginLoadError",
            CoreError::PluginCall(_) => "PluginCallError",
            CoreError::DeadlineExceeded => "DeadlineExceeded",
            CoreError::Channel => "ChannelError",
            CoreError::Timeout => "TimeoutError",
            CoreError::Storage(_) => "StorageError",
            CoreError::NotFound(_) => "NotFound",
        }
    }
}

/// The outcome a caller sees for one plugin call: the plugin's result when it
/// replied in time, `Timeout` when the call timeout elapsed, `Channel` when the
/// worker went away, and `PluginCall` with the plugin's message when it failed.
pub open spec fn settled_spec<T>(wait: ReplyWait<T>) -> Result<T, CoreError> {
    match wait {
        ReplyWait::Replied(Ok(v)) => Ok(v),
        ReplyWait::Replied(Err(m)) => Err(CoreError::PluginCall(m)),
        ReplyWait::Dropped => Err(CoreError::Channel),
        ReplyWait::Elapsed => Err(CoreError::Timeout),
    }
}

/// Turns the end of the wait for a plugin reply into the caller's outcome.
pub fn settle_reply<T>(wait: ReplyWait<T>) -> (r: Result<T, CoreError>)
    ensures
        r == settled_spec(wait),
{
    match wait {
        ReplyWait::Replied(Ok(v)) => Ok(v),
        ReplyWait::Replied(Err(m)) => Err(CoreError::PluginCall(m)),
        ReplyWait::Dropped => Err(CoreError::Channel),
        ReplyWait::Elapsed => Err(CoreError::Timeout),
    }
}

/// Every plugin call ends either with the reply that the plugin sent before
/// the call timeout, or with an error; the caller sees `Timeout` exactly when
/// the timeout elapsed first.
pub proof fn lemma_reply_or_timeout<T>(wait: ReplyWait<T>)
    ensures
        settled_spec(wait) is Ok ==> wait == ReplyWait::Replied(
            Ok::<T, String>(settled_spec(wait)->Ok_0),
        ),
        wait is Elapsed <==> settled_spec(wait) == Err::<T, CoreError>(CoreError::Timeout),
{
}

} // verus!
