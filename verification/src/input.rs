//! Commands to the input thread, and how the thread answers the outcome of
//! waiting for one.
use vstd::prelude::*;

verus! {

/// A command the main process sends to the input thread.
#[derive(Clone, Copy, Debug, PartialEq, Eq, Structural)]
pub enum InputCommand {
    /// Exit the thread.
    Kill,
}

impl Default for InputCommand {
    fn default() -> (r: Self)
        ensures
            r == InputCommand::Kill,
    {
        InputCommand::Kill
    }
}

/// What came of waiting, for a bounded time, for the command whose wake-up
/// byte the input loop saw on its pipe.
#[derive(Clone, Copy, Debug, PartialEq, Eq, Structural)]
pub enum CommandReceipt {
    /// The command arrived.
    Received(InputCommand),
    /// The wait ran out before the command arrived.
    TimedOut,
    /// The sending side is gone.
    Disconnected,
}

/// Whether the input thread exits on `receipt`: on `Kill`, and on a
/// disconnected channel (the pipe is then at end of file and would wake
/// the loop for ever); only a timeout lets the loop carry on.
pub fn should_exit(receipt: CommandReceipt) -> (r: bool)
    ensures
        r <==> receipt != CommandReceipt::TimedOut,
{
    match receipt {
        CommandReceipt::Received(InputCommand::Kill) => true,
        CommandReceipt::TimedOut => false,
        CommandReceipt::Disconnected => true,
    }
}

} // verus!
