//! How a worker that fails is reported, and what the one who started it learns.

use crate::error::InputError;
use vstd::prelude::*;

verus! {

/// Where the message of a failed worker goes.
#[derive(Debug)]
pub enum Report {
    /// To the one who waits for the listener to register.
    ToStarter(String),
    /// To the one who watches the running listener.
    ToMonitor(String),
}

/// Chooses where to report that a worker failed: as long as it has not
/// registered its keys, somebody waits for it to do so.
pub fn report_failure(started: bool, message: String) -> (report: Report)
    ensures
        report == if started {
            Report::ToMonitor(message)
        } else {
            Report::ToStarter(message)
        },
{
    if started {
        Report::ToMonitor(message)
    } else {
        Report::ToStarter(message)
    }
}

/// Why a listener could not be started.
#[derive(Debug)]
pub enum StartError {
    /// The worker said nothing in time.
    Silent(InputError),
    /// The worker failed with this message.
    Worker(String),
}

/// What the reply of a worker, or its silence, means for the one who started
/// it.
pub fn startup_outcome(reply: Option<Result<(), String>>) -> (outcome: Result<(), StartError>)
    ensures
        outcome == match reply {
            Some(Ok(_)) => Ok::<(), StartError>(()),
            Some(Err(message)) => Err::<(), StartError>(StartError::Worker(message)),
            None => Err::<(), StartError>(StartError::Silent(InputError::RegistrationTimedOut)),
        },
{
    match reply {
        Some(Ok(())) => Ok(()),
        Some(Err(message)) => Err(StartError::Worker(message)),
        None => Err(StartError::Silent(InputError::RegistrationTimedOut)),
    }
}

impl StartError {
    /// The text of the error.
    pub open spec fn text(&self) -> Seq<char> {
        match *self {
            StartError::Silent(error) => error.text(),
            StartError::Worker(message) => message@,
        }
    }

    /// The error as a message for the user.
    pub fn message(&self) -> (message: String)
        ensures
            message@ == self.text(),
    {
        match self {
            StartError::Silent(error) => error.message(),
            StartError::Worker(message) => message.clone(),
        }
    }
}

/// The starter learns of a success exactly where the worker reported one, of a
/// failure in the worker's own words, and of silence as a registration that
/// timed out.
pub proof fn law_the_starter_learns_what_the_worker_said(
    reply: Option<Result<(), String>>,
    outcome: Result<(), StartError>,
)
    requires
        call_ensures(startup_outcome, (reply,), outcome),
    ensures
        outcome is Ok <==> (reply matches Some(said) && said is Ok),
        reply matches Some(Err(message)) ==> outcome == Err::<(), StartError>(
            StartError::Worker(message),
        ),
        outcome matches Err(StartError::Worker(message)) ==> reply == Some(
            Err::<(), String>(message),
        ),
        reply is None <==> outcome == Err::<(), StartError>(
            StartError::Silent(InputError::RegistrationTimedOut),
        ),
{
}

/// A failure goes to the monitor once the worker has started and to the starter
/// before, with its message unchanged.
pub proof fn law_failures_go_to_whoever_waits(started: bool, message: String, report: Report)
    requires
        call_ensures(report_failure, (started, message), report),
    ensures
        match report {
            Report::ToMonitor(told) => started && told == message,
            Report::ToStarter(told) => !started && told == message,
        },
{
}

/// A worker's failure reads as its message, and silence as the error that stands
/// for it.
pub proof fn law_start_errors_read_as_their_cause(
    error: StartError,
    message: String,
    cause: InputError,
    told: String,
)
    requires
        call_ensures(StartError::message, (&error,), message),
        call_ensures(InputError::message, (&cause,), told),
    ensures
        error matches StartError::Worker(said) ==> message@ == said@,
        error == StartError::Silent(cause) ==> message@ == told@,
{
}

} // verus!
