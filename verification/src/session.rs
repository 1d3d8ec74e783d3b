//! The session step: the command that opens a session on an instance, and
//! what the end of that command means.

use crate::error::{Error, ErrorView};
use vstd::prelude::*;
use vstd::string::*;

verus! {

/// What a session is opened on: an instance, in a region, under a profile.
#[derive(Debug, Clone, PartialEq, Eq)]
pub struct SessionTarget {
    pub instance_id: String,
    pub region: String,
    pub profile: String,
}

/// The view of `SessionTarget`: its fields as character sequences.
pub struct SessionTargetView {
    pub instance_id: Seq<char>,
    pub region: Seq<char>,
    pub profile: Seq<char>,
}

impl View for SessionTarget {
    type V = SessionTargetView;

    open spec fn view(&self) -> SessionTargetView {
        SessionTargetView {
            instance_id: self.instance_id@,
            region: self.region@,
            profile: self.profile@,
        }
    }
}

impl DeepView for SessionTarget {
    type V = SessionTargetView;

    open spec fn deep_view(&self) -> SessionTargetView {
        self@
    }
}

/// A command for the operating system: the program and its arguments. The
/// one who runs it lets it inherit the standard streams and waits for it.
#[derive(Debug, Clone, PartialEq, Eq)]
pub struct SessionCommand {
    pub program: String,
    pub args: Vec<String>,
}

/// The view of `SessionCommand`: its fields as character sequences.
pub struct SessionCommandView {
    pub program: Seq<char>,
    pub args: Seq<Seq<char>>,
}

impl View for SessionCommand {
    type V = SessionCommandView;

    open spec fn view(&self) -> SessionCommandView {
        SessionCommandView { program: self.program@, args: self.args.deep_view() }
    }
}

impl DeepView for SessionCommand {
    type V = SessionCommandView;

    open spec fn deep_view(&self) -> SessionCommandView {
        self@
    }
}

/// How a command ended, as its runner saw it.
#[derive(Debug, Clone, PartialEq, Eq)]
pub enum ProcessOutcome {
    /// The program could not be started; `reason` is what the operating
    /// system said.
    NotStarted { reason: String },
    /// The program ran and ended; `status` is its exit status as text.
    Ended { success: bool, status: String },
}

/// The view of `ProcessOutcome`: its fields as character sequences.
pub enum ProcessOutcomeView {
    NotStarted { reason: Seq<char> },
    Ended { success: bool, status: Seq<char> },
}

impl View for ProcessOutcome {
    type V = ProcessOutcomeView;

    open spec fn view(&self) -> ProcessOutcomeView {
        match *self {
            ProcessOutcome::NotStarted { reason } => ProcessOutcomeView::NotStarted {
                reason: reason@,
            },
            ProcessOutcome::Ended { success, status } => ProcessOutcomeView::Ended {
                success,
                status: status@,
            },
        }
    }
}

impl DeepView for ProcessOutcome {
    type V = ProcessOutcomeView;

    open spec fn deep_view(&self) -> ProcessOutcomeView {
        self@
    }
}

/// The command of the session-manager client for a target:
/// `aws ssm start-session --target <instance> --profile <profile> --region <region>`.
pub open spec fn session_command(target: SessionTargetView) -> SessionCommandView {
    SessionCommandView {
        program: "aws"@,
        args: seq![
            "ssm"@,
            "start-session"@,
            "--target"@,
            target.instance_id,
            "--profile"@,
            target.profile,
            "--region"@,
            target.region,
        ],
    }
}

/// What the end of the session command means: success where the program
/// ran and ended well, a failure with the runner's detail otherwise.
pub open spec fn session_result(outcome: ProcessOutcomeView) -> Result<(), ErrorView> {
    match outcome {
        ProcessOutcomeView::NotStarted { reason } => Err(ErrorView::SessionSpawn { reason }),
        ProcessOutcomeView::Ended { success, status } => if success {
            Ok(())
        } else {
            Err(ErrorView::SessionExit { status })
        },
    }
}

/// The view of a session's result.
pub open spec fn result_view(result: Result<(), Error>) -> Result<(), ErrorView> {
    match result {
        Ok(()) => Ok(()),
        Err(error) => Err(error@),
    }
}

/// Prepares the session on an instance: gives the command of the
/// session-manager client that opens it.
pub fn start_ssm_session(target_instance_id: String, region: String, profile_name: String) -> (command:
    SessionCommand)
    ensures
        command@ == session_command(
            SessionTargetView {
                instance_id: target_instance_id@,
                region: region@,
                profile: profile_name@,
            },
        ),
{
    let mut args: Vec<String> = Vec::new();
    args.push(String::from_str("ssm"));
    args.push(String::from_str("start-session"));
    args.push(String::from_str("--target"));
    args.push(target_instance_id);
    args.push(String::from_str("--profile"));
    args.push(profile_name);
    args.push(String::from_str("--region"));
    args.push(region);
    let command = SessionCommand { program: String::from_str("aws"), args };
    assert(command@.args =~= session_command(
        SessionTargetView {
            instance_id: target_instance_id@,
            region: region@,
            profile: profile_name@,
        },
    ).args);
    command
}

/// Judges the end of the session command. The session is over, and went
/// well, only where the program ran and ended with success.
pub fn finish_ssm_session(outcome: ProcessOutcome) -> (result: Result<(), Error>)
    ensures
        result_view(result) == session_result(outcome@),
{
    match outcome {
        ProcessOutcome::NotStarted { reason } => Err(Error::SessionSpawn { reason }),
        ProcessOutcome::Ended { success, status } => {
            if success {
                Ok(())
            } else {
                Err(Error::SessionExit { status })
            }
        },
    }
}

} // verus!
