//! Starting the helper.
use crate::error::Error;
use crate::procedure::{cleanup, Cleanup, HostAction, HostActionView, HostReply};
use crate::procedure_laws::{law_cleanup_succeeds_for_a_reason, lemma_cleaned_stays, show_cleaned};
use crate::text::same_text;
use vstd::prelude::*;

verus! {

/// What the helper was started for.
#[derive(Debug, Clone, Copy, PartialEq, Eq, Structural)]
pub enum Mode {
    /// To serve requests.
    Serve,
    /// To remove leftover rules.
    Cleanup,
}

/// What the first argument asks for.
pub open spec fn asked_for(argument: Option<Seq<char>>) -> Result<Mode, Error> {
    match argument {
        None => Ok(Mode::Serve),
        Some(text) => if text == "--cleanup"@ {
            Ok(Mode::Cleanup)
        } else {
            Err(Error::Usage)
        },
    }
}

/// Read the first argument.
pub fn mode(argument: Option<&str>) -> (result: Result<Mode, Error>)
    ensures
        result == asked_for(
            match argument {
                Some(text) => Some(text@),
                None => None,
            },
        ),
{
    match argument {
        None => Ok(Mode::Serve),
        Some(text) => if same_text(text, "--cleanup") {
            Ok(Mode::Cleanup)
        } else {
            Err(Error::Usage)
        },
    }
}

/// How far the start has come.
#[derive(Debug)]
pub enum Startup {
    /// Crash leftovers are being removed.
    Clearing { mode: Mode, procedure: Cleanup },
    /// The bus name may be claimed.
    Serving,
    /// There is nothing more to do.
    Finished { result: Result<(), Error> },
}

/// A start that waits for its cleanup, or what follows it.
pub open spec fn clearing(mode: Mode, procedure: Cleanup) -> Startup {
    match procedure {
        Cleanup::Done { result: Err(error) } => Startup::Finished { result: Err(error) },
        Cleanup::Done { result: Ok(()) } => match mode {
            Mode::Serve => Startup::Serving,
            Mode::Cleanup => Startup::Finished { result: Ok(()) },
        },
        _ => Startup::Clearing { mode, procedure },
    }
}

impl Startup {
    /// Start: crash leftovers are removed before anything else.
    pub fn begin(mode: Mode) -> (procedure: Startup)
        ensures
            procedure == (Startup::Clearing { mode, procedure: Cleanup::Listing }),
    {
        Startup::Clearing { mode, procedure: cleanup() }
    }

    /// The work that is waited for.
    pub open spec fn pending(self) -> HostActionView {
        match self {
            Startup::Clearing { procedure, .. } => procedure.pending(),
            _ => HostActionView::Rest,
        }
    }

    /// The start after an answer.
    pub open spec fn after(self, reply: HostReply) -> Startup {
        match self {
            Startup::Clearing { mode, procedure } => clearing(mode, procedure.after(reply)),
            _ => self,
        }
    }

    /// The start after a number of answers.
    pub open spec fn after_all(self, replies: Seq<HostReply>) -> Startup
        decreases replies.len(),
    {
        if replies.len() == 0 {
            self
        } else {
            self.after_all(replies.drop_last()).after(replies.last())
        }
    }

    /// The work that is waited for.
    pub fn action(&self) -> (action: HostAction)
        ensures
            action@ == self.pending(),
    {
        match self {
            Startup::Clearing { procedure, .. } => procedure.action(),
            _ => HostAction::Rest,
        }
    }

    /// Take in an answer.
    pub fn advance(self, reply: HostReply) -> (next: Startup)
        ensures
            next == self.after(reply),
    {
        match self {
            Startup::Clearing { mode, procedure } => match procedure.advance(reply) {
                Cleanup::Done { result: Err(error) } => Startup::Finished { result: Err(error) },
                Cleanup::Done { result: Ok(()) } => match mode {
                    Mode::Serve => Startup::Serving,
                    Mode::Cleanup => Startup::Finished { result: Ok(()) },
                },
                procedure => Startup::Clearing { mode, procedure },
            },
            start => start,
        }
    }
}

/// The bus name is claimed only once crash leftovers are gone, and only where that
/// was asked for; a cleanup that was asked for never serves.
pub proof fn law_leftovers_go_before_serving(mode: Mode, replies: Seq<HostReply>)
    ensures
        match (Startup::Clearing { mode, procedure: Cleanup::Listing }).after_all(replies) {
            Startup::Clearing { mode: kept, procedure } => kept == mode && procedure
                == Cleanup::Listing.after_all(replies),
            Startup::Serving => mode == Mode::Serve && show_cleaned(replies),
            Startup::Finished { result } => result is Ok ==> mode == Mode::Cleanup && show_cleaned(replies),
        },
    decreases replies.len(),
{
    if replies.len() > 0 {
        let front = replies.drop_last();
        law_leftovers_go_before_serving(mode, front);
        law_cleanup_succeeds_for_a_reason(replies);
        match (Startup::Clearing { mode, procedure: Cleanup::Listing }).after_all(front) {
            Startup::Clearing { .. } => {},
            Startup::Serving => lemma_cleaned_stays(replies),
            Startup::Finished { result } => {
                if result is Ok {
                    lemma_cleaned_stays(replies);
                }
            },
        }
    }
}

} // verus!
