//! Firewall and interface procedures that alternate decisions with work on the
//! host. Each one names the work it waits for and is advanced by the answer to it;
//! an answer to something else leaves it where it is.
use crate::command::{
    chain_command, chain_flush, chain_list, flush_command, hook_check, hook_command, interface_tag,
    restore_command, table_command, table_list, tag_command, transaction_restore, Command, CommandView,
};
use crate::error::Error;
use crate::firewall::{claim_verdict, name_verdict, validated, GroupInterface, Observation, Rules};
use crate::rule_form::{has_chain, script, shows_chain, transaction};
use vstd::prelude::*;

verus! {

/// The port that the source listens on for RTSP and advertises.
pub const SOURCE_RTSP_PORT: u16 = 7236;

/// Work on the host that a procedure waits for.
#[derive(Debug)]
pub enum HostAction {
    /// Resolve the radio's link and the interface's index, then observe the interface.
    Inspect { radio: String, name: String },
    /// Observe an interface.
    Observe { name: String },
    /// Execute a command.
    Run { command: Command },
    /// Nothing: the procedure has ended.
    Rest,
}

/// [`HostAction`] by contents.
pub enum HostActionView {
    Inspect { radio: Seq<char>, name: Seq<char> },
    Observe { name: Seq<char> },
    Run { command: CommandView },
    Rest,
}

impl View for HostAction {
    type V = HostActionView;

    open spec fn view(&self) -> HostActionView {
        match self {
            HostAction::Inspect { radio, name } => HostActionView::Inspect {
                radio: radio@,
                name: name@,
            },
            HostAction::Observe { name } => HostActionView::Observe { name: name@ },
            HostAction::Run { command } => HostActionView::Run { command: command@ },
            HostAction::Rest => HostActionView::Rest,
        }
    }
}

/// The answer to a [`HostAction`].
#[derive(Debug)]
pub enum HostReply {
    /// To an inspection.
    Inspected {
        radio_phy: Result<String, Error>,
        index: Result<String, Error>,
        seen: Observation,
    },
    /// To an observation.
    Observed { seen: Observation },
    /// To a command: its standard output, or why there is none.
    Ran { result: Result<String, Error> },
}

/// What checking the installation hook came to; any failure means that it is not loaded.
pub open spec fn hook_verdict(result: Result<String, Error>) -> Result<(), Error> {
    match result {
        Ok(_) => Ok(()),
        Err(_) => Err(Error::HookMissing),
    }
}

/// Verify the installation hook is loaded in the actual UFW rules, from what
/// checking it came to.
pub fn ensure_hook(result: Result<String, Error>) -> (verdict: Result<(), Error>)
    ensures
        verdict == hook_verdict(result),
{
    match result {
        Ok(_) => Ok(()),
        Err(_) => Err(Error::HookMissing),
    }
}

/// How far an update of the rules has come.
#[derive(Debug)]
pub enum ApplyPhase {
    /// The interface is being observed.
    Observing,
    /// The hook is being checked.
    CheckingHook,
    /// The transaction is being committed.
    Restoring,
    /// The update has ended.
    Done { result: Result<(), Error> },
}

/// Apply a single atomic filter-table transaction without flushing UFW.
#[derive(Debug)]
pub struct Apply {
    pub rules: Rules,
    pub phase: ApplyPhase,
}

impl Rules {
    /// Begin to put these rules into effect.
    pub fn apply(self) -> (procedure: Apply)
        ensures
            procedure == (Apply { rules: self, phase: ApplyPhase::Observing }),
    {
        Apply { rules: self, phase: ApplyPhase::Observing }
    }

    /// Begin to detect reloads or external changes. Never recreate allowances from stale state.
    pub fn intact(self) -> (procedure: Intact)
        ensures
            procedure == (Intact { rules: self, phase: IntactPhase::Observing }),
    {
        Intact { rules: self, phase: IntactPhase::Observing }
    }
}

impl Apply {
    /// The work that is waited for: a look at the interface, then the hook, then
    /// the one transaction.
    pub open spec fn pending(self) -> HostActionView {
        match self.phase {
            ApplyPhase::Observing => HostActionView::Observe { name: self.rules.interface.name@ },
            ApplyPhase::CheckingHook => HostActionView::Run { command: hook_check() },
            ApplyPhase::Restoring => if self.rules.refusal() is None {
                HostActionView::Run {
                    command: transaction_restore(script(self.rules.rule_lines())),
                }
            } else {
                HostActionView::Rest
            },
            ApplyPhase::Done { .. } => HostActionView::Rest,
        }
    }

    /// The phase after an answer.
    pub open spec fn phase_after(self, reply: HostReply) -> ApplyPhase {
        match (self.phase, reply) {
            (ApplyPhase::Observing, HostReply::Observed { seen }) => if self.rules.interface.present(
                seen,
            ) {
                ApplyPhase::CheckingHook
            } else {
                ApplyPhase::Done { result: Err(Error::InterfaceGone) }
            },
            (ApplyPhase::CheckingHook, HostReply::Ran { result }) => match (
                hook_verdict(result),
                self.rules.refusal(),
            ) {
                (Err(missing), _) => ApplyPhase::Done { result: Err(missing) },
                (Ok(()), Some(refused)) => ApplyPhase::Done { result: Err(refused) },
                (Ok(()), None) => ApplyPhase::Restoring,
            },
            (ApplyPhase::Restoring, HostReply::Ran { result }) => match result {
                Ok(_) => ApplyPhase::Done { result: Ok(()) },
                Err(failed) => ApplyPhase::Done { result: Err(failed) },
            },
            (phase, _) => phase,
        }
    }

    /// The procedure after an answer.
    pub open spec fn after(self, reply: HostReply) -> Apply {
        Apply { rules: self.rules, phase: self.phase_after(reply) }
    }

    /// The work that is waited for.
    pub fn action(&self) -> (action: HostAction)
        ensures
            action@ == self.pending(),
    {
        match self.phase {
            ApplyPhase::Observing => HostAction::Observe {
                name: self.rules.interface.name.clone(),
            },
            ApplyPhase::CheckingHook => HostAction::Run { command: hook_command() },
            ApplyPhase::Restoring => match self.rules.lines() {
                Ok(lines) => HostAction::Run { command: restore_command(transaction(&lines)) },
                Err(_) => HostAction::Rest,
            },
            ApplyPhase::Done { .. } => HostAction::Rest,
        }
    }

    /// Take in an answer.
    pub fn advance(self, reply: HostReply) -> (next: Apply)
        ensures
            next == self.after(reply),
    {
        let Apply { rules, phase } = self;
        let phase = match (phase, reply) {
            (ApplyPhase::Observing, HostReply::Observed { seen }) => {
                if rules.interface.still_exists(&seen) {
                    ApplyPhase::CheckingHook
                } else {
                    ApplyPhase::Done { result: Err(Error::InterfaceGone) }
                }
            },
            (ApplyPhase::CheckingHook, HostReply::Ran { result }) => match ensure_hook(result) {
                Err(missing) => ApplyPhase::Done { result: Err(missing) },
                Ok(()) => match rules.lines() {
                    Err(refused) => ApplyPhase::Done { result: Err(refused) },
                    Ok(_) => ApplyPhase::Restoring,
                },
            },
            (ApplyPhase::Restoring, HostReply::Ran { result }) => match result {
                Ok(_) => ApplyPhase::Done { result: Ok(()) },
                Err(failed) => ApplyPhase::Done { result: Err(failed) },
            },
            (phase, _) => phase,
        };
        Apply { rules, phase }
    }
}

/// How far a check of the rules has come.
#[derive(Debug)]
pub enum IntactPhase {
    /// The interface is being observed.
    Observing,
    /// The hook is being checked.
    CheckingHook,
    /// The dedicated chain is being listed.
    Listing,
    /// The check has ended.
    Done { intact: bool },
}

/// Compare the rules with what is in effect.
#[derive(Debug)]
pub struct Intact {
    pub rules: Rules,
    pub phase: IntactPhase,
}

impl Intact {
    /// The work that is waited for; none of it changes anything.
    pub open spec fn pending(self) -> HostActionView {
        match self.phase {
            IntactPhase::Observing => HostActionView::Observe { name: self.rules.interface.name@ },
            IntactPhase::CheckingHook => HostActionView::Run { command: hook_check() },
            IntactPhase::Listing => HostActionView::Run { command: chain_list() },
            IntactPhase::Done { .. } => HostActionView::Rest,
        }
    }

    /// The phase after an answer.
    pub open spec fn phase_after(self, reply: HostReply) -> IntactPhase {
        match (self.phase, reply) {
            (IntactPhase::Observing, HostReply::Observed { seen }) => if self.rules.interface.present(
                seen,
            ) {
                IntactPhase::CheckingHook
            } else {
                IntactPhase::Done { intact: false }
            },
            (IntactPhase::CheckingHook, HostReply::Ran { result }) => if hook_verdict(result) is Ok {
                IntactPhase::Listing
            } else {
                IntactPhase::Done { intact: false }
            },
            (IntactPhase::Listing, HostReply::Ran { result }) => match result {
                Ok(listing) => IntactPhase::Done { intact: self.rules.shown_by(listing@) },
                Err(_) => IntactPhase::Done { intact: false },
            },
            (phase, _) => phase,
        }
    }

    /// The procedure after an answer.
    pub open spec fn after(self, reply: HostReply) -> Intact {
        Intact { rules: self.rules, phase: self.phase_after(reply) }
    }

    /// The work that is waited for.
    pub fn action(&self) -> (action: HostAction)
        ensures
            action@ == self.pending(),
    {
        match self.phase {
            IntactPhase::Observing => HostAction::Observe {
                name: self.rules.interface.name.clone(),
            },
            IntactPhase::CheckingHook => HostAction::Run { command: hook_command() },
            IntactPhase::Listing => HostAction::Run { command: chain_command() },
            IntactPhase::Done { .. } => HostAction::Rest,
        }
    }

    /// Take in an answer.
    pub fn advance(self, reply: HostReply) -> (next: Intact)
        ensures
            next == self.after(reply),
    {
        let Intact { rules, phase } = self;
        let phase = match (phase, reply) {
            (IntactPhase::Observing, HostReply::Observed { seen }) => {
                if rules.interface.still_exists(&seen) {
                    IntactPhase::CheckingHook
                } else {
                    IntactPhase::Done { intact: false }
                }
            },
            (IntactPhase::CheckingHook, HostReply::Ran { result }) => match ensure_hook(result) {
                Ok(()) => IntactPhase::Listing,
                Err(_) => IntactPhase::Done { intact: false },
            },
            (IntactPhase::Listing, HostReply::Ran { result }) => match result {
                Ok(listing) => IntactPhase::Done { intact: rules.listed_in(listing.as_str()) },
                Err(_) => IntactPhase::Done { intact: false },
            },
            (phase, _) => phase,
        };
        Intact { rules, phase }
    }
}

/// How far a cleanup has come.
#[derive(Debug)]
pub enum Cleanup {
    /// The filter table is being listed.
    Listing,
    /// The dedicated chain is being emptied.
    Flushing,
    /// The cleanup has ended.
    Done { result: Result<(), Error> },
}

/// Begin to remove only Waycast allowances. Used by teardown, startup and ExecStopPost.
pub fn cleanup() -> (procedure: Cleanup)
    ensures
        procedure == Cleanup::Listing,
{
    Cleanup::Listing
}

impl Cleanup {
    /// The work that is waited for.
    pub open spec fn pending(self) -> HostActionView {
        match self {
            Cleanup::Listing => HostActionView::Run { command: table_list() },
            Cleanup::Flushing => HostActionView::Run { command: chain_flush() },
            Cleanup::Done { .. } => HostActionView::Rest,
        }
    }

    /// The procedure after an answer. A UFW flush can remove the chain
    /// altogether; there is then nothing to remove.
    pub open spec fn after(self, reply: HostReply) -> Cleanup {
        match (self, reply) {
            (Cleanup::Listing, HostReply::Ran { result }) => match result {
                Ok(table) => if has_chain(table@) {
                    Cleanup::Flushing
                } else {
                    Cleanup::Done { result: Ok(()) }
                },
                Err(failed) => Cleanup::Done { result: Err(failed) },
            },
            (Cleanup::Flushing, HostReply::Ran { result }) => match result {
                Ok(_) => Cleanup::Done { result: Ok(()) },
                Err(failed) => Cleanup::Done { result: Err(failed) },
            },
            (phase, _) => phase,
        }
    }

    /// The work that is waited for.
    pub fn action(&self) -> (action: HostAction)
        ensures
            action@ == self.pending(),
    {
        match self {
            Cleanup::Listing => HostAction::Run { command: table_command() },
            Cleanup::Flushing => HostAction::Run { command: flush_command() },
            Cleanup::Done { .. } => HostAction::Rest,
        }
    }

    /// Take in an answer.
    pub fn advance(self, reply: HostReply) -> (next: Cleanup)
        ensures
            next == self.after(reply),
    {
        match (self, reply) {
            (Cleanup::Listing, HostReply::Ran { result }) => match result {
                Ok(table) => if shows_chain(table.as_str()) {
                    Cleanup::Flushing
                } else {
                    Cleanup::Done { result: Ok(()) }
                },
                Err(failed) => Cleanup::Done { result: Err(failed) },
            },
            (Cleanup::Flushing, HostReply::Ran { result }) => match result {
                Ok(_) => Cleanup::Done { result: Ok(()) },
                Err(failed) => Cleanup::Done { result: Err(failed) },
            },
            (phase, _) => phase,
        }
    }
}

/// How far the preparation of a group interface has come.
#[derive(Debug)]
pub enum Preparation {
    /// The interface is being resolved.
    Inspecting { radio: String, name: String, group_owner: bool },
    /// The resolved interface is observed before it is tagged.
    Claiming { interface: GroupInterface, group_owner: bool },
    /// It is being tagged.
    Tagging { interface: GroupInterface, group_owner: bool },
    /// It is observed once more after the tagging.
    Confirming { interface: GroupInterface, group_owner: bool },
    /// The first rules are being applied.
    Applying { update: Apply },
    /// The rules are in effect.
    Prepared { rules: Rules },
    /// The preparation failed.
    Failed { error: Error },
}

/// The rules before any address is known.
pub open spec fn first_rules(interface: GroupInterface, group_owner: bool) -> Rules {
    Rules {
        interface,
        group_owner,
        rtsp: SOURCE_RTSP_PORT,
        local: None,
        peer: None,
        rtcp: None,
    }
}

/// A preparation that waits for its update, or that ended with it.
pub open spec fn applying(update: Apply) -> Preparation {
    match update.phase {
        ApplyPhase::Done { result: Ok(()) } => Preparation::Prepared { rules: update.rules },
        ApplyPhase::Done { result: Err(error) } => Preparation::Failed { error },
        _ => Preparation::Applying { update },
    }
}

impl Preparation {
    /// Where the preparation of a group that was just started begins: with names
    /// that are acceptable, or not at all.
    pub open spec fn begun(radio: String, name: String, group_owner: bool) -> Preparation {
        match name_verdict(radio@, name@) {
            Ok(()) => Preparation::Inspecting { radio, name, group_owner },
            Err(error) => Preparation::Failed { error },
        }
    }

    /// The work that is waited for.
    pub open spec fn pending(self) -> HostActionView {
        match self {
            Preparation::Inspecting { radio, name, .. } => HostActionView::Inspect {
                radio: radio@,
                name: name@,
            },
            Preparation::Claiming { interface, .. } => HostActionView::Observe {
                name: interface.name@,
            },
            Preparation::Tagging { interface, .. } => HostActionView::Run {
                command: interface_tag(interface.name@),
            },
            Preparation::Confirming { interface, .. } => HostActionView::Observe {
                name: interface.name@,
            },
            Preparation::Applying { update } => update.pending(),
            _ => HostActionView::Rest,
        }
    }

    /// The preparation after an answer.
    pub open spec fn after(self, reply: HostReply) -> Preparation {
        match (self, reply) {
            (
                Preparation::Inspecting { radio, name, group_owner },
                HostReply::Inspected { radio_phy, index, seen },
            ) => match validated(radio@, name, radio_phy, index, seen) {
                Ok(interface) => Preparation::Claiming { interface, group_owner },
                Err(error) => Preparation::Failed { error },
            },
            (Preparation::Claiming { interface, group_owner }, HostReply::Observed { seen }) => {
                match claim_verdict(interface, seen) {
                    Ok(()) => Preparation::Tagging { interface, group_owner },
                    Err(error) => Preparation::Failed { error },
                }
            },
            (Preparation::Tagging { interface, group_owner }, HostReply::Ran { result }) => {
                match result {
                    Ok(_) => Preparation::Confirming { interface, group_owner },
                    Err(error) => Preparation::Failed { error },
                }
            },
            (Preparation::Confirming { interface, group_owner }, HostReply::Observed { seen }) => {
                if interface.present(seen) {
                    applying(
                        Apply {
                            rules: first_rules(interface, group_owner),
                            phase: ApplyPhase::Observing,
                        },
                    )
                } else {
                    Preparation::Failed { error: Error::ChangedWhileTagging }
                }
            },
            (Preparation::Applying { update }, reply) => applying(update.after(reply)),
            (phase, _) => phase,
        }
    }

    /// Begin to prepare the group that was just started.
    pub fn begin(radio: String, name: String, group_owner: bool) -> (procedure: Preparation)
        ensures
            procedure == Preparation::begun(radio, name, group_owner),
    {
        match GroupInterface::validate_names(radio.as_str(), name.as_str()) {
            Ok(()) => Preparation::Inspecting { radio, name, group_owner },
            Err(error) => Preparation::Failed { error },
        }
    }

    /// The work that is waited for.
    pub fn action(&self) -> (action: HostAction)
        ensures
            action@ == self.pending(),
    {
        match self {
            Preparation::Inspecting { radio, name, .. } => HostAction::Inspect {
                radio: radio.clone(),
                name: name.clone(),
            },
            Preparation::Claiming { interface, .. } => HostAction::Observe {
                name: interface.name.clone(),
            },
            Preparation::Tagging { interface, .. } => HostAction::Run {
                command: tag_command(interface.name.as_str()),
            },
            Preparation::Confirming { interface, .. } => HostAction::Observe {
                name: interface.name.clone(),
            },
            Preparation::Applying { update } => update.action(),
            _ => HostAction::Rest,
        }
    }

    /// Take in an answer.
    pub fn advance(self, reply: HostReply) -> (next: Preparation)
        ensures
            next == self.after(reply),
    {
        match (self, reply) {
            (
                Preparation::Inspecting { radio, name, group_owner },
                HostReply::Inspected { radio_phy, index, seen },
            ) => match GroupInterface::validate(radio.as_str(), name, radio_phy, index, &seen) {
                Ok(interface) => Preparation::Claiming { interface, group_owner },
                Err(error) => Preparation::Failed { error },
            },
            (Preparation::Claiming { interface, group_owner }, HostReply::Observed { seen }) => {
                match interface.claim(seen) {
                    Ok(()) => Preparation::Tagging { interface, group_owner },
                    Err(error) => Preparation::Failed { error },
                }
            },
            (Preparation::Tagging { interface, group_owner }, HostReply::Ran { result }) => {
                match result {
                    Ok(_) => Preparation::Confirming { interface, group_owner },
                    Err(error) => Preparation::Failed { error },
                }
            },
            (Preparation::Confirming { interface, group_owner }, HostReply::Observed { seen }) => {
                if interface.still_exists(&seen) {
                    let rules = Rules {
                        interface,
                        group_owner,
                        rtsp: SOURCE_RTSP_PORT,
                        local: None,
                        peer: None,
                        rtcp: None,
                    };
                    Preparation::Applying { update: rules.apply() }
                } else {
                    Preparation::Failed { error: Error::ChangedWhileTagging }
                }
            },
            (Preparation::Applying { update }, reply) => {
                let update = update.advance(reply);
                match update.phase {
                    ApplyPhase::Done { result: Ok(()) } => Preparation::Prepared {
                        rules: update.rules,
                    },
                    ApplyPhase::Done { result: Err(error) } => Preparation::Failed { error },
                    _ => Preparation::Applying { update },
                }
            },
            (phase, _) => phase,
        }
    }
}

} // verus!
