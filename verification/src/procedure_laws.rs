//! What holds of the firewall and interface procedures over any course of answers.
use crate::address::Ipv4Addr;
use crate::command::{
    chain_flush, chain_list, hook_check, interface_tag, table_list, transaction_restore, CommandView,
    DEVICE_GROUP,
};
use crate::error::Error;
use crate::firewall::{
    attribute_number, claim_verdict, is_p2p_name, is_valid_name, name_verdict, validated, GroupInterface, Observation, Rules,
};
use crate::history::{in_order, lemma_in_order_empty, lemma_in_order_grows};
use crate::procedure::{
    first_rules, Apply, ApplyPhase, Cleanup, HostActionView, HostReply, Intact,
    IntactPhase, Preparation,
};
use crate::rule_form::{has_chain, script};
use vstd::prelude::*;

verus! {

/// The commands that are ever executed: looking at the firewall, emptying the
/// dedicated chain, replacing its contents by renderable rules, and tagging a P2P
/// data interface.
pub open spec fn is_sanctioned(command: CommandView) -> bool {
    ||| command == hook_check()
    ||| command == table_list()
    ||| command == chain_list()
    ||| command == chain_flush()
    ||| exists|rules: Rules|
        rules.refusal() is None && command == #[trigger] transaction_restore(script(rules.rule_lines()))
    ||| exists|name: Seq<char>|
        is_valid_name(name) && is_p2p_name(name) && command == #[trigger] interface_tag(name)
}

/// An answer that shows the interface present and tagged.
pub open spec fn shows_presence(reply: HostReply, interface: GroupInterface) -> bool {
    reply matches HostReply::Observed { seen } && interface.present(seen)
}

/// The answer of a command that went through.
pub open spec fn went_through(reply: HostReply) -> bool {
    reply matches HostReply::Ran { result } && result is Ok
}

impl Apply {
    /// The update after a number of answers.
    pub open spec fn after_all(self, replies: Seq<HostReply>) -> Apply
        decreases replies.len(),
    {
        if replies.len() == 0 {
            self
        } else {
            self.after_all(replies.drop_last()).after(replies.last())
        }
    }
}

/// What an update has been answered by the time it checks the hook.
pub open spec fn seen_steps(interface: GroupInterface) -> Seq<spec_fn(HostReply) -> bool> {
    seq![|reply: HostReply| shows_presence(reply, interface)]
}

/// What an update has been answered by the time it commits.
pub open spec fn hooked_steps(interface: GroupInterface) -> Seq<spec_fn(HostReply) -> bool> {
    seen_steps(interface).push(|reply: HostReply| went_through(reply))
}

/// What an update has been answered by the time it has succeeded.
pub open spec fn committed_steps(interface: GroupInterface) -> Seq<spec_fn(HostReply) -> bool> {
    hooked_steps(interface).push(|reply: HostReply| went_through(reply))
}

/// Where an update can be after some answers: it commits its transaction only
/// where it may be rendered, and only after the tagged interface was seen and then
/// the hook was found in place; it succeeds only after the transaction went
/// through as well.
pub proof fn law_update_looks_before_it_commits(rules: Rules, replies: Seq<HostReply>)
    ensures
        ({
            let update = (Apply { rules, phase: ApplyPhase::Observing }).after_all(replies);
            &&& update.rules == rules
            &&& match update.phase {
                ApplyPhase::Observing => true,
                ApplyPhase::CheckingHook => in_order(seen_steps(rules.interface), replies),
                ApplyPhase::Restoring => rules.refusal() is None && in_order(
                    hooked_steps(rules.interface),
                    replies,
                ),
                ApplyPhase::Done { result } => result is Ok ==> rules.refusal() is None && in_order(
                    committed_steps(rules.interface),
                    replies,
                ),
            }
        }),
    decreases replies.len(),
{
    if replies.len() > 0 {
        let front = replies.drop_last();
        let before = (Apply { rules, phase: ApplyPhase::Observing }).after_all(front);
        let seen = |reply: HostReply| shows_presence(reply, rules.interface);
        let through = |reply: HostReply| went_through(reply);
        law_update_looks_before_it_commits(rules, front);
        match before.phase {
            ApplyPhase::Observing => {
                lemma_in_order_empty(front);
                lemma_in_order_grows(seq![], seen, replies);
                assert(seq![].push(seen) =~= seen_steps(rules.interface));
            },
            ApplyPhase::CheckingHook => {
                lemma_in_order_grows(seen_steps(rules.interface), through, replies);
            },
            ApplyPhase::Restoring => {
                lemma_in_order_grows(hooked_steps(rules.interface), through, replies);
            },
            ApplyPhase::Done { result } => {
                if result is Ok {
                    lemma_in_order_grows(committed_steps(rules.interface), through, replies);
                }
            },
        }
    }
}

/// Renderable rules take effect where the interface is present, the hook is in
/// place and the transaction goes through.
pub proof fn law_update_succeeds_on_good_answers(rules: Rules, seen: Observation, hook: String, output: String)
    requires
        rules.refusal() is None,
        rules.interface.present(seen),
    ensures
        (Apply { rules, phase: ApplyPhase::Observing }).after_all(
            seq![
                HostReply::Observed { seen },
                HostReply::Ran { result: Ok(hook) },
                HostReply::Ran { result: Ok(output) },
            ],
        ).phase == (ApplyPhase::Done { result: Ok(()) }),
{
    let start = Apply { rules, phase: ApplyPhase::Observing };
    let all = seq![
        HostReply::Observed { seen },
        HostReply::Ran { result: Ok(hook) },
        HostReply::Ran { result: Ok(output) },
    ];
    reveal_with_fuel(Apply::after_all, 4);
    assert(all.drop_last().drop_last().drop_last() =~= seq![]);
    assert(all.drop_last().drop_last().last() == all[0]);
    assert(all.drop_last().last() == all[1]);
}

/// An update executes nothing but sanctioned commands.
pub proof fn law_update_commands_are_sanctioned(update: Apply, command: CommandView)
    requires
        update.pending() == (HostActionView::Run { command }),
    ensures
        is_sanctioned(command),
        command == hook_check() || command == transaction_restore(script(update.rules.rule_lines())),
{
}

/// A check only looks: at the interface, at the hook and at the dedicated chain.
pub proof fn law_check_changes_nothing(check: Intact)
    ensures
        match check.pending() {
            HostActionView::Run { command } => command == hook_check() || command == chain_list(),
            HostActionView::Observe { name } => name == check.rules.interface.name@,
            HostActionView::Rest => check.phase is Done,
            HostActionView::Inspect { .. } => false,
        },
{
}

/// Whether three answers in a row show the rules intact.
pub open spec fn show_intact(rules: Rules, first: HostReply, second: HostReply, third: HostReply) -> bool {
    &&& shows_presence(first, rules.interface)
    &&& went_through(second)
    &&& third matches HostReply::Ran { result } && (result matches Ok(listing) && rules.shown_by(
        listing@,
    ))
}

/// A check that gets its three answers says that the rules are intact if and only
/// if the tagged interface is present, the hook is in place, and the chain shows
/// exactly these rules.
pub proof fn law_check_is_exact(
    rules: Rules,
    seen: Observation,
    hook: Result<String, Error>,
    listing: Result<String, Error>,
)
    ensures
        ({
            let first = HostReply::Observed { seen };
            let second = HostReply::Ran { result: hook };
            let third = HostReply::Ran { result: listing };
            let check = (Intact { rules, phase: IntactPhase::Observing }).after(first).after(
                second,
            ).after(third);
            check.phase == (IntactPhase::Done { intact: true }) <==> show_intact(
                rules,
                first,
                second,
                third,
            )
        }),
{
}

/// A cleanup touches nothing but the dedicated chain.
pub proof fn law_cleanup_touches_only_the_chain(cleanup: Cleanup)
    ensures
        match cleanup.pending() {
            HostActionView::Run { command } => command == table_list() || command == chain_flush(),
            HostActionView::Rest => cleanup is Done,
            _ => false,
        },
{
}

impl Cleanup {
    /// The cleanup after a number of answers.
    pub open spec fn after_all(self, replies: Seq<HostReply>) -> Cleanup
        decreases replies.len(),
    {
        if replies.len() == 0 {
            self
        } else {
            self.after_all(replies.drop_last()).after(replies.last())
        }
    }
}

/// The table was listed without the dedicated chain.
pub open spec fn chainless_steps() -> Seq<spec_fn(HostReply) -> bool> {
    seq![|reply: HostReply| shows_no_chain(reply)]
}

/// The table was listed.
pub open spec fn listed_steps() -> Seq<spec_fn(HostReply) -> bool> {
    seq![|reply: HostReply| went_through(reply)]
}

/// The table was listed, and then the dedicated chain was emptied.
pub open spec fn emptied_steps() -> Seq<spec_fn(HostReply) -> bool> {
    listed_steps().push(|reply: HostReply| went_through(reply))
}

/// Whether some answers show that no allowance is left: the filter table has no
/// dedicated chain, or emptying it went through.
pub open spec fn show_cleaned(replies: Seq<HostReply>) -> bool {
    in_order(chainless_steps(), replies) || in_order(emptied_steps(), replies)
}

/// A cleanup says that it succeeded only where the listing showed no dedicated
/// chain, or where emptying the chain went through.
pub proof fn law_cleanup_succeeds_for_a_reason(replies: Seq<HostReply>)
    ensures
        match Cleanup::Listing.after_all(replies) {
            Cleanup::Listing => true,
            Cleanup::Flushing => in_order(listed_steps(), replies),
            Cleanup::Done { result } => result is Ok ==> show_cleaned(replies),
        },
    decreases replies.len(),
{
    if replies.len() > 0 {
        let front = replies.drop_last();
        let through = |reply: HostReply| went_through(reply);
        let chainless = |reply: HostReply| shows_no_chain(reply);
        law_cleanup_succeeds_for_a_reason(front);
        match Cleanup::Listing.after_all(front) {
            Cleanup::Listing => {
                lemma_in_order_empty(front);
                lemma_in_order_grows(seq![], through, replies);
                lemma_in_order_grows(seq![], chainless, replies);
                assert(seq![].push(through) =~= listed_steps());
                assert(seq![].push(chainless) =~= chainless_steps());
            },
            Cleanup::Flushing => {
                lemma_in_order_grows(listed_steps(), through, replies);
            },
            Cleanup::Done { result } => {
                if result is Ok {
                    lemma_cleaned_stays(replies);
                }
            },
        }
    }
}

/// What was cleaned stays cleaned by whatever answers follow.
pub proof fn lemma_cleaned_stays(replies: Seq<HostReply>)
    requires
        replies.len() > 0,
        show_cleaned(replies.drop_last()),
    ensures
        show_cleaned(replies),
{
    let through = |reply: HostReply| went_through(reply);
    if in_order(chainless_steps(), replies.drop_last()) {
        lemma_in_order_grows(chainless_steps(), through, replies);
    } else {
        lemma_in_order_grows(emptied_steps(), through, replies);
    }
}

/// An answer that lists the filter table without the dedicated chain.
pub open spec fn shows_no_chain(reply: HostReply) -> bool {
    reply matches HostReply::Ran { result } && (result matches Ok(table) && !has_chain(table@))
}

/// A cleanup of a table without the dedicated chain ends at once, and changes nothing.
pub proof fn law_nothing_to_clean_up(table: String)
    requires
        !has_chain(table@),
    ensures
        Cleanup::Listing.after(HostReply::Ran { result: Ok(table) }) == (Cleanup::Done {
            result: Ok(()),
        }),
{
}

impl Preparation {
    /// The preparation after a number of answers.
    pub open spec fn after_all(self, replies: Seq<HostReply>) -> Preparation
        decreases replies.len(),
    {
        if replies.len() == 0 {
            self
        } else {
            self.after_all(replies.drop_last()).after(replies.last())
        }
    }

    /// The interface that the preparation has settled on.
    pub open spec fn interface(self) -> Option<GroupInterface> {
        match self {
            Preparation::Claiming { interface, .. } => Some(interface),
            Preparation::Tagging { interface, .. } => Some(interface),
            Preparation::Confirming { interface, .. } => Some(interface),
            Preparation::Applying { update } => Some(update.rules.interface),
            Preparation::Prepared { rules } => Some(rules.interface),
            _ => None,
        }
    }
}

/// An answer by which an interface was validated.
pub open spec fn validates(reply: HostReply, radio: Seq<char>, name: String, interface: GroupInterface) -> bool {
    reply matches HostReply::Inspected { radio_phy, index, seen } && validated(
        radio,
        name,
        radio_phy,
        index,
        seen,
    ) == Ok::<GroupInterface, Error>(interface)
}

/// An answer by which an interface may be tagged.
pub open spec fn permits_claim(reply: HostReply, interface: GroupInterface) -> bool {
    reply matches HostReply::Observed { seen } && claim_verdict(interface, seen) == Ok::<(), Error>(())
}

/// An interface was validated.
pub open spec fn validated_steps(radio: Seq<char>, name: String, interface: GroupInterface) -> Seq<
    spec_fn(HostReply) -> bool,
> {
    seq![|reply: HostReply| validates(reply, radio, name, interface)]
}

/// It was then seen unclaimed.
pub open spec fn unclaimed_steps(radio: Seq<char>, name: String, interface: GroupInterface) -> Seq<
    spec_fn(HostReply) -> bool,
> {
    validated_steps(radio, name, interface).push(|reply: HostReply| permits_claim(reply, interface))
}

/// The tagging then went through.
pub open spec fn tagged_steps(radio: Seq<char>, name: String, interface: GroupInterface) -> Seq<
    spec_fn(HostReply) -> bool,
> {
    unclaimed_steps(radio, name, interface).push(|reply: HostReply| went_through(reply))
}

/// It was then seen present with its tag.
pub open spec fn confirmed_steps(radio: Seq<char>, name: String, interface: GroupInterface) -> Seq<
    spec_fn(HostReply) -> bool,
> {
    tagged_steps(radio, name, interface).push(|reply: HostReply| shows_presence(reply, interface))
}

/// Where a preparation can be after some answers. No interface is settled on
/// unless it was validated; none is tagged unless it was then seen unclaimed; none
/// gets rules unless the tagging then went through and it was seen present and
/// tagged; and the rules it gets are the first rules.
pub open spec fn follows_its_steps(
    now: Preparation,
    radio: String,
    name: String,
    group_owner: bool,
    replies: Seq<HostReply>,
) -> bool {
    &&& !(now is Failed) ==> name_verdict(radio@, name@) == Ok::<(), Error>(())
    &&& now.interface() matches Some(interface) ==> interface.name == name
    &&& match now {
        Preparation::Inspecting { radio: r, name: n, group_owner: g } => r == radio && n == name && g
            == group_owner,
        Preparation::Claiming { interface, group_owner: g } => g == group_owner && in_order(
            validated_steps(radio@, name, interface),
            replies,
        ),
        Preparation::Tagging { interface, group_owner: g } => g == group_owner && in_order(
            unclaimed_steps(radio@, name, interface),
            replies,
        ),
        Preparation::Confirming { interface, group_owner: g } => g == group_owner && in_order(
            tagged_steps(radio@, name, interface),
            replies,
        ),
        Preparation::Applying { update } => update.rules == first_rules(
            update.rules.interface,
            group_owner,
        ) && in_order(confirmed_steps(radio@, name, update.rules.interface), replies),
        Preparation::Prepared { rules } => rules == first_rules(rules.interface, group_owner) && in_order(
            confirmed_steps(radio@, name, rules.interface),
            replies,
        ),
        Preparation::Failed { .. } => true,
    }
}

/// Whatever answers it gets, a preparation follows its steps.
#[verifier::spinoff_prover]
pub proof fn law_preparation_follows_its_steps(
    radio: String,
    name: String,
    group_owner: bool,
    replies: Seq<HostReply>,
)
    ensures
        follows_its_steps(
            Preparation::begun(radio, name, group_owner).after_all(replies),
            radio,
            name,
            group_owner,
            replies,
        ),
    decreases replies.len(),
{
    if replies.len() > 0 {
        let front = replies.drop_last();
        let before = Preparation::begun(radio, name, group_owner).after_all(front);
        let now = before.after(replies.last());
        let through = |reply: HostReply| went_through(reply);
        law_preparation_follows_its_steps(radio, name, group_owner, front);
        match before {
            Preparation::Inspecting { .. } => {
                if let Preparation::Claiming { interface, .. } = now {
                    let check = |reply: HostReply| validates(reply, radio@, name, interface);
                    lemma_in_order_empty(front);
                    lemma_in_order_grows(seq![], check, replies);
                    assert(seq![].push(check) =~= validated_steps(radio@, name, interface));
                }
            },
            Preparation::Claiming { interface, .. } => {
                lemma_in_order_grows(
                    validated_steps(radio@, name, interface),
                    |reply: HostReply| permits_claim(reply, interface),
                    replies,
                );
            },
            Preparation::Tagging { interface, .. } => {
                lemma_in_order_grows(unclaimed_steps(radio@, name, interface), through, replies);
            },
            Preparation::Confirming { interface, .. } => {
                lemma_in_order_grows(
                    tagged_steps(radio@, name, interface),
                    |reply: HostReply| shows_presence(reply, interface),
                    replies,
                );
            },
            Preparation::Applying { update } => {
                lemma_in_order_grows(
                    confirmed_steps(radio@, name, update.rules.interface),
                    through,
                    replies,
                );
            },
            Preparation::Prepared { rules } => {
                lemma_in_order_grows(
                    confirmed_steps(radio@, name, rules.interface),
                    through,
                    replies,
                );
            },
            Preparation::Failed { .. } => {},
        }
    }
}

/// A preparation succeeds where the interface is validated, unclaimed, tagged and
/// still present, and its first rules take effect.
pub proof fn law_preparation_succeeds_on_good_answers(
    radio: String,
    name: String,
    group_owner: bool,
    interface: GroupInterface,
    inspected: HostReply,
    unclaimed: HostReply,
    tagged: HostReply,
    confirmed: HostReply,
    present: HostReply,
    hook: HostReply,
    committed: HostReply,
)
    requires
        validates(inspected, radio@, name, interface),
        permits_claim(unclaimed, interface),
        went_through(tagged),
        shows_presence(confirmed, interface),
        shows_presence(present, interface),
        went_through(hook),
        went_through(committed),
    ensures
        Preparation::begun(radio, name, group_owner).after(inspected).after(unclaimed).after(
            tagged,
        ).after(confirmed).after(present).after(hook).after(committed) == (Preparation::Prepared {
            rules: first_rules(interface, group_owner),
        }),
{
}

/// A preparation executes nothing but sanctioned commands, and looks nothing up by
/// a name that was not accepted.
pub proof fn law_preparation_stays_within_bounds(
    radio: String,
    name: String,
    group_owner: bool,
    replies: Seq<HostReply>,
)
    ensures
        match Preparation::begun(radio, name, group_owner).after_all(replies).pending() {
            HostActionView::Run { command } => is_sanctioned(command),
            HostActionView::Observe { name: looked } => looked == name@ && is_valid_name(looked)
                && is_p2p_name(looked),
            HostActionView::Inspect { radio: r, name: n } => r == radio@ && n == name@ && is_valid_name(r)
                && is_valid_name(n) && is_p2p_name(n),
            HostActionView::Rest => true,
        },
{
    let now = Preparation::begun(radio, name, group_owner).after_all(replies);
    law_preparation_follows_its_steps(radio, name, group_owner, replies);
    match now {
        Preparation::Applying { update } => {
            if let HostActionView::Run { command } = update.pending() {
                law_update_commands_are_sanctioned(update, command);
            }
        },
        Preparation::Tagging { interface, .. } => {
            assert(is_sanctioned(interface_tag(interface.name@)));
        },
        _ => {},
    }
}

/// The first rules of an interface with an accepted name can be rendered, and stay
/// so when they are narrowed to the local address.
pub proof fn law_first_rules_can_be_rendered(
    interface: GroupInterface,
    group_owner: bool,
    local: Ipv4Addr,
)
    requires
        is_valid_name(interface.name@),
    ensures
        first_rules(interface, group_owner).refusal() is None,
        (Rules { local: Some(local), ..first_rules(interface, group_owner) }).refusal() is None,
{
}

/// An interface with another index, on another radio or without the tag is not
/// taken for the tagged one, whatever its name.
pub proof fn law_replacements_are_noticed(interface: GroupInterface, seen: Observation)
    requires
        ({
            ||| attribute_number(seen.index) != Ok::<u32, Error>(interface.index)
            ||| seen.phy is Err
            ||| seen.phy->Ok_0@ != interface.phy@
            ||| attribute_number(seen.group) != Ok::<u32, Error>(
                DEVICE_GROUP,
            )
        }),
    ensures
        !interface.present(seen),
{
}

} // verus!
