//! What the procedures make of the filter table. The table is taken as the rules of
//! each chain, by the chain's name. A command that fails changes nothing, and nobody
//! else changes the table meanwhile; what others change is for the check of the
//! rules to notice.
use crate::command::{
    chain_flush, chain_list, hook_check, interface_tag, table_list, transaction_restore, CommandView, CHAIN,
    IPTABLES_RESTORE,
};
use crate::firewall::{is_valid_name, Rules};
use crate::listing::law_transaction_holds_only_the_rules;
use crate::procedure::{Apply, ApplyPhase, Cleanup, HostActionView, HostReply, Preparation};
use crate::procedure_laws::law_update_looks_before_it_commits;
use crate::rule_form::{has_chain, is_addition, script};
use crate::rule_laws::{law_every_rule_is_scoped, lemma_rules_are_readable};
use crate::spelling::law_splitting_undoes_joining;
use crate::text::{lines, words};
use vstd::prelude::*;

verus! {

/// The rules of each chain of the filter table.
pub type Table = Map<Seq<char>, Seq<Seq<char>>>;

/// The table after one line of a transaction: a flush of a chain, or one more rule.
pub open spec fn after_line(table: Table, line: Seq<char>) -> Table {
    if "-F "@.is_prefix_of(line) {
        table.insert(line.skip(3), seq![])
    } else if is_addition(line) {
        let chain = words(line)[1];
        table.insert(chain, table[chain].push(line))
    } else {
        table
    }
}

/// The table after a number of lines of a transaction.
pub open spec fn after_lines(table: Table, list: Seq<Seq<char>>) -> Table
    decreases list.len(),
{
    if list.len() == 0 {
        table
    } else {
        after_line(after_lines(table, list.drop_last()), list.last())
    }
}

/// The table after a transaction: it takes effect as a whole, if it names this
/// table and ends by committing.
pub open spec fn committed(table: Table, text: Seq<char>) -> Table {
    let list = lines(text);
    if list.len() >= 2 && list[0] == "*filter"@ && list.last() == "COMMIT"@ {
        after_lines(table, list.subrange(1, list.len() - 1))
    } else {
        table
    }
}

/// The table after a command that went through.
pub open spec fn effect(table: Table, command: CommandView) -> Table {
    if command == chain_flush() {
        table.insert(CHAIN@, seq![])
    } else if command.binary == IPTABLES_RESTORE@ && command.input is Some {
        committed(table, command.input->0)
    } else {
        table
    }
}

/// The table after the answer to what a procedure waited for.
pub open spec fn after_work(table: Table, pending: HostActionView, reply: HostReply) -> Table {
    match (pending, reply) {
        (HostActionView::Run { command }, HostReply::Ran { result: Ok(_) }) => effect(table, command),
        _ => table,
    }
}

/// Everything but the dedicated chain.
pub open spec fn elsewhere(table: Table) -> Table {
    table.remove(CHAIN@)
}

/// Whether the dedicated chain is empty, or not there.
pub open spec fn is_empty(table: Table) -> bool {
    table.contains_key(CHAIN@) ==> table[CHAIN@].len() == 0
}

/// The table with the dedicated chain emptied, where there is one.
pub open spec fn emptied(table: Table) -> Table {
    if table.contains_key(CHAIN@) {
        table.insert(CHAIN@, seq![])
    } else {
        table
    }
}

/// Looking at the firewall and tagging an interface leave the table as it is.
pub proof fn law_other_commands_leave_the_table(table: Table, name: Seq<char>)
    ensures
        effect(table, hook_check()) == table,
        effect(table, table_list()) == table,
        effect(table, chain_list()) == table,
        effect(table, interface_tag(name)) == table,
{
    reveal_strlit("-S");
    reveal_strlit("-F");
    assert(chain_flush().args.len() == 4 && chain_flush().args[2] == "-F"@);
    assert(hook_check().args.len() == 6);
    assert(table_list().args.len() == 3);
    assert(chain_list().args[2] == "-S"@);
    assert("-S"@[1] == 'S' && "-F"@[1] == 'F');
    assert(interface_tag(name).args.len() == 6);
}

proof fn lemma_rule_line(rules: Rules, i: int)
    requires
        is_valid_name(rules.interface.name@),
        0 <= i < rules.rule_lines().len(),
    ensures
        is_addition(rules.rule_lines()[i]),
        !"-F "@.is_prefix_of(rules.rule_lines()[i]),
        words(rules.rule_lines()[i])[1] == CHAIN@,
{
    let line = rules.rule_lines()[i];
    let rule = rules.rule_words()[i];
    reveal_strlit("-A ");
    reveal_strlit("-F ");
    reveal_strlit("-A waycast-input -i");
    law_every_rule_is_scoped(rules, i);
    assert(line.subrange(0, 3) =~= "-A "@);
    if "-F "@.is_prefix_of(line) {
        assert(line.subrange(0, 3)[1] == "-F "@[1]);
    }
    lemma_rules_are_readable(rules, i);
    law_splitting_undoes_joining(rule);
    assert(rule[1] == rule.take(8)[1]);
}

proof fn lemma_lines_fill_the_chain(table: Table, rules: Rules, n: int)
    requires
        is_valid_name(rules.interface.name@),
        0 <= n <= rules.rule_lines().len(),
    ensures
        after_lines(table, seq!["-F waycast-input"@] + rules.rule_lines().take(n)) == table.insert(
            CHAIN@,
            rules.rule_lines().take(n),
        ),
    decreases n,
{
    let flush = seq!["-F waycast-input"@];
    let list = rules.rule_lines();
    let all = flush + list.take(n);
    if n == 0 {
        let line = "-F waycast-input"@;
        reveal_strlit("-F waycast-input");
        reveal_strlit("-F ");
        reveal_strlit("waycast-input");
        reveal_with_fuel(after_lines, 2);
        assert(all =~= flush);
        assert(flush.drop_last() =~= seq![]);
        assert(line.subrange(0, 3) =~= "-F "@);
        assert(line.skip(3) =~= CHAIN@);
        assert(list.take(0) =~= seq![]);
    } else {
        let line = list[n - 1];
        let before = list.take(n - 1);
        lemma_lines_fill_the_chain(table, rules, n - 1);
        lemma_rule_line(rules, n - 1);
        assert(all.drop_last() =~= flush + before);
        assert(all.last() == line);
        assert(list.take(n) =~= before.push(line));
        assert(table.insert(CHAIN@, before).insert(CHAIN@, before.push(line)) =~= table.insert(
            CHAIN@,
            before.push(line),
        ));
    }
}

/// The transaction for rules that may be rendered makes them the contents of the
/// dedicated chain, and leaves every other chain as it was.
pub proof fn law_transaction_replaces_the_chain(table: Table, rules: Rules)
    requires
        rules.refusal() is None,
    ensures
        effect(table, transaction_restore(script(rules.rule_lines()))) == table.insert(
            CHAIN@,
            rules.rule_lines(),
        ),
{
    let list = rules.rule_lines();
    let all = lines(script(list));
    law_transaction_holds_only_the_rules(rules);
    lemma_lines_fill_the_chain(table, rules, list.len() as int);
    assert(list.take(list.len() as int) =~= list);
    assert(all.subrange(1, all.len() - 1) =~= seq!["-F waycast-input"@] + list);
}

/// Whether an update ended well.
pub open spec fn has_succeeded(update: Apply) -> bool {
    update.phase matches ApplyPhase::Done { result } && result is Ok
}

/// The table and the update after a number of answers.
pub open spec fn updated(table: Table, rules: Rules, replies: Seq<HostReply>) -> (Table, Apply)
    decreases replies.len(),
{
    if replies.len() == 0 {
        (table, Apply { rules, phase: ApplyPhase::Observing })
    } else {
        let before = updated(table, rules, replies.drop_last());
        (
            after_work(before.0, before.1.pending(), replies.last()),
            before.1.after(replies.last()),
        )
    }
}

proof fn lemma_update_answer(table: Table, update: Apply, reply: HostReply)
    ensures
        after_work(table, update.pending(), reply) == (if update.phase is Restoring && has_succeeded(
            update.after(reply),
        ) && update.rules.refusal() is None {
            table.insert(CHAIN@, update.rules.rule_lines())
        } else {
            table
        }),
{
    law_other_commands_leave_the_table(table, seq![]);
    if update.phase is Restoring && update.rules.refusal() is None {
        law_transaction_replaces_the_chain(table, update.rules);
    }
}

/// An update that ends well leaves exactly its rules in the dedicated chain and
/// every other chain as it was; until then, and where it fails, it leaves the whole
/// table as it was.
pub proof fn law_update_replaces_the_chain(table: Table, rules: Rules, replies: Seq<HostReply>)
    ensures
        updated(table, rules, replies).1 == (Apply { rules, phase: ApplyPhase::Observing }).after_all(
            replies,
        ),
        updated(table, rules, replies).0 == (if has_succeeded(updated(table, rules, replies).1) {
            table.insert(CHAIN@, rules.rule_lines())
        } else {
            table
        }),
    decreases replies.len(),
{
    if replies.len() > 0 {
        let front = replies.drop_last();
        let before = updated(table, rules, front);
        law_update_replaces_the_chain(table, rules, front);
        law_update_looks_before_it_commits(rules, front);
        lemma_update_answer(before.0, before.1, replies.last());
    }
}

/// The table and the preparation after a number of answers.
pub open spec fn prepared(
    table: Table,
    radio: String,
    name: String,
    group_owner: bool,
    replies: Seq<HostReply>,
) -> (Table, Preparation)
    decreases replies.len(),
{
    if replies.len() == 0 {
        (table, Preparation::begun(radio, name, group_owner))
    } else {
        let before = prepared(table, radio, name, group_owner, replies.drop_last());
        (
            after_work(before.0, before.1.pending(), replies.last()),
            before.1.after(replies.last()),
        )
    }
}

/// A preparation that ends well leaves exactly its rules in the dedicated chain and
/// every other chain as it was; until then, and where it fails, it leaves the whole
/// table as it was.
pub proof fn law_preparation_fills_the_chain(
    table: Table,
    radio: String,
    name: String,
    group_owner: bool,
    replies: Seq<HostReply>,
)
    ensures
        prepared(table, radio, name, group_owner, replies).1 == Preparation::begun(
            radio,
            name,
            group_owner,
        ).after_all(replies),
        prepared(table, radio, name, group_owner, replies).0 == (match prepared(
            table,
            radio,
            name,
            group_owner,
            replies,
        ).1 {
            Preparation::Prepared { rules } => table.insert(CHAIN@, rules.rule_lines()),
            _ => table,
        }),
        prepared(table, radio, name, group_owner, replies).1 matches Preparation::Applying { update }
            ==> !(update.phase is Done) && (update.phase is Restoring ==> update.rules.refusal() is None),
    decreases replies.len(),
{
    if replies.len() > 0 {
        let before = prepared(table, radio, name, group_owner, replies.drop_last());
        law_preparation_fills_the_chain(table, radio, name, group_owner, replies.drop_last());
        if let Preparation::Tagging { interface, .. } = before.1 {
            law_other_commands_leave_the_table(before.0, interface.name@);
        }
        if let Preparation::Applying { update } = before.1 {
            lemma_update_answer(before.0, update, replies.last());
        }
    }
}

/// The table as a cleanup leaves it, and where the cleanup then is, given the
/// table's listing and commands that go through.
pub open spec fn cleaned(table: Table, listing: String, output: String) -> (Table, Cleanup) {
    let listed = Cleanup::Listing.after(HostReply::Ran { result: Ok(listing) });
    let reply = HostReply::Ran { result: Ok(output) };
    (
        after_work(
            after_work(table, Cleanup::Listing.pending(), HostReply::Ran { result: Ok(listing) }),
            listed.pending(),
            reply,
        ),
        listed.after(reply),
    )
}

/// Whether a listing tells truly whether the table has the dedicated chain.
pub open spec fn is_truthful(listing: String, table: Table) -> bool {
    has_chain(listing@) <==> table.contains_key(CHAIN@)
}

/// Given a truthful listing, a cleanup ends well, empties the dedicated chain, where
/// there is one, and leaves every other chain as it was.
pub proof fn law_cleanup_empties_the_chain(table: Table, listing: String, output: String)
    requires
        is_truthful(listing, table),
    ensures
        cleaned(table, listing, output) == (emptied(table), Cleanup::Done { result: Ok(()) }),
        elsewhere(emptied(table)) == elsewhere(table),
        is_empty(emptied(table)),
{
    law_other_commands_leave_the_table(table, seq![]);
    assert(elsewhere(emptied(table)) =~= elsewhere(table));
}

/// Given truthful listings, a second cleanup changes nothing more.
pub proof fn law_cleanup_is_idempotent(table: Table, first: String, second: String, output: String)
    requires
        is_truthful(first, table),
        is_truthful(second, cleaned(table, first, output).0),
    ensures
        cleaned(cleaned(table, first, output).0, second, output).0 == cleaned(table, first, output).0,
{
    law_cleanup_empties_the_chain(table, first, output);
    law_cleanup_empties_the_chain(emptied(table), second, output);
    assert(emptied(emptied(table)) =~= emptied(table));
}

} // verus!
