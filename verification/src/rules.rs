//! The rules of one category: what a list of allowed and a list of denied
//! items become in the text of a profile.

use crate::text::{
    lemma_single_wrapped, lemma_wrapped_item_occurs, occurs_at, wrapped, wrapped_start,
};
use vstd::prelude::*;
use vstd::string::*;

verus! {

/// The statement that denies `access` below `path`.
pub open spec fn deny_subpath(access: Seq<char>, path: Seq<char>) -> Seq<char> {
    "(deny "@ + access + " (subpath \""@ + path + "\"))\n"@
}

/// The clause of an allow block that names `path`.
pub open spec fn subpath_clause(path: Seq<char>) -> Seq<char> {
    "    (subpath \""@ + path + "\")\n"@
}

/// The statement that denies running `program`.
pub open spec fn deny_literal(program: Seq<char>) -> Seq<char> {
    "(deny process-exec (literal \""@ + program + "\"))\n"@
}

/// The clause of an allow block that names `program`.
pub open spec fn literal_clause(program: Seq<char>) -> Seq<char> {
    "    (literal \""@ + program + "\")\n"@
}

/// An allow block: `head`, one clause per allowed item, and the closing line.
/// With nothing allowed there is no block.
pub open spec fn allow_block(
    allow: Seq<Seq<char>>,
    head: Seq<char>,
    clause_before: Seq<char>,
    clause_after: Seq<char>,
) -> Seq<char> {
    if allow.len() == 0 {
        Seq::empty()
    } else {
        head + wrapped(allow, clause_before, clause_after) + ")\n"@
    }
}

/// The allow block of the file category `access`.
pub open spec fn file_allow_block(access: Seq<char>, allow: Seq<Seq<char>>) -> Seq<char> {
    allow_block(allow, "(allow "@ + access + ")\n"@, "    (subpath \""@, "\")\n"@)
}

/// The deny statements of the file category `access`, one per path, in order.
pub open spec fn file_deny_statements(access: Seq<char>, deny: Seq<Seq<char>>) -> Seq<char> {
    wrapped(deny, "(deny "@ + access + " (subpath \""@, "\"))\n"@)
}

/// The rules of the file category `access`: a deny statement for each denied
/// path, then the allow block.
pub open spec fn file_rules(access: Seq<char>, allow: Seq<Seq<char>>, deny: Seq<Seq<char>>) -> Seq<
    char,
> {
    file_deny_statements(access, deny) + file_allow_block(access, allow)
}

/// The allow block of the execution category.
pub open spec fn run_allow_block(allow: Seq<Seq<char>>) -> Seq<char> {
    allow_block(allow, "(allow process-exec\n"@, "    (literal \""@, "\")\n"@)
}

/// The deny statements of the execution category, one per program, in order.
pub open spec fn run_deny_statements(deny: Seq<Seq<char>>) -> Seq<char> {
    wrapped(deny, "(deny process-exec (literal \""@, "\"))\n"@)
}

/// The rules of the execution category: a deny statement for each denied
/// program, then the allow block.
pub open spec fn run_rules(allow: Seq<Seq<char>>, deny: Seq<Seq<char>>) -> Seq<char> {
    run_deny_statements(deny) + run_allow_block(allow)
}

/// The rule of the network category: one statement where the network is
/// allowed, nothing where it is not.
pub open spec fn network_rule(allow_net: bool) -> Seq<char> {
    if allow_net {
        "(allow network*)\n"@
    } else {
        Seq::empty()
    }
}

/// Appends each item of `items`, set between `before` and `after`, to `out`.
fn push_wrapped(out: &mut String, items: &[String], before: &str, after: &str)
    ensures
        final(out)@ == old(out)@ + wrapped(items.deep_view(), before@, after@),
{
    let ghost texts = items.deep_view();
    let mut i: usize = 0;
    while i < items.len()
        invariant
            i <= items.len(),
            texts == items.deep_view(),
            out@ == old(out)@ + wrapped(texts.take(i as int), before@, after@),
        decreases items.len() - i,
    {
        out.append(before);
        out.append(items[i].as_str());
        out.append(after);
        assert(texts.take(i + 1).drop_last() =~= texts.take(i as int));
        i += 1;
    }
    assert(texts.take(i as int) =~= texts);
}

/// The rules of one file category. `access_type` is the category's name in the
/// profile (`file-read*`, `file-write*`); the paths stand in the text as they
/// are given, without escaping.
pub fn generate_file_permissions(
    access_type: &str,
    allow_paths: &[String],
    deny_paths: &[String],
) -> (statement: String)
    ensures
        statement@ == file_rules(access_type@, allow_paths.deep_view(), deny_paths.deep_view()),
{
    let mut statement = String::new();

    let mut deny_start = String::from_str("(deny ");
    deny_start.append(access_type);
    deny_start.append(" (subpath \"");
    push_wrapped(&mut statement, deny_paths, deny_start.as_str(), "\"))\n");

    if allow_paths.len() > 0 {
        statement.append("(allow ");
        statement.append(access_type);
        statement.append(")\n");
        push_wrapped(&mut statement, allow_paths, "    (subpath \"", "\")\n");
        statement.append(")\n");
    }

    statement
}

/// The rule of the network category.
pub fn generate_network_permissions(allow_net: bool) -> (statement: String)
    ensures
        statement@ == network_rule(allow_net),
{
    let mut statement = String::new();

    if allow_net {
        statement.append("(allow network*)\n");
    }

    statement
}

/// The rules of the execution category; the programs stand in the text as they
/// are given, without escaping.
pub fn generate_run_permissions(allow_progs: &[String], deny_progs: &[String]) -> (statement:
    String)
    ensures
        statement@ == run_rules(allow_progs.deep_view(), deny_progs.deep_view()),
{
    let mut statement = String::new();

    push_wrapped(&mut statement, deny_progs, "(deny process-exec (literal \"", "\"))\n");

    if allow_progs.len() > 0 {
        statement.append("(allow process-exec\n");
        push_wrapped(&mut statement, allow_progs, "    (literal \"", "\")\n");
        statement.append(")\n");
    }

    statement
}

/// With no path allowed, the rules of a file category are its deny statements
/// and nothing more: no allow block is written. For a single denied path they
/// are that path's deny statement; with no path denied either, they are empty.
pub proof fn lemma_file_rules_without_allow(access: Seq<char>, deny: Seq<Seq<char>>)
    ensures
        file_rules(access, Seq::empty(), deny) == file_deny_statements(access, deny),
        deny.len() == 1 ==> file_rules(access, Seq::empty(), deny) == deny_subpath(access, deny[0]),
        deny.len() == 0 ==> file_rules(access, Seq::empty(), deny) == Seq::<char>::empty(),
{
    if deny.len() == 1 {
        lemma_single_wrapped(deny, "(deny "@ + access + " (subpath \""@, "\"))\n"@);
    }
}

/// With no program allowed, the rules of the execution category are its deny
/// statements and nothing more: no allow block is written. For a single denied
/// program they are that program's deny statement; with no program denied
/// either, they are empty.
pub proof fn lemma_run_rules_without_allow(deny: Seq<Seq<char>>)
    ensures
        run_rules(Seq::empty(), deny) == run_deny_statements(deny),
        deny.len() == 1 ==> run_rules(Seq::empty(), deny) == deny_literal(deny[0]),
        deny.len() == 0 ==> run_rules(Seq::empty(), deny) == Seq::<char>::empty(),
{
    if deny.len() == 1 {
        lemma_single_wrapped(deny, "(deny process-exec (literal \""@, "\"))\n"@);
    }
}

/// Where a path is allowed, the deny statement of every denied path stands in
/// the rules of a file category, and the allow block stands behind them all.
pub proof fn lemma_file_rules_deny_before_allow(
    access: Seq<char>,
    allow: Seq<Seq<char>>,
    deny: Seq<Seq<char>>,
    k: int,
)
    requires
        allow.len() > 0,
        0 <= k < deny.len(),
    ensures
        ({
            let rules = file_rules(access, allow, deny);
            let statement = deny_subpath(access, deny[k]);
            let at = wrapped_start(deny, "(deny "@ + access + " (subpath \""@, "\"))\n"@, k);
            let block_at = file_deny_statements(access, deny).len() as int;
            &&& occurs_at(rules, statement, at)
            &&& at + statement.len() <= block_at
            &&& occurs_at(rules, file_allow_block(access, allow), block_at)
            &&& file_allow_block(access, allow).len() > 0
        }),
{
    let before = "(deny "@ + access + " (subpath \""@;
    let after = "\"))\n"@;
    let denied = file_deny_statements(access, deny);
    let block = file_allow_block(access, allow);
    let rules = file_rules(access, allow, deny);
    let statement = deny_subpath(access, deny[k]);
    let at = wrapped_start(deny, before, after, k);
    lemma_wrapped_item_occurs(deny, before, after, k);
    assert(rules.subrange(at, at + statement.len()) =~= denied.subrange(at, at + statement.len()));
    assert(rules.subrange(denied.len() as int, (denied.len() + block.len()) as int) =~= block);
    lemma_closing_line_len();
}

/// Where a program is allowed, the deny statement of every denied program
/// stands in the rules of the execution category, and the allow block stands
/// behind them all.
pub proof fn lemma_run_rules_deny_before_allow(allow: Seq<Seq<char>>, deny: Seq<Seq<char>>, k: int)
    requires
        allow.len() > 0,
        0 <= k < deny.len(),
    ensures
        ({
            let rules = run_rules(allow, deny);
            let statement = deny_literal(deny[k]);
            let at = wrapped_start(deny, "(deny process-exec (literal \""@, "\"))\n"@, k);
            let block_at = run_deny_statements(deny).len() as int;
            &&& occurs_at(rules, statement, at)
            &&& at + statement.len() <= block_at
            &&& occurs_at(rules, run_allow_block(allow), block_at)
            &&& run_allow_block(allow).len() > 0
        }),
{
    let before = "(deny process-exec (literal \""@;
    let after = "\"))\n"@;
    let denied = run_deny_statements(deny);
    let block = run_allow_block(allow);
    let rules = run_rules(allow, deny);
    let statement = deny_literal(deny[k]);
    let at = wrapped_start(deny, before, after, k);
    lemma_wrapped_item_occurs(deny, before, after, k);
    assert(rules.subrange(at, at + statement.len()) =~= denied.subrange(at, at + statement.len()));
    assert(rules.subrange(denied.len() as int, (denied.len() + block.len()) as int) =~= block);
    lemma_closing_line_len();
}

/// With one path allowed and one denied, the rules of a file category are the
/// deny statement followed by the allow block with its one clause.
pub proof fn lemma_file_rules_one_each(access: Seq<char>, allowed: Seq<char>, denied: Seq<char>)
    ensures
        file_rules(access, seq![allowed], seq![denied]) == deny_subpath(access, denied)
            + file_allow_block(access, seq![allowed]),
        file_allow_block(access, seq![allowed]) == "(allow "@ + access + ")\n"@ + subpath_clause(
            allowed,
        ) + ")\n"@,
{
    lemma_single_wrapped(seq![denied], "(deny "@ + access + " (subpath \""@, "\"))\n"@);
    lemma_single_wrapped(seq![allowed], "    (subpath \""@, "\")\n"@);
}

/// With one program allowed and one denied, the rules of the execution
/// category are the deny statement followed by the allow block with its one
/// clause.
pub proof fn lemma_run_rules_one_each(allowed: Seq<char>, denied: Seq<char>)
    ensures
        run_rules(seq![allowed], seq![denied]) == deny_literal(denied) + run_allow_block(
            seq![allowed],
        ),
        run_allow_block(seq![allowed]) == "(allow process-exec\n"@ + literal_clause(allowed)
            + ")\n"@,
{
    lemma_single_wrapped(seq![denied], "(deny process-exec (literal \""@, "\"))\n"@);
    lemma_single_wrapped(seq![allowed], "    (literal \""@, "\")\n"@);
}

/// The line that closes an allow block has two characters.
proof fn lemma_closing_line_len()
    ensures
        ")\n"@.len() == 2,
{
    reveal_strlit(")\n");
}

} // verus!
