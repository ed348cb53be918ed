//! Command lines: the commands that one line of input asks for.

use vstd::prelude::*;
use crate::error::ShellError;
use crate::lexer::{parse_args, tokens};
use crate::scan::{law_runs_concat, law_runs_shape, lemma_prefix_len, runs};
use crate::shell_command::{classify, parallel_op, CommandView, ShellCommand};
use crate::text::{copy_range, reads};

verus! {

/// The tokens that belong to a command: all but `&`.
pub open spec fn command_tokens() -> spec_fn(Seq<char>) -> bool {
    |token: Seq<char>| token != parallel_op()
}

/// The groups of a token sequence: its maximal runs of tokens other than `&`, in order.
///
/// A `&` only separates groups; no group is empty.
pub open spec fn groups(tokens: Seq<Seq<char>>) -> Seq<Seq<Seq<char>>> {
    runs(tokens, command_tokens())
}

/// The commands that a sequence of groups stands for; one malformed group spoils them all.
pub open spec fn classify_all(groups: Seq<Seq<Seq<char>>>) -> Result<Seq<CommandView>, ShellError> {
    if forall|i: int| 0 <= i < groups.len() ==> (#[trigger] classify(groups[i])) is Ok {
        Ok(Seq::new(groups.len(), |i: int| classify(groups[i])->Ok_0))
    } else {
        Err(ShellError::Parse)
    }
}

/// The commands that a line asks for.
pub open spec fn commands(line: Seq<char>) -> Result<Seq<CommandView>, ShellError> {
    classify_all(groups(tokens(line)))
}

/// Whether `token` is the `&` that separates two groups.
fn separates(token: &String) -> (amp: bool)
    ensures
        amp == (token@ == parallel_op()),
{
    proof {
        reveal_strlit("&");
        assert("&"@ =~= parallel_op());
    }
    reads(token, "&")
}

/// Splits a token sequence into its groups.
pub fn split_groups(tokens: &Vec<String>) -> (out: Vec<Vec<String>>)
    ensures
        out.deep_view() == groups(tokens.deep_view()),
        forall|k: int| 0 <= k < out.len() ==> (#[trigger] out[k]).len() > 0,
{
    let ghost all = tokens.deep_view();
    let n = tokens.len();
    let mut out: Vec<Vec<String>> = Vec::new();
    let mut i: usize = 0;
    assert(all.skip(0) =~= all);
    while i < n
        invariant
            all == tokens.deep_view(),
            n == tokens.len(),
            i <= n,
            out.deep_view() + groups(all.skip(i as int)) == groups(all),
            forall|k: int| 0 <= k < out.len() ==> (#[trigger] out[k]).len() > 0,
        decreases n - i,
    {
        let ghost rest = all.skip(i as int);
        if separates(&tokens[i]) {
            i += 1;
            assert(rest.skip(1) =~= all.skip(i as int));
        } else {
            let start = i;
            i += 1;
            while i < n && !separates(&tokens[i])
                invariant
                    all == tokens.deep_view(),
                    n == tokens.len(),
                    start < i <= n,
                    forall|k: int| start <= k < i ==> #[trigger] all[k] != parallel_op(),
                decreases n - i,
            {
                i += 1;
            }
            proof {
                lemma_prefix_len(rest, command_tokens());
            }
            let group = copy_range(tokens, start, i);
            proof {
                assert(group.deep_view() =~= rest.take(i - start));
                assert(rest.skip(i - start) =~= all.skip(i as int));
            }
            out.push(group);
        }
    }
    out
}

/// Parses a line into the commands it asks for.
///
/// A line without tokens asks for nothing. A line with one malformed group is refused whole.
pub fn parse_line(line: &str) -> (r: Result<Vec<ShellCommand>, ShellError>)
    ensures
        match r {
            Ok(list) => commands(line@) == Ok::<Seq<CommandView>, ShellError>(list.deep_view()),
            Err(e) => commands(line@) == Err::<Seq<CommandView>, ShellError>(e),
        },
        r matches Ok(list) ==> forall|k: int| 0 <= k < list.len() ==> (#[trigger] list[k])@.wf(),
{
    let args = parse_args(line);
    let pending = split_groups(&args);
    let ghost all = pending.deep_view();
    let mut list: Vec<ShellCommand> = Vec::new();
    for group in it: pending
        invariant
            it.seq() == pending@,
            all == pending.deep_view(),
            all == groups(tokens(line@)),
            forall|k: int| 0 <= k < pending.len() ==> (#[trigger] pending[k]).len() > 0,
            list.len() == it.index(),
            forall|k: int|
                0 <= k < list.len() ==> classify(all[k]) == Ok::<CommandView, ShellError>(
                    (#[trigger] list[k])@,
                ),
            forall|k: int| 0 <= k < list.len() ==> (#[trigger] list[k])@.wf(),
    {
        assert(group.deep_view() == all[it.index() as int]);
        match ShellCommand::try_from(group) {
            Ok(command) => {
                list.push(command);
            },
            Err(e) => {
                return Err(e);
            },
        }
    }
    proof {
        assert forall|k: int| 0 <= k < all.len() implies (#[trigger] classify(all[k])) is Ok by {
            assert(classify(all[k]) == Ok::<CommandView, ShellError>(list[k]@));
        }
        assert(list.deep_view() =~= Seq::new(all.len(), |i: int| classify(all[i])->Ok_0));
    }
    Ok(list)
}

/// Every group holds at least one token, and no `&`.
pub proof fn law_groups_shape(tokens: Seq<Seq<char>>)
    ensures
        forall|k: int|
            0 <= k < groups(tokens).len() ==> {
                let group = #[trigger] groups(tokens)[k];
                group.len() > 0 && !group.contains(parallel_op())
            },
{
    law_runs_shape(tokens, command_tokens());
}

/// A `&` separates what stands before it from what stands after it: the groups of the whole
/// are the groups of the two sides, one after the other.
pub proof fn law_groups_split(left: Seq<Seq<char>>, right: Seq<Seq<char>>)
    ensures
        groups(left + seq![parallel_op()] + right) == groups(left) + groups(right),
{
    let amp = seq![parallel_op()];
    law_runs_concat(left, amp, command_tokens());
    law_runs_concat(left + amp, right, command_tokens());
    assert(runs(amp.skip(1), command_tokens()) =~= Seq::<Seq<Seq<char>>>::empty());
}

/// One malformed group spoils the line: none of its commands is handed out.
pub proof fn law_malformed_group_spoils_line(line: Seq<char>, k: int)
    requires
        0 <= k < groups(tokens(line)).len(),
        classify(groups(tokens(line))[k]) is Err,
    ensures
        commands(line) == Err::<Seq<CommandView>, ShellError>(ShellError::Parse),
{
}

} // verus!
