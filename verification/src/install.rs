//! Partitioning a tool list by whether each tool resolves on the current
//! search path. Resolution itself is the environment's; the partition is
//! verified against whatever verdicts the environment returns.

use vstd::prelude::*;

verus! {

/// The tools whose flag equals `keep`, in source order.
pub open spec fn kept_by_flags(tools: Seq<Seq<char>>, flags: Seq<bool>, keep: bool) -> Seq<
    Seq<char>,
>
    recommends
        tools.len() == flags.len(),
    decreases tools.len(),
{
    if tools.len() == 0 {
        Seq::empty()
    } else {
        let rest = kept_by_flags(tools.drop_last(), flags.drop_last(), keep);
        if flags.last() == keep {
            rest.push(tools.last())
        } else {
            rest
        }
    }
}

/// Relies on which::which: whether a name resolves to an executable on the
/// environment's search path. The verdict depends on the machine and the
/// moment, so nothing is promised of it; any resolution fault counts as
/// "not installed".
#[verifier::external_body]
fn exists_on_path(tool: &str) -> bool {
    match which::which(tool) {
        Ok(_) => true,
        Err(_) => false,
    }
}

/// Splits the tools by their flags: first the tools flagged true, then the
/// tools flagged false, each side in source order.
pub fn partition_by_flags(tools: &Vec<String>, flags: &Vec<bool>) -> (r: (Vec<String>, Vec<
    String,
>))
    requires
        tools@.len() == flags@.len(),
    ensures
        r.0.deep_view() == kept_by_flags(tools.deep_view(), flags@, true),
        r.1.deep_view() == kept_by_flags(tools.deep_view(), flags@, false),
{
    let mut kept: Vec<String> = Vec::new();
    let mut dropped: Vec<String> = Vec::new();
    let n = tools.len();
    proof {
        assert(tools.deep_view().take(0) =~= Seq::<Seq<char>>::empty());
        assert(flags@.take(0) =~= Seq::<bool>::empty());
        assert(kept.deep_view() =~= Seq::<Seq<char>>::empty());
        assert(dropped.deep_view() =~= Seq::<Seq<char>>::empty());
    }
    for i in 0..n
        invariant
            n == tools@.len() == flags@.len(),
            kept.deep_view() == kept_by_flags(
                tools.deep_view().take(i as int),
                flags@.take(i as int),
                true,
            ),
            dropped.deep_view() == kept_by_flags(
                tools.deep_view().take(i as int),
                flags@.take(i as int),
                false,
            ),
    {
        proof {
            assert(tools.deep_view().take(i as int + 1).drop_last() =~= tools.deep_view().take(
                i as int,
            ));
            assert(flags@.take(i as int + 1).drop_last() =~= flags@.take(i as int));
            assert(tools.deep_view().take(i as int + 1).last() == tools.deep_view()[i as int]);
        }
        if flags[i] {
            kept.push(tools[i].clone());
            proof {
                assert(kept.deep_view() =~= kept_by_flags(
                    tools.deep_view().take(i as int + 1),
                    flags@.take(i as int + 1),
                    true,
                ));
            }
        } else {
            dropped.push(tools[i].clone());
            proof {
                assert(dropped.deep_view() =~= kept_by_flags(
                    tools.deep_view().take(i as int + 1),
                    flags@.take(i as int + 1),
                    false,
                ));
            }
        }
    }
    proof {
        assert(tools.deep_view().take(n as int) =~= tools.deep_view());
        assert(flags@.take(n as int) =~= flags@);
    }
    (kept, dropped)
}

/// Splits an action's tools into (installed, not installed), each side in
/// source order. Which side a tool lands on is the environment's verdict at
/// the moment of the call: the contract promises only that one sequence of
/// per-tool verdicts governs both sides.
pub fn system_tools(tools: &Vec<String>) -> (r: (Vec<String>, Vec<String>))
    ensures
        exists|flags: Seq<bool>|
            flags.len() == tools@.len() && r.0.deep_view() == kept_by_flags(
                tools.deep_view(),
                flags,
                true,
            ) && r.1.deep_view() == kept_by_flags(tools.deep_view(), flags, false),
{
    let mut flags: Vec<bool> = Vec::new();
    let n = tools.len();
    for i in 0..n
        invariant
            n == tools@.len(),
            flags@.len() == i,
    {
        flags.push(exists_on_path(tools[i].as_str()));
    }
    let r = partition_by_flags(tools, &flags);
    proof {
        assert(flags@.len() == tools@.len() && r.0.deep_view() == kept_by_flags(
            tools.deep_view(),
            flags@,
            true,
        ) && r.1.deep_view() == kept_by_flags(tools.deep_view(), flags@, false));
    }
    r
}

} // verus!
