//! Workload restarts in the cluster.
use vstd::prelude::*;
use vstd::string::*;
use crate::command::{owned, str_views, views, CommandLine};

verus! {

pub open spec fn restart_args(namespace: Seq<char>, resource: Seq<char>) -> Seq<Seq<char>> {
    seq!["rollout"@, "restart"@, "-n"@, namespace, resource]
}

/// `kubectl rollout restart` of one resource.
pub fn restart_command(namespace: &str, resource: &str) -> (r: CommandLine)
    ensures
        r.program@ == "kubectl"@,
        views(r.args@) == restart_args(namespace@, resource@),
        r.env@.len() == 0,
{
    let words = vec!["rollout", "restart", "-n", namespace, resource];
    let args = owned(&words);
    assert(views(args@) =~= restart_args(namespace@, resource@)) by {
        assert(views(args@) == str_views(words@));
    }
    CommandLine { program: String::from_str("kubectl"), args, env: Vec::new() }
}

} // verus!
