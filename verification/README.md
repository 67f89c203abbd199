# aws_net_hound

Audits the network of an AWS account: it collects security groups, network
ACLs, route tables, interfaces and peering connections, writes them to a graph,
and judges which interfaces can reach a regulated boundary. The library holds
the logic and is verified with Verus; the program around it does the talking to
AWS, Neo4j and Docker.

## Layout

- `src/domain`: rules, findings and the order of network ACL rules.
- `src/evaluate`: matching traffic against rules, the verdicts of security
  groups and network ACLs, judging a path over its four layers, and reading
  path candidates out of graph rows.
- `src/ingest`: from the answers of the EC2 API to a graph, with a report of
  what was left out.
- `src/graph`: property maps, records and edges, and the statements that write
  them.
- `src/migrations`: which schema migrations to apply, from which statements,
  and when a version counts as applied.
- `src/audit`: commands, configuration, preflight check, failed AWS calls, the
  stages of a run and its exit code.
- `src/progress.rs`: doing things one after the other until one fails.
- `src/net.rs`, `src/calendar.rs`, `src/text.rs`: addresses, dates, text.
- `tests`: tests of the library.
- `app`: the `audit-local` program.

## What is proved

The public functions state what they return or change; the one reading of the
clock is stated as far as it can be. Beyond that, the functions named `law_...`
state what holds of the library as a whole, among other things:

- the lowest-numbered network ACL rule that matches decides, in whatever order
  rules are given;
- a security group denies only where no rule allows and none is unresolved, and
  an unresolved reference is never read as a denial;
- a path is reachable exactly where every layer allows it, and an audit is
  clean exactly where every path is known not to be reachable;
- rules read back from the graph are the rules that were written;
- no collected resource vanishes without a warning, none fails the run, and
  every edge is written once, after all nodes; no edge needs a security group
  that was left out, and no interface is judged without one of its groups;
- the first stage, write or migration that fails is the last that is done, and
  its failure is what is reported;
- a migration is recorded only after its statements were committed, and a second
  run applies nothing.

What is taken on trust is listed where it stands: `text.rs` (`String::push` and
the quoting of text), `calendar.rs` (the clock), `audit/config.rs` (upper-case
letters), `audit/preflight.rs` (the whole seconds of a duration and its text) and
`audit/aws_error.rs` (the chain of causes of an error). Paths and the errors of
drivers and SDKs are carried along as they are.
