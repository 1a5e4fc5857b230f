//! Fleet layer: one outcome per configured host, in configuration
//! order, each produced from that host's own session result alone.
//! The concurrent fan-out itself is the caller's; this module fixes
//! what the aggregate must look like.

use vstd::prelude::*;
use vstd::string::StringExecFns;

use crate::session::SessionError;

verus! {

/// A named IPv4 target to probe, as configuration resolved it. The
/// address is held as its four dotted-quad bytes.
pub struct HostDescriptor {
    pub name: String,
    pub addr: [u8; 4],
}

/// One host's result for one run: success, or a failure with a
/// diagnostic message; the message is empty exactly on success.
pub struct PingOutcome {
    pub name: String,
    pub addr: [u8; 4],
    pub success: bool,
    pub message: String,
}

/// The diagnostic a failed session yields.
pub open spec fn failure_message(e: SessionError) -> Seq<char> {
    "Connection failed: "@ + match e {
        SessionError::Internal => "internal encoding error"@,
        SessionError::Transport(m) => m@,
        SessionError::Timeout => "timeout"@,
    }
}

/// How an outcome must relate to the host it describes and the
/// session result it came from.
pub open spec fn outcome_matches(h: HostDescriptor, r: Result<(), SessionError>, o: PingOutcome) -> bool {
    &&& o.name@ == h.name@
    &&& o.addr@ == h.addr@
    &&& o.success == (r is Ok)
    &&& (r is Ok ==> o.message@ == Seq::<char>::empty())
    &&& (r matches Err(e) ==> o.message@ == failure_message(e))
}

/// Turns one host's session result into its outcome: the host's
/// identity is kept, success leaves the message empty, and a failure
/// carries its diagnostic.
pub fn outcome_of(host: HostDescriptor, res: Result<(), SessionError>) -> (o: PingOutcome)
    ensures
        outcome_matches(host, res, o),
{
    match res {
        Ok(()) => PingOutcome {
            name: host.name,
            addr: host.addr,
            success: true,
            message: String::new(),
        },
        Err(e) => {
            let mut m = String::from_str("Connection failed: ");
            match &e {
                SessionError::Internal => m.append("internal encoding error"),
                SessionError::Transport(d) => m.append(d.as_str()),
                SessionError::Timeout => m.append("timeout"),
            }
            PingOutcome { name: host.name, addr: host.addr, success: false, message: m }
        },
    }
}

/// The fleet's aggregation: exactly one outcome per configured host,
/// in the original configuration order, each outcome depending on its
/// own host's result alone. One host's failure therefore cannot
/// change any other host's entry.
pub fn collect_outcomes(hosts: Vec<HostDescriptor>, results: Vec<Result<(), SessionError>>) -> (out: Vec<
    PingOutcome,
>)
    requires
        hosts@.len() == results@.len(),
    ensures
        out@.len() == hosts@.len(),
        forall|i: int| 0 <= i < out@.len() ==> outcome_matches(hosts@[i], results@[i], #[trigger] out@[i]),
{
    let ghost hosts0 = hosts@;
    let ghost results0 = results@;
    let ghost n: int = hosts@.len() as int;
    let mut hosts = hosts;
    let mut results = results;
    let mut reversed: Vec<PingOutcome> = Vec::new();
    while hosts.len() > 0
        invariant
            hosts@.len() == results@.len(),
            hosts@.len() + reversed@.len() == n,
            hosts0.len() == n,
            results0.len() == n,
            hosts@ == hosts0.take(hosts@.len() as int),
            results@ == results0.take(results@.len() as int),
            forall|j: int| 0 <= j < reversed@.len()
                ==> outcome_matches(hosts0[n - 1 - j], results0[n - 1 - j], #[trigger] reversed@[j]),
        decreases hosts@.len(),
    {
        let ghost len: int = hosts@.len() as int;
        let h = hosts.pop().unwrap();
        let r = results.pop().unwrap();
        proof {
            assert(h == hosts0[len - 1]);
            assert(r == results0[len - 1]);
            assert(hosts0.take(len).drop_last() =~= hosts0.take(len - 1));
            assert(results0.take(len).drop_last() =~= results0.take(len - 1));
        }
        reversed.push(outcome_of(h, r));
    }
    let mut out: Vec<PingOutcome> = Vec::new();
    while reversed.len() > 0
        invariant
            out@.len() + reversed@.len() == n,
            hosts0.len() == n,
            results0.len() == n,
            forall|j: int| 0 <= j < reversed@.len()
                ==> outcome_matches(hosts0[n - 1 - j], results0[n - 1 - j], #[trigger] reversed@[j]),
            forall|i: int| 0 <= i < out@.len()
                ==> outcome_matches(hosts0[i], results0[i], #[trigger] out@[i]),
        decreases reversed@.len(),
    {
        let o = reversed.pop().unwrap();
        out.push(o);
    }
    out
}

} // verus!
