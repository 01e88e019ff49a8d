use vstd::prelude::*;
use vstd::slice::slice_subrange;

use crate::parser::{parse_ports, port_spec, trim, trimmed, Args, InvalidPortSpec};

verus! {

/// How one connection attempt ended.
#[derive(Clone, Copy, Debug, PartialEq, Eq, Structural)]
pub enum PortStatus {
    /// The handshake completed.
    Open,
    /// The peer actively refused the connection.
    Refused,
    /// No answer before the deadline.
    TimedOut,
    /// Any other failure (unresolvable host, unreachable network, ...).
    Failed,
}

pub open spec fn status_text(s: PortStatus) -> Seq<char> {
    match s {
        PortStatus::Open => "open"@,
        PortStatus::Refused => "refused"@,
        PortStatus::TimedOut => "timed out"@,
        PortStatus::Failed => "failed"@,
    }
}

impl PortStatus {
    /// The word that reports this status.
    pub fn as_str(&self) -> (r: &'static str)
        ensures
            r@ == status_text(*self),
    {
        match self {
            PortStatus::Open => "open",
            PortStatus::Refused => "refused",
            PortStatus::TimedOut => "timed out",
            PortStatus::Failed => "failed",
        }
    }
}

/// The outcome of a scan of one port. Only open ports are recorded.
#[derive(Debug)]
pub struct ScanResult {
    pub port: u16,
    pub status: PortStatus,
    /// What the service answered to the probe request, if anything.
    pub banner: Option<String>,
}

pub open spec fn banner_view(b: Option<String>) -> Option<Seq<char>> {
    match b {
        Some(s) => Some(s@),
        None => None,
    }
}

/// The most bytes of a probe answer that are kept.
pub const BANNER_CAPACITY: usize = 1024;

/// How long the probe waits for an answer, in milliseconds; independent of the
/// connect timeout.
pub const PROBE_READ_TIMEOUT_MS: u64 = 1000;

/// The request sent to an open port when probing is enabled.
pub open spec fn probe_request_text(host: Seq<char>) -> Seq<char> {
    "GET / HTTP/1.1\r\nHost: "@ + host + "\r\nConnection: close\r\n\r\n"@
}

/// Builds the HTTP request that the probe sends to `host`.
pub fn probe_request(host: &str) -> (r: String)
    ensures
        r@ == probe_request_text(host@),
{
    let mut r = String::from_str("GET / HTTP/1.1\r\nHost: ");
    r.append(host);
    r.append("\r\nConnection: close\r\n\r\n");
    r
}

/// The text that `String::from_utf8_lossy` makes of the bytes `b`.
pub uninterp spec fn lossy_text(b: Seq<u8>) -> Seq<char>;

/// Relies on `String::from_utf8_lossy`: decodes UTF-8, replacing each invalid
/// sequence, and never fails; the text depends on the bytes alone.
#[verifier::external_body]
fn decode_lossy(b: &[u8]) -> (r: String)
    ensures
        r@ == lossy_text(b@),
{
    String::from_utf8_lossy(b).into_owned()
}

/// How the probe of an open connection ended.
pub enum ProbeOutcome {
    /// The request could not be sent.
    WriteFailed,
    /// Reading the answer failed.
    ReadFailed,
    /// No answer came within the read timeout.
    ReadTimedOut,
    /// These bytes were read (none when the peer closed at once).
    Received(Vec<u8>),
}

/// The banner that a probe outcome yields: the first `BANNER_CAPACITY` bytes
/// received, decoded; none when nothing was received.
pub open spec fn banner_of(o: ProbeOutcome) -> Option<Seq<char>> {
    match o {
        ProbeOutcome::Received(b) => if b@.len() > 0 {
            Some(
                lossy_text(
                    if b@.len() <= BANNER_CAPACITY {
                        b@
                    } else {
                        b@.take(BANNER_CAPACITY as int)
                    },
                ),
            )
        } else {
            None
        },
        _ => None,
    }
}

/// Turns what the probe got into a banner; every failure becomes "no banner".
pub fn banner_from_probe(outcome: ProbeOutcome) -> (r: Option<String>)
    ensures
        banner_view(r) == banner_of(outcome),
{
    match outcome {
        ProbeOutcome::Received(b) => {
            if b.len() == 0 {
                None
            } else if b.len() <= BANNER_CAPACITY {
                Some(decode_lossy(b.as_slice()))
            } else {
                let kept = slice_subrange(b.as_slice(), 0, BANNER_CAPACITY);
                Some(decode_lossy(kept))
            }
        },
        _ => None,
    }
}

/// What a scan task does next.
pub enum TaskStep {
    /// Send the probe request over the open connection and read the answer.
    Probe,
    /// The task is over; the result to record, if any.
    Done(Option<ScanResult>),
}

/// What `after_connect` decides for a connection attempt to `port` that
/// ended with `status`.
pub open spec fn is_connect_step(port: u16, status: PortStatus, probe_enabled: bool, r: TaskStep) -> bool {
    &&& status != PortStatus::Open ==> r is Done && r->Done_0 is None
    &&& status == PortStatus::Open && probe_enabled ==> r is Probe
    &&& status == PortStatus::Open && !probe_enabled ==> {
        &&& r is Done
        &&& r->Done_0 is Some
        &&& r->Done_0->0.port == port
        &&& r->Done_0->0.status == PortStatus::Open
        &&& r->Done_0->0.banner is None
    }
}

/// Decides what follows a connection attempt to `port`. A port that is not
/// open yields nothing to record; an open one is probed when probing is
/// enabled, and otherwise recorded as open with no banner.
pub fn after_connect(port: u16, status: PortStatus, probe_enabled: bool) -> (r: TaskStep)
    ensures
        is_connect_step(port, status, probe_enabled, r),
        !probe_enabled ==> r is Done && (r->Done_0 is Some ==> r->Done_0->0.banner is None),
{
    match status {
        PortStatus::Open => {
            if probe_enabled {
                TaskStep::Probe
            } else {
                TaskStep::Done(Some(ScanResult { port, status: PortStatus::Open, banner: None }))
            }
        },
        _ => TaskStep::Done(None),
    }
}

/// What `after_probe` yields for an open `port` whose probe ended with
/// `outcome`.
pub open spec fn is_probe_result(port: u16, outcome: ProbeOutcome, r: ScanResult) -> bool {
    &&& r.port == port
    &&& r.status == PortStatus::Open
    &&& banner_view(r.banner) == banner_of(outcome)
}

/// The result for an open `port` once the probe is over: open, whatever the
/// probe got, with the banner it yields.
pub fn after_probe(port: u16, outcome: ProbeOutcome) -> (r: ScanResult)
    ensures
        is_probe_result(port, outcome, r),
        r.banner is Some <==> (outcome is Received && outcome->Received_0@.len() > 0),
{
    let banner = banner_from_probe(outcome);
    ScanResult { port, status: PortStatus::Open, banner }
}

/// The results recorded from the task outcomes `outcomes`, in order: one for
/// each task that produced one.
pub open spec fn collected(outcomes: Seq<Option<ScanResult>>) -> Seq<ScanResult>
    decreases outcomes.len(),
{
    if outcomes.len() == 0 {
        Seq::empty()
    } else {
        let init = collected(outcomes.drop_last());
        match outcomes.last() {
            Some(r) => init.push(r),
            None => init,
        }
    }
}

/// A scan never yields more results than it ran tasks: whatever the tasks
/// report, the collection built from N task outcomes holds at most N results.
pub proof fn collected_at_most_tasks(outcomes: Seq<Option<ScanResult>>)
    ensures
        collected(outcomes).len() <= outcomes.len(),
    decreases outcomes.len(),
{
    if outcomes.len() > 0 {
        collected_at_most_tasks(outcomes.drop_last());
    }
}

/// A port that is not open adds nothing to the results: whatever the
/// earlier tasks reported, the task's step records no result.
pub proof fn unopened_port_records_nothing(
    outcomes: Seq<Option<ScanResult>>,
    port: u16,
    status: PortStatus,
    probe_enabled: bool,
    step: TaskStep,
)
    requires
        status != PortStatus::Open,
        is_connect_step(port, status, probe_enabled, step),
    ensures
        step is Done,
        collected(outcomes.push(step->Done_0)) == collected(outcomes),
{
    assert(outcomes.push(step->Done_0).drop_last() =~= outcomes);
}

/// An open port adds exactly one result to those of the earlier tasks, with
/// its port number and the status open, whether or not it is probed and
/// whatever the probe got.
pub proof fn open_port_records_one(
    outcomes: Seq<Option<ScanResult>>,
    port: u16,
    probe_enabled: bool,
    step: TaskStep,
    outcome: ProbeOutcome,
    probed: ScanResult,
)
    requires
        is_connect_step(port, PortStatus::Open, probe_enabled, step),
        step is Probe ==> is_probe_result(port, outcome, probed),
    ensures
        ({
            let r = if step is Probe {
                probed
            } else {
                step->Done_0->0
            };
            &&& step is Probe || step->Done_0 is Some
            &&& r.port == port
            &&& r.status == PortStatus::Open
            &&& collected(outcomes.push(Some(r))) == collected(outcomes).push(r)
        }),
{
    let r = if step is Probe {
        probed
    } else {
        step->Done_0->0
    };
    assert(outcomes.push(Some(r)).drop_last() =~= outcomes);
}

/// The shared state of one scan run: how many port tasks it has, and what the
/// finished ones have reported. The results are read only once every task has
/// finished.
pub struct ScanRun {
    total: usize,
    finished: usize,
    results: Vec<ScanResult>,
    outcomes: Ghost<Seq<Option<ScanResult>>>,
}

impl ScanRun {
    /// The number of port tasks of the run.
    pub closed spec fn spec_total(&self) -> nat {
        self.total as nat
    }

    /// What the finished tasks have reported, in the order they finished.
    pub closed spec fn spec_outcomes(&self) -> Seq<Option<ScanResult>> {
        self.outcomes@
    }

    /// The results collected so far.
    pub closed spec fn spec_results(&self) -> Seq<ScanResult> {
        self.results@
    }

    pub closed spec fn wf(&self) -> bool {
        &&& self.finished as nat == self.outcomes@.len()
        &&& self.finished <= self.total
        &&& self.results@ == collected(self.outcomes@)
    }

    /// A run of `total` tasks, none finished yet.
    pub fn new(total: usize) -> (r: ScanRun)
        ensures
            r.wf(),
            r.spec_total() == total,
            r.spec_outcomes() == Seq::<Option<ScanResult>>::empty(),
            r.spec_results() == Seq::<ScanResult>::empty(),
    {
        ScanRun { total, finished: 0, results: Vec::new(), outcomes: Ghost(Seq::empty()) }
    }

    /// The number of tasks that have finished.
    pub fn finished(&self) -> (r: usize)
        requires
            self.wf(),
        ensures
            r == self.spec_outcomes().len(),
    {
        self.finished
    }

    /// Whether every task has finished.
    pub fn is_complete(&self) -> (r: bool)
        requires
            self.wf(),
        ensures
            r == (self.spec_outcomes().len() == self.spec_total()),
    {
        self.finished == self.total
    }

    /// Records that one more task finished, with the result it produced, if
    /// any.
    pub fn record(&mut self, outcome: Option<ScanResult>)
        requires
            old(self).wf(),
            old(self).spec_outcomes().len() < old(self).spec_total(),
        ensures
            final(self).wf(),
            final(self).spec_total() == old(self).spec_total(),
            final(self).spec_outcomes() == old(self).spec_outcomes().push(outcome),
            final(self).spec_results() == collected(final(self).spec_outcomes()),
    {
        let ghost before = self.outcomes@;
        self.outcomes = Ghost(before.push(outcome));
        assert(self.outcomes@.drop_last() =~= before);
        match outcome {
            Some(r) => self.results.push(r),
            None => {},
        }
        self.finished = self.finished + 1;
    }

    /// The results of a finished run: one for each task that reported one.
    pub fn into_results(self) -> (r: Vec<ScanResult>)
        requires
            self.wf(),
            self.spec_outcomes().len() == self.spec_total(),
        ensures
            r@ == collected(self.spec_outcomes()),
            r@.len() <= self.spec_total(),
    {
        proof {
            collected_at_most_tasks(self.outcomes@);
        }
        self.results
    }
}

/// The decimal digits of `n`, most significant first, without leading zeros.
pub open spec fn decimal(n: nat) -> Seq<char>
    decreases n,
{
    if n < 10 {
        seq![(('0' as u32) + n) as char]
    } else {
        decimal(n / 10).push((('0' as u32) + n % 10) as char)
    }
}

/// Relies on `u16`'s `Display` (through `to_string`): plain decimal digits.
#[verifier::external_body]
fn decimal_string(n: u16) -> (r: String)
    ensures
        r@ == decimal(n as nat),
{
    n.to_string()
}

/// The report line of a result: `Port <n> <status>`, then ` - <banner>` when
/// there is a banner.
pub open spec fn report_text(r: ScanResult) -> Seq<char> {
    "Port "@ + decimal(r.port as nat) + " "@ + status_text(r.status) + match r.banner {
        Some(b) => " - "@ + b@,
        None => Seq::empty(),
    }
}

impl ScanResult {
    /// The line that reports this result.
    pub fn report_line(&self) -> (r: String)
        ensures
            r@ == report_text(*self),
    {
        let mut line = String::from_str("Port ");
        let digits = decimal_string(self.port);
        line.append(digits.as_str());
        line.append(" ");
        line.append(self.status.as_str());
        match &self.banner {
            Some(b) => {
                line.append(" - ");
                line.append(b.as_str());
            },
            None => {},
        }
        line
    }
}

/// Why a scan cannot start.
pub enum ScanError {
    /// The port specification is malformed.
    InvalidPortSpec(InvalidPortSpec),
    /// The run was given no worker to scan with.
    NoWorkers,
}

/// A run that is ready to start: everything the tasks need, checked.
pub struct ScanPlan {
    /// The host, without surrounding whitespace.
    pub target: String,
    /// One task per entry, in this order.
    pub ports: Vec<u16>,
    /// How many tasks run at once; at least one.
    pub workers: usize,
    /// The connect timeout, in milliseconds.
    pub timeout_ms: u64,
    pub probe: bool,
}

/// Checks the settings of a run and prepares it: the port specification is
/// expanded (a malformed one stops the run before any task), the target
/// trimmed, and at least one worker asked for.
pub fn plan_scan(args: &Args) -> (r: Result<ScanPlan, ScanError>)
    ensures
        match port_spec(args.port_range@) {
            Err(t) => r is Err && r->Err_0 is InvalidPortSpec && r->Err_0->InvalidPortSpec_0.token@
                == t,
            Ok(ps) => if args.threads == 0 {
                r is Err && r->Err_0 is NoWorkers
            } else {
                &&& r is Ok
                &&& r->Ok_0.target@ == trim(args.target@)
                &&& r->Ok_0.ports@ == ps
                &&& r->Ok_0.workers == args.threads
                &&& r->Ok_0.timeout_ms == args.timeout
                &&& r->Ok_0.probe == args.probe
            },
        },
{
    let ports = match parse_ports(args.port_range.as_str()) {
        Ok(ports) => ports,
        Err(e) => return Err(ScanError::InvalidPortSpec(e)),
    };
    if args.threads == 0 {
        return Err(ScanError::NoWorkers);
    }
    let target = trimmed(args.target.as_str());
    Ok(ScanPlan { target, ports, workers: args.threads, timeout_ms: args.timeout, probe: args.probe })
}

} // verus!
