//! `herdr remote-resume`: what is pending, and taking it up again.

use vstd::prelude::*;
use vstd::string::*;

use super::{Parsed, Verdict};
use crate::api::schema::common::{Method, Request};
use crate::api::schema::peers::RemoteResumeParams;
use crate::json::{self, Json};
use crate::remote_resume::{self, PeerGroup, ResumeRecord};
use crate::text;

verus! {

pub open spec fn usage() -> Seq<char> {
    "usage: herdr remote-resume [--list] [--peer PEER_ID]"@
}

/// What `remote-resume` was asked for.
pub struct ResumeOptions {
    pub list_only: bool,
    pub peer_id: Option<String>,
}

pub open spec fn complaint<T>(message: Seq<char>) -> Verdict<T> {
    Verdict::Exit(2, seq![message, usage()])
}

/// The options from the `i`-th argument on; each may be given once.
pub open spec fn resume_options(
    args: Seq<String>,
    i: int,
    list_only: bool,
    peer_id: Option<Seq<char>>,
) -> Verdict<(bool, Option<Seq<char>>)>
    decreases args.len() - i,
{
    if i >= args.len() {
        Verdict::Run((list_only, peer_id))
    } else if args[i]@ == "--list"@ {
        if list_only {
            complaint("--list may only be provided once"@)
        } else {
            resume_options(args, i + 1, true, peer_id)
        }
    } else if args[i]@ == "--peer"@ {
        if i + 1 >= args.len() {
            complaint("--peer requires a value"@)
        } else if peer_id is Some {
            complaint("--peer may only be provided once"@)
        } else {
            resume_options(args, i + 2, list_only, Some(args[i + 1]@))
        }
    } else if super::help_flag(args[i]@) {
        Verdict::Exit(0, seq![usage()])
    } else {
        complaint("unknown remote-resume option "@ + args[i]@)
    }
}

fn usage_error<T>(message: &str) -> (p: Parsed<T>)
    ensures
        super::is_exit(p, 2, seq![message@, usage()]),
{
    super::exit2(2, message, "usage: herdr remote-resume [--list] [--peer PEER_ID]")
}

/// Reads the options of `remote-resume`.
pub fn parse_remote_resume(args: &Vec<String>) -> (r: Parsed<ResumeOptions>)
    ensures
        match resume_options(args@, 0, false, None) {
            Verdict::Run((list_only, peer_id)) => r matches Parsed::Run(o) && o.list_only
                == list_only && text::opt_view(o.peer_id) == peer_id,
            Verdict::Exit(code, lines) => super::is_exit(r, code, lines),
            _ => false,
        },
{
    let mut list_only = false;
    let mut peer_id: Option<String> = None;
    let n: usize = args.len();
    let mut i: usize = 0;
    while i < n
        invariant
            i <= n == args@.len(),
            resume_options(args@, i as int, list_only, text::opt_view(peer_id)) == resume_options(
                args@,
                0,
                false,
                None,
            ),
        decreases n - i,
    {
        let arg = args[i].as_str();
        if text::str_eq(arg, "--list") {
            if list_only {
                return usage_error("--list may only be provided once");
            }
            list_only = true;
            i += 1;
        } else if text::str_eq(arg, "--peer") {
            if n - i < 2 {
                return usage_error("--peer requires a value");
            }
            if peer_id.is_some() {
                return usage_error("--peer may only be provided once");
            }
            peer_id = Some(args[i + 1].clone());
            i += 2;
        } else if super::is_help_flag(arg) {
            return super::exit1(0, "usage: herdr remote-resume [--list] [--peer PEER_ID]");
        } else {
            return usage_error(super::concat("unknown remote-resume option ", arg).as_str());
        }
    }
    Parsed::Run(ResumeOptions { list_only, peer_id })
}

/// The record is one that was asked for.
pub open spec fn wanted(r: ResumeRecord, peer_id: Option<Seq<char>>) -> bool {
    peer_id matches Some(p) ==> r.peer_id@ == p
}

fn is_wanted(r: &ResumeRecord, peer_id: &Option<String>) -> (b: bool)
    ensures
        b == wanted(*r, text::opt_view(*peer_id)),
{
    match peer_id {
        Some(p) => text::str_eq(r.peer_id.as_str(), p.as_str()),
        None => true,
    }
}

/// The records that were asked for, in order.
pub fn select_records(records: Vec<ResumeRecord>, peer_id: &Option<String>) -> (r: Vec<ResumeRecord>)
    ensures
        r@ == records@.filter(|x: ResumeRecord| wanted(x, text::opt_view(*peer_id))),
{
    let mut rest = records;
    let ghost all = rest@;
    let ghost keep = |x: ResumeRecord| wanted(x, text::opt_view(*peer_id));
    let mut out: Vec<ResumeRecord> = Vec::new();
    let total: usize = rest.len();
    let mut n: usize = 0;
    assert(all.take(0).filter(keep) =~= Seq::<ResumeRecord>::empty()) by {
        reveal(Seq::filter);
    }
    while n < total
        invariant
            n <= total == all.len(),
            rest@ == all.skip(n as int),
            keep == (|x: ResumeRecord| wanted(x, text::opt_view(*peer_id))),
            out@ == all.take(n as int).filter(keep),
        decreases total - n,
    {
        let r = rest.remove(0);
        proof {
            assert(r == all[n as int]);
            assert(rest@ =~= all.skip(n as int + 1));
            assert(all.take(n as int + 1).drop_last() =~= all.take(n as int));
            assert(all.take(n as int + 1).last() == r);
            reveal(Seq::filter);
        }
        if is_wanted(&r, peer_id) {
            out.push(r);
        }
        n += 1;
    }
    assert(all.take(total as int) =~= all);
    out
}

/// What is said where nothing is pending.
pub open spec fn nothing_pending(peer_id: Option<Seq<char>>) -> Seq<char> {
    match peer_id {
        Some(p) => "no handed-off remote panes are pending for peer "@ + p,
        None => "no handed-off remote panes are pending"@,
    }
}

pub fn nothing_pending_line(peer_id: &Option<String>) -> (r: String)
    ensures
        r@ == nothing_pending(text::opt_view(*peer_id)),
{
    match peer_id {
        Some(p) => super::concat(
            "no handed-off remote panes are pending for peer ",
            p.as_str(),
        ),
        None => "no handed-off remote panes are pending".to_string(),
    }
}

pub open spec fn record_name(r: ResumeRecord) -> Seq<char> {
    match r.agent {
        Some(agent) => match agent.name {
            Some(name) => name@,
            None => "shell"@,
        },
        None => "shell"@,
    }
}

/// The line that describes a pending record.
pub open spec fn record_line(r: ResumeRecord) -> Seq<char> {
    let session = match r.ssh.session {
        Some(s) => " (remote session "@ + s@ + ")"@,
        None => Seq::empty(),
    };
    let error = match r.last_error {
        Some(e) => " \u{2014} last attempt failed: "@ + e@,
        None => Seq::empty(),
    };
    r.peer_id@ + "  "@ + record_name(r) + " on "@ + r.ssh.target@ + session + "  pane "@
        + r.remote_pane_id@ + "  "@ + r.placement.public_tab_id@ + error
}

pub fn describe_record(r: &ResumeRecord) -> (line: String)
    ensures
        line@ == record_line(*r),
{
    let mut line = r.peer_id.clone();
    line.append("  ");
    match &r.agent {
        Some(agent) => match &agent.name {
            Some(name) => line.append(name.as_str()),
            None => line.append("shell"),
        },
        None => line.append("shell"),
    }
    line.append(" on ");
    line.append(r.ssh.target.as_str());
    let session = match &r.ssh.session {
        Some(s) => super::concat3(" (remote session ", s.as_str(), ")"),
        None => String::new(),
    };
    line.append(session.as_str());
    line.append("  pane ");
    line.append(r.remote_pane_id.as_str());
    line.append("  ");
    line.append(r.placement.public_tab_id.as_str());
    let error = match &r.last_error {
        Some(e) => super::concat(" \u{2014} last attempt failed: ", e.as_str()),
        None => String::new(),
    };
    line.append(error.as_str());
    line
}

/// What to do about the records that were asked for.
pub enum ResumePlan {
    /// Nothing is pending; say so.
    Nothing(String),
    /// Print a line for each record.
    List(Vec<String>),
    /// Resume the records peer by peer, over one connection each.
    Resume(Vec<PeerGroup>),
}

/// The plan for a store's records.
pub fn plan_remote_resume(options: &ResumeOptions, records: Vec<ResumeRecord>) -> (plan: ResumePlan)
    ensures
        ({
            let chosen = records@.filter(
                |x: ResumeRecord| wanted(x, text::opt_view(options.peer_id)),
            );
            if chosen.len() == 0 {
                plan matches ResumePlan::Nothing(line) && line@ == nothing_pending(
                    text::opt_view(options.peer_id),
                )
            } else if options.list_only {
                plan matches ResumePlan::List(lines) && text::views(lines@) == chosen.map_values(
                    |x: ResumeRecord| record_line(x),
                )
            } else {
                plan matches ResumePlan::Resume(groups) && remote_resume::grouped(chosen, groups@)
            }
        }),
{
    let chosen = select_records(records, &options.peer_id);
    if chosen.len() == 0 {
        return ResumePlan::Nothing(nothing_pending_line(&options.peer_id));
    }
    if options.list_only {
        let mut lines: Vec<String> = Vec::new();
        let mut i: usize = 0;
        while i < chosen.len()
            invariant
                i <= chosen@.len(),
                lines@.len() == i,
                forall|k: int| 0 <= k < i ==> (#[trigger] lines@[k])@ == record_line(chosen@[k]),
            decreases chosen@.len() - i,
        {
            lines.push(describe_record(&chosen[i]));
            i += 1;
        }
        assert(text::views(lines@) =~= chosen@.map_values(|x: ResumeRecord| record_line(x)));
        return ResumePlan::List(lines);
    }
    ResumePlan::Resume(remote_resume::group_by_peer(chosen))
}

/// The outcome carries an error text.
pub open spec fn failed(outcome: Json) -> bool {
    json::as_text(json::member(outcome, "error"@)) is Some
}

pub open spec fn failures_in(outcomes: Seq<Json>) -> nat
    decreases outcomes.len(),
{
    if outcomes.len() == 0 {
        0
    } else {
        failures_in(outcomes.drop_last()) + if failed(outcomes.last()) {
            1nat
        } else {
            0
        }
    }
}

/// The outcomes that a response lists: none where it is an error.
pub open spec fn outcomes_of(response: Json) -> Seq<Json> {
    if json::has(response, "error"@) {
        Seq::empty()
    } else {
        match json::member(json::member(response, "result"@), "outcomes"@) {
            Json::Array(outcomes) => outcomes@,
            _ => Seq::empty(),
        }
    }
}

/// How many failures a response to a resume reports.
pub open spec fn response_failures(response: Json) -> nat {
    if json::has(response, "error"@) {
        1
    } else {
        failures_in(outcomes_of(response))
    }
}

pub open spec fn outcome_terminal(outcome: Json) -> Seq<char> {
    match json::as_text(json::member(outcome, "remote_terminal_id"@)) {
        Some(t) => t,
        None => "?"@,
    }
}

/// The line printed for one outcome.
pub open spec fn outcome_line(outcome: Json) -> Seq<char> {
    match json::as_text(json::member(outcome, "error"@)) {
        Some(message) => "  "@ + outcome_terminal(outcome) + (": "@ + message),
        None => "  "@ + outcome_terminal(outcome) + ": resumed"@,
    }
}

fn describe_outcome(outcome: &Json) -> (r: (bool, String))
    ensures
        r.0 == failed(*outcome),
        r.1@ == outcome_line(*outcome),
{
    let terminal = match outcome.text_member("remote_terminal_id") {
        Some(t) => t,
        None => "?",
    };
    match outcome.text_member("error") {
        Some(message) => (
            true,
            super::concat3("  ", terminal, super::concat(": ", message).as_str()),
        ),
        None => (false, super::concat3("  ", terminal, ": resumed")),
    }
}

/// The line printed for a response that is an error.
pub open spec fn error_line(peer: Seq<char>, error: Seq<char>) -> Seq<char> {
    "remote resume failed for "@ + peer + (": "@ + error)
}

/// These lines tell of a response: one of the error, or one of each outcome.
/// Failures are told apart.
pub open spec fn tells(
    lines: Seq<(bool, String)>,
    response: Json,
    peer: Seq<char>,
) -> bool {
    if json::has(response, "error"@) {
        lines.len() == 1 && lines[0].0 && lines[0].1@ == error_line(
            peer,
            json::json_text(json::json_view(json::member(response, "error"@))),
        )
    } else {
        &&& lines.len() == outcomes_of(response).len()
        &&& forall|i: int|
            0 <= i < lines.len() ==> (#[trigger] lines[i]).0 == failed(outcomes_of(response)[i])
                && lines[i].1@ == outcome_line(outcomes_of(response)[i])
    }
}

/// Counts the failures of a resume, with what to print: a line for the error, as
/// JSON text, or a line for each outcome. With each line comes whether it tells of a
/// failure.
pub fn print_resume_outcomes(response: &Json, peer: &str) -> (r: (usize, Vec<(bool, String)>))
    requires
        json::shallow(*response, json::MAX_WRITE_DEPTH as nat),
    ensures
        r.0 == response_failures(*response),
        tells(r.1@, *response, peer@),
{
    let mut lines: Vec<(bool, String)> = Vec::new();
    match response.get("error") {
        Some(error) => {
            proof {
                json::lemma_member_shallow(*response, "error"@, json::MAX_WRITE_DEPTH as nat);
            }
            let line = super::concat3(
                "remote resume failed for ",
                peer,
                super::concat(": ", json::write_json(error).as_str()).as_str(),
            );
            lines.push((true, line));
            return (1, lines);
        },
        None => {},
    }
    let result = match response.get("result") {
        Some(result) => result,
        None => {
            assert(json::member(*response, "result"@) == Json::Null);
            return (0, lines);
        },
    };
    match result.get("outcomes") {
        Some(Json::Array(outcomes)) => {
            let mut failures: usize = 0;
            let mut i: usize = 0;
            assert(outcomes@.take(0) =~= Seq::<Json>::empty());
            while i < outcomes.len()
                invariant
                    i <= outcomes@.len(),
                    failures == failures_in(outcomes@.take(i as int)),
                    failures <= i,
                    lines@.len() == i,
                    forall|k: int|
                        0 <= k < i ==> (#[trigger] lines@[k]).0 == failed(outcomes@[k])
                            && lines@[k].1@ == outcome_line(outcomes@[k]),
                decreases outcomes@.len() - i,
            {
                assert(outcomes@.take(i as int + 1).drop_last() =~= outcomes@.take(i as int));
                let (bad, line) = describe_outcome(&outcomes[i]);
                if bad {
                    failures += 1;
                }
                lines.push((bad, line));
                i += 1;
            }
            assert(outcomes@.take(outcomes@.len() as int) =~= outcomes@);
            (failures, lines)
        },
        _ => (0, lines),
    }
}

/// Where the resuming of peers stands: the peer that is being resumed comes
/// first.
pub struct ResumeRun {
    pub waiting: Vec<PeerGroup>,
    pub failures: usize,
}

pub enum ResumeEvent {
    /// No connection was had.
    NotAuthenticated(String),
    /// Connected, over a managed connection where there is a control path.
    Authenticated(Option<String>),
    Answered(Json),
}

pub enum ResumeAction {
    /// Connect to the first waiting peer.
    Connect { notice: String, target: String, ssh_args: Vec<String> },
    Send(Request),
    Exit(i32),
}

/// The failures so far and `more`, as far as they can be counted.
pub open spec fn more_failures(failures: usize, more: nat) -> usize {
    if failures + more > usize::MAX {
        usize::MAX
    } else {
        (failures + more) as usize
    }
}

pub open spec fn resuming_line(group: PeerGroup) -> Seq<char> {
    "resuming "@ + text::dec(group.records@.len()) + " pane(s) on "@ + group.records@[0].ssh.target@
        + "..."@
}

/// The run goes on with the first waiting peer, or ends.
pub open spec fn goes_on(run: ResumeRun, action: ResumeAction) -> bool {
    if run.waiting@.len() == 0 {
        action == ResumeAction::Exit(
            if run.failures > 0 {
                1
            } else {
                0
            },
        )
    } else {
        &&& action matches ResumeAction::Connect { notice, target, ssh_args } && notice@
            == resuming_line(run.waiting@[0]) && target@
            == run.waiting@[0].records@[0].ssh.target@ && ssh_args@
            == run.waiting@[0].records@[0].ssh.ssh_args@
    }
}

pub open spec fn is_resume(r: Request, peer_id: Seq<char>, control_path: Option<Seq<char>>) -> bool {
    &&& r.id@ == "cli:remote:resume"@
    &&& r.method matches Method::RemoteResume(p) && text::opt_view(p.peer_id) == Some(peer_id)
        && text::opt_view(p.managed_control_path) == control_path
}

/// Each waiting peer has records.
pub open spec fn peers_have_records(groups: Seq<PeerGroup>) -> bool {
    forall|i: int| 0 <= i < groups.len() ==> (#[trigger] groups[i]).records@.len() > 0
}

/// Starts to resume peer after peer.
pub fn next_peer(run: &ResumeRun) -> (action: ResumeAction)
    requires
        peers_have_records(run.waiting@),
    ensures
        goes_on(*run, action),
{
    if run.waiting.len() == 0 {
        return ResumeAction::Exit(resume_exit_code(run.failures));
    }
    let group = &run.waiting[0];
    let first = &group.records[0];
    let count: usize = group.records.len();
    let mut notice = super::concat3(
        "resuming ",
        text::dec_string(count as u64).as_str(),
        " pane(s) on ",
    );
    notice.append(first.ssh.target.as_str());
    notice.append("...");
    ResumeAction::Connect {
        notice,
        target: first.ssh.target.clone(),
        ssh_args: text::clone_strings(&first.ssh.ssh_args),
    }
}

pub open spec fn unauthenticated_line(target: Seq<char>, err: Seq<char>) -> Seq<char> {
    "could not authenticate to "@ + target + (": "@ + err)
}

/// What each event makes of the run, and what is told of it: an unreachable peer
/// counts all its records as failures, an answer counts the failures that it
/// reports.
pub open spec fn resume_follows(
    before: ResumeRun,
    event: ResumeEvent,
    after: ResumeRun,
    lines: Seq<(bool, String)>,
    action: ResumeAction,
) -> bool {
    match event {
        ResumeEvent::Authenticated(control_path) => {
            &&& lines.len() == 0
            &&& after.waiting@ == before.waiting@
            &&& after.failures == before.failures
            &&& action matches ResumeAction::Send(r) && is_resume(
                r,
                before.waiting@[0].peer_id@,
                text::opt_view(control_path),
            )
        },
        ResumeEvent::NotAuthenticated(err) => {
            &&& lines.len() == 1 && lines[0].0 && lines[0].1@ == unauthenticated_line(
                before.waiting@[0].records@[0].ssh.target@,
                err@,
            )
            &&& after.waiting@ == before.waiting@.skip(1)
            &&& after.failures == more_failures(
                before.failures,
                before.waiting@[0].records@.len(),
            )
            &&& goes_on(after, action)
        },
        ResumeEvent::Answered(response) => {
            &&& tells(lines, response, before.waiting@[0].peer_id@)
            &&& after.waiting@ == before.waiting@.skip(1)
            &&& after.failures == more_failures(before.failures, response_failures(response))
            &&& goes_on(after, action)
        },
    }
}

/// One step of the resuming of a peer: the lines to print, those of failures
/// marked, and what to do next.
pub fn resume_step(run: &mut ResumeRun, event: &ResumeEvent) -> (r: (
    Vec<(bool, String)>,
    ResumeAction,
))
    requires
        old(run).waiting@.len() > 0,
        peers_have_records(old(run).waiting@),
        event matches ResumeEvent::Answered(response) ==> json::shallow(
            *response,
            json::MAX_WRITE_DEPTH as nat,
        ),
    ensures
        peers_have_records(final(run).waiting@),
        resume_follows(*old(run), *event, *final(run), r.0@, r.1),
{
    match event {
        ResumeEvent::Authenticated(control_path) => (
            Vec::new(),
            ResumeAction::Send(
                Request {
                    id: "cli:remote:resume".to_string(),
                    method: Method::RemoteResume(
                        RemoteResumeParams {
                            peer_id: Some(run.waiting[0].peer_id.clone()),
                            managed_control_path: text::clone_opt(control_path),
                        },
                    ),
                },
            ),
        ),
        ResumeEvent::NotAuthenticated(err) => {
            let lost: usize = run.waiting[0].records.len();
            let line = super::concat3(
                "could not authenticate to ",
                run.waiting[0].records[0].ssh.target.as_str(),
                super::concat(": ", err.as_str()).as_str(),
            );
            let mut lines: Vec<(bool, String)> = Vec::new();
            lines.push((true, line));
            let _ = run.waiting.remove(0);
            assert(run.waiting@ =~= old(run).waiting@.skip(1));
            run.failures = run.failures.saturating_add(lost);
            (lines, next_peer(run))
        },
        ResumeEvent::Answered(response) => {
            let (lost, lines) = print_resume_outcomes(response, run.waiting[0].peer_id.as_str());
            let _ = run.waiting.remove(0);
            assert(run.waiting@ =~= old(run).waiting@.skip(1));
            run.failures = run.failures.saturating_add(lost);
            (lines, next_peer(run))
        },
    }
}

/// The exit code after all peers were resumed.
pub fn resume_exit_code(failures: usize) -> (code: i32)
    ensures
        code == if failures > 0 {
            1i32
        } else {
            0
        },
{
    if failures > 0 {
        1
    } else {
        0
    }
}

} // verus!
