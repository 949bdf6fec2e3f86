//! Options take effect: what is added behind other options counts, and leaves the others
//! as they were.

use vstd::prelude::*;
use vstd::string::*;

use super::desktop::{self, EnqueueOptions};
use super::terminal::{self, AttachOptions, SessionSize};
use super::wait::{self, OutputOptions};
use super::Verdict;
use crate::api::schema::common::AgentStatus;
use crate::text;

verus! {

proof fn lemma_flags_differ()
    ensures
        "--regex"@ != "--raw"@,
        "--match"@ != "--regex"@ && "--match"@ != "--raw"@,
        "--source"@ != "--regex"@ && "--source"@ != "--raw"@ && "--source"@ != "--match"@,
        "--lines"@ != "--regex"@ && "--lines"@ != "--raw"@ && "--lines"@ != "--match"@
            && "--lines"@ != "--source"@,
        "--timeout"@ != "--regex"@ && "--timeout"@ != "--raw"@ && "--timeout"@ != "--match"@
            && "--timeout"@ != "--source"@ && "--timeout"@ != "--lines"@ && "--timeout"@
            != "--status"@,
        "--correlation-id"@ != "--kind"@,
        "--message"@ != "--kind"@ && "--message"@ != "--correlation-id"@,
        "--stdin"@ != "--kind"@ && "--stdin"@ != "--correlation-id"@ && "--stdin"@ != "--message"@,
        "--delegation"@ != "--takeover"@,
        "--delegation-epoch"@ != "--takeover"@ && "--delegation-epoch"@ != "--delegation"@,
        "--cols"@ != "--takeover"@,
        "--rows"@ != "--takeover"@ && "--rows"@ != "--cols"@,
{
    reveal_strlit("--regex");
    reveal_strlit("--raw");
    reveal_strlit("--match");
    reveal_strlit("--source");
    reveal_strlit("--lines");
    reveal_strlit("--timeout");
    reveal_strlit("--status");
    reveal_strlit("--kind");
    reveal_strlit("--correlation-id");
    reveal_strlit("--message");
    reveal_strlit("--stdin");
    reveal_strlit("--takeover");
    reveal_strlit("--delegation");
    reveal_strlit("--delegation-epoch");
    reveal_strlit("--cols");
    reveal_strlit("--rows");
    assert("--regex"@.len() == 7 && "--regex"@[2] == 'r');
    assert("--raw"@.len() == 5 && "--raw"@[2] == 'r');
    assert("--match"@.len() == 7 && "--match"@[2] == 'm');
    assert("--source"@.len() == 8 && "--source"@[2] == 's');
    assert("--lines"@.len() == 7 && "--lines"@[2] == 'l');
    assert("--timeout"@.len() == 9 && "--timeout"@[2] == 't');
    assert("--status"@.len() == 8 && "--status"@[2] == 's');
    assert("--kind"@.len() == 6 && "--kind"@[2] == 'k');
    assert("--correlation-id"@.len() == 16 && "--correlation-id"@[2] == 'c');
    assert("--message"@.len() == 9 && "--message"@[2] == 'm');
    assert("--stdin"@.len() == 7 && "--stdin"@[2] == 's');
    assert("--takeover"@.len() == 10 && "--takeover"@[2] == 't');
    assert("--delegation"@.len() == 12 && "--delegation"@[2] == 'd');
    assert("--delegation-epoch"@.len() == 18 && "--delegation-epoch"@[2] == 'd');
    assert("--cols"@.len() == 6 && "--cols"@[2] == 'c');
    assert("--rows"@.len() == 6 && "--rows"@[2] == 'r');
}

proof fn lemma_wait_goes_on(
    first: Seq<String>,
    more: Seq<String>,
    i: int,
    before: OutputOptions,
    mid: OutputOptions,
)
    requires
        0 <= i <= first.len(),
        wait::output_options(first, i, before) == Verdict::<OutputOptions>::Run(mid),
    ensures
        wait::output_options(first + more, i, before) == wait::output_options(first + more, first.len() as int, mid),
    decreases first.len() - i,
{
    let all = first + more;
    if i < first.len() {
        assert(all[i] == first[i]);
        if i + 1 < first.len() {
            assert(all[i + 1] == first[i + 1]);
        }
        let flag = first[i]@;
        let value = first[i + 1]@;
        lemma_flags_differ();
        if flag == "--regex"@ {
            lemma_wait_goes_on(first, more, i + 1, OutputOptions { regex: true, ..before }, mid);
        } else if flag == "--raw"@ {
            lemma_wait_goes_on(first, more, i + 1, OutputOptions { strip_ansi: false, ..before }, mid);
        } else if flag == "--match"@ {
            lemma_wait_goes_on(first, more, i + 2, OutputOptions { value: Some(value), ..before }, mid);
        } else if flag == "--source"@ {
            let source = super::read_source_named(value)->0;
            lemma_wait_goes_on(first, more, i + 2, OutputOptions { source, ..before }, mid);
        } else if flag == "--lines"@ {
            let lines = Some((text::parsed_uint(value, u32::MAX as nat)->0) as u32);
            lemma_wait_goes_on(first, more, i + 2, OutputOptions { lines, ..before }, mid);
        } else {
            let timeout_ms = Some((text::parsed_uint(value, u64::MAX as nat)->0) as u64);
            lemma_wait_goes_on(first, more, i + 2, OutputOptions { timeout_ms, ..before }, mid);
        }
    }
}

/// Of a wait for output each option counts that is added at the end, and it changes nothing
/// but what it is for.
pub proof fn lemma_added_wait_options_count(
    first: Seq<String>,
    flag: String,
    value: String,
    i: int,
    lines: u32,
    ms: u64,
    before: OutputOptions,
    mid: OutputOptions,
)
    requires
        0 <= i <= first.len(),
        wait::output_options(first, i, before) == Verdict::<OutputOptions>::Run(mid),
    ensures
        flag@ == "--regex"@ ==> wait::output_options(first + seq![flag], i, before) == Verdict::<
            OutputOptions,
        >::Run(OutputOptions { regex: true, ..mid }),
        flag@ == "--raw"@ ==> wait::output_options(first + seq![flag], i, before) == Verdict::<
            OutputOptions,
        >::Run(OutputOptions { strip_ansi: false, ..mid }),
        flag@ == "--match"@ ==> wait::output_options(first + seq![flag, value], i, before)
            == Verdict::<OutputOptions>::Run(OutputOptions { value: Some(value@), ..mid }),
        flag@ == "--source"@ && super::read_source_named(value@) is Some ==> wait::output_options(
            first + seq![flag, value],
            i,
            before,
        ) == Verdict::<OutputOptions>::Run(
            OutputOptions { source: super::read_source_named(value@)->0, ..mid },
        ),
        flag@ == "--lines"@ && text::parsed_uint(value@, u32::MAX as nat) == Some(
            lines as nat,
        ) ==> wait::output_options(first + seq![flag, value], i, before) == Verdict::<
            OutputOptions,
        >::Run(OutputOptions { lines: Some(lines), ..mid }),
        flag@ == "--timeout"@ && text::parsed_uint(value@, u64::MAX as nat) == Some(
            ms as nat,
        ) ==> wait::output_options(first + seq![flag, value], i, before) == Verdict::<
            OutputOptions,
        >::Run(OutputOptions { timeout_ms: Some(ms), ..mid }),
        flag@ == "--match"@ || flag@ == "--source"@ || flag@ == "--lines"@ || flag@ == "--timeout"@
            ==> wait::output_options(first + seq![flag], i, before) is Exit,
{
    lemma_flags_differ();
    let n = first.len() as int;
    lemma_wait_goes_on(first, seq![flag], i, before, mid);
    lemma_wait_goes_on(first, seq![flag, value], i, before, mid);
    let one = first + seq![flag];
    let two = first + seq![flag, value];
    assert(one[n] == flag && two[n] == flag && two[n + 1] == value);
    reveal_with_fuel(wait::output_options, 2);
}

proof fn lemma_enqueue_goes_on(
    first: Seq<String>,
    more: Seq<String>,
    i: int,
    before: EnqueueOptions,
    mid: EnqueueOptions,
)
    requires
        0 <= i <= first.len(),
        desktop::enqueue_options(first, i, before) == Verdict::<EnqueueOptions>::Run(mid),
    ensures
        desktop::enqueue_options(first + more, i, before) == desktop::enqueue_options(first + more, first.len() as int, mid),
    decreases first.len() - i,
{
    let all = first + more;
    if i < first.len() {
        assert(all[i] == first[i]);
        if i + 1 < first.len() {
            assert(all[i + 1] == first[i + 1]);
        }
        let flag = first[i]@;
        let value = first[i + 1]@;
        lemma_flags_differ();
        if flag == "--kind"@ {
            lemma_enqueue_goes_on(first, more, i + 2, EnqueueOptions { kind: Some(value), ..before }, mid);
        } else if flag == "--correlation-id"@ {
            lemma_enqueue_goes_on(first, more, i + 2, EnqueueOptions { correlation_id: Some(value), ..before }, mid);
        } else if flag == "--message"@ {
            lemma_enqueue_goes_on(first, more, i + 2, EnqueueOptions { message: Some(value), ..before }, mid);
        } else {
            lemma_enqueue_goes_on(first, more, i + 1, EnqueueOptions { stdin: true, ..before }, mid);
        }
    }
}

/// Of a message each option counts that is added at the end and was not given before; one
/// that was given before is refused.
pub proof fn lemma_added_message_options_count(
    first: Seq<String>,
    flag: String,
    value: String,
    i: int,
    before: EnqueueOptions,
    mid: EnqueueOptions,
)
    requires
        0 <= i <= first.len(),
        desktop::enqueue_options(first, i, before) == Verdict::<EnqueueOptions>::Run(mid),
    ensures
        flag@ == "--kind"@ && mid.kind is None ==> desktop::enqueue_options(
            first + seq![flag, value],
            i,
            before,
        ) == Verdict::<EnqueueOptions>::Run(EnqueueOptions { kind: Some(value@), ..mid }),
        flag@ == "--correlation-id"@ && mid.correlation_id is None ==> desktop::enqueue_options(
            first + seq![flag, value],
            i,
            before,
        ) == Verdict::<EnqueueOptions>::Run(EnqueueOptions { correlation_id: Some(value@), ..mid }),
        flag@ == "--message"@ && mid.message is None ==> desktop::enqueue_options(
            first + seq![flag, value],
            i,
            before,
        ) == Verdict::<EnqueueOptions>::Run(EnqueueOptions { message: Some(value@), ..mid }),
        flag@ == "--stdin"@ && !mid.stdin ==> desktop::enqueue_options(
            first + seq![flag],
            i,
            before,
        ) == Verdict::<EnqueueOptions>::Run(EnqueueOptions { stdin: true, ..mid }),
        flag@ == "--kind"@ && mid.kind is Some || flag@ == "--correlation-id"@
            && mid.correlation_id is Some || flag@ == "--message"@ && mid.message is Some
            ==> !(desktop::enqueue_options(first + seq![flag, value], i, before) is Run),
        flag@ == "--stdin"@ && mid.stdin ==> !(desktop::enqueue_options(
            first + seq![flag],
            i,
            before,
        ) is Run),
{
    lemma_flags_differ();
    let n = first.len() as int;
    lemma_enqueue_goes_on(first, seq![flag], i, before, mid);
    lemma_enqueue_goes_on(first, seq![flag, value], i, before, mid);
    let one = first + seq![flag];
    let two = first + seq![flag, value];
    assert(one[n] == flag && two[n] == flag && two[n + 1] == value);
    reveal_with_fuel(desktop::enqueue_options, 2);
}

proof fn lemma_attach_goes_on(
    first: Seq<String>,
    more: Seq<String>,
    i: int,
    before: AttachOptions,
    mid: AttachOptions,
)
    requires
        0 <= i <= first.len(),
        terminal::attach_options(first, i, before) == Verdict::<AttachOptions>::Run(mid),
    ensures
        terminal::attach_options(first + more, i, before) == terminal::attach_options(first + more, first.len() as int, mid),
    decreases first.len() - i,
{
    let all = first + more;
    if i < first.len() {
        assert(all[i] == first[i]);
        if i + 1 < first.len() {
            assert(all[i + 1] == first[i + 1]);
        }
        let flag = first[i]@;
        let value = first[i + 1]@;
        lemma_flags_differ();
        if flag == "--takeover"@ {
            lemma_attach_goes_on(first, more, i + 1, AttachOptions { takeover: true, ..before }, mid);
        } else if flag == "--delegation"@ {
            lemma_attach_goes_on(first, more, i + 2, AttachOptions { delegation_id: Some(value), ..before }, mid);
        } else {
            let epoch = Some((text::parsed_uint(value, u64::MAX as nat)->0) as u64);
            lemma_attach_goes_on(first, more, i + 2, AttachOptions { delegation_epoch: epoch, ..before }, mid);
        }
    }
}

/// Of an attachment each option counts that is added at the end, and it changes nothing but
/// what it is for.
pub proof fn lemma_added_attach_options_count(
    first: Seq<String>,
    flag: String,
    value: String,
    i: int,
    epoch: u64,
    before: AttachOptions,
    mid: AttachOptions,
)
    requires
        0 <= i <= first.len(),
        terminal::attach_options(first, i, before) == Verdict::<AttachOptions>::Run(mid),
    ensures
        flag@ == "--takeover"@ ==> terminal::attach_options(first + seq![flag], i, before)
            == Verdict::<AttachOptions>::Run(AttachOptions { takeover: true, ..mid }),
        flag@ == "--delegation"@ ==> terminal::attach_options(first + seq![flag, value], i, before)
            == Verdict::<AttachOptions>::Run(AttachOptions { delegation_id: Some(value@), ..mid }),
        flag@ == "--delegation-epoch"@ && text::parsed_uint(value@, u64::MAX as nat) == Some(
            epoch as nat,
        ) ==> terminal::attach_options(first + seq![flag, value], i, before) == Verdict::<
            AttachOptions,
        >::Run(AttachOptions { delegation_epoch: Some(epoch), ..mid }),
        flag@ != "--takeover"@ && flag@ != "--delegation"@ && flag@ != "--delegation-epoch"@
            ==> terminal::attach_options(first + seq![flag], i, before) is Exit,
{
    lemma_flags_differ();
    let n = first.len() as int;
    lemma_attach_goes_on(first, seq![flag], i, before, mid);
    lemma_attach_goes_on(first, seq![flag, value], i, before, mid);
    let one = first + seq![flag];
    let two = first + seq![flag, value];
    assert(one[n] == flag && two[n] == flag && two[n + 1] == value);
    reveal_with_fuel(terminal::attach_options, 2);
}

proof fn lemma_session_goes_on(
    first: Seq<String>,
    more: Seq<String>,
    i: int,
    before: SessionSize,
    mid: SessionSize,
    usage: Seq<char>,
    command: Seq<char>,
    allow_takeover: bool,
)
    requires
        0 <= i <= first.len(),
        terminal::session_options(first, i, before, usage, command, allow_takeover) == Verdict::<SessionSize>::Run(mid),
    ensures
        terminal::session_options(first + more, i, before, usage, command, allow_takeover) == terminal::session_options(first + more, first.len() as int, mid, usage, command, allow_takeover),
    decreases first.len() - i,
{
    let all = first + more;
    if i < first.len() {
        assert(all[i] == first[i]);
        if i + 1 < first.len() {
            assert(all[i + 1] == first[i + 1]);
        }
        let flag = first[i]@;
        let value = first[i + 1]@;
        lemma_flags_differ();
        if flag == "--takeover"@ && allow_takeover {
            lemma_session_goes_on(first, more, i + 1, SessionSize { takeover: true, ..before }, mid, usage, command, allow_takeover);
        } else if flag == "--cols"@ {
            let cols = terminal::dimension(value, "--cols"@)->Ok_0;
            lemma_session_goes_on(first, more, i + 2, SessionSize { cols, ..before }, mid, usage, command, allow_takeover);
        } else {
            let rows = terminal::dimension(value, "--rows"@)->Ok_0;
            lemma_session_goes_on(first, more, i + 2, SessionSize { rows, ..before }, mid, usage, command, allow_takeover);
        }
    }
}

/// Of a terminal session each option counts that is added at the end; a terminal is taken
/// over only where the command may do that.
pub proof fn lemma_added_session_options_count(
    first: Seq<String>,
    flag: String,
    value: String,
    i: int,
    size: u16,
    before: SessionSize,
    mid: SessionSize,
    usage: Seq<char>,
    command: Seq<char>,
    allow_takeover: bool,
)
    requires
        0 <= i <= first.len(),
        terminal::session_options(first, i, before, usage, command, allow_takeover) == Verdict::<
            SessionSize,
        >::Run(mid),
    ensures
        flag@ == "--takeover"@ && allow_takeover ==> terminal::session_options(
            first + seq![flag],
            i,
            before,
            usage,
            command,
            allow_takeover,
        ) == Verdict::<SessionSize>::Run(SessionSize { takeover: true, ..mid }),
        flag@ == "--takeover"@ && !allow_takeover ==> !(terminal::session_options(
            first + seq![flag],
            i,
            before,
            usage,
            command,
            allow_takeover,
        ) is Run),
        flag@ == "--cols"@ && size > 0 && text::parsed_uint(value@, u16::MAX as nat) == Some(
            size as nat,
        ) ==> terminal::session_options(
            first + seq![flag, value],
            i,
            before,
            usage,
            command,
            allow_takeover,
        ) == Verdict::<SessionSize>::Run(SessionSize { cols: size, ..mid }),
        flag@ == "--rows"@ && size > 0 && text::parsed_uint(value@, u16::MAX as nat) == Some(
            size as nat,
        ) ==> terminal::session_options(
            first + seq![flag, value],
            i,
            before,
            usage,
            command,
            allow_takeover,
        ) == Verdict::<SessionSize>::Run(SessionSize { rows: size, ..mid }),
{
    lemma_flags_differ();
    let n = first.len() as int;
    lemma_session_goes_on(
        first,
        seq![flag],
        i,
        before,
        mid,
        usage,
        command,
        allow_takeover,
    );
    lemma_session_goes_on(
        first,
        seq![flag, value],
        i,
        before,
        mid,
        usage,
        command,
        allow_takeover,
    );
    let one = first + seq![flag];
    let two = first + seq![flag, value];
    assert(one[n] == flag && two[n] == flag && two[n + 1] == value);
    reveal_with_fuel(terminal::session_options, 2);
}

proof fn lemma_status_goes_on(
    first: Seq<String>,
    more: Seq<String>,
    i: int,
    status: Option<AgentStatus>,
    timeout_ms: Option<u64>,
    mid: (Option<AgentStatus>, Option<u64>),
)
    requires
        0 <= i <= first.len(),
        wait::status_options(first, i, status, timeout_ms) == Verdict::<
            (Option<AgentStatus>, Option<u64>),
        >::Run(mid),
    ensures
        wait::status_options(first + more, i, status, timeout_ms) == wait::status_options(
            first + more,
            first.len() as int,
            mid.0,
            mid.1,
        ),
    decreases first.len() - i,
{
    let all = first + more;
    if i < first.len() {
        assert(all[i] == first[i]);
        if i + 1 < first.len() {
            assert(all[i + 1] == first[i + 1]);
        }
        let value = first[i + 1]@;
        lemma_flags_differ();
        if first[i]@ == "--status"@ {
            let named = super::agent_status_named(value);
            lemma_status_goes_on(first, more, i + 2, named, timeout_ms, mid);
        } else {
            let ms = Some((text::parsed_uint(value, u64::MAX as nat)->0) as u64);
            lemma_status_goes_on(first, more, i + 2, status, ms, mid);
        }
    }
}

/// Of a wait for an agent's status the status and the timeout count that are added at the
/// end.
pub proof fn lemma_added_status_options_count(
    first: Seq<String>,
    flag: String,
    value: String,
    i: int,
    named: AgentStatus,
    ms: u64,
    status: Option<AgentStatus>,
    timeout_ms: Option<u64>,
    mid: (Option<AgentStatus>, Option<u64>),
)
    requires
        0 <= i <= first.len(),
        wait::status_options(first, i, status, timeout_ms) == Verdict::<
            (Option<AgentStatus>, Option<u64>),
        >::Run(mid),
    ensures
        flag@ == "--status"@ && super::agent_status_named(value@) == Some(named)
            ==> wait::status_options(first + seq![flag, value], i, status, timeout_ms)
            == Verdict::<(Option<AgentStatus>, Option<u64>)>::Run((Some(named), mid.1)),
        flag@ == "--timeout"@ && text::parsed_uint(value@, u64::MAX as nat) == Some(ms as nat)
            ==> wait::status_options(first + seq![flag, value], i, status, timeout_ms)
            == Verdict::<(Option<AgentStatus>, Option<u64>)>::Run((mid.0, Some(ms))),
        flag@ == "--status"@ && super::agent_status_named(value@) is None ==> !(
        wait::status_options(first + seq![flag, value], i, status, timeout_ms) is Run),
{
    lemma_flags_differ();
    let n = first.len() as int;
    lemma_status_goes_on(first, seq![flag, value], i, status, timeout_ms, mid);
    let two = first + seq![flag, value];
    assert(two[n] == flag && two[n + 1] == value);
    reveal_with_fuel(wait::status_options, 2);
}

} // verus!
