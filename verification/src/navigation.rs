//! What navigating back to a host comes to.

use vstd::prelude::*;
use vstd::string::*;

use crate::agent::{AgentRun, AgentStatus};
use crate::error::{Error, NavigationError};
use crate::focus::{FocusEvent, FocusStep};
use crate::orchestrator::{
    first_step, line_at, listed_target, next_step, position_of, unavailable, NavigationStage,
    NavigationStep, Orchestrator, OrchestratorSnapshot,
};
use crate::process::{ProcessRun, ProcessState};
use crate::storage::Job;
use crate::text::texts;

verus! {

/// Every navigation to a pane begins with a list of the panes of all sessions, each
/// with its address behind a tab, and with nothing else.
pub proof fn navigation_lists_the_panes_of_all_sessions(args: Seq<String>, step: NavigationStep)
    requires
        first_step(args, step),
    ensures
        !(step is Arrived),
        step is Failed ==> step->Failed_0 is Invalid,
        step matches NavigationStep::Run { stage, args: run } ==> stage is Listing && texts(run@)
            == seq!["list-panes"@, "-a"@, "-F"@, "#{pane_id}\t#{session_name}:#{window_index}.#{pane_index}"@],
{
}

/// Whether arguments name a client, in one of the two ways to write it.
pub open spec fn names_client(args: Seq<Seq<char>>, name: Seq<char>) -> bool {
    name.len() > 0 && (args == seq!["--client"@, name] || args == seq!["--client="@ + name])
}

/// The arguments of a navigation are none, or the name of a client in one of the two
/// ways to write it; all others are refused. The client that is named is the one that
/// is switched.
pub proof fn navigation_takes_a_client(args: Seq<String>, step: NavigationStep, name: Seq<char>)
    requires
        first_step(args, step),
    ensures
        args.len() == 0 ==> (step matches NavigationStep::Run {
            stage: NavigationStage::Listing { client },
            ..
        } && client is None),
        names_client(texts(args), name) ==> (step matches NavigationStep::Run {
            stage: NavigationStage::Listing { client },
            ..
        } && client is Some && client->0@ == name),
        step matches NavigationStep::Run { stage: NavigationStage::Listing { client }, .. } ==> match client {
            None => args.len() == 0,
            Some(chosen) => names_client(texts(args), chosen@),
        },
        texts(args) == seq!["--client"@] || texts(args) == seq!["--client="@] ==> (
        step matches NavigationStep::Failed(NavigationError::Invalid(text)) && text@
            == "tmux navigation option --client requires a value"@),
{
    reveal_strlit("--client");
    reveal_strlit("--client=");
    let given = texts(args);
    assert(given.len() == args.len());
    if names_client(given, name) {
        if given.len() == 1 {
            assert(given[0] == "--client="@ + name);
            assert(given[0].skip("--client="@.len() as int) =~= name);
            assert("--client="@.is_prefix_of(given[0])) by {
                assert(given[0].subrange(0, "--client="@.len() as int) =~= "--client="@);
            }
            assert(given[0].len() != "--client="@.len());
        } else {
            assert(given[0] == "--client"@ && given[1] == name);
        }
    }
    if step is Run && args.len() > 0 {
        if given.len() == 2 {
            assert(given =~= seq!["--client"@, given[1]]);
        } else {
            let rest = given[0].skip("--client="@.len() as int);
            assert(given[0] =~= "--client="@ + rest);
            assert(given =~= seq!["--client="@ + rest]);
            if rest.len() == 0 {
                assert(given[0] =~= "--client="@);
            }
        }
    }
    if given == seq!["--client"@] {
        assert(given[0] == "--client"@);
        assert(!"--client="@.is_prefix_of(given[0]));
    }
    if given == seq!["--client="@] {
        assert(given[0] == "--client="@);
    }
}

/// Whether a line of a listing, which starts at `i` and ends at `end`, tells the
/// address of a pane.
pub open spec fn tells_address(
    listing: Seq<char>,
    i: int,
    end: int,
    pane: Seq<char>,
    address: Seq<char>,
) -> bool {
    let tab = i + pane.len();
    &&& 0 <= i && (i == 0 || listing[i - 1] == '\n')
    &&& tab < end <= listing.len()
    &&& forall|k: int| i <= k < end ==> #[trigger] listing[k] != '\n'
    &&& end == listing.len() || listing[end] == '\n'
    &&& listing.subrange(i, tab) == pane
    &&& listing[tab] == '\t'
    &&& if end < listing.len() && listing[end - 1] == '\r' {
        address == listing.subrange(tab + 1, end - 1)
    } else {
        address == listing.subrange(tab + 1, end)
    }
}

proof fn lemma_position(text: Seq<char>, i: int, c: char)
    requires
        0 <= i <= text.len(),
    ensures
        i <= position_of(text, i, c) <= text.len(),
        forall|k: int| i <= k < position_of(text, i, c) ==> #[trigger] text[k] != c,
        position_of(text, i, c) < text.len() ==> text[position_of(text, i, c)] == c,
    decreases text.len() - i,
{
    if i < text.len() && text[i] != c {
        lemma_position(text, i + 1, c);
    }
}

/// The address that is found stands in the first line that begins with the pane and a
/// tab, behind them; and where none is found, no line begins so.
pub proof fn found_addresses_are_listed(listing: Seq<char>, pane: Seq<char>)
    requires
        forall|k: int| 0 <= k < pane.len() ==> #[trigger] pane[k] != '\t' && pane[k] != '\n',
    ensures
        match listed_target(listing, 0, pane) {
            Some(address) => exists|i: int, end: int| #[trigger]
                tells_address(listing, i, end, pane, address) && forall|j: int, stop: int, other: Seq<char>|
                    tells_address(listing, j, stop, pane, other) ==> i <= j,
            None => forall|i: int, end: int, address: Seq<char>|
                !tells_address(listing, i, end, pane, address),
        },
{
    let (i, end) = lemma_listed(listing, 0, pane);
    match listed_target(listing, 0, pane) {
        Some(address) => {
            assert forall|j: int, stop: int, other: Seq<char>| tells_address(
                listing,
                j,
                stop,
                pane,
                other,
            ) implies i <= j by {}
            assert(tells_address(listing, i, end, pane, address));
        },
        None => {},
    }
}

/// Whether a line is the first one from `start` on that tells the address of a pane.
spec fn first_told(
    listing: Seq<char>,
    start: int,
    i: int,
    end: int,
    pane: Seq<char>,
    address: Seq<char>,
) -> bool {
    &&& tells_address(listing, i, end, pane, address)
    &&& i >= start
    &&& forall|j: int, stop: int, other: Seq<char>| #[trigger]
        tells_address(listing, j, stop, pane, other) && j >= start ==> i <= j
}

proof fn lemma_listed(listing: Seq<char>, start: int, pane: Seq<char>) -> (r: (int, int))
    requires
        0 <= start <= listing.len(),
        start == 0 || listing[start - 1] == '\n',
        forall|k: int| 0 <= k < pane.len() ==> #[trigger] pane[k] != '\t' && pane[k] != '\n',
    ensures
        listed_target(listing, start, pane) matches Some(address) ==> first_told(
            listing,
            start,
            r.0,
            r.1,
            pane,
            address,
        ),
        listed_target(listing, start, pane) is None ==> forall|
            i: int,
            end: int,
            address: Seq<char>,
        |
            #[trigger] tells_address(listing, i, end, pane, address) ==> i < start,
    decreases listing.len() - start,
{
    if start < listing.len() {
        let end = position_of(listing, start, '\n');
        lemma_position(listing, start, '\n');
        let line = line_at(listing, start);
        let tab = position_of(line, 0, '\t');
        lemma_position(line, 0, '\t');
        assert forall|k: int| 0 <= k < line.len() implies #[trigger] line[k] == listing[start
            + k] by {}
        // A line that starts here can only be this one, up to its end.
        assert forall|stop: int, other: Seq<char>| tells_address(
            listing,
            start,
            stop,
            pane,
            other,
        ) implies stop == end && tab == pane.len() && tab < line.len() && line.take(tab)
            == pane by {
            if stop < end {
                assert(listing[stop] == '\n');
            }
            if end < stop {
                assert(listing[end] != '\n');
            }
            assert forall|k: int| 0 <= k < pane.len() implies pane[k] == #[trigger] listing[start
                + k] by {
                assert(listing.subrange(start, start + pane.len())[k] == listing[start + k]);
            }
            assert(pane.len() < line.len());
            assert(line[pane.len() as int] == '\t');
            if tab < pane.len() {
                assert(line[tab] == pane[tab]);
            }
            assert(line.take(tab) =~= pane);
        }
        // No line starts between this one and the next.
        assert forall|j: int, stop: int, other: Seq<char>|
            tells_address(listing, j, stop, pane, other) && start < j implies j >= end + 1 by {
            if j <= end {
                assert(listing[j - 1] != '\n');
            }
        }
        if tab < line.len() && line.take(tab) == pane {
            let address = line.skip(tab + 1);
            assert(pane.len() == tab);
            assert(listing.subrange(start, start + tab) =~= pane) by {
                assert forall|k: int| 0 <= k < tab implies listing.subrange(start, start + tab)[k]
                    == pane[k] by {
                    assert(line.take(tab)[k] == line[k]);
                }
            }
            if end < listing.len() && listing[end - 1] == '\r' {
                assert(end > start);
                assert(line =~= listing.subrange(start, end - 1));
                assert(address =~= listing.subrange(start + tab + 1, end - 1));
            } else {
                assert(line =~= listing.subrange(start, end));
                assert(address =~= listing.subrange(start + tab + 1, end));
            }
            assert(listed_target(listing, start, pane) == Some(address));
            assert(first_told(listing, start, start, end, pane, address));
            (start, end)
        } else if end + 1 < listing.len() {
            let (i, stop) = lemma_listed(listing, end + 1, pane);
            assert(listed_target(listing, start, pane) == listed_target(listing, end + 1, pane));
            match listed_target(listing, end + 1, pane) {
                Some(address) => {
                    assert forall|j: int, other_stop: int, other: Seq<char>| #[trigger]
                        tells_address(listing, j, other_stop, pane, other) && j
                            >= start implies i <= j by {
                        assert(j != start);
                    }
                    assert(first_told(listing, start, i, stop, pane, address));
                },
                None => {
                    assert forall|i: int, stop: int, address: Seq<char>| tells_address(
                        listing,
                        i,
                        stop,
                        pane,
                        address,
                    ) implies i < start by {
                        assert(i != start);
                        assert(i < end + 1);
                    }
                },
            }
            (i, stop)
        } else {
            assert(listed_target(listing, start, pane) is None);
            assert forall|i: int, stop: int, address: Seq<char>| tells_address(
                listing,
                i,
                stop,
                pane,
                address,
            ) implies i < start by {
                assert(i != start);
                if i > start {
                    assert(i >= end + 1);
                }
            }
            (0, 0)
        }
    } else {
        assert(listed_target(listing, start, pane) is None);
        assert forall|i: int, stop: int, address: Seq<char>| tells_address(
            listing,
            i,
            stop,
            pane,
            address,
        ) implies i < start by {}
        (0, 0)
    }
}

/// A navigation that succeeds goes to the address that the listing tells: a client
/// that was named is switched there, and else the one at hand, whose pane is selected,
/// too. The address is what the navigation arrives at.
pub proof fn navigation_goes_to_the_address(
    pane: Seq<char>,
    client: Option<String>,
    listing: String,
    address: Seq<char>,
    first_answer: String,
    second_answer: String,
    switch: NavigationStep,
    select: NavigationStep,
    arrival: NavigationStep,
)
    requires
        listed_target(listing@, 0, pane) == Some(address),
        next_step(pane, NavigationStage::Listing { client }, Ok(listing), switch),
        switch is Run ==> next_step(pane, switch->stage, Ok(first_answer), select),
        client is None && select is Run ==> next_step(
            pane,
            select->stage,
            Ok(second_answer),
            arrival,
        ),
    ensures
        switch matches NavigationStep::Run { args, .. } && texts(args@) == match client {
            Some(name) => seq!["switch-client"@, "-c"@, name@, "-t"@, address],
            None => seq!["switch-client"@, "-t"@, address],
        },
        client is Some ==> (select matches NavigationStep::Arrived(target) && target@ == address),
        client is None ==> (select matches NavigationStep::Run { args, .. } && texts(args@)
            == seq!["select-pane"@, "-t"@, pane]),
        client is None ==> (arrival matches NavigationStep::Arrived(target) && target@ == address),
{
}

/// A navigation fails where tmux does, with its reason, and where the pane is not
/// listed any more; it never arrives then.
pub proof fn navigation_fails_as_tmux_does(
    pane: Seq<char>,
    stage: NavigationStage,
    answer: Result<String, String>,
    step: NavigationStep,
)
    requires
        next_step(pane, stage, answer, step),
    ensures
        answer matches Err(reason) ==> step == NavigationStep::Failed(
            NavigationError::Failed(reason),
        ),
        stage is Listing ==> !(step is Arrived),
        answer matches Ok(listing) ==> stage is Listing ==> listed_target(listing@, 0, pane) is None
            ==> (step matches NavigationStep::Failed(NavigationError::Missing(text)) && text@
            == "tmux pane "@ + pane + " is no longer available"@),
        step is Failed ==> answer is Err || stage is Listing,
{
}

/// A shell is never navigated to: it is said where it was, and nothing is run.
pub proof fn shells_cannot_be_reached(cwd: Seq<char>, step: NavigationStep)
    requires
        unavailable(cwd, step),
    ensures
        step matches NavigationStep::Failed(NavigationError::Unavailable(text)) && text@
            == "terminal navigation unavailable: run was started in a shell at "@ + cwd,
{
}

/// Where a command is focused, nothing is written but its acknowledgment, and only once
/// its host was reached: right away where it was acknowledged before, else once it was
/// read that it does not run any more. A failure of tmux or of storage ends the focus.
pub proof fn focus_acknowledges_ended_commands(
    run: ProcessRun,
    event: FocusEvent<ProcessState>,
    after: ProcessRun,
    r: FocusStep,
)
    requires
        run.focused(event, after, r),
    ensures
        r matches FocusStep::Write { job, .. } ==> job == (Job::AcknowledgeProcess { id: run.id }),
        match event {
            FocusEvent::Asked(_) => run.orchestrator is Tmux ==> r is Tmux || r is Failed,
            FocusEvent::Tmux { stage, output } => {
                &&& after == run
                &&& run.orchestrator is Tmux ==> (output matches Err(reason) ==> r
                    == FocusStep::Failed(Error::Navigation(NavigationError::Failed(reason))))
                &&& stage is Listing && run.orchestrator is Tmux ==> r is Tmux || r is Failed
                &&& stage is Selecting && output is Ok && run.orchestrator is Tmux ==> if run.state is Acknowledged {
                    r matches FocusStep::Write { target, .. } && target == stage->Selecting_target
                } else {
                    r == (FocusStep::Read { target: stage->Selecting_target })
                }
            },
            FocusEvent::Read { target, answer } => match answer {
                Err(error) => run.state is Running ==> r == FocusStep::Failed(error) && after
                    == run,
                Ok(state) => run.state is Running ==> after == (ProcessRun { state, ..run }) && (
                state is Running ==> r == FocusStep::Arrived(target)) && (!(state is Running)
                    ==> (r matches FocusStep::Write { target: to, .. } && to == target)),
            },
            FocusEvent::Written { target, answer } => match answer {
                Err(error) => r == FocusStep::Failed(error) && after == run,
                Ok(state) => run.state is Running ==> r == FocusStep::Arrived(target) && after == (
                ProcessRun { state, ..run }),
            },
        },
{
}

/// Where an agent is focused, nothing is written but the acknowledgment of that agent,
/// provided that it is done, and only once its host was reached.
pub proof fn focus_acknowledges_agents_that_are_done(
    run: AgentRun,
    event: FocusEvent<(AgentStatus, bool)>,
    after: AgentRun,
    r: FocusStep,
)
    requires
        run.focused(event, after, r),
    ensures
        r matches FocusStep::Write { job, .. } ==> job == (Job::AcknowledgeAgentIfDone {
            id: run.id,
        }),
        match event {
            FocusEvent::Asked(_) => run.orchestrator is Tmux ==> r is Tmux || r is Failed,
            FocusEvent::Tmux { stage, output } => {
                &&& after == run
                &&& run.orchestrator is Tmux ==> (output matches Err(reason) ==> r
                    == FocusStep::Failed(Error::Navigation(NavigationError::Failed(reason))))
                &&& stage is Listing && run.orchestrator is Tmux ==> r is Tmux || r is Failed
                &&& stage is Selecting && output is Ok && run.orchestrator is Tmux ==> (r matches FocusStep::Write { target, .. }
                    && target == stage->Selecting_target)
            },
            FocusEvent::Read { target, .. } => after == run && (r matches FocusStep::Write {
                target: to,
                ..
            } && to == target),
            FocusEvent::Written { target, answer } => match answer {
                Err(error) => r == FocusStep::Failed(error) && after == run,
                Ok((status, acknowledged)) => run.status == status && (acknowledged ==> status
                    == AgentStatus::Done) ==> r == FocusStep::Arrived(target) && after == (AgentRun {
                    acknowledged,
                    ..run
                }),
            },
        },
{
}

/// Hosts are named by their kind, and panes with their number; what is shown of a host
/// is its directory and its pane.
pub proof fn hosts_are_described(host: Orchestrator)
    ensures
        host matches Orchestrator::Shell(shell) ==> host.description() == "shell"@
            && host.directory() == shell.cwd@ && !host.is_tmux() && host.shown() == (
        OrchestratorSnapshot::Shell { cwd: shell.cwd }),
        host matches Orchestrator::Tmux(tmux) ==> host.description() == "tmux "@ + tmux.pane@
            && host.directory() == tmux.cwd@ && host.is_tmux() && host.shown() == (
        OrchestratorSnapshot::Tmux { cwd: tmux.cwd, pane: tmux.pane }),
        host.shown().description() == host.description(),
        host.shown().directory() == host.directory(),
        host.shown().is_tmux() == host.is_tmux(),
{
}

} // verus!
