//! Where a tracked item was started, and the way back there.

use vstd::prelude::*;
use vstd::string::*;

use crate::error::{about, Error, NavigationError};
use crate::storage::Storage;
use crate::text::{
    chars_of, join, joined, same_chars, same_text, signed, starts_with, text_after, text_of, texts,
    trim, trimmed,
};

verus! {

/// A plain shell: it has a working directory, and no way back.
pub struct Shell {
    pub id: i64,
    pub cwd: String,
    pub storage: Storage,
}

/// A pane of the tmux server.
pub struct Tmux {
    pub id: i64,
    pub cwd: String,
    pub pane: String,
    pub storage: Storage,
}

/// The host that a tracked item was started in.
pub enum Orchestrator {
    Shell(Shell),
    Tmux(Tmux),
}

/// What is shown of a host.
#[derive(Debug)]
pub enum OrchestratorSnapshot {
    Shell { cwd: String },
    Tmux { cwd: String, pane: String },
}

/// The name of a kind of host.
pub open spec fn kind_text(tmux: bool) -> Seq<char> {
    if tmux {
        "tmux"@
    } else {
        "shell"@
    }
}

/// The kinds of hosts have different names.
pub proof fn kinds_are_told_apart()
    ensures
        forall|tmux: bool| (#[trigger] kind_text(tmux) == "tmux"@) == tmux,
{
    reveal_strlit("tmux");
    reveal_strlit("shell");
    assert("shell"@.len() != "tmux"@.len());
}

impl Orchestrator {
    pub open spec fn is_tmux(self) -> bool {
        self is Tmux
    }

    pub open spec fn row_id(self) -> i64 {
        match self {
            Orchestrator::Shell(value) => value.id,
            Orchestrator::Tmux(value) => value.id,
        }
    }

    pub open spec fn directory(self) -> Seq<char> {
        match self {
            Orchestrator::Shell(value) => value.cwd@,
            Orchestrator::Tmux(value) => value.cwd@,
        }
    }

    /// The pane, where there is one.
    pub open spec fn pane(self) -> Option<Seq<char>> {
        match self {
            Orchestrator::Shell(_) => None,
            Orchestrator::Tmux(value) => Some(value.pane@),
        }
    }

    pub open spec fn home(self) -> Storage {
        match self {
            Orchestrator::Shell(value) => value.storage,
            Orchestrator::Tmux(value) => value.storage,
        }
    }

    /// How the host is described.
    pub open spec fn description(self) -> Seq<char> {
        match self.pane() {
            None => "shell"@,
            Some(pane) => "tmux "@ + pane,
        }
    }

    /// Restores a shell from its stored row.
    pub fn restore_shell(storage: Storage, id: i64, cwd: String) -> (r: Result<Self, Error>)
        ensures
            match r {
                Ok(value) => id > 0 && value == Orchestrator::Shell(Shell { id, cwd, storage }),
                Err(error) => id <= 0 && error.is_corrupt(
                    "invalid shell id "@ + signed(id as int),
                ),
            },
    {
        proof {
            reveal_strlit("");
        }
        if id <= 0 {
            return Err(Error::CorruptData(about("invalid shell id ", id, "")));
        }
        Ok(Orchestrator::Shell(Shell { id, cwd, storage }))
    }

    /// Restores a tmux pane from its stored row.
    pub fn restore_tmux(storage: Storage, id: i64, cwd: String, pane: String) -> (r: Result<
        Self,
        Error,
    >)
        ensures
            match r {
                Ok(value) => id > 0 && pane@.len() > 0 && value == Orchestrator::Tmux(
                    Tmux { id, cwd, pane, storage },
                ),
                Err(error) => (id <= 0 || pane@.len() == 0) && error.is_corrupt(
                    "invalid tmux destination "@ + signed(id as int),
                ),
            },
    {
        proof {
            reveal_strlit("");
        }
        if id <= 0 || pane.as_str().is_empty() {
            return Err(Error::CorruptData(about("invalid tmux destination ", id, "")));
        }
        Ok(Orchestrator::Tmux(Tmux { id, cwd, pane, storage }))
    }

    /// The number of the row that describes the host.
    pub fn id(&self) -> (r: i64)
        ensures
            r == self.row_id(),
    {
        match self {
            Orchestrator::Shell(value) => value.id,
            Orchestrator::Tmux(value) => value.id,
        }
    }

    /// The kind of the host.
    pub fn kind(&self) -> (r: &'static str)
        ensures
            r@ == kind_text(self.is_tmux()),
    {
        match self {
            Orchestrator::Shell(_) => "shell",
            Orchestrator::Tmux(_) => "tmux",
        }
    }

    /// The working directory at the start.
    pub fn cwd(&self) -> (r: &String)
        ensures
            r@ == self.directory(),
    {
        match self {
            Orchestrator::Shell(value) => &value.cwd,
            Orchestrator::Tmux(value) => &value.cwd,
        }
    }

    /// The kind of the host, with its pane where it has one.
    pub fn describe(&self) -> (r: String)
        ensures
            r@ == self.description(),
    {
        match self {
            Orchestrator::Shell(_) => "shell".to_owned(),
            Orchestrator::Tmux(value) => "tmux ".to_owned().concat(value.pane.as_str()),
        }
    }

    /// What is shown of the host.
    pub fn snapshot(&self) -> (r: OrchestratorSnapshot)
        ensures
            r == self.shown(),
    {
        match self {
            Orchestrator::Shell(value) => OrchestratorSnapshot::Shell { cwd: value.cwd.clone() },
            Orchestrator::Tmux(value) => OrchestratorSnapshot::Tmux {
                cwd: value.cwd.clone(),
                pane: value.pane.clone(),
            },
        }
    }

    /// What is shown of the host.
    pub open spec fn shown(self) -> OrchestratorSnapshot {
        match self {
            Orchestrator::Shell(value) => OrchestratorSnapshot::Shell { cwd: value.cwd },
            Orchestrator::Tmux(value) => OrchestratorSnapshot::Tmux {
                cwd: value.cwd,
                pane: value.pane,
            },
        }
    }

    /// Whether the host was read from the given storage.
    pub fn belongs_to(&self, storage: &Storage) -> (r: bool)
        ensures
            r == self.home().same(*storage),
    {
        match self {
            Orchestrator::Shell(value) => value.storage.same_storage(storage),
            Orchestrator::Tmux(value) => value.storage.same_storage(storage),
        }
    }

    /// The first step of navigating to the host.
    pub fn navigate(&self, args: &[String]) -> (r: NavigationStep)
        ensures
            match *self {
                Orchestrator::Shell(value) => unavailable(value.cwd@, r),
                Orchestrator::Tmux(_) => first_step(args@, r),
            },
            r matches NavigationStep::Run { args: run, .. } ==> texts(run@) == seq!["list-panes"@, "-a"@, "-F"@,
                "#{pane_id}\t#{session_name}:#{window_index}.#{pane_index}"@],
    {
        match self {
            Orchestrator::Shell(value) => NavigationStep::Failed(value.navigate(args)),
            Orchestrator::Tmux(value) => value.navigate(args),
        }
    }

    /// The step behind an answer of tmux; a shell has none.
    pub fn resume(&self, stage: NavigationStage, answer: Result<String, String>) -> (r:
        NavigationStep)
        ensures
            match *self {
                Orchestrator::Shell(value) => unavailable(value.cwd@, r),
                Orchestrator::Tmux(value) => next_step(value.pane@, stage, answer, r),
            },
    {
        match self {
            Orchestrator::Shell(value) => NavigationStep::Failed(value.navigate(&[])),
            Orchestrator::Tmux(value) => value.resume(stage, answer),
        }
    }
}

/// How far a navigation has come.
pub enum NavigationStage {
    /// The panes are being listed.
    Listing { client: Option<String> },
    /// The client is being switched to the target.
    Switching { target: String, select: bool },
    /// The pane is being selected.
    Selecting { target: String },
}

/// What a navigation does next.
pub enum NavigationStep {
    /// Run tmux with these arguments, and go on with its answer.
    Run { stage: NavigationStage, args: Vec<String> },
    /// The target was reached.
    Arrived(String),
    /// The navigation failed.
    Failed(NavigationError),
}

/// The answer of a shell to every navigation.
pub open spec fn unavailable(cwd: Seq<char>, step: NavigationStep) -> bool {
    step matches NavigationStep::Failed(NavigationError::Unavailable(text)) && text@
        == "terminal navigation unavailable: run was started in a shell at "@ + cwd
}

/// The client that navigation arguments name, where they are supported.
pub enum ClientChoice {
    /// No client is named.
    Any,
    /// One client is named.
    Named(Seq<char>),
    /// A client is announced, and not named.
    Unnamed,
    /// The arguments are not understood.
    Unsupported,
}

/// What navigation arguments say about the client.
pub open spec fn client_choice(args: Seq<Seq<char>>) -> ClientChoice {
    if args.len() == 0 {
        ClientChoice::Any
    } else if args.len() == 2 && args[0] == "--client"@ && args[1].len() > 0 {
        ClientChoice::Named(args[1])
    } else if args.len() == 1 && "--client="@.is_prefix_of(args[0]) && args[0]
        != "--client="@ {
        ClientChoice::Named(args[0].skip("--client="@.len() as int))
    } else if args.len() == 1 && (args[0] == "--client"@ || args[0] == "--client="@) {
        ClientChoice::Unnamed
    } else {
        ClientChoice::Unsupported
    }
}

/// The text of arguments that are not understood.
pub open spec fn unsupported_text(args: Seq<Seq<char>>) -> Seq<char> {
    "unsupported tmux navigation arguments: "@ + joined(args, " "@)
}

/// The client that the arguments of a tmux navigation name.
pub fn tmux_client(args: &[String]) -> (r: Result<Option<String>, NavigationError>)
    ensures
        match (client_choice(texts(args@)), r) {
            (ClientChoice::Any, Ok(None)) => true,
            (ClientChoice::Named(client), Ok(Some(named))) => named@ == client,
            (ClientChoice::Unnamed, Err(NavigationError::Invalid(text))) => text@
                == "tmux navigation option --client requires a value"@,
            (ClientChoice::Unsupported, Err(NavigationError::Invalid(text))) => text@
                == unsupported_text(texts(args@)),
            _ => false,
        },
{
    proof {
        reveal_strlit("--client=");
        reveal_strlit("--client");
        assert(forall|i: int|
            0 <= i < args@.len() ==> texts(args@)[i] == (#[trigger] args@[i])@);
    }
    if args.len() == 0 {
        return Ok(None);
    }
    if args.len() == 2 && same_text(args[0].as_str(), "--client") && !args[1].as_str().is_empty() {
        return Ok(Some(args[1].clone()));
    }
    if args.len() == 1 {
        let option: &str = args[0].as_str();
        if starts_with(option, "--client=") {
            if !same_text(option, "--client=") {
                return Ok(Some(text_after(option, 9)));
            }
            return Err(
                NavigationError::Invalid(
                    "tmux navigation option --client requires a value".to_owned(),
                ),
            );
        }
        if same_text(option, "--client") {
            return Err(
                NavigationError::Invalid(
                    "tmux navigation option --client requires a value".to_owned(),
                ),
            );
        }
    }
    Err(
        NavigationError::Invalid(
            "unsupported tmux navigation arguments: ".to_owned().concat(join(args, " ").as_str()),
        ),
    )
}

impl Shell {
    /// A shell cannot be navigated to.
    pub fn navigate(&self, _args: &[String]) -> (r: NavigationError)
        ensures
            unavailable(self.cwd@, NavigationStep::Failed(r)),
    {
        NavigationError::Unavailable(
            "terminal navigation unavailable: run was started in a shell at ".to_owned().concat(
                self.cwd.as_str(),
            ),
        )
    }
}

/// The arguments that list every pane with its display address.
pub open spec fn list_args() -> Seq<Seq<char>> {
    seq![
        "list-panes"@,
        "-a"@,
        "-F"@,
        "#{pane_id}\t#{session_name}:#{window_index}.#{pane_index}"@,
    ]
}

/// The arguments that switch a client to a target.
pub open spec fn switch_args(client: Option<Seq<char>>, target: Seq<char>) -> Seq<Seq<char>> {
    match client {
        Some(name) => seq!["switch-client"@, "-c"@, name, "-t"@, target],
        None => seq!["switch-client"@, "-t"@, target],
    }
}

/// The arguments that select a pane.
pub open spec fn select_args(pane: Seq<char>) -> Seq<Seq<char>> {
    seq!["select-pane"@, "-t"@, pane]
}

/// The characters of a text that may be missing.
pub open spec fn some_text(text: Option<String>) -> Option<Seq<char>> {
    match text {
        Some(value) => Some(value@),
        None => None,
    }
}

/// How a navigation to a pane starts: the panes are listed, unless the
/// arguments are refused.
pub open spec fn first_step(args: Seq<String>, step: NavigationStep) -> bool {
    match (client_choice(texts(args)), step) {
        (ClientChoice::Any, NavigationStep::Run { stage, args: run }) => {
            &&& stage matches NavigationStage::Listing { client: None }
            &&& texts(run@) == list_args()
        },
        (ClientChoice::Named(name), NavigationStep::Run { stage, args: run }) => {
            &&& stage matches NavigationStage::Listing { client: Some(client) } && client@ == name
            &&& texts(run@) == list_args()
        },
        (ClientChoice::Unnamed, NavigationStep::Failed(NavigationError::Invalid(text))) => text@
            == "tmux navigation option --client requires a value"@,
        (ClientChoice::Unsupported, NavigationStep::Failed(NavigationError::Invalid(text))) => text@
            == unsupported_text(texts(args)),
        _ => false,
    }
}

/// The first position from `i` on that holds `c`; the length where there is none.
pub open spec fn position_of(text: Seq<char>, i: int, c: char) -> int
    decreases text.len() - i,
{
    if 0 <= i < text.len() && text[i] != c {
        position_of(text, i + 1, c)
    } else {
        i
    }
}

/// The line that starts at `i`, without its line ending.
pub open spec fn line_at(text: Seq<char>, i: int) -> Seq<char> {
    let end = position_of(text, i, '\n');
    if end < text.len() && end > i && text[end - 1] == '\r' {
        text.subrange(i, end - 1)
    } else {
        text.subrange(i, end)
    }
}

/// The display address that a pane listing gives for a pane, in the lines from
/// position `i` on: what stands behind the tab of the first line whose text
/// before the tab is the pane.
pub open spec fn listed_target(listing: Seq<char>, i: int, pane: Seq<char>) -> Option<Seq<char>>
    decreases listing.len() - i,
{
    if i < 0 || i >= listing.len() {
        None
    } else {
        let line = line_at(listing, i);
        let tab = position_of(line, 0, '\t');
        let next = position_of(listing, i, '\n') + 1;
        if tab < line.len() && line.take(tab) == pane {
            Some(line.skip(tab + 1))
        } else if i < next < listing.len() {
            listed_target(listing, next, pane)
        } else {
            None
        }
    }
}

/// How a navigation to a pane goes on behind an answer of tmux.
pub open spec fn next_step(
    pane: Seq<char>,
    stage: NavigationStage,
    answer: Result<String, String>,
    step: NavigationStep,
) -> bool {
    match (stage, answer) {
        (_, Err(reason)) => step == NavigationStep::Failed(NavigationError::Failed(reason)),
        (NavigationStage::Listing { client }, Ok(listing)) => match listed_target(
            listing@,
            0,
            pane,
        ) {
            None => step matches NavigationStep::Failed(NavigationError::Missing(text)) && text@
                == "tmux pane "@ + pane + " is no longer available"@,
            Some(found) => {
                &&& step matches NavigationStep::Run { stage: after, args }
                &&& after matches NavigationStage::Switching { target, select } && target@ == found
                    && select == (client is None)
                &&& texts(args@) == switch_args(some_text(client), found)
            },
        },
        (NavigationStage::Switching { target, select }, Ok(_)) => if select {
            &&& step matches NavigationStep::Run { stage: after, args }
            &&& after == (NavigationStage::Selecting { target })
            &&& texts(args@) == select_args(pane)
        } else {
            step == NavigationStep::Arrived(target)
        },
        (NavigationStage::Selecting { target }, Ok(_)) => step == NavigationStep::Arrived(target),
    }
}

fn find(text: &Vec<char>, start: usize, c: char) -> (r: usize)
    requires
        start <= text.len(),
    ensures
        r == position_of(text@, start as int, c),
        start <= r <= text.len(),
        r < text.len() ==> text@[r as int] == c,
{
    let mut i: usize = start;
    while i < text.len() && text[i] != c
        invariant
            start <= i <= text.len(),
            position_of(text@, start as int, c) == position_of(text@, i as int, c),
        decreases text.len() - i,
    {
        i += 1;
    }
    i
}

fn part(text: &Vec<char>, start: usize, end: usize) -> (r: Vec<char>)
    requires
        start <= end <= text.len(),
    ensures
        r@ == text@.subrange(start as int, end as int),
{
    let mut out: Vec<char> = Vec::new();
    let mut i: usize = start;
    while i < end
        invariant
            start <= i <= end <= text.len(),
            out@ == text@.subrange(start as int, i as int),
        decreases end - i,
    {
        out.push(text[i]);
        assert(text@.subrange(start as int, i + 1) =~= text@.subrange(start as int, i as int).push(
            text@[i as int],
        ));
        i += 1;
    }
    out
}

/// The display address that a pane listing gives for a pane.
pub fn find_target(listing: &str, pane: &str) -> (r: Option<String>)
    ensures
        some_text(r) == listed_target(listing@, 0, pane@),
{
    let text: Vec<char> = chars_of(listing);
    let wanted: Vec<char> = chars_of(pane);
    let mut i: usize = 0;
    while i < text.len()
        invariant
            i <= text.len(),
            text@ == listing@,
            wanted@ == pane@,
            listed_target(text@, 0, pane@) == listed_target(text@, i as int, pane@),
        decreases text.len() - i,
    {
        let end: usize = find(&text, i, '\n');
        let stop: usize = if end < text.len() && end > i && text[end - 1] == '\r' {
            end - 1
        } else {
            end
        };
        let line: Vec<char> = part(&text, i, stop);
        let tab: usize = find(&line, 0, '\t');
        if tab < line.len() {
            let name: Vec<char> = part(&line, 0, tab);
            assert(name@ =~= line@.take(tab as int));
            if same_chars(&name, &wanted) {
                let rest: Vec<char> = part(&line, tab + 1, line.len());
                assert(rest@ =~= line@.skip(tab + 1));
                return Some(text_of(&rest));
            }
        }
        if end == text.len() {
            return None;
        }
        i = end + 1;
    }
    None
}

fn pushed(mut list: Vec<String>, text: &str) -> (r: Vec<String>)
    ensures
        texts(r@) == texts(list@).push(text@),
{
    list.push(text.to_owned());
    assert(texts(list@) =~= texts(list@.drop_last()).push(text@));
    list
}

impl Tmux {
    /// The first step of navigating to the pane.
    pub fn navigate(&self, args: &[String]) -> (r: NavigationStep)
        ensures
            first_step(args@, r),
            r matches NavigationStep::Run { args: run, .. } ==> texts(run@) == seq!["list-panes"@, "-a"@, "-F"@,
                "#{pane_id}\t#{session_name}:#{window_index}.#{pane_index}"@],
    {
        match tmux_client(args) {
            Err(error) => NavigationStep::Failed(error),
            Ok(client) => {
                let run: Vec<String> = Vec::new();
                assert(texts(run@) =~= Seq::empty());
                let run: Vec<String> = pushed(run, "list-panes");
                let run: Vec<String> = pushed(run, "-a");
                let run: Vec<String> = pushed(run, "-F");
                let run: Vec<String> = pushed(
                    run,
                    "#{pane_id}\t#{session_name}:#{window_index}.#{pane_index}",
                );
                assert(texts(run@) =~= list_args());
                NavigationStep::Run { stage: NavigationStage::Listing { client }, args: run }
            },
        }
    }

    /// The step behind an answer of tmux.
    pub fn resume(&self, stage: NavigationStage, answer: Result<String, String>) -> (r:
        NavigationStep)
        ensures
            next_step(self.pane@, stage, answer, r),
    {
        let output: String = match answer {
            Err(reason) => {
                return NavigationStep::Failed(NavigationError::Failed(reason));
            },
            Ok(output) => output,
        };
        match stage {
            NavigationStage::Listing { client } => {
                match find_target(output.as_str(), self.pane.as_str()) {
                    None => {
                        let mut text: String = "tmux pane ".to_owned();
                        text.append(self.pane.as_str());
                        text.append(" is no longer available");
                        NavigationStep::Failed(NavigationError::Missing(text))
                    },
                    Some(target) => {
                        let run: Vec<String> = Vec::new();
                        assert(texts(run@) =~= Seq::empty());
                        let run: Vec<String> = pushed(run, "switch-client");
                        let select: bool = client.is_none();
                        let ghost chosen = some_text(client);
                        let run: Vec<String> = match client {
                            None => run,
                            Some(name) => pushed(pushed(run, "-c"), name.as_str()),
                        };
                        let run: Vec<String> = pushed(pushed(run, "-t"), target.as_str());
                        assert(texts(run@) =~= switch_args(chosen, target@));
                        NavigationStep::Run {
                            stage: NavigationStage::Switching { target, select },
                            args: run,
                        }
                    },
                }
            },
            NavigationStage::Switching { target, select } => {
                if select {
                    let run: Vec<String> = Vec::new();
                    assert(texts(run@) =~= Seq::empty());
                    let run: Vec<String> = pushed(
                        pushed(pushed(run, "select-pane"), "-t"),
                        self.pane.as_str(),
                    );
                    assert(texts(run@) =~= select_args(self.pane@));
                    NavigationStep::Run { stage: NavigationStage::Selecting { target }, args: run }
                } else {
                    NavigationStep::Arrived(target)
                }
            },
            NavigationStage::Selecting { target } => NavigationStep::Arrived(target),
        }
    }
}

impl OrchestratorSnapshot {
    pub open spec fn is_tmux(self) -> bool {
        self is Tmux
    }

    pub open spec fn directory(self) -> Seq<char> {
        match self {
            OrchestratorSnapshot::Shell { cwd } => cwd@,
            OrchestratorSnapshot::Tmux { cwd, pane: _ } => cwd@,
        }
    }

    pub open spec fn description(self) -> Seq<char> {
        match self {
            OrchestratorSnapshot::Shell { cwd: _ } => "shell"@,
            OrchestratorSnapshot::Tmux { cwd: _, pane } => "tmux "@ + pane@,
        }
    }

    /// The kind of the host.
    pub fn kind(&self) -> (r: &'static str)
        ensures
            r@ == kind_text(self.is_tmux()),
    {
        match self {
            OrchestratorSnapshot::Shell { cwd: _ } => "shell",
            OrchestratorSnapshot::Tmux { cwd: _, pane: _ } => "tmux",
        }
    }

    /// The working directory at the start.
    pub fn cwd(&self) -> (r: &str)
        ensures
            r@ == self.directory(),
    {
        match self {
            OrchestratorSnapshot::Shell { cwd } => cwd.as_str(),
            OrchestratorSnapshot::Tmux { cwd, pane: _ } => cwd.as_str(),
        }
    }

    /// The kind of the host, with its pane where it has one.
    pub fn describe(&self) -> (r: String)
        ensures
            r@ == self.description(),
    {
        match self {
            OrchestratorSnapshot::Shell { cwd: _ } => "shell".to_owned(),
            OrchestratorSnapshot::Tmux { cwd: _, pane } => "tmux ".to_owned().concat(
                pane.as_str(),
            ),
        }
    }
}

/// What is read of the process environment: the working directory, or why it is
/// not known, and the variables.
pub struct Environment {
    pub cwd: Result<String, String>,
    pub vars: Vec<(String, String)>,
}

/// The value of the first variable with a name, where it has one and it is not
/// empty.
pub open spec fn variable(vars: Seq<(String, String)>, key: Seq<char>) -> Option<Seq<char>>
    decreases vars.len(),
{
    if vars.len() == 0 {
        None
    } else if vars[0].0@ == key {
        if vars[0].1@.len() > 0 {
            Some(vars[0].1@)
        } else {
            None
        }
    } else {
        variable(vars.drop_first(), key)
    }
}

impl Environment {
    /// The value of a variable, unless it is missing or empty.
    pub fn var(&self, key: &str) -> (r: Option<String>)
        ensures
            some_text(r) == variable(self.vars@, key@),
    {
        let mut i: usize = 0;
        assert(self.vars@.skip(0) =~= self.vars@);
        while i < self.vars.len()
            invariant
                i <= self.vars.len(),
                variable(self.vars@, key@) == variable(self.vars@.skip(i as int), key@),
            decreases self.vars.len() - i,
        {
            assert(self.vars@.skip(i as int).drop_first() =~= self.vars@.skip(i + 1));
            if same_text(self.vars[i].0.as_str(), key) {
                if self.vars[i].1.as_str().is_empty() {
                    return None;
                }
                return Some(self.vars[i].1.clone());
            }
            i += 1;
        }
        None
    }
}

/// The pane that the environment names: there is none unless a tmux server is
/// named too.
pub open spec fn current_pane(vars: Seq<(String, String)>) -> Option<Seq<char>> {
    if variable(vars, "TMUX"@) is Some {
        variable(vars, "TMUX_PANE"@)
    } else {
        None
    }
}

/// The working directory and the pane that an item is started in.
pub fn detect(env: &Environment) -> (r: Result<(String, Option<String>), String>)
    ensures
        match (env.cwd, r) {
            (Ok(cwd), Ok((found, pane))) => found == cwd && some_text(pane) == current_pane(
                env.vars@,
            ),
            (Err(reason), Err(error)) => error == reason,
            _ => false,
        },
{
    match &env.cwd {
        Err(reason) => Err(reason.clone()),
        Ok(cwd) => Ok((cwd.clone(), detect_tmux(env))),
    }
}

/// The pane that the environment names.
pub fn detect_tmux(env: &Environment) -> (r: Option<String>)
    ensures
        some_text(r) == current_pane(env.vars@),
{
    match env.var("TMUX") {
        None => None,
        Some(_) => env.var("TMUX_PANE"),
    }
}

/// What tmux did: whether it succeeded, what it printed, and what it complained
/// about.
pub struct TmuxRun {
    pub success: bool,
    pub stdout: String,
    pub stderr: String,
}

/// The answer of tmux, or why there is none.
pub fn tmux_output(run: Result<TmuxRun, String>) -> (r: Result<String, String>)
    ensures
        match (run, r) {
            (Err(reason), Err(text)) => text@ == "could not run tmux: "@ + reason@,
            (Ok(run), Err(text)) => !run.success && text@ == trimmed(run.stderr@),
            (Ok(run), Ok(text)) => run.success && text == run.stdout,
            (Err(_), Ok(_)) => false,
        },
{
    match run {
        Err(reason) => Err("could not run tmux: ".to_owned().concat(reason.as_str())),
        Ok(run) => {
            if run.success {
                Ok(run.stdout)
            } else {
                Err(trim(run.stderr.as_str()))
            }
        },
    }
}

} // verus!
