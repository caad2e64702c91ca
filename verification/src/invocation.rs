use vstd::prelude::*;
use crate::config::{CommandConfig, CommandView};
use crate::error::SyncError;
use crate::sync::{ParsedSync, ParsedSyncView};
use crate::text::{copy_texts, texts};

verus! {

/// One command of a sync invocation.
#[derive(Debug, PartialEq, Eq)]
pub enum SyncCommand {
    /// Run the sync tool `program` with the arguments `args`.
    Transfer { program: String, args: Vec<String> },
    /// Hand the text `command` to the shell, with the bindings `env` added
    /// to its environment.
    Hook { command: String, env: Vec<(String, String)>, continue_on_failure: bool },
}

/// What a command is, as plain values.
pub enum SyncCommandView {
    Transfer { program: Seq<char>, args: Seq<Seq<char>> },
    Hook { command: Seq<char>, env: Seq<(Seq<char>, Seq<char>)>, continue_on_failure: bool },
}

/// The bindings of a list, as plain values.
pub open spec fn env_view(env: Seq<(String, String)>) -> Seq<(Seq<char>, Seq<char>)> {
    env.map_values(|pair: (String, String)| (pair.0@, pair.1@))
}

impl View for SyncCommand {
    type V = SyncCommandView;

    open spec fn view(&self) -> SyncCommandView {
        match *self {
            SyncCommand::Transfer { program, args } => SyncCommandView::Transfer {
                program: program@,
                args: texts(args@),
            },
            SyncCommand::Hook { command, env, continue_on_failure } => SyncCommandView::Hook {
                command: command@,
                env: env_view(env@),
                continue_on_failure,
            },
        }
    }
}

/// The commands of a list, as plain values.
pub open spec fn commands_of(commands: Seq<SyncCommand>) -> Seq<SyncCommandView> {
    commands.map_values(|c: SyncCommand| c@)
}

/// The sync tool to run: the one that is named, or `rsync`.
pub open spec fn tool_name(rsync: Option<Seq<char>>) -> Seq<char> {
    match rsync {
        Some(program) => program,
        None => "rsync"@,
    }
}

/// The arguments of the sync tool: the flags of the rule, then its source,
/// then its destination.
pub open spec fn transfer_args(s: ParsedSyncView, dst: Seq<char>) -> Seq<Seq<char>> {
    s.rsync_flags.push(s.src).push(dst)
}

/// The transfer of a rule: one run of the sync tool where the rule has a
/// destination, nothing where it has none.
pub open spec fn transfer_commands(s: ParsedSyncView, rsync: Option<Seq<char>>) -> Seq<
    SyncCommandView,
> {
    match s.dst {
        Some(dst) => seq![
            SyncCommandView::Transfer { program: tool_name(rsync), args: transfer_args(s, dst) },
        ],
        None => Seq::empty(),
    }
}

/// What a hook of the rule finds in its environment: the source of the
/// rule, and its destination where it has one.
pub open spec fn hook_env(s: ParsedSyncView) -> Seq<(Seq<char>, Seq<char>)> {
    match s.dst {
        Some(dst) => seq![("ATUNE_SYNC_SRC"@, s.src), ("ATUNE_SYNC_DST"@, dst)],
        None => seq![("ATUNE_SYNC_SRC"@, s.src)],
    }
}

/// One shell command for each hook, in order.
pub open spec fn hook_commands(s: ParsedSyncView, hooks: Seq<CommandView>) -> Seq<SyncCommandView> {
    hooks.map_values(
        |hook: CommandView|
            SyncCommandView::Hook {
                command: hook.command,
                env: hook_env(s),
                continue_on_failure: hook.continue_on_failure,
            },
    )
}

/// The hooks that run on the first sync only, where this is the first.
pub open spec fn init_commands(s: ParsedSyncView, initialize: bool) -> Seq<SyncCommandView> {
    if initialize {
        hook_commands(s, s.on_init)
    } else {
        Seq::empty()
    }
}

/// Everything that one sync invocation runs where nothing fails: the
/// transfer, then the hooks of the first sync where this is the first, then
/// the hooks of every sync.
pub open spec fn sync_commands(
    s: ParsedSyncView,
    rsync: Option<Seq<char>>,
    initialize: bool,
) -> Seq<SyncCommandView> {
    transfer_commands(s, rsync) + init_commands(s, initialize) + hook_commands(s, s.on_sync)
}

/// Whether a failure of the command ends the invocation: a failed transfer
/// always does, a failed hook unless it is marked to continue.
pub open spec fn is_fatal(command: SyncCommandView) -> bool {
    match command {
        SyncCommandView::Transfer { .. } => true,
        SyncCommandView::Hook { continue_on_failure, .. } => !continue_on_failure,
    }
}

/// The error that a fatal failure of the command at `position` stands for.
pub open spec fn failure_of(command: SyncCommandView, position: usize) -> SyncError {
    match command {
        SyncCommandView::Transfer { .. } => SyncError::TransferFailed,
        SyncCommandView::Hook { .. } => SyncError::HookFailed(position),
    }
}

/// What a running invocation is, as plain values.
pub struct RunView {
    pub commands: Seq<SyncCommandView>,
    /// How many commands have been run and passed over.
    pub position: usize,
    /// The failure that ended the invocation, if one did.
    pub failed: Option<SyncError>,
}

impl RunView {
    /// The command to run now; `None` once the invocation is over.
    pub open spec fn current(self) -> Option<SyncCommandView> {
        if self.failed is None && self.position < self.commands.len() {
            Some(self.commands[self.position as int])
        } else {
            None
        }
    }

    /// The invocation after the current command has run: it goes on to the
    /// next command unless the command failed fatally.
    pub open spec fn report(self, succeeded: bool) -> RunView {
        match self.current() {
            Some(command) => if succeeded || !is_fatal(command) {
                RunView { position: (self.position + 1) as usize, ..self }
            } else {
                RunView { failed: Some(failure_of(command, self.position)), ..self }
            },
            None => self,
        }
    }

    /// How the invocation ended; `None` while a command is left to run.
    pub open spec fn result(self) -> Option<Result<(), SyncError>> {
        match self.failed {
            Some(e) => Some(Err(e)),
            None => if self.position < self.commands.len() {
                None
            } else {
                Some(Ok(()))
            },
        }
    }
}

/// One sync invocation under way. Its driver runs the current command,
/// reports whether it succeeded, and goes on until no command is current.
#[derive(Debug)]
pub struct SyncRun {
    commands: Vec<SyncCommand>,
    position: usize,
    failed: Option<SyncError>,
}

impl View for SyncRun {
    type V = RunView;

    closed spec fn view(&self) -> RunView {
        RunView {
            commands: commands_of(self.commands@),
            position: self.position,
            failed: self.failed,
        }
    }
}

/// Builds the bindings that a hook of the rule finds in its environment.
pub fn hook_environment(s: &ParsedSync) -> (env: Vec<(String, String)>)
    ensures
        env_view(env@) == hook_env(s@),
{
    let mut env: Vec<(String, String)> = Vec::new();
    env.push(("ATUNE_SYNC_SRC".to_owned(), s.src.clone()));
    match &s.dst {
        Some(dst) => {
            env.push(("ATUNE_SYNC_DST".to_owned(), dst.clone()));
        },
        None => {},
    }
    assert(env_view(env@) == hook_env(s@));
    env
}

/// Appends one shell command for each hook to `commands`.
fn push_hooks(commands: &mut Vec<SyncCommand>, s: &ParsedSync, hooks: &Vec<CommandConfig>)
    ensures
        commands_of(final(commands)@) == commands_of(old(commands)@) + hook_commands(
            s@,
            crate::config::commands_view(hooks@),
        ),
{
    let ghost before = commands_of(commands@);
    let ghost all = hook_commands(s@, crate::config::commands_view(hooks@));
    let mut i: usize = 0;
    assert(before + all.take(0) == before);
    while i < hooks.len()
        invariant
            i <= hooks.len(),
            all == hook_commands(s@, crate::config::commands_view(hooks@)),
            commands_of(commands@) == before + all.take(i as int),
        decreases hooks.len() - i,
    {
        let ghost so_far = commands_of(commands@);
        let env = hook_environment(s);
        let command = SyncCommand::Hook {
            command: hooks[i].command.clone(),
            env,
            continue_on_failure: hooks[i].continue_on_failure,
        };
        assert(command@ == all[i as int]);
        commands.push(command);
        assert(commands_of(commands@) == so_far.push(all[i as int]));
        assert(before + all.take(i + 1) == (before + all.take(i as int)).push(all[i as int]));
        i += 1;
    }
    assert(all.take(i as int) == all);
}

/// Lists everything that one sync invocation of the rule runs where nothing
/// fails.
pub fn plan_sync(s: &ParsedSync, rsync: Option<&str>, initialize: bool) -> (commands: Vec<
    SyncCommand,
>)
    ensures
        commands_of(commands@) == sync_commands(
            s@,
            match rsync {
                Some(program) => Some(program@),
                None => None,
            },
            initialize,
        ),
{
    let mut commands: Vec<SyncCommand> = Vec::new();
    match &s.dst {
        Some(dst) => {
            let program = match rsync {
                Some(program) => program.to_owned(),
                None => "rsync".to_owned(),
            };
            let mut args = copy_texts(&s.rsync_flags);
            let ghost flags = texts(args@);
            args.push(s.src.clone());
            assert(texts(args@) == flags.push(s.src@));
            args.push(dst.clone());
            assert(texts(args@) == flags.push(s.src@).push(dst@));
            commands.push(SyncCommand::Transfer { program, args });
        },
        None => {},
    }
    let ghost tool = match rsync {
        Some(program) => Some(program@),
        None => None,
    };
    assert(commands_of(commands@) == transfer_commands(s@, tool));
    if initialize {
        push_hooks(&mut commands, s, &s.on_init);
    }
    assert(commands_of(commands@) == transfer_commands(s@, tool) + init_commands(s@, initialize));
    push_hooks(&mut commands, s, &s.on_sync);
    commands
}

/// Begins one sync invocation of the rule `s`: the transfer with the tool
/// `rsync`, the hooks of the first sync where `initialize` is set, then the
/// hooks of every sync. Nothing has run yet.
pub fn execute_sync(s: &ParsedSync, rsync: Option<&str>, initialize: bool) -> (run: SyncRun)
    ensures
        run@ == (RunView {
            commands: sync_commands(
                s@,
                match rsync {
                    Some(program) => Some(program@),
                    None => None,
                },
                initialize,
            ),
            position: 0,
            failed: None,
        }),
{
    SyncRun { commands: plan_sync(s, rsync, initialize), position: 0, failed: None }
}

impl SyncRun {
    /// Everything that the invocation runs where nothing fails.
    pub fn commands(&self) -> (commands: &Vec<SyncCommand>)
        ensures
            commands_of(commands@) == self@.commands,
    {
        &self.commands
    }

    /// How many commands have been run and passed over.
    pub fn position(&self) -> (position: usize)
        ensures
            position == self@.position,
    {
        self.position
    }

    /// The command to run now; `None` once the invocation is over.
    pub fn current(&self) -> (command: Option<&SyncCommand>)
        ensures
            match command {
                Some(c) => self@.current() == Some(c@),
                None => self@.current() is None,
            },
    {
        if self.failed.is_none() && self.position < self.commands.len() {
            Some(&self.commands[self.position])
        } else {
            None
        }
    }

    /// Records whether the current command succeeded.
    pub fn report(&mut self, succeeded: bool)
        ensures
            final(self)@ == old(self)@.report(succeeded),
    {
        if self.failed.is_none() && self.position < self.commands.len() {
            let fatal = match &self.commands[self.position] {
                SyncCommand::Transfer { .. } => Some(SyncError::TransferFailed),
                SyncCommand::Hook { continue_on_failure, .. } => if *continue_on_failure {
                    None
                } else {
                    Some(SyncError::HookFailed(self.position))
                },
            };
            match fatal {
                Some(e) => {
                    if succeeded {
                        self.position = self.position + 1;
                    } else {
                        self.failed = Some(e);
                    }
                },
                None => {
                    self.position = self.position + 1;
                },
            }
        }
    }

    /// How the invocation ended; `None` while a command is left to run.
    pub fn result(&self) -> (r: Option<Result<(), SyncError>>)
        ensures
            r == self@.result(),
    {
        match self.failed {
            Some(e) => Some(Err(e)),
            None => if self.position < self.commands.len() {
                None
            } else {
                Some(Ok(()))
            },
        }
    }
}

/// The invocation `run` after its commands have reported `outcomes`, one
/// after the other.
pub open spec fn after(run: RunView, outcomes: Seq<bool>) -> RunView
    decreases outcomes.len(),
{
    if outcomes.len() == 0 {
        run
    } else {
        after(run, outcomes.drop_last()).report(outcomes.last())
    }
}

/// A fresh invocation of `commands`.
pub open spec fn fresh(commands: Seq<SyncCommandView>) -> RunView {
    RunView { commands, position: 0, failed: None }
}

/// An invocation that has failed is over: no command is current, and no
/// report changes it.
pub proof fn lemma_failure_is_final(run: RunView, succeeded: bool)
    requires
        run.failed is Some,
    ensures
        run.current() is None,
        run.report(succeeded) == run,
        run.result() == Some(Err::<(), SyncError>(run.failed->0)),
{
}

/// While no command fails fatally the invocation runs its commands in order:
/// after `outcomes.len()` reports the next command is current, and once all
/// have reported the invocation has succeeded.
pub proof fn lemma_run_proceeds(commands: Seq<SyncCommandView>, outcomes: Seq<bool>)
    requires
        commands.len() <= usize::MAX,
        outcomes.len() <= commands.len(),
        forall|i: int| 0 <= i < outcomes.len() ==> outcomes[i] || !is_fatal(#[trigger] commands[i]),
    ensures
        after(fresh(commands), outcomes) == (RunView {
            commands,
            position: outcomes.len() as usize,
            failed: None,
        }),
        outcomes.len() < commands.len() ==> after(fresh(commands), outcomes).current() == Some(
            commands[outcomes.len() as int],
        ),
        outcomes.len() == commands.len() ==> after(fresh(commands), outcomes).result() == Some(
            Ok::<(), SyncError>(()),
        ),
    decreases outcomes.len(),
{
    if outcomes.len() > 0 {
        lemma_run_proceeds(commands, outcomes.drop_last());
        assert(commands[outcomes.len() - 1] == commands[outcomes.len() - 1]);
    }
}

/// The first fatal failure ends the invocation: where the command at
/// position `k` fails fatally and none before it did, the invocation fails
/// with the error of that command however many reports follow, and no
/// command after it runs. A transfer that fails runs no hook.
pub proof fn lemma_run_fails(commands: Seq<SyncCommandView>, outcomes: Seq<bool>, k: int)
    requires
        commands.len() <= usize::MAX,
        0 <= k < commands.len(),
        k < outcomes.len(),
        forall|i: int| 0 <= i < k ==> outcomes[i] || !is_fatal(#[trigger] commands[i]),
        !outcomes[k],
        is_fatal(commands[k]),
    ensures
        after(fresh(commands), outcomes) == (RunView {
            commands,
            position: k as usize,
            failed: Some(failure_of(commands[k], k as usize)),
        }),
        after(fresh(commands), outcomes).current() is None,
    decreases outcomes.len(),
{
    let init = outcomes.drop_last();
    if outcomes.len() == k + 1 {
        lemma_run_proceeds(commands, init);
    } else {
        lemma_run_fails(commands, init, k);
    }
}

/// The order of an invocation: the transfer comes first, the hooks of the
/// first sync follow, the hooks of every sync come last, each list in its
/// own order.
pub proof fn lemma_sync_order(s: ParsedSyncView, rsync: Option<Seq<char>>, initialize: bool)
    ensures
        ({
            let commands = sync_commands(s, rsync, initialize);
            let transfers = transfer_commands(s, rsync).len();
            let inits = init_commands(s, initialize).len();
            &&& transfers == (if s.dst is Some {
                1nat
            } else {
                0nat
            })
            &&& inits == (if initialize {
                s.on_init.len()
            } else {
                0nat
            })
            &&& commands.len() == transfers + inits + s.on_sync.len()
            &&& forall|i: int|
                0 <= i < transfers ==> #[trigger] commands[i] == (SyncCommandView::Transfer {
                    program: tool_name(rsync),
                    args: transfer_args(s, s.dst->0),
                })
            &&& forall|i: int|
                0 <= i < inits ==> #[trigger] commands[transfers + i] == (SyncCommandView::Hook {
                    command: s.on_init[i].command,
                    env: hook_env(s),
                    continue_on_failure: s.on_init[i].continue_on_failure,
                })
            &&& forall|i: int|
                0 <= i < s.on_sync.len() ==> #[trigger] commands[transfers + inits + i]
                    == (SyncCommandView::Hook {
                    command: s.on_sync[i].command,
                    env: hook_env(s),
                    continue_on_failure: s.on_sync[i].continue_on_failure,
                })
        }),
{
}

} // verus!
