use vstd::prelude::*;
use crate::text::{copy_opt_text, opt_text};

verus! {

/// The delay that batches a burst of filesystem events, as whole seconds
/// and the nanoseconds beyond them.
#[derive(Debug, PartialEq, Eq, Clone, Copy)]
pub struct DebounceWindow {
    pub secs: u64,
    pub nanos: u32,
}

impl DebounceWindow {
    /// The length of the window in nanoseconds.
    pub open spec fn total_nanos(self) -> nat {
        (self.secs * 1_000_000_000 + self.nanos) as nat
    }

    /// Whether the nanoseconds stay below one second, so that the two parts
    /// name the length in one way only.
    pub open spec fn is_normal(self) -> bool {
        self.nanos < 1_000_000_000
    }

    /// The window of `secs` seconds and `nanos` nanoseconds; `None` where
    /// `nanos` reaches a whole second.
    pub fn new(secs: u64, nanos: u32) -> (w: Option<DebounceWindow>)
        ensures
            w == if nanos < 1_000_000_000 {
                Some(DebounceWindow { secs, nanos })
            } else {
                None
            },
    {
        if nanos < 1_000_000_000 {
            Some(DebounceWindow { secs, nanos })
        } else {
            None
        }
    }

    /// A window of `millis` milliseconds.
    pub fn from_millis(millis: u64) -> (w: DebounceWindow)
        ensures
            w.secs == millis / 1000,
            w.nanos == (millis % 1000) * 1_000_000,
            w.total_nanos() == millis * 1_000_000,
            w.is_normal(),
    {
        let rest: u32 = (millis % 1000) as u32;
        DebounceWindow { secs: millis / 1000, nanos: rest * 1_000_000 }
    }

    /// Whether the window has no length, so that nothing is batched.
    pub fn is_zero(&self) -> (z: bool)
        ensures
            z == (self.total_nanos() == 0),
    {
        self.secs == 0 && self.nanos == 0
    }
}

/// The window used when the configuration names none: 100 milliseconds.
pub fn default_debounce() -> (w: DebounceWindow)
    ensures
        w == (DebounceWindow { secs: 0, nanos: 100_000_000 }),
{
    DebounceWindow::from_millis(100)
}

/// The value of the flags `recursive`, `enabled` and `restart` when the
/// configuration is silent about them.
pub fn default_true() -> (b: bool)
    ensures
        b,
{
    true
}

/// A hook: a command text for the shell, and whether the hooks after it
/// still run when it fails.
#[derive(Debug, PartialEq, Eq)]
pub struct CommandConfig {
    pub command: String,
    pub continue_on_failure: bool,
}

/// What a hook is, as plain values.
pub struct CommandView {
    pub command: Seq<char>,
    pub continue_on_failure: bool,
}

impl View for CommandConfig {
    type V = CommandView;

    open spec fn view(&self) -> CommandView {
        CommandView { command: self.command@, continue_on_failure: self.continue_on_failure }
    }
}

impl Clone for CommandConfig {
    fn clone(&self) -> (c: Self)
        ensures
            c == *self,
    {
        CommandConfig {
            command: self.command.clone(),
            continue_on_failure: self.continue_on_failure,
        }
    }
}

impl CommandConfig {
    /// The hook written as a bare command text: a failure of it stops the
    /// hooks that follow.
    pub fn from_str(s: &str) -> (c: CommandConfig)
        ensures
            c@ == (CommandView { command: s@, continue_on_failure: false }),
    {
        CommandConfig { command: s.to_owned(), continue_on_failure: false }
    }
}

/// The hooks of a list, as plain values.
pub open spec fn commands_view(hooks: Seq<CommandConfig>) -> Seq<CommandView> {
    hooks.map_values(|c: CommandConfig| c@)
}

/// Copies a list of hooks.
pub fn copy_commands(hooks: &Vec<CommandConfig>) -> (out: Vec<CommandConfig>)
    ensures
        out@ == hooks@,
{
    let mut out: Vec<CommandConfig> = Vec::new();
    let mut i: usize = 0;
    while i < hooks.len()
        invariant
            i <= hooks.len(),
            out@ == hooks@.take(i as int),
        decreases hooks.len() - i,
    {
        out.push(hooks[i].clone());
        i += 1;
        assert(out@ == hooks@.take(i as int));
    }
    assert(hooks@.take(hooks.len() as int) == hooks@);
    out
}

/// One sync rule as the configuration file gives it.
#[derive(Debug, PartialEq, Eq)]
pub struct FileSync {
    pub src: String,
    /// Watch `src` recursively; ignored where `src` is a single file.
    pub recursive: bool,
    /// Where to mirror `src`; a rule without it only runs its hooks.
    pub dst: Option<String>,
    /// The flags of the sync tool as one shell-quoted line.
    pub rsync_flags: Option<String>,
    /// Hooks to run after every sync.
    pub on_sync: Vec<CommandConfig>,
    /// Hooks to run after the first sync only.
    pub on_init: Vec<CommandConfig>,
    pub enabled: bool,
}

/// What a configured rule is, as plain values.
pub struct FileSyncView {
    pub src: Seq<char>,
    pub recursive: bool,
    pub dst: Option<Seq<char>>,
    pub rsync_flags: Option<Seq<char>>,
    pub on_sync: Seq<CommandView>,
    pub on_init: Seq<CommandView>,
    pub enabled: bool,
}

impl View for FileSync {
    type V = FileSyncView;

    open spec fn view(&self) -> FileSyncView {
        FileSyncView {
            src: self.src@,
            recursive: self.recursive,
            dst: opt_text(self.dst),
            rsync_flags: opt_text(self.rsync_flags),
            on_sync: commands_view(self.on_sync@),
            on_init: commands_view(self.on_init@),
            enabled: self.enabled,
        }
    }
}

impl Clone for FileSync {
    fn clone(&self) -> (c: Self)
        ensures
            c@ == self@,
    {
        let on_sync = copy_commands(&self.on_sync);
        let on_init = copy_commands(&self.on_init);
        let c = FileSync {
            src: self.src.clone(),
            recursive: self.recursive,
            dst: copy_opt_text(&self.dst),
            rsync_flags: copy_opt_text(&self.rsync_flags),
            on_sync,
            on_init,
            enabled: self.enabled,
        };
        c
    }
}

/// The rules of a list, as plain values.
pub open spec fn file_syncs_view(rules: Seq<FileSync>) -> Seq<FileSyncView> {
    rules.map_values(|r: FileSync| r@)
}

/// A group of rules under one restart policy.
#[derive(Debug, PartialEq, Eq)]
pub struct Project {
    pub sync: Vec<FileSync>,
    /// Cancel the syncs in flight when a new change arrives, rather than
    /// wait for them.
    pub restart: bool,
}

/// What a project is, as plain values.
pub struct ProjectView {
    pub sync: Seq<FileSyncView>,
    pub restart: bool,
}

impl View for Project {
    type V = ProjectView;

    open spec fn view(&self) -> ProjectView {
        ProjectView { sync: file_syncs_view(self.sync@), restart: self.restart }
    }
}

impl Clone for Project {
    fn clone(&self) -> (c: Self)
        ensures
            c@ == self@,
    {
        let mut sync: Vec<FileSync> = Vec::new();
        let mut i: usize = 0;
        while i < self.sync.len()
            invariant
                i <= self.sync.len(),
                sync@.len() == i,
                forall|j: int| 0 <= j < i ==> (#[trigger] sync@[j])@ == self.sync@[j]@,
            decreases self.sync.len() - i,
        {
            sync.push(self.sync[i].clone());
            i += 1;
        }
        assert(file_syncs_view(sync@) == file_syncs_view(self.sync@));
        Project { sync, restart: self.restart }
    }
}

/// The named projects of a list, as plain values.
pub open spec fn projects_view(projects: Seq<(String, Project)>) -> Seq<(Seq<char>, ProjectView)> {
    projects.map_values(|named: (String, Project)| (named.0@, named.1@))
}

/// The names of a list of named projects.
pub open spec fn project_names(projects: Seq<(Seq<char>, ProjectView)>) -> Seq<Seq<char>> {
    projects.map_values(|named: (Seq<char>, ProjectView)| named.0)
}

/// The position of the project called `name`, if there is one.
pub open spec fn position_of(projects: Seq<(Seq<char>, ProjectView)>, name: Seq<char>) -> Option<
    int,
> {
    if project_names(projects).contains(name) {
        Some(project_names(projects).index_of(name))
    } else {
        None
    }
}

/// What a configuration is, as plain values.
pub struct ConfigView {
    /// The projects with their names, in the order in which they were added.
    pub projects: Seq<(Seq<char>, ProjectView)>,
    pub debounce: DebounceWindow,
}

/// The whole configuration: the projects by name, and the debounce window
/// that every project shares. No two projects have the same name.
#[derive(Debug)]
pub struct Config {
    projects: Vec<(String, Project)>,
    debounce: DebounceWindow,
}

impl View for Config {
    type V = ConfigView;

    closed spec fn view(&self) -> ConfigView {
        ConfigView { projects: projects_view(self.projects@), debounce: self.debounce }
    }
}

impl Default for Config {
    /// No project, and the default debounce window.
    fn default() -> (config: Config)
        ensures
            config@.projects == Seq::<(Seq<char>, ProjectView)>::empty(),
            config@.debounce == (DebounceWindow { secs: 0, nanos: 100_000_000 }),
    {
        Config::new(default_debounce())
    }
}

impl Config {
    #[verifier::type_invariant]
    spec fn distinct(self) -> bool {
        project_names(projects_view(self.projects@)).no_duplicates()
    }

    /// A configuration without projects.
    pub fn new(debounce: DebounceWindow) -> (config: Config)
        ensures
            config@.projects == Seq::<(Seq<char>, ProjectView)>::empty(),
            config@.debounce == debounce,
    {
        let config = Config { projects: Vec::new(), debounce };
        assert(projects_view(config.projects@) == Seq::<(Seq<char>, ProjectView)>::empty());
        config
    }

    /// The debounce window.
    pub fn debounce(&self) -> (window: DebounceWindow)
        ensures
            window == self@.debounce,
    {
        self.debounce
    }

    /// How many projects there are.
    pub fn len(&self) -> (n: usize)
        ensures
            n == self@.projects.len(),
    {
        self.projects.len()
    }

    /// The projects with their names, in the order in which they were added.
    pub fn projects(&self) -> (projects: &Vec<(String, Project)>)
        ensures
            projects_view(projects@) == self@.projects,
            project_names(self@.projects).no_duplicates(),
    {
        proof {
            use_type_invariant(self);
        }
        &self.projects
    }

    /// Where the project called `name` stands.
    fn find(&self, name: &String) -> (at: Option<usize>)
        ensures
            match at {
                Some(i) => position_of(self@.projects, name@) == Some(i as int) && i
                    < self.projects@.len(),
                None => position_of(self@.projects, name@) is None,
            },
    {
        proof {
            use_type_invariant(self);
        }
        let ghost names = project_names(self@.projects);
        let mut i: usize = 0;
        while i < self.projects.len()
            invariant
                i <= self.projects.len(),
                names == project_names(projects_view(self.projects@)),
                names.no_duplicates(),
                forall|j: int| 0 <= j < i ==> names[j] != name@,
            decreases self.projects.len() - i,
        {
            if self.projects[i].0 == *name {
                assert(names[i as int] == name@);
                assert(names.contains(name@));
                let ghost k = names.index_of(name@);
                assert(k == i);
                return Some(i);
            }
            i += 1;
        }
        assert(!names.contains(name@));
        None
    }

    /// The project called `name`.
    pub fn get(&self, name: &String) -> (found: Option<&Project>)
        ensures
            match found {
                Some(project) => position_of(self@.projects, name@) matches Some(i)
                    && self@.projects[i].1 == project@,
                None => position_of(self@.projects, name@) is None,
            },
    {
        match self.find(name) {
            Some(i) => Some(&self.projects[i].1),
            None => None,
        }
    }

    /// Puts `project` under `name`. A project of that name is replaced where
    /// it stands, and the call says whether there was one; a new name goes
    /// to the end.
    pub fn insert(&mut self, name: String, project: Project) -> (replaced: bool)
        ensures
            final(self)@.debounce == old(self)@.debounce,
            match position_of(old(self)@.projects, name@) {
                Some(i) => replaced && final(self)@.projects == old(self)@.projects.update(
                    i,
                    (name@, project@),
                ),
                None => !replaced && final(self)@.projects == old(self)@.projects.push(
                    (name@, project@),
                ),
            },
    {
        proof {
            use_type_invariant(&*self);
        }
        let at = self.find(&name);
        let ghost before = projects_view(self.projects@);
        let mut projects: Vec<(String, Project)> = Vec::new();
        assert(projects_view(projects@) == Seq::<(Seq<char>, ProjectView)>::empty());
        std::mem::swap(&mut projects, &mut self.projects);
        match at {
            Some(i) => {
                projects.set(i, (name, project));
                assert(projects_view(projects@) == before.update(i as int, (name@, project@)));
                assert(project_names(before.update(i as int, (name@, project@)))
                    == project_names(before));
                self.projects = projects;
                true
            },
            None => {
                projects.push((name, project));
                assert(projects_view(projects@) == before.push((name@, project@)));
                assert(project_names(before.push((name@, project@))) == project_names(
                    before,
                ).push(name@));
                self.projects = projects;
                false
            },
        }
    }
}

} // verus!
