use vstd::prelude::*;
use crate::config::{
    commands_view, copy_commands, CommandConfig, CommandView, FileSync, FileSyncView, Project,
    ProjectView,
};
use crate::error::SyncError;
use crate::flags::{default_flags, default_rsync_flags, split_line, split_words};
use crate::text::{copy_opt_text, copy_texts, opt_text, texts};

verus! {

/// A sync rule ready for the engine: its flags are split into words.
#[derive(Debug, PartialEq, Eq)]
pub struct ParsedSync {
    pub enabled: bool,
    /// The canonical, absolute source path.
    pub src: String,
    pub recursive: bool,
    pub dst: Option<String>,
    pub rsync_flags: Vec<String>,
    pub on_sync: Vec<CommandConfig>,
    pub on_init: Vec<CommandConfig>,
}

/// What a rule is, as plain values.
pub struct ParsedSyncView {
    pub enabled: bool,
    pub src: Seq<char>,
    pub recursive: bool,
    pub dst: Option<Seq<char>>,
    pub rsync_flags: Seq<Seq<char>>,
    pub on_sync: Seq<CommandView>,
    pub on_init: Seq<CommandView>,
}

impl View for ParsedSync {
    type V = ParsedSyncView;

    open spec fn view(&self) -> ParsedSyncView {
        ParsedSyncView {
            enabled: self.enabled,
            src: self.src@,
            recursive: self.recursive,
            dst: opt_text(self.dst),
            rsync_flags: texts(self.rsync_flags@),
            on_sync: commands_view(self.on_sync@),
            on_init: commands_view(self.on_init@),
        }
    }
}

impl Clone for ParsedSync {
    fn clone(&self) -> (c: Self)
        ensures
            c@ == self@,
    {
        let rsync_flags = copy_texts(&self.rsync_flags);
        let on_sync = copy_commands(&self.on_sync);
        let on_init = copy_commands(&self.on_init);
        ParsedSync {
            enabled: self.enabled,
            src: self.src.clone(),
            recursive: self.recursive,
            dst: copy_opt_text(&self.dst),
            rsync_flags,
            on_sync,
            on_init,
        }
    }
}

/// The rules of a list, as plain values.
pub open spec fn syncs_view(rules: Seq<ParsedSync>) -> Seq<ParsedSyncView> {
    rules.map_values(|r: ParsedSync| r@)
}

/// The configured rule `s` with `flags` as the words of its flags.
pub open spec fn rule_with_flags(s: FileSyncView, flags: Seq<Seq<char>>) -> ParsedSyncView {
    ParsedSyncView {
        enabled: s.enabled,
        src: s.src,
        recursive: s.recursive,
        dst: s.dst,
        rsync_flags: flags,
        on_sync: s.on_sync,
        on_init: s.on_init,
    }
}

/// The words of a rule's flags: the flag line split as a shell would, or
/// the default flags where the rule has no flag line.
pub open spec fn rule_flags(line: Option<Seq<char>>) -> Option<Seq<Seq<char>>> {
    match line {
        Some(line) => split_line(line),
        None => Some(default_flags()),
    }
}

/// The rule that a configured rule stands for; `None` where its flag line
/// does not split.
pub open spec fn parse_rule(s: FileSyncView) -> Option<ParsedSyncView> {
    match rule_flags(s.rsync_flags) {
        Some(flags) => Some(rule_with_flags(s, flags)),
        None => None,
    }
}

/// The rules that the configured rules stand for, in order; `None` where
/// one of them has a flag line that does not split.
pub open spec fn parse_rules(rules: Seq<FileSyncView>) -> Option<Seq<ParsedSyncView>>
    decreases rules.len(),
{
    if rules.len() == 0 {
        Some(Seq::empty())
    } else {
        match (parse_rules(rules.drop_last()), parse_rule(rules.last())) {
            (Some(init), Some(rule)) => Some(init.push(rule)),
            _ => None,
        }
    }
}

/// The rule `rule` without the hooks that run after every sync.
pub open spec fn without_sync_hooks(rule: ParsedSyncView) -> ParsedSyncView {
    ParsedSyncView { on_sync: Seq::empty(), ..rule }
}

impl ParsedSync {
    /// Drops the hooks that run after every sync; the hooks of the first
    /// sync stay.
    pub fn skip_commands(self) -> (rule: ParsedSync)
        ensures
            rule@ == without_sync_hooks(self@),
    {
        let rule = ParsedSync {
            enabled: self.enabled,
            src: self.src,
            recursive: self.recursive,
            dst: self.dst,
            rsync_flags: self.rsync_flags,
            on_sync: Vec::new(),
            on_init: self.on_init,
        };
        assert(commands_view(rule.on_sync@) == Seq::<CommandView>::empty());
        rule
    }

    /// The configured rule `s` with its flags given as words.
    pub fn with_flags(s: FileSync, flags: Vec<String>) -> (rule: ParsedSync)
        ensures
            rule@ == rule_with_flags(s@, texts(flags@)),
    {
        ParsedSync {
            enabled: s.enabled,
            src: s.src,
            recursive: s.recursive,
            dst: s.dst,
            rsync_flags: flags,
            on_sync: s.on_sync,
            on_init: s.on_init,
        }
    }

    /// Prepares a configured rule: splits its flag line into words, or takes
    /// the default flags where it has none. Fails where the line does not
    /// split.
    pub fn try_from(s: FileSync) -> (r: Result<ParsedSync, SyncError>)
        ensures
            match r {
                Ok(rule) => parse_rule(s@) == Some(rule@),
                Err(e) => parse_rule(s@) is None && e == SyncError::SplitFlags,
            },
    {
        let split = match &s.rsync_flags {
            Some(line) => split_words(line.as_str()),
            None => Ok(default_rsync_flags()),
        };
        match split {
            Ok(flags) => Ok(ParsedSync::with_flags(s, flags)),
            Err(_) => Err(SyncError::SplitFlags),
        }
    }
}

/// A project ready for the engine.
#[derive(Debug, PartialEq, Eq)]
pub struct ParsedProject {
    pub name: String,
    pub sync: Vec<ParsedSync>,
    pub restart: bool,
}

/// What a prepared project is, as plain values.
pub struct ParsedProjectView {
    pub name: Seq<char>,
    pub sync: Seq<ParsedSyncView>,
    pub restart: bool,
}

impl View for ParsedProject {
    type V = ParsedProjectView;

    open spec fn view(&self) -> ParsedProjectView {
        ParsedProjectView { name: self.name@, sync: syncs_view(self.sync@), restart: self.restart }
    }
}

/// The prepared project that a configured project stands for; `None` where
/// one of its rules has a flag line that does not split.
pub open spec fn parse_project(name: Seq<char>, project: ProjectView) -> Option<ParsedProjectView> {
    match parse_rules(project.sync) {
        Some(sync) => Some(ParsedProjectView { name, sync, restart: project.restart }),
        None => None,
    }
}

impl ParsedProject {
    /// Prepares every rule of a configured project, in order. Fails where a
    /// rule fails.
    pub fn try_from(named: (String, Project)) -> (r: Result<ParsedProject, SyncError>)
        ensures
            match r {
                Ok(project) => parse_project(named.0@, named.1@) == Some(project@),
                Err(e) => parse_project(named.0@, named.1@) is None && e == SyncError::SplitFlags,
            },
    {
        let (name, value) = named;
        let ghost rules = value@.sync;
        let mut sync: Vec<ParsedSync> = Vec::new();
        let mut i: usize = 0;
        assert(rules.take(0) == Seq::<FileSyncView>::empty());
        assert(syncs_view(sync@) == Seq::<ParsedSyncView>::empty());
        while i < value.sync.len()
            invariant
                i <= value.sync.len(),
                value == named.1,
                rules == value@.sync,
                parse_rules(rules.take(i as int)) == Some(syncs_view(sync@)),
            decreases value.sync.len() - i,
        {
            let ghost done = rules.take(i as int);
            let ghost next = rules.take(i + 1);
            assert(next.drop_last() == done);
            assert(next.last() == value.sync@[i as int]@);
            let ghost before = syncs_view(sync@);
            match ParsedSync::try_from(value.sync[i].clone()) {
                Ok(rule) => {
                    sync.push(rule);
                    assert(syncs_view(sync@) == before.push(rule@));
                },
                Err(e) => {
                    proof {
                                assert(parse_rules(next) is None);
                        lemma_parse_rules_prefix(rules, i + 1);
                    }
                    return Err(e);
                },
            }
            i += 1;
        }
        assert(rules.take(i as int) == rules);
        Ok(ParsedProject { name, sync, restart: value.restart })
    }
}

/// Where a prefix of the rules does not parse, the rules do not parse.
pub proof fn lemma_parse_rules_prefix(rules: Seq<FileSyncView>, n: int)
    requires
        0 <= n <= rules.len(),
        parse_rules(rules.take(n)) is None,
    ensures
        parse_rules(rules) is None,
    decreases rules.len() - n,
{
    if n < rules.len() {
        let next = rules.take(n + 1);
        assert(next.drop_last() == rules.take(n));
        lemma_parse_rules_prefix(rules, n + 1);
    } else {
        assert(rules.take(n) == rules);
    }
}

} // verus!
