//! The configuration of the supervised programs.
use vstd::prelude::*;

use crate::error::SupervisorError;
use crate::text::str_eq;
use crate::time::{Duration, NANOS_PER_SEC};

verus! {

/// How long a program gets to exit after being asked to, unless configured.
pub fn default_stop_grace() -> (d: Duration)
    ensures
        d.view() == 10 * (NANOS_PER_SEC as nat),
{
    Duration::from_secs(10)
}

/// The window in which restarts are counted, unless configured.
pub fn default_retry_window() -> (d: Duration)
    ensures
        d.view() == 10 * (NANOS_PER_SEC as nat),
{
    Duration::from_secs(10)
}

/// How many restarts the window tolerates, unless configured: no limit.
pub fn default_retry_count() -> (n: usize)
    ensures
        n == usize::MAX,
{
    usize::MAX
}

/// The time between two health checks, unless configured.
pub fn default_health_interval() -> (d: Duration)
    ensures
        d.view() == 5 * (NANOS_PER_SEC as nat),
{
    Duration::from_secs(5)
}

/// How long a program may fail its health checks before it is restarted,
/// unless configured.
pub fn default_health_grace() -> (d: Duration)
    ensures
        d.view() == 30 * (NANOS_PER_SEC as nat),
{
    Duration::from_secs(30)
}

/// One supervised program.
#[derive(Debug, Clone)]
pub struct Program {
    /// What to run.
    pub command: CommandLine,
    /// Environment variables of the child: `None` removes the variable.
    pub env: Vec<(String, Option<Env>)>,
    /// How the program is reached over HTTP, if it is.
    pub http: Option<HttpRelay>,
    /// Restart limits.
    pub retry: Retry,
    /// How long the program gets to exit after being asked to.
    pub grace: Duration,
}

/// What the environment of a child holds of one variable.
#[derive(Debug, Clone, PartialEq, Eq)]
pub enum EnvSetting {
    /// The variable is removed.
    Remove,
    /// The variable has this value.
    Value(String),
}

/// An environment setting as plain values: `None` removes the variable.
pub open spec fn setting_view(s: EnvSetting) -> Option<Seq<char>> {
    match s {
        EnvSetting::Remove => None,
        EnvSetting::Value(v) => Some(v@),
    }
}

/// The setting of one configured variable, where `inherited` is the
/// supervisor's own value of the variable it inherits, if it inherits one:
/// no value removes it, a literal sets it, an inherited one sets the
/// supervisor's value.
pub open spec fn env_setting_of(value: Option<Env>, inherited: Result<Seq<char>, Seq<char>>) -> Option<Seq<char>> {
    match value {
        None => None,
        Some(Env::Literal(v)) => Some(v@),
        Some(Env::Inherit(_)) => Some(inherited->Ok_0),
    }
}

/// Whether configured variable `i` fails to be set: it inherits a variable
/// that the supervisor could not read.
pub open spec fn env_fails(value: Option<Env>, inherited: Result<Seq<char>, Seq<char>>) -> bool {
    value matches Some(Env::Inherit(_)) && inherited is Err
}

/// The lookups as plain values.
pub open spec fn lookups_view(inherited: Seq<Result<String, String>>) -> Seq<Result<Seq<char>, Seq<char>>> {
    inherited.map_values(|r: Result<String, String>| match r {
        Ok(v) => Ok(v@),
        Err(e) => Err(e@),
    })
}

impl Program {
    /// Whether no environment variable is configured twice, as in a map.
    pub open spec fn env_names_distinct(self) -> bool {
        forall|i: int, j: int| 0 <= i < j < self.env@.len() ==> #[trigger] self.env@[i].0@ != #[trigger] self.env@[j].0@
    }

    /// Whether no environment variable is configured twice.
    pub fn has_distinct_env_names(&self) -> (b: bool)
        ensures
            b == self.env_names_distinct(),
    {
        let n = self.env.len();
        let mut i: usize = 0;
        while i < n
            invariant
                i <= n,
                n == self.env@.len(),
                forall|a: int, b: int| 0 <= a < i && a < b < n ==> #[trigger] self.env@[a].0@ != #[trigger] self.env@[b].0@,
            decreases n - i,
        {
            let mut j: usize = i + 1;
            while j < n
                invariant
                    i < n,
                    i < j <= n,
                    n == self.env@.len(),
                    forall|a: int, b: int| 0 <= a < i && a < b < n ==> #[trigger] self.env@[a].0@ != #[trigger] self.env@[b].0@,
                    forall|b: int| i < b < j ==> self.env@[i as int].0@ != #[trigger] self.env@[b].0@,
                decreases n - j,
            {
                if str_eq(self.env[i].0.as_str(), self.env[j].0.as_str()) {
                    return false;
                }
                j = j + 1;
            }
            i = i + 1;
        }
        true
    }

    /// The environment of the child, variable by variable, in the configured
    /// order. `inherited[i]` is the supervisor's own value of the variable
    /// that variable `i` inherits, or the reason it could not be read; it
    /// only counts for a variable that inherits. Fails with
    /// `SupervisorError::Spawn` and the reason of the first such variable
    /// whose value could not be read.
    pub fn env_plan(&self, inherited: &Vec<Result<String, String>>) -> (r: Result<Vec<(String, EnvSetting)>, SupervisorError>)
        requires
            inherited@.len() == self.env@.len(),
        ensures
            r is Ok <==> forall|i: int| 0 <= i < self.env@.len()
                ==> !env_fails(#[trigger] self.env@[i].1, lookups_view(inherited@)[i]),
            r matches Ok(plan) ==> plan@.map_values(|p: (String, EnvSetting)| (p.0@, setting_view(p.1)))
                == Seq::new(self.env@.len(), |i: int| (self.env@[i].0@, env_setting_of(self.env@[i].1, lookups_view(inherited@)[i]))),
            r matches Err(e) ==> exists|k: int| 0 <= k < self.env@.len()
                && env_fails(#[trigger] self.env@[k].1, lookups_view(inherited@)[k])
                && (forall|i: int| 0 <= i < k ==> !env_fails(#[trigger] self.env@[i].1, lookups_view(inherited@)[i]))
                && e == SupervisorError::Spawn(inherited@[k]->Err_0),
    {
        let n = self.env.len();
        let ghost lv = lookups_view(inherited@);
        let ghost want = Seq::new(self.env@.len(), |i: int| (self.env@[i].0@, env_setting_of(self.env@[i].1, lv[i])));
        let mut plan: Vec<(String, EnvSetting)> = Vec::new();
        let mut i: usize = 0;
        while i < n
            invariant
                i <= n,
                n == self.env@.len(),
                n == inherited@.len(),
                lv == lookups_view(inherited@),
                want == Seq::new(self.env@.len(), |i: int| (self.env@[i].0@, env_setting_of(self.env@[i].1, lv[i]))),
                forall|k: int| 0 <= k < i ==> !env_fails(#[trigger] self.env@[k].1, lv[k]),
                plan@.map_values(|p: (String, EnvSetting)| (p.0@, setting_view(p.1))) == want.take(i as int),
            decreases n - i,
        {
            let name = self.env[i].0.clone();
            assert(lv[i as int] == match inherited@[i as int] { Ok(v) => Ok(v@), Err(e) => Err(e@) });
            let setting = match &self.env[i].1 {
                None => EnvSetting::Remove,
                Some(Env::Literal(v)) => EnvSetting::Value(v.clone()),
                Some(Env::Inherit(_)) => match &inherited[i] {
                    Ok(v) => EnvSetting::Value(v.clone()),
                    Err(reason) => {
                        return Err(SupervisorError::Spawn(reason.clone()));
                    },
                },
            };
            let ghost before = plan@;
            assert(before.map_values(|p: (String, EnvSetting)| (p.0@, setting_view(p.1))).len() == before.len());
            plan.push((name, setting));
            assert(plan@.map_values(|p: (String, EnvSetting)| (p.0@, setting_view(p.1))) =~= want.take(i + 1));
            i = i + 1;
        }
        assert(want.take(n as int) =~= want);
        Ok(plan)
    }
}

/// Restart limits: at most `count` exits within `window`, exclusive.
#[derive(Debug, Copy, Clone)]
pub struct Retry {
    pub window: Duration,
    pub count: usize,
}

/// Where a program serves HTTP and under which path it is relayed.
#[derive(Debug, Clone)]
pub struct HttpRelay {
    pub port: u16,
    pub path: String,
    pub https: bool,
    pub strip_path: bool,
    pub health_check: Option<HealthCheck>,
}

/// How a program's health is checked over HTTP.
#[derive(Debug, Clone)]
pub struct HealthCheck {
    pub path: String,
    pub interval: Duration,
    pub grace: Duration,
}

/// The value of an environment variable of a child.
#[derive(Debug, Clone)]
pub enum Env {
    /// This text.
    Literal(String),
    /// The value of the named variable of the supervisor itself.
    Inherit(String),
}

/// A command and its arguments.
#[derive(Debug, Clone)]
pub struct CommandLine {
    pub cmd: String,
    pub args: Vec<String>,
}

/// The words that the shell-word lexer of the `shlex` crate yields for `line`,
/// in order, until it ends or meets an error.
pub uninterp spec fn shell_words_of(line: Seq<char>) -> Seq<Seq<char>>;

/// Splits `line` into shell words by iterating `shlex::Shlex::new(line)` to
/// its end. The words are named: they follow the lexer's POSIX-like rules.
#[verifier::external_body]
fn shell_words(line: &str) -> (words: Vec<String>)
    ensures
        words@.map_values(|w: String| w@) == shell_words_of(line@),
{
    shlex::Shlex::new(line).collect()
}

impl CommandLine {
    /// The words of the command line: the command, then its arguments.
    pub open spec fn words(self) -> Seq<Seq<char>> {
        seq![self.cmd@] + self.args@.map_values(|a: String| a@)
    }

    /// Parses a command line as the shell splits it into words: the first
    /// word is the command, the others its arguments. Fails with
    /// `SupervisorError::Command` where the line holds no word.
    pub fn parse(s: &str) -> (r: Result<CommandLine, SupervisorError>)
        ensures
            r is Ok <==> shell_words_of(s@).len() > 0,
            r matches Ok(c) ==> c.words() == shell_words_of(s@),
            r matches Err(e) ==> e == SupervisorError::Command,
    {
        CommandLine::from_words(shell_words(s))
    }

    /// The command line of the given words: the first is the command, the
    /// others its arguments. Fails with `SupervisorError::Command` where
    /// there is no word.
    pub fn from_words(words: Vec<String>) -> (r: Result<CommandLine, SupervisorError>)
        ensures
            r is Ok <==> words@.len() > 0,
            r matches Ok(c) ==> c.words() == words@.map_values(|w: String| w@),
            r matches Err(e) ==> e == SupervisorError::Command,
    {
        let mut words = words;
        if words.len() == 0 {
            return Err(SupervisorError::Command);
        }
        let ghost all = words@;
        let cmd = words.remove(0);
        let c = CommandLine { cmd, args: words };
        assert(c.words() =~= all.map_values(|w: String| w@));
        Ok(c)
    }
}

impl std::str::FromStr for CommandLine {
    type Err = SupervisorError;

    /// Parses a command line as `CommandLine::parse` does.
    fn from_str(s: &str) -> (r: Result<Self, Self::Err>)
        ensures
            r is Ok <==> shell_words_of(s@).len() > 0,
            r matches Ok(c) ==> c.words() == shell_words_of(s@),
            r matches Err(e) ==> e == SupervisorError::Command,
    {
        CommandLine::parse(s)
    }
}

} // verus!
