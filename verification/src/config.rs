use vstd::prelude::*;
use vstd::string::StringExecFns;

use crate::errs::{CapabilityError, CapabilityErrorCode};
use crate::paths::spec_basename;
use crate::paths::basename;
use crate::text::{str_eq, trim_of, trimmed};

verus! {

/// Settings for the planning-model backend, when one is configured.
#[derive(Clone, Debug)]
pub struct LlmSettings {
    pub api_base: String,
    pub api_key: String,
    pub model: String,
}

/// Settings for the browser-automation backend, when one is configured.
#[derive(Clone, Debug)]
pub struct BrowserSettings {
    pub webdriver_url: String,
    pub default_profile: Option<String>,
}

/// Process-wide host configuration, built once per run and then immutable.
#[derive(Clone, Debug)]
pub struct HostConfig {
    pub workspace_root: String,
    pub allowed_proc_commands: Vec<String>,
    pub llm: Option<LlmSettings>,
    pub browser: Option<BrowserSettings>,
}

/// The step subcommand's arguments, as plain values.
#[derive(Clone, Debug)]
pub struct StepArgs {
    pub component: String,
    pub workspace: Option<String>,
    pub task: String,
    pub observation: String,
    pub step: u32,
    pub allow_proc: Vec<String>,
}

/// The command-line surface: one subcommand so far.
#[derive(Clone, Debug)]
pub enum Commands {
    Step(StepArgs),
}

/// The parsed command line.
#[derive(Clone, Debug)]
pub struct Cli {
    pub command: Commands,
}

/// An on-disk configuration file's raw contents.
#[derive(Clone, Debug)]
pub struct FileConfig {
    pub workspace_root: Option<String>,
    pub allow_proc: Option<Vec<String>>,
    pub llm: Option<LlmFileSettings>,
    pub browser: Option<BrowserFileSettings>,
}

/// Raw planning-model settings from the configuration file.
#[derive(Clone, Debug)]
pub struct LlmFileSettings {
    pub api_base: Option<String>,
    pub api_key: Option<String>,
    pub model: Option<String>,
}

/// Raw browser settings from the configuration file.
#[derive(Clone, Debug)]
pub struct BrowserFileSettings {
    pub webdriver_url: Option<String>,
    pub default_profile: Option<String>,
}

/// A string that is empty or all whitespace.
pub open spec fn blank(s: Seq<char>) -> bool {
    trim_of(s).len() == 0
}

impl LlmFileSettings {
    /// Settings count only when both a key and a model are given and
    /// non-blank; a missing or blank base address falls back to the default.
    pub fn into_settings(self) -> (r: Option<LlmSettings>)
        ensures
            r is Some <==> ((self.api_key matches Some(k) && !blank(k@)) && (
            self.model matches Some(m) && !blank(m@))),
            r matches Some(st) ==> {
                &&& self.api_key matches Some(k) && st.api_key == k
                &&& self.model matches Some(m) && st.model == m
                &&& match self.api_base {
                    Some(b) => if blank(b@) {
                        st.api_base@ == "https://api.openai.com/v1"@
                    } else {
                        st.api_base == b
                    },
                    None => st.api_base@ == "https://api.openai.com/v1"@,
                }
            },
    {
        let api_key = match self.api_key {
            Some(key) => {
                if trimmed(key.as_str()).as_str().is_empty() {
                    return None;
                }
                key
            },
            None => {
                return None;
            },
        };
        let model = match self.model {
            Some(model) => {
                if trimmed(model.as_str()).as_str().is_empty() {
                    return None;
                }
                model
            },
            None => {
                return None;
            },
        };
        let api_base = match self.api_base {
            Some(base) => {
                if trimmed(base.as_str()).as_str().is_empty() {
                    String::from_str("https://api.openai.com/v1")
                } else {
                    base
                }
            },
            None => String::from_str("https://api.openai.com/v1"),
        };
        Some(LlmSettings { api_base, api_key, model })
    }
}

impl BrowserFileSettings {
    /// Settings count only when a non-blank endpoint address is given; a
    /// blank profile is treated as absent.
    pub fn into_settings(self) -> (r: Option<BrowserSettings>)
        ensures
            r is Some <==> (self.webdriver_url matches Some(u) && !blank(u@)),
            r matches Some(st) ==> {
                &&& self.webdriver_url matches Some(u) && st.webdriver_url == u
                &&& match self.default_profile {
                    Some(p) => if blank(p@) {
                        st.default_profile is None
                    } else {
                        st.default_profile == Some(p)
                    },
                    None => st.default_profile is None,
                }
            },
    {
        let url = match self.webdriver_url {
            Some(url) => {
                if trimmed(url.as_str()).as_str().is_empty() {
                    return None;
                }
                url
            },
            None => {
                return None;
            },
        };
        let default_profile = match self.default_profile {
            Some(p) => {
                if trimmed(p.as_str()).as_str().is_empty() {
                    None
                } else {
                    Some(p)
                }
            },
            None => None,
        };
        Some(BrowserSettings { webdriver_url: url, default_profile })
    }
}

/// Whether `x` occurs in the string list.
pub open spec fn seq_contains(ss: Seq<Seq<char>>, x: Seq<char>) -> bool {
    exists|i: int| 0 <= i < ss.len() && ss[i] == x
}

/// Whether the list holds no string twice.
pub open spec fn no_dup(ss: Seq<Seq<char>>) -> bool {
    forall|i: int, j: int| 0 <= i < j < ss.len() ==> ss[i] != ss[j]
}

/// Whether the list membership check finds `s`.
pub fn contains_str(list: &Vec<String>, s: &str) -> (r: bool)
    ensures
        r == seq_contains(list.deep_view(), s@),
{
    let n = list.len();
    let mut i: usize = 0;
    while i < n
        invariant
            0 <= i <= n,
            n == list.len(),
            list.deep_view().len() == n,
            forall|k: int| 0 <= k < n ==> #[trigger] list.deep_view()[k] == list@[k]@,
            forall|k: int| 0 <= k < i ==> #[trigger] list.deep_view()[k] != s@,
        decreases n - i,
    {
        if str_eq(list[i].as_str(), s) {
            proof {
                assert(list.deep_view()[i as int] == s@);
            }
            return true;
        }
        i = i + 1;
    }
    false
}

/// Appends the strings of `extra` that are not yet present, keeping first
/// occurrences and introducing no duplicates.
fn merge_unique(acc: &mut Vec<String>, extra: &Vec<String>)
    requires
        no_dup(old(acc).deep_view()),
    ensures
        no_dup(final(acc).deep_view()),
        forall|x: Seq<char>|
            #[trigger] seq_contains(final(acc).deep_view(), x) == (seq_contains(
                old(acc).deep_view(),
                x,
            ) || seq_contains(extra.deep_view(), x)),
{
    let n = extra.len();
    let mut i: usize = 0;
    while i < n
        invariant
            0 <= i <= n,
            n == extra.len(),
            extra.deep_view().len() == n,
            forall|k: int| 0 <= k < n ==> #[trigger] extra.deep_view()[k] == extra@[k]@,
            no_dup(acc.deep_view()),
            forall|x: Seq<char>|
                #[trigger] seq_contains(acc.deep_view(), x) == (seq_contains(
                    old(acc).deep_view(),
                    x,
                ) || seq_contains(extra.deep_view().subrange(0, i as int), x)),
        decreases n - i,
    {
        let ghost pre = acc.deep_view();
        if !contains_str(acc, extra[i].as_str()) {
            let item = extra[i].clone();
            acc.push(item);
            proof {
                assert(acc.deep_view() =~= pre.push(extra.deep_view()[i as int]));
                assert forall|x: Seq<char>| #[trigger] seq_contains(acc.deep_view(), x) == (
                seq_contains(pre, x) || extra.deep_view()[i as int] == x) by {
                    if seq_contains(acc.deep_view(), x) {
                        let k = choose|k: int|
                            0 <= k < acc.deep_view().len() && acc.deep_view()[k] == x;
                        if k < pre.len() {
                            assert(seq_contains(pre, x));
                        }
                    }
                    if seq_contains(pre, x) {
                        let k = choose|k: int| 0 <= k < pre.len() && pre[k] == x;
                        assert(acc.deep_view()[k] == x);
                        assert(seq_contains(acc.deep_view(), x));
                    }
                    if extra.deep_view()[i as int] == x {
                        assert(acc.deep_view()[pre.len() as int] == x);
                        assert(seq_contains(acc.deep_view(), x));
                    }
                }
                assert forall|a: int, b: int|
                    0 <= a < b < acc.deep_view().len() implies acc.deep_view()[a]
                    != acc.deep_view()[b] by {
                    if b == acc.deep_view().len() - 1 {
                        assert(!seq_contains(pre, acc.deep_view()[b]));
                        assert(pre[a] == acc.deep_view()[a]);
                    }
                }
            }
        }
        proof {
            let ghost sub_i = extra.deep_view().subrange(0, i as int);
            let ghost sub_i1 = extra.deep_view().subrange(0, i as int + 1);
            assert(sub_i1 =~= sub_i.push(extra.deep_view()[i as int]));
            assert forall|x: Seq<char>| #[trigger] seq_contains(sub_i1, x) == (seq_contains(
                sub_i,
                x,
            ) || extra.deep_view()[i as int] == x) by {
                if seq_contains(sub_i1, x) {
                    let k = choose|k: int| 0 <= k < sub_i1.len() && sub_i1[k] == x;
                    if k < sub_i.len() {
                        assert(seq_contains(sub_i, x));
                    }
                }
                if seq_contains(sub_i, x) {
                    let k = choose|k: int| 0 <= k < sub_i.len() && sub_i[k] == x;
                    assert(sub_i1[k] == x);
                }
                if extra.deep_view()[i as int] == x {
                    assert(sub_i1[i as int] == x);
                }
            }
        }
        i = i + 1;
    }
    proof {
        assert(extra.deep_view().subrange(0, n as int) =~= extra.deep_view());
    }
}

impl HostConfig {
    /// The workspace path the run will use, before the filesystem has
    /// canonicalized it: the command line wins, then the file, then here.
    pub fn chosen_workspace(args: &StepArgs, file_cfg: &FileConfig) -> (r: String)
        ensures
            match args.workspace {
                Some(w) => r == w,
                None => match file_cfg.workspace_root {
                    Some(f) => r == f,
                    None => r@ == "."@,
                },
            },
    {
        match &args.workspace {
            Some(w) => w.clone(),
            None => match &file_cfg.workspace_root {
                Some(f) => f.clone(),
                None => String::from_str("."),
            },
        }
    }

    /// Assembles the run configuration from the parsed arguments, the
    /// configuration file's contents, and the canonicalized workspace root
    /// the filesystem reported for the chosen workspace path.
    pub fn from_step_args(args: &StepArgs, file_cfg: FileConfig, workspace_root: String) -> (r:
        HostConfig)
        ensures
            r.workspace_root == workspace_root,
            no_dup(r.allowed_proc_commands.deep_view()),
            forall|x: Seq<char>|
                #[trigger] seq_contains(r.allowed_proc_commands.deep_view(), x) == (match file_cfg
                    .allow_proc {
                    Some(f) => seq_contains(f.deep_view(), x),
                    None => false,
                } || seq_contains(args.allow_proc.deep_view(), x)),
            match file_cfg.llm {
                Some(l) => (r.llm is Some <==> ((l.api_key matches Some(k) && !blank(k@)) && (
                l.model matches Some(m) && !blank(m@)))),
                None => r.llm is None,
            },
            match file_cfg.browser {
                Some(b) => (r.browser is Some <==> (b.webdriver_url matches Some(u) && !blank(
                    u@,
                ))),
                None => r.browser is None,
            },
    {
        let mut allowed_proc_commands: Vec<String> = Vec::new();
        proof {
            assert(allowed_proc_commands.deep_view() =~= Seq::<Seq<char>>::empty());
        }
        match &file_cfg.allow_proc {
            Some(f) => merge_unique(&mut allowed_proc_commands, f),
            None => (),
        }
        merge_unique(&mut allowed_proc_commands, &args.allow_proc);
        let llm = match file_cfg.llm {
            Some(cfg) => cfg.into_settings(),
            None => None,
        };
        let browser = match file_cfg.browser {
            Some(cfg) => cfg.into_settings(),
            None => None,
        };
        HostConfig { workspace_root, allowed_proc_commands, llm, browser }
    }

    /// Whether the process policy allows running `program`: the allow-list
    /// must hold the full command string or its final path segment. An empty
    /// allow-list denies everything.
    pub fn is_proc_allowed(&self, program: &str) -> (r: bool)
        ensures
            r == spec_proc_allowed(self.allowed_proc_commands.deep_view(), program@),
    {
        let base = basename(program);
        let n = self.allowed_proc_commands.len();
        let mut i: usize = 0;
        while i < n
            invariant
                0 <= i <= n,
                n == self.allowed_proc_commands.len(),
                self.allowed_proc_commands.deep_view().len() == n,
                base@ == spec_basename(program@),
                forall|k: int|
                    0 <= k < n ==> #[trigger] self.allowed_proc_commands.deep_view()[k]
                        == self.allowed_proc_commands@[k]@,
                forall|k: int|
                    0 <= k < i ==> #[trigger] self.allowed_proc_commands.deep_view()[k]
                        != program@ && self.allowed_proc_commands.deep_view()[k] != spec_basename(
                        program@,
                    ),
            decreases n - i,
        {
            let entry = &self.allowed_proc_commands[i];
            if str_eq(entry.as_str(), program) || str_eq(entry.as_str(), base.as_str()) {
                proof {
                    assert(self.allowed_proc_commands.deep_view()[i as int] == program@
                        || self.allowed_proc_commands.deep_view()[i as int] == spec_basename(
                        program@,
                    ));
                }
                return true;
            }
            i = i + 1;
        }
        false
    }
}

/// Whether the allow-list admits `program` by full text or final segment.
pub open spec fn spec_proc_allowed(list: Seq<Seq<char>>, program: Seq<char>) -> bool {
    exists|i: int|
        0 <= i < list.len() && ((#[trigger] list[i]) == program || list[i] == spec_basename(
            program,
        ))
}

/// Refuses a command the policy does not allow, before anything runs.
pub fn ensure_command_allowed(config: &HostConfig, program: &str) -> (r: Result<
    (),
    CapabilityError,
>)
    ensures
        r is Ok <==> spec_proc_allowed(config.allowed_proc_commands.deep_view(), program@),
        r matches Result::Err(e) ==> e.code == CapabilityErrorCode::Denied && e.message@
            == "command `"@ + program@ + "` is not allowed"@,
{
    if config.is_proc_allowed(program) {
        Result::Ok(())
    } else {
        let message = String::from_str("command `").concat(program).concat("` is not allowed");
        Result::Err(CapabilityError {
            code: CapabilityErrorCode::Denied,
            message,
            detail: None,
        })
    }
}

} // verus!
