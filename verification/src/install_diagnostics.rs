//! Installation diagnostics: GitHub reachability, Agent targets and Skill
//! source format, each reported as one check.
use vstd::prelude::*;
use crate::text::{decimal, decimal_chars, join, join_strings, owned, push_string, string_of, views};

verus! {

/// Outcome of one diagnostic check.
#[derive(Clone, Copy, Debug, PartialEq, Eq)]
pub enum DiagnosticStatus {
    Pass,
    Warning,
    Fail,
}

/// One diagnostic check: what was checked, its outcome, an optional detail
/// and the paths it looked at.
#[derive(Clone, Debug, PartialEq, Eq)]
pub struct InstallDiagnosticCheck {
    pub id: String,
    pub status: DiagnosticStatus,
    pub detail: Option<String>,
    pub paths: Vec<String>,
}

/// A full diagnostics report.
#[derive(Clone, Debug, PartialEq, Eq)]
pub struct InstallDiagnostics {
    pub checks: Vec<InstallDiagnosticCheck>,
}

/// An Agent that PilotHub can install into: its label, whether it is
/// installed, and its Skills directory.
#[derive(Clone, Debug)]
pub struct DiagnosticAgent {
    pub label: String,
    pub installed: bool,
    pub skills_dir: String,
}

/// The view of an optional string.
pub open spec fn detail_of(check: InstallDiagnosticCheck) -> Option<Seq<char>> {
    crate::text::opt_view(check.detail)
}

/// What the request to GitHub's `rate_limit` endpoint gave: a response with
/// its status code and the status as reqwest displays it (the code and its
/// reason), or the error that kept the request from completing.
#[derive(Clone, Debug, PartialEq, Eq)]
pub enum GithubResponse {
    Answered { status: u16, status_text: String },
    Unreachable { error: String },
}

/// The status code is a server error (500 to 599).
pub open spec fn is_server_error(status: u16) -> bool {
    500 <= status < 600
}

/// How the GitHub request went: a response counts as reaching GitHub unless
/// it is a server error, which fails with `GitHub returned <status>`; a
/// request that did not complete fails with its error.
pub open spec fn github_outcome(response: GithubResponse) -> Result<(), Seq<char>> {
    match response {
        GithubResponse::Answered { status, status_text } => if is_server_error(status) {
            Err("GitHub returned "@ + status_text@)
        } else {
            Ok(())
        },
        GithubResponse::Unreachable { error } => Err(error@),
    }
}

/// The check for the GitHub connection: it passes when GitHub answered with
/// a status that is not a server error, and otherwise fails with the reason
/// as detail.
pub fn check_github_connection(response: &GithubResponse) -> (r: InstallDiagnosticCheck)
    ensures
        r.id@ == "github"@,
        r.paths@.len() == 0,
        match github_outcome(*response) {
            Ok(()) => r.status == DiagnosticStatus::Pass && r.detail is None,
            Err(e) => r.status == DiagnosticStatus::Fail && detail_of(r) == Some(e),
        },
{
    let detail = match response {
        GithubResponse::Answered { status, status_text } => if 500 <= *status && *status < 600 {
            Some(crate::text::concat_str("GitHub returned ", status_text.as_str()))
        } else {
            None
        },
        GithubResponse::Unreachable { error } => Some(error.clone()),
    };
    let status = if detail.is_some() {
        DiagnosticStatus::Fail
    } else {
        DiagnosticStatus::Pass
    };
    InstallDiagnosticCheck { id: owned("github"), status, detail, paths: Vec::new() }
}

/// The labels of the installed Agents, in order.
pub open spec fn installed_labels(agents: Seq<DiagnosticAgent>) -> Seq<Seq<char>>
    decreases agents.len(),
{
    if agents.len() == 0 {
        Seq::<Seq<char>>::empty()
    } else {
        let rest = installed_labels(agents.drop_last());
        if agents.last().installed {
            rest.push(agents.last().label@)
        } else {
            rest
        }
    }
}

/// The Skills directories of the installed Agents, in order.
pub open spec fn installed_dirs(agents: Seq<DiagnosticAgent>) -> Seq<Seq<char>>
    decreases agents.len(),
{
    if agents.len() == 0 {
        Seq::<Seq<char>>::empty()
    } else {
        let rest = installed_dirs(agents.drop_last());
        if agents.last().installed {
            rest.push(agents.last().skills_dir@)
        } else {
            rest
        }
    }
}

/// The Skills directories of the installed Agents that could not be written,
/// in order (`writable[i]` is the probe result for `agents[i]`).
pub open spec fn unwritable_dirs(agents: Seq<DiagnosticAgent>, writable: Seq<bool>) -> Seq<Seq<char>>
    decreases agents.len(),
{
    if agents.len() == 0 {
        Seq::<Seq<char>>::empty()
    } else {
        let rest = unwritable_dirs(agents.drop_last(), writable.take(agents.len() - 1));
        if agents.last().installed && !writable[agents.len() - 1] {
            rest.push(agents.last().skills_dir@)
        } else {
            rest
        }
    }
}

/// The two Agent checks. The `agents` check passes when some Agent is
/// installed and lists them, comma-separated. The `directories` check warns
/// when no Agent is installed, passes when every installed Agent's Skills
/// directory can be written, and otherwise fails, listing the others one per
/// line; it reports the directories it checked.
pub fn check_agent_targets(agents: &[DiagnosticAgent], writable: &[bool]) -> (r: Vec<InstallDiagnosticCheck>)
    requires
        writable@.len() == agents@.len(),
    ensures
        r@.len() == 2,
        r@[0].id@ == "agents"@,
        r@[0].status == (if installed_labels(agents@).len() == 0 {
            DiagnosticStatus::Fail
        } else {
            DiagnosticStatus::Pass
        }),
        detail_of(r@[0]) == (if installed_labels(agents@).len() == 0 {
            None
        } else {
            Some(join(installed_labels(agents@), ", "@))
        }),
        r@[0].paths@.len() == 0,
        r@[1].id@ == "directories"@,
        r@[1].status == (if installed_labels(agents@).len() == 0 {
            DiagnosticStatus::Warning
        } else if unwritable_dirs(agents@, writable@).len() == 0 {
            DiagnosticStatus::Pass
        } else {
            DiagnosticStatus::Fail
        }),
        detail_of(r@[1]) == (if unwritable_dirs(agents@, writable@).len() == 0 {
            None
        } else {
            Some(join(unwritable_dirs(agents@, writable@), "\n"@))
        }),
        views(r@[1].paths@) == installed_dirs(agents@),
{
    let mut detected: Vec<String> = Vec::new();
    let mut checked: Vec<String> = Vec::new();
    let mut failed: Vec<String> = Vec::new();
    let mut i: usize = 0;
    while i < agents.len()
        invariant
            i <= agents@.len(),
            writable@.len() == agents@.len(),
            views(detected@) == installed_labels(agents@.take(i as int)),
            views(checked@) == installed_dirs(agents@.take(i as int)),
            views(failed@) == unwritable_dirs(agents@.take(i as int), writable@.take(i as int)),
        decreases agents.len() - i,
    {
        assert(agents@.take(i + 1).drop_last() == agents@.take(i as int));
        assert(writable@.take(i + 1).take(i as int) == writable@.take(i as int));
        let agent = &agents[i];
        if agent.installed {
            push_string(&mut detected, agent.label.clone());
            push_string(&mut checked, agent.skills_dir.clone());
            if !writable[i] {
                push_string(&mut failed, agent.skills_dir.clone());
            }
        }
        i = i + 1;
    }
    assert(agents@.take(agents@.len() as int) == agents@);
    assert(writable@.take(writable@.len() as int) == writable@);
    let agent_check = InstallDiagnosticCheck {
        id: owned("agents"),
        status: if detected.len() == 0 {
            DiagnosticStatus::Fail
        } else {
            DiagnosticStatus::Pass
        },
        detail: if detected.len() == 0 {
            None
        } else {
            Some(join_strings(&detected, ", "))
        },
        paths: Vec::new(),
    };
    let directory_check = InstallDiagnosticCheck {
        id: owned("directories"),
        status: if detected.len() == 0 {
            DiagnosticStatus::Warning
        } else if failed.len() == 0 {
            DiagnosticStatus::Pass
        } else {
            DiagnosticStatus::Fail
        },
        detail: if failed.len() == 0 {
            None
        } else {
            Some(join_strings(&failed, "\n"))
        },
        paths: checked,
    };
    let mut r: Vec<InstallDiagnosticCheck> = Vec::new();
    r.push(agent_check);
    r.push(directory_check);
    r
}

/// The Skill-format check for a local source: it passes when the source is
/// a directory holding at least one `SKILL.md` (within the searched depth);
/// the detail names a source that is not a directory; the paths are the
/// `SKILL.md` files found.
pub fn check_local_skill_source(source: &str, is_dir: bool, skill_files: Vec<String>) -> (r:
    InstallDiagnosticCheck)
    ensures
        r.id@ == "skill_format"@,
        r.status == (if is_dir && skill_files@.len() > 0 {
            DiagnosticStatus::Pass
        } else {
            DiagnosticStatus::Fail
        }),
        detail_of(r) == (if is_dir {
            None
        } else {
            Some(source@)
        }),
        r.paths == skill_files,
{
    let pass = is_dir && skill_files.len() > 0;
    InstallDiagnosticCheck {
        id: owned("skill_format"),
        status: if pass {
            DiagnosticStatus::Pass
        } else {
            DiagnosticStatus::Fail
        },
        detail: if is_dir {
            None
        } else {
            Some(owned(source))
        },
        paths: skill_files,
    }
}

/// The Skill-format check for a scanned Git source: it passes when the scan
/// found Skills (the detail is their number), fails without detail when it
/// found none, and fails with the scan error as detail.
pub fn git_skill_source_check(result: Result<usize, String>) -> (r: InstallDiagnosticCheck)
    ensures
        r.id@ == "skill_format"@,
        r.paths@.len() == 0,
        match result {
            Ok(count) => if count > 0 {
                r.status == DiagnosticStatus::Pass && detail_of(r) == Some(decimal(count as nat))
            } else {
                r.status == DiagnosticStatus::Fail && r.detail is None
            },
            Err(e) => r.status == DiagnosticStatus::Fail && r.detail == Some(e),
        },
{
    match result {
        Ok(count) => {
            if count > 0 {
                let digits = decimal_chars(count);
                InstallDiagnosticCheck {
                    id: owned("skill_format"),
                    status: DiagnosticStatus::Pass,
                    detail: Some(string_of(&digits)),
                    paths: Vec::new(),
                }
            } else {
                InstallDiagnosticCheck {
                    id: owned("skill_format"),
                    status: DiagnosticStatus::Fail,
                    detail: None,
                    paths: Vec::new(),
                }
            }
        },
        Err(error) => InstallDiagnosticCheck {
            id: owned("skill_format"),
            status: DiagnosticStatus::Fail,
            detail: Some(error),
            paths: Vec::new(),
        },
    }
}

} // verus!
