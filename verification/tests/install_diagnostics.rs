use pilothub::install_diagnostics::{
    check_agent_targets, check_github_connection, git_skill_source_check,
    check_local_skill_source, DiagnosticAgent, DiagnosticStatus, GithubResponse,
};

#[test]
fn agents_report_detection_and_directory_access() {
    let checks = check_agent_targets(
        &[DiagnosticAgent {
            label: "Codex".to_string(),
            installed: true,
            skills_dir: "/tmp/pilothub-diagnostics/skills".to_string(),
        }],
        &[true],
    );

    assert_eq!(checks[0].status, DiagnosticStatus::Pass);
    assert_eq!(checks[1].status, DiagnosticStatus::Pass);
}

#[test]
fn missing_agents_fail_detection() {
    let checks = check_agent_targets(&[], &[]);
    assert_eq!(checks[0].status, DiagnosticStatus::Fail);
    assert_eq!(checks[1].status, DiagnosticStatus::Warning);
}

#[test]
fn git_scan_result_maps_to_format_status() {
    assert_eq!(git_skill_source_check(Ok(2)).status, DiagnosticStatus::Pass);
    assert_eq!(
        git_skill_source_check(Err("invalid".to_string())).status,
        DiagnosticStatus::Fail
    );
}

#[test]
fn git_scan_reports_the_skill_count() {
    let check = git_skill_source_check(Ok(120));
    assert_eq!(check.id, "skill_format");
    assert_eq!(check.detail.as_deref(), Some("120"));
    let none = git_skill_source_check(Ok(0));
    assert_eq!(none.status, DiagnosticStatus::Fail);
    assert_eq!(none.detail, None);
}

#[test]
fn agent_checks_list_detected_agents_and_unwritable_directories() {
    let agents = [
        DiagnosticAgent {
            label: "Codex".to_string(),
            installed: true,
            skills_dir: "/home/u/.codex/skills".to_string(),
        },
        DiagnosticAgent {
            label: "Cursor".to_string(),
            installed: false,
            skills_dir: "/home/u/.cursor/skills".to_string(),
        },
        DiagnosticAgent {
            label: "Antigravity".to_string(),
            installed: true,
            skills_dir: "/home/u/.gemini/skills".to_string(),
        },
    ];
    let checks = check_agent_targets(&agents, &[true, false, false]);
    assert_eq!(checks[0].id, "agents");
    assert_eq!(checks[0].detail.as_deref(), Some("Codex, Antigravity"));
    assert_eq!(checks[1].id, "directories");
    assert_eq!(checks[1].status, DiagnosticStatus::Fail);
    assert_eq!(checks[1].detail.as_deref(), Some("/home/u/.gemini/skills"));
    assert_eq!(
        checks[1].paths,
        vec!["/home/u/.codex/skills", "/home/u/.gemini/skills"]
    );
}

#[test]
fn github_check_reports_the_request_error() {
    let answered = |status: u16, text: &str| GithubResponse::Answered {
        status,
        status_text: text.to_string(),
    };
    let ok = check_github_connection(&answered(200, "200 OK"));
    assert_eq!(ok.id, "github");
    assert!(ok.paths.is_empty());
    assert_eq!(ok.status, DiagnosticStatus::Pass);
    assert_eq!(ok.detail, None);
    let limited = check_github_connection(&answered(403, "403 Forbidden"));
    assert_eq!(limited.status, DiagnosticStatus::Pass);
    let edge = check_github_connection(&answered(499, "499 <unknown status code>"));
    assert_eq!(edge.status, DiagnosticStatus::Pass);
    let down = check_github_connection(&answered(503, "503 Service Unavailable"));
    assert_eq!(down.status, DiagnosticStatus::Fail);
    assert_eq!(down.detail.as_deref(), Some("GitHub returned 503 Service Unavailable"));
    let last = check_github_connection(&answered(599, "599 <unknown status code>"));
    assert_eq!(last.status, DiagnosticStatus::Fail);
    let failed = check_github_connection(&GithubResponse::Unreachable {
        error: "timed out".to_string(),
    });
    assert_eq!(failed.status, DiagnosticStatus::Fail);
    assert_eq!(failed.detail.as_deref(), Some("timed out"));
}

#[test]
fn local_source_without_skill_files_fails() {
    let missing = check_local_skill_source("/tmp/nowhere", false, Vec::new());
    assert_eq!(missing.status, DiagnosticStatus::Fail);
    assert_eq!(missing.detail.as_deref(), Some("/tmp/nowhere"));
    let found = check_local_skill_source(
        "/tmp/skill",
        true,
        vec!["/tmp/skill/SKILL.md".to_string()],
    );
    assert_eq!(found.status, DiagnosticStatus::Pass);
    assert_eq!(found.detail, None);
}

#[test]
fn local_source_requires_skill_md() {
    assert_eq!(
        check_local_skill_source("/tmp/empty-source", true, Vec::new()).status,
        DiagnosticStatus::Fail
    );
    assert_eq!(
        check_local_skill_source(
            "/tmp/empty-source",
            true,
            vec!["/tmp/empty-source/SKILL.md".to_string()]
        )
        .status,
        DiagnosticStatus::Pass
    );
}
