//! The milestone-list tool.

use kid_agentic_coding::mcp::milestone::{
    choice_without_tool, gh_availability, list_arguments, list_open_milestones,
    listed_milestones, milestones_json, GhAvailability, ListRun, Milestone, MilestoneCli,
    RawIssueCount, RawMilestone, ToolUnavailableChoice, MILESTONE_LIST_TOOL_NAME,
};
use serde_json::Value;

struct FakeCli {
    availability: GhAvailability,
    milestones: Result<Vec<Milestone>, String>,
}

impl MilestoneCli for FakeCli {
    fn check_availability(&self) -> GhAvailability {
        self.availability.clone()
    }

    fn list_open(&self) -> Result<Vec<Milestone>, String> {
        self.milestones.clone()
    }
}

fn sample_milestone() -> Milestone {
    Milestone {
        number: 9,
        title: "Workflow 1: GitHub Milestones as Story Editor".to_owned(),
        issue_count: 4,
    }
}

#[test]
fn list_open_milestones_returns_formatted_json_on_success() {
    let cli = FakeCli {
        availability: GhAvailability::Available,
        milestones: Ok(vec![sample_milestone()]),
    };

    let json = list_open_milestones(&cli).expect("cli reports success");

    let parsed: Value = serde_json::from_str(&json).expect("valid json");
    let parsed: Vec<Milestone> = parsed
        .as_array()
        .unwrap()
        .iter()
        .map(|milestone| Milestone {
            number: milestone["number"].as_u64().unwrap(),
            title: milestone["title"].as_str().unwrap().to_owned(),
            issue_count: milestone["issue_count"].as_u64().unwrap(),
        })
        .collect();
    assert_eq!(parsed, vec![sample_milestone()]);
}

#[test]
fn list_open_milestones_fails_when_cli_call_fails() {
    let cli = FakeCli {
        availability: GhAvailability::Available,
        milestones: Err("gh exploded".to_owned()),
    };

    assert!(list_open_milestones(&cli).is_err());
}

#[test]
fn raw_milestone_maps_issue_total_count() {
    let raw = RawMilestone {
        number: 9,
        title: "Workflow 1".to_owned(),
        issues: RawIssueCount { total_count: 4 },
    };

    let milestone: Milestone = raw.into();

    assert_eq!(milestone.issue_count, 4);
}

#[test]
fn milestones_are_written_as_a_list() {
    assert_eq!(MILESTONE_LIST_TOOL_NAME, "milestone_list");
    assert_eq!(milestones_json(&vec![]), "[]");
    let quoted = Milestone {
        number: 1,
        title: "say \"hi\"".to_owned(),
        issue_count: 0,
    };
    assert_eq!(
        milestones_json(&vec![quoted, sample_milestone()]),
        r#"[{"number":1,"title":"say \"hi\"","issue_count":0},{"number":9,"title":"Workflow 1: GitHub Milestones as Story Editor","issue_count":4}]"#
    );
}

#[test]
fn the_extension_has_to_be_listed() {
    assert_eq!(
        gh_availability(true, Some("valeriobelli/gh-milestone v2")),
        GhAvailability::Available
    );
    for listing in [None, Some("gh-dash")] {
        assert!(matches!(
            gh_availability(true, listing),
            GhAvailability::Unavailable { reason, hint }
                if reason.contains("extension") && hint.contains("gh extension install")
        ));
    }
    assert!(matches!(
        gh_availability(false, Some("gh-milestone")),
        GhAvailability::Unavailable { reason, .. } if reason.contains("not installed")
    ));
}

#[test]
fn without_an_answer_the_tool_is_ignored() {
    assert_eq!(choice_without_tool(None), ToolUnavailableChoice::Ignore);
    assert_eq!(
        choice_without_tool(Some(ToolUnavailableChoice::Abort)),
        ToolUnavailableChoice::Abort
    );
}

#[test]
fn open_milestones_are_asked_for_as_json() {
    assert_eq!(
        list_arguments().join(" "),
        "milestone list --state open --json number,title,issues"
    );
}

#[test]
fn a_run_lists_the_milestones_it_printed() {
    let entry = |number: u64, total_count: u64| RawMilestone {
        number,
        title: format!("Milestone {number}"),
        issues: RawIssueCount { total_count },
    };

    let listed = listed_milestones(ListRun::Listed(vec![entry(9, 4), entry(2, 0)])).unwrap();

    assert_eq!(
        listed,
        vec![
            Milestone {
                number: 9,
                title: "Milestone 9".to_owned(),
                issue_count: 4,
            },
            Milestone {
                number: 2,
                title: "Milestone 2".to_owned(),
                issue_count: 0,
            },
        ]
    );
}

#[test]
fn a_run_without_milestones_tells_why() {
    assert_eq!(
        listed_milestones(ListRun::NotRun("no such file".to_owned())),
        Err("failed to run gh milestone list: no such file".to_owned())
    );
    assert_eq!(
        listed_milestones(ListRun::Failed(b"not \xfflogged in".to_vec())),
        Err("not \u{fffd}logged in".to_owned())
    );
    assert_eq!(
        listed_milestones(ListRun::Unreadable("EOF".to_owned())),
        Err("failed to parse gh milestone list output: EOF".to_owned())
    );
}
