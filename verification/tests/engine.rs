use trackerbot::Actor;
use trackerbot::Association;
use trackerbot::Command;
use trackerbot::Event;
use trackerbot::Outcome;
use trackerbot::PrivilegeTier;
use trackerbot::TrackerCall;
use trackerbot::classify;
use trackerbot::command_allowed;
use trackerbot::handle_event;
use trackerbot::parse_comment;
use trackerbot::plan_for_command;
use trackerbot::topic_labels;

fn s(x: &str) -> String {
    x.to_string()
}

fn vs(xs: &[&str]) -> Vec<String> {
    xs.iter().map(|x| x.to_string()).collect()
}

#[test]
fn classify_maps_owner_and_member_to_maintainer() {
    assert_eq!(classify(Association::Owner), PrivilegeTier::Maintainer);
    assert_eq!(classify(Association::Member), PrivilegeTier::Maintainer);
}

#[test]
fn classify_maps_collaborator_to_middle_tier() {
    assert_eq!(classify(Association::Collaborator), PrivilegeTier::Collaborator);
    assert_eq!(classify(Association::Collaborator).level(), 1);
}

#[test]
fn classify_maps_everyone_else_to_untrusted() {
    for a in [
        Association::Contributor,
        Association::FirstTimer,
        Association::FirstTimeContributor,
        Association::Mannequin,
        Association::NoAssociation,
        Association::Other,
    ] {
        assert_eq!(classify(a), PrivilegeTier::Untrusted);
        assert_eq!(classify(a).level(), 0);
    }
}

#[test]
fn gate_admits_collaborators_and_issue_authors() {
    assert!(command_allowed(PrivilegeTier::Collaborator, 5, 9));
    assert!(command_allowed(PrivilegeTier::Maintainer, 5, 9));
    assert!(command_allowed(PrivilegeTier::Untrusted, 9, 9));
    assert!(!command_allowed(PrivilegeTier::Untrusted, 5, 9));
}

#[test]
fn untriggered_lines_yield_no_commands() {
    let cmds = parse_comment("hello there\nplease label +bug\nready", "!bot");
    assert_eq!(cmds, vec![]);
}

#[test]
fn one_command_per_matching_line_in_order() {
    let cmds = parse_comment("!bot claim\n!bot label +bug -triage-needed", "!bot");
    assert_eq!(
        cmds,
        vec![
            Command::Claim,
            Command::LabelEdit { adds: vs(&["bug"]), removes: vs(&["triage-needed"]) },
        ]
    );
}

#[test]
fn leading_whitespace_is_trimmed_before_the_trigger() {
    let cmds = parse_comment("   \t!bot ready", "!bot");
    assert_eq!(cmds, vec![Command::MarkReady]);
}

#[test]
fn unrecognized_directives_are_ignored() {
    let cmds = parse_comment("!bot dance\n!bot author", "!bot");
    assert_eq!(cmds, vec![Command::MarkNeedsAuthor]);
}

#[test]
fn label_tokens_without_sigil_are_ignored() {
    let cmds = parse_comment("!bot label foo +a bar -b", "!bot");
    assert_eq!(cmds, vec![Command::LabelEdit { adds: vs(&["a"]), removes: vs(&["b"]) }]);
}

#[test]
fn carriage_returns_do_not_disturb_parsing() {
    let cmds = parse_comment("!bot claim\r\n!bot unclaim\r\n", "!bot");
    assert_eq!(cmds, vec![Command::Claim, Command::Unclaim]);
}

#[test]
fn bug_command_parses() {
    let cmds = parse_comment("!bot bug", "!bot");
    assert_eq!(cmds, vec![Command::BugToggle]);
}

#[test]
fn removal_wins_over_addition_of_the_same_name() {
    let cmd = Command::LabelEdit { adds: vs(&["a"]), removes: vs(&["a"]) };
    let (calls, state) = plan_for_command(&cmd, vs(&[]), &vs(&["a"]), &s("alice"));
    assert_eq!(calls, vec![TrackerCall::ReplaceAllLabels { labels: vs(&[]) }]);
    assert_eq!(state, vs(&[]));
}

#[test]
fn names_outside_the_vocabulary_never_enter_the_plan() {
    let cmd = Command::LabelEdit { adds: vs(&["ghost", "bug"]), removes: vs(&[]) };
    let (calls, _) = plan_for_command(&cmd, vs(&[]), &vs(&["bug"]), &s("alice"));
    assert_eq!(calls, vec![TrackerCall::ReplaceAllLabels { labels: vs(&["bug"]) }]);
}

#[test]
fn replace_payload_is_sorted_and_unique() {
    let cmd = Command::LabelEdit { adds: vs(&["zeta", "alpha", "zeta"]), removes: vs(&[]) };
    let vocab = vs(&["zeta", "alpha", "mid"]);
    let (calls, _) = plan_for_command(&cmd, vs(&["mid"]), &vocab, &s("alice"));
    assert_eq!(
        calls,
        vec![TrackerCall::ReplaceAllLabels { labels: vs(&["alpha", "mid", "zeta"]) }]
    );
}

#[test]
fn ready_twice_leaves_the_same_labels_as_once() {
    let vocab = vs(&["waiting-for-reviews", "waiting-on-author"]);
    let start = vs(&["triage-needed", "waiting-on-author"]);
    let (_, once) = plan_for_command(&Command::MarkReady, start, &vocab, &s("alice"));
    let (_, twice) = plan_for_command(&Command::MarkReady, once.clone(), &vocab, &s("alice"));
    assert_eq!(once, twice);
}

#[test]
fn author_twice_leaves_the_same_labels_as_once() {
    let vocab = vs(&["waiting-for-reviews", "waiting-on-author"]);
    let start = vs(&["waiting-for-reviews"]);
    let (_, once) = plan_for_command(&Command::MarkNeedsAuthor, start, &vocab, &s("alice"));
    let (_, twice) = plan_for_command(&Command::MarkNeedsAuthor, once.clone(), &vocab, &s("alice"));
    assert_eq!(once, twice);
}

#[test]
fn ready_adds_and_removes_the_fixed_markers() {
    let (calls, _) = plan_for_command(&Command::MarkReady, vs(&[]), &vs(&[]), &s("alice"));
    assert_eq!(
        calls,
        vec![
            TrackerCall::AddLabels { labels: vs(&["waiting-for-reviews"]) },
            TrackerCall::RemoveLabel { label: s("waiting-on-author") },
        ]
    );
}

#[test]
fn claim_assigns_the_commenting_actor() {
    let (calls, _) = plan_for_command(&Command::Claim, vs(&[]), &vs(&[]), &s("alice"));
    assert_eq!(calls, vec![TrackerCall::AddAssignees { logins: vs(&["alice"]) }]);
}

#[test]
fn unclaim_unassigns_the_commenting_actor() {
    let (calls, _) = plan_for_command(&Command::Unclaim, vs(&[]), &vs(&[]), &s("alice"));
    assert_eq!(calls, vec![TrackerCall::RemoveAssignees { logins: vs(&["alice"]) }]);
}

#[test]
fn bug_toggle_removes_when_present() {
    let (calls, state) = plan_for_command(&Command::BugToggle, vs(&["bug"]), &vs(&["bug"]), &s("a"));
    assert_eq!(calls, vec![TrackerCall::RemoveLabel { label: s("bug") }]);
    assert_eq!(state, vs(&[]));
}

#[test]
fn bug_toggle_adds_when_absent() {
    let (calls, state) = plan_for_command(&Command::BugToggle, vs(&[]), &vs(&["bug"]), &s("a"));
    assert_eq!(calls, vec![TrackerCall::AddLabels { labels: vs(&["bug"]) }]);
    assert_eq!(state, vs(&["bug"]));
}

#[test]
fn changed_files_map_to_topic_labels() {
    let files = vs(&["src/client/render.cpp", "docs/readme.md"]);
    assert_eq!(topic_labels(&files), vs(&["client"]));
}

#[test]
fn path_matching_is_unanchored_substring_matching() {
    // `mapshot.c` spuriously matches the `map` trigger: an accepted
    // approximation of the labeler, not a defect to correct.
    let files = vs(&["mapshot.c"]);
    assert_eq!(topic_labels(&files), vs(&["maps"]));
}

#[test]
fn files_without_triggers_earn_no_labels() {
    let files = vs(&["README.md", "LICENSE"]);
    assert_eq!(topic_labels(&files), vs(&[]));
}

#[test]
fn several_topics_accumulate_without_duplicates() {
    let files = vs(&["src/client/a.c", "src/client/b.c", "src/server/c.c"]);
    assert_eq!(topic_labels(&files), vs(&["client", "server"]));
}

#[test]
fn ping_is_a_no_op() {
    let r = handle_event(&Event::Ping, vs(&[]), vs(&[]), "!bot");
    assert_eq!(r, Outcome::NoOp);
}

#[test]
fn unknown_events_are_ignored() {
    let r = handle_event(&Event::Other, vs(&[]), vs(&[]), "!bot");
    assert_eq!(r, Outcome::Ignored);
}

#[test]
fn edited_pull_requests_are_deliberately_unhandled() {
    let r = handle_event(&Event::PullRequestEdited { repo: 1, number: 2 }, vs(&[]), vs(&[]), "!bot");
    assert_eq!(r, Outcome::Unhandled);
}

#[test]
fn opened_issues_get_the_triage_label() {
    let r = handle_event(&Event::IssueOpened { repo: 1, issue: 7 }, vs(&[]), vs(&[]), "!bot");
    assert_eq!(
        r,
        Outcome::Execute {
            repo: 1,
            issue: 7,
            calls: vec![TrackerCall::AddLabels { labels: vs(&["triage-needed"]) }],
        }
    );
}

#[test]
fn opened_pull_requests_get_topic_labels() {
    let e = Event::PullRequestOpened {
        repo: 1,
        number: 3,
        changed_files: vs(&["src/client/render.cpp", "docs/readme.md"]),
    };
    let r = handle_event(&e, vs(&[]), vs(&[]), "!bot");
    assert_eq!(
        r,
        Outcome::Execute {
            repo: 1,
            issue: 3,
            calls: vec![TrackerCall::AddLabels { labels: vs(&["client"]) }],
        }
    );
}

#[test]
fn reopened_pull_requests_without_matches_need_no_calls() {
    let e = Event::PullRequestReopened { repo: 1, number: 3, changed_files: vs(&["README.md"]) };
    let r = handle_event(&e, vs(&[]), vs(&[]), "!bot");
    assert_eq!(r, Outcome::Execute { repo: 1, issue: 3, calls: vec![] });
}

#[test]
fn untrusted_strangers_produce_no_calls() {
    let e = Event::IssueCommentCreated {
        repo: 1,
        issue: 42,
        commenter: Actor { login: s("mallory"), id: 5 },
        issue_author_id: 9,
        association: Association::Contributor,
        body: s("!bot claim\n!bot label +bug"),
    };
    let r = handle_event(&e, vs(&["triage-needed"]), vs(&["bug", "triage-needed"]), "!bot");
    assert_eq!(r, Outcome::Denied);
}

#[test]
fn issue_authors_may_command_their_own_issue() {
    let e = Event::IssueCommentCreated {
        repo: 1,
        issue: 42,
        commenter: Actor { login: s("carol"), id: 9 },
        issue_author_id: 9,
        association: Association::NoAssociation,
        body: s("!bot claim"),
    };
    let r = handle_event(&e, vs(&[]), vs(&[]), "!bot");
    assert_eq!(
        r,
        Outcome::Execute {
            repo: 1,
            issue: 42,
            calls: vec![TrackerCall::AddAssignees { logins: vs(&["carol"]) }],
        }
    );
}

#[test]
fn claim_then_label_edit_end_to_end() {
    let e = Event::IssueCommentCreated {
        repo: 1,
        issue: 42,
        commenter: Actor { login: s("alice"), id: 7 },
        issue_author_id: 9,
        association: Association::Collaborator,
        body: s("!bot claim\n!bot label +bug -triage-needed"),
    };
    let r = handle_event(&e, vs(&["triage-needed"]), vs(&["bug", "triage-needed", "client"]), "!bot");
    assert_eq!(
        r,
        Outcome::Execute {
            repo: 1,
            issue: 42,
            calls: vec![
                TrackerCall::AddAssignees { logins: vs(&["alice"]) },
                TrackerCall::ReplaceAllLabels { labels: vs(&["bug"]) },
            ],
        }
    );
}

#[test]
fn later_commands_override_earlier_ones() {
    let e = Event::IssueCommentCreated {
        repo: 1,
        issue: 8,
        commenter: Actor { login: s("alice"), id: 7 },
        issue_author_id: 9,
        association: Association::Owner,
        body: s("!bot bug\n!bot bug"),
    };
    // The first toggle adds `bug`; the second, seeing the state the
    // first left behind, removes it again.
    let r = handle_event(&e, vs(&[]), vs(&["bug"]), "!bot");
    assert_eq!(
        r,
        Outcome::Execute {
            repo: 1,
            issue: 8,
            calls: vec![
                TrackerCall::AddLabels { labels: vs(&["bug"]) },
                TrackerCall::RemoveLabel { label: s("bug") },
            ],
        }
    );
}

#[test]
fn empty_comment_bodies_yield_no_calls() {
    let e = Event::IssueCommentCreated {
        repo: 1,
        issue: 2,
        commenter: Actor { login: s("alice"), id: 7 },
        issue_author_id: 7,
        association: Association::Owner,
        body: s(""),
    };
    let r = handle_event(&e, vs(&[]), vs(&[]), "!bot");
    assert_eq!(r, Outcome::Execute { repo: 1, issue: 2, calls: vec![] });
}
