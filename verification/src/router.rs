//! Event router: classifies a decoded inbound event and dispatches to
//! the authorization gate, command parser, file-path labeler and label
//! reconciler, producing one outcome per event. No state survives an
//! event; the caller supplies the issue's label snapshot and the
//! repository vocabulary, and performs the returned tracker calls.

use vstd::prelude::*;

use crate::command::CmdView;
use crate::command::Command;
use crate::command::cmd_views;
use crate::command::parse_comment;
use crate::command::spec_parse_comment;
use crate::gate::command_allowed;
use crate::gate::spec_command_allowed;
use crate::paths::spec_topic_labels;
use crate::paths::topic_labels;
use crate::privilege::Association;
use crate::privilege::classify;
use crate::privilege::spec_classify;
use crate::reconcile::CallView;
use crate::reconcile::TrackerCall;
use crate::reconcile::call_views;
use crate::reconcile::lbl_triage;
use crate::reconcile::plan_for_command;
use crate::reconcile::spec_cmd_plan_len;
use crate::reconcile::spec_cmd_plan_matches;
use crate::reconcile::spec_state_after;
use crate::text::views;
use vstd::string::StringExecFns;

verus! {

/// The identity behind an event: login name and numeric user id.
#[derive(Debug, Clone, PartialEq, Eq)]
pub struct Actor {
    pub login: String,
    pub id: u64,
}

/// A decoded inbound tracker event. The raw author association rides
/// along unmapped; the router derives the privilege tier per event.
pub enum Event {
    /// The forge's connectivity check.
    Ping,
    /// An issue was opened.
    IssueOpened { repo: u64, issue: u64 },
    /// A comment was posted on an issue.
    IssueCommentCreated {
        repo: u64,
        issue: u64,
        commenter: Actor,
        issue_author_id: u64,
        association: Association,
        body: String,
    },
    /// A pull request was opened; carries its changed file paths.
    PullRequestOpened { repo: u64, number: u64, changed_files: Vec<String> },
    /// A pull request was reopened; carries its changed file paths.
    PullRequestReopened { repo: u64, number: u64, changed_files: Vec<String> },
    /// A pull request was edited: deliberately unhandled.
    PullRequestEdited { repo: u64, number: u64 },
    /// Any other event type or action.
    Other,
}

/// What handling one event amounts to. Every event yields exactly one
/// outcome; only `Execute` carries tracker calls.
#[derive(Debug, PartialEq, Eq)]
pub enum Outcome {
    /// A connectivity check: nothing to do.
    NoOp,
    /// An event type or action this service ignores.
    Ignored,
    /// An action received but deliberately not implemented.
    Unhandled,
    /// Comment commands from an actor without authorization: the whole
    /// comment body is skipped, not just single lines.
    Denied,
    /// Tracker calls to perform, in order, against one issue.
    Execute { repo: u64, issue: u64, calls: Vec<TrackerCall> },
}

/// The calls of a whole comment are correct when they split into one
/// correct batch per command, each batch judged against the label state
/// the previous commands left behind.
pub open spec fn spec_comment_plan_ok(
    cmds: Seq<CmdView>,
    labels: Set<Seq<char>>,
    vocab: Set<Seq<char>>,
    actor: Seq<char>,
    p: Seq<CallView>,
) -> bool
    decreases cmds.len(),
{
    if cmds.len() == 0 {
        p.len() == 0
    } else {
        let n = spec_cmd_plan_len(cmds[0]);
        &&& n <= p.len()
        &&& spec_cmd_plan_matches(cmds[0], labels, vocab, actor, p.take(n))
        &&& spec_comment_plan_ok(
            cmds.skip(1),
            spec_state_after(cmds[0], labels, vocab),
            vocab,
            actor,
            p.skip(n),
        )
    }
}

/// Plans all commands from `from` on, threading the simulated label
/// state so that later commands see the effect of earlier ones.
fn plan_comment(
    cmds: &Vec<Command>,
    from: usize,
    labels: Vec<String>,
    vocab: &Vec<String>,
    actor: &String,
) -> (out: Vec<TrackerCall>)
    requires
        from <= cmds@.len(),
    ensures
        spec_comment_plan_ok(
            cmd_views(cmds@).skip(from as int),
            views(labels@).to_set(),
            views(vocab@).to_set(),
            actor@,
            call_views(out@),
        ),
    decreases cmds@.len() - from,
{
    if from == cmds.len() {
        let out: Vec<TrackerCall> = Vec::new();
        proof {
            assert(call_views(out@) =~= Seq::<CallView>::empty());
        }
        out
    } else {
        let (mut part, state) = plan_for_command(&cmds[from], labels, vocab, actor);
        let mut rest = plan_comment(cmds, from + 1, state, vocab, actor);
        let ghost pv = part@;
        let ghost rv = rest@;
        part.append(&mut rest);
        proof {
            let full = call_views(part@);
            let cs = cmd_views(cmds@).skip(from as int);
            let n = spec_cmd_plan_len(cs[0]);
            assert(cs[0] == cmds@[from as int]@);
            assert(full =~= call_views(pv) + call_views(rv));
            assert(full.take(n) =~= call_views(pv));
            assert(full.skip(n) =~= call_views(rv));
            assert(cs.skip(1) =~= cmd_views(cmds@).skip(from as int + 1));
        }
        part
    }
}

/// Routes one decoded event. `labels` is the issue's current label set
/// and `vocab` the repository's label vocabulary, both read by the
/// caller just before the call; `trigger` is the bot-mention marker
/// comment lines must start with.
pub fn handle_event(e: &Event, labels: Vec<String>, vocab: Vec<String>, trigger: &str) -> (r:
    Outcome)
    ensures
        match *e {
            Event::Ping => r == Outcome::NoOp,
            Event::Other => r == Outcome::Ignored,
            Event::PullRequestEdited { .. } => r == Outcome::Unhandled,
            Event::IssueOpened { repo, issue } => {
                &&& r matches Outcome::Execute { repo: r2, issue: i2, calls }
                &&& r2 == repo
                &&& i2 == issue
                &&& call_views(calls@) == seq![
                    CallView::AddLabels { labels: seq![lbl_triage()] },
                ]
            },
            Event::PullRequestOpened { repo, number, changed_files } => {
                &&& r matches Outcome::Execute { repo: r2, issue: i2, calls }
                &&& r2 == repo
                &&& i2 == number
                &&& call_views(calls@) == pr_calls(views(changed_files@))
            },
            Event::PullRequestReopened { repo, number, changed_files } => {
                &&& r matches Outcome::Execute { repo: r2, issue: i2, calls }
                &&& r2 == repo
                &&& i2 == number
                &&& call_views(calls@) == pr_calls(views(changed_files@))
            },
            Event::IssueCommentCreated { repo, issue, commenter, issue_author_id, association, body } => {
                if !spec_command_allowed(spec_classify(association), commenter.id, issue_author_id) {
                    r == Outcome::Denied
                } else {
                    &&& r matches Outcome::Execute { repo: r2, issue: i2, calls }
                    &&& r2 == repo
                    &&& i2 == issue
                    &&& spec_comment_plan_ok(
                        spec_parse_comment(body@, trigger@),
                        views(labels@).to_set(),
                        views(vocab@).to_set(),
                        commenter.login@,
                        call_views(calls@),
                    )
                }
            },
        },
{
    match e {
        Event::Ping => Outcome::NoOp,
        Event::Other => Outcome::Ignored,
        Event::PullRequestEdited { .. } => Outcome::Unhandled,
        Event::IssueOpened { repo, issue } => {
            let tag = String::from_str("triage-needed");
            let calls = vec![TrackerCall::AddLabels { labels: vec![tag] }];
            proof {
                assert(call_views(calls@) =~~= seq![
                    CallView::AddLabels { labels: seq![lbl_triage()] },
                ]);
            }
            Outcome::Execute { repo: *repo, issue: *issue, calls }
        },
        Event::PullRequestOpened { repo, number, changed_files } => {
            let calls = pr_plan(changed_files);
            Outcome::Execute { repo: *repo, issue: *number, calls }
        },
        Event::PullRequestReopened { repo, number, changed_files } => {
            let calls = pr_plan(changed_files);
            Outcome::Execute { repo: *repo, issue: *number, calls }
        },
        Event::IssueCommentCreated { repo, issue, commenter, issue_author_id, association, body } => {
            let tier = classify(*association);
            if !command_allowed(tier, commenter.id, *issue_author_id) {
                return Outcome::Denied;
            }
            let cmds = parse_comment(body.as_str(), trigger);
            let calls = plan_comment(&cmds, 0, labels, &vocab, &commenter.login);
            proof {
                assert(cmd_views(cmds@).skip(0) =~= cmd_views(cmds@));
            }
            Outcome::Execute { repo: *repo, issue: *issue, calls }
        },
    }
}

/// The calls a pull request's changed files warrant: one label addition
/// when any topic matched, nothing otherwise.
pub open spec fn pr_calls(files: Seq<Seq<char>>) -> Seq<CallView> {
    if spec_topic_labels(files).len() == 0 {
        Seq::empty()
    } else {
        seq![CallView::AddLabels { labels: spec_topic_labels(files) }]
    }
}

/// Builds the topic-label call batch for a changed-file list.
fn pr_plan(changed_files: &Vec<String>) -> (calls: Vec<TrackerCall>)
    ensures
        call_views(calls@) == pr_calls(views(changed_files@)),
{
    let topics = topic_labels(changed_files);
    if topics.len() == 0 {
        let calls: Vec<TrackerCall> = Vec::new();
        proof {
            assert(call_views(calls@) =~= Seq::<CallView>::empty());
        }
        calls
    } else {
        let ghost tv = views(topics@);
        let calls = vec![TrackerCall::AddLabels { labels: topics }];
        proof {
            assert(call_views(calls@) =~~= seq![CallView::AddLabels { labels: tv }]);
        }
        calls
    }
}

} // verus!
