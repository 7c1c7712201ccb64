//! Label reconciler: converts a command, the issue's current label set
//! and the repository's label vocabulary into the tracker calls that
//! converge the issue toward the desired state, together with the label
//! state those calls leave behind.

use vstd::prelude::*;
use vstd::string::StringExecFns;

use crate::command::CmdView;
use crate::command::Command;
use crate::labels::contains_label;
use crate::labels::insert_label;
use crate::labels::label_vec_wf;
use crate::labels::lex_sorted;
use crate::text::views;

verus! {

/// One outbound tracker invocation, addressed elsewhere by repository
/// and issue number.
#[derive(Debug, Clone, PartialEq, Eq)]
pub enum TrackerCall {
    /// Add the given labels to the issue.
    AddLabels { labels: Vec<String> },
    /// Remove one label from the issue.
    RemoveLabel { label: String },
    /// Overwrite the issue's whole label set.
    ReplaceAllLabels { labels: Vec<String> },
    /// Assign the given logins to the issue.
    AddAssignees { logins: Vec<String> },
    /// Unassign the given logins from the issue.
    RemoveAssignees { logins: Vec<String> },
}

/// Mathematical image of a [`TrackerCall`].
#[verifier::ext_equal]
pub enum CallView {
    AddLabels { labels: Seq<Seq<char>> },
    RemoveLabel { label: Seq<char> },
    ReplaceAllLabels { labels: Seq<Seq<char>> },
    AddAssignees { logins: Seq<Seq<char>> },
    RemoveAssignees { logins: Seq<Seq<char>> },
}

impl View for TrackerCall {
    type V = CallView;

    open spec fn view(&self) -> CallView {
        match self {
            TrackerCall::AddLabels { labels } => CallView::AddLabels { labels: views(labels@) },
            TrackerCall::RemoveLabel { label } => CallView::RemoveLabel { label: label@ },
            TrackerCall::ReplaceAllLabels { labels } => CallView::ReplaceAllLabels {
                labels: views(labels@),
            },
            TrackerCall::AddAssignees { logins } => CallView::AddAssignees {
                logins: views(logins@),
            },
            TrackerCall::RemoveAssignees { logins } => CallView::RemoveAssignees {
                logins: views(logins@),
            },
        }
    }
}

/// View of a call sequence.
pub open spec fn call_views(q: Seq<TrackerCall>) -> Seq<CallView> {
    q.map_values(|c: TrackerCall| c@)
}

/// The fixed label asking for reviews.
pub open spec fn lbl_ready() -> Seq<char> {
    "waiting-for-reviews"@
}

/// The fixed label marking an issue as waiting on its author.
pub open spec fn lbl_author() -> Seq<char> {
    "waiting-on-author"@
}

/// The fixed label newly opened issues receive.
pub open spec fn lbl_triage() -> Seq<char> {
    "triage-needed"@
}

/// The fixed label the toggle command flips.
pub open spec fn lbl_bug() -> Seq<char> {
    "bug"@
}

/// The label set a call leaves behind when applied to `s`; assignee
/// calls do not touch labels.
pub open spec fn apply_call(s: Set<Seq<char>>, c: CallView) -> Set<Seq<char>> {
    match c {
        CallView::AddLabels { labels } => s.union(labels.to_set()),
        CallView::RemoveLabel { label } => s.remove(label),
        CallView::ReplaceAllLabels { labels } => labels.to_set(),
        CallView::AddAssignees { .. } => s,
        CallView::RemoveAssignees { .. } => s,
    }
}

/// The label set a whole call sequence leaves behind, applied in order.
pub open spec fn apply_plan(s: Set<Seq<char>>, p: Seq<CallView>) -> Set<Seq<char>>
    decreases p.len(),
{
    if p.len() == 0 {
        s
    } else {
        apply_plan(apply_call(s, p[0]), p.skip(1))
    }
}

/// The desired label set of a general label edit: current plus the adds,
/// minus the removes, where adds and removes count only if the name is
/// in the repository vocabulary. A name both added and removed ends up
/// absent: removal wins.
pub open spec fn spec_desired(
    current: Set<Seq<char>>,
    adds: Set<Seq<char>>,
    removes: Set<Seq<char>>,
    vocab: Set<Seq<char>>,
) -> Set<Seq<char>> {
    current.union(adds.intersect(vocab)).difference(removes.intersect(vocab))
}

/// The label state a command leaves behind, starting from `labels`.
pub open spec fn spec_state_after(
    c: CmdView,
    labels: Set<Seq<char>>,
    vocab: Set<Seq<char>>,
) -> Set<Seq<char>> {
    match c {
        CmdView::Claim => labels,
        CmdView::Unclaim => labels,
        CmdView::MarkReady => labels.insert(lbl_ready()).remove(lbl_author()),
        CmdView::MarkNeedsAuthor => labels.insert(lbl_author()).remove(lbl_ready()),
        CmdView::TriageNeeded => labels.insert(lbl_triage()),
        CmdView::BugToggle => if labels.contains(lbl_bug()) {
            labels.remove(lbl_bug())
        } else {
            labels.insert(lbl_bug())
        },
        CmdView::LabelEdit { adds, removes } => spec_desired(
            labels,
            adds.to_set(),
            removes.to_set(),
            vocab,
        ),
    }
}

/// How many tracker calls a command yields.
pub open spec fn spec_cmd_plan_len(c: CmdView) -> int {
    match c {
        CmdView::MarkReady => 2,
        CmdView::MarkNeedsAuthor => 2,
        _ => 1,
    }
}

/// What the call sequence for one command must be, given the current
/// label set: fixed add/remove pairs for the simple commands, a single
/// read-dependent toggle for `bug`, and one sorted, duplicate-free
/// full overwrite for a general label edit.
pub open spec fn spec_cmd_plan_matches(
    c: CmdView,
    labels: Set<Seq<char>>,
    vocab: Set<Seq<char>>,
    actor: Seq<char>,
    p: Seq<CallView>,
) -> bool {
    match c {
        CmdView::Claim => p == seq![CallView::AddAssignees { logins: seq![actor] }],
        CmdView::Unclaim => p == seq![CallView::RemoveAssignees { logins: seq![actor] }],
        CmdView::MarkReady => p == seq![
            CallView::AddLabels { labels: seq![lbl_ready()] },
            CallView::RemoveLabel { label: lbl_author() },
        ],
        CmdView::MarkNeedsAuthor => p == seq![
            CallView::AddLabels { labels: seq![lbl_author()] },
            CallView::RemoveLabel { label: lbl_ready() },
        ],
        CmdView::TriageNeeded => p == seq![CallView::AddLabels { labels: seq![lbl_triage()] }],
        CmdView::BugToggle => p == if labels.contains(lbl_bug()) {
            seq![CallView::RemoveLabel { label: lbl_bug() }]
        } else {
            seq![CallView::AddLabels { labels: seq![lbl_bug()] }]
        },
        CmdView::LabelEdit { adds, removes } => {
            &&& p.len() == 1
            &&& match p[0] {
                CallView::ReplaceAllLabels { labels: ls } => {
                    &&& ls.to_set() == spec_desired(labels, adds.to_set(), removes.to_set(), vocab)
                    &&& lex_sorted(ls)
                    &&& ls.no_duplicates()
                },
                _ => false,
            }
        },
    }
}

/// Adds a name to a label vector if absent; the set grows by the name.
fn add_label_value(v: Vec<String>, name: String) -> (r: Vec<String>)
    ensures
        views(r@).to_set() == views(v@).to_set().insert(name@),
{
    let mut v = v;
    let ghost n = name@;
    if !contains_label(&v, &name) {
        let ghost prev = v@;
        v.push(name);
        proof {
            assert(views(v@) =~= views(prev).push(n));
            views(prev).lemma_push_to_set_commute(n);
            assert(views(v@).to_set() =~= views(prev).to_set().insert(n));
        }
    } else {
        proof {
            assert(views(v@).to_set() =~= views(v@).to_set().insert(n));
        }
    }
    v
}

/// Removes every entry with the given characters; the set loses the name.
fn remove_label_value(v: Vec<String>, name: &String) -> (r: Vec<String>)
    ensures
        views(r@).to_set() == views(v@).to_set().remove(name@),
{
    let ghost cv = views(v@);
    let mut out: Vec<String> = Vec::new();
    let n: usize = v.len();
    let mut i: usize = 0;
    proof {
        assert(cv.take(0) =~= Seq::<Seq<char>>::empty());
        assert(views(out@).to_set() =~= cv.take(0).to_set().remove(name@));
    }
    while i < n
        invariant
            0 <= i <= n,
            n == v@.len(),
            cv == views(v@),
            views(out@).to_set() =~= cv.take(i as int).to_set().remove(name@),
        decreases n - i,
    {
        let ghost prev = out@;
        proof {
            assert(cv.take(i as int + 1) =~= cv.take(i as int).push(cv[i as int]));
            cv.take(i as int).lemma_push_to_set_commute(cv[i as int]);
        }
        if v[i] != *name {
            out.push(v[i].clone());
            proof {
                assert(views(out@) =~= views(prev).push(cv[i as int]));
                views(prev).lemma_push_to_set_commute(cv[i as int]);
                assert(views(out@).to_set() =~= cv.take(i as int + 1).to_set().remove(name@));
            }
        } else {
            proof {
                assert(views(out@).to_set() =~= cv.take(i as int + 1).to_set().remove(name@));
            }
        }
        i = i + 1;
    }
    proof {
        assert(cv.take(n as int) =~= cv);
    }
    out
}

/// Computes the desired label vector of a general label edit: sorted,
/// duplicate-free, and equal as a set to [`spec_desired`].
fn compute_desired(
    current: &Vec<String>,
    adds: &Vec<String>,
    removes: &Vec<String>,
    vocab: &Vec<String>,
) -> (r: Vec<String>)
    ensures
        label_vec_wf(r@),
        views(r@).to_set() == spec_desired(
            views(current@).to_set(),
            views(adds@).to_set(),
            views(removes@).to_set(),
            views(vocab@).to_set(),
        ),
{
    let ghost cv = views(current@);
    let ghost av = views(adds@);
    let ghost rv = views(removes@).to_set().intersect(views(vocab@).to_set());
    let mut out: Vec<String> = Vec::new();
    let n: usize = current.len();
    let mut i: usize = 0;
    proof {
        assert(cv.take(0) =~= Seq::<Seq<char>>::empty());
        assert(views(out@).to_set() =~= cv.take(0).to_set().difference(rv));
        assert(lex_sorted(views(out@)));
        assert(views(out@).no_duplicates());
    }
    while i < n
        invariant
            0 <= i <= n,
            n == current@.len(),
            cv == views(current@),
            rv == views(removes@).to_set().intersect(views(vocab@).to_set()),
            label_vec_wf(out@),
            views(out@).to_set() =~= cv.take(i as int).to_set().difference(rv),
        decreases n - i,
    {
        proof {
            assert(cv.take(i as int + 1) =~= cv.take(i as int).push(cv[i as int]));
            cv.take(i as int).lemma_push_to_set_commute(cv[i as int]);
        }
        let dropped = contains_label(removes, &current[i]) && contains_label(vocab, &current[i]);
        if !dropped {
            out = insert_label(out, current[i].clone());
            proof {
                assert(views(out@).to_set() =~= cv.take(i as int + 1).to_set().difference(rv));
            }
        } else {
            proof {
                assert(views(out@).to_set() =~= cv.take(i as int + 1).to_set().difference(rv));
            }
        }
        i = i + 1;
    }
    proof {
        assert(cv.take(n as int) =~= cv);
    }
    let m: usize = adds.len();
    let mut j: usize = 0;
    proof {
        assert(av.take(0) =~= Seq::<Seq<char>>::empty());
        assert(views(out@).to_set() =~= cv.to_set().difference(rv).union(
            av.take(0).to_set().intersect(views(vocab@).to_set()).difference(rv),
        ));
    }
    while j < m
        invariant
            0 <= j <= m,
            m == adds@.len(),
            cv == views(current@),
            av == views(adds@),
            rv == views(removes@).to_set().intersect(views(vocab@).to_set()),
            label_vec_wf(out@),
            views(out@).to_set() =~= cv.to_set().difference(rv).union(
                av.take(j as int).to_set().intersect(views(vocab@).to_set()).difference(rv),
            ),
        decreases m - j,
    {
        proof {
            assert(av.take(j as int + 1) =~= av.take(j as int).push(av[j as int]));
            av.take(j as int).lemma_push_to_set_commute(av[j as int]);
        }
        let wanted = contains_label(vocab, &adds[j]) && !contains_label(removes, &adds[j]);
        if wanted {
            out = insert_label(out, adds[j].clone());
        }
        proof {
            assert(views(out@).to_set() =~= cv.to_set().difference(rv).union(
                av.take(j as int + 1).to_set().intersect(views(vocab@).to_set()).difference(rv),
            ));
        }
        j = j + 1;
    }
    proof {
        assert(av.take(m as int) =~= av);
        assert(views(out@).to_set() =~= spec_desired(
            cv.to_set(),
            av.to_set(),
            views(removes@).to_set(),
            views(vocab@).to_set(),
        ));
    }
    out
}

/// The calls one command turns into, and the label state it leaves
/// behind; the returned state feeds the next command of the same
/// comment, so that later commands override earlier ones.
pub fn plan_for_command(c: &Command, labels: Vec<String>, vocab: &Vec<String>, actor: &String) -> (r:
    (Vec<TrackerCall>, Vec<String>))
    ensures
        call_views(r.0@).len() == spec_cmd_plan_len(c@),
        spec_cmd_plan_matches(
            c@,
            views(labels@).to_set(),
            views(vocab@).to_set(),
            actor@,
            call_views(r.0@),
        ),
        views(r.1@).to_set() == spec_state_after(
            c@,
            views(labels@).to_set(),
            views(vocab@).to_set(),
        ),
{
    match c {
        Command::Claim => {
            let calls = vec![TrackerCall::AddAssignees { logins: vec![actor.clone()] }];
            proof {
                assert(call_views(calls@) =~~= seq![
                    CallView::AddAssignees { logins: seq![actor@] },
                ]);
            }
            (calls, labels)
        },
        Command::Unclaim => {
            let calls = vec![TrackerCall::RemoveAssignees { logins: vec![actor.clone()] }];
            proof {
                assert(call_views(calls@) =~~= seq![
                    CallView::RemoveAssignees { logins: seq![actor@] },
                ]);
            }
            (calls, labels)
        },
        Command::MarkReady => {
            let add = String::from_str("waiting-for-reviews");
            let del = String::from_str("waiting-on-author");
            let state = add_label_value(labels, add.clone());
            let state = remove_label_value(state, &del);
            let calls = vec![
                TrackerCall::AddLabels { labels: vec![add] },
                TrackerCall::RemoveLabel { label: del },
            ];
            proof {
                assert(call_views(calls@) =~~= seq![
                    CallView::AddLabels { labels: seq![lbl_ready()] },
                    CallView::RemoveLabel { label: lbl_author() },
                ]);
            }
            (calls, state)
        },
        Command::MarkNeedsAuthor => {
            let add = String::from_str("waiting-on-author");
            let del = String::from_str("waiting-for-reviews");
            let state = add_label_value(labels, add.clone());
            let state = remove_label_value(state, &del);
            let calls = vec![
                TrackerCall::AddLabels { labels: vec![add] },
                TrackerCall::RemoveLabel { label: del },
            ];
            proof {
                assert(call_views(calls@) =~~= seq![
                    CallView::AddLabels { labels: seq![lbl_author()] },
                    CallView::RemoveLabel { label: lbl_ready() },
                ]);
            }
            (calls, state)
        },
        Command::TriageNeeded => {
            let add = String::from_str("triage-needed");
            let state = add_label_value(labels, add.clone());
            let calls = vec![TrackerCall::AddLabels { labels: vec![add] }];
            proof {
                assert(call_views(calls@) =~~= seq![
                    CallView::AddLabels { labels: seq![lbl_triage()] },
                ]);
            }
            (calls, state)
        },
        Command::BugToggle => {
            let bug = String::from_str("bug");
            if contains_label(&labels, &bug) {
                let state = remove_label_value(labels, &bug);
                let calls = vec![TrackerCall::RemoveLabel { label: bug }];
                proof {
                    assert(call_views(calls@) =~~= seq![CallView::RemoveLabel { label: lbl_bug() }]);
                }
                (calls, state)
            } else {
                let state = add_label_value(labels, bug.clone());
                let calls = vec![TrackerCall::AddLabels { labels: vec![bug] }];
                proof {
                    assert(call_views(calls@) =~~= seq![
                        CallView::AddLabels { labels: seq![lbl_bug()] },
                    ]);
                }
                (calls, state)
            }
        },
        Command::LabelEdit { adds, removes } => {
            let desired = compute_desired(&labels, adds, removes, vocab);
            let payload = desired.clone();
            proof {
                assert forall|k: int| 0 <= k < desired@.len() implies payload@[k]@
                    == desired@[k]@ by {
                }
                assert(views(payload@) =~= views(desired@));
            }
            let calls = vec![TrackerCall::ReplaceAllLabels { labels: payload }];
            proof {
                assert(call_views(calls@).len() == 1);
                assert(call_views(calls@)[0] == CallView::ReplaceAllLabels {
                    labels: views(desired@),
                });
            }
            (calls, desired)
        },
    }
}

} // verus!
