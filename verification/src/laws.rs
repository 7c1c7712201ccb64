//! Laws of the engine, stated and proved once for all inputs: parser
//! purity, removal precedence and vocabulary filtering in label edits,
//! idempotence of the fixed marker commands, and the bridge between a
//! command's emitted calls and the label state it claims to reach.

use vstd::prelude::*;

use crate::command::CmdView;
use crate::command::spec_parse_comment;
use crate::command::spec_parse_line;
use crate::command::spec_parse_lines;
use crate::reconcile::CallView;
use crate::reconcile::apply_call;
use crate::reconcile::apply_plan;
use crate::reconcile::spec_cmd_plan_matches;
use crate::reconcile::spec_desired;
use crate::reconcile::spec_state_after;
use crate::text::spec_lines;
use crate::text::spec_starts_with;
use crate::text::spec_trim_start;

verus! {

proof fn lemma_apply_single(s: Set<Seq<char>>, p: Seq<CallView>)
    requires
        p.len() == 1,
    ensures
        apply_plan(s, p) == apply_call(s, p[0]),
{
    assert(p.skip(1) =~= Seq::<CallView>::empty());
    assert(apply_plan(s, p) == apply_plan(apply_call(s, p[0]), p.skip(1)));
}

proof fn lemma_no_trigger_lines(ls: Seq<Seq<char>>, trigger: Seq<char>)
    requires
        forall|i: int|
            0 <= i < ls.len() ==> !spec_starts_with(spec_trim_start(#[trigger] ls[i]), trigger),
    ensures
        spec_parse_lines(ls, trigger) == Seq::<CmdView>::empty(),
    decreases ls.len(),
{
    if ls.len() > 0 {
        assert(spec_parse_line(ls[0], trigger) is None);
        assert forall|i: int| 0 <= i < ls.skip(1).len() implies !spec_starts_with(
            spec_trim_start(#[trigger] ls.skip(1)[i]),
            trigger,
        ) by {
            assert(ls.skip(1)[i] == ls[i + 1]);
        }
        lemma_no_trigger_lines(ls.skip(1), trigger);
        assert(spec_parse_lines(ls, trigger) =~= Seq::<CmdView>::empty());
    } else {
        assert(spec_parse_lines(ls, trigger) =~= Seq::<CmdView>::empty());
    }
}

/// Parser purity: a comment body none of whose lines starts (after
/// trimming) with the trigger token yields no commands at all.
pub proof fn lemma_untriggered_body_yields_no_commands(body: Seq<char>, trigger: Seq<char>)
    requires
        forall|i: int|
            0 <= i < spec_lines(body).len() ==> !spec_starts_with(
                spec_trim_start(#[trigger] spec_lines(body)[i]),
                trigger,
            ),
    ensures
        spec_parse_comment(body, trigger) == Seq::<CmdView>::empty(),
{
    lemma_no_trigger_lines(spec_lines(body), trigger);
}

/// Removal precedence: a vocabulary name asked to be removed is absent
/// from the desired set, even when the same edit also adds it.
pub proof fn lemma_removal_precedence(
    current: Set<Seq<char>>,
    adds: Set<Seq<char>>,
    removes: Set<Seq<char>>,
    vocab: Set<Seq<char>>,
    name: Seq<char>,
)
    requires
        removes.contains(name),
        vocab.contains(name),
    ensures
        !spec_desired(current, adds, removes, vocab).contains(name),
{
}

/// Vocabulary filtering: a name outside the repository vocabulary and
/// not already applied never enters the desired set. (A name outside
/// the vocabulary that is already applied stays: its removal is
/// filtered out too.)
pub proof fn lemma_vocabulary_filtering(
    current: Set<Seq<char>>,
    adds: Set<Seq<char>>,
    removes: Set<Seq<char>>,
    vocab: Set<Seq<char>>,
    name: Seq<char>,
)
    requires
        !vocab.contains(name),
        !current.contains(name),
    ensures
        !spec_desired(current, adds, removes, vocab).contains(name),
{
}

/// Idempotence of the marker commands: issuing `ready` or `author`
/// twice from the same starting label set ends in the same label set as
/// issuing it once.
pub proof fn lemma_marker_idempotent(c: CmdView, labels: Set<Seq<char>>, vocab: Set<Seq<char>>)
    requires
        c == CmdView::MarkReady || c == CmdView::MarkNeedsAuthor,
    ensures
        spec_state_after(c, spec_state_after(c, labels, vocab), vocab) == spec_state_after(
            c,
            labels,
            vocab,
        ),
{
    assert(spec_state_after(c, spec_state_after(c, labels, vocab), vocab) =~= spec_state_after(
        c,
        labels,
        vocab,
    ));
}

/// The calls emitted for one command, applied in order to the current
/// label set, produce exactly the label state the reconciler claims.
pub proof fn lemma_cmd_plan_effect(
    c: CmdView,
    labels: Set<Seq<char>>,
    vocab: Set<Seq<char>>,
    actor: Seq<char>,
    p: Seq<CallView>,
)
    requires
        spec_cmd_plan_matches(c, labels, vocab, actor, p),
    ensures
        apply_plan(labels, p) == spec_state_after(c, labels, vocab),
{
    match c {
        CmdView::Claim => {
            lemma_apply_single(labels, p);
        },
        CmdView::Unclaim => {
            lemma_apply_single(labels, p);
        },
        CmdView::MarkReady => {
            let one = p.skip(1);
            assert(one.len() == 1);
            assert(one[0] == p[1]);
            assert(one.skip(1) =~= Seq::<CallView>::empty());
            assert(seq![crate::reconcile::lbl_ready()].to_set() =~= Set::<
                Seq<char>,
            >::empty().insert(crate::reconcile::lbl_ready())) by {
                assert(seq![crate::reconcile::lbl_ready()][0] == crate::reconcile::lbl_ready());
            }
            let s1 = apply_call(labels, p[0]);
            assert(s1 =~= labels.insert(crate::reconcile::lbl_ready()));
            assert(apply_plan(labels, p) == apply_plan(s1, one));
            assert(apply_plan(s1, one) == apply_plan(apply_call(s1, one[0]), one.skip(1)));
            assert(apply_plan(apply_call(s1, one[0]), one.skip(1)) == apply_call(s1, p[1]));
            assert(apply_plan(labels, p) =~= spec_state_after(c, labels, vocab));
        },
        CmdView::MarkNeedsAuthor => {
            let one = p.skip(1);
            assert(one.len() == 1);
            assert(one[0] == p[1]);
            assert(one.skip(1) =~= Seq::<CallView>::empty());
            assert(seq![crate::reconcile::lbl_author()].to_set() =~= Set::<
                Seq<char>,
            >::empty().insert(crate::reconcile::lbl_author())) by {
                assert(seq![crate::reconcile::lbl_author()][0] == crate::reconcile::lbl_author());
            }
            let s1 = apply_call(labels, p[0]);
            assert(s1 =~= labels.insert(crate::reconcile::lbl_author()));
            assert(apply_plan(labels, p) == apply_plan(s1, one));
            assert(apply_plan(s1, one) == apply_plan(apply_call(s1, one[0]), one.skip(1)));
            assert(apply_plan(apply_call(s1, one[0]), one.skip(1)) == apply_call(s1, p[1]));
            assert(apply_plan(labels, p) =~= spec_state_after(c, labels, vocab));
        },
        CmdView::TriageNeeded => {
            lemma_apply_single(labels, p);
            assert(seq![crate::reconcile::lbl_triage()].to_set() =~= Set::<
                Seq<char>,
            >::empty().insert(crate::reconcile::lbl_triage())) by {
                assert(seq![crate::reconcile::lbl_triage()][0] == crate::reconcile::lbl_triage());
            }
            assert(apply_plan(labels, p) =~= spec_state_after(c, labels, vocab));
        },
        CmdView::BugToggle => {
            lemma_apply_single(labels, p);
            if labels.contains(crate::reconcile::lbl_bug()) {
            } else {
                assert(seq![crate::reconcile::lbl_bug()].to_set() =~= Set::<
                    Seq<char>,
                >::empty().insert(crate::reconcile::lbl_bug())) by {
                    assert(seq![crate::reconcile::lbl_bug()][0] == crate::reconcile::lbl_bug());
                }
                assert(apply_plan(labels, p) =~= spec_state_after(c, labels, vocab));
            }
        },
        CmdView::LabelEdit { adds, removes } => {
            lemma_apply_single(labels, p);
        },
    }
}

} // verus!
