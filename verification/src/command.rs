//! Command parser: extracts bot directives from free-text comment bodies.
//!
//! A comment body is processed line by line. A line whose trimmed text
//! begins with the trigger prefix is stripped of the prefix, trimmed
//! again, and classified by longest-match-first prefix testing against
//! the fixed command vocabulary. Anything unrecognized is ignored, so
//! parsing never fails; malformed input yields fewer or no commands.

use vstd::prelude::*;
use vstd::string::StrSliceExecFns;

use crate::text::spec_lines;
use crate::text::spec_starts_with;
use crate::text::spec_tokens;
use crate::text::spec_trim_start;
use crate::text::split_lines;
use crate::text::starts_with_str;
use crate::text::tokenize;
use crate::text::trim_start_str;
use crate::text::views;

verus! {

/// A directive a comment line can carry.
#[derive(Debug, Clone, PartialEq, Eq)]
pub enum Command {
    /// Assign the commenting actor to the issue.
    Claim,
    /// Unassign the commenting actor from the issue.
    Unclaim,
    /// Mark the issue as waiting for reviews.
    MarkReady,
    /// Mark the issue as waiting on its author.
    MarkNeedsAuthor,
    /// Toggle the fixed bug label.
    BugToggle,
    /// Edit the label set: names to add and names to remove, each still
    /// to be validated against the repository vocabulary downstream.
    LabelEdit { adds: Vec<String>, removes: Vec<String> },
    /// Ask for triage; produced by the router for newly opened issues.
    TriageNeeded,
}

/// Mathematical image of a [`Command`]: label names as char sequences.
#[verifier::ext_equal]
pub enum CmdView {
    Claim,
    Unclaim,
    MarkReady,
    MarkNeedsAuthor,
    BugToggle,
    LabelEdit { adds: Seq<Seq<char>>, removes: Seq<Seq<char>> },
    TriageNeeded,
}

impl View for Command {
    type V = CmdView;

    open spec fn view(&self) -> CmdView {
        match self {
            Command::Claim => CmdView::Claim,
            Command::Unclaim => CmdView::Unclaim,
            Command::MarkReady => CmdView::MarkReady,
            Command::MarkNeedsAuthor => CmdView::MarkNeedsAuthor,
            Command::BugToggle => CmdView::BugToggle,
            Command::LabelEdit { adds, removes } => CmdView::LabelEdit {
                adds: views(adds@),
                removes: views(removes@),
            },
            Command::TriageNeeded => CmdView::TriageNeeded,
        }
    }
}

/// View of a sequence of commands.
pub open spec fn cmd_views(q: Seq<Command>) -> Seq<CmdView> {
    q.map_values(|c: Command| c@)
}

/// The names among `tokens` marked with `sigil`, in order, sigil removed.
pub open spec fn spec_sigil_names(tokens: Seq<Seq<char>>, sigil: char) -> Seq<Seq<char>>
    decreases tokens.len(),
{
    if tokens.len() == 0 {
        Seq::empty()
    } else {
        let rest = spec_sigil_names(tokens.skip(1), sigil);
        if tokens[0].len() > 0 && tokens[0][0] == sigil {
            seq![tokens[0].skip(1)] + rest
        } else {
            rest
        }
    }
}

/// The command a single comment line carries, if any.
pub open spec fn spec_parse_line(line: Seq<char>, trigger: Seq<char>) -> Option<CmdView> {
    let t = spec_trim_start(line);
    if !spec_starts_with(t, trigger) {
        None
    } else {
        let rest = spec_trim_start(t.skip(trigger.len() as int));
        if spec_starts_with(rest, "unclaim"@) {
            Some(CmdView::Unclaim)
        } else if spec_starts_with(rest, "author"@) {
            Some(CmdView::MarkNeedsAuthor)
        } else if spec_starts_with(rest, "claim"@) {
            Some(CmdView::Claim)
        } else if spec_starts_with(rest, "ready"@) {
            Some(CmdView::MarkReady)
        } else if spec_starts_with(rest, "label"@) {
            let toks = spec_tokens(rest.skip("label"@.len() as int));
            Some(
                CmdView::LabelEdit {
                    adds: spec_sigil_names(toks, '+'),
                    removes: spec_sigil_names(toks, '-'),
                },
            )
        } else if spec_starts_with(rest, "bug"@) {
            Some(CmdView::BugToggle)
        } else {
            None
        }
    }
}

/// The commands of a sequence of lines, in order.
pub open spec fn spec_parse_lines(ls: Seq<Seq<char>>, trigger: Seq<char>) -> Seq<CmdView>
    decreases ls.len(),
{
    if ls.len() == 0 {
        Seq::empty()
    } else {
        let head = match spec_parse_line(ls[0], trigger) {
            Some(c) => seq![c],
            None => Seq::empty(),
        };
        head + spec_parse_lines(ls.skip(1), trigger)
    }
}

/// The ordered command sequence a whole comment body yields.
pub open spec fn spec_parse_comment(body: Seq<char>, trigger: Seq<char>) -> Seq<CmdView> {
    spec_parse_lines(spec_lines(body), trigger)
}

/// Collects the names among `tokens` marked `+` and those marked `-`.
/// Tokens without a sigil are ignored.
fn split_sigils(tokens: &Vec<String>) -> (r: (Vec<String>, Vec<String>))
    ensures
        views(r.0@) == spec_sigil_names(views(tokens@), '+'),
        views(r.1@) == spec_sigil_names(views(tokens@), '-'),
{
    let mut adds: Vec<String> = Vec::new();
    let mut removes: Vec<String> = Vec::new();
    let n: usize = tokens.len();
    let ghost tv = views(tokens@);
    let mut i: usize = 0;
    proof {
        assert(views(adds@) =~= Seq::<Seq<char>>::empty());
        assert(views(removes@) =~= Seq::<Seq<char>>::empty());
        assert(tv.skip(0) =~= tv);
    }
    while i < n
        invariant
            0 <= i <= n,
            n == tokens@.len(),
            tv == views(tokens@),
            spec_sigil_names(tv, '+') =~= views(adds@) + spec_sigil_names(tv.skip(i as int), '+'),
            spec_sigil_names(tv, '-') =~= views(removes@) + spec_sigil_names(
                tv.skip(i as int),
                '-',
            ),
        decreases n - i,
    {
        let ghost prev_adds = adds@;
        let ghost prev_removes = removes@;
        let tok: &String = &tokens[i];
        let tl: usize = tok.as_str().unicode_len();
        proof {
            assert(tv.skip(i as int)[0] == tv[i as int]);
            assert(tv.skip(i as int).skip(1) =~= tv.skip(i as int + 1));
        }
        if tl > 0 {
            let c: char = tok.as_str().get_char(0);
            if c == '+' {
                let name = tok.as_str().substring_char(1, tl);
                adds.push(name.to_owned());
                proof {
                    assert(views(adds@) =~= views(prev_adds) + seq![tv[i as int].skip(1)]);
                }
            } else if c == '-' {
                let name = tok.as_str().substring_char(1, tl);
                removes.push(name.to_owned());
                proof {
                    assert(views(removes@) =~= views(prev_removes) + seq![tv[i as int].skip(1)]);
                }
            }
        }
        i = i + 1;
    }
    proof {
        assert(tv.skip(n as int) =~= Seq::<Seq<char>>::empty());
        assert(views(adds@) =~= spec_sigil_names(tv, '+'));
        assert(views(removes@) =~= spec_sigil_names(tv, '-'));
    }
    (adds, removes)
}

/// View of an optional command.
pub open spec fn opt_cmd_view(r: Option<Command>) -> Option<CmdView> {
    match r {
        Some(c) => Some(c@),
        None => None,
    }
}

/// Parses one comment line against the trigger prefix.
pub fn parse_line(line: &str, trigger: &str) -> (r: Option<Command>)
    ensures
        opt_cmd_view(r) == spec_parse_line(line@, trigger@),
{
    let t = trim_start_str(line);
    if !starts_with_str(t, trigger) {
        return None;
    }
    let tl: usize = t.unicode_len();
    let rest0 = t.substring_char(trigger.unicode_len(), tl);
    proof {
        assert(rest0@ =~= t@.skip(trigger@.len() as int));
    }
    let rest = trim_start_str(rest0);
    if starts_with_str(rest, "unclaim") {
        Some(Command::Unclaim)
    } else if starts_with_str(rest, "author") {
        Some(Command::MarkNeedsAuthor)
    } else if starts_with_str(rest, "claim") {
        Some(Command::Claim)
    } else if starts_with_str(rest, "ready") {
        Some(Command::MarkReady)
    } else if starts_with_str(rest, "label") {
        proof {
            reveal_strlit("label");
        }
        let args = rest.substring_char(5, rest.unicode_len());
        proof {
            assert(args@ =~= rest@.skip("label"@.len() as int));
        }
        let toks = tokenize(args);
        let (adds, removes) = split_sigils(&toks);
        Some(Command::LabelEdit { adds, removes })
    } else if starts_with_str(rest, "bug") {
        Some(Command::BugToggle)
    } else {
        None
    }
}

/// Parses a whole comment body: one command per matching line, in the
/// order encountered.
pub fn parse_comment(body: &str, trigger: &str) -> (r: Vec<Command>)
    ensures
        cmd_views(r@) == spec_parse_comment(body@, trigger@),
{
    let lines = split_lines(body);
    let ghost lv = views(lines@);
    let mut out: Vec<Command> = Vec::new();
    let n: usize = lines.len();
    let mut i: usize = 0;
    proof {
        assert(cmd_views(out@) =~= Seq::<CmdView>::empty());
        assert(lv.skip(0) =~= lv);
    }
    while i < n
        invariant
            0 <= i <= n,
            n == lines@.len(),
            lv == views(lines@),
            spec_parse_lines(lv, trigger@) =~= cmd_views(out@) + spec_parse_lines(
                lv.skip(i as int),
                trigger@,
            ),
        decreases n - i,
    {
        let ghost prev = out@;
        proof {
            assert(lv.skip(i as int)[0] == lv[i as int]);
            assert(lv.skip(i as int).skip(1) =~= lv.skip(i as int + 1));
        }
        match parse_line(lines[i].as_str(), trigger) {
            Some(c) => {
                out.push(c);
                proof {
                    assert(cmd_views(out@) =~= cmd_views(prev) + seq![out@[out@.len() - 1]@]);
                }
            },
            None => {},
        }
        i = i + 1;
    }
    proof {
        assert(lv.skip(n as int) =~= Seq::<Seq<char>>::empty());
        assert(cmd_views(out@) =~= spec_parse_lines(lv, trigger@));
    }
    out
}

} // verus!
