//! File-path labeler: derives topic labels from a pull request's
//! changed-file list by unanchored, case-sensitive substring matching
//! against a fixed trigger table. Matching whole paths rather than path
//! segments is an accepted approximation.

use vstd::prelude::*;
use vstd::string::StrSliceExecFns;

use crate::text::spec_starts_with;
use crate::text::starts_with_str;
use crate::text::views;

verus! {

/// `p` occurs somewhere in `s` as a contiguous run of characters.
pub open spec fn spec_has_substring(s: Seq<char>, p: Seq<char>) -> bool {
    exists|i: int| 0 <= i && i + p.len() <= s.len() && #[trigger] s.subrange(i, i + p.len()) == p
}

/// Some file of the list contains the trigger substring.
pub open spec fn spec_matches_any(files: Seq<Seq<char>>, pat: Seq<char>) -> bool {
    exists|k: int| 0 <= k < files.len() && spec_has_substring(#[trigger] files[k], pat)
}

/// The one-entry contribution of a trigger/label pair.
pub open spec fn opt_topic(files: Seq<Seq<char>>, pat: Seq<char>, lbl: Seq<char>) -> Seq<
    Seq<char>,
> {
    if spec_matches_any(files, pat) {
        seq![lbl]
    } else {
        Seq::empty()
    }
}

/// The topic labels a changed-file list earns, in fixed table order.
pub open spec fn spec_topic_labels(files: Seq<Seq<char>>) -> Seq<Seq<char>> {
    opt_topic(files, "client"@, "client"@) + opt_topic(files, "server"@, "server"@) + opt_topic(
        files,
        "demo"@,
        "demo"@,
    ) + opt_topic(files, "editor"@, "editor"@) + opt_topic(files, "engine"@, "engine"@)
        + opt_topic(files, "map"@, "maps"@) + opt_topic(files, "network"@, "network"@)
}

/// Whether `pat` occurs in `s`, matching [`spec_has_substring`].
pub fn has_substring(s: &str, pat: &str) -> (r: bool)
    ensures
        r == spec_has_substring(s@, pat@),
{
    let sl: usize = s.unicode_len();
    let pl: usize = pat.unicode_len();
    if pl > sl {
        return false;
    }
    if pl == 0 {
        proof {
            assert(s@.subrange(0, 0 + pat@.len() as int) =~= pat@);
            assert(spec_has_substring(s@, pat@));
        }
        return true;
    }
    let mut i: usize = 0;
    while i <= sl - pl
        invariant
            0 <= i <= sl - pl + 1,
            1 <= pl <= sl,
            sl == s@.len(),
            pl == pat@.len(),
            forall|j: int| 0 <= j < i ==> #[trigger] s@.subrange(j, j + pat@.len()) != pat@,
        decreases sl - pl + 1 - i,
    {
        let tail = s.substring_char(i, sl);
        if starts_with_str(tail, pat) {
            proof {
                assert(tail@.take(pat@.len() as int) =~= s@.subrange(
                    i as int,
                    i as int + pat@.len(),
                ));
            }
            return true;
        }
        proof {
            assert(tail@.take(pat@.len() as int) =~= s@.subrange(i as int, i as int + pat@.len()));
        }
        i = i + 1;
    }
    proof {
        assert forall|j: int| 0 <= j && j + pat@.len() <= s@.len() implies #[trigger] s@.subrange(
            j,
            j + pat@.len(),
        ) != pat@ by {}
    }
    false
}

/// Whether any file of the list contains the trigger substring.
pub fn any_file_matches(files: &Vec<String>, pat: &str) -> (r: bool)
    ensures
        r == spec_matches_any(views(files@), pat@),
{
    let n: usize = files.len();
    let mut k: usize = 0;
    while k < n
        invariant
            0 <= k <= n,
            n == files@.len(),
            forall|j: int| 0 <= j < k ==> !spec_has_substring(#[trigger] views(files@)[j], pat@),
        decreases n - k,
    {
        if has_substring(files[k].as_str(), pat) {
            proof {
                assert(spec_has_substring(views(files@)[k as int], pat@));
            }
            return true;
        }
        k = k + 1;
    }
    false
}

/// Appends the pair's label if any file matches its trigger.
fn add_topic(out: &mut Vec<String>, files: &Vec<String>, pat: &str, lbl: &str)
    ensures
        views(final(out)@) == views(old(out)@) + opt_topic(views(files@), pat@, lbl@),
{
    let ghost prev = out@;
    if any_file_matches(files, pat) {
        out.push(lbl.to_owned());
        proof {
            assert(views(out@) =~= views(prev) + seq![lbl@]);
        }
    } else {
        proof {
            assert(views(out@) =~= views(prev) + Seq::<Seq<char>>::empty());
        }
    }
}

/// The topic labels to add for the given changed files; never removes.
pub fn topic_labels(files: &Vec<String>) -> (r: Vec<String>)
    ensures
        views(r@) == spec_topic_labels(views(files@)),
{
    let mut out: Vec<String> = Vec::new();
    proof {
        assert(views(out@) =~= Seq::<Seq<char>>::empty());
    }
    add_topic(&mut out, files, "client", "client");
    add_topic(&mut out, files, "server", "server");
    add_topic(&mut out, files, "demo", "demo");
    add_topic(&mut out, files, "editor", "editor");
    add_topic(&mut out, files, "engine", "engine");
    add_topic(&mut out, files, "map", "maps");
    add_topic(&mut out, files, "network", "network");
    proof {
        assert(views(out@) =~= spec_topic_labels(views(files@)));
    }
    out
}

} // verus!
