//! Character-level text utilities the command parser is built on:
//! whitespace trimming, prefix tests, line splitting and token splitting,
//! each verified against a recursive specification over `Seq<char>`.

use vstd::prelude::*;
use vstd::string::StrSliceExecFns;

verus! {

/// Whitespace for the purposes of command parsing: the ASCII blank
/// characters that can separate tokens or pad a line.
pub open spec fn is_space(c: char) -> bool {
    c == ' ' || c == '\t' || c == '\r' || c == '\n' || c == '\u{c}'
}

/// Runtime test matching [`is_space`].
pub fn is_space_char(c: char) -> (r: bool)
    ensures
        r == is_space(c),
{
    c == ' ' || c == '\t' || c == '\r' || c == '\n' || c == '\u{c}'
}

/// View of a sequence of owned strings as a sequence of char sequences.
pub open spec fn views(q: Seq<String>) -> Seq<Seq<char>> {
    q.map_values(|s: String| s@)
}

/// Index of the first character satisfying `p`, or the length if none does.
pub open spec fn scan(s: Seq<char>, p: spec_fn(char) -> bool) -> int
    decreases s.len(),
{
    if s.len() == 0 {
        0
    } else if p(s[0]) {
        0
    } else {
        1 + scan(s.drop_first(), p)
    }
}

/// The predicate picking the first non-whitespace character.
pub open spec fn nonspace_pred() -> spec_fn(char) -> bool {
    |c: char| !is_space(c)
}

/// The predicate picking the first whitespace character.
pub open spec fn space_pred() -> spec_fn(char) -> bool {
    |c: char| is_space(c)
}

/// The predicate picking the first line break.
pub open spec fn newline_pred() -> spec_fn(char) -> bool {
    |c: char| c == '\n'
}

pub proof fn lemma_scan_bounds(s: Seq<char>, p: spec_fn(char) -> bool)
    ensures
        0 <= scan(s, p) <= s.len(),
        forall|j: int| 0 <= j < scan(s, p) ==> !p(#[trigger] s[j]),
        scan(s, p) < s.len() ==> p(s[scan(s, p)]),
    decreases s.len(),
{
    if s.len() == 0 {
    } else if p(s[0]) {
    } else {
        lemma_scan_bounds(s.drop_first(), p);
        assert forall|j: int| 0 <= j < scan(s, p) implies !p(#[trigger] s[j]) by {
            if j > 0 {
                assert(s[j] == s.drop_first()[j - 1]);
            }
        }
    }
}

/// A position before which `p` never holds and at which it holds (or the
/// end) is exactly where the scan stops.
pub proof fn lemma_scan_is(s: Seq<char>, p: spec_fn(char) -> bool, i: int)
    requires
        0 <= i <= s.len(),
        forall|j: int| 0 <= j < i ==> !p(#[trigger] s[j]),
        i < s.len() ==> p(s[i]),
    ensures
        scan(s, p) == i,
    decreases s.len(),
{
    if s.len() == 0 {
    } else if p(s[0]) {
        assert(i == 0);
    } else {
        assert(i >= 1);
        lemma_scan_is(s.drop_first(), p, i - 1);
    }
}

/// The input without its leading whitespace.
pub open spec fn spec_trim_start(s: Seq<char>) -> Seq<char> {
    s.skip(scan(s, nonspace_pred()))
}

/// `p` is an initial segment of `s`.
pub open spec fn spec_starts_with(s: Seq<char>, p: Seq<char>) -> bool {
    p.len() <= s.len() && s.take(p.len() as int) == p
}

/// A line with a trailing carriage return loses it.
pub open spec fn strip_cr(l: Seq<char>) -> Seq<char> {
    if l.len() > 0 && l.last() == '\r' {
        l.drop_last()
    } else {
        l
    }
}

/// The lines of a text: pieces between line feeds, each without a
/// trailing carriage return; a trailing line feed opens no further line.
pub open spec fn spec_lines(s: Seq<char>) -> Seq<Seq<char>>
    decreases s.len(),
{
    if s.len() == 0 {
        Seq::empty()
    } else {
        let i = scan(s, newline_pred());
        if 0 <= i < s.len() {
            seq![strip_cr(s.take(i))] + spec_lines(s.skip(i + 1))
        } else {
            seq![strip_cr(s)]
        }
    }
}

/// The whitespace-separated tokens of a text, in order.
pub open spec fn spec_tokens(s: Seq<char>) -> Seq<Seq<char>>
    decreases s.len(),
{
    if s.len() == 0 {
        Seq::empty()
    } else if is_space(s[0]) {
        spec_tokens(s.skip(1))
    } else {
        let i = scan(s, space_pred());
        if 1 <= i <= s.len() {
            seq![s.take(i)] + spec_tokens(s.skip(i))
        } else {
            Seq::empty()
        }
    }
}

/// Position of the first non-whitespace character at or after `from`.
pub fn find_nonspace(s: &str, from: usize) -> (r: usize)
    requires
        from <= s@.len(),
    ensures
        from <= r <= s@.len(),
        forall|j: int| from <= j < r ==> is_space(#[trigger] s@[j]),
        r < s@.len() ==> !is_space(s@[r as int]),
{
    let n: usize = s.unicode_len();
    let mut i: usize = from;
    while i < n && is_space_char(s.get_char(i))
        invariant
            from <= i <= n,
            n == s@.len(),
            forall|j: int| from <= j < i ==> is_space(#[trigger] s@[j]),
        decreases n - i,
    {
        i = i + 1;
    }
    i
}

/// Position of the first whitespace character at or after `from`.
pub fn find_space(s: &str, from: usize) -> (r: usize)
    requires
        from <= s@.len(),
    ensures
        from <= r <= s@.len(),
        forall|j: int| from <= j < r ==> !is_space(#[trigger] s@[j]),
        r < s@.len() ==> is_space(s@[r as int]),
{
    let n: usize = s.unicode_len();
    let mut i: usize = from;
    while i < n && !is_space_char(s.get_char(i))
        invariant
            from <= i <= n,
            n == s@.len(),
            forall|j: int| from <= j < i ==> !is_space(#[trigger] s@[j]),
        decreases n - i,
    {
        i = i + 1;
    }
    i
}

/// Position of the first line feed at or after `from`.
pub fn find_newline(s: &str, from: usize) -> (r: usize)
    requires
        from <= s@.len(),
    ensures
        from <= r <= s@.len(),
        forall|j: int| from <= j < r ==> #[trigger] s@[j] != '\n',
        r < s@.len() ==> s@[r as int] == '\n',
{
    let n: usize = s.unicode_len();
    let mut i: usize = from;
    while i < n && s.get_char(i) != '\n'
        invariant
            from <= i <= n,
            n == s@.len(),
            forall|j: int| from <= j < i ==> #[trigger] s@[j] != '\n',
        decreases n - i,
    {
        i = i + 1;
    }
    i
}

/// The input slice without its leading whitespace.
pub fn trim_start_str<'a>(s: &'a str) -> (r: &'a str)
    ensures
        r@ == spec_trim_start(s@),
{
    let n: usize = s.unicode_len();
    let i: usize = find_nonspace(s, 0);
    proof {
        lemma_scan_is(s@, nonspace_pred(), i as int);
    }
    s.substring_char(i, n)
}

/// Whether `s` begins with `p`, character for character.
pub fn starts_with_str(s: &str, p: &str) -> (r: bool)
    ensures
        r == spec_starts_with(s@, p@),
{
    let sl: usize = s.unicode_len();
    let pl: usize = p.unicode_len();
    if pl > sl {
        return false;
    }
    let mut i: usize = 0;
    while i < pl
        invariant
            0 <= i <= pl,
            pl <= sl,
            pl == p@.len(),
            sl == s@.len(),
            forall|j: int| 0 <= j < i ==> s@[j] == p@[j],
        decreases pl - i,
    {
        if s.get_char(i) != p.get_char(i) {
            proof {
                assert(s@.take(pl as int)[i as int] != p@[i as int]);
            }
            return false;
        }
        i = i + 1;
    }
    proof {
        assert(s@.take(pl as int) =~= p@);
    }
    true
}

/// The lines of `s`, as owned strings, matching [`spec_lines`].
pub fn split_lines(s: &str) -> (r: Vec<String>)
    ensures
        views(r@) == spec_lines(s@),
{
    let n: usize = s.unicode_len();
    let mut out: Vec<String> = Vec::new();
    let mut pos: usize = 0;
    proof {
        assert(views(out@) =~= Seq::<Seq<char>>::empty());
        assert(s@.skip(0) =~= s@);
    }
    while pos < n
        invariant
            0 <= pos <= n,
            n == s@.len(),
            spec_lines(s@) =~= views(out@) + spec_lines(s@.skip(pos as int)),
        decreases n - pos,
    {
        let ghost prev = out@;
        let ghost rest = s@.skip(pos as int);
        let k: usize = find_newline(s, pos);
        proof {
            assert forall|j: int| 0 <= j < k - pos implies !newline_pred()(#[trigger] rest[j]) by {
                assert(rest[j] == s@[pos + j]);
            }
            if (k as int) - (pos as int) < rest.len() {
                assert(rest[k - pos] == s@[k as int]);
            }
            lemma_scan_is(rest, newline_pred(), k as int - pos as int);
        }
        let end: usize = if k > pos && s.get_char(k - 1) == '\r' {
            k - 1
        } else {
            k
        };
        let line = s.substring_char(pos, end);
        out.push(line.to_owned());
        proof {
            let i = k as int - pos as int;
            assert(rest.take(i) =~= s@.subrange(pos as int, k as int));
            if end < k {
                assert(rest.take(i).last() == '\r');
                assert(strip_cr(rest.take(i)) =~= s@.subrange(pos as int, end as int));
            } else {
                if rest.take(i).len() > 0 {
                    assert(rest.take(i).last() == s@[k as int - 1]);
                }
                assert(strip_cr(rest.take(i)) =~= s@.subrange(pos as int, end as int));
            }
            assert(views(out@) =~= views(prev) + seq![line@]);
            if i < rest.len() {
                assert(rest.skip(i + 1) =~= s@.skip(k as int + 1));
                assert(spec_lines(rest) == seq![strip_cr(rest.take(i))] + spec_lines(
                    s@.skip(k as int + 1),
                ));
            } else {
                assert(rest.take(i) =~= rest);
                assert(spec_lines(rest) == seq![strip_cr(rest)]);
                assert(s@.skip(s@.len() as int) =~= Seq::<char>::empty());
            }
            assert(spec_lines(s@) =~= views(out@) + spec_lines(
                s@.skip(if k < n {
                    k as int + 1
                } else {
                    n as int
                }),
            ));
        }
        if k < n {
            pos = k + 1;
        } else {
            pos = n;
        }
    }
    proof {
        assert(s@.skip(n as int) =~= Seq::<char>::empty());
        assert(spec_lines(s@) =~= views(out@));
    }
    out
}

/// The whitespace-separated tokens of `s`, matching [`spec_tokens`].
pub fn tokenize(s: &str) -> (r: Vec<String>)
    ensures
        views(r@) == spec_tokens(s@),
{
    let n: usize = s.unicode_len();
    let mut out: Vec<String> = Vec::new();
    let mut pos: usize = 0;
    proof {
        assert(views(out@) =~= Seq::<Seq<char>>::empty());
        assert(s@.skip(0) =~= s@);
    }
    while pos < n
        invariant
            0 <= pos <= n,
            n == s@.len(),
            spec_tokens(s@) =~= views(out@) + spec_tokens(s@.skip(pos as int)),
        decreases n - pos,
    {
        let ghost prev = out@;
        let start: usize = find_nonspace(s, pos);
        proof {
            lemma_tokens_skip_spaces(s@, pos as int, start as int);
        }
        if start == n {
            proof {
                assert(s@.skip(n as int) =~= Seq::<char>::empty());
            }
            pos = n;
        } else {
            let k: usize = find_space(s, start);
            let tok = s.substring_char(start, k);
            out.push(tok.to_owned());
            proof {
                let rest = s@.skip(start as int);
                assert forall|j: int| 0 <= j < k - start implies !space_pred()(
                    #[trigger] rest[j],
                ) by {
                    assert(rest[j] == s@[start + j]);
                }
                if (k as int) - (start as int) < rest.len() {
                    assert(rest[k - start] == s@[k as int]);
                }
                lemma_scan_is(rest, space_pred(), k as int - start as int);
                let i = k as int - start as int;
                assert(!is_space(rest[0]));
                assert(i >= 1);
                assert(rest.take(i) =~= s@.subrange(start as int, k as int));
                assert(rest.skip(i) =~= s@.skip(k as int));
                assert(spec_tokens(rest) == seq![rest.take(i)] + spec_tokens(s@.skip(k as int)));
                assert(views(out@) =~= views(prev) + seq![tok@]);
                assert(spec_tokens(s@) =~= views(out@) + spec_tokens(s@.skip(k as int)));
            }
            pos = k;
        }
    }
    proof {
        assert(s@.skip(n as int) =~= Seq::<char>::empty());
        assert(spec_tokens(s@) =~= views(out@));
    }
    out
}

/// Skipping leading whitespace does not change the token sequence.
proof fn lemma_tokens_skip_spaces(s: Seq<char>, a: int, b: int)
    requires
        0 <= a <= b <= s.len(),
        forall|j: int| a <= j < b ==> is_space(#[trigger] s[j]),
    ensures
        spec_tokens(s.skip(a)) == spec_tokens(s.skip(b)),
    decreases b - a,
{
    if a < b {
        assert(s.skip(a)[0] == s[a]);
        assert(is_space(s.skip(a)[0]));
        assert(s.skip(a).skip(1) =~= s.skip(a + 1));
        assert(spec_tokens(s.skip(a)) == spec_tokens(s.skip(a + 1)));
        lemma_tokens_skip_spaces(s, a + 1, b);
    }
}

} // verus!
