//! Splitting text into lines and joining lines back into text.
//!
//! A buffer's content is an ordered sequence of lines none of which contains a
//! newline; the externally visible text is the newline-joined concatenation of
//! the lines.  `split_lines` and `join_lines` are inverse on such sequences,
//! which `lemma_split_join_round_trip` states.

use vstd::prelude::*;
use vstd::std_specs::iter::IteratorSpec;

verus! {

/// The character sequences held by a sequence of line vectors.
pub open spec fn line_views(lines: Seq<Vec<char>>) -> Seq<Seq<char>> {
    Seq::new(lines.len(), |k: int| lines[k]@)
}

/// Index of the first newline in `s`, or `s.len()` if `s` has none.
pub open spec fn first_nl(s: Seq<char>) -> int
    decreases s.len(),
{
    if s.len() == 0 {
        0
    } else if s[0] == '\n' {
        0
    } else {
        1 + first_nl(s.drop_first())
    }
}

/// The lines of `s`: `s` cut at every newline.  Always at least one line,
/// and no line contains a newline.
pub open spec fn split_lines(s: Seq<char>) -> Seq<Seq<char>>
    decreases s.len(),
{
    let i = first_nl(s);
    if 0 <= i && i < s.len() {
        seq![s.take(i)].add(split_lines(s.skip(i + 1)))
    } else {
        seq![s]
    }
}

/// The newline-joined concatenation of `lines`.
pub open spec fn join_lines(lines: Seq<Seq<char>>) -> Seq<char>
    decreases lines.len(),
{
    if lines.len() == 0 {
        Seq::empty()
    } else if lines.len() == 1 {
        lines[0]
    } else {
        lines[0].push('\n').add(join_lines(lines.drop_first()))
    }
}

/// `first_nl` lies within the sequence, points at a newline unless it is the
/// length, and nothing before it is a newline.
pub proof fn lemma_first_nl_bounds(s: Seq<char>)
    ensures
        0 <= first_nl(s) <= s.len(),
        first_nl(s) < s.len() ==> s[first_nl(s)] == '\n',
        forall|j: int| 0 <= j < first_nl(s) ==> s[j] != '\n',
    decreases s.len(),
{
    if s.len() > 0 && s[0] != '\n' {
        lemma_first_nl_bounds(s.drop_first());
        assert forall|j: int| 0 <= j < first_nl(s) implies s[j] != '\n' by {
            if j > 0 {
                assert(s[j] == s.drop_first()[j - 1]);
            }
        }
    }
}

/// Conversely, an index with those properties is `first_nl(s)`.
pub proof fn lemma_first_nl_of(s: Seq<char>, i: int)
    requires
        0 <= i <= s.len(),
        i < s.len() ==> s[i] == '\n',
        forall|j: int| 0 <= j < i ==> s[j] != '\n',
    ensures
        first_nl(s) == i,
    decreases s.len(),
{
    if s.len() > 0 && s[0] != '\n' {
        assert forall|j: int| 0 <= j < i - 1 implies s.drop_first()[j] != '\n' by {
            assert(s.drop_first()[j] == s[j + 1]);
        }
        lemma_first_nl_of(s.drop_first(), i - 1);
    }
}

/// Splitting always yields at least one line, and no line holds a newline.
pub proof fn lemma_split_lines_wf(s: Seq<char>)
    ensures
        split_lines(s).len() >= 1,
        forall|k: int, j: int|
            0 <= k < split_lines(s).len() && 0 <= j < split_lines(s)[k].len() ==> split_lines(
                s,
            )[k][j] != '\n',
    decreases s.len(),
{
    lemma_first_nl_bounds(s);
    let i = first_nl(s);
    if i < s.len() {
        lemma_split_lines_wf(s.skip(i + 1));
        assert forall|k: int, j: int|
            0 <= k < split_lines(s).len() && 0 <= j < split_lines(s)[k].len() implies split_lines(
            s,
        )[k][j] != '\n' by {
            if k == 0 {
                assert(split_lines(s)[0] == s.take(i));
            } else {
                assert(split_lines(s)[k] == split_lines(s.skip(i + 1))[k - 1]);
            }
        }
    } else {
        assert(split_lines(s) =~= seq![s]);
        assert(forall|j: int| 0 <= j < s.len() ==> s[j] != '\n');
    }
}

/// Round trip: joining any nonempty sequence of newline-free lines and
/// splitting the result yields the original lines exactly.
pub proof fn lemma_split_join_round_trip(lines: Seq<Seq<char>>)
    requires
        lines.len() >= 1,
        forall|k: int, j: int|
            0 <= k < lines.len() && 0 <= j < lines[k].len() ==> lines[k][j] != '\n',
    ensures
        split_lines(join_lines(lines)) == lines,
    decreases lines.len(),
{
    let s = join_lines(lines);
    if lines.len() == 1 {
        assert(s == lines[0]);
        lemma_first_nl_of(s, s.len() as int);
        assert(split_lines(s) =~= lines);
    } else {
        let rest = lines.drop_first();
        let head = lines[0];
        assert(s == head.push('\n').add(join_lines(rest)));
        assert(forall|j: int| 0 <= j < head.len() ==> s[j] == head[j] && s[j] != '\n');
        assert(s[head.len() as int] == '\n');
        lemma_first_nl_of(s, head.len() as int);
        assert(s.take(head.len() as int) =~= head);
        assert(s.skip(head.len() as int + 1) =~= join_lines(rest));
        assert forall|k: int, j: int|
            0 <= k < rest.len() && 0 <= j < rest[k].len() implies rest[k][j] != '\n' by {
            assert(rest[k] == lines[k + 1]);
        }
        lemma_split_join_round_trip(rest);
        assert(split_lines(s) =~= seq![head].add(split_lines(join_lines(rest))));
        assert(split_lines(s) =~= lines);
    }
}

/// Splits `chars` at every newline, as `split_lines` states.
pub fn split_text(chars: &Vec<char>) -> (lines: Vec<Vec<char>>)
    ensures
        line_views(lines@) == split_lines(chars@),
        lines.len() >= 1,
{
    let n: usize = chars.len();
    let mut lines: Vec<Vec<char>> = Vec::new();
    let mut start: usize = 0;
    proof {
        assert(chars@.skip(0) =~= chars@);
        assert(split_lines(chars@) =~= line_views(lines@).add(split_lines(chars@.skip(0))));
        lemma_split_lines_wf(chars@);
    }
    loop
        invariant
            start <= n,
            n == chars@.len(),
            split_lines(chars@) =~= line_views(lines@).add(split_lines(chars@.skip(start as int))),
        decreases n - start,
    {
        // Find the next newline at or after `start`.
        let mut i: usize = start;
        while i < n && chars[i] != '\n'
            invariant
                start <= i <= n,
                n == chars@.len(),
                forall|j: int| start <= j < i ==> chars@[j] != '\n',
            decreases n - i,
        {
            i = i + 1;
        }
        proof {
            let tail = chars@.skip(start as int);
            assert forall|j: int| 0 <= j < i - start implies tail[j] != '\n' by {
                assert(tail[j] == chars@[j + start]);
            }
            assert(i - start < tail.len() ==> tail[i - start] == '\n');
            lemma_first_nl_of(tail, i - start);
        }
        // Copy the line chars[start..i].
        let mut line: Vec<char> = Vec::new();
        let mut j: usize = start;
        while j < i
            invariant
                start <= j <= i <= n,
                n == chars@.len(),
                line@ =~= chars@.subrange(start as int, j as int),
            decreases i - j,
        {
            line.push(chars[j]);
            j = j + 1;
        }
        proof {
            assert(line@ =~= chars@.skip(start as int).take(i - start));
        }
        let ghost lv0 = line_views(lines@);
        if i == n {
            // No newline remains: the rest is the final line.
            proof {
                let tail = chars@.skip(start as int);
                assert(split_lines(tail) =~= seq![tail]);
                assert(line@ =~= tail);
            }
            lines.push(line);
            proof {
                assert(line_views(lines@) =~= lv0.push(line@));
                assert(split_lines(chars@) =~= line_views(lines@));
            }
            return lines;
        } else {
            proof {
                let tail = chars@.skip(start as int);
                assert(split_lines(tail) =~= seq![line@].add(split_lines(tail.skip(i - start + 1))));
                assert(tail.skip(i - start + 1) =~= chars@.skip(i + 1));
            }
            lines.push(line);
            start = i + 1;
            proof {
                assert(line_views(lines@) =~= lv0.push(line@));
                assert(split_lines(chars@) =~= line_views(lines@).add(
                    split_lines(chars@.skip(start as int)),
                ));
            }
        }
    }
}

/// Joining one more line appends a newline and that line.
pub proof fn lemma_join_push(lines: Seq<Seq<char>>, line: Seq<char>)
    requires
        lines.len() >= 1,
    ensures
        join_lines(lines.push(line)) == join_lines(lines).push('\n').add(line),
    decreases lines.len(),
{
    if lines.len() == 1 {
        assert(lines.push(line).drop_first() =~= seq![line]);
        assert(join_lines(seq![line]) == line);
        assert(lines.push(line)[0] == lines[0]);
        assert(join_lines(lines.push(line)) =~= lines[0].push('\n').add(line));
        assert(join_lines(lines) == lines[0]);
    } else {
        lemma_join_push(lines.drop_first(), line);
        assert(lines.push(line).drop_first() =~= lines.drop_first().push(line));
        assert(lines.push(line)[0] == lines[0]);
        assert(join_lines(lines.push(line)) =~= lines[0].push('\n').add(
            join_lines(lines.drop_first().push(line)),
        ));
        assert(join_lines(lines).push('\n').add(line) =~= lines[0].push('\n').add(
            join_lines(lines.drop_first()).push('\n').add(line),
        ));
        assert(join_lines(lines.push(line)) =~= join_lines(lines).push('\n').add(line));
    }
}

/// Joins `lines` with newlines, as `join_lines` states.
pub fn join_text(lines: &Vec<Vec<char>>) -> (chars: Vec<char>)
    requires
        lines.len() >= 1,
    ensures
        chars@ == join_lines(line_views(lines@)),
{
    let mut chars: Vec<char> = Vec::new();
    let n: usize = lines.len();
    let mut k: usize = 0;
    while k < n
        invariant
            k <= n,
            n == lines@.len(),
            n >= 1,
            chars@ =~= join_lines(line_views(lines@).take(k as int)),
        decreases n - k,
    {
        if k > 0 {
            chars.push('\n');
        }
        let line: &Vec<char> = &lines[k];
        let m: usize = line.len();
        let mut j: usize = 0;
        let ghost mid = chars@;
        while j < m
            invariant
                j <= m,
                m == line@.len(),
                chars@ =~= mid.add(line@.take(j as int)),
            decreases m - j,
        {
            chars.push(line[j]);
            j = j + 1;
        }
        proof {
            let lv = line_views(lines@);
            let pref = lv.take(k as int);
            assert(line@ =~= lv[k as int]);
            assert(line@.take(m as int) =~= line@);
            if k > 0 {
                lemma_join_push(pref, line@);
                assert(pref.push(line@) =~= lv.take(k + 1));
                assert(chars@ =~= join_lines(pref).push('\n').add(line@));
            } else {
                assert(lv.take(1) =~= seq![lv[0]]);
                assert(chars@ =~= line@);
            }
        }
        k = k + 1;
    }
    proof {
        assert(line_views(lines@).take(n as int) =~= line_views(lines@));
    }
    chars
}


/// Collects the characters of a string, in order: a string's view is exactly
/// that character sequence.
pub fn str_chars(s: &str) -> (v: Vec<char>)
    ensures
        v@ == s@,
{
    broadcast use vstd::string::axiom_spec_iter;
    broadcast use vstd::string::next_postcondition;

    let mut v: Vec<char> = Vec::new();
    let mut it = s.chars();
    proof {
        assert(it.remaining() =~= s@);
        assert(v@ + it.remaining() =~= s@);
    }
    loop
        invariant
            vstd::std_specs::iter::IteratorSpec::decrease(&it) is Some,
            v@ + vstd::std_specs::iter::IteratorSpec::remaining(&it) =~= s@,
        decreases vstd::std_specs::iter::IteratorSpec::decrease(&it)->0,
    {
        match it.next() {
            Option::Some(c) => {
                v.push(c);
            },
            Option::None => {
                proof {
                    assert(v@ =~= s@);
                }
                return v;
            },
        }
    }
}

} // verus!
