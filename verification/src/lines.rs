use vstd::prelude::*;
use vstd::string::StrSliceExecFns;

verus! {

/// Index of the first line feed in `s`; `s.len()` when there is none.
pub open spec fn first_nl(s: Seq<char>) -> nat
    decreases s.len(),
{
    if s.len() == 0 {
        0
    } else if s[0] == '\n' {
        0
    } else {
        (1 + first_nl(s.subrange(1, s.len() as int))) as nat
    }
}

/// A trailing carriage return removed, as at a `\r\n` line ending.
pub open spec fn chop_cr(l: Seq<char>) -> Seq<char> {
    if l.len() > 0 && l[l.len() - 1] == '\r' {
        l.subrange(0, l.len() - 1)
    } else {
        l
    }
}

/// The lines of a text block: split at each line feed, with a trailing
/// carriage return removed from every line that a line feed ends. A
/// final line feed yields no extra empty line, and the empty text has
/// no lines at all.
pub open spec fn split_lines(s: Seq<char>) -> Seq<Seq<char>>
    decreases s.len(),
{
    if s.len() == 0 {
        Seq::empty()
    } else if first_nl(s) >= s.len() {
        seq![s]
    } else {
        seq![chop_cr(s.subrange(0, first_nl(s) as int))] + split_lines(
            s.subrange(first_nl(s) as int + 1, s.len() as int),
        )
    }
}

/// The greatest line length among `lines`; 0 when there are none.
pub open spec fn max_width(lines: Seq<Seq<char>>) -> nat
    decreases lines.len(),
{
    if lines.len() == 0 {
        0
    } else if lines.last().len() > max_width(lines.drop_last()) {
        lines.last().len()
    } else {
        max_width(lines.drop_last())
    }
}

/// The views of a vector of strings.
pub open spec fn views_of(v: Seq<String>) -> Seq<Seq<char>> {
    v.map_values(|s: String| s@)
}

/// Holds no occurrence of `c`.
pub open spec fn free_of(s: Seq<char>, c: char) -> bool {
    forall|i: int| 0 <= i < s.len() ==> s[i] != c
}

/// Nothing before `first_nl` is a line feed, and `first_nl` stays
/// within the text.
pub proof fn lemma_first_nl_props(s: Seq<char>)
    ensures
        first_nl(s) <= s.len(),
        forall|j: int| 0 <= j < first_nl(s) ==> s[j] != '\n',
    decreases s.len(),
{
    if s.len() > 0 && s[0] != '\n' {
        let tail = s.subrange(1, s.len() as int);
        lemma_first_nl_props(tail);
        assert forall|j: int| 0 <= j < first_nl(s) implies s[j] != '\n' by {
            if j >= 1 {
                assert(tail[j - 1] == s[j]);
            }
        }
    }
}

/// No line of a split holds a line feed.
pub proof fn lemma_split_lines_nl_free(s: Seq<char>)
    ensures
        forall|k: int|
            0 <= k < split_lines(s).len() ==> free_of(#[trigger] split_lines(s)[k], '\n'),
    decreases s.len(),
{
    lemma_first_nl_props(s);
    if s.len() > 0 {
        let i = first_nl(s) as int;
        if i < s.len() {
            let suf = s.subrange(i + 1, s.len() as int);
            lemma_split_lines_nl_free(suf);
            let head = chop_cr(s.subrange(0, i));
            assert forall|j: int| 0 <= j < head.len() implies head[j] != '\n' by {
                assert(head[j] == s[j]);
            }
            assert forall|k: int|
                0 <= k < split_lines(s).len() implies free_of(
                #[trigger] split_lines(s)[k],
                '\n',
            ) by {
                if k > 0 {
                    assert(split_lines(s)[k] == split_lines(suf)[k - 1]);
                }
            }
        } else {
            assert(split_lines(s) == seq![s]);
            assert(free_of(split_lines(s)[0], '\n'));
        }
    }
}

/// Lines keep only characters of the text: a split of a text free of
/// `c` is free of `c` line by line.
pub proof fn lemma_split_lines_free_of(s: Seq<char>, c: char)
    requires
        free_of(s, c),
    ensures
        forall|k: int|
            0 <= k < split_lines(s).len() ==> free_of(#[trigger] split_lines(s)[k], c),
    decreases s.len(),
{
    if s.len() > 0 && first_nl(s) < s.len() {
        let i = first_nl(s) as int;
        let suf = s.subrange(i + 1, s.len() as int);
        assert(free_of(suf, c));
        lemma_split_lines_free_of(suf, c);
        assert(free_of(s.subrange(0, i), c));
        assert(free_of(chop_cr(s.subrange(0, i)), c));
        assert forall|k: int|
            0 <= k < split_lines(s).len() implies free_of(#[trigger] split_lines(s)[k], c) by {
            if k > 0 {
                assert(split_lines(s)[k] == split_lines(suf)[k - 1]);
            }
        }
    }
}

/// `first_nl` points at the first line feed, or past the end.
pub proof fn lemma_first_nl_at(s: Seq<char>, k: int)
    requires
        0 <= k <= s.len(),
        forall|j: int| 0 <= j < k ==> s[j] != '\n',
        k < s.len() ==> s[k] == '\n',
    ensures
        first_nl(s) == k,
    decreases s.len(),
{
    if s.len() == 0 {
    } else if k == 0 {
    } else {
        let tail = s.subrange(1, s.len() as int);
        assert forall|j: int| 0 <= j < k - 1 implies tail[j] != '\n' by {
            assert(tail[j] == s[j + 1]);
        }
        assert(k - 1 < tail.len() ==> tail[k - 1] == s[k]);
        lemma_first_nl_at(tail, k - 1);
    }
}

/// Unfolds `split_lines` at a line feed in position `k`, the first one.
pub proof fn lemma_split_lines_step(s: Seq<char>, k: int)
    requires
        0 <= k < s.len(),
        forall|j: int| 0 <= j < k ==> s[j] != '\n',
        s[k] == '\n',
    ensures
        split_lines(s) == seq![chop_cr(s.subrange(0, k))] + split_lines(
            s.subrange(k + 1, s.len() as int),
        ),
{
    lemma_first_nl_at(s, k);
}

/// A nonempty text without line feeds is one single line.
pub proof fn lemma_split_lines_whole(s: Seq<char>)
    requires
        s.len() > 0,
        forall|j: int| 0 <= j < s.len() ==> s[j] != '\n',
    ensures
        split_lines(s) == seq![s],
{
    lemma_first_nl_at(s, s.len() as int);
}

/// There are no more lines than characters.
pub proof fn lemma_split_lines_count(s: Seq<char>)
    ensures
        split_lines(s).len() <= s.len(),
    decreases s.len(),
{
    if s.len() > 0 && first_nl(s) < s.len() {
        lemma_split_lines_count(s.subrange(first_nl(s) as int + 1, s.len() as int));
    }
}

/// No line is longer than the whole text.
pub proof fn lemma_split_lines_each_le(s: Seq<char>)
    ensures
        forall|k: int|
            0 <= k < split_lines(s).len() ==> #[trigger] split_lines(s)[k].len() <= s.len(),
    decreases s.len(),
{
    if s.len() > 0 && first_nl(s) < s.len() {
        let suf = s.subrange(first_nl(s) as int + 1, s.len() as int);
        lemma_split_lines_each_le(suf);
        assert forall|k: int|
            0 <= k < split_lines(s).len() implies #[trigger] split_lines(s)[k].len()
            <= s.len() by {
            if k == 0 {
                assert(split_lines(s)[0] == chop_cr(s.subrange(0, first_nl(s) as int)));
            } else {
                assert(split_lines(s)[k] == split_lines(suf)[k - 1]);
            }
        }
    }
}

/// `max_width` of lines that are all within a bound is within it too.
pub proof fn lemma_max_width_bound(lines: Seq<Seq<char>>, b: nat)
    requires
        forall|k: int| 0 <= k < lines.len() ==> #[trigger] lines[k].len() <= b,
    ensures
        max_width(lines) <= b,
    decreases lines.len(),
{
    if lines.len() > 0 {
        lemma_max_width_bound(lines.drop_last(), b);
    }
}

/// Split a text block into its lines.
pub fn split_text(text: &str) -> (lines: Vec<String>)
    ensures
        views_of(lines@) == split_lines(text@),
{
    let n = text.unicode_len();
    let mut lines: Vec<String> = Vec::new();
    let mut start: usize = 0;
    let mut i: usize = 0;
    proof {
        assert(text@.subrange(0, n as int) =~= text@);
        assert(views_of(lines@) + split_lines(text@) =~= split_lines(text@));
    }
    while i < n
        invariant
            start <= i <= n,
            n == text@.len(),
            split_lines(text@) == views_of(lines@) + split_lines(
                text@.subrange(start as int, n as int),
            ),
            forall|j: int| start <= j < i ==> text@[j] != '\n',
        decreases n - i,
    {
        let c = text.get_char(i);
        if c == '\n' {
            let raw = text.substring_char(start, i);
            let rn = raw.unicode_len();
            let line = if rn > 0 && raw.get_char(rn - 1) == '\r' {
                raw.substring_char(0, rn - 1).to_owned()
            } else {
                raw.to_owned()
            };
            lines.push(line);
            proof {
                let t = text@;
                let suf = t.subrange(start as int, n as int);
                assert forall|j: int| 0 <= j < i - start implies suf[j] != '\n' by {
                    assert(suf[j] == t[j + start]);
                }
                assert(suf[i - start] == t[i as int]);
                lemma_split_lines_step(suf, i - start);
                assert(suf.subrange(0, i - start) =~= t.subrange(start as int, i as int));
                assert(suf.subrange(i - start + 1, suf.len() as int) =~= t.subrange(
                    i + 1,
                    n as int,
                ));
                assert(line@ == chop_cr(raw@));
                assert(views_of(lines@) =~= views_of(lines@.drop_last()).push(line@));
                assert(views_of(lines@) + split_lines(t.subrange(i + 1, n as int))
                    =~= views_of(lines@.drop_last()) + split_lines(suf));
            }
            start = i + 1;
        }
        i += 1;
    }
    if start < n {
        let line = text.substring_char(start, n).to_owned();
        lines.push(line);
        proof {
            let t = text@;
            let suf = t.subrange(start as int, n as int);
            assert forall|j: int| 0 <= j < suf.len() implies suf[j] != '\n' by {
                assert(suf[j] == t[j + start]);
            }
            lemma_split_lines_whole(suf);
            assert(views_of(lines@) =~= views_of(lines@.drop_last()).push(line@));
            assert(views_of(lines@) =~= views_of(lines@.drop_last()) + split_lines(suf));
        }
    } else {
        proof {
            assert(text@.subrange(start as int, n as int) =~= Seq::<char>::empty());
            assert(views_of(lines@) + split_lines(text@.subrange(start as int, n as int))
                =~= views_of(lines@));
        }
    }
    lines
}

/// The number of lines in a text block, and the greatest character
/// count among them.
pub fn max_line_len(text: &str) -> (r: (usize, usize))
    ensures
        r.0 == split_lines(text@).len(),
        r.1 == max_width(split_lines(text@)),
{
    let lines = split_text(text);
    let ls = Ghost(split_lines(text@));
    let mut m: usize = 0;
    let mut k: usize = 0;
    while k < lines.len()
        invariant
            k <= lines@.len(),
            views_of(lines@) == ls@,
            m == max_width(ls@.subrange(0, k as int)),
        decreases lines@.len() - k,
    {
        let w = lines[k].as_str().unicode_len();
        proof {
            let pre = ls@.subrange(0, k + 1);
            assert(pre.drop_last() =~= ls@.subrange(0, k as int));
            assert(pre.last() == views_of(lines@)[k as int]);
        }
        if w > m {
            m = w;
        }
        k += 1;
    }
    proof {
        assert(ls@.subrange(0, lines@.len() as int) =~= ls@);
    }
    (lines.len(), m)
}

} // verus!
