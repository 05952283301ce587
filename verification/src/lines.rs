//! Splitting the text of a pattern file into its lines: one pattern per
//! line, lines separated by `\n`, a `\r` before the separator dropped, and a
//! final line ending optional.

use vstd::prelude::*;

verus! {

/// The position of the first line separator, or the length when there is
/// none.
pub open spec fn spec_first_newline(s: Seq<char>) -> int
    decreases s.len(),
{
    if s.len() == 0 {
        0
    } else if s[0] == '\n' {
        0
    } else {
        1 + spec_first_newline(s.drop_first())
    }
}

/// A line loses one trailing carriage return: `\r\n` is a line ending too.
pub open spec fn spec_strip_cr(l: Seq<char>) -> Seq<char> {
    if l.len() > 0 && l[l.len() - 1] == '\r' {
        l.drop_last()
    } else {
        l
    }
}

/// The lines of a text: split at each `\n` (dropping a `\r` just before it);
/// text after the last separator forms a final line only if it is non-empty,
/// and a lone trailing `\r` there is kept.
pub open spec fn spec_lines(s: Seq<char>) -> Seq<Seq<char>>
    decreases s.len(),
{
    if s.len() == 0 {
        Seq::empty()
    } else {
        let k = spec_first_newline(s);
        if 0 <= k < s.len() {
            seq![spec_strip_cr(s.subrange(0, k))] + spec_lines(
                s.subrange(k + 1, s.len() as int),
            )
        } else {
            seq![s]
        }
    }
}

/// The first line separator lies within the text, and nothing before it is
/// a separator.
proof fn lemma_first_newline_bounds(s: Seq<char>)
    ensures
        0 <= spec_first_newline(s) <= s.len(),
        spec_first_newline(s) < s.len() ==> s[spec_first_newline(s)] == '\n',
        forall|j: int| 0 <= j < spec_first_newline(s) ==> s[j] != '\n',
    decreases s.len(),
{
    if s.len() == 0 {
    } else if s[0] == '\n' {
    } else {
        let t = s.drop_first();
        lemma_first_newline_bounds(t);
        assert forall|j: int| 0 <= j < spec_first_newline(s) implies s[j] != '\n' by {
            if j > 0 {
                assert(t[j - 1] != '\n');
            }
        };
    }
}

/// The first separator is exactly the first position holding `\n`.
proof fn lemma_first_newline_at(s: Seq<char>, k: int)
    requires
        0 <= k <= s.len(),
        k < s.len() ==> s[k] == '\n',
        forall|j: int| 0 <= j < k ==> s[j] != '\n',
        k == s.len() ==> (forall|j: int| 0 <= j < s.len() ==> s[j] != '\n'),
    ensures
        spec_first_newline(s) == k,
    decreases s.len(),
{
    if s.len() == 0 {
    } else if s[0] == '\n' {
        assert(k == 0);
    } else {
        assert(k >= 1);
        let t = s.drop_first();
        assert(forall|j: int| 0 <= j < k - 1 ==> t[j] != '\n');
        lemma_first_newline_at(t, k - 1);
    }
}

/// Split the text of a pattern file into its lines.
#[verifier::loop_isolation(false)]
pub fn split_lines(contents: &str) -> (r: Vec<&str>)
    ensures
        r@.map_values(|l: &str| l@) == spec_lines(contents@),
{
    let n = contents.unicode_len();
    let mut r: Vec<&str> = Vec::new();
    let mut start: usize = 0;
    let mut i: usize = 0;
    proof {
        assert(contents@.subrange(0, n as int) =~= contents@);
        assert(r@.map_values(|l: &str| l@) =~= Seq::<Seq<char>>::empty());
        assert(Seq::<Seq<char>>::empty() + spec_lines(contents@) =~= spec_lines(contents@));
    }
    while i < n
        invariant
            start <= i <= n,
            forall|j: int| start <= j < i ==> contents@[j] != '\n',
            spec_lines(contents@) == r@.map_values(|l: &str| l@) + spec_lines(
                contents@.subrange(start as int, n as int),
            ),
        decreases n - i,
    {
        if contents.get_char(i) == '\n' {
            let end = if i > start && contents.get_char(i - 1) == '\r' {
                i - 1
            } else {
                i
            };
            let line = contents.substring_char(start, end);
            let ghost old_map = r@.map_values(|l: &str| l@);
            r.push(line);
            proof {
                let rest = contents@.subrange(start as int, n as int);
                let tail = contents@.subrange(i + 1 as int, n as int);
                lemma_first_newline_at(rest, i - start);
                assert(rest.subrange(0, i - start) =~= contents@.subrange(start as int, i as int));
                assert(rest.subrange(i - start + 1, rest.len() as int) =~= tail);
                assert(spec_strip_cr(contents@.subrange(start as int, i as int)) =~= line@);
                assert(spec_lines(rest) == seq![line@] + spec_lines(tail));
                assert(r@.map_values(|l: &str| l@) =~= old_map.push(line@));
                assert(old_map.push(line@) + spec_lines(tail) =~= old_map + (seq![line@]
                    + spec_lines(tail)));
            }
            start = i + 1;
        }
        i = i + 1;
    }
    if start < n {
        let line = contents.substring_char(start, n);
        let ghost old_map = r@.map_values(|l: &str| l@);
        r.push(line);
        proof {
            let rest = contents@.subrange(start as int, n as int);
            lemma_first_newline_at(rest, rest.len() as int);
            assert(spec_lines(rest) == seq![rest]);
            assert(r@.map_values(|l: &str| l@) =~= old_map.push(line@));
            assert(old_map.push(line@) =~= old_map + seq![line@]);
            assert(line@ == rest);
        }
    } else {
        proof {
            assert(contents@.subrange(start as int, n as int) =~= Seq::<char>::empty());
            assert(r@.map_values(|l: &str| l@) + Seq::<Seq<char>>::empty() =~= r@.map_values(
                |l: &str| l@,
            ));
        }
    }
    r
}

} // verus!
