//! Paging long text into chat-sized messages.
//!
//! The manual viewer takes a command's text output, drops its header and
//! footer line, and packs the remaining lines greedily into pages that fit
//! a chat message, each line kept whole and newline-terminated. The pages
//! then drive an index-paged collector session.

use vstd::prelude::*;

verus! {

/// Room left in a chat message once the title is accounted for.
pub const MSG_MAX_LEN: usize = 1975;

/// Index of the first newline in `s`, or `s.len()` if there is none.
pub open spec fn first_newline(s: Seq<char>) -> int
    decreases s.len(),
{
    if s.len() == 0 {
        0
    } else if s[0] == '\n' {
        0
    } else {
        1 + first_newline(s.drop_first())
    }
}

/// A line with its terminator removed: a trailing carriage return before
/// the newline goes too.
pub open spec fn strip_cr(s: Seq<char>) -> Seq<char> {
    if s.len() > 0 && s.last() == '\r' {
        s.drop_last()
    } else {
        s
    }
}

/// The lines of `s`, split as the standard line iterator splits them: at
/// `\n` or `\r\n`, terminators dropped, and no empty final line for a
/// trailing newline.
pub open spec fn split_lines(s: Seq<char>) -> Seq<Seq<char>>
    decreases s.len(),
{
    if s.len() == 0 {
        Seq::empty()
    } else {
        let i = first_newline(s);
        if 0 <= i && i < s.len() {
            seq![strip_cr(s.take(i))] + split_lines(s.skip(i + 1))
        } else {
            seq![s]
        }
    }
}

/// Greedy pagination: lines are appended (newline-terminated) to the open
/// page `acc`; a line that would push the page past `limit` closes it and
/// opens the next. The final page is emitted as it stands.
pub open spec fn pages_fold(lines: Seq<Seq<char>>, acc: Seq<char>, limit: int) -> Seq<Seq<char>>
    decreases lines.len(),
{
    if lines.len() == 0 {
        seq![acc]
    } else {
        let line = lines[0];
        if acc.len() + line.len() + 1 > limit {
            seq![acc] + pages_fold(lines.drop_first(), line + seq!['\n'], limit)
        } else {
            pages_fold(lines.drop_first(), acc + line + seq!['\n'], limit)
        }
    }
}

/// The lines of `s` each restored with a terminating newline, joined.
pub open spec fn joined(lines: Seq<Seq<char>>) -> Seq<char>
    decreases lines.len(),
{
    if lines.len() == 0 {
        Seq::empty()
    } else {
        lines[0] + seq!['\n'] + joined(lines.drop_first())
    }
}

/// All pages, joined back together.
pub open spec fn flat(pages: Seq<Seq<char>>) -> Seq<char>
    decreases pages.len(),
{
    if pages.len() == 0 {
        Seq::empty()
    } else {
        pages[0] + flat(pages.drop_first())
    }
}

/// Pagination loses nothing and invents nothing: joining the pages yields
/// the open page followed by every line, newline-terminated, in order.
pub proof fn lemma_pages_fold_concat(lines: Seq<Seq<char>>, acc: Seq<char>, limit: int)
    ensures
        flat(pages_fold(lines, acc, limit)) == acc + joined(lines),
    decreases lines.len(),
{
    if lines.len() == 0 {
        assert(seq![acc].drop_first() =~= Seq::<Seq<char>>::empty());
        assert(flat(seq![acc]) == acc + flat(Seq::<Seq<char>>::empty()));
        assert(flat(seq![acc]) =~= acc + joined(lines));
    } else {
        let line = lines[0];
        if acc.len() + line.len() + 1 > limit {
            lemma_pages_fold_concat(lines.drop_first(), line + seq!['\n'], limit);
            let tail = pages_fold(lines.drop_first(), line + seq!['\n'], limit);
            assert(flat(seq![acc] + tail) =~= acc + flat(tail)) by {
                assert((seq![acc] + tail).drop_first() =~= tail);
                assert((seq![acc] + tail)[0] == acc);
            }
            assert(acc + (line + seq!['\n'] + joined(lines.drop_first())) =~= acc + joined(
                lines,
            ));
        } else {
            lemma_pages_fold_concat(lines.drop_first(), acc + line + seq!['\n'], limit);
            assert(acc + line + seq!['\n'] + joined(lines.drop_first()) =~= acc + joined(lines));
        }
    }
}

proof fn lemma_first_newline_at(s: Seq<char>, i: int)
    requires
        0 <= i <= s.len(),
        forall|j: int| 0 <= j < i ==> s[j] != '\n',
        i < s.len() ==> s[i] == '\n',
    ensures
        first_newline(s) == i,
    decreases i,
{
    if s.len() == 0 {
    } else if i == 0 {
    } else {
        assert(s[0] != '\n');
        assert(forall|j: int| 0 <= j < i - 1 ==> s.drop_first()[j] == s[j + 1]);
        if i - 1 < s.drop_first().len() {
            assert(s.drop_first()[i - 1] == s[i]);
        }
        lemma_first_newline_at(s.drop_first(), i - 1);
    }
}

/// Split a string into its lines, as the standard line iterator would.
#[verifier::loop_isolation(false)]
pub fn lines_of(input: &str) -> (r: Vec<String>)
    ensures
        r.deep_view() == split_lines(input@),
{
    let n = input.unicode_len();
    let mut out: Vec<String> = Vec::new();
    let mut start: usize = 0;
    let mut i: usize = 0;
    proof {
        assert(out.deep_view() =~= Seq::<Seq<char>>::empty());
        assert(input@.skip(0) =~= input@);
        assert(out.deep_view() + split_lines(input@.skip(0)) =~= split_lines(input@));
    }
    while i < n
        invariant
            0 <= start <= i <= n,
            n == input@.len(),
            split_lines(input@) == out.deep_view() + split_lines(input@.skip(start as int)),
            forall|j: int| start <= j < i ==> input@[j] != '\n',
        decreases n - i,
    {
        let c = input.get_char(i);
        if c == '\n' {
            let end = if i > start && input.get_char(i - 1) == '\r' {
                i - 1
            } else {
                i
            };
            let line = input.substring_char(start, end).to_owned();
            proof {
                let rest = input@.skip(start as int);
                lemma_first_newline_at(rest, i - start);
                assert(rest.take(i - start) =~= input@.subrange(start as int, i as int));
                assert(strip_cr(rest.take(i - start)) =~= input@.subrange(
                    start as int,
                    end as int,
                ));
                assert(rest.skip(i - start + 1) =~= input@.skip(i + 1));
                assert(line@ == input@.subrange(start as int, end as int));
            }
            out.push(line);
            proof {
                assert(out.deep_view() =~= out.deep_view().take(out.deep_view().len() - 1)
                    + seq![input@.subrange(start as int, end as int)]);
                assert(split_lines(input@) =~= out.deep_view() + split_lines(
                    input@.skip(i + 1),
                ));
            }
            start = i + 1;
        }
        i = i + 1;
    }
    if start < n {
        let line = input.substring_char(start, n).to_owned();
        proof {
            let rest = input@.skip(start as int);
            lemma_first_newline_at(rest, n - start);
            assert(rest =~= input@.subrange(start as int, n as int));
        }
        out.push(line);
        proof {
            assert(split_lines(input@) =~= out.deep_view());
        }
    } else {
        proof {
            assert(input@.skip(start as int) =~= Seq::<char>::empty());
            assert(split_lines(input@) =~= out.deep_view());
        }
    }
    out
}

/// Pack a command's output into chat-sized pages: drop the first and last
/// line, then fold the rest greedily under [`MSG_MAX_LEN`]. Output of two
/// lines or fewer has no body and yields the fallback notice alone.
#[verifier::loop_isolation(false)]
pub fn get_pages(input: &str) -> (r: Vec<String>)
    ensures
        split_lines(input@).len() <= 2 ==> r.deep_view() == seq!["No man page available!"@],
        split_lines(input@).len() > 2 ==> r.deep_view() == pages_fold(
            split_lines(input@).subrange(1, split_lines(input@).len() - 1),
            Seq::empty(),
            MSG_MAX_LEN as int,
        ),
        r.deep_view().len() >= 1,
{
    let lines = lines_of(input);
    let n = lines.len();
    if n <= 2 {
        let mut r: Vec<String> = Vec::new();
        r.push("No man page available!".to_owned());
        proof {
            assert(r.deep_view() =~= seq!["No man page available!"@]);
        }
        return r;
    }
    let ghost stripped = split_lines(input@).subrange(1, split_lines(input@).len() - 1);
    let mut pages: Vec<String> = Vec::new();
    let mut msg = String::new();
    let mut k: usize = 1;
    proof {
        assert(pages.deep_view() =~= Seq::<Seq<char>>::empty());
        assert(stripped.skip(0) =~= stripped);
        assert(pages.deep_view() + pages_fold(stripped.skip(0), msg@, MSG_MAX_LEN as int)
            =~= pages_fold(stripped, Seq::empty(), MSG_MAX_LEN as int));
    }
    while k < n - 1
        invariant
            1 <= k <= n - 1,
            n == lines@.len(),
            n > 2,
            lines.deep_view() == split_lines(input@),
            stripped == split_lines(input@).subrange(1, n - 1),
            pages_fold(stripped, Seq::empty(), MSG_MAX_LEN as int) == pages.deep_view()
                + pages_fold(stripped.skip(k - 1), msg@, MSG_MAX_LEN as int),
        decreases n - 1 - k,
    {
        let ghost rem = stripped.skip(k - 1);
        let ghost pages0 = pages.deep_view();
        let ghost msg0 = msg@;
        let ghost line = rem[0];
        proof {
            assert(stripped[k - 1] == lines.deep_view()[k as int]);
            assert(line == lines@[k as int]@);
            assert(rem.drop_first() =~= stripped.skip(k as int));
            reveal_strlit("\n");
            assert("\n"@ =~= seq!['\n']);
        }
        let line_len = lines[k].as_str().unicode_len();
        let msg_len = msg.as_str().unicode_len();
        let over = if msg_len >= MSG_MAX_LEN {
            true
        } else {
            line_len > MSG_MAX_LEN - 1 - msg_len
        };
        proof {
            assert(over == (msg0.len() + line.len() + 1 > MSG_MAX_LEN));
        }
        if over {
            pages.push(msg);
            msg = String::new();
            proof {
                assert(pages.deep_view() =~= pages0 + seq![msg0]);
            }
        }
        msg.append(lines[k].as_str());
        msg.append("\n");
        proof {
            if msg0.len() + line.len() + 1 > MSG_MAX_LEN {
                assert(msg@ =~= line + seq!['\n']);
                assert(pages_fold(rem, msg0, MSG_MAX_LEN as int) == seq![msg0] + pages_fold(
                    rem.drop_first(),
                    line + seq!['\n'],
                    MSG_MAX_LEN as int,
                ));
                assert((pages0 + seq![msg0]) + pages_fold(
                    stripped.skip(k as int),
                    msg@,
                    MSG_MAX_LEN as int,
                ) =~= pages0 + pages_fold(rem, msg0, MSG_MAX_LEN as int));
            } else {
                assert(msg@ =~= msg0 + line + seq!['\n']);
                assert(pages_fold(rem, msg0, MSG_MAX_LEN as int) == pages_fold(
                    rem.drop_first(),
                    msg0 + line + seq!['\n'],
                    MSG_MAX_LEN as int,
                ));
            }
        }
        k = k + 1;
    }
    let ghost pages0 = pages.deep_view();
    let ghost msg0 = msg@;
    pages.push(msg);
    proof {
        assert(stripped.skip(n - 2) =~= Seq::<Seq<char>>::empty());
        assert(pages.deep_view() =~= pages0 + seq![msg0]);
        assert(pages_fold(Seq::<Seq<char>>::empty(), msg0, MSG_MAX_LEN as int) == seq![msg0]);
        assert(pages.deep_view() =~= pages_fold(stripped, Seq::empty(), MSG_MAX_LEN as int));
    }
    pages
}

} // verus!
