//! The part of a log that is shown: its first and its last lines.

use vstd::prelude::*;

use crate::text::{
    chars_of, cut, decimal, decimal_text, digit, first_index, law_terminated, lemma_first_index,
    lemma_first_index_is, line_ranges, lines, push_between, terminated, within, without_return,
};

verus! {

/// What stands in place of `n` lines.
pub open spec fn omission(n: nat) -> Seq<char> {
    "\n... "@ + decimal(n) + " lines omitted ...\n\n"@
}

/// What is shown of `content`: all of it if that was asked for or if it has no more than
/// `head + tail` lines, else its first `head` and its last `tail` lines, with a note of how
/// many are missing between them.
pub open spec fn excerpt(content: Seq<char>, all: bool, head: nat, tail: nat) -> Seq<char> {
    let n = lines(content).len();
    if all || content.len() == 0 || n <= head + tail {
        content
    } else {
        terminated(lines(content).take(head as int)) + omission((n - head - tail) as nat)
            + terminated(lines(content).skip(n - tail))
    }
}

/// Appends the lines `from` up to `to`, each with a newline.
fn push_lines(
    out: &mut String,
    chars: &Vec<char>,
    ranges: &Vec<(usize, usize)>,
    from: usize,
    to: usize,
)
    requires
        from <= to <= ranges@.len(),
        within(ranges@, chars@.len()),
    ensures
        final(out)@ == old(out)@ + terminated(
            cut(chars@, ranges@).subrange(from as int, to as int),
        ),
{
    let ghost all = cut(chars@, ranges@);
    let ghost before = out@;
    let mut i: usize = from;
    while i < to
        invariant
            from <= i <= to <= ranges@.len(),
            within(ranges@, chars@.len()),
            all == cut(chars@, ranges@),
            out@ + terminated(all.subrange(i as int, to as int)) == before + terminated(
                all.subrange(from as int, to as int),
            ),
        decreases to - i,
    {
        let ghost now = out@;
        assert(ranges@[i as int].0 <= ranges@[i as int].1 <= chars@.len());
        push_between(out, chars, ranges[i].0, ranges[i].1);
        out.push('\n');
        proof {
            let rest = all.subrange(i as int, to as int);
            assert(rest.drop_first() =~= all.subrange(i + 1, to as int));
            assert(rest[0] == all[i as int]);
            assert(out@ =~= now + (all[i as int] + seq!['\n']));
            assert(out@ + terminated(rest.drop_first()) =~= now + terminated(rest));
        }
        i = i + 1;
    }
    assert(all.subrange(to as int, to as int) =~= seq![]);
    assert(out@ + Seq::<char>::empty() =~= out@);
}

/// Renders what is shown of a log.
pub fn render_log(content: &str, all: bool, head: usize, tail: usize) -> (r: String)
    requires
        all || content@.len() == 0 || head + tail <= usize::MAX,
    ensures
        r@ == excerpt(content@, all, head as nat, tail as nat),
{
    if all || content.is_empty() {
        return content.to_owned();
    }
    let chars = chars_of(content);
    let ranges = line_ranges(&chars);
    let total_lines = ranges.len();
    if total_lines <= head + tail {
        return content.to_owned();
    }
    let ghost ls = lines(content@);
    let mut buffer = String::new();
    push_lines(&mut buffer, &chars, &ranges, 0, head);
    buffer.append("\n... ");
    buffer.append(decimal_text((total_lines - head - tail) as u64).as_str());
    buffer.append(" lines omitted ...\n\n");
    push_lines(&mut buffer, &chars, &ranges, total_lines - tail, total_lines);
    proof {
        let n = ls.len();
        assert(ls.subrange(0, head as int) =~= ls.take(head as int));
        assert(ls.subrange(n - tail, n as int) =~= ls.skip(n - tail));
        assert(buffer@ =~= excerpt(content@, all, head as nat, tail as nat));
    }
    buffer
}

/// What is shown of a log. All of it, character by character, if that was asked for, and
/// whenever it has no more than `head + tail` lines. Else the first `head` lines, the last
/// `tail` lines, each with a newline, and between them how many lines are not shown: all of
/// the lines less those that are.
pub proof fn law_excerpt(content: Seq<char>, all: bool, head: nat, tail: nat)
    ensures
        all ==> excerpt(content, all, head, tail) == content,
        lines(content).len() <= head + tail ==> excerpt(content, all, head, tail) == content,
        !all && lines(content).len() > head + tail ==> {
            let ls = lines(content);
            let written = |part: Seq<Seq<char>>|
                part.map_values(|line: Seq<char>| line.push('\n')).flatten();
            excerpt(content, all, head, tail) == written(ls.subrange(0, head as int)) + "\n... "@
                + decimal((ls.len() - head - tail) as nat) + " lines omitted ...\n\n"@ + written(
                ls.subrange(ls.len() - tail, ls.len() as int),
            )
        },
{
    let ls = lines(content);
    if !all && ls.len() > head + tail {
        let first = ls.take(head as int);
        let last = ls.skip(ls.len() - tail);
        assert(first =~= ls.subrange(0, head as int));
        assert(last =~= ls.subrange(ls.len() - tail, ls.len() as int));
        law_terminated(first);
        law_terminated(last);
        assert(content.len() > 0);
        assert(excerpt(content, all, head, tail) =~= terminated(first) + "\n... "@ + decimal(
            (ls.len() - head - tail) as nat,
        ) + " lines omitted ...\n\n"@ + terminated(last));
    }
}

/// A text that is one line: no newline in it, and no carriage return at its end.
pub open spec fn is_line(s: Seq<char>) -> bool {
    !s.contains('\n') && (s.len() > 0 ==> s.last() != '\r')
}

/// Lines hold no newline.
proof fn lemma_lines_have_no_newline(s: Seq<char>)
    ensures
        forall|k: int| 0 <= k < lines(s).len() ==> !(#[trigger] lines(s)[k]).contains('\n'),
    decreases s.len(),
{
    if s.len() > 0 {
        let i = first_index(s, '\n');
        lemma_first_index(s, '\n');
        if i < s.len() {
            let rest = s.skip((i + 1) as int);
            lemma_lines_have_no_newline(rest);
            assert forall|k: int| 0 <= k < lines(s).len() implies !(#[trigger] lines(
                s,
            )[k]).contains('\n') by {
                if k > 0 {
                    assert(lines(s)[k] == lines(rest)[k - 1]);
                }
            }
        }
    }
}

/// Writing lines out and reading them again gives them back.
proof fn lemma_lines_of_terminated(parts: Seq<Seq<char>>)
    requires
        forall|k: int| 0 <= k < parts.len() ==> is_line(#[trigger] parts[k]),
    ensures
        lines(terminated(parts)) == parts,
    decreases parts.len(),
{
    if parts.len() == 0 {
        assert(lines(terminated(parts)) =~= parts);
    } else {
        let rest = parts.drop_first();
        assert forall|k: int| 0 <= k < rest.len() implies is_line(#[trigger] rest[k]) by {
            assert(rest[k] == parts[k + 1]);
        }
        lemma_lines_of_terminated(rest);
        let s = terminated(parts);
        let first = parts[0];
        let k = first.len() as int;
        assert(is_line(first));
        assert forall|j: int| 0 <= j < k implies s[j] != '\n' by {
            assert(s[j] == first[j]);
            assert(first.contains(first[j]));
        }
        assert(s[k] == '\n');
        lemma_first_index_is(s, '\n', k);
        assert(s.take(k) =~= first);
        assert(s.skip(k + 1) =~= terminated(rest));
        assert(without_return(first) == first);
        assert(lines(s) =~= parts);
    }
}

/// Writing two lists out, one after the other, is writing out both as one list.
proof fn lemma_terminated_concat(a: Seq<Seq<char>>, b: Seq<Seq<char>>)
    ensures
        terminated(a + b) == terminated(a) + terminated(b),
    decreases a.len(),
{
    if a.len() == 0 {
        assert(a + b =~= b);
        assert(terminated(a) + terminated(b) =~= terminated(b));
    } else {
        lemma_terminated_concat(a.drop_first(), b);
        assert((a + b).drop_first() =~= a.drop_first() + b);
        assert(terminated(a + b) =~= terminated(a) + terminated(b));
    }
}

/// Decimal numbers hold digits only.
proof fn lemma_decimal_digits(n: nat)
    ensures
        forall|j: int| 0 <= j < decimal(n).len() ==> '0' <= #[trigger] decimal(n)[j] <= '9',
    decreases n,
{
    assert('0' <= digit(n % 10) <= '9');
    if n >= 10 {
        lemma_decimal_digits(n / 10);
        assert forall|j: int| 0 <= j < decimal(n).len() implies '0' <= #[trigger] decimal(n)[j]
            <= '9' by {
            if j < decimal(n / 10).len() {
                assert(decimal(n)[j] == decimal(n / 10)[j]);
            }
        }
    }
}

/// The line that says how many lines are missing.
pub open spec fn omission_line(n: nat) -> Seq<char> {
    "... "@ + decimal(n) + " lines omitted ..."@
}

/// What is shown of a long log, read as lines again: the first `head` lines, an empty line,
/// the line that counts the missing ones, an empty line, and the last `tail` lines. Lines
/// that end in a carriage return of their own are left out, for it would be taken for a
/// part of the terminator.
pub proof fn law_excerpt_lines(content: Seq<char>, head: nat, tail: nat)
    requires
        lines(content).len() > head + tail,
        forall|k: int|
            0 <= k < lines(content).len() ==> ((#[trigger] lines(content)[k]).len() > 0 ==> lines(
                content,
            )[k].last() != '\r'),
    ensures
        ({
            let ls = lines(content);
            lines(excerpt(content, false, head, tail)) == ls.take(head as int) + seq![
                Seq::<char>::empty(),
                omission_line((ls.len() - head - tail) as nat),
                Seq::<char>::empty(),
            ] + ls.skip(ls.len() - tail)
        }),
{
    let ls = lines(content);
    let n = (ls.len() - head - tail) as nat;
    let note = seq![Seq::<char>::empty(), omission_line(n), Seq::<char>::empty()];
    let shown = ls.take(head as int) + note + ls.skip(ls.len() - tail);
    assert(content.len() > 0);
    lemma_lines_have_no_newline(content);
    reveal_strlit("\n... ");
    reveal_strlit("... ");
    reveal_strlit(" lines omitted ...\n\n");
    reveal_strlit(" lines omitted ...");
    lemma_decimal_digits(n);
    let line = omission_line(n);
    assert(is_line(line)) by {
        assert(line.last() == '.');
        assert forall|j: int| 0 <= j < line.len() implies line[j] != '\n' by {
            let d = decimal(n).len();
            if 4 <= j < 4 + d {
                assert(line[j] == decimal(n)[j - 4]);
            } else if j >= 4 + d {
                assert(line[j] == " lines omitted ..."@[j - 4 - d]);
            }
        }
    }
    assert forall|k: int| 0 <= k < shown.len() implies is_line(#[trigger] shown[k]) by {
        if k < head {
            assert(shown[k] == ls[k]);
        } else if k >= head + 3 {
            assert(shown[k] == ls[k - head - 3 + ls.len() - tail]);
        } else {
            assert(shown[k] == note[k - head]);
        }
    }
    assert(terminated(note) =~= omission(n)) by {
        reveal_with_fuel(terminated, 4);
        assert("\n... "@ =~= seq!['\n'] + "... "@);
        assert(" lines omitted ...\n\n"@ =~= " lines omitted ..."@ + seq!['\n', '\n']);
        assert(note.drop_first()[0] == line);
        assert(note.drop_first().drop_first()[0] == Seq::<char>::empty());
        assert(note.drop_first().drop_first().drop_first() =~= seq![]);
    }
    lemma_terminated_concat(ls.take(head as int), note);
    lemma_terminated_concat(ls.take(head as int) + note, ls.skip(ls.len() - tail));
    lemma_lines_of_terminated(shown);
}

} // verus!
