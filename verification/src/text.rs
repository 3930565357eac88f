//! Text as a sequence of characters: joining, splitting, trimming, lines and numbers.

use vstd::prelude::*;

verus! {

/// `String::push`: the character is appended, nothing else changes.
pub assume_specification[ String::push ](text: &mut String, c: char)
    ensures
        final(text)@ == old(text)@.push(c),
;

/// The position of the first `c` in `s`, or `s.len()` if there is none.
pub open spec fn first_index(s: Seq<char>, c: char) -> nat
    decreases s.len(),
{
    if s.len() == 0 || s[0] == c {
        0
    } else {
        1 + first_index(s.drop_first(), c)
    }
}

/// The parts of `s` between the occurrences of `c`: always one more than there are
/// occurrences.
pub open spec fn pieces(s: Seq<char>, c: char) -> Seq<Seq<char>>
    decreases s.len(),
{
    let i = first_index(s, c);
    if i >= s.len() {
        seq![s]
    } else {
        seq![s.take(i as int)] + pieces(s.skip((i + 1) as int), c)
    }
}

/// A line without the carriage return that belongs to its terminator.
pub open spec fn without_return(line: Seq<char>) -> Seq<char> {
    if line.len() > 0 && line.last() == '\r' {
        line.drop_last()
    } else {
        line
    }
}

/// The lines of `s`. A line ends in a newline, or a carriage return and a newline; the
/// terminator of the last line may be missing, and is no part of any line.
pub open spec fn lines(s: Seq<char>) -> Seq<Seq<char>>
    decreases s.len(),
{
    if s.len() == 0 {
        seq![]
    } else {
        let i = first_index(s, '\n');
        if i >= s.len() {
            seq![s]
        } else {
            seq![without_return(s.take(i as int))] + lines(s.skip((i + 1) as int))
        }
    }
}

/// All of `parts` in order, each followed by a newline.
pub open spec fn terminated(parts: Seq<Seq<char>>) -> Seq<char>
    decreases parts.len(),
{
    if parts.len() == 0 {
        seq![]
    } else {
        parts[0] + seq!['\n'] + terminated(parts.drop_first())
    }
}

/// All of `parts` in order, with `sep` between each two neighbours.
pub open spec fn joined(parts: Seq<Seq<char>>, sep: Seq<char>) -> Seq<char>
    decreases parts.len(),
{
    if parts.len() == 0 {
        seq![]
    } else if parts.len() == 1 {
        parts[0]
    } else {
        parts[0] + sep + joined(parts.drop_first(), sep)
    }
}

/// The characters with the Unicode property White_Space.
pub open spec fn white_space(c: char) -> bool {
    ||| '\u{9}' <= c <= '\u{d}'
    ||| c == '\u{20}'
    ||| c == '\u{85}'
    ||| c == '\u{a0}'
    ||| c == '\u{1680}'
    ||| '\u{2000}' <= c <= '\u{200a}'
    ||| c == '\u{2028}'
    ||| c == '\u{2029}'
    ||| c == '\u{202f}'
    ||| c == '\u{205f}'
    ||| c == '\u{3000}'
}

/// `s` from its first character that is not white space on.
pub open spec fn trimmed_start(s: Seq<char>) -> Seq<char>
    decreases s.len(),
{
    if s.len() > 0 && white_space(s[0]) {
        trimmed_start(s.drop_first())
    } else {
        s
    }
}

/// `s` up to its last character that is not white space.
pub open spec fn trimmed_end(s: Seq<char>) -> Seq<char>
    decreases s.len(),
{
    if s.len() > 0 && white_space(s.last()) {
        trimmed_end(s.drop_last())
    } else {
        s
    }
}

/// `s` without white space at either end.
pub open spec fn trimmed(s: Seq<char>) -> Seq<char> {
    trimmed_end(trimmed_start(s))
}

/// The decimal digit for a number below ten.
pub open spec fn digit(d: nat) -> char {
    (48 + d) as char
}

/// `n` in decimal, without leading zeros.
pub open spec fn decimal(n: nat) -> Seq<char>
    decreases n,
{
    if n < 10 {
        seq![digit(n)]
    } else {
        decimal(n / 10).push(digit(n % 10))
    }
}

/// The characters of a string.
pub fn chars_of(s: &str) -> (r: Vec<char>)
    ensures
        r@ == s@,
{
    let mut r: Vec<char> = Vec::new();
    for c in it: s.chars()
        invariant
            it.seq() == s@,
            r@ == s@.take(it.index()),
    {
        r.push(c);
        assert(s@.take(it.index() + 1) =~= s@.take(it.index()).push(c));
    }
    assert(s@.take(s@.len() as int) =~= s@);
    r
}

/// Whether two strings hold the same characters.
pub fn same_text(a: &str, b: &str) -> (r: bool)
    ensures
        r == (a@ == b@),
{
    a.to_owned() == b.to_owned()
}

/// Tells white space from other characters.
pub fn is_white_space(c: char) -> (r: bool)
    ensures
        r == white_space(c),
{
    ('\u{9}' <= c && c <= '\u{d}') || c == '\u{20}' || c == '\u{85}' || c == '\u{a0}' || c
        == '\u{1680}' || ('\u{2000}' <= c && c <= '\u{200a}') || c == '\u{2028}' || c == '\u{2029}'
        || c == '\u{202f}' || c == '\u{205f}' || c == '\u{3000}'
}

/// Writes a number in decimal.
pub fn decimal_text(n: u64) -> (r: String)
    ensures
        r@ == decimal(n as nat),
    decreases n,
{
    if n < 10 {
        let mut r = String::new();
        r.push(digit_char(n as u8));
        r
    } else {
        let mut r = decimal_text(n / 10);
        r.push(digit_char((n % 10) as u8));
        r
    }
}

/// Writes one decimal digit.
fn digit_char(d: u8) -> (c: char)
    requires
        d < 10,
    ensures
        c == digit(d as nat),
{
    (48 + d) as char
}

/// What `first_index` means: nothing before it is `c`, and it is `c` if it is in range.
pub proof fn lemma_first_index(s: Seq<char>, c: char)
    ensures
        first_index(s, c) <= s.len(),
        forall|j: int| 0 <= j < first_index(s, c) ==> s[j] != c,
        first_index(s, c) < s.len() ==> s[first_index(s, c) as int] == c,
    decreases s.len(),
{
    if s.len() > 0 && s[0] != c {
        let rest = s.drop_first();
        lemma_first_index(rest, c);
        assert forall|j: int| 0 <= j < first_index(s, c) implies s[j] != c by {
            if j > 0 {
                assert(rest[j - 1] == s[j]);
            }
        }
    }
}

/// A position with no `c` before it, which is the end or holds `c`, is the first one.
pub proof fn lemma_first_index_is(s: Seq<char>, c: char, k: int)
    requires
        0 <= k <= s.len(),
        forall|j: int| 0 <= j < k ==> s[j] != c,
        k < s.len() ==> s[k] == c,
    ensures
        first_index(s, c) == k,
{
    lemma_first_index(s, c);
}

/// The parts of `s` that `ranges` delimits.
pub open spec fn cut(s: Seq<char>, ranges: Seq<(usize, usize)>) -> Seq<Seq<char>> {
    Seq::new(ranges.len(), |k: int| s.subrange(ranges[k].0 as int, ranges[k].1 as int))
}

/// Every range lies within the first `n` positions.
pub open spec fn within(ranges: Seq<(usize, usize)>, n: nat) -> bool {
    forall|k: int| 0 <= k < ranges.len() ==> (#[trigger] ranges[k]).0 <= ranges[k].1 <= n
}

/// Copies the characters from `from` up to `to`.
pub fn text_between(chars: &Vec<char>, from: usize, to: usize) -> (r: String)
    requires
        from <= to <= chars@.len(),
    ensures
        r@ == chars@.subrange(from as int, to as int),
{
    let mut r = String::new();
    push_between(&mut r, chars, from, to);
    assert(r@ =~= chars@.subrange(from as int, to as int));
    r
}

/// Appends the characters from `from` up to `to`.
pub fn push_between(out: &mut String, chars: &Vec<char>, from: usize, to: usize)
    requires
        from <= to <= chars@.len(),
    ensures
        final(out)@ == old(out)@ + chars@.subrange(from as int, to as int),
{
    let ghost before = out@;
    let mut i = from;
    assert(before =~= before + chars@.subrange(from as int, from as int));
    while i < to
        invariant
            from <= i <= to <= chars@.len(),
            out@ == before + chars@.subrange(from as int, i as int),
        decreases to - i,
    {
        out.push(chars[i]);
        assert(out@ =~= before + chars@.subrange(from as int, i + 1));
        i = i + 1;
    }
}

/// Delimits the pieces between the occurrences of `c`.
pub fn piece_ranges(chars: &Vec<char>, c: char) -> (r: Vec<(usize, usize)>)
    ensures
        within(r@, chars@.len()),
        cut(chars@, r@) == pieces(chars@, c),
{
    let mut r: Vec<(usize, usize)> = Vec::new();
    let mut start: usize = 0;
    let mut i: usize = 0;
    assert(chars@.skip(0) =~= chars@);
    assert(cut(chars@, r@) + pieces(chars@.skip(0), c) =~= pieces(chars@, c));
    while i < chars.len()
        invariant
            start <= i <= chars@.len(),
            within(r@, chars@.len()),
            cut(chars@, r@) + pieces(chars@.skip(start as int), c) == pieces(chars@, c),
            forall|j: int| start <= j < i ==> chars@[j] != c,
        decreases chars@.len() - i,
    {
        if chars[i] == c {
            let ghost tail = chars@.skip(start as int);
            let ghost k = i - start;
            let ghost before = r@;
            proof {
                lemma_first_index_is(tail, c, k);
                assert(tail.skip(k + 1) =~= chars@.skip(i + 1));
                assert(tail.take(k) =~= chars@.subrange(start as int, i as int));
            }
            r.push((start, i));
            proof {
                assert(cut(chars@, r@) =~= cut(chars@, before) + seq![
                    chars@.subrange(start as int, i as int),
                ]);
                assert(cut(chars@, r@) + pieces(chars@.skip(i + 1), c) =~= cut(chars@, before)
                    + pieces(tail, c));
            }
            start = i + 1;
        }
        i = i + 1;
    }
    let ghost tail = chars@.skip(start as int);
    let ghost before = r@;
    proof {
        lemma_first_index_is(tail, c, tail.len() as int);
    }
    r.push((start, i));
    assert(tail =~= chars@.subrange(start as int, i as int));
    assert(cut(chars@, r@) =~= cut(chars@, before) + pieces(tail, c));
    r
}

/// Delimits the lines, without their terminators.
pub fn line_ranges(chars: &Vec<char>) -> (r: Vec<(usize, usize)>)
    ensures
        within(r@, chars@.len()),
        cut(chars@, r@) == lines(chars@),
{
    let mut r: Vec<(usize, usize)> = Vec::new();
    let mut start: usize = 0;
    let mut i: usize = 0;
    assert(chars@.skip(0) =~= chars@);
    assert(cut(chars@, r@) + lines(chars@.skip(0)) =~= lines(chars@));
    while i < chars.len()
        invariant
            start <= i <= chars@.len(),
            within(r@, chars@.len()),
            cut(chars@, r@) + lines(chars@.skip(start as int)) == lines(chars@),
            forall|j: int| start <= j < i ==> chars@[j] != '\n',
        decreases chars@.len() - i,
    {
        if chars[i] == '\n' {
            let ghost tail = chars@.skip(start as int);
            let ghost k = i - start;
            let ghost before = r@;
            proof {
                lemma_first_index_is(tail, '\n', k);
                assert(tail.skip(k + 1) =~= chars@.skip(i + 1));
                assert(tail.take(k) =~= chars@.subrange(start as int, i as int));
            }
            let end = if start < i && chars[i - 1] == '\r' {
                i - 1
            } else {
                i
            };
            r.push((start, end));
            proof {
                assert(chars@.subrange(start as int, end as int) =~= without_return(tail.take(k)));
                assert(cut(chars@, r@) =~= cut(chars@, before) + seq![
                    without_return(tail.take(k)),
                ]);
                assert(cut(chars@, r@) + lines(chars@.skip(i + 1)) =~= cut(chars@, before) + lines(
                    tail,
                ));
            }
            start = i + 1;
        }
        i = i + 1;
    }
    let ghost tail = chars@.skip(start as int);
    let ghost before = r@;
    proof {
        lemma_first_index_is(tail, '\n', tail.len() as int);
    }
    if start < i {
        r.push((start, i));
        assert(tail =~= chars@.subrange(start as int, i as int));
    }
    assert(cut(chars@, r@) =~= cut(chars@, before) + lines(tail));
    r
}

/// Narrows a range so that no white space is left at either end.
pub fn trim_between(chars: &Vec<char>, from: usize, to: usize) -> (r: (usize, usize))
    requires
        from <= to <= chars@.len(),
    ensures
        from <= r.0 <= r.1 <= to,
        chars@.subrange(r.0 as int, r.1 as int) == trimmed(chars@.subrange(from as int, to as int)),
{
    let ghost whole = chars@.subrange(from as int, to as int);
    let mut a = from;
    while a < to && is_white_space(chars[a])
        invariant
            from <= a <= to <= chars@.len(),
            trimmed_start(chars@.subrange(a as int, to as int)) == trimmed_start(whole),
        ensures
            from <= a <= to,
            chars@.subrange(a as int, to as int) == trimmed_start(whole),
        decreases to - a,
    {
        assert(chars@.subrange(a as int, to as int).drop_first() =~= chars@.subrange(
            a + 1,
            to as int,
        ));
        a = a + 1;
    }
    let mut b = to;
    while a < b && is_white_space(chars[b - 1])
        invariant
            a <= b <= to <= chars@.len(),
            trimmed_end(chars@.subrange(a as int, b as int)) == trimmed(whole),
        ensures
            a <= b <= to,
            chars@.subrange(a as int, b as int) == trimmed(whole),
        decreases b - a,
    {
        assert(chars@.subrange(a as int, b as int).drop_last() =~= chars@.subrange(
            a as int,
            b - 1,
        ));
        b = b - 1;
    }
    (a, b)
}

/// What is left to append once the first `i` parts have been joined.
spec fn joined_rest(parts: Seq<Seq<char>>, sep: Seq<char>, i: int) -> Seq<char> {
    if i >= parts.len() {
        seq![]
    } else if i == 0 {
        joined(parts, sep)
    } else {
        sep + joined(parts.skip(i), sep)
    }
}

/// Joins strings with a separator between them.
pub fn join(parts: &Vec<String>, sep: &str) -> (r: String)
    ensures
        r@ == joined(parts.deep_view(), sep@),
{
    let ghost all = parts.deep_view();
    let mut r = String::new();
    let mut i: usize = 0;
    assert(r@ + joined_rest(all, sep@, 0) =~= joined(all, sep@));
    while i < parts.len()
        invariant
            i <= parts@.len(),
            all == parts.deep_view(),
            r@ + joined_rest(all, sep@, i as int) == joined(all, sep@),
        decreases parts@.len() - i,
    {
        let ghost before = r@;
        if i > 0 {
            r.append(sep);
        }
        r.append(parts[i].as_str());
        proof {
            let rest = all.skip(i as int);
            assert(rest[0] == parts@[i as int]@);
            assert(rest.drop_first() =~= all.skip(i + 1));
            assert(i == 0 ==> rest =~= all);
            assert(r@ + joined_rest(all, sep@, i + 1) =~= before + joined_rest(
                all,
                sep@,
                i as int,
            ));
        }
        i = i + 1;
    }
    assert(r@ =~= r@ + joined_rest(all, sep@, i as int));
    r
}

/// What cutting means: one part for each range, from its beginning up to its end.
pub proof fn law_cut(s: Seq<char>, ranges: Seq<(usize, usize)>)
    ensures
        cut(s, ranges).len() == ranges.len(),
        forall|k: int|
            0 <= k < ranges.len() ==> #[trigger] cut(s, ranges)[k] == s.subrange(
                ranges[k].0 as int,
                ranges[k].1 as int,
            ),
{
}

/// Whether `part` stands in `s` from position `at` on.
pub open spec fn stands_at(s: Seq<char>, at: int, part: Seq<char>) -> bool {
    0 <= at && at + part.len() <= s.len() && s.subrange(at, at + part.len()) == part
}

/// The sum of the lengths of the first `i` parts, and of a gap behind each of them.
pub open spec fn offset(parts: Seq<Seq<char>>, gap: nat, i: nat) -> nat
    decreases i,
{
    if i == 0 {
        0
    } else {
        offset(parts, gap, (i - 1) as nat) + parts[i - 1].len() + gap
    }
}

/// Offsets can be counted from the second part on.
proof fn lemma_offset_rest(parts: Seq<Seq<char>>, gap: nat, i: nat)
    requires
        0 < i <= parts.len(),
    ensures
        offset(parts, gap, i) == parts[0].len() + gap + offset(
            parts.drop_first(),
            gap,
            (i - 1) as nat,
        ),
    decreases i,
{
    reveal_with_fuel(offset, 2);
    if i > 1 {
        lemma_offset_rest(parts, gap, (i - 1) as nat);
        assert(parts.drop_first()[i - 2] == parts[i - 1]);
    }
}

/// How long joined parts are.
proof fn lemma_joined_len(parts: Seq<Seq<char>>, sep: Seq<char>)
    requires
        parts.len() > 0,
    ensures
        joined(parts, sep).len() + sep.len() == offset(parts, sep.len(), parts.len()),
    decreases parts.len(),
{
    reveal_with_fuel(offset, 2);
    if parts.len() > 1 {
        lemma_joined_len(parts.drop_first(), sep);
        lemma_offset_rest(parts, sep.len(), parts.len());
    }
}

/// Where a part stands, and the separator before it.
proof fn lemma_joined_at(parts: Seq<Seq<char>>, sep: Seq<char>, i: int)
    requires
        0 <= i < parts.len(),
    ensures
        stands_at(joined(parts, sep), offset(parts, sep.len(), i as nat) as int, parts[i]),
        i > 0 ==> stands_at(
            joined(parts, sep),
            offset(parts, sep.len(), i as nat) - sep.len(),
            sep,
        ),
    decreases parts.len(),
{
    let s = joined(parts, sep);
    let gap = sep.len();
    if i == 0 {
        assert(s.subrange(0, parts[0].len() as int) =~= parts[0]);
    } else {
        let rest = parts.drop_first();
        let later = joined(rest, sep);
        let shift = (parts[0].len() + gap) as int;
        lemma_joined_at(rest, sep, i - 1);
        lemma_offset_rest(parts, gap, i as nat);
        let at = offset(rest, gap, (i - 1) as nat) as int;
        assert(s =~= parts[0] + sep + later);
        assert(s.subrange(shift + at, shift + at + parts[i].len()) =~= later.subrange(
            at,
            at + parts[i].len(),
        ));
        if i == 1 {
            assert(at == 0);
            assert(s.subrange(parts[0].len() as int, shift) =~= sep);
        } else {
            assert(s.subrange(shift + at - gap, shift + at) =~= later.subrange(at - gap, at));
        }
    }
}

/// What joining means: the parts stand one after the other, each at the sum of the lengths of
/// the parts and separators before it; the separator stands right before each part but the
/// first; and nothing else is there.
pub proof fn law_joined(parts: Seq<Seq<char>>, sep: Seq<char>)
    ensures
        parts.len() == 0 ==> joined(parts, sep).len() == 0,
        parts.len() > 0 ==> joined(parts, sep).len() + sep.len() == offset(
            parts,
            sep.len(),
            parts.len(),
        ),
        forall|i: int|
            0 <= i < parts.len() ==> stands_at(
                joined(parts, sep),
                offset(parts, sep.len(), i as nat) as int,
                #[trigger] parts[i],
            ),
        forall|i: int|
            0 < i < parts.len() ==> stands_at(
                joined(parts, sep),
                #[trigger] offset(parts, sep.len(), i as nat) - sep.len(),
                sep,
            ),
{
    if parts.len() > 0 {
        lemma_joined_len(parts, sep);
    }
    assert forall|i: int| 0 <= i < parts.len() implies stands_at(
        joined(parts, sep),
        offset(parts, sep.len(), i as nat) as int,
        #[trigger] parts[i],
    ) by {
        lemma_joined_at(parts, sep, i);
    }
    assert forall|i: int| 0 < i < parts.len() implies stands_at(
        joined(parts, sep),
        #[trigger] offset(parts, sep.len(), i as nat) - sep.len(),
        sep,
    ) by {
        lemma_joined_at(parts, sep, i);
    }
}

/// What splitting means: joined by `c` again, the pieces are the text, and none of them holds
/// `c`.
pub proof fn law_pieces(s: Seq<char>, c: char)
    ensures
        pieces(s, c).len() > 0,
        joined(pieces(s, c), seq![c]) == s,
        forall|k: int| 0 <= k < pieces(s, c).len() ==> !(#[trigger] pieces(s, c)[k]).contains(c),
    decreases s.len(),
{
    let i = first_index(s, c);
    lemma_first_index(s, c);
    if i < s.len() {
        let rest = s.skip((i + 1) as int);
        let all = pieces(s, c);
        law_pieces(rest, c);
        assert(all.drop_first() =~= pieces(rest, c));
        assert(joined(all, seq![c]) =~= s);
        assert forall|k: int| 0 <= k < all.len() implies !(#[trigger] all[k]).contains(c) by {
            if k > 0 {
                assert(all[k] == pieces(rest, c)[k - 1]);
            }
        }
    }
}

/// Whether `content` is `parts`, each with its end behind it, and is rightly cut there: no
/// part holds a newline; every end is a newline, or a carriage return and a newline, but that
/// the last one may be missing behind a part that is not empty; and a carriage return before
/// the newline is never left to the part.
pub open spec fn reads_as(
    content: Seq<char>,
    parts: Seq<Seq<char>>,
    ends: Seq<Seq<char>>,
) -> bool {
    &&& ends.len() == parts.len()
    &&& content == Seq::new(parts.len(), |k: int| parts[k] + ends[k]).flatten()
    &&& forall|k: int| 0 <= k < parts.len() ==> !(#[trigger] parts[k]).contains('\n')
    &&& forall|k: int|
        0 <= k < parts.len() ==> {
            ||| #[trigger] ends[k] == seq!['\n'] && !(parts[k].len() > 0 && parts[k].last() == '\r')
            ||| ends[k] == seq!['\r', '\n']
            ||| ends[k] == Seq::<char>::empty() && k == parts.len() - 1 && parts[k].len() > 0
        }
}

/// What the lines of a text are: the text is the lines, each with its end behind it. The ends
/// are handed back.
pub proof fn law_lines(content: Seq<char>) -> (ends: Seq<Seq<char>>)
    ensures
        reads_as(content, lines(content), ends),
    decreases content.len(),
{
    let ls = lines(content);
    if content.len() == 0 {
        let ends = Seq::<Seq<char>>::empty();
        assert(Seq::new(ls.len(), |k: int| ls[k] + ends[k]).flatten() =~= content);
        ends
    } else {
        let i = first_index(content, '\n') as int;
        lemma_first_index(content, '\n');
        if i >= content.len() {
            let ends = seq![Seq::<char>::empty()];
            let whole = Seq::new(ls.len(), |k: int| ls[k] + ends[k]);
            assert(whole.drop_first() =~= Seq::empty());
            assert(whole.first() =~= content);
            assert(whole.flatten() == content + whole.drop_first().flatten());
            assert(whole.flatten() =~= content);
            ends
        } else {
            let rest = content.skip(i + 1);
            let more = law_lines(rest);
            let line = content.take(i);
            let end = if line.len() > 0 && line.last() == '\r' {
                seq!['\r', '\n']
            } else {
                seq!['\n']
            };
            let ends = seq![end] + more;
            let whole = Seq::new(ls.len(), |k: int| ls[k] + ends[k]);
            let tail = Seq::new(lines(rest).len(), |k: int| lines(rest)[k] + more[k]);
            assert(whole.drop_first() =~= tail);
            assert(whole[0] =~= content.take(i + 1));
            assert(whole.flatten() =~= content);
            assert forall|k: int| 0 <= k < ls.len() implies !(#[trigger] ls[k]).contains('\n') by {
                if k > 0 {
                    assert(ls[k] == lines(rest)[k - 1]);
                }
            }
            assert forall|k: int| 0 <= k < ls.len() implies {
                ||| #[trigger] ends[k] == seq!['\n'] && !(ls[k].len() > 0 && ls[k].last() == '\r')
                ||| ends[k] == seq!['\r', '\n']
                ||| ends[k] == Seq::<char>::empty() && k == ls.len() - 1 && ls[k].len() > 0
            } by {
                if k > 0 {
                    assert(ls[k] == lines(rest)[k - 1]);
                    assert(ends[k] == more[k - 1]);
                }
            }
            ends
        }
    }
}

/// Writing lines out is putting them one behind the other, each with a newline at its end.
pub proof fn law_terminated(parts: Seq<Seq<char>>)
    ensures
        terminated(parts) == parts.map_values(|line: Seq<char>| line.push('\n')).flatten(),
    decreases parts.len(),
{
    let written = parts.map_values(|line: Seq<char>| line.push('\n'));
    if parts.len() > 0 {
        let rest = parts.drop_first();
        law_terminated(rest);
        assert(written.drop_first() =~= rest.map_values(|line: Seq<char>| line.push('\n')));
        assert(terminated(parts) =~= written.flatten());
    }
}

/// The code points of the characters with the Unicode property White_Space.
pub open spec fn white_space_codes() -> Seq<int> {
    seq![
        9int, 10, 11, 12, 13, 32, 133, 160, 5760, 8192, 8193, 8194, 8195, 8196, 8197, 8198, 8199,
        8200, 8201, 8202, 8232, 8233, 8239, 8287, 12288,
    ]
}

/// Which characters are white space.
pub proof fn law_white_space(c: char)
    ensures
        white_space(c) <==> white_space_codes().contains(c as int),
{
    let codes = white_space_codes();
    if white_space(c) {
        let n = c as int;
        let k: int = if n <= 13 {
            n - 9
        } else if n == 32 {
            5
        } else if n == 133 {
            6
        } else if n == 160 {
            7
        } else if n == 5760 {
            8
        } else if n <= 8202 {
            n - 8192 + 9
        } else if n == 8232 {
            20
        } else if n == 8233 {
            21
        } else if n == 8239 {
            22
        } else if n == 8287 {
            23
        } else {
            24
        };
        assert(codes[k] == n);
    }
}

/// What trimming means: what is left stands in the text, nothing but white space stands before
/// or behind it, and it neither begins nor ends with white space. Where it stands is handed
/// back.
pub proof fn law_trimmed(s: Seq<char>) -> (at: (int, int))
    ensures
        0 <= at.0 <= at.1 <= s.len(),
        trimmed(s) == s.subrange(at.0, at.1),
        forall|j: int| 0 <= j < at.0 || at.1 <= j < s.len() ==> white_space(#[trigger] s[j]),
        at.0 < at.1 ==> !white_space(s[at.0]) && !white_space(s[at.1 - 1]),
{
    let a = lemma_trimmed_start(s);
    let b = lemma_trimmed_end(s.skip(a));
    assert(s.skip(a).take(b) =~= s.subrange(a, a + b));
    assert forall|j: int| 0 <= j < a || a + b <= j < s.len() implies white_space(
        #[trigger] s[j],
    ) by {
        if j >= a {
            assert(s.skip(a)[j - a] == s[j]);
        }
    }
    (a, a + b)
}

/// Where `trimmed_start` begins.
proof fn lemma_trimmed_start(s: Seq<char>) -> (a: int)
    ensures
        0 <= a <= s.len(),
        trimmed_start(s) == s.skip(a),
        forall|j: int| 0 <= j < a ==> white_space(#[trigger] s[j]),
        a < s.len() ==> !white_space(s[a]),
    decreases s.len(),
{
    if s.len() > 0 && white_space(s[0]) {
        let rest = s.drop_first();
        let a = lemma_trimmed_start(rest);
        assert(rest.skip(a) =~= s.skip(a + 1));
        assert forall|j: int| 0 <= j < a + 1 implies white_space(#[trigger] s[j]) by {
            if j > 0 {
                assert(rest[j - 1] == s[j]);
            }
        }
        a + 1
    } else {
        assert(s.skip(0) =~= s);
        0
    }
}

/// Where `trimmed_end` ends.
proof fn lemma_trimmed_end(s: Seq<char>) -> (b: int)
    ensures
        0 <= b <= s.len(),
        trimmed_end(s) == s.take(b),
        forall|j: int| b <= j < s.len() ==> white_space(#[trigger] s[j]),
        b > 0 ==> !white_space(s[b - 1]),
    decreases s.len(),
{
    if s.len() > 0 && white_space(s.last()) {
        let rest = s.drop_last();
        let b = lemma_trimmed_end(rest);
        assert(rest.take(b) =~= s.take(b));
        assert forall|j: int| b <= j < s.len() implies white_space(#[trigger] s[j]) by {
            if j < s.len() - 1 {
                assert(rest[j] == s[j]);
            }
        }
        b
    } else {
        assert(s.take(s.len() as int) =~= s);
        s.len() as int
    }
}

/// The number that decimal digits stand for.
pub open spec fn number(digits: Seq<char>) -> int
    decreases digits.len(),
{
    if digits.len() == 0 {
        0
    } else {
        10 * number(digits.drop_last()) + (digits.last() as int - '0' as int)
    }
}

/// What writing a number in decimal means: digits, read as a number, are the number again, and
/// there is no zero before them.
pub proof fn law_decimal(n: nat)
    ensures
        decimal(n).len() > 0,
        number(decimal(n)) == n,
        forall|j: int| 0 <= j < decimal(n).len() ==> '0' <= #[trigger] decimal(n)[j] <= '9',
        decimal(n).len() > 1 ==> decimal(n)[0] != '0',
    decreases n,
{
    let s = decimal(n);
    assert('0' <= digit(n % 10) <= '9');
    reveal_with_fuel(number, 2);
    if n >= 10 {
        let high = decimal(n / 10);
        law_decimal(n / 10);
        assert(s.drop_last() =~= high);
        assert forall|j: int| 0 <= j < s.len() implies '0' <= #[trigger] s[j] <= '9' by {
            if j < high.len() {
                assert(s[j] == high[j]);
            }
        }
        assert(s[0] == high[0]);
        if high.len() == 1 && high[0] == '0' {
            assert(number(high.drop_last()) == 0);
        }
    }
}

} // verus!
