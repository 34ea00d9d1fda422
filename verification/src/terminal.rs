//! The text a shell writes into a pane, kept to its last lines.
use crate::text::push_char;
use vstd::prelude::*;

verus! {

/// How many lines of shell output a pane keeps.
pub const MAX_OUTPUT_LINES: usize = 200;

/// The pieces of `s` between its newlines: one more piece than there are newlines.
pub open spec fn newline_pieces(s: Seq<char>) -> Seq<Seq<char>>
    decreases s.len(),
{
    if s.len() == 0 {
        seq![Seq::<char>::empty()]
    } else {
        let init = newline_pieces(s.drop_last());
        if s.last() == '\n' {
            init.push(Seq::<char>::empty())
        } else {
            init.update(init.len() - 1, init.last().push(s.last()))
        }
    }
}

/// A line that ended in a newline, without the carriage return before that newline.
pub open spec fn strip_cr(line: Seq<char>) -> Seq<char> {
    if line.len() > 0 && line.last() == '\r' {
        line.drop_last()
    } else {
        line
    }
}

/// The lines of `s`, as `str::lines` documents them: split at `\n` or `\r\n`, without
/// the line endings; the last line ending is optional, and a carriage return at the
/// very end, not followed by a newline, stays in the last line.
pub open spec fn lines_of(s: Seq<char>) -> Seq<Seq<char>> {
    let pieces = newline_pieces(s);
    let ended = pieces.drop_last().map_values(|l: Seq<char>| strip_cr(l));
    if pieces.last().len() > 0 {
        ended.push(pieces.last())
    } else {
        ended
    }
}

/// The lines joined with a newline between each two.
pub open spec fn join_lines(lines: Seq<Seq<char>>) -> Seq<char>
    decreases lines.len(),
{
    if lines.len() == 0 {
        Seq::<char>::empty()
    } else if lines.len() == 1 {
        lines[0]
    } else {
        join_lines(lines.drop_last()) + seq!['\n'] + lines.last()
    }
}

/// The output a pane keeps of `text`: all of it while it has at most
/// `MAX_OUTPUT_LINES` lines, else its last `MAX_OUTPUT_LINES` lines joined by newlines.
pub open spec fn keep_last_lines(text: Seq<char>) -> Seq<char> {
    let lines = lines_of(text);
    if lines.len() > MAX_OUTPUT_LINES {
        join_lines(lines.skip(lines.len() - MAX_OUTPUT_LINES))
    } else {
        text
    }
}

fn chars_of(s: &str) -> (cs: Vec<char>)
    ensures
        cs@ == s@,
{
    let mut cs: Vec<char> = Vec::new();
    for c in it: s.chars()
        invariant
            cs@ == it.seq().take(it.index() as int),
            it.seq() == s@,
    {
        cs.push(c);
    }
    cs
}

fn string_of(cs: &Vec<char>, from: usize, to: usize) -> (s: String)
    requires
        from <= to <= cs.len(),
    ensures
        s@ == cs@.subrange(from as int, to as int),
{
    let mut s = String::new();
    let mut k = from;
    while k < to
        invariant
            from <= k <= to <= cs.len(),
            s@ == cs@.subrange(from as int, k as int),
        decreases to - k,
    {
        push_char(&mut s, cs[k]);
        assert(cs@.subrange(from as int, k + 1) =~= cs@.subrange(from as int, k as int).push(cs@[k as int]));
        k = k + 1;
    }
    s
}

/// The views of the strings of `v`.
pub open spec fn string_views(v: Seq<String>) -> Seq<Seq<char>> {
    v.map_values(|s: String| s@)
}

/// The lines of `text`, as `str::lines` gives them.
pub fn split_lines(text: &str) -> (lines: Vec<String>)
    ensures
        string_views(lines@) == lines_of(text@),
{
    let cs = chars_of(text);
    let mut lines: Vec<String> = Vec::new();
    let mut start: usize = 0;
    let mut i: usize = 0;
    while i < cs.len()
        invariant
            cs@ == text@,
            start <= i <= cs.len(),
            string_views(lines@) == newline_pieces(cs@.take(i as int)).drop_last().map_values(
                |l: Seq<char>| strip_cr(l),
            ),
            newline_pieces(cs@.take(i as int)).last() == cs@.subrange(start as int, i as int),
            newline_pieces(cs@.take(i as int)).len() >= 1,
        decreases cs.len() - i,
    {
        let ghost before = newline_pieces(cs@.take(i as int));
        assert(cs@.take(i + 1).drop_last() =~= cs@.take(i as int));
        if cs[i] == '\n' {
            let end = if i > start && cs[i - 1] == '\r' { i - 1 } else { i };
            let line = string_of(&cs, start, end);
            let ghost prev = lines@;
            lines.push(line);
            proof {
                assert(string_views(lines@) =~= string_views(prev).push(cs@.subrange(start as int, end as int)));
                let raw = cs@.subrange(start as int, i as int);
                assert(strip_cr(raw) =~= cs@.subrange(start as int, end as int));
                let after = newline_pieces(cs@.take(i + 1));
                assert(after == before.push(Seq::<char>::empty()));
                assert(after.drop_last() =~= before);
                assert(before =~= before.drop_last().push(raw));
                assert(before.map_values(|l: Seq<char>| strip_cr(l)) =~= before.drop_last().map_values(|l: Seq<char>| strip_cr(l)).push(strip_cr(raw)));
                assert(string_views(lines@) =~= after.drop_last().map_values(|l: Seq<char>| strip_cr(l)));
                assert(cs@.subrange((i + 1) as int, (i + 1) as int) =~= Seq::<char>::empty());
            }
            start = i + 1;
        } else {
            proof {
                let after = newline_pieces(cs@.take(i + 1));
                assert(after.drop_last() =~= before.drop_last());
                assert(cs@.subrange(start as int, i + 1) =~= cs@.subrange(start as int, i as int).push(cs@[i as int]));
            }
        }
        i = i + 1;
    }
    assert(cs@.take(i as int) =~= cs@);
    if start < cs.len() {
        let last = string_of(&cs, start, cs.len());
        lines.push(last);
        assert(string_views(lines@) =~= lines_of(text@));
    } else {
        assert(string_views(lines@) =~= lines_of(text@));
    }
    lines
}

/// The lines of `lines` from index `from` on, joined with a newline between each two.
fn join_from(lines: &Vec<String>, from: usize) -> (s: String)
    requires
        from < lines.len(),
    ensures
        s@ == join_lines(string_views(lines@).skip(from as int)),
{
    let ghost views = string_views(lines@);
    let mut s = lines[from].clone();
    let mut k = from + 1;
    assert(views.skip(from as int).take(1) =~= seq![views[from as int]]);
    while k < lines.len()
        invariant
            from < k <= lines.len(),
            views == string_views(lines@),
            s@ == join_lines(views.skip(from as int).take(k - from)),
        decreases lines.len() - k,
    {
        s.append("\n");
        s.append(lines[k].as_str());
        proof {
            reveal_strlit("\n");
            let next = views.skip(from as int).take(k + 1 - from);
            assert(next.drop_last() =~= views.skip(from as int).take(k - from));
            assert(next.last() == views[k as int]);
        }
        k = k + 1;
    }
    assert(views.skip(from as int).take(k - from) =~= views.skip(from as int));
    s
}

/// Appends `chunk` of shell output to `output`, then keeps only the last
/// `MAX_OUTPUT_LINES` lines of it when there are more.
pub fn append_output(output: &mut String, chunk: &str)
    ensures
        final(output)@ == keep_last_lines(old(output)@ + chunk@),
{
    output.append(chunk);
    let lines = split_lines(output.as_str());
    if lines.len() > MAX_OUTPUT_LINES {
        *output = join_from(&lines, lines.len() - MAX_OUTPUT_LINES);
    }
}

/// Whether `s` holds no newline.
pub open spec fn no_newline(s: Seq<char>) -> bool {
    forall|k: int| 0 <= k < s.len() ==> s[k] != '\n'
}

proof fn lemma_pieces_have_no_newline(s: Seq<char>)
    ensures
        newline_pieces(s).len() >= 1,
        forall|i: int| 0 <= i < newline_pieces(s).len() ==> no_newline(#[trigger] newline_pieces(s)[i]),
    decreases s.len(),
{
    if s.len() > 0 {
        lemma_pieces_have_no_newline(s.drop_last());
        let init = newline_pieces(s.drop_last());
        if s.last() != '\n' {
            let l = init.last().push(s.last());
            assert(no_newline(init.last()));
            assert(no_newline(l));
        }
    }
}

proof fn lemma_pieces_extend(x: Seq<char>, y: Seq<char>)
    requires
        no_newline(y),
    ensures
        newline_pieces(x + y) == newline_pieces(x).update(
            newline_pieces(x).len() - 1,
            newline_pieces(x).last() + y,
        ),
    decreases y.len(),
{
    lemma_pieces_have_no_newline(x);
    if y.len() == 0 {
        assert(x + y =~= x);
        assert(newline_pieces(x).last() + y =~= newline_pieces(x).last());
        assert(newline_pieces(x).update(newline_pieces(x).len() - 1, newline_pieces(x).last())
            =~= newline_pieces(x));
    } else {
        let y0 = y.drop_last();
        lemma_pieces_extend(x, y0);
        assert((x + y).drop_last() =~= x + y0);
        assert((x + y).last() == y.last());
        let p = newline_pieces(x);
        assert(y[y.len() - 1] != '\n');
        let p0 = newline_pieces(x + y0);
        assert(p0.len() == p.len());
        assert(p0.last() == p.last() + y0);
        assert((p.last() + y0).push(y.last()) =~= p.last() + y);
        assert(newline_pieces(x + y) =~= p.update(p.len() - 1, p.last() + y));
    }
}

proof fn lemma_pieces_of_join(ls: Seq<Seq<char>>)
    requires
        ls.len() >= 1,
        forall|i: int| 0 <= i < ls.len() ==> no_newline(#[trigger] ls[i]),
    ensures
        newline_pieces(join_lines(ls)) == ls,
    decreases ls.len(),
{
    let e = Seq::<char>::empty();
    if ls.len() == 1 {
        lemma_pieces_extend(e, ls[0]);
        assert(e + ls[0] =~= ls[0]);
        assert(newline_pieces(e) =~= seq![e]);
        assert(seq![e].update(0, e + ls[0]) =~= ls);
    } else {
        let init = ls.drop_last();
        assert forall|i: int| 0 <= i < init.len() implies no_newline(#[trigger] init[i]) by {
            assert(init[i] == ls[i]);
        }
        lemma_pieces_of_join(init);
        let a = join_lines(init) + seq!['\n'];
        assert(a.drop_last() =~= join_lines(init));
        assert(newline_pieces(a) == init.push(e));
        lemma_pieces_extend(a, ls.last());
        assert(a + ls.last() =~= join_lines(ls));
        assert(e + ls.last() =~= ls.last());
        assert(init.push(e).update(init.len() as int, e + ls.last()) =~= ls);
    }
}

proof fn lemma_lines_have_no_newline(s: Seq<char>)
    ensures
        forall|i: int| 0 <= i < lines_of(s).len() ==> no_newline(#[trigger] lines_of(s)[i]),
{
    lemma_pieces_have_no_newline(s);
    let pieces = newline_pieces(s);
    assert forall|i: int| 0 <= i < lines_of(s).len() implies no_newline(#[trigger] lines_of(s)[i]) by {
        if i < pieces.len() - 1 {
            assert(no_newline(pieces[i]));
            assert(lines_of(s)[i] == strip_cr(pieces[i]));
            assert(no_newline(strip_cr(pieces[i])));
        } else {
            assert(lines_of(s)[i] == pieces.last());
        }
    }
}

/// A pane never keeps more than `MAX_OUTPUT_LINES` lines of output: whatever text it
/// trims, what it keeps has at most that many lines.
pub proof fn law_output_keeps_at_most_max_lines(text: Seq<char>)
    ensures
        lines_of(keep_last_lines(text)).len() <= MAX_OUTPUT_LINES,
{
    let lines = lines_of(text);
    if lines.len() > MAX_OUTPUT_LINES {
        let kept = lines.skip(lines.len() - MAX_OUTPUT_LINES);
        lemma_lines_have_no_newline(text);
        assert forall|i: int| 0 <= i < kept.len() implies no_newline(#[trigger] kept[i]) by {
            assert(kept[i] == lines[i + lines.len() - MAX_OUTPUT_LINES]);
        }
        lemma_pieces_of_join(kept);
    }
}

} // verus!
