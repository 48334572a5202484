//! Where the texts to classify come from, and how a file or the standard
//! input is cut into texts: one per non-blank line, trimmed.
use vstd::prelude::*;

use crate::text::{
    chars_of, drop_back_while, drop_front_while, is_white_space, join_spec, lemma_trim_edges,
    lemma_trim_idempotent, string_of, trim_chars, trim_spec, views, CharClass,
};

verus! {

/// Where the texts come from.
#[derive(Debug, Clone, PartialEq, Eq)]
pub enum TextSource {
    /// The one text given on the command line.
    Given(String),
    /// The lines of the input file.
    File,
    /// The lines of the standard input.
    Stdin,
}

/// The source of the texts: a text given on the command line comes first,
/// then an input file, then the standard input.
pub fn text_source(text: Option<String>, input_given: bool) -> (r: TextSource)
    ensures
        match text {
            Some(t) => (r matches TextSource::Given(g) && g@ == t@),
            None => if input_given {
                r is File
            } else {
                r is Stdin
            },
        },
{
    match text {
        Some(t) => TextSource::Given(t),
        None => if input_given {
            TextSource::File
        } else {
            TextSource::Stdin
        },
    }
}

/// The pieces of `s` between `'\n'` characters: one more piece than there
/// are newlines.
pub open spec fn split_newlines(s: Seq<char>) -> Seq<Seq<char>>
    decreases s.len(),
{
    if s.len() == 0 {
        seq![Seq::empty()]
    } else {
        let rest = split_newlines(s.drop_last());
        if s.last() == '\n' {
            rest.push(Seq::empty())
        } else {
            rest.update(rest.len() - 1, rest.last().push(s.last()))
        }
    }
}

/// The trimmed pieces that are not empty, in order.
pub open spec fn trimmed_non_empty(pieces: Seq<Seq<char>>) -> Seq<Seq<char>>
    decreases pieces.len(),
{
    if pieces.len() == 0 {
        Seq::empty()
    } else {
        let rest = trimmed_non_empty(pieces.drop_last());
        let t = trim_spec(pieces.last());
        if t.len() == 0 {
            rest
        } else {
            rest.push(t)
        }
    }
}

/// The lines of `content`, trimmed, without the blank ones.
pub open spec fn non_empty_lines_spec(content: Seq<char>) -> Seq<Seq<char>> {
    trimmed_non_empty(split_newlines(content))
}

/// The lines of `content` (split at `'\n'`; a `'\r'` before the newline is
/// white space and goes with the trimming), trimmed, without the blank ones.
pub fn non_empty_lines(content: &str) -> (r: Vec<String>)
    ensures
        views(r@) == non_empty_lines_spec(content@),
{
    let s = chars_of(content);
    let mut out: Vec<String> = Vec::new();
    let mut cur: Vec<char> = Vec::new();
    let mut i: usize = 0;
    while i < s.len()
        invariant
            i <= s@.len(),
            s@ == content@,
            split_newlines(s@.take(i as int)).len() >= 1,
            cur@ == split_newlines(s@.take(i as int)).last(),
            views(out@) == trimmed_non_empty(split_newlines(s@.take(i as int)).drop_last()),
        decreases s@.len() - i,
    {
        let ghost before = split_newlines(s@.take(i as int));
        assert(s@.take(i + 1).drop_last() == s@.take(i as int));
        assert(s@.take(i + 1).last() == s@[i as int]);
        if s[i] == '\n' {
            let t = trim_chars(cur.as_slice());
            if t.len() > 0 {
                out.push(string_of(t.as_slice()));
            }
            cur = Vec::new();
            proof {
                let after = before.push(Seq::empty());
                assert(after.drop_last() == before);
                assert(before.drop_last().push(before.last()) == before);
                assert(views(out@) == trimmed_non_empty(after.drop_last()));
            }
        } else {
            cur.push(s[i]);
            proof {
                let after = before.update(before.len() - 1, before.last().push(s@[i as int]));
                assert(after.drop_last() == before.drop_last());
            }
        }
        i = i + 1;
    }
    assert(s@.take(s@.len() as int) == s@);
    let ghost pieces = split_newlines(s@);
    let t = trim_chars(cur.as_slice());
    if t.len() > 0 {
        out.push(string_of(t.as_slice()));
    }
    proof {
        assert(pieces.drop_last().push(pieces.last()) == pieces);
        assert(views(out@) == trimmed_non_empty(pieces));
    }
    out
}


/// Every text that `non_empty_lines` gives back is non-empty and trimmed.
pub proof fn law_lines_are_trimmed(content: Seq<char>)
    ensures
        forall|i: int|
            0 <= i < non_empty_lines_spec(content).len() ==> {
                let l = #[trigger] non_empty_lines_spec(content)[i];
                &&& l.len() > 0
                &&& trim_spec(l) == l
                &&& !is_white_space(l[0])
                &&& !is_white_space(l.last())
            },
{
    lemma_trimmed_pieces(split_newlines(content));
}

proof fn lemma_trimmed_pieces(pieces: Seq<Seq<char>>)
    ensures
        forall|i: int|
            0 <= i < trimmed_non_empty(pieces).len() ==> {
                let l = #[trigger] trimmed_non_empty(pieces)[i];
                &&& l.len() > 0
                &&& trim_spec(l) == l
                &&& !is_white_space(l[0])
                &&& !is_white_space(l.last())
            },
    decreases pieces.len(),
{
    if pieces.len() > 0 {
        let rest = trimmed_non_empty(pieces.drop_last());
        let t = trim_spec(pieces.last());
        lemma_trimmed_pieces(pieces.drop_last());
        lemma_trim_idempotent(pieces.last());
        lemma_trim_edges(pieces.last());
        if t.len() > 0 {
            assert forall|i: int| 0 <= i < rest.len() implies rest.push(t)[i] == rest[i] by {}
            assert(rest.push(t)[rest.len() as int] == t);
        }
    }
}

/// Whether `s` holds no newline.
pub open spec fn no_newline(s: Seq<char>) -> bool {
    forall|i: int| 0 <= i < s.len() ==> s[i] != '\n'
}

/// Joining the lines with newlines and cutting the result again gives the
/// same lines.
pub proof fn law_lines_rejoin(content: Seq<char>)
    ensures
        non_empty_lines_spec(join_spec(non_empty_lines_spec(content), seq!['\n']))
            == non_empty_lines_spec(content),
{
    let lines = non_empty_lines_spec(content);
    law_lines_are_trimmed(content);
    lemma_pieces_no_newline(content);
    lemma_trimmed_no_newline(split_newlines(content));
    if lines.len() == 0 {
        let e = Seq::<char>::empty();
        assert(split_newlines(e) == seq![e]);
        assert(trim_spec(e) == e);
        assert(seq![e].drop_last() =~= Seq::<Seq<char>>::empty());
        assert(lines =~= Seq::<Seq<char>>::empty());
        assert(join_spec(lines, seq!['\n']) == e);
        assert(trimmed_non_empty(seq![e]) == trimmed_non_empty(Seq::<Seq<char>>::empty()));
    } else {
        lemma_split_join(lines);
        lemma_trimmed_fixed(lines);
    }
}

/// No piece between newlines holds a newline.
proof fn lemma_pieces_no_newline(s: Seq<char>)
    ensures
        split_newlines(s).len() >= 1,
        forall|i: int| 0 <= i < split_newlines(s).len() ==> no_newline(#[trigger] split_newlines(s)[i]),
    decreases s.len(),
{
    if s.len() > 0 {
        lemma_pieces_no_newline(s.drop_last());
        let rest = split_newlines(s.drop_last());
        if s.last() != '\n' {
            let grown = rest.last().push(s.last());
            assert(no_newline(rest[rest.len() - 1]));
            assert(no_newline(grown));
            assert forall|i: int| 0 <= i < rest.len() implies no_newline(
                #[trigger] rest.update(rest.len() - 1, grown)[i],
            ) by {
                if i < rest.len() - 1 {
                    assert(no_newline(rest[i]));
                }
            }
        } else {
            assert forall|i: int| 0 <= i < rest.len() + 1 implies no_newline(
                #[trigger] rest.push(Seq::<char>::empty())[i],
            ) by {
                if i < rest.len() {
                    assert(no_newline(rest[i]));
                }
            }
        }
    }
}

proof fn lemma_drop_front_no_newline(s: Seq<char>, k: CharClass)
    requires
        no_newline(s),
    ensures
        no_newline(drop_front_while(s, k)),
    decreases s.len(),
{
    if s.len() > 0 && k.holds(s[0]) {
        assert(no_newline(s.drop_first()));
        lemma_drop_front_no_newline(s.drop_first(), k);
    }
}

proof fn lemma_drop_back_no_newline(s: Seq<char>, k: CharClass)
    requires
        no_newline(s),
    ensures
        no_newline(drop_back_while(s, k)),
    decreases s.len(),
{
    if s.len() > 0 && k.holds(s.last()) {
        assert(no_newline(s.drop_last()));
        lemma_drop_back_no_newline(s.drop_last(), k);
    }
}

/// Trimmed pieces without newlines hold no newline.
proof fn lemma_trimmed_no_newline(pieces: Seq<Seq<char>>)
    requires
        forall|i: int| 0 <= i < pieces.len() ==> no_newline(#[trigger] pieces[i]),
    ensures
        forall|i: int|
            0 <= i < trimmed_non_empty(pieces).len() ==> no_newline(
                #[trigger] trimmed_non_empty(pieces)[i],
            ),
    decreases pieces.len(),
{
    if pieces.len() > 0 {
        let rest = trimmed_non_empty(pieces.drop_last());
        let t = trim_spec(pieces.last());
        assert forall|i: int| 0 <= i < pieces.drop_last().len() implies no_newline(
            #[trigger] pieces.drop_last()[i],
        ) by {
            assert(no_newline(pieces[i]));
        }
        lemma_trimmed_no_newline(pieces.drop_last());
        assert(no_newline(pieces[pieces.len() - 1]));
        lemma_drop_front_no_newline(pieces.last(), CharClass::WhiteSpace);
        lemma_drop_back_no_newline(
            drop_front_while(pieces.last(), CharClass::WhiteSpace),
            CharClass::WhiteSpace,
        );
        if t.len() > 0 {
            assert forall|i: int| 0 <= i < rest.len() + 1 implies no_newline(
                #[trigger] rest.push(t)[i],
            ) by {
                if i < rest.len() {
                    assert(no_newline(rest[i]));
                }
            }
        }
    }
}

/// A text without newlines is one piece.
proof fn lemma_split_single(t: Seq<char>)
    requires
        no_newline(t),
    ensures
        split_newlines(t) == seq![t],
    decreases t.len(),
{
    if t.len() > 0 {
        assert(no_newline(t.drop_last()));
        lemma_split_single(t.drop_last());
        assert(t[t.len() - 1] != '\n');
        assert(t.drop_last().push(t.last()) =~= t);
        let rest = split_newlines(t.drop_last());
        assert(rest.len() == 1 && rest.last() == t.drop_last());
        assert(split_newlines(t) == rest.update(rest.len() - 1, rest.last().push(t.last())));
        assert(rest.update(0, t) =~= seq![t]);
    } else {
        assert(t =~= Seq::<char>::empty());
    }
}

/// A newline followed by a text without newlines adds that text as a piece.
proof fn lemma_split_append(s: Seq<char>, t: Seq<char>)
    requires
        no_newline(t),
    ensures
        split_newlines(s + seq!['\n'] + t) == split_newlines(s).push(t),
    decreases t.len(),
{
    let u = s + seq!['\n'] + t;
    if t.len() == 0 {
        assert(t =~= Seq::<char>::empty());
        assert(u =~= s.push('\n'));
        assert(split_newlines(u) == split_newlines(u.drop_last()).push(Seq::<char>::empty()));
        assert(u.drop_last() =~= s);
        assert(u.len() > 0 && u.last() == '\n');
    } else {
        assert(no_newline(t.drop_last()));
        lemma_split_append(s, t.drop_last());
        assert(u.drop_last() =~= s + seq!['\n'] + t.drop_last());
        assert(u.last() == t[t.len() - 1]);
        assert(t[t.len() - 1] != '\n');
        let rest = split_newlines(s).push(t.drop_last());
        assert(t.drop_last().push(t.last()) =~= t);
        assert(split_newlines(u) == rest.update(rest.len() - 1, rest.last().push(u.last())));
        assert(rest.update(rest.len() - 1, t) =~= split_newlines(s).push(t));
    }
}

/// Cutting lines without newlines joined by newlines gives them back.
proof fn lemma_split_join(lines: Seq<Seq<char>>)
    requires
        lines.len() > 0,
        forall|i: int| 0 <= i < lines.len() ==> no_newline(#[trigger] lines[i]),
    ensures
        split_newlines(join_spec(lines, seq!['\n'])) == lines,
    decreases lines.len(),
{
    if lines.len() == 1 {
        assert(no_newline(lines[0]));
        lemma_split_single(lines[0]);
        assert(seq![lines[0]] == lines);
    } else {
        let init = lines.drop_last();
        assert forall|i: int| 0 <= i < init.len() implies no_newline(#[trigger] init[i]) by {
            assert(no_newline(lines[i]));
        }
        lemma_split_join(init);
        assert(no_newline(lines[lines.len() - 1]));
        lemma_split_append(join_spec(init, seq!['\n']), lines.last());
        assert(init.push(lines.last()) == lines);
    }
}

/// Lines that are non-empty and trimmed are kept as they are.
proof fn lemma_trimmed_fixed(lines: Seq<Seq<char>>)
    requires
        forall|i: int|
            0 <= i < lines.len() ==> (#[trigger] lines[i]).len() > 0 && trim_spec(lines[i])
                == lines[i],
    ensures
        trimmed_non_empty(lines) == lines,
    decreases lines.len(),
{
    if lines.len() > 0 {
        let init = lines.drop_last();
        assert forall|i: int| 0 <= i < init.len() implies (#[trigger] init[i]).len() > 0
            && trim_spec(init[i]) == init[i] by {
            assert(lines[i].len() > 0);
        }
        lemma_trimmed_fixed(init);
        assert(lines[lines.len() - 1].len() > 0);
        assert(init.push(lines.last()) == lines);
    }
}

/// Whether `s` is made of white space other than newlines (such as the
/// `\r` of a Windows line ending).
pub open spec fn is_padding(s: Seq<char>) -> bool {
    forall|k: int| 0 <= k < s.len() ==> is_white_space(#[trigger] s[k]) && s[k] != '\n'
}

/// Whether `s` is a line as `non_empty_lines` gives it: not empty, without
/// newlines, and neither starting nor ending with white space.
pub open spec fn is_clean_line(s: Seq<char>) -> bool {
    &&& s.len() > 0
    &&& no_newline(s)
    &&& !is_white_space(s[0])
    &&& !is_white_space(s.last())
}

/// Lines padded on either side with white space (a Windows `\r`, indentation,
/// trailing blanks) and joined with newlines come back as the lines
/// themselves, in order: padding is trimmed, never a reason to drop a line.
pub proof fn law_padded_lines_come_back(
    lines: Seq<Seq<char>>,
    before: Seq<Seq<char>>,
    after: Seq<Seq<char>>,
)
    requires
        before.len() == lines.len(),
        after.len() == lines.len(),
        forall|i: int| 0 <= i < lines.len() ==> is_clean_line(#[trigger] lines[i]),
        forall|i: int| 0 <= i < lines.len() ==> is_padding(#[trigger] before[i]),
        forall|i: int| 0 <= i < lines.len() ==> is_padding(#[trigger] after[i]),
    ensures
        non_empty_lines_spec(
            join_spec(
                Seq::new(lines.len(), |i: int| before[i] + lines[i] + after[i]),
                seq!['\n'],
            ),
        ) == lines,
{
    let padded = Seq::new(lines.len(), |i: int| before[i] + lines[i] + after[i]);
    if lines.len() == 0 {
        let e = Seq::<char>::empty();
        assert(padded =~= Seq::<Seq<char>>::empty());
        assert(join_spec(padded, seq!['\n']) == e);
        assert(split_newlines(e) == seq![e]);
        assert(trim_spec(e) == e);
        assert(seq![e].drop_last() =~= Seq::<Seq<char>>::empty());
        assert(trimmed_non_empty(seq![e]) == trimmed_non_empty(Seq::<Seq<char>>::empty()));
        assert(lines =~= Seq::<Seq<char>>::empty());
    } else {
        assert forall|i: int| 0 <= i < padded.len() implies no_newline(#[trigger] padded[i])
            && trim_spec(padded[i]) == lines[i] by {
            let x = lines[i];
            assert(is_clean_line(x));
            assert(is_padding(before[i]));
            assert(is_padding(after[i]));
            assert(padded[i] == before[i] + x + after[i]);
            assert forall|k: int| 0 <= k < padded[i].len() implies padded[i][k] != '\n' by {
                if k < before[i].len() {
                    assert(before[i][k] != '\n');
                } else if k < before[i].len() + x.len() {
                    assert(padded[i][k] == x[k - before[i].len()]);
                } else {
                    assert(padded[i][k] == after[i][k - before[i].len() - x.len()]);
                }
            }
            lemma_trim_padded(before[i], x, after[i]);
        }
        lemma_split_join(padded);
        lemma_trimmed_to(padded, lines);
    }
}

/// Trimming a clean line padded with white space gives the line.
proof fn lemma_trim_padded(before: Seq<char>, x: Seq<char>, after: Seq<char>)
    requires
        is_padding(before),
        is_padding(after),
        x.len() > 0,
        !is_white_space(x[0]),
        !is_white_space(x.last()),
    ensures
        trim_spec(before + x + after) == x,
{
    assert(before + x + after =~= before + (x + after));
    lemma_drop_padding_front(before, x + after);
    lemma_drop_padding_back(x, after);
}

proof fn lemma_drop_padding_front(before: Seq<char>, y: Seq<char>)
    requires
        is_padding(before),
        y.len() > 0,
        !is_white_space(y[0]),
    ensures
        drop_front_while(before + y, CharClass::WhiteSpace) == y,
    decreases before.len(),
{
    if before.len() == 0 {
        assert(before + y =~= y);
    } else {
        assert(is_white_space(before[0]));
        assert((before + y)[0] == before[0]);
        assert((before + y).drop_first() =~= before.drop_first() + y);
        assert forall|k: int| 0 <= k < before.drop_first().len() implies is_white_space(
            #[trigger] before.drop_first()[k],
        ) && before.drop_first()[k] != '\n' by {
            assert(before.drop_first()[k] == before[k + 1]);
        }
        lemma_drop_padding_front(before.drop_first(), y);
    }
}

proof fn lemma_drop_padding_back(y: Seq<char>, after: Seq<char>)
    requires
        is_padding(after),
        y.len() > 0,
        !is_white_space(y.last()),
    ensures
        drop_back_while(y + after, CharClass::WhiteSpace) == y,
    decreases after.len(),
{
    if after.len() == 0 {
        assert(y + after =~= y);
    } else {
        assert(is_white_space(after[after.len() - 1]));
        assert((y + after).last() == after.last());
        assert((y + after).drop_last() =~= y + after.drop_last());
        assert forall|k: int| 0 <= k < after.drop_last().len() implies is_white_space(
            #[trigger] after.drop_last()[k],
        ) && after.drop_last()[k] != '\n' by {
            assert(after.drop_last()[k] == after[k]);
        }
        lemma_drop_padding_back(y, after.drop_last());
    }
}

/// Pieces whose trims are the given non-empty lines keep exactly those trims.
proof fn lemma_trimmed_to(pieces: Seq<Seq<char>>, lines: Seq<Seq<char>>)
    requires
        pieces.len() == lines.len(),
        forall|i: int|
            0 <= i < pieces.len() ==> trim_spec(#[trigger] pieces[i]) == lines[i] && lines[i].len()
                > 0,
    ensures
        trimmed_non_empty(pieces) == lines,
    decreases pieces.len(),
{
    if pieces.len() > 0 {
        let pi = pieces.drop_last();
        let li = lines.drop_last();
        assert forall|i: int| 0 <= i < pi.len() implies trim_spec(#[trigger] pi[i]) == li[i]
            && li[i].len() > 0 by {
            assert(pi[i] == pieces[i]);
            assert(trim_spec(pieces[i]) == lines[i]);
        }
        lemma_trimmed_to(pi, li);
        assert(trim_spec(pieces[pieces.len() - 1]) == lines[lines.len() - 1]);
        assert(li.push(lines.last()) =~= lines);
    }
}

} // verus!
