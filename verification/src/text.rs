//! Line-oriented text handling: splitting a document into lines and
//! stripping the leading frontmatter block from a markdown source.

use vstd::prelude::*;
use vstd::string::StrSliceExecFns;
use vstd::string::StringExecFns;

verus! {

/// The frontmatter delimiter line, `---`.
pub open spec fn dashes() -> Seq<char> {
    seq!['-', '-', '-']
}

/// Split a character sequence at every newline. The result always has at
/// least one element; a trailing newline yields a trailing empty line.
pub open spec fn line_split(s: Seq<char>) -> Seq<Seq<char>>
    decreases s.len(),
{
    if s.len() == 0 {
        seq![Seq::<char>::empty()]
    } else if s[0] == '\n' {
        seq![Seq::<char>::empty()] + line_split(s.drop_first())
    } else {
        let rest = line_split(s.drop_first());
        seq![seq![s[0]] + rest[0]] + rest.drop_first()
    }
}

pub proof fn lemma_line_split_len(s: Seq<char>)
    ensures
        line_split(s).len() >= 1,
    decreases s.len(),
{
    if s.len() != 0 {
        lemma_line_split_len(s.drop_first());
    }
}

/// A sequence without newlines splits into itself alone.
pub proof fn lemma_line_split_no_newline(s: Seq<char>)
    requires
        forall|i: int| 0 <= i < s.len() ==> s[i] != '\n',
    ensures
        line_split(s) =~~= seq![s],
    decreases s.len(),
{
    if s.len() == 0 {
        assert(s =~= Seq::<char>::empty());
    } else {
        lemma_line_split_no_newline(s.drop_first());
        lemma_line_split_len(s.drop_first());
        assert(line_split(s.drop_first())[0] == s.drop_first());
        assert(seq![s[0]] + s.drop_first() =~= s);
    }
}

/// Splitting at the first newline: the newline-free prefix becomes one
/// line, and the remainder splits on its own.
pub proof fn lemma_line_split_concat(x: Seq<char>, y: Seq<char>)
    requires
        forall|i: int| 0 <= i < x.len() ==> x[i] != '\n',
    ensures
        line_split(x + seq!['\n'] + y) =~~= seq![x] + line_split(y),
    decreases x.len(),
{
    let s = x + seq!['\n'] + y;
    if x.len() == 0 {
        assert(s[0] == '\n');
        assert(s.drop_first() =~= y);
    } else {
        assert(s[0] == x[0]);
        assert(s.drop_first() =~= x.drop_first() + seq!['\n'] + y);
        lemma_line_split_concat(x.drop_first(), y);
        lemma_line_split_len(y);
        let rest = line_split(s.drop_first());
        assert(rest[0] == x.drop_first());
        assert(seq![s[0]] + x.drop_first() =~= x);
        assert(rest.drop_first() =~~= line_split(y));
    }
}

/// Join lines with a newline separator, skipping empty lines entirely: no
/// separator is placed next to a dropped empty line.
pub open spec fn join_nonempty(lines: Seq<Seq<char>>) -> Seq<char>
    decreases lines.len(),
{
    if lines.len() == 0 {
        Seq::empty()
    } else {
        let first = lines[0];
        let rest = join_nonempty(lines.drop_first());
        if first.len() == 0 {
            rest
        } else if rest.len() == 0 {
            first
        } else {
            first + seq!['\n'] + rest
        }
    }
}

/// An accumulator joined to the remaining lines: a separator stands
/// between them only when both sides are nonempty.
pub open spec fn join_acc(acc: Seq<char>, rest: Seq<char>) -> Seq<char> {
    if acc.len() > 0 && rest.len() > 0 {
        acc + seq!['\n'] + rest
    } else {
        acc + rest
    }
}

/// Drop lines up to and including the first delimiter line, for the tail
/// of a document whose first line opened a frontmatter block.
pub open spec fn strip_after_open(lines: Seq<Seq<char>>) -> Seq<Seq<char>>
    decreases lines.len(),
{
    if lines.len() == 0 {
        Seq::empty()
    } else if lines[0] == dashes() {
        lines.drop_first()
    } else {
        strip_after_open(lines.drop_first())
    }
}

/// The lines that survive frontmatter removal. When the document does not
/// open with a delimiter line, only its first line is consumed; when it
/// does, everything up to and including the closing delimiter is consumed;
/// an unclosed block consumes the whole document.
pub open spec fn body_lines(lines: Seq<Seq<char>>) -> Seq<Seq<char>> {
    if lines.len() == 0 {
        Seq::empty()
    } else if lines[0] != dashes() {
        lines.drop_first()
    } else {
        strip_after_open(lines.drop_first())
    }
}

/// What frontmatter removal returns for a whole document.
pub open spec fn remove_frontmatter_spec(s: Seq<char>) -> Seq<char> {
    join_nonempty(body_lines(line_split(s)))
}

/// Split a string into its lines.
pub fn split_lines(s: &str) -> (lines: Vec<String>)
    ensures
        lines.deep_view() =~~= line_split(s@),
{
    let n = s.unicode_len();
    let mut out: Vec<String> = Vec::new();
    let mut start: usize = 0;
    let mut i: usize = 0;
    proof {
        assert(s@.skip(0) =~= s@);
        assert(out.deep_view() =~~= Seq::<Seq<char>>::empty());
        assert(Seq::<Seq<char>>::empty() + line_split(s@) =~~= line_split(s@));
    }
    while i < n
        invariant
            start <= i <= n,
            n == s@.len(),
            forall|j: int| start <= j < i ==> s@[j] != '\n',
            line_split(s@) =~~= out.deep_view() + line_split(s@.skip(start as int)),
        decreases n - i,
    {
        let ghost old_out = out.deep_view();
        let c = s.get_char(i);
        if c == '\n' {
            let piece = s.substring_char(start, i).to_owned();
            proof {
                lemma_line_split_concat(
                    s@.subrange(start as int, i as int),
                    s@.skip(i as int + 1),
                );
                assert(s@.skip(start as int) =~= s@.subrange(start as int, i as int)
                    + seq!['\n'] + s@.skip(i as int + 1));
            }
            out.push(piece);
            proof {
                assert(out.deep_view() =~~= old_out.push(piece@));
                assert(old_out.push(piece@) + line_split(s@.skip(i as int + 1))
                    =~~= old_out + (seq![piece@] + line_split(s@.skip(i as int + 1))));
            }
            start = i + 1;
        }
        i = i + 1;
    }
    let ghost old_out = out.deep_view();
    let piece = s.substring_char(start, n).to_owned();
    proof {
        lemma_line_split_no_newline(s@.subrange(start as int, n as int));
        assert(s@.skip(start as int) =~= s@.subrange(start as int, n as int));
    }
    out.push(piece);
    proof {
        assert(out.deep_view() =~~= old_out.push(piece@));
        assert(old_out + seq![piece@] =~~= old_out.push(piece@));
    }
    out
}

/// Whether a line is exactly the delimiter `---`.
fn is_dashes(line: &String) -> (r: bool)
    ensures
        r == (line@ == dashes()),
{
    let s = line.as_str();
    if s.unicode_len() != 3 {
        return false;
    }
    let r = s.get_char(0) == '-' && s.get_char(1) == '-' && s.get_char(2) == '-';
    proof {
        if r {
            assert(line@ =~= dashes());
        }
    }
    r
}

/// Remove the leading frontmatter block from a markdown document: the
/// lines up to and including the closing delimiter are dropped, the rest
/// are joined with single newlines, with empty lines collapsed.
pub fn remove_frontmatter(markdown_file_content: &str) -> (cleaned: String)
    ensures
        cleaned@ == remove_frontmatter_spec(markdown_file_content@),
{
    let lines = split_lines(markdown_file_content);
    let ghost ls = lines.deep_view();
    proof {
        lemma_line_split_len(markdown_file_content@);
    }
    let total = lines.len();
    let mut cut: usize;
    if !is_dashes(&lines[0]) {
        cut = 1;
        proof {
            assert(body_lines(ls) =~~= ls.skip(1));
        }
    } else {
        cut = total;
        let mut found: bool = false;
        let mut j: usize = 1;
        while j < total
            invariant
                1 <= j <= total,
                total == ls.len(),
                ls == lines.deep_view(),
                !found ==> cut == total && strip_after_open(ls.drop_first())
                    =~~= strip_after_open(ls.skip(j as int)),
                found ==> cut <= total && strip_after_open(ls.drop_first())
                    =~~= ls.skip(cut as int),
            decreases total - j,
        {
            if !found {
                proof {
                    assert(ls.skip(j as int)[0] == ls[j as int]);
                    assert(ls.skip(j as int).drop_first() =~~= ls.skip(j as int + 1));
                }
                if is_dashes(&lines[j]) {
                    cut = j + 1;
                    found = true;
                } else {
                }
            }
            j = j + 1;
        }
        proof {
            if !found {
                assert(ls.skip(total as int) =~~= Seq::<Seq<char>>::empty());
                assert(strip_after_open(ls.skip(total as int)) =~~= ls.skip(cut as int));
            }
            assert(ls.drop_first() =~~= ls.skip(1));
            assert(body_lines(ls) =~~= ls.skip(cut as int));
        }
    }
    let mut acc = String::new();
    let mut j: usize = cut;
    proof {
        assert(Seq::<char>::empty() + join_nonempty(ls.skip(cut as int))
            =~= join_nonempty(ls.skip(cut as int)));
    }
    while j < total
        invariant
            cut <= j <= total,
            total == ls.len(),
            ls == lines.deep_view(),
            join_nonempty(ls.skip(cut as int)) =~= join_acc(
                acc@,
                join_nonempty(ls.skip(j as int)),
            ),
        decreases total - j,
    {
        let ghost l = ls[j as int];
        let ghost r = join_nonempty(ls.skip(j as int + 1));
        proof {
            assert(ls.skip(j as int)[0] == l);
            assert(ls.skip(j as int).drop_first() =~~= ls.skip(j as int + 1));
            assert(join_nonempty(ls.skip(j as int)) == if l.len() == 0 {
                r
            } else if r.len() == 0 {
                l
            } else {
                l + seq!['\n'] + r
            });
        }
        let line = &lines[j];
        if !line.as_str().is_empty() {
            let ghost a = acc@;
            if !acc.as_str().is_empty() {
                acc.append("\n");
                proof {
                    reveal_strlit("\n");
                    assert(("\n")@ =~= seq!['\n']);
                }
            }
            acc.append(line.as_str());
            proof {
                if a.len() == 0 {
                    assert(acc@ =~= l);
                    if r.len() == 0 {
                        assert(l + Seq::<char>::empty() =~= l);
                    }
                } else {
                    assert(acc@ =~= a + seq!['\n'] + l);
                    if r.len() == 0 {
                        assert(acc@ + Seq::<char>::empty() =~= acc@);
                        assert(join_acc(a, l) =~= acc@);
                    } else {
                        assert(a + seq!['\n'] + (l + seq!['\n'] + r)
                            =~= (a + seq!['\n'] + l) + seq!['\n'] + r);
                    }
                }
            }
        }
        j = j + 1;
    }
    proof {
        assert(ls.skip(total as int) =~~= Seq::<Seq<char>>::empty());
        assert(join_nonempty(ls.skip(total as int)).len() == 0);
        assert(acc@ + Seq::<char>::empty() =~= acc@);
        assert(acc@ =~= join_nonempty(ls.skip(cut as int)));
        assert(body_lines(line_split(markdown_file_content@)) =~~= ls.skip(cut as int));
    }
    acc
}

} // verus!
