//! The line-buffer text model: a document is an ordered sequence of lines,
//! each line a sequence of Unicode scalar values. A document is loaded by
//! splitting file content on line feeds and saved by joining its lines with
//! single line feeds.

use vstd::prelude::*;

verus! {

/// The lines a text splits into on the line-feed character, processed from
/// the back: an empty text is one empty line, a trailing line feed opens a
/// new empty line, and any other trailing character extends the last line.
pub open spec fn split_lines(s: Seq<char>) -> Seq<Seq<char>>
    decreases s.len(),
{
    if s.len() == 0 {
        seq![Seq::<char>::empty()]
    } else {
        let r = split_lines(s.drop_last());
        if s.last() == '\n' {
            r.push(Seq::<char>::empty())
        } else {
            r.update(r.len() - 1, r.last().push(s.last()))
        }
    }
}

/// The text the given lines form when joined with single line feeds
/// (no line feed after the last line).
pub open spec fn join_lines(ls: Seq<Seq<char>>) -> Seq<char>
    decreases ls.len(),
{
    if ls.len() == 0 {
        Seq::<char>::empty()
    } else if ls.len() == 1 {
        ls[0]
    } else {
        join_lines(ls.drop_last()) + seq!['\n'] + ls.last()
    }
}

/// A split always yields at least one line.
pub proof fn lemma_split_lines_nonempty(s: Seq<char>)
    ensures
        split_lines(s).len() >= 1,
    decreases s.len(),
{
    if s.len() > 0 {
        lemma_split_lines_nonempty(s.drop_last());
    }
}

/// Splitting a text on line feeds and joining the pieces back with line
/// feeds reproduces the text exactly, whatever it holds — in particular a
/// trailing line feed becomes a final empty line and is restored by the
/// join.
pub proof fn lemma_join_split_roundtrip(s: Seq<char>)
    ensures
        join_lines(split_lines(s)) == s,
    decreases s.len(),
{
    if s.len() == 0 {
        assert(join_lines(split_lines(s)) =~= s);
    } else {
        let t = s.drop_last();
        let c = s.last();
        lemma_join_split_roundtrip(t);
        lemma_split_lines_nonempty(t);
        let r = split_lines(t);
        if c == '\n' {
            let r2 = r.push(Seq::<char>::empty());
            assert(r2.drop_last() =~= r);
            assert(join_lines(r2) =~= s);
        } else {
            let r2 = r.update(r.len() - 1, r.last().push(c));
            if r.len() == 1 {
                assert(join_lines(r2) == r2[0]);
                assert(r2[0] =~= s);
            } else {
                assert(r2.drop_last() =~= r.drop_last());
                assert(r2.last() == r.last().push(c));
                assert(join_lines(r2) == join_lines(r.drop_last()) + seq!['\n']
                    + r.last().push(c));
                assert(join_lines(r) == join_lines(r.drop_last()) + seq!['\n'] + r.last());
                assert(join_lines(r2) =~= join_lines(r).push(c));
                assert(join_lines(r).push(c) =~= s);
            }
        }
    }
}

/// A document: at least one line, each line a sequence of scalar values.
pub struct Document {
    pub lines: Vec<Vec<char>>,
}

impl View for Document {
    type V = Seq<Seq<char>>;

    open spec fn view(&self) -> Seq<Seq<char>> {
        Seq::new(self.lines@.len(), |i: int| self.lines@[i]@)
    }
}

impl Document {
    /// A document never runs out of lines.
    pub open spec fn wf(&self) -> bool {
        self@.len() >= 1
    }

    /// Builds the document a file's content loads into: the content split
    /// on line feeds.
    pub fn from_content(content: &Vec<char>) -> (d: Document)
        ensures
            d@ == split_lines(content@),
            d.wf(),
    {
        let mut lines: Vec<Vec<char>> = Vec::new();
        let mut cur: Vec<char> = Vec::new();
        let mut i: usize = 0;
        while i < content.len()
            invariant
                i <= content@.len(),
                Seq::new(lines@.len(), |k: int| lines@[k]@).push(cur@) == split_lines(
                    content@.take(i as int),
                ),
            decreases content@.len() - i,
        {
            let ghost prefix = content@.take(i as int);
            let c = content[i];
            if c == '\n' {
                lines.push(cur);
                cur = Vec::new();
            } else {
                cur.push(c);
            }
            i = i + 1;
            proof {
                let next = content@.take(i as int);
                assert(next.drop_last() =~= prefix);
                assert(next.last() == c);
                lemma_split_lines_nonempty(prefix);
                assert(Seq::new(lines@.len(), |k: int| lines@[k]@).push(cur@) =~= split_lines(
                    next,
                ));
            }
        }
        lines.push(cur);
        proof {
            assert(content@.take(content@.len() as int) =~= content@);
            lemma_split_lines_nonempty(content@);
        }
        let d = Document { lines };
        proof {
            assert(d@ =~= split_lines(content@));
        }
        d
    }

    /// Produces the content a save writes: the lines joined with single
    /// line feeds, nothing appended after the last line.
    pub fn to_content(&self) -> (out: Vec<char>)
        requires
            self.wf(),
        ensures
            out@ == join_lines(self@),
    {
        let mut out: Vec<char> = Vec::new();
        let mut i: usize = 0;
        while i < self.lines.len()
            invariant
                i <= self.lines@.len(),
                self.wf(),
                out@ == join_lines(self@.take(i as int)),
            decreases self.lines@.len() - i,
        {
            let ghost prefix = self@.take(i as int);
            if i > 0 {
                out.push('\n');
            }
            let line = &self.lines[i];
            let mut j: usize = 0;
            let ghost base = out@;
            while j < line.len()
                invariant
                    j <= line@.len(),
                    out@ == base + line@.take(j as int),
                decreases line@.len() - j,
            {
                out.push(line[j]);
                proof {
                    assert(base + line@.take(j + 1) =~= (base + line@.take(j as int)).push(
                        line@[j as int],
                    ));
                }
                j = j + 1;
            }
            i = i + 1;
            proof {
                let next = self@.take(i as int);
                assert(next.drop_last() =~= prefix);
                assert(line@.take(line@.len() as int) =~= line@);
                assert(next.last() == self@[i - 1]);
                if i == 1 {
                    assert(out@ =~= join_lines(next));
                } else {
                    assert(out@ =~= join_lines(next));
                }
            }
        }
        proof {
            assert(self@.take(self@.len() as int) =~= self@);
        }
        out
    }

    /// How many lines the document holds.
    pub fn line_count(&self) -> (n: usize)
        ensures
            n == self@.len(),
    {
        self.lines.len()
    }

    /// The length, in scalar values, of the line at the given index.
    pub fn line_len(&self, i: usize) -> (n: usize)
        requires
            i < self@.len(),
        ensures
            n == self@[i as int].len(),
    {
        self.lines[i].len()
    }
}

} // verus!
