use vstd::prelude::*;

verus! {

/// `s` repeated `n` times.
pub open spec fn repeat(s: Seq<char>, n: nat) -> Seq<char>
    decreases n,
{
    if n == 0 {
        Seq::empty()
    } else {
        repeat(s, (n - 1) as nat) + s
    }
}

/// The text written to the parent writer for `text`: every character that
/// starts a line (the first one when `at_line_start`, and every one that
/// follows a newline) is preceded by `prefix`.
pub open spec fn indent_text(text: Seq<char>, prefix: Seq<char>, at_line_start: bool) -> Seq<char>
    decreases text.len(),
{
    if text.len() == 0 {
        Seq::empty()
    } else {
        (if at_line_start {
            prefix
        } else {
            Seq::empty()
        }) + seq![text[0]] + indent_text(text.drop_first(), prefix, text[0] == '\n')
    }
}

/// Whether the writer stands at the start of a line after writing `text`.
pub open spec fn at_line_start_after(text: Seq<char>, at_line_start: bool) -> bool {
    if text.len() == 0 {
        at_line_start
    } else {
        text.last() == '\n'
    }
}

/// Indents every line written through it by `depth` copies of `indent`.
///
/// The writer keeps the indentation state; the caller forwards the text that
/// `write_str` returns to the parent writer.
pub struct IdentedWriter<'ident_string> {
    indent: &'ident_string str,
    depth: u32,
    needs_indent: bool,
}

impl<'ident_string> IdentedWriter<'ident_string> {
    pub closed spec fn spec_indent(&self) -> Seq<char> {
        self.indent@
    }

    pub closed spec fn spec_depth(&self) -> nat {
        self.depth as nat
    }

    /// Whether the next character written starts a line.
    pub closed spec fn spec_needs_indent(&self) -> bool {
        self.needs_indent
    }

    /// The full prefix put before each line.
    pub open spec fn prefix(&self) -> Seq<char> {
        repeat(self.spec_indent(), self.spec_depth())
    }

    pub fn new(depth: u32, indent: &'ident_string str, dont_indent_first_line: bool) -> (res: Self)
        ensures
            res.spec_indent() == indent@,
            res.spec_depth() == depth,
            res.spec_needs_indent() == !dont_indent_first_line,
    {
        IdentedWriter { indent, depth, needs_indent: !dont_indent_first_line }
    }

    pub fn needs_indent(&self) -> (res: bool)
        ensures
            res == self.spec_needs_indent(),
    {
        self.needs_indent
    }

    /// Indents `s` and returns the text to hand to the parent writer.
    pub fn write_str(&mut self, s: &str) -> (out: String)
        ensures
            out@ == indent_text(s@, old(self).prefix(), old(self).spec_needs_indent()),
            final(self).spec_needs_indent() == at_line_start_after(s@, old(self).spec_needs_indent()),
            final(self).spec_indent() == old(self).spec_indent(),
            final(self).spec_depth() == old(self).spec_depth(),
    {
        let mut prefix = String::new();
        let mut d: u32 = 0;
        while d < self.depth
            invariant
                d <= self.depth,
                prefix@ == repeat(self.indent@, d as nat),
            decreases self.depth - d,
        {
            prefix.append(self.indent);
            d = d + 1;
        }
        let ghost start = self.needs_indent;
        let n = s.unicode_len();
        let mut out = String::new();
        let mut i: usize = 0;
        proof {
            assert(s@.skip(0) =~= s@);
        }
        while i < n
            invariant
                n == s@.len(),
                i <= n,
                prefix@ == self.prefix(),
                self.indent == old(self).indent,
                self.depth == old(self).depth,
                out@ + indent_text(s@.skip(i as int), prefix@, self.needs_indent)
                    == indent_text(s@, prefix@, start),
                i == 0 ==> self.needs_indent == start,
                i > 0 ==> self.needs_indent == (s@[i - 1] == '\n'),
            decreases n - i,
        {
            let c = s.get_char(i);
            let ghost rest = s@.skip(i as int);
            proof {
                assert(rest[0] == c);
                assert(rest.drop_first() =~= s@.skip(i + 1));
            }
            let ghost before = out@;
            if self.needs_indent {
                out.append(prefix.as_str());
            }
            let one = s.substring_char(i, i + 1);
            proof {
                assert(one@ =~= seq![c]);
            }
            out.append(one);
            proof {
                let pre = if self.needs_indent { prefix@ } else { Seq::<char>::empty() };
                assert(indent_text(rest, prefix@, self.needs_indent)
                    == pre + seq![c] + indent_text(s@.skip(i + 1), prefix@, c == '\n'));
                assert(out@ + indent_text(s@.skip(i + 1), prefix@, c == '\n')
                    =~= before + (pre + seq![c] + indent_text(s@.skip(i + 1), prefix@, c == '\n')));
            }
            self.needs_indent = c == '\n';
            i = i + 1;
        }
        proof {
            assert(s@.skip(n as int) =~= Seq::<char>::empty());
            assert(out@ =~= out@ + indent_text(s@.skip(n as int), prefix@, self.needs_indent));
        }
        out
    }
}

} // verus!

verus! {

/// Writing `first` and then `second` sends the same text to the parent writer
/// as writing them at once: the indentation does not depend on how the text
/// is cut into writes.
pub proof fn law_writes_compose(first: Seq<char>, second: Seq<char>, prefix: Seq<char>, at_line_start: bool)
    ensures
        indent_text(first + second, prefix, at_line_start) == indent_text(first, prefix, at_line_start)
            + indent_text(second, prefix, at_line_start_after(first, at_line_start)),
        at_line_start_after(first + second, at_line_start) == at_line_start_after(
            second,
            at_line_start_after(first, at_line_start),
        ),
    decreases first.len(),
{
    if first.len() == 0 {
        assert(first + second =~= second);
    } else {
        let whole = first + second;
        assert(whole[0] == first[0]);
        assert(whole.drop_first() =~= first.drop_first() + second);
        law_writes_compose(first.drop_first(), second, prefix, first[0] == '\n');
        if first.len() == 1 {
            assert(first.drop_first() =~= Seq::<char>::empty());
        } else {
            assert(first.drop_first().last() == first.last());
        }
        if second.len() > 0 {
            assert(whole.last() == second.last());
        } else {
            assert(whole =~= first);
        }
        let pre = if at_line_start { prefix } else { Seq::<char>::empty() };
        assert(indent_text(whole, prefix, at_line_start) =~= pre + seq![first[0]] + indent_text(
            first.drop_first() + second, prefix, first[0] == '\n'));
    }
}

/// With no indentation, the text goes through unchanged.
pub proof fn law_no_indent_is_identity(text: Seq<char>, at_line_start: bool)
    ensures
        indent_text(text, Seq::empty(), at_line_start) == text,
    decreases text.len(),
{
    if text.len() > 0 {
        law_no_indent_is_identity(text.drop_first(), text[0] == '\n');
        assert(text =~= seq![text[0]] + text.drop_first());
        assert(Seq::<char>::empty() + seq![text[0]] =~= seq![text[0]]);
    }
}

/// An empty write sends nothing and keeps the state.
pub proof fn law_empty_write(prefix: Seq<char>, at_line_start: bool)
    ensures
        indent_text(Seq::empty(), prefix, at_line_start) == Seq::<char>::empty(),
        at_line_start_after(Seq::empty(), at_line_start) == at_line_start,
{
}

/// The pieces of `text` between newlines, as `str::split('\n')` gives them:
/// one more than there are newlines, some possibly empty.
pub open spec fn newline_parts(text: Seq<char>) -> Seq<Seq<char>>
    decreases text.len(),
{
    if text.len() == 0 {
        seq![Seq::empty()]
    } else if text[0] == '\n' {
        seq![Seq::<char>::empty()] + newline_parts(text.drop_first())
    } else {
        let rest = newline_parts(text.drop_first());
        rest.update(0, seq![text[0]] + rest[0])
    }
}

/// One piece as written: after the prefix when it starts a line, unless it is
/// the empty piece after a final newline.
pub open spec fn indented_part(part: Seq<char>, prefix: Seq<char>, at_line_start: bool, is_last: bool) -> Seq<char> {
    (if at_line_start && !(is_last && part.len() == 0) {
        prefix
    } else {
        Seq::empty()
    }) + part
}

/// The pieces written one after the other with a newline between each two;
/// the first starts a line when `at_line_start`, every later one does.
pub open spec fn joined_parts(parts: Seq<Seq<char>>, prefix: Seq<char>, at_line_start: bool) -> Seq<char>
    decreases parts.len(),
{
    if parts.len() <= 1 {
        indented_part(parts[0], prefix, at_line_start, true)
    } else {
        indented_part(parts[0], prefix, at_line_start, false) + seq!['\n'] + joined_parts(
            parts.drop_first(),
            prefix,
            true,
        )
    }
}

proof fn lemma_newline_parts_shape(text: Seq<char>)
    ensures
        newline_parts(text).len() >= 1,
        newline_parts(text).len() == 1 ==> forall|i: int| 0 <= i < text.len() ==> text[i] != '\n',
        newline_parts(text).last().len() == 0 <==> (text.len() == 0 || text.last() == '\n'),
    decreases text.len(),
{
    if text.len() > 0 {
        let rest = text.drop_first();
        lemma_newline_parts_shape(rest);
        if text.len() == 1 {
            assert(rest =~= Seq::<char>::empty());
        } else {
            assert(rest.last() == text.last());
        }
        if text[0] != '\n' && newline_parts(rest).len() == 1 {
            assert forall|i: int| 0 <= i < text.len() implies text[i] != '\n' by {
                if i > 0 {
                    assert(text[i] == rest[i - 1]);
                }
            }
        }
    }
}

/// Writing text sends, for each piece between its newlines, the piece after
/// the prefix when it starts a line (every piece but the first does, and the
/// first does when the writer stood at a line start), except for the empty
/// piece after a final newline; the pieces are joined by newlines. The writer
/// then stands at a line start exactly when the text ended with a newline, or
/// when the text was empty and it already stood at one.
pub proof fn law_split_form(text: Seq<char>, prefix: Seq<char>, at_line_start: bool)
    ensures
        indent_text(text, prefix, at_line_start) == joined_parts(newline_parts(text), prefix, at_line_start),
        at_line_start_after(text, at_line_start) == (if newline_parts(text).len() > 1 {
            newline_parts(text).last().len() == 0
        } else {
            at_line_start && text.len() == 0
        }),
    decreases text.len(),
{
    lemma_newline_parts_shape(text);
    if text.len() == 0 {
        assert(indented_part(Seq::empty(), prefix, at_line_start, true) =~= Seq::<char>::empty());
    } else {
        let rest = text.drop_first();
        let pre = if at_line_start { prefix } else { Seq::<char>::empty() };
        let r = newline_parts(rest);
        lemma_newline_parts_shape(rest);
        if text[0] == '\n' {
            law_split_form(rest, prefix, true);
            let parts = seq![Seq::<char>::empty()] + r;
            assert(parts.drop_first() =~= r);
            assert(indented_part(parts[0], prefix, at_line_start, false) =~= pre);
            assert(indent_text(text, prefix, at_line_start) =~= pre + seq!['\n'] + indent_text(rest, prefix, true));
        } else {
            law_split_form(rest, prefix, false);
            let parts = r.update(0, seq![text[0]] + r[0]);
            if r.len() == 1 {
                assert(joined_parts(r, prefix, false) =~= r[0]);
                assert(indented_part(parts[0], prefix, at_line_start, true) =~= pre + seq![text[0]] + r[0]);
            } else {
                assert(parts.drop_first() =~= r.drop_first());
                assert(indented_part(r[0], prefix, false, false) =~= r[0]);
                assert(indented_part(parts[0], prefix, at_line_start, false) =~= pre + seq![text[0]] + r[0]);
                assert(parts.last() == r.last());
            }
            assert(indent_text(text, prefix, at_line_start) == pre + seq![text[0]] + indent_text(rest, prefix, false));
            if text.len() == 1 {
                assert(rest =~= Seq::<char>::empty());
            } else {
                assert(rest.last() == text.last());
            }
        }
    }
}

} // verus!
