use vstd::prelude::*;

use crate::name::{Id, NameMap};
use crate::text::{string_push, string_push_str};

verus! {

/// Lines are kept under this many bytes where a token allows.
pub const MAX_COL: usize = 120;

/// Spaces per level of indentation.
pub const INDENT: usize = 2;

/// Nesting at which constructs stop starting on lines of their own.
pub const NEWLINE_MAX_INDENT: usize = 8;

/// Session files give coordinates in units of 1 / 100000 mm.
pub const MM_RESOLUTION: usize = 100000;

/// `n` spaces.
pub open spec fn spaces(n: nat) -> Seq<char> {
    Seq::new(n, |i: int| ' ')
}

/// Lays out the text of a Specctra session file: parenthesised constructs,
/// nested and indented, made of space-separated tokens.
pub struct SessionWriter {
    s: String,
    indent: usize,
    col: usize,
}

impl SessionWriter {
    /// The text written so far.
    pub closed spec fn spec_text(&self) -> Seq<char> {
        self.s@
    }

    /// The current depth of nesting.
    pub closed spec fn spec_indent(&self) -> nat {
        self.indent as nat
    }

    /// The column that the writer counts itself at. It is never advanced, so
    /// it stays 0 and the line-length check in `append` never fires.
    pub closed spec fn spec_col(&self) -> nat {
        self.col as nat
    }

    /// Well-formedness: the column is 0.
    pub open spec fn wf(&self) -> bool {
        self.spec_col() == 0
    }

    /// A writer with no text, at depth 0.
    pub fn new() -> (w: Self)
        ensures
            w.wf(),
            w.spec_text() == Seq::<char>::empty(),
            w.spec_indent() == 0,
    {
        SessionWriter { s: String::new(), indent: 0, col: 0 }
    }

    /// The text written.
    pub fn finish(self) -> (s: String)
        ensures
            s@ == self.spec_text(),
    {
        self.s
    }

    /// Starts a new line, indented for the current depth less one.
    fn newline(&mut self)
        requires
            old(self).spec_indent() >= 1,
            (old(self).spec_indent() - 1) * INDENT <= usize::MAX,
        ensures
            final(self).spec_text() == old(self).spec_text() + seq!['\n'] + spaces(
                ((old(self).spec_indent() - 1) * INDENT) as nat,
            ),
            final(self).spec_indent() == old(self).spec_indent(),
            final(self).spec_col() == old(self).spec_col(),
    {
        string_push(&mut self.s, '\n');
        let n = (self.indent - 1) * INDENT;
        let ghost base = self.s@;
        let mut k: usize = 0;
        while k < n
            invariant
                k <= n,
                self.s@ == base + spaces(k as nat),
                self.indent == old(self).indent,
                self.col == old(self).col,
            decreases n - k,
        {
            string_push(&mut self.s, ' ');
            assert(spaces((k + 1) as nat) =~= spaces(k as nat).push(' '));
            assert(self.s@ =~= base + spaces((k + 1) as nat));
            k = k + 1;
        }
        assert(self.s@ =~= old(self).s@ + seq!['\n'] + spaces(n as nat));
    }

    /// Appends `t`; a short token that would run past `MAX_COL` first starts
    /// a new line.
    fn append(&mut self, t: &str)
        requires
            old(self).wf(),
        ensures
            final(self).wf(),
            final(self).spec_text() == old(self).spec_text() + t@,
            final(self).spec_indent() == old(self).spec_indent(),
    {
        if t.len() < MAX_COL && self.col + t.len() > MAX_COL {
            // Never taken: the column stays 0.
            self.newline();
        }
        string_push_str(&mut self.s, t);
    }

    /// Appends a space and then `t`.
    pub fn token(&mut self, t: &str)
        requires
            old(self).wf(),
        ensures
            final(self).wf(),
            final(self).spec_text() == old(self).spec_text() + " "@ + t@,
            final(self).spec_indent() == old(self).spec_indent(),
    {
        self.append(" ");
        self.append(t);
    }

    /// Appends a space and `name` in double quotes.
    pub fn name(&mut self, name: &str)
        requires
            old(self).wf(),
        ensures
            final(self).wf(),
            final(self).spec_text() == old(self).spec_text() + " "@ + "\""@ + name@ + "\""@,
            final(self).spec_indent() == old(self).spec_indent(),
    {
        let mut q = "\"".to_owned();
        string_push_str(&mut q, name);
        string_push_str(&mut q, "\"");
        self.token(q.as_str());
        assert(self.spec_text() =~= old(self).spec_text() + " "@ + "\""@ + name@ + "\""@);
    }

    /// Appends the name that `id` stands for, quoted.
    pub fn id(&mut self, names: &NameMap, id: Id)
        requires
            old(self).wf(),
            id < names@.len(),
        ensures
            final(self).wf(),
            final(self).spec_text() == old(self).spec_text() + " "@ + "\""@ + names@[id as int]
                + "\""@,
            final(self).spec_indent() == old(self).spec_indent(),
    {
        self.name(names.name(id));
    }

    /// Appends the side: `back` or `front`.
    pub fn side(&mut self, back: bool)
        requires
            old(self).wf(),
        ensures
            final(self).wf(),
            final(self).spec_text() == old(self).spec_text() + " "@ + (if back {
                "back"@
            } else {
                "front"@
            }),
            final(self).spec_indent() == old(self).spec_indent(),
    {
        let side = if back {
            "back"
        } else {
            "front"
        };
        self.token(side);
    }

    /// Opens the construct `name` one level deeper; below the top level, and
    /// above `NEWLINE_MAX_INDENT`, it starts on a line of its own.
    pub fn begin(&mut self, name: &str)
        requires
            old(self).wf(),
            old(self).spec_indent() < usize::MAX,
        ensures
            final(self).wf(),
            final(self).spec_indent() == old(self).spec_indent() + 1,
            final(self).spec_text() == old(self).spec_text() + (if old(self).spec_indent() + 1 != 1
                && old(self).spec_indent() + 1 < NEWLINE_MAX_INDENT {
                seq!['\n'] + spaces((old(self).spec_indent() * INDENT) as nat)
            } else {
                Seq::<char>::empty()
            }) + "("@ + name@,
    {
        self.indent += 1;
        let ghost mid = self.s@;
        if self.indent != 1 && self.indent < NEWLINE_MAX_INDENT {
            self.newline();
        }
        self.append("(");
        self.append(name);
        assert(self.spec_text() =~= old(self).spec_text() + (if old(self).spec_indent() + 1 != 1
            && old(self).spec_indent() + 1 < NEWLINE_MAX_INDENT {
            seq!['\n'] + spaces((old(self).spec_indent() * INDENT) as nat)
        } else {
            Seq::<char>::empty()
        }) + "("@ + name@);
    }

    /// Closes the innermost construct.
    pub fn end(&mut self)
        requires
            old(self).wf(),
            old(self).spec_indent() >= 1,
        ensures
            final(self).wf(),
            final(self).spec_indent() == old(self).spec_indent() - 1,
            final(self).spec_text() == old(self).spec_text() + ")"@,
    {
        self.append(")");
        self.indent -= 1;
    }

    /// Writes `(resolution mm 100000)` at the next level.
    pub fn resolution(&mut self)
        requires
            old(self).wf(),
            old(self).spec_indent() < usize::MAX,
        ensures
            final(self).wf(),
            final(self).spec_indent() == old(self).spec_indent(),
            final(self).spec_text() == old(self).spec_text() + (if old(self).spec_indent() + 1 != 1
                && old(self).spec_indent() + 1 < NEWLINE_MAX_INDENT {
                seq!['\n'] + spaces((old(self).spec_indent() * INDENT) as nat)
            } else {
                Seq::<char>::empty()
            }) + "("@ + "resolution"@ + " "@ + "mm"@ + " "@ + "100000"@ + ")"@,
    {
        self.begin("resolution");
        self.token("mm");
        self.token("100000");
        self.end();
        assert(self.spec_text() =~= old(self).spec_text() + (if old(self).spec_indent() + 1 != 1
            && old(self).spec_indent() + 1 < NEWLINE_MAX_INDENT {
            seq!['\n'] + spaces((old(self).spec_indent() * INDENT) as nat)
        } else {
            Seq::<char>::empty()
        }) + "("@ + "resolution"@ + " "@ + "mm"@ + " "@ + "100000"@ + ")"@);
    }
}

} // verus!
