//! One rewrite pass over a document.
//!
//! A document is rewritten in two passes: first every block directive,
//! then, over the text the first pass produced, every inline directive.
//! Within a pass the directives are resolved strictly left to right, and
//! replacement text is never rescanned by the same pass. The pass cannot
//! run the shell itself, so it works as a stepper: [`RewritePass::next_directive`]
//! yields the next payload, the caller produces the replacement text (by
//! running the command through the verified parsing and resolution
//! stages), and [`RewritePass::substitute`] splices it in.

use vstd::prelude::*;
use vstd::string::*;
use crate::scan::{DirectiveMatch, match_from, close_len, find_directive};

verus! {

/// A left-to-right match-and-replace traversal of one document text.
pub struct RewritePass {
    text: String,
    out: String,
    pos: usize,
    block: bool,
    pending: bool,
    found: Ghost<DirectiveMatch>,
}

impl RewritePass {
    /// The text the pass reads. It never changes.
    pub closed spec fn input(&self) -> Seq<char> {
        self.text@
    }

    /// The rewritten text produced so far.
    pub closed spec fn output(&self) -> Seq<char> {
        self.out@
    }

    /// How far the input has been consumed.
    pub closed spec fn scanned(&self) -> int {
        self.pos as int
    }

    /// Whether the pass looks for block directives (true) or inline ones.
    pub closed spec fn is_block(&self) -> bool {
        self.block
    }

    /// Whether a directive has been reported and awaits its replacement.
    pub closed spec fn awaiting(&self) -> bool {
        self.pending
    }

    /// The directive occurrence most recently reported.
    pub closed spec fn hit(&self) -> DirectiveMatch {
        self.found@
    }

    /// The consumed position never passes the end of the input.
    pub closed spec fn wf(&self) -> bool {
        self.pos <= self.text@.len()
    }

    /// Start a pass over `text`.
    pub fn new(text: &str, block: bool) -> (r: RewritePass)
        ensures
            r.wf(),
            r.input() == text@,
            r.output() == Seq::<char>::empty(),
            r.scanned() == 0,
            r.is_block() == block,
            !r.awaiting(),
    {
        RewritePass {
            text: text.to_owned(),
            out: String::new(),
            pos: 0,
            block,
            pending: false,
            found: Ghost(
                DirectiveMatch { start: 0, payload_start: 0, payload_end: 0, end: 0 },
            ),
        }
    }

    /// Advance to the next directive. The text between the consumed
    /// position and the directive is copied to the output unchanged, and
    /// the directive's payload is returned; the directive itself is
    /// consumed and awaits its replacement. When no directive is left the
    /// rest of the text is copied and the pass is done.
    pub fn next_directive(&mut self) -> (r: Option<String>)
        requires
            old(self).wf(),
            !old(self).awaiting(),
        ensures
            final(self).wf(),
            final(self).input() == old(self).input(),
            final(self).is_block() == old(self).is_block(),
            match r {
                Some(payload) => {
                    let m = final(self).hit();
                    &&& m.describes(old(self).input(), old(self).scanned(), old(self).is_block())
                    &&& payload@ == old(self).input().subrange(
                        m.payload_start as int,
                        m.payload_end as int,
                    )
                    &&& final(self).output() == old(self).output() + old(self).input().subrange(
                        old(self).scanned(),
                        m.start as int,
                    )
                    &&& final(self).scanned() == m.end
                    &&& final(self).awaiting()
                },
                None => {
                    &&& final(self).output() == old(self).output() + old(self).input().subrange(
                        old(self).scanned(),
                        old(self).input().len() as int,
                    )
                    &&& final(self).scanned() == old(self).input().len()
                    &&& !final(self).awaiting()
                    &&& (forall|s2: int, p2: int, e2: int|
                        old(self).scanned() <= s2 ==> !match_from(
                            old(self).input(),
                            s2,
                            p2,
                            e2,
                            old(self).is_block(),
                        ))
                },
            },
    {
        let found = find_directive(self.text.as_str(), self.pos, self.block);
        match found {
            Some(m) => {
                proof {
                    assert(m.end <= self.text@.len());
                }
                let between = self.text.as_str().substring_char(self.pos, m.start);
                self.out.append(between);
                let payload = self.text.as_str().substring_char(
                    m.payload_start,
                    m.payload_end,
                ).to_owned();
                self.pos = m.end;
                self.pending = true;
                self.found = Ghost(m);
                Some(payload)
            },
            None => {
                let n = self.text.as_str().unicode_len();
                let tail = self.text.as_str().substring_char(self.pos, n);
                self.out.append(tail);
                self.pos = n;
                None
            },
        }
    }

    /// Whether a reported directive still awaits its replacement: when
    /// this holds, the next call must be [`RewritePass::substitute`].
    pub fn is_awaiting(&self) -> (r: bool)
        ensures
            r == self.awaiting(),
    {
        self.pending
    }

    /// Whether the whole input has been consumed, so that the pass can be
    /// finished.
    pub fn is_done(&self) -> (r: bool)
        ensures
            r == (self.scanned() == self.input().len()),
    {
        self.pos == self.text.as_str().unicode_len()
    }

    /// Splice the replacement text of the directive most recently
    /// reported. The replacement is not rescanned by this pass.
    pub fn substitute(&mut self, replacement: &str)
        requires
            old(self).wf(),
            old(self).awaiting(),
        ensures
            final(self).wf(),
            final(self).input() == old(self).input(),
            final(self).is_block() == old(self).is_block(),
            final(self).scanned() == old(self).scanned(),
            final(self).output() == old(self).output() + replacement@,
            !final(self).awaiting(),
    {
        self.out.append(replacement);
        self.pending = false;
    }

    /// The rewritten document, once the whole input has been consumed.
    pub fn finish(self) -> (r: String)
        requires
            !self.awaiting(),
            self.scanned() == self.input().len(),
        ensures
            r@ == self.output(),
    {
        self.out
    }
}

} // verus!
