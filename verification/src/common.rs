//! The sink capability and the generic lazy-indent engine.
//!
//! The engine inserts a configurable run of spaces at the start of every
//! line it emits, materializing the indentation lazily: not when a line
//! break is written, but when the first character of the next line arrives.
//! A blank final line therefore never receives trailing indentation, and
//! indent-level changes take effect for the next line regardless of whether
//! they happen before or after the triggering line break.

use core::marker::PhantomData;

use vstd::prelude::*;

use crate::marker::IndentWriteMarker;

verus! {

/// A run of `n` space characters.
pub open spec fn spaces(n: nat) -> Seq<char> {
    Seq::new(n, |i: int| ' ')
}

/// The pending state after writing `text` starting from pending state `p`:
/// pending exactly when the most recently written character is a line break.
pub open spec fn pending_after(p: bool, text: Seq<char>) -> bool {
    if text.len() == 0 {
        p
    } else {
        text.last() == '\n'
    }
}

/// The characters the sink receives when `text` is written through the
/// lazy-indent engine with current indentation `indent` and pending state
/// `p`: before each character written while indentation is pending, the
/// full current indentation is emitted first.
pub open spec fn rendered(indent: Seq<char>, p: bool, text: Seq<char>) -> Seq<char>
    decreases text.len(),
{
    if text.len() == 0 {
        Seq::empty()
    } else {
        (if p {
            indent
        } else {
            Seq::empty()
        }) + seq![text[0]] + rendered(indent, text[0] == '\n', text.drop_first())
    }
}

/// Law: writing a string in one call emits exactly what writing it in any
/// two pieces emits, because the engine carries its pending state across
/// call boundaries. In particular a single multi-line write equals the
/// corresponding sequence of per-line writes.
pub proof fn lemma_rendered_concat(indent: Seq<char>, p: bool, s: Seq<char>, t: Seq<char>)
    ensures
        rendered(indent, p, s + t) == rendered(indent, p, s) + rendered(
            indent,
            pending_after(p, s),
            t,
        ),
    decreases s.len(),
{
    if s.len() == 0 {
        assert(s + t =~= t);
        assert(rendered(indent, p, s) + rendered(indent, pending_after(p, s), t) =~= rendered(
            indent,
            p,
            t,
        ));
    } else {
        let q = s[0] == '\n';
        assert((s + t)[0] == s[0]);
        assert((s + t).drop_first() =~= s.drop_first() + t);
        lemma_rendered_concat(indent, q, s.drop_first(), t);
        assert(pending_after(p, s) == pending_after(q, s.drop_first()));
        assert(rendered(indent, p, s + t) =~= rendered(indent, p, s) + rendered(
            indent,
            pending_after(p, s),
            t,
        ));
    }
}

/// Law: the output of a write ends with the last character written; in
/// particular, writing a string that ends in a line break never appends
/// indentation after that trailing break.
pub proof fn lemma_no_trailing_indent(indent: Seq<char>, p: bool, text: Seq<char>)
    requires
        text.len() > 0,
    ensures
        rendered(indent, p, text).len() > 0,
        rendered(indent, p, text).last() == text.last(),
    decreases text.len(),
{
    if text.len() == 1 {
        assert(rendered(indent, text[0] == '\n', text.drop_first()) =~= Seq::<char>::empty());
    } else {
        lemma_no_trailing_indent(indent, text[0] == '\n', text.drop_first());
        assert(text.drop_first().last() == text.last());
    }
}

/// Law: with no current indentation the engine is transparent; whatever the
/// pending state, the sink receives the written text unchanged. With an
/// indent step of zero this holds for every sequence of indent-level
/// changes.
pub proof fn lemma_rendered_empty_indent(p: bool, text: Seq<char>)
    ensures
        rendered(Seq::<char>::empty(), p, text) == text,
    decreases text.len(),
{
    if text.len() == 0 {
    } else {
        lemma_rendered_empty_indent(text[0] == '\n', text.drop_first());
        assert(rendered(Seq::<char>::empty(), p, text) =~= text);
    }
}

/// Law: indentation is emitted exactly where it is due. For the character
/// at position `i` of the written text: if indentation is pending there
/// (the character follows a line break, or the write began pending), the
/// output places the full current indentation immediately before it; if
/// not, the character is emitted with nothing inserted before it. No
/// indentation appears anywhere else.
pub proof fn lemma_indent_placement(indent: Seq<char>, p: bool, text: Seq<char>, i: int)
    requires
        0 <= i < text.len(),
    ensures
        pending_after(p, text.take(i)) ==> rendered(indent, p, text) == rendered(
            indent,
            p,
            text.take(i),
        ) + indent + seq![text[i]] + rendered(indent, text[i] == '\n', text.skip(i + 1)),
        !pending_after(p, text.take(i)) ==> rendered(indent, p, text) == rendered(
            indent,
            p,
            text.take(i),
        ) + seq![text[i]] + rendered(indent, text[i] == '\n', text.skip(i + 1)),
{
    let head = text.take(i);
    let tail = text.skip(i);
    assert(text =~= head + tail);
    lemma_rendered_concat(indent, p, head, tail);
    let q = pending_after(p, head);
    assert(tail[0] == text[i]);
    assert(tail.drop_first() =~= text.skip(i + 1));
    if q {
        assert(rendered(indent, p, text) =~= rendered(indent, p, head) + indent + seq![text[i]]
            + rendered(indent, text[i] == '\n', text.skip(i + 1)));
    } else {
        assert(rendered(indent, p, text) =~= rendered(indent, p, head) + seq![text[i]] + rendered(
            indent,
            text[i] == '\n',
            text.skip(i + 1),
        ));
    }
}

/// Law: a single character is emitted as the full current indentation (when
/// pending) followed by the character itself, and as the bare character
/// otherwise.
pub proof fn lemma_rendered_single(indent: Seq<char>, p: bool, c: char)
    ensures
        rendered(indent, p, seq![c]) == (if p {
            indent
        } else {
            Seq::<char>::empty()
        }) + seq![c],
{
    assert(seq![c].drop_first() =~= Seq::<char>::empty());
    assert(rendered(indent, c == '\n', Seq::<char>::empty()) =~= Seq::<char>::empty());
    assert(rendered(indent, p, seq![c]) =~= (if p {
        indent
    } else {
        Seq::<char>::empty()
    }) + seq![c]);
}

/// Law: runs of spaces concatenate, and taking a prefix of a run of
/// spaces gives the shorter run.
pub proof fn lemma_spaces_concat(a: nat, b: nat)
    ensures
        spaces(a) + spaces(b) == spaces(a + b),
        spaces(a + b).take(a as int) == spaces(a),
{
    assert(spaces(a) + spaces(b) =~= spaces(a + b));
    assert(spaces(a + b).take(a as int) =~= spaces(a));
}

/// Law: an indentation maintained by balanced level changes is always
/// exactly the step times the net nesting level: adding a level to `k`
/// levels of `step` spaces gives `k + 1` levels, and removing one from at
/// least one level gives `k - 1` levels.
pub proof fn lemma_level_tracking(step: nat, k: nat)
    ensures
        spaces(k * step) + spaces(step) == spaces((k + 1) * step),
        k >= 1 ==> spaces(k * step).take((k * step - step) as int) == spaces(((k - 1) * step) as nat),
{
    assert((k + 1) * step == k * step + step) by (nonlinear_arith);
    lemma_spaces_concat(k * step, step);
    if k >= 1 {
        assert(k * step == (k - 1) * step + step) by (nonlinear_arith);
        lemma_spaces_concat(((k - 1) * step) as nat, step);
        assert(spaces(k * step).take((k * step - step) as int) =~= spaces(((k - 1) * step) as nat));
    }
}

/// One call made against an indent writer: an indent-level change or a
/// write of a character sequence.
pub enum WriterOp {
    Increase,
    Decrease,
    Write { text: Seq<char> },
}

/// How one call changes the net nesting level.
pub open spec fn op_level_change(op: WriterOp) -> int {
    match op {
        WriterOp::Increase => 1,
        WriterOp::Decrease => -1,
        WriterOp::Write { .. } => 0,
    }
}

/// The text a write call carries, and nothing for a level change.
pub open spec fn op_text(op: WriterOp) -> Seq<char> {
    match op {
        WriterOp::Write { text } => text,
        _ => Seq::empty(),
    }
}

/// The net nesting level after a sequence of calls.
pub open spec fn net_level(ops: Seq<WriterOp>) -> int
    decreases ops.len(),
{
    if ops.len() == 0 {
        0
    } else {
        net_level(ops.drop_last()) + op_level_change(ops.last())
    }
}

/// Whether a sequence of calls keeps the net nesting level non-negative at
/// every point.
pub open spec fn levels_ok(ops: Seq<WriterOp>) -> bool {
    forall|i: int| 0 <= i <= ops.len() ==> net_level(#[trigger] ops.take(i)) >= 0
}

/// The observable state of an indent writer: its current indentation, its
/// pending flag and the characters emitted to the sink so far.
#[verifier::ext_equal]
pub struct WriterState {
    pub indent: Seq<char>,
    pub pending: bool,
    pub out: Seq<char>,
}

/// The state a freshly constructed writer is in.
pub open spec fn initial_state() -> WriterState {
    WriterState { indent: Seq::empty(), pending: false, out: Seq::empty() }
}

/// How one call changes the writer's state. Each arm restates the `ensures`
/// of the corresponding operation on a writer whose every write succeeded:
/// an increase appends a step's worth of spaces to the indentation, a
/// decrease drops a step's worth from its end, and a write emits its text
/// through the lazy-indent rendering and carries the pending flag along.
pub open spec fn apply_op(step: nat, st: WriterState, op: WriterOp) -> WriterState {
    match op {
        WriterOp::Increase => WriterState { indent: st.indent + spaces(step), ..st },
        WriterOp::Decrease => WriterState {
            indent: st.indent.take(st.indent.len() - step),
            ..st
        },
        WriterOp::Write { text } => WriterState {
            pending: pending_after(st.pending, text),
            out: st.out + rendered(st.indent, st.pending, text),
            ..st
        },
    }
}

/// The writer's state after a sequence of calls, starting from the initial
/// state.
pub open spec fn run_ops(step: nat, ops: Seq<WriterOp>) -> WriterState
    decreases ops.len(),
{
    if ops.len() == 0 {
        initial_state()
    } else {
        apply_op(step, run_ops(step, ops.drop_last()), ops.last())
    }
}

proof fn lemma_levels_ok_prefix(ops: Seq<WriterOp>, j: int)
    requires
        levels_ok(ops),
        0 <= j <= ops.len(),
    ensures
        levels_ok(ops.take(j)),
{
    assert forall|i: int| 0 <= i <= ops.take(j).len() implies net_level(
        #[trigger] ops.take(j).take(i),
    ) >= 0 by {
        assert(ops.take(j).take(i) =~= ops.take(i));
    }
}

/// Law: under balanced use, the indentation is exactly the step times the
/// net nesting level. For every sequence of calls that keeps the net level
/// non-negative at every point, the writer's indentation after them is
/// `step * net_level` spaces.
pub proof fn lemma_machine_indent(step: nat, ops: Seq<WriterOp>)
    requires
        levels_ok(ops),
    ensures
        net_level(ops) >= 0,
        run_ops(step, ops).indent == spaces((net_level(ops) * step) as nat),
    decreases ops.len(),
{
    assert(ops.take(ops.len() as int) =~= ops);
    if ops.len() == 0 {
        assert(spaces((0 * step) as nat) =~= Seq::<char>::empty());
    } else {
        let head = ops.drop_last();
        assert(head =~= ops.take(ops.len() - 1));
        lemma_levels_ok_prefix(ops, ops.len() - 1);
        lemma_machine_indent(step, head);
        let k = net_level(head) as nat;
        lemma_level_tracking(step, k);
        match ops.last() {
            WriterOp::Increase => {
                assert((k + 1) * step == net_level(ops) * step);
            },
            WriterOp::Decrease => {
                assert(net_level(ops) >= 0);
                assert(k >= 1);
                assert(spaces(k * step).len() == k * step);
                assert(((k - 1) * step) as nat == (net_level(ops) * step) as nat);
            },
            WriterOp::Write { .. } => {
                assert(net_level(ops) == net_level(head));
            },
        }
    }
}

/// Law (the indentation invariant): for every step size and every sequence
/// of increase/decrease/write calls that keeps the net nesting level
/// non-negative at every point, every character written while indentation
/// is pending — at the start of the stream after a line break, or right
/// after one — is preceded in the emitted output by exactly
/// `step * nesting level` space characters, the level being the one
/// current when that character is written; and a character written while
/// not pending has no indentation emitted before it.
pub proof fn lemma_indentation_invariant(step: nat, ops: Seq<WriterOp>, j: int, i: int)
    requires
        levels_ok(ops),
        0 <= j < ops.len(),
        ops[j] is Write,
        0 <= i < op_text(ops[j]).len(),
    ensures
        ({
            let st = run_ops(step, ops.take(j));
            let text = op_text(ops[j]);
            let lvl = (net_level(ops.take(j)) * step) as nat;
            &&& st.indent == spaces(lvl)
            &&& (pending_after(st.pending, text.take(i)) ==> run_ops(step, ops.take(j + 1)).out
                == st.out + rendered(st.indent, st.pending, text.take(i)) + spaces(lvl)
                + seq![text[i]] + rendered(st.indent, text[i] == '\n', text.skip(i + 1)))
            &&& (!pending_after(st.pending, text.take(i)) ==> run_ops(step, ops.take(j + 1)).out
                == st.out + rendered(st.indent, st.pending, text.take(i)) + seq![text[i]]
                + rendered(st.indent, text[i] == '\n', text.skip(i + 1)))
        }),
{
    let st = run_ops(step, ops.take(j));
    let text = op_text(ops[j]);
    lemma_levels_ok_prefix(ops, j);
    lemma_machine_indent(step, ops.take(j));
    assert(ops.take(j + 1).drop_last() =~= ops.take(j));
    assert(ops.take(j + 1).last() == ops[j]);
    assert(run_ops(step, ops.take(j + 1)) == apply_op(step, st, ops[j]));
    lemma_indent_placement(st.indent, st.pending, text, i);
}

/// The concatenation of all the text carried by the write calls of a
/// sequence, in order.
pub open spec fn texts_of(ops: Seq<WriterOp>) -> Seq<char>
    decreases ops.len(),
{
    if ops.len() == 0 {
        Seq::empty()
    } else {
        texts_of(ops.drop_last()) + op_text(ops.last())
    }
}

proof fn lemma_run_ops_push(step: nat, ops: Seq<WriterOp>, op: WriterOp)
    ensures
        run_ops(step, ops.push(op)) == apply_op(step, run_ops(step, ops), op),
{
    assert(ops.push(op).drop_last() =~= ops);
    assert(ops.push(op).last() == op);
}

/// Law: a single write call of a concatenation leaves the writer exactly
/// where two successive write calls of the pieces leave it, after any
/// shared history of calls; writing a multi-line string in one call equals
/// writing it line by line.
pub proof fn lemma_write_split(step: nat, ops: Seq<WriterOp>, s: Seq<char>, t: Seq<char>)
    ensures
        run_ops(step, ops.push(WriterOp::Write { text: s + t })) == run_ops(
            step,
            ops.push(WriterOp::Write { text: s }).push(WriterOp::Write { text: t }),
        ),
{
    let st = run_ops(step, ops);
    lemma_run_ops_push(step, ops, WriterOp::Write { text: s + t });
    lemma_run_ops_push(step, ops, WriterOp::Write { text: s });
    lemma_run_ops_push(
        step,
        ops.push(WriterOp::Write { text: s }),
        WriterOp::Write { text: t },
    );
    lemma_rendered_concat(st.indent, st.pending, s, t);
    assert(apply_op(step, st, WriterOp::Write { text: s + t }) =~= apply_op(
        step,
        apply_op(step, st, WriterOp::Write { text: s }),
        WriterOp::Write { text: t },
    ));
}

/// Law: when the last call writes text that ends in a line break, the
/// whole output emitted so far ends with that break; no indentation is
/// appended after it until more content follows.
pub proof fn lemma_machine_no_trailing_indent(step: nat, ops: Seq<WriterOp>)
    requires
        ops.len() > 0,
        ops.last() is Write,
        op_text(ops.last()).len() > 0,
        op_text(ops.last()).last() == '\n',
    ensures
        run_ops(step, ops).out.len() > 0,
        run_ops(step, ops).out.last() == '\n',
{
    let st = run_ops(step, ops.drop_last());
    let text = op_text(ops.last());
    lemma_no_trailing_indent(st.indent, st.pending, text);
    assert(run_ops(step, ops).out == st.out + rendered(st.indent, st.pending, text));
}

/// Law: with a step of zero the writer is transparent. Whatever sequence
/// of increase and decrease calls is interleaved, the output is exactly
/// the written text, unchanged.
pub proof fn lemma_zero_step_transparent(ops: Seq<WriterOp>)
    ensures
        run_ops(0, ops).indent == Seq::<char>::empty(),
        run_ops(0, ops).out == texts_of(ops),
    decreases ops.len(),
{
    if ops.len() == 0 {
    } else {
        lemma_zero_step_transparent(ops.drop_last());
        let st = run_ops(0, ops.drop_last());
        match ops.last() {
            WriterOp::Increase => {
                assert(st.indent + spaces(0) =~= Seq::<char>::empty());
                assert(texts_of(ops) =~= texts_of(ops.drop_last()));
            },
            WriterOp::Decrease => {
                assert(st.indent.take(st.indent.len() - 0) =~= Seq::<char>::empty());
                assert(texts_of(ops) =~= texts_of(ops.drop_last()));
            },
            WriterOp::Write { text } => {
                lemma_rendered_empty_indent(st.pending, text);
            },
        }
    }
}

/// A writer capability abstracting over byte-oriented sinks (when `M` is
/// [`crate::marker::IO`]) and text-oriented sinks (when `M` is
/// [`crate::marker::Format`]).
///
/// `content` is the sequence of characters the sink has accepted so far. A
/// successful write appends exactly the written characters; a failed write
/// may leave the sink holding a partial result, so nothing is promised of
/// the content on failure.
pub trait IndentWrite<M: IndentWriteMarker>: Sized {
    /// Error type for I/O or formatting operations.
    type Error;

    /// The characters this sink has accepted so far.
    spec fn content(&self) -> Seq<char>;

    fn write_char(&mut self, c: char) -> (r: Result<(), Self::Error>)
        ensures
            r is Ok ==> final(self).content() == old(self).content().push(c),
    ;

    fn write_str(&mut self, s: &str) -> (r: Result<(), Self::Error>)
        ensures
            r is Ok ==> final(self).content() == old(self).content() + s@,
    ;

    fn flush(&mut self) -> (r: Result<(), Self::Error>)
        ensures
            r is Ok ==> final(self).content() == old(self).content(),
    ;
}

/// Modular implementation of indent formatting generic over [`IndentWrite`].
///
/// The engine owns its sink for its whole lifetime, so no other writer can
/// interleave output with it; [`Self::into_inner`] gives the sink back when
/// formatting is done.
pub struct IndentWriterImpl<M: IndentWriteMarker, W: IndentWrite<M>> {
    /// The amount to indent by.
    indent_delta: usize,
    /// The current indent as a run of space characters.
    current_indent: Vec<char>,
    /// Whether the last character written was a newline.
    last_was_newline: bool,
    /// The owned sink.
    pub(crate) wrapped: W,
    _marker: PhantomData<M>,
}

impl<M: IndentWriteMarker, W: IndentWrite<M>> IndentWriterImpl<M, W> {
    /// The indent step: spaces added or removed per nesting level.
    pub closed spec fn step(&self) -> nat {
        self.indent_delta as nat
    }

    /// The current indentation.
    pub closed spec fn indent(&self) -> Seq<char> {
        self.current_indent@
    }

    /// Whether indentation is pending: the most recently written character
    /// was a line break and no content has been written since.
    pub closed spec fn pending(&self) -> bool {
        self.last_was_newline
    }

    /// The owned sink.
    pub closed spec fn sink(&self) -> W {
        self.wrapped
    }

    /// The characters the sink has received.
    pub closed spec fn out(&self) -> Seq<char> {
        self.wrapped.content()
    }

    pub fn new(wrapped: W, indent_delta: usize) -> (r: Self)
        ensures
            r.step() == indent_delta,
            r.indent() == Seq::<char>::empty(),
            r.pending() == false,
            r.out() == wrapped.content(),
            r.sink() == wrapped,
    {
        Self {
            indent_delta,
            current_indent: Vec::new(),
            last_was_newline: false,
            wrapped,
            _marker: PhantomData,
        }
    }

    /// Adds a level of indentation: appends `step` spaces to the current
    /// indentation. Takes effect for the next line whose first character is
    /// written after this call. The sink is not touched.
    pub fn increase_indent(&mut self)
        ensures
            final(self).indent() == old(self).indent() + spaces(old(self).step()),
            final(self).step() == old(self).step(),
            final(self).pending() == old(self).pending(),
            final(self).sink() == old(self).sink(),
            final(self).out() == old(self).out(),
    {
        let ghost pre = *self;
        let delta = self.indent_delta;
        let mut i: usize = 0;
        while i < delta
            invariant
                i <= delta,
                delta == pre.indent_delta,
                self.indent_delta == pre.indent_delta,
                self.last_was_newline == pre.last_was_newline,
                self.wrapped == pre.wrapped,
                self.current_indent@ == pre.current_indent@ + spaces(i as nat),
            decreases delta - i,
        {
            self.current_indent.push(' ');
            proof {
                assert(pre.current_indent@ + spaces((i + 1) as nat) =~= (pre.current_indent@
                    + spaces(i as nat)).push(' '));
            }
            i = i + 1;
        }
        proof {
            assert(self.current_indent@ =~= pre.current_indent@ + spaces(pre.step()));
        }
    }

    /// Removes a level of indentation: drops `step` spaces from the end of
    /// the current indentation. Removing more indentation than exists is a
    /// contract violation, excluded by the precondition rather than clamped.
    /// The sink is not touched.
    pub fn decrease_indent(&mut self)
        requires
            old(self).indent().len() >= old(self).step(),
        ensures
            final(self).indent() == old(self).indent().take(
                old(self).indent().len() - old(self).step(),
            ),
            final(self).step() == old(self).step(),
            final(self).pending() == old(self).pending(),
            final(self).sink() == old(self).sink(),
            final(self).out() == old(self).out(),
    {
        let new_length = self.current_indent.len() - self.indent_delta;
        self.current_indent.truncate(new_length);
    }

    /// Writes one character: if indentation is pending, first emits the
    /// full current indentation (propagating a sink failure without
    /// clearing the pending state), then the character itself; pending is
    /// then set exactly when the character is a line break.
    pub fn write_char(&mut self, c: char) -> (r: Result<(), W::Error>)
        ensures
            final(self).step() == old(self).step(),
            final(self).indent() == old(self).indent(),
            r is Ok ==> final(self).out() == old(self).out() + rendered(
                old(self).indent(),
                old(self).pending(),
                seq![c],
            ),
            r is Ok ==> final(self).pending() == (c == '\n'),
            r is Err ==> final(self).pending() == old(self).pending(),
    {
        if self.last_was_newline {
            let mut i: usize = 0;
            let len = self.current_indent.len();
            while i < len
                invariant
                    i <= len,
                    len == old(self).current_indent@.len(),
                    self.indent_delta == old(self).indent_delta,
                    self.current_indent == old(self).current_indent,
                    self.last_was_newline == old(self).last_was_newline,
                    self.wrapped.content() == old(self).wrapped.content()
                        + old(self).current_indent@.take(i as int),
                decreases len - i,
            {
                let d = self.current_indent[i];
                match self.wrapped.write_char(d) {
                    Ok(()) => {},
                    Err(e) => {
                        return Err(e);
                    },
                }
                proof {
                    assert(old(self).current_indent@.take((i + 1) as int)
                        =~= old(self).current_indent@.take(i as int).push(
                        old(self).current_indent@[i as int],
                    ));
                }
                i = i + 1;
            }
            proof {
                assert(old(self).current_indent@.take(len as int) =~= old(self).current_indent@);
            }
        }
        let ghost mid = *self;
        match self.wrapped.write_char(c) {
            Ok(()) => {},
            Err(e) => {
                return Err(e);
            },
        }
        self.last_was_newline = c == '\n';
        proof {
            lemma_rendered_single(old(self).indent(), old(self).pending(), c);
            if old(self).pending() {
                assert(mid.out() =~= old(self).out() + old(self).indent());
            }
            assert(self.out() =~= old(self).out() + rendered(
                old(self).indent(),
                old(self).pending(),
                seq![c],
            ));
        }
        Ok(())
    }

    /// Writes a string by writing each of its characters in order, so that
    /// indentation is inserted after every internal line break, not only at
    /// call boundaries. An empty string is a no-op.
    pub fn write_str(&mut self, s: &str) -> (r: Result<(), W::Error>)
        ensures
            final(self).step() == old(self).step(),
            final(self).indent() == old(self).indent(),
            r is Ok ==> final(self).out() == old(self).out() + rendered(
                old(self).indent(),
                old(self).pending(),
                s@,
            ),
            r is Ok ==> final(self).pending() == pending_after(old(self).pending(), s@),
            s@.len() == 0 ==> r is Ok && *final(self) == *old(self),
    {
        for c in it: s.chars()
            invariant
                it.seq() == s@,
                self.step() == old(self).step(),
                self.indent() == old(self).indent(),
                self.out() == old(self).out() + rendered(
                    old(self).indent(),
                    old(self).pending(),
                    s@.take(it.index() as int),
                ),
                self.pending() == pending_after(old(self).pending(), s@.take(it.index() as int)),
                it.index() == 0 ==> *self == *old(self),
        {
            let ghost i = it.index() as int;
            match self.write_char(c) {
                Ok(()) => {},
                Err(e) => {
                    return Err(e);
                },
            }
            proof {
                assert(s@.take(i + 1) =~= s@.take(i) + seq![s@[i]]);
                lemma_rendered_concat(
                    old(self).indent(),
                    old(self).pending(),
                    s@.take(i),
                    seq![s@[i]],
                );
                lemma_rendered_single(
                    old(self).indent(),
                    pending_after(old(self).pending(), s@.take(i)),
                    s@[i],
                );
                assert(self.out() =~= old(self).out() + rendered(
                    old(self).indent(),
                    old(self).pending(),
                    s@.take(i + 1),
                ));
            }
        }
        proof {
            assert(s@.take(s@.len() as int) =~= s@);
        }
        Ok(())
    }

    /// Delegates directly to the sink's flush; carries no indentation
    /// logic.
    pub fn flush(&mut self) -> (r: Result<(), W::Error>)
        ensures
            final(self).step() == old(self).step(),
            final(self).indent() == old(self).indent(),
            final(self).pending() == old(self).pending(),
            r is Ok ==> final(self).out() == old(self).out(),
    {
        self.wrapped.flush()
    }

    /// Gives shared access to the owned sink, for inspecting what it has
    /// received without disturbing the writer.
    pub fn sink_ref(&self) -> (r: &W)
        ensures
            *r == self.sink(),
            r.content() == self.out(),
    {
        &self.wrapped
    }

    /// Gives direct mutable access to the owned sink, bypassing the
    /// indentation logic entirely. The indentation state is untouched;
    /// whatever the caller writes through the reference is outside the
    /// engine's accounting.
    pub fn sink_mut(&mut self) -> (r: &mut W)
        ensures
            *r == old(self).sink(),
            r.content() == old(self).out(),
            final(self).step() == old(self).step(),
            final(self).indent() == old(self).indent(),
            final(self).pending() == old(self).pending(),
            final(self).sink() == *final(r),
            final(self).out() == final(r).content(),
    {
        &mut self.wrapped
    }

    /// Consumes the writer and returns the sink it owned.
    pub fn into_inner(self) -> (r: W)
        ensures
            r == self.sink(),
            r.content() == self.out(),
    {
        self.wrapped
    }
}

/// Common API for indent writers: the indent-control operations shared by
/// both facades.
pub trait IndentWriterCommon: Sized {
    /// The indent step: spaces added or removed per nesting level.
    spec fn step(&self) -> nat;

    /// The current indentation.
    spec fn indent(&self) -> Seq<char>;

    /// Whether indentation is pending for the next written character.
    spec fn pending(&self) -> bool;

    /// The characters the underlying sink has received.
    spec fn out(&self) -> Seq<char>;

    /// Adds a level of indentation. The new indent takes effect for the
    /// next line whose first character is written after this call; nothing
    /// is written to the sink.
    fn increase_indent(&mut self)
        ensures
            final(self).indent() == old(self).indent() + spaces(old(self).step()),
            final(self).step() == old(self).step(),
            final(self).pending() == old(self).pending(),
            final(self).out() == old(self).out(),
    ;

    /// Removes a level of indentation. The new indent takes effect for the
    /// next line whose first character is written after this call; nothing
    /// is written to the sink. Removing more indentation than exists is a
    /// contract violation, excluded by the precondition rather than
    /// clamped.
    fn decrease_indent(&mut self)
        requires
            old(self).indent().len() >= old(self).step(),
        ensures
            final(self).indent() == old(self).indent().take(
                old(self).indent().len() - old(self).step(),
            ),
            final(self).step() == old(self).step(),
            final(self).pending() == old(self).pending(),
            final(self).out() == old(self).out(),
    ;
}

} // verus!
