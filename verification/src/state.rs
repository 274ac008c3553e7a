//! The application state: an editable input buffer and the append-only
//! history of committed lines.
//!
//! The foreground loop is the sole writer; the renderer reads through
//! [`AppState::snapshot`], which copies the whole state at once, so a
//! render pass can never observe a half-updated state.

use vstd::prelude::*;

verus! {

/// The input buffer (text not yet committed) and the history of
/// committed lines, in insertion order.
pub struct AppState {
    buffer: Vec<char>,
    history: Vec<Vec<char>>,
}

/// A consistent point-in-time copy of the state, handed to the renderer.
pub struct Snapshot {
    pub buffer: Vec<char>,
    pub history: Vec<Vec<char>>,
}

/// Appending the characters of `cs` one by one to `b` yields `b + cs`:
/// the buffer accumulates pushed characters in order.
pub open spec fn apply_pushes(b: Seq<char>, cs: Seq<char>) -> Seq<char>
    decreases cs.len(),
{
    if cs.len() == 0 {
        b
    } else {
        apply_pushes(b.push(cs[0]), cs.drop_first())
    }
}

/// A sequence of pushes with no intervening commit leaves the buffer
/// holding the old content followed by the pushed characters in order.
pub proof fn lemma_pushes_concatenate(b: Seq<char>, cs: Seq<char>)
    ensures
        apply_pushes(b, cs) == b + cs,
    decreases cs.len(),
{
    if cs.len() == 0 {
        assert(apply_pushes(b, cs) == b);
        assert(b + cs =~= b);
    } else {
        lemma_pushes_concatenate(b.push(cs[0]), cs.drop_first());
        assert(b.push(cs[0]) + cs.drop_first() =~= b + cs);
    }
}

impl AppState {
    /// The buffer as a sequence of characters.
    pub closed spec fn buffer_view(&self) -> Seq<char> {
        self.buffer@
    }

    /// The history as a sequence of lines, oldest first.
    pub closed spec fn history_view(&self) -> Seq<Seq<char>> {
        self.history.deep_view()
    }

    /// The buffer never holds a newline: the foreground loop turns a
    /// newline key into a commit instead of an insertion.
    pub open spec fn wf(&self) -> bool {
        forall|i: int| 0 <= i < self.buffer_view().len() ==> self.buffer_view()[i] != '\n'
    }

    /// Creates the state of a fresh session: empty buffer, empty history.
    pub fn new() -> (s: AppState)
        ensures
            s.buffer_view() == Seq::<char>::empty(),
            s.history_view() == Seq::<Seq<char>>::empty(),
            s.wf(),
    {
        let s = AppState { buffer: Vec::new(), history: Vec::new() };
        proof {
            assert(s.history.deep_view() =~~= Seq::<Seq<char>>::empty());
        }
        s
    }

    /// Appends `c` to the buffer; always succeeds.
    pub fn push_char(&mut self, c: char)
        requires
            c != '\n',
        ensures
            final(self).buffer_view() == old(self).buffer_view().push(c),
            final(self).history_view() == old(self).history_view(),
            old(self).wf() ==> final(self).wf(),
    {
        self.buffer.push(c);
    }

    /// Removes the last character of the buffer if it has one; on an
    /// empty buffer it does nothing and the buffer stays empty.
    pub fn pop_char(&mut self)
        ensures
            old(self).buffer_view().len() == 0 ==> final(self).buffer_view()
                == old(self).buffer_view(),
            old(self).buffer_view().len() > 0 ==> final(self).buffer_view()
                == old(self).buffer_view().drop_last(),
            final(self).history_view() == old(self).history_view(),
            old(self).wf() ==> final(self).wf(),
    {
        let _ = self.buffer.pop();
    }

    /// Atomically moves the whole buffer content into a new last history
    /// entry and empties the buffer. Committing an empty buffer appends
    /// an empty entry.
    pub fn commit(&mut self)
        ensures
            final(self).buffer_view() == Seq::<char>::empty(),
            final(self).history_view() == old(self).history_view().push(
                old(self).buffer_view(),
            ),
            final(self).wf(),
    {
        let mut entry: Vec<char> = Vec::new();
        core::mem::swap(&mut entry, &mut self.buffer);
        self.history.push(entry);
        proof {
            assert(self.history.deep_view() =~~= old(self).history.deep_view().push(
                old(self).buffer@,
            ));
        }
    }

    /// Returns a consistent read-only copy of `(buffer, history)` for a
    /// render pass.
    pub fn snapshot(&self) -> (s: Snapshot)
        ensures
            s.buffer@ == self.buffer_view(),
            s.history.deep_view() == self.history_view(),
    {
        let buffer = copy_chars(&self.buffer);
        let mut history: Vec<Vec<char>> = Vec::new();
        let mut i: usize = 0;
        while i < self.history.len()
            invariant
                i <= self.history.len(),
                history@.len() == i as int,
                forall|j: int| 0 <= j < i ==> history@[j]@ == self.history@[j]@,
            decreases self.history.len() - i,
        {
            let line = copy_chars(&self.history[i]);
            history.push(line);
            i = i + 1;
        }
        proof {
            assert(history.deep_view() =~~= self.history.deep_view());
        }
        Snapshot { buffer, history }
    }
}

impl Default for AppState {
    /// Same as [`AppState::new`]: a fresh, empty state.
    fn default() -> (s: AppState)
        ensures
            s.buffer_view() == Seq::<char>::empty(),
            s.history_view() == Seq::<Seq<char>>::empty(),
            s.wf(),
    {
        AppState::new()
    }
}

/// Copies a character vector element by element.
fn copy_chars(v: &Vec<char>) -> (r: Vec<char>)
    ensures
        r@ == v@,
{
    let mut r: Vec<char> = Vec::new();
    let mut i: usize = 0;
    while i < v.len()
        invariant
            i <= v.len(),
            r@ =~= v@.take(i as int),
        decreases v.len() - i,
    {
        r.push(v[i]);
        i = i + 1;
    }
    proof {
        assert(v@.take(v@.len() as int) =~= v@);
    }
    r
}

} // verus!
