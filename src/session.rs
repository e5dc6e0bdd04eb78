use vstd::prelude::*;

use crate::list::TodoList;

verus! {

/// What the loop around a session does next.
#[derive(Clone, Copy, Debug, PartialEq, Eq, Structural)]
pub enum Action {
    /// Draw the screen again and wait for the next key.
    Redraw,
    /// Read a line of text and hand it to `submit_line`.
    ReadLine,
    /// Write `list.file_contents()` to the list's file, then draw again.
    Save,
    /// Leave the session.
    Quit,
}

/// The selection after the pending list has `len` items: where it was, or
/// the last item where it now points past the end, or 0 on an empty list.
pub open spec fn clamped(selected: usize, len: nat) -> usize {
    if len == 0 {
        0
    } else if selected >= len {
        (len - 1) as usize
    } else {
        selected
    }
}

/// Once the pending list has shrunk to `len` items, the clamped selection is
/// a valid index (at most `len - 1`), or 0 with no target where the list is
/// empty; a selection that was already valid is kept.
pub proof fn lemma_clamped_valid(selected: usize, len: nat)
    requires
        len <= usize::MAX,
    ensures
        len > 0 ==> clamped(selected, len) < len,
        len == 0 ==> clamped(selected, len) == 0,
        selected < len ==> clamped(selected, len) == selected,
{
}

/// One run of the interactive tracker: the list and the selected pending item.
pub struct Session {
    pub list: TodoList,
    pub selected: usize,
}

impl Session {
    /// The selection points at a pending item, or is 0 where there is none.
    pub open spec fn wf(&self) -> bool {
        self.selected == clamped(self.selected, self.list.pending().len())
    }

    pub fn new(list: TodoList) -> (r: Session)
        ensures
            r.list == list,
            r.selected == 0,
            r.wf(),
    {
        Session { list, selected: 0 }
    }

    fn clamp_selection(&mut self)
        ensures
            final(self).list == old(self).list,
            final(self).selected == clamped(old(self).selected, old(self).list.pending().len()),
            final(self).wf(),
    {
        let len = self.list.todo.len();
        if len == 0 {
            self.selected = 0;
        } else if self.selected >= len {
            self.selected = len - 1;
        }
    }

    /// Acts on one key: `j` and `k` move the selection down and up, `t`
    /// completes and `r` removes the selected item, `c` clears the completed
    /// items, `a` asks for a line to add, `q` quits. Other keys do nothing.
    pub fn handle_key(&mut self, key: char) -> (r: Action)
        requires
            old(self).wf(),
        ensures
            final(self).wf(),
            final(self).list.path() == old(self).list.path(),
            ({
                let p = old(self).list.pending();
                let d = old(self).list.completed();
                let s = old(self).selected;
                let np = final(self).list.pending();
                let nd = final(self).list.completed();
                let ns = final(self).selected;
                if key == 'j' {
                    &&& np == p && nd == d && r == Action::Redraw
                    &&& ns == if p.len() > 0 && s < p.len() - 1 { (s + 1) as usize } else { s }
                } else if key == 'k' {
                    &&& np == p && nd == d && r == Action::Redraw
                    &&& ns == if s > 0 { (s - 1) as usize } else { s }
                } else if key == 't' {
                    if s < p.len() {
                        &&& np == p.remove(s as int) && nd == d.push(p[s as int])
                        &&& ns == clamped(s, np.len()) && r == Action::Save
                    } else {
                        np == p && nd == d && ns == s && r == Action::Redraw
                    }
                } else if key == 'r' {
                    if s < p.len() {
                        &&& np == p.remove(s as int) && nd == d
                        &&& ns == clamped(s, np.len()) && r == Action::Save
                    } else {
                        np == p && nd == d && ns == s && r == Action::Redraw
                    }
                } else if key == 'c' {
                    np == p && nd == Seq::<Seq<char>>::empty() && ns == s && r == Action::Save
                } else {
                    &&& np == p && nd == d && ns == s
                    &&& r == if key == 'a' {
                        Action::ReadLine
                    } else if key == 'q' {
                        Action::Quit
                    } else {
                        Action::Redraw
                    }
                }
            }),
    {
        let len = self.list.todo.len();
        if key == 'j' {
            if len > 0 && self.selected < len - 1 {
                self.selected = self.selected + 1;
            }
            Action::Redraw
        } else if key == 'k' {
            if self.selected > 0 {
                self.selected = self.selected - 1;
            }
            Action::Redraw
        } else if key == 't' {
            if self.selected < len {
                self.list.tick_todo(self.selected);
                self.clamp_selection();
                Action::Save
            } else {
                Action::Redraw
            }
        } else if key == 'r' {
            if self.selected < len {
                self.list.remove_todo(self.selected);
                self.clamp_selection();
                Action::Save
            } else {
                Action::Redraw
            }
        } else if key == 'c' {
            self.list.clear_done();
            Action::Save
        } else if key == 'a' {
            Action::ReadLine
        } else if key == 'q' {
            Action::Quit
        } else {
            Action::Redraw
        }
    }

    /// Takes the line read after `a`: adds it as a pending item unless it is empty.
    pub fn submit_line(&mut self, line: &str) -> (r: Action)
        requires
            old(self).wf(),
        ensures
            final(self).wf(),
            final(self).selected == old(self).selected,
            final(self).list.path() == old(self).list.path(),
            final(self).list.completed() == old(self).list.completed(),
            line@.len() == 0 ==> final(self).list.pending() == old(self).list.pending() && r
                == Action::Redraw,
            line@.len() > 0 ==> final(self).list.pending() == old(self).list.pending().push(line@)
                && r == Action::Save,
    {
        if line.is_empty() {
            Action::Redraw
        } else {
            self.list.add_todo(line);
            Action::Save
        }
    }
}

} // verus!
