use vstd::prelude::*;

use crate::format::{file_contents, file_text, parse_items, parsed_done, parsed_pending, texts};

verus! {

/// The pending and the completed items, and the file that keeps them.
pub struct TodoList {
    pub filepath: String,
    pub todo: Vec<String>,
    pub done: Vec<String>,
}

impl TodoList {
    /// The texts of the pending items, in order.
    pub open spec fn pending(&self) -> Seq<Seq<char>> {
        texts(self.todo@)
    }

    /// The texts of the completed items, in the order they were completed.
    pub open spec fn completed(&self) -> Seq<Seq<char>> {
        texts(self.done@)
    }

    pub open spec fn path(&self) -> Seq<char> {
        self.filepath@
    }

    /// The list kept in the file at `filepath`, given the file's text
    /// (empty where there is no such file).
    pub fn new(filepath: &str, text: &str) -> (r: TodoList)
        ensures
            r.path() == filepath@,
            r.pending() == parsed_pending(text@),
            r.completed() == parsed_done(text@),
    {
        let (todo, done) = parse_items(text);
        TodoList { filepath: String::from_str(filepath), todo, done }
    }

    /// The path of the file that keeps the list.
    pub fn filepath(&self) -> (r: &str)
        ensures
            r@ == self.path(),
    {
        self.filepath.as_str()
    }

    /// What the file holds after each change: every pending item, then every
    /// completed one, one tagged line each.
    pub fn file_contents(&self) -> (r: String)
        ensures
            r@ == file_text(self.pending(), self.completed()),
    {
        file_contents(&self.todo, &self.done)
    }

    /// Adds `title` at the end of the pending items.
    pub fn add_todo(&mut self, title: &str)
        ensures
            final(self).pending() == old(self).pending().push(title@),
            final(self).completed() == old(self).completed(),
            final(self).path() == old(self).path(),
    {
        self.todo.push(String::from_str(title));
        assert(self.pending() =~= old(self).pending().push(title@));
    }

    /// Moves the pending item at `id` to the end of the completed items.
    /// Nothing changes where there is no such item.
    pub fn tick_todo(&mut self, id: usize)
        ensures
            id < old(self).pending().len() ==> final(self).pending() == old(self).pending().remove(
                id as int,
            ) && final(self).completed() == old(self).completed().push(
                old(self).pending()[id as int],
            ),
            id >= old(self).pending().len() ==> final(self).pending() == old(self).pending()
                && final(self).completed() == old(self).completed(),
            final(self).path() == old(self).path(),
    {
        if self.todo.len() > id {
            let item = self.todo.remove(id);
            self.done.push(item);
            assert(self.pending() =~= old(self).pending().remove(id as int));
            assert(self.completed() =~= old(self).completed().push(old(self).pending()[id as int]));
        }
    }

    /// Deletes the pending item at `id`. Nothing changes where there is no such item.
    pub fn remove_todo(&mut self, id: usize)
        ensures
            id < old(self).pending().len() ==> final(self).pending() == old(self).pending().remove(
                id as int,
            ),
            id >= old(self).pending().len() ==> final(self).pending() == old(self).pending(),
            final(self).completed() == old(self).completed(),
            final(self).path() == old(self).path(),
    {
        if self.todo.len() > id {
            self.todo.remove(id);
            assert(self.pending() =~= old(self).pending().remove(id as int));
        }
    }

    /// Empties the completed items.
    pub fn clear_done(&mut self)
        ensures
            final(self).pending() == old(self).pending(),
            final(self).completed() == Seq::<Seq<char>>::empty(),
            final(self).path() == old(self).path(),
    {
        self.done.clear();
        assert(self.completed() =~= Seq::<Seq<char>>::empty());
    }
}

} // verus!
