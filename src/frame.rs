use vstd::prelude::*;

use crate::session::Session;

verus! {

pub const TITLE: &'static str = "TUI TODO APP BY MICHAEL";

pub const HELP_FIRST: &'static str = "Keybindings: 'j' to move down, 'k' to move up, 'a' to add a todo,";

pub const HELP_SECOND: &'static str = "             't' to tick a todo, 'r' to remove a todo, 'c' to clear done list";

pub const TODO_LABEL: &'static str = "TODO";

pub const DONE_LABEL: &'static str = "DONE";

/// What a pending row shows before the item's text.
pub const OPEN_BOX: &'static str = "- [ ]  ";

/// What a completed row shows before the item's text.
pub const TICKED_BOX: &'static str = "- [X]\t";

pub const PROMPT: &'static str = ">";

/// One row of the screen, top to bottom. A blank row has empty text.
pub struct FrameLine {
    pub text: String,
    pub highlighted: bool,
}

pub open spec fn row_view(l: FrameLine) -> (Seq<char>, bool) {
    (l.text@, l.highlighted)
}

pub open spec fn plain(text: Seq<char>) -> (Seq<char>, bool) {
    (text, false)
}

/// The rows above the pending items.
pub open spec fn header_rows() -> Seq<(Seq<char>, bool)> {
    seq![
        plain(TITLE@),
        plain(HELP_FIRST@),
        plain(HELP_SECOND@),
        plain(Seq::empty()),
        plain(TODO_LABEL@),
    ]
}

/// A row for each pending item; only the selected one is highlighted.
pub open spec fn pending_rows(items: Seq<Seq<char>>, selected: usize) -> Seq<(Seq<char>, bool)> {
    Seq::new(items.len(), |i: int| (OPEN_BOX@ + items[i], i == selected))
}

/// A row for each completed item.
pub open spec fn done_rows(items: Seq<Seq<char>>) -> Seq<(Seq<char>, bool)> {
    Seq::new(items.len(), |i: int| plain(TICKED_BOX@ + items[i]))
}

/// The whole screen for a list and a selection.
pub open spec fn frame_rows(pending: Seq<Seq<char>>, done: Seq<Seq<char>>, selected: usize) -> Seq<
    (Seq<char>, bool),
> {
    header_rows() + pending_rows(pending, selected) + seq![plain(Seq::empty()), plain(DONE_LABEL@)]
        + done_rows(done) + seq![plain(Seq::empty()), plain(PROMPT@)]
}

/// Where there is no pending item, no row of the screen is highlighted.
pub proof fn lemma_empty_highlights_nothing(done: Seq<Seq<char>>, selected: usize)
    ensures
        forall|i: int|
            0 <= i < frame_rows(Seq::empty(), done, selected).len() ==> !(#[trigger] frame_rows(
                Seq::empty(),
                done,
                selected,
            )[i]).1,
{
    let rows = frame_rows(Seq::empty(), done, selected);
    assert(pending_rows(Seq::empty(), selected) =~= Seq::<(Seq<char>, bool)>::empty());
    assert forall|i: int| 0 <= i < rows.len() implies !rows[i].1 by {
        let top = header_rows() + pending_rows(Seq::empty(), selected);
        let mid = top + seq![plain(Seq::empty()), plain(DONE_LABEL@)];
        let low = mid + done_rows(done);
        assert(rows == low + seq![plain(Seq::empty()), plain(PROMPT@)]);
        if i >= low.len() {
        } else if i >= mid.len() {
            assert(low[i] == done_rows(done)[i - mid.len()]);
        } else if i >= top.len() {
        } else {
            assert(top[i] == header_rows()[i]);
        }
    }
}

fn push_plain(rows: &mut Vec<FrameLine>, text: &str)
    ensures
        final(rows)@.map_values(|l: FrameLine| row_view(l)) == old(rows)@.map_values(
            |l: FrameLine| row_view(l),
        ).push(plain(text@)),
{
    rows.push(FrameLine { text: String::from_str(text), highlighted: false });
    assert(rows@.map_values(|l: FrameLine| row_view(l)) =~= old(rows)@.map_values(
        |l: FrameLine| row_view(l),
    ).push(plain(text@)));
}

/// Pushes a row for each item: `mark`, then the item's text. The row at
/// `selected` is highlighted when `highlight` holds.
fn push_items(
    rows: &mut Vec<FrameLine>,
    mark: &str,
    items: &Vec<String>,
    selected: usize,
    highlight: bool,
)
    ensures
        final(rows)@.map_values(|l: FrameLine| row_view(l)) == old(rows)@.map_values(
            |l: FrameLine| row_view(l),
        ) + Seq::new(
            items@.len(),
            |i: int| (mark@ + items@[i]@, highlight && i == selected),
        ),
{
    let ghost start = old(rows)@.map_values(|l: FrameLine| row_view(l));
    let ghost want = Seq::new(
        items@.len(),
        |i: int| (mark@ + items@[i]@, highlight && i == selected),
    );
    let mut i: usize = 0;
    while i < items.len()
        invariant
            i <= items.len(),
            start == old(rows)@.map_values(|l: FrameLine| row_view(l)),
            want == Seq::new(
                items@.len(),
                |i: int| (mark@ + items@[i]@, highlight && i == selected),
            ),
            rows@.map_values(|l: FrameLine| row_view(l)) == start + want.subrange(0, i as int),
        decreases items.len() - i,
    {
        let text = String::from_str(mark).concat(items[i].as_str());
        let line = FrameLine { text, highlighted: highlight && i == selected };
        let ghost before = rows@;
        rows.push(line);
        assert(rows@.map_values(|l: FrameLine| row_view(l)) =~= before.map_values(
            |l: FrameLine| row_view(l),
        ).push(row_view(line)));
        assert(want.subrange(0, i + 1) =~= want.subrange(0, i as int).push(want[i as int]));
        i = i + 1;
    }
    assert(want.subrange(0, i as int) =~= want);
}

impl Session {
    /// The rows to draw, top to bottom: a title, two lines of help, a blank row, the
    /// pending items under a label with the selected one highlighted, the
    /// completed items under a label, and a prompt.
    pub fn frame(&self) -> (r: Vec<FrameLine>)
        ensures
            r@.map_values(|l: FrameLine| row_view(l)) == frame_rows(
                self.list.pending(),
                self.list.completed(),
                self.selected,
            ),
    {
        proof {
            reveal_strlit("");
            assert(""@ =~= Seq::<char>::empty());
        }
        let mut rows: Vec<FrameLine> = Vec::new();
        push_plain(&mut rows, TITLE);
        push_plain(&mut rows, HELP_FIRST);
        push_plain(&mut rows, HELP_SECOND);
        push_plain(&mut rows, "");
        push_plain(&mut rows, TODO_LABEL);
        assert(rows@.map_values(|l: FrameLine| row_view(l)) =~= header_rows());
        push_items(&mut rows, OPEN_BOX, &self.list.todo, self.selected, true);
        assert(Seq::new(
            self.list.todo@.len(),
            |i: int| (OPEN_BOX@ + self.list.todo@[i]@, true && i == self.selected),
        ) =~= pending_rows(self.list.pending(), self.selected));
        let ghost upper = header_rows() + pending_rows(self.list.pending(), self.selected);
        assert(rows@.map_values(|l: FrameLine| row_view(l)) == upper);
        push_plain(&mut rows, "");
        push_plain(&mut rows, DONE_LABEL);
        let ghost middle = upper + seq![plain(Seq::empty()), plain(DONE_LABEL@)];
        assert(rows@.map_values(|l: FrameLine| row_view(l)) =~= middle);
        push_items(&mut rows, TICKED_BOX, &self.list.done, 0, false);
        assert(Seq::new(
            self.list.done@.len(),
            |i: int| (TICKED_BOX@ + self.list.done@[i]@, false && i == 0),
        ) =~= done_rows(self.list.completed()));
        let ghost lower = middle + done_rows(self.list.completed());
        assert(rows@.map_values(|l: FrameLine| row_view(l)) == lower);
        push_plain(&mut rows, "");
        push_plain(&mut rows, PROMPT);
        assert(rows@.map_values(|l: FrameLine| row_view(l)) =~= lower + seq![
            plain(Seq::empty()),
            plain(PROMPT@),
        ]);
        rows
    }
}

} // verus!
