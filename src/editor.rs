use vstd::prelude::*;

verus! {

/// A key pressed while a line is being typed.
#[derive(Clone, Copy, Debug, PartialEq, Eq, Structural)]
pub enum EditKey {
    Char(char),
    Backspace,
    Enter,
    Other,
}

/// Applies one key to the line typed so far: a character is appended,
/// backspace takes off the last character, Enter submits the line as it
/// stands (it may be empty), and any other key is passed over. Returns
/// whether the line was submitted.
pub fn edit_line(line: &mut Vec<char>, key: EditKey) -> (submitted: bool)
    ensures
        submitted == (key == EditKey::Enter),
        final(line)@ == match key {
            EditKey::Char(c) => old(line)@.push(c),
            EditKey::Backspace => if old(line)@.len() > 0 {
                old(line)@.drop_last()
            } else {
                old(line)@
            },
            _ => old(line)@,
        },
{
    match key {
        EditKey::Char(c) => {
            line.push(c);
            false
        },
        EditKey::Backspace => {
            line.pop();
            false
        },
        EditKey::Enter => true,
        EditKey::Other => false,
    }
}

} // verus!
