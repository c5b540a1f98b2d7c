//! A one-line text field of the form, with a cursor.
//!
//! The cursor counts terminal columns, as the width of the input does,
//! while the input is edited at byte positions: both agree on ASCII text.
use vstd::prelude::*;
use crate::bindings::{display_width, str_width};
use crate::text::{
    char_index, insert_char, is_char_boundary, lemma_utf8_len_grows, lemma_utf8_len_step, pop_char,
    push_char, remove_char_at, utf8_len, utf8_width,
};

verus! {

/// What a field holds.
#[derive(Clone, Copy, Debug, PartialEq, Eq, Structural)]
pub enum FieldType {
    Alias,
    Tags,
    Command,
    Description,
    Namespace,
    QueryBox,
}

/// A field taken by view.
pub struct FieldView {
    pub name: Seq<char>,
    pub title: Seq<char>,
    pub field_type: FieldType,
    pub in_focus: bool,
    pub input: Seq<char>,
    pub cursor: u16,
}

/// A text field: its name, title and kind, whether it has the focus, its
/// input and the cursor's column.
#[derive(Debug)]
pub struct Field {
    name: String,
    title: String,
    field_type: FieldType,
    in_focus: bool,
    pub input: String,
    cursor_position: u16,
}

impl View for Field {
    type V = FieldView;

    closed spec fn view(&self) -> FieldView {
        FieldView {
            name: self.name@,
            title: self.title@,
            field_type: self.field_type,
            in_focus: self.in_focus,
            input: self.input@,
            cursor: self.cursor_position,
        }
    }
}

/// The width of a text in columns, as a `u16` keeps it.
pub open spec fn width16(s: Seq<char>) -> u16 {
    display_width(s) as u16
}

/// The column after `c`, wrapping past the last one as `u16` arithmetic does.
pub open spec fn next_column(c: u16) -> u16 {
    if c == u16::MAX {
        0
    } else {
        (c + 1) as u16
    }
}

/// The cursor after moving one column right: it stops at the width.
pub open spec fn forward(f: FieldView) -> FieldView {
    if f.cursor != width16(f.input) {
        FieldView { cursor: next_column(f.cursor), ..f }
    } else {
        f
    }
}

/// The cursor after moving one column left: it stops at 0.
pub open spec fn backward(f: FieldView) -> FieldView {
    if f.cursor != 0 {
        FieldView { cursor: (f.cursor - 1) as u16, ..f }
    } else {
        f
    }
}

/// Whether typing can insert at the cursor: at the end it appends,
/// elsewhere the cursor must fall between characters.
pub open spec fn can_type(f: FieldView) -> bool {
    f.cursor != width16(f.input) ==> is_char_boundary(f.input, f.cursor as int)
}

/// The field after typing `c`: inserted at the cursor, which moves right.
pub open spec fn typed(f: FieldView, c: char) -> FieldView {
    let input = if f.cursor == width16(f.input) {
        f.input.push(c)
    } else {
        f.input.insert(char_index(f.input, f.cursor as int), c)
    };
    forward(FieldView { input, ..f })
}

/// Whether backspace can remove the character before the cursor.
pub open spec fn can_backspace(f: FieldView) -> bool {
    f.cursor != width16(f.input) && f.cursor > 0 ==> is_char_boundary(f.input, f.cursor - 1)
        && f.cursor - 1 < utf8_len(f.input)
}

/// The field after backspace: the character before the cursor goes (the
/// last one when the cursor is at the end), and the cursor moves left.
pub open spec fn backspaced(f: FieldView) -> FieldView {
    let input = if f.cursor == width16(f.input) {
        if f.input.len() > 0 {
            f.input.drop_last()
        } else {
            f.input
        }
    } else if f.cursor > 0 {
        f.input.remove(char_index(f.input, f.cursor - 1))
    } else {
        f.input
    };
    backward(FieldView { input, ..f })
}

/// Whether delete can remove the character at the cursor.
pub open spec fn can_delete(f: FieldView) -> bool {
    width16(f.input) > 0 && f.cursor < width16(f.input) - 1 ==> is_char_boundary(
        f.input,
        f.cursor as int,
    ) && f.cursor < utf8_len(f.input)
}

/// The field after delete: the character at the cursor goes; on the last
/// column the last character goes; past it nothing changes.
pub open spec fn deleted(f: FieldView) -> FieldView {
    let w = width16(f.input);
    if w > 0 && f.cursor == w - 1 {
        FieldView {
            input: if f.input.len() > 0 {
                f.input.drop_last()
            } else {
                f.input
            },
            ..f
        }
    } else if w > 0 && f.cursor < w - 1 {
        FieldView { input: f.input.remove(char_index(f.input, f.cursor as int)), ..f }
    } else {
        f
    }
}

/// Typing a character and then pressing backspace gives back the field's
/// input and cursor, wherever the cursor stands within the input (at its
/// end or between two of its characters), when the character takes one
/// column.
pub proof fn law_type_then_backspace(f: FieldView, c: char)
    requires
        f.cursor <= width16(f.input),
        can_type(f),
        width16(typed(f, c).input) == width16(f.input) + 1,
    ensures
        can_backspace(typed(f, c)),
        backspaced(typed(f, c)) == f,
{
    let t = typed(f, c);
    if f.cursor == width16(f.input) {
        assert(t.input == f.input.push(c));
        assert(t.cursor == f.cursor + 1);
        assert(t.input.drop_last() =~= f.input);
    } else {
        let b = f.cursor as int;
        let j = char_index(f.input, b);
        assert(0 <= j <= f.input.len() && utf8_len(f.input.take(j)) == b);
        let ti = f.input.insert(j, c);
        assert(t.input == ti);
        assert(t.cursor == f.cursor + 1);
        assert(ti.take(j) =~= f.input.take(j));
        assert(is_char_boundary(ti, b));
        let k = char_index(ti, b);
        assert(0 <= k <= ti.len() && utf8_len(ti.take(k)) == b);
        assert(k == j) by {
            if k < j {
                lemma_utf8_len_grows(ti, k, j);
            } else if k > j {
                lemma_utf8_len_grows(ti, j, k);
            }
        }
        lemma_utf8_len_step(ti, j);
        assert(ti[j] == c);
        if j + 1 < ti.len() {
            lemma_utf8_len_grows(ti, j + 1, ti.len() as int);
        }
        assert(ti.take(ti.len() as int) =~= ti);
        assert(b < utf8_len(ti));
        assert(ti.remove(j) =~= f.input);
    }
}

/// Whether the byte position `b` of `s` falls between two characters.
pub fn char_boundary(s: &str, b: usize) -> (r: bool)
    ensures
        r == is_char_boundary(s@, b as int),
{
    let v = crate::text::chars_of(s);
    let mut i: usize = 0;
    let mut acc: u128 = 0;
    let target: u128 = b as u128;
    while i < v.len() && acc < target
        invariant
            v@ == s@,
            i <= v.len(),
            acc == utf8_len(v@.take(i as int)),
            acc <= 4 * i,
            target == b,
            i > 0 ==> utf8_len(v@.take(i - 1)) < b,
        decreases v.len() - i,
    {
        proof {
            lemma_utf8_len_step(v@, i as int);
        }
        let c = v[i];
        let w: u128 = if c <= '\u{7f}' {
            1
        } else if c <= '\u{7ff}' {
            2
        } else if c <= '\u{ffff}' {
            3
        } else {
            4
        };
        acc = acc + w;
        i = i + 1;
    }
    proof {
        if acc == b {
            assert(utf8_len(s@.take(i as int)) == b);
        } else {
            assert forall|k: int| 0 <= k <= s@.len() implies #[trigger] utf8_len(s@.take(k))
                != b by {
                if k < i - 1 {
                    crate::text::lemma_utf8_len_grows(s@, k, i - 1);
                } else if k > i {
                    crate::text::lemma_utf8_len_grows(s@, i as int, k);
                }
            }
        }
    }
    acc == target
}

impl Field {
    /// An empty field, with the cursor at the start.
    pub fn new(name: String, title: String, field_type: FieldType, in_focus: bool) -> (r: Field)
        ensures
            r@ == (FieldView {
                name: name@,
                title: title@,
                field_type,
                in_focus,
                input: Seq::<char>::empty(),
                cursor: 0,
            }),
    {
        Field { name, title, field_type, in_focus, input: String::new(), cursor_position: 0 }
    }

    /// What the field holds.
    pub fn field_type(&self) -> (r: &FieldType)
        ensures
            *r == self@.field_type,
    {
        &self.field_type
    }

    /// The title shown above the field.
    pub fn title(&self) -> (r: &str)
        ensures
            r@ == self@.title,
    {
        self.title.as_str()
    }

    /// The name of the field.
    pub fn name(&self) -> (r: &str)
        ensures
            r@ == self@.name,
    {
        self.name.as_str()
    }

    /// Whether the field has the focus.
    pub fn in_focus(&self) -> (r: bool)
        ensures
            r == self@.in_focus,
    {
        self.in_focus
    }

    /// The cursor's column.
    pub fn cursor_position(&self) -> (r: u16)
        ensures
            r == self@.cursor,
    {
        self.cursor_position
    }

    /// The input.
    pub fn input_text(&self) -> (r: &str)
        ensures
            r@ == self@.input,
    {
        self.input.as_str()
    }

    /// Replaces the input; the cursor stays.
    pub fn set_input(&mut self, input: String)
        ensures
            final(self)@ == (FieldView { input: input@, ..old(self)@ }),
    {
        self.input = input;
    }

    /// The width of the input in columns.
    pub fn input_width(&self) -> (r: u16)
        ensures
            r == width16(self@.input),
            self@.input.len() == 0 ==> r == 0,
    {
        let w = str_width(self.input.as_str());
        assert(self@.input.len() == 0 ==> crate::bindings::printable_ascii(self@.input));
        #[verifier::truncate]
        (w as u16)
    }

    /// Moves the cursor to the end of the input.
    pub fn reset_cursor_position(&mut self)
        ensures
            final(self)@ == (FieldView { cursor: width16(old(self)@.input), ..old(self)@ }),
    {
        self.cursor_position = self.input_width();
    }

    /// Gives the focus.
    pub fn activate_focus(&mut self)
        ensures
            final(self)@ == (FieldView { in_focus: true, ..old(self)@ }),
    {
        self.in_focus = true;
    }

    /// Takes the focus away.
    pub fn deactivate_focus(&mut self)
        ensures
            final(self)@ == (FieldView { in_focus: false, ..old(self)@ }),
    {
        self.in_focus = false;
    }

    /// Moves the cursor to the end and gives or takes the focus.
    pub fn toggle_focus(&mut self)
        ensures
            final(self)@ == (FieldView {
                cursor: width16(old(self)@.input),
                in_focus: !old(self)@.in_focus,
                ..old(self)@
            }),
    {
        self.reset_cursor_position();
        self.in_focus = !self.in_focus;
    }

    /// Moves the cursor one column right, up to the end of the input.
    pub fn move_cursor_foward(&mut self)
        ensures
            final(self)@ == forward(old(self)@),
    {
        if self.cursor_position != self.input_width() {
            self.cursor_position = if self.cursor_position == u16::MAX {
                0
            } else {
                self.cursor_position + 1
            };
        }
    }

    /// Moves the cursor one column left, down to the start.
    pub fn move_cursor_backward(&mut self)
        ensures
            final(self)@ == backward(old(self)@),
    {
        if self.cursor_position != 0 {
            self.cursor_position = self.cursor_position - 1;
        }
    }

    /// Empties the input and moves the cursor to the start.
    pub fn clear_input(&mut self)
        ensures
            final(self)@ == (FieldView { input: Seq::<char>::empty(), cursor: 0, ..old(self)@ }),
    {
        self.input = String::new();
        self.cursor_position = self.input_width();
    }

    /// Whether typing at the cursor is possible.
    pub fn can_type(&self) -> (r: bool)
        ensures
            r == can_type(self@),
    {
        self.cursor_position == self.input_width() || char_boundary(
            self.input.as_str(),
            self.cursor_position as usize,
        )
    }

    /// Types `c` at the cursor.
    pub fn on_char(&mut self, c: char)
        requires
            can_type(old(self)@),
        ensures
            final(self)@ == typed(old(self)@, c),
    {
        if self.cursor_position == self.input_width() {
            push_char(&mut self.input, c);
        } else {
            let idx: usize = self.cursor_position as usize;
            insert_char(&mut self.input, idx, c);
        }
        self.move_cursor_foward();
    }

    /// Whether backspace is possible.
    pub fn can_backspace(&self) -> (r: bool)
        ensures
            r == can_backspace(self@),
    {
        if self.cursor_position != self.input_width() && self.cursor_position > 0 {
            let idx: usize = (self.cursor_position - 1) as usize;
            char_boundary(self.input.as_str(), idx) && before_end(self.input.as_str(), idx)
        } else {
            true
        }
    }

    /// Removes the character before the cursor and moves the cursor left.
    pub fn on_backspace(&mut self)
        requires
            can_backspace(old(self)@),
        ensures
            final(self)@ == backspaced(old(self)@),
    {
        if self.cursor_position == self.input_width() {
            pop_char(&mut self.input);
        } else if self.cursor_position > 0 {
            let idx: usize = (self.cursor_position - 1) as usize;
            remove_char_at(&mut self.input, idx);
        }
        self.move_cursor_backward();
    }

    /// Whether delete is possible.
    pub fn can_delete(&self) -> (r: bool)
        ensures
            r == can_delete(self@),
    {
        let w = self.input_width();
        if w > 0 && self.cursor_position < w - 1 {
            let idx: usize = self.cursor_position as usize;
            char_boundary(self.input.as_str(), idx) && before_end(self.input.as_str(), idx)
        } else {
            true
        }
    }

    /// Removes the character at the cursor.
    pub fn on_delete_key(&mut self)
        requires
            can_delete(old(self)@),
        ensures
            final(self)@ == deleted(old(self)@),
    {
        let w = self.input_width();
        if w > 0 {
            if self.cursor_position == w - 1 {
                pop_char(&mut self.input);
            } else if self.cursor_position < w - 1 {
                let idx: usize = self.cursor_position as usize;
                remove_char_at(&mut self.input, idx);
            }
        }
    }
}

/// Whether the byte position `b` is before the end of `s`.
fn before_end(s: &str, b: usize) -> (r: bool)
    ensures
        r == ((b as int) < utf8_len(s@)),
{
    let v = crate::text::chars_of(s);
    let mut i: usize = 0;
    let mut acc: u128 = 0;
    while i < v.len()
        invariant
            v@ == s@,
            i <= v.len(),
            acc == utf8_len(v@.take(i as int)),
            acc <= 4 * i,
        decreases v.len() - i,
    {
        proof {
            lemma_utf8_len_step(v@, i as int);
        }
        let c = v[i];
        let w: u128 = if c <= '\u{7f}' {
            1
        } else if c <= '\u{7ff}' {
            2
        } else if c <= '\u{ffff}' {
            3
        } else {
            4
        };
        acc = acc + w;
        i = i + 1;
    }
    assert(v@.take(v.len() as int) =~= v@);
    (b as u128) < acc
}

} // verus!
