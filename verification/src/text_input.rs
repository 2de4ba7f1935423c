//! A minimal single-line editable text buffer for prompts: modal value
//! entry, rename fields, filter and command lines. It owns the text plus a
//! cursor and the editing operations, so every prompt edits the same way.

use vstd::prelude::*;
use vstd::string::*;
use vstd::utf8::*;

use crate::key::{contains_modifier, has_modifier, KeyCode, KeyEvent, KeyModifiers};
use crate::encoding::{
    byte_len, char_to_string, char_width, lemma_prefix_bytes, lemma_prefix_is_char_boundary,
    lemma_prefix_step, lemma_prefix_unique, lemma_slice_is_prefix, lemma_slice_is_suffix,
    chars_of, str_byte_len, utf8_width,
};

verus! {

/// What an editor holds, as the contracts see it: the text, and the cursor
/// as the number of characters before it.
pub type EditState = (Seq<char>, nat);

/// The cursor lies within the text.
pub open spec fn state_ok(v: EditState) -> bool {
    v.1 <= v.0.len()
}

/// Typing `c`: it goes in at the cursor, and the cursor moves past it.
pub open spec fn insert_spec(v: EditState, c: char) -> EditState {
    (v.0.take(v.1 as int) + seq![c] + v.0.skip(v.1 as int), v.1 + 1)
}

/// Pasting `s`: it goes in at the cursor, and the cursor moves past it.
pub open spec fn insert_str_spec(v: EditState, s: Seq<char>) -> EditState {
    (v.0.take(v.1 as int) + s + v.0.skip(v.1 as int), v.1 + s.len())
}

/// Backspace: the character before the cursor goes; nothing at the start.
pub open spec fn backspace_spec(v: EditState) -> EditState {
    if v.1 == 0 {
        v
    } else {
        (v.0.take(v.1 - 1) + v.0.skip(v.1 as int), (v.1 - 1) as nat)
    }
}

/// Delete: the character at the cursor goes; nothing at the end.
pub open spec fn delete_forward_spec(v: EditState) -> EditState {
    if v.1 < v.0.len() {
        (v.0.take(v.1 as int) + v.0.skip(v.1 + 1int), v.1)
    } else {
        v
    }
}

/// One character left; nothing at the start.
pub open spec fn left_spec(v: EditState) -> EditState {
    if v.1 > 0 {
        (v.0, (v.1 - 1) as nat)
    } else {
        v
    }
}

/// One character right; nothing at the end.
pub open spec fn right_spec(v: EditState) -> EditState {
    if v.1 < v.0.len() {
        (v.0, v.1 + 1)
    } else {
        v
    }
}

/// Cursor to the start.
pub open spec fn home_spec(v: EditState) -> EditState {
    (v.0, 0)
}

/// Cursor to the end.
pub open spec fn end_spec(v: EditState) -> EditState {
    (v.0, v.0.len())
}

/// Length of `h` once its trailing spaces are removed.
pub open spec fn without_trailing_spaces(h: Seq<char>) -> nat
    decreases h.len(),
{
    if h.len() > 0 && h.last() == ' ' {
        without_trailing_spaces(h.drop_last())
    } else {
        h.len()
    }
}

/// Position just after the last space of `h`, or 0 when it holds none.
pub open spec fn after_last_space(h: Seq<char>) -> nat
    decreases h.len(),
{
    if h.len() == 0 {
        0
    } else if h.last() == ' ' {
        h.len()
    } else {
        after_last_space(h.drop_last())
    }
}

/// Where the word before the end of `h` starts: skip the trailing spaces,
/// then the run of non-space characters before them.
pub open spec fn word_start(h: Seq<char>) -> nat {
    after_last_space(h.take(without_trailing_spaces(h) as int))
}

/// Ctrl-W: the trailing spaces before the cursor, then the word before
/// them, are deleted; the cursor lands where the word started.
pub open spec fn delete_word_back_spec(v: EditState) -> EditState {
    let j = word_start(v.0.take(v.1 as int));
    (v.0.take(j as int) + v.0.skip(v.1 as int), j)
}

/// Characters with the Unicode `White_Space` property (what
/// `char::is_whitespace` and `str::trim` treat as whitespace).
pub open spec fn is_white_space(c: char) -> bool {
    let u = c as u32;
    ||| 0x09 <= u <= 0x0D
    ||| u == 0x20
    ||| u == 0x85
    ||| u == 0xA0
    ||| u == 0x1680
    ||| 0x2000 <= u <= 0x200A
    ||| u == 0x2028
    ||| u == 0x2029
    ||| u == 0x202F
    ||| u == 0x205F
    ||| u == 0x3000
}

/// `s` without its leading whitespace.
pub open spec fn trim_start_spec(s: Seq<char>) -> Seq<char>
    decreases s.len(),
{
    if s.len() > 0 && is_white_space(s[0]) {
        trim_start_spec(s.drop_first())
    } else {
        s
    }
}

/// `s` without its trailing whitespace.
pub open spec fn trim_end_spec(s: Seq<char>) -> Seq<char>
    decreases s.len(),
{
    if s.len() > 0 && is_white_space(s.last()) {
        trim_end_spec(s.drop_last())
    } else {
        s
    }
}

/// `s` without leading and trailing whitespace.
pub open spec fn trim_spec(s: Seq<char>) -> Seq<char> {
    trim_end_spec(trim_start_spec(s))
}

/// Whether `c` is whitespace in the sense of [`is_white_space`].
pub fn is_whitespace_char(c: char) -> (r: bool)
    ensures
        r == is_white_space(c),
{
    let u = c as u32;
    (0x09 <= u && u <= 0x0D) || u == 0x20 || u == 0x85 || u == 0xA0 || u == 0x1680 || (0x2000 <= u
        && u <= 0x200A) || u == 0x2028 || u == 0x2029 || u == 0x202F || u == 0x205F || u == 0x3000
}

/// What one key press does to the editor, and whether it was an editing
/// action. Every key held with Ctrl, Alt or Super is left to the caller
/// (editing keys and characters alike), except the emacs-style chords
/// Ctrl-W / Ctrl-A / Ctrl-E; so are keys that do not edit (Enter, Esc,
/// Tab, ...).
pub open spec fn handle_key_spec(v: EditState, key: KeyEvent) -> (EditState, bool) {
    let ctrl = has_modifier(key.modifiers, KeyModifiers::CONTROL);
    let alt = has_modifier(key.modifiers, KeyModifiers::ALT);
    let logo = has_modifier(key.modifiers, KeyModifiers::SUPER);
    let plain = !ctrl && !alt && !logo;
    match key.code {
        KeyCode::Backspace => if plain {
            (backspace_spec(v), true)
        } else {
            (v, false)
        },
        KeyCode::Delete => if plain {
            (delete_forward_spec(v), true)
        } else {
            (v, false)
        },
        KeyCode::Left => if plain {
            (left_spec(v), true)
        } else {
            (v, false)
        },
        KeyCode::Right => if plain {
            (right_spec(v), true)
        } else {
            (v, false)
        },
        KeyCode::Home => if plain {
            (home_spec(v), true)
        } else {
            (v, false)
        },
        KeyCode::End => if plain {
            (end_spec(v), true)
        } else {
            (v, false)
        },
        KeyCode::Char(c) => {
            if c == 'w' && ctrl {
                (delete_word_back_spec(v), true)
            } else if c == 'a' && ctrl {
                (home_spec(v), true)
            } else if c == 'e' && ctrl {
                (end_spec(v), true)
            } else if plain {
                (insert_spec(v, c), true)
            } else {
                (v, false)
            }
        },
        _ => (v, false),
    }
}

/// Single-line editable text with a cursor. The cursor is kept as a byte
/// offset into the text, always on a `char` boundary and within the text.
#[derive(Debug, PartialEq, Eq)]
pub struct TextInput {
    buf: String,
    cursor: usize,
}

/// `b` is the byte offset of the end of a prefix of `s`.
pub open spec fn is_prefix_end(s: Seq<char>, b: int) -> bool {
    exists|k: int| 0 <= k <= s.len() && byte_len(s.take(k)) == b
}

impl TextInput {
    #[verifier::type_invariant]
    spec fn inv(self) -> bool {
        &&& byte_len(self.buf@) <= usize::MAX
        &&& is_prefix_end(self.buf@, self.cursor as int)
    }

    /// Number of characters before the cursor.
    pub closed spec fn col(self) -> nat {
        let k = choose|k: int|
            0 <= k <= self.buf@.len() && byte_len(self.buf@.take(k)) == self.cursor;
        if 0 <= k <= self.buf@.len() {
            k as nat
        } else {
            self.buf@.len()
        }
    }

    /// The cursor of every editor lies within its text.
    pub proof fn view_ok(self)
        ensures
            state_ok(self@),
    {
    }

    proof fn lemma_col(self, k: int)
        requires
            0 <= k <= self.buf@.len(),
            byte_len(self.buf@.take(k)) == self.cursor,
        ensures
            self.col() == k,
    {
        let j = choose|j: int|
            0 <= j <= self.buf@.len() && byte_len(self.buf@.take(j)) == self.cursor;
        lemma_prefix_unique(self.buf@, j, k);
    }

    proof fn lemma_col_valid(self)
        requires
            is_prefix_end(self.buf@, self.cursor as int),
        ensures
            self.col() <= self.buf@.len(),
            byte_len(self.buf@.take(self.col() as int)) == self.cursor,
    {
    }

    /// A buffer whose cursor sits after `head`, followed by `tail`.
    fn assemble(head: String, tail: &str) -> (r: Self)
        ensures
            r@ == (head@ + tail@, head@.len()),
    {
        let cursor = str_byte_len(head.as_str());
        let ghost s = head@ + tail@;
        let buf = head.concat(tail);
        let _total = str_byte_len(buf.as_str());
        proof {
            assert(s.take(head@.len() as int) =~= head@);
        }
        let r = TextInput { buf, cursor };
        proof {
            r.lemma_col(head@.len() as int);
        }
        r
    }

    /// The text before and after the cursor.
    fn split(&self) -> (r: (&str, &str))
        ensures
            r.0@ == self@.0.take(self@.1 as int),
            r.1@ == self@.0.skip(self@.1 as int),
            self@.1 <= self@.0.len(),
    {
        proof {
            use_type_invariant(self);
            self.lemma_col_valid();
            lemma_prefix_is_char_boundary(self.buf@, self.col() as int);
        }
        let (h, t) = self.buf.as_str().split_at(self.cursor);
        proof {
            lemma_slice_is_prefix(self.buf@, self.col() as int, h@);
            lemma_slice_is_suffix(self.buf@, self.col() as int, t@);
        }
        (h, t)
    }

    /// Empty buffer, cursor at the start.
    pub fn new() -> (r: Self)
        ensures
            r@ == (Seq::<char>::empty(), 0nat),
    {
        let buf = String::new();
        proof {
            assert(buf@.take(0) =~= Seq::<char>::empty());
            assert(encode_utf8(Seq::<char>::empty()) =~= Seq::<u8>::empty());
        }
        let r = TextInput { buf, cursor: 0 };
        proof {
            r.lemma_col(0);
        }
        r
    }

    /// Seed with existing text, cursor at the end: the natural spot when
    /// editing a pre-filled value (e.g. a rename).
    pub fn with_text(text: &str) -> (r: Self)
        ensures
            r@ == (text@, text@.len()),
    {
        let buf = String::from_str(text);
        let cursor = str_byte_len(text);
        proof {
            assert(buf@.take(buf@.len() as int) =~= buf@);
        }
        let r = TextInput { buf, cursor };
        proof {
            r.lemma_col(text@.len() as int);
        }
        r
    }

    /// The current text.
    pub fn text(&self) -> (r: &str)
        ensures
            r@ == self@.0,
    {
        self.buf.as_str()
    }

    /// The text with surrounding whitespace trimmed (for accept-time
    /// validation).
    pub fn trimmed(&self) -> (r: &str)
        ensures
            r@ == trim_spec(self@.0),
    {
        let s = self.buf.as_str();
        let v = chars_of(s);
        let n = v.len();
        let mut i: usize = 0;
        proof {
            assert(v@.subrange(0, n as int) =~= v@);
        }
        while i < n && is_whitespace_char(v[i])
            invariant
                i <= n == v@.len(),
                trim_start_spec(v@) == trim_start_spec(v@.subrange(i as int, n as int)),
            decreases n - i,
        {
            proof {
                assert(v@.subrange(i as int, n as int).drop_first() =~= v@.subrange(
                    i + 1,
                    n as int,
                ));
            }
            i = i + 1;
        }
        let ghost u = v@.subrange(i as int, n as int);
        proof {
            assert(trim_start_spec(v@) == u);
        }
        let mut j: usize = n;
        proof {
            assert(u.take(j - i) =~= u);
        }
        while j > i && is_whitespace_char(v[j - 1])
            invariant
                i <= j <= n == v@.len(),
                u == v@.subrange(i as int, n as int),
                trim_end_spec(u) == trim_end_spec(u.take(j - i)),
            decreases j,
        {
            proof {
                assert(u.take(j - i).drop_last() =~= u.take(j - 1 - i));
            }
            j = j - 1;
        }
        proof {
            assert(trim_end_spec(u.take(j - i)) == u.take(j - i));
            assert(u.take(j - i) =~= v@.subrange(i as int, j as int));
        }
        s.substring_char(i, j)
    }

    /// True when the buffer is empty.
    pub fn is_empty(&self) -> (r: bool)
        ensures
            r == (self@.0.len() == 0),
    {
        self.buf.as_str().is_empty()
    }

    /// Empty the buffer and reset the cursor to the start.
    pub fn clear(&mut self)
        ensures
            final(self)@ == (Seq::<char>::empty(), 0nat),
    {
        *self = Self::new();
    }

    /// Display column of the cursor: the number of characters before it.
    /// Renderers add this to the input box's left edge to place the
    /// terminal cursor.
    pub fn cursor_col(&self) -> (r: usize)
        ensures
            r == self@.1,
            r <= self@.0.len(),
    {
        let (h, _t) = self.split();
        h.unicode_len()
    }

    /// Insert a character at the cursor, advancing past it.
    pub fn insert(&mut self, c: char)
        ensures
            final(self)@ == insert_spec(old(self)@, c),
            final(self)@.0 == old(self)@.0.insert(old(self)@.1 as int, c),
            final(self)@.1 == old(self)@.1 + 1,
    {
        proof {
            self.view_ok();
            assert(insert_spec(self@, c).0 =~= self@.0.insert(self@.1 as int, c));
        }
        let (h, t) = self.split();
        let mut head = String::from_str(h);
        let tail = String::from_str(t);
        let cs = char_to_string(c);
        head.append(cs.as_str());
        *self = Self::assemble(head, tail.as_str());
        proof {
            assert(final(self)@.0 =~= insert_spec(old(self)@, c).0);
        }
    }

    /// Insert a string at the cursor (paste), advancing past it.
    pub fn insert_str(&mut self, s: &str)
        ensures
            final(self)@ == insert_str_spec(old(self)@, s@),
    {
        let (h, t) = self.split();
        let mut head = String::from_str(h);
        let tail = String::from_str(t);
        head.append(s);
        *self = Self::assemble(head, tail.as_str());
        proof {
            assert(final(self)@.0 =~= insert_str_spec(old(self)@, s@).0);
        }
    }

    /// The character at the cursor goes.
    fn remove_at_cursor(&mut self)
        requires
            old(self)@.1 < old(self)@.0.len(),
        ensures
            final(self)@ == (
                old(self)@.0.take(old(self)@.1 as int) + old(self)@.0.skip(old(self)@.1 + 1int),
                old(self)@.1,
            ),
    {
        let (h, t) = self.split();
        let n = t.unicode_len();
        let head = String::from_str(h);
        let rest = String::from_str(t.substring_char(1, n));
        *self = Self::assemble(head, rest.as_str());
        proof {
            assert(final(self)@.0 =~= old(self)@.0.take(old(self)@.1 as int) + old(self)@.0.skip(
                old(self)@.1 + 1int,
            ));
        }
    }

    /// Byte length of the char immediately before the cursor (0 at the
    /// start).
    fn prev_char_len(&self) -> (r: usize)
        ensures
            r == (if self@.1 > 0 {
                char_width(self@.0[self@.1 - 1])
            } else {
                0
            }),
    {
        let (h, _t) = self.split();
        let n = h.unicode_len();
        if n == 0 {
            0
        } else {
            utf8_width(h.get_char(n - 1))
        }
    }

    /// Delete the char before the cursor (Backspace). No-op at the start.
    pub fn backspace(&mut self)
        ensures
            final(self)@ == backspace_spec(old(self)@),
            old(self)@.1 == 0 ==> final(self)@ == old(self)@,
            old(self)@.1 > 0 ==> final(self)@.0.len() == old(self)@.0.len() - 1 && final(self)@.1
                == old(self)@.1 - 1 && final(self)@.0 == old(self)@.0.remove(old(self)@.1 - 1),
    {
        proof {
            self.view_ok();
            backspace_removes_char_before_cursor(self@);
            if self@.1 > 0 {
                assert(backspace_spec(self@).0 =~= self@.0.remove(self@.1 - 1));
            }
        }
        if self.cursor == 0 {
            proof {
                use_type_invariant(&*self);
                self.lemma_col_valid();
                if self.col() > 0 {
                    lemma_prefix_bytes(self.buf@, 0, self.col() as int);
                }
            }
            return;
        }
        proof {
            use_type_invariant(&*self);
            self.lemma_col_valid();
            assert(self.buf@.take(0) =~= Seq::<char>::empty());
            assert(encode_utf8(Seq::<char>::empty()) =~= Seq::<u8>::empty());
        }
        self.left();
        self.remove_at_cursor();
        proof {
            assert(final(self)@.0 =~= backspace_spec(old(self)@).0);
        }
    }

    /// Delete the char at the cursor (Delete). No-op at the end.
    pub fn delete_forward(&mut self)
        ensures
            final(self)@ == delete_forward_spec(old(self)@),
            old(self)@.1 == old(self)@.0.len() ==> final(self)@ == old(self)@,
            old(self)@.1 < old(self)@.0.len() ==> final(self)@.1 == old(self)@.1 && final(self)@.0
                == old(self)@.0.remove(old(self)@.1 as int),
    {
        proof {
            self.view_ok();
            if self@.1 < self@.0.len() {
                assert(delete_forward_spec(self@).0 =~= self@.0.remove(self@.1 as int));
            }
        }
        proof {
            use_type_invariant(&*self);
            self.lemma_col_valid();
            lemma_prefix_bytes(self.buf@, self.col() as int, self.buf@.len() as int);
            assert(self.buf@.take(self.buf@.len() as int) =~= self.buf@);
        }
        if self.cursor < str_byte_len(self.buf.as_str()) {
            self.remove_at_cursor();
        }
    }

    /// Move the cursor one char left.
    pub fn left(&mut self)
        ensures
            final(self)@ == left_spec(old(self)@),
            final(self)@.0 == old(self)@.0,
            final(self)@.1 == (if old(self)@.1 > 0 {
                old(self)@.1 - 1
            } else {
                0int
            }),
    {
        proof {
            use_type_invariant(&*self);
            self.lemma_col_valid();
            if self.col() > 0 {
                lemma_prefix_bytes(self.buf@, 0, self.col() as int);
            }
            assert(self.buf@.take(0) =~= Seq::<char>::empty());
            assert(encode_utf8(Seq::<char>::empty()) =~= Seq::<u8>::empty());
        }
        if self.cursor > 0 {
            let p = self.prev_char_len();
            let ghost k = self.col() as int;
            proof {
                lemma_prefix_step(self.buf@, k - 1);
            }
            let c = self.cursor - p;
            proof {
                assert(is_prefix_end(self.buf@, c as int));
            }
            self.cursor = c;
            proof {
                self.lemma_col(k - 1);
            }
        }
    }

    /// Move the cursor one char right.
    pub fn right(&mut self)
        ensures
            final(self)@ == right_spec(old(self)@),
            final(self)@.0 == old(self)@.0,
            final(self)@.1 == (if old(self)@.1 < old(self)@.0.len() {
                old(self)@.1 + 1
            } else {
                old(self)@.0.len()
            }),
    {
        proof {
            self.view_ok();
        }
        proof {
            use_type_invariant(&*self);
            self.lemma_col_valid();
            lemma_prefix_bytes(self.buf@, self.col() as int, self.buf@.len() as int);
            assert(self.buf@.take(self.buf@.len() as int) =~= self.buf@);
        }
        if self.cursor < str_byte_len(self.buf.as_str()) {
            let (_h, t) = self.split();
            let next = utf8_width(t.get_char(0));
            let ghost k = self.col() as int;
            proof {
                lemma_prefix_step(self.buf@, k);
                lemma_prefix_bytes(self.buf@, k + 1, self.buf@.len() as int);
            }
            let c = self.cursor + next;
            proof {
                assert(is_prefix_end(self.buf@, c as int));
            }
            self.cursor = c;
            proof {
                self.lemma_col(k + 1);
            }
        }
    }

    /// Move the cursor to the start.
    pub fn home(&mut self)
        ensures
            final(self)@ == home_spec(old(self)@),
    {
        proof {
            use_type_invariant(&*self);
            assert(self.buf@.take(0) =~= Seq::<char>::empty());
            assert(encode_utf8(Seq::<char>::empty()) =~= Seq::<u8>::empty());
            assert(is_prefix_end(self.buf@, 0));
        }
        self.cursor = 0;
        proof {
            self.lemma_col(0);
        }
    }

    /// Move the cursor to the end.
    pub fn end(&mut self)
        ensures
            final(self)@ == end_spec(old(self)@),
    {
        let c = str_byte_len(self.buf.as_str());
        proof {
            use_type_invariant(&*self);
            assert(self.buf@.take(self.buf@.len() as int) =~= self.buf@);
            assert(is_prefix_end(self.buf@, c as int));
        }
        self.cursor = c;
        proof {
            self.lemma_col(self.buf@.len() as int);
        }
    }

    /// Delete the word before the cursor (Ctrl-W): the run of trailing
    /// spaces, then the run of non-space chars up to the previous space.
    pub fn delete_word_back(&mut self)
        ensures
            final(self)@ == delete_word_back_spec(old(self)@),
    {
        let (h, t) = self.split();
        let hv = chars_of(h);
        let mut m: usize = hv.len();
        proof {
            assert(hv@.take(m as int) =~= hv@);
        }
        while m > 0 && hv[m - 1] == ' '
            invariant
                m <= hv@.len(),
                without_trailing_spaces(hv@) == without_trailing_spaces(hv@.take(m as int)),
            decreases m,
        {
            proof {
                assert(hv@.take(m as int).drop_last() =~= hv@.take(m - 1));
            }
            m = m - 1;
        }
        let ghost trimmed = hv@.take(m as int);
        proof {
            assert(without_trailing_spaces(hv@) == m);
        }
        let mut j: usize = m;
        proof {
            assert(trimmed.take(j as int) =~= trimmed);
        }
        while j > 0 && hv[j - 1] != ' '
            invariant
                j <= m <= hv@.len(),
                trimmed == hv@.take(m as int),
                after_last_space(trimmed) == after_last_space(trimmed.take(j as int)),
            decreases j,
        {
            proof {
                assert(trimmed.take(j as int).drop_last() =~= trimmed.take(j - 1));
            }
            j = j - 1;
        }
        proof {
            assert(after_last_space(trimmed.take(j as int)) == j);
            assert(word_start(h@) == j);
        }
        let head = String::from_str(h.substring_char(0, j));
        let tail = String::from_str(t);
        *self = Self::assemble(head, tail.as_str());
        proof {
            assert(final(self)@.0 =~= delete_word_back_spec(old(self)@).0);
        }
    }

    /// Apply a single editing keypress. Returns `true` if the key was an
    /// editing action (consumed), `false` if the caller should handle it
    /// (Enter/Esc/Tab/...). `Ctrl`/`Alt`/`Super`-modified keys, editing
    /// keys included, other than the recognised emacs-style chords are left
    /// unhandled so global chords (and OS shortcuts like Cmd+V on terminals
    /// that report the Super modifier) still reach the dispatcher rather
    /// than being typed or applied as edits.
    pub fn handle_key(&mut self, key: KeyEvent) -> (r: bool)
        ensures
            (final(self)@, r) == handle_key_spec(old(self)@, key),
            key.modifiers & 2 != 2 && key.modifiers & 4 != 4 && key.modifiers & 8 != 8 ==> {
                &&& key.code == KeyCode::Right ==> r && final(self)@.0 == old(self)@.0
                    && final(self)@.1 == (if old(self)@.1 < old(self)@.0.len() {
                    old(self)@.1 + 1
                } else {
                    old(self)@.0.len()
                })
                &&& key.code == KeyCode::Left ==> r && final(self)@.0 == old(self)@.0
                    && final(self)@.1 == (if old(self)@.1 > 0 {
                    old(self)@.1 - 1
                } else {
                    0int
                })
                &&& key.code == KeyCode::Home ==> r && final(self)@.0 == old(self)@.0
                    && final(self)@.1 == 0
                &&& key.code == KeyCode::End ==> r && final(self)@.0 == old(self)@.0
                    && final(self)@.1 == old(self)@.0.len()
                &&& key.code == KeyCode::Backspace && old(self)@.1 == 0 ==> r && final(self)@
                    == old(self)@
            },
    {
        proof {
            self.view_ok();
            handle_key_dispatch(self@, key);
            backspace_removes_char_before_cursor(self@);
        }
        let ctrl = contains_modifier(key.modifiers, KeyModifiers::CONTROL);
        let alt = contains_modifier(key.modifiers, KeyModifiers::ALT);
        let logo = contains_modifier(key.modifiers, KeyModifiers::SUPER);
        let plain = !ctrl && !alt && !logo;
        match key.code {
            KeyCode::Char(c) => {
                if c == 'w' && ctrl {
                    self.delete_word_back();
                } else if c == 'a' && ctrl {
                    self.home();
                } else if c == 'e' && ctrl {
                    self.end();
                } else if plain {
                    self.insert(c);
                } else {
                    return false;
                }
            },
            _ => {
                if !plain {
                    return false;
                }
                match key.code {
                    KeyCode::Backspace => self.backspace(),
                    KeyCode::Delete => self.delete_forward(),
                    KeyCode::Left => self.left(),
                    KeyCode::Right => self.right(),
                    KeyCode::Home => self.home(),
                    KeyCode::End => self.end(),
                    _ => {
                        return false;
                    },
                }
            },
        }
        true
    }
}

impl Clone for TextInput {
    fn clone(&self) -> (r: Self)
        ensures
            r@ == self@,
    {
        proof {
            use_type_invariant(self);
        }
        TextInput { buf: self.buf.clone(), cursor: self.cursor }
    }
}

impl Default for TextInput {
    fn default() -> (r: Self)
        ensures
            r@ == (Seq::<char>::empty(), 0nat),
    {
        Self::new()
    }
}

impl<'a> From<&'a str> for TextInput {
    fn from(s: &'a str) -> (r: Self)
        ensures
            r@ == (s@, s@.len()),
    {
        Self::with_text(s)
    }
}

// What a conversion gives is stated on `from` itself (seeded text, cursor
// at the end); no separate spec-level value is offered for it.
impl<'a> vstd::std_specs::convert::FromSpecImpl<&'a str> for TextInput {
    open spec fn obeys_from_spec() -> bool {
        false
    }

    open spec fn from_spec(v: &'a str) -> TextInput {
        arbitrary()
    }
}

impl From<String> for TextInput {
    fn from(s: String) -> (r: Self)
        ensures
            r@ == (s@, s@.len()),
    {
        Self::with_text(s.as_str())
    }
}

// As above: `from` states its result.
impl vstd::std_specs::convert::FromSpecImpl<String> for TextInput {
    open spec fn obeys_from_spec() -> bool {
        false
    }

    open spec fn from_spec(v: String) -> TextInput {
        arbitrary()
    }
}

impl View for TextInput {
    type V = EditState;

    closed spec fn view(&self) -> EditState {
        (self.buf@, self.col())
    }
}

} // verus!

verus! {

/// Every editing operation keeps the cursor within the text.
pub proof fn edits_keep_cursor_in_text(v: EditState, c: char, s: Seq<char>, key: KeyEvent)
    requires
        state_ok(v),
    ensures
        state_ok(insert_spec(v, c)),
        state_ok(insert_str_spec(v, s)),
        state_ok(backspace_spec(v)),
        state_ok(delete_forward_spec(v)),
        state_ok(delete_word_back_spec(v)),
        state_ok(left_spec(v)),
        state_ok(right_spec(v)),
        state_ok(home_spec(v)),
        state_ok(end_spec(v)),
        state_ok(handle_key_spec(v, key).0),
{
    lemma_word_start_bound(v.0.take(v.1 as int));
}

/// The word start lies within the text before the cursor.
pub proof fn lemma_word_start_bound(h: Seq<char>)
    ensures
        word_start(h) <= h.len(),
{
    lemma_without_trailing_spaces_bound(h);
    lemma_after_last_space_bound(h.take(without_trailing_spaces(h) as int));
}

proof fn lemma_without_trailing_spaces_bound(h: Seq<char>)
    ensures
        without_trailing_spaces(h) <= h.len(),
    decreases h.len(),
{
    if h.len() > 0 && h.last() == ' ' {
        lemma_without_trailing_spaces_bound(h.drop_last());
    }
}

proof fn lemma_after_last_space_bound(h: Seq<char>)
    ensures
        after_last_space(h) <= h.len(),
    decreases h.len(),
{
    if h.len() > 0 && h.last() != ' ' {
        lemma_after_last_space_bound(h.drop_last());
    }
}

/// Backspace right after typing a character undoes it.
pub proof fn backspace_undoes_insert(v: EditState, c: char)
    requires
        state_ok(v),
    ensures
        backspace_spec(insert_spec(v, c)) == v,
{
    let w = insert_spec(v, c);
    assert(w.0.take(w.1 - 1) =~= v.0.take(v.1 as int));
    assert(w.0.skip(w.1 as int) =~= v.0.skip(v.1 as int));
    assert(v.0.take(v.1 as int) + v.0.skip(v.1 as int) =~= v.0);
}

/// Typing a character, stepping back over it and deleting forward leaves
/// the text as it was, with the cursor where it was.
pub proof fn delete_forward_undoes_insert_after_left(v: EditState, c: char)
    requires
        state_ok(v),
    ensures
        delete_forward_spec(left_spec(insert_spec(v, c))) == v,
{
    let w = left_spec(insert_spec(v, c));
    assert(w.0.take(w.1 as int) =~= v.0.take(v.1 as int));
    assert(w.0.skip(w.1 + 1int) =~= v.0.skip(v.1 as int));
    assert(v.0.take(v.1 as int) + v.0.skip(v.1 as int) =~= v.0);
}

/// Pasting a string is pasting its pieces one after the other, and pasting
/// one character is typing it.
pub proof fn insert_str_composes(v: EditState, a: Seq<char>, b: Seq<char>, c: char)
    requires
        state_ok(v),
    ensures
        insert_str_spec(v, a + b) == insert_str_spec(insert_str_spec(v, a), b),
        insert_str_spec(v, seq![c]) == insert_spec(v, c),
{
    let w = insert_str_spec(v, a);
    assert(w.0.take(w.1 as int) =~= v.0.take(v.1 as int) + a);
    assert(w.0.skip(w.1 as int) =~= v.0.skip(v.1 as int));
    assert(insert_str_spec(v, a + b).0 =~= insert_str_spec(w, b).0);
}

/// Moving the cursor never changes the text; left and right undo each
/// other away from the ends; home and end reach the ends.
pub proof fn cursor_moves(v: EditState)
    requires
        state_ok(v),
    ensures
        left_spec(v).0 == v.0,
        right_spec(v).0 == v.0,
        home_spec(v).0 == v.0,
        end_spec(v).0 == v.0,
        v.1 < v.0.len() ==> left_spec(right_spec(v)) == v,
        v.1 > 0 ==> right_spec(left_spec(v)) == v,
        home_spec(v).1 == 0,
        end_spec(v).1 == v.0.len(),
{
}

/// Ctrl-W only deletes before the cursor: the text after it is kept, and
/// the cursor does not move right.
pub proof fn delete_word_back_keeps_rest(v: EditState)
    requires
        state_ok(v),
    ensures
        delete_word_back_spec(v).1 <= v.1,
        delete_word_back_spec(v).0.take(delete_word_back_spec(v).1 as int) == v.0.take(
            delete_word_back_spec(v).1 as int,
        ),
        delete_word_back_spec(v).0.skip(delete_word_back_spec(v).1 as int) == v.0.skip(
            v.1 as int,
        ),
{
    let h = v.0.take(v.1 as int);
    lemma_word_start_bound(h);
    let r = delete_word_back_spec(v);
    assert(r.0.take(r.1 as int) =~= v.0.take(r.1 as int));
    assert(r.0.skip(r.1 as int) =~= v.0.skip(v.1 as int));
}

/// A key that is not an editing action leaves the editor as it was.
pub proof fn unconsumed_key_changes_nothing(v: EditState, key: KeyEvent)
    ensures
        !handle_key_spec(v, key).1 ==> handle_key_spec(v, key).0 == v,
{
}

/// Trimming is idempotent.
pub proof fn trim_idempotent(s: Seq<char>)
    ensures
        trim_spec(trim_spec(s)) == trim_spec(s),
{
    lemma_trim_start_result(s);
    lemma_trim_end_keeps_start(trim_start_spec(s));
    lemma_trim_start_fixed(trim_end_spec(trim_start_spec(s)));
    lemma_trim_end_fixed(trim_start_spec(s));
}

proof fn lemma_trim_start_result(s: Seq<char>)
    ensures
        trim_start_spec(s).len() > 0 ==> !is_white_space(trim_start_spec(s)[0]),
    decreases s.len(),
{
    if s.len() > 0 && is_white_space(s[0]) {
        lemma_trim_start_result(s.drop_first());
    }
}

proof fn lemma_trim_end_keeps_start(s: Seq<char>)
    requires
        s.len() > 0 ==> !is_white_space(s[0]),
    ensures
        trim_end_spec(s).len() > 0 ==> !is_white_space(trim_end_spec(s)[0]),
    decreases s.len(),
{
    if s.len() > 0 && is_white_space(s.last()) {
        let t = s.drop_last();
        if t.len() > 0 {
            assert(t[0] == s[0]);
        }
        lemma_trim_end_keeps_start(t);
    }
}

proof fn lemma_trim_start_fixed(s: Seq<char>)
    requires
        s.len() > 0 ==> !is_white_space(s[0]),
    ensures
        trim_start_spec(s) == s,
{
}

proof fn lemma_trim_end_fixed(s: Seq<char>)
    ensures
        trim_end_spec(trim_end_spec(s)) == trim_end_spec(s),
    decreases s.len(),
{
    if s.len() > 0 && is_white_space(s.last()) {
        lemma_trim_end_fixed(s.drop_last());
    }
}

/// Typing `c` at column `k`: the text grows by one, `c` sits at `k`, the
/// characters before `k` stay, those from `k` on move one place right, and
/// the cursor lands just after `c`.
pub proof fn insert_places_char_at_cursor(v: EditState, c: char)
    requires
        state_ok(v),
    ensures
        insert_spec(v, c).0.len() == v.0.len() + 1,
        insert_spec(v, c).1 == v.1 + 1,
        insert_spec(v, c).0[v.1 as int] == c,
        forall|i: int| 0 <= i < v.1 ==> #[trigger] insert_spec(v, c).0[i] == v.0[i],
        forall|i: int| v.1 <= i < v.0.len() ==> #[trigger] insert_spec(v, c).0[i + 1] == v.0[i],
{
}

/// Pasting `t` at column `k`: `t` sits at `k..k+|t|`, the characters before
/// `k` stay, those from `k` on move `|t|` places right, and the cursor lands
/// just after the pasted text.
pub proof fn insert_str_places_text_at_cursor(v: EditState, t: Seq<char>)
    requires
        state_ok(v),
    ensures
        insert_str_spec(v, t).0.len() == v.0.len() + t.len(),
        insert_str_spec(v, t).1 == v.1 + t.len(),
        forall|i: int| 0 <= i < t.len() ==> #[trigger] insert_str_spec(v, t).0[v.1 + i] == t[i],
        forall|i: int| 0 <= i < v.1 ==> #[trigger] insert_str_spec(v, t).0[i] == v.0[i],
        forall|i: int|
            v.1 <= i < v.0.len() ==> #[trigger] insert_str_spec(v, t).0[i + t.len()] == v.0[i],
{
    let w = insert_str_spec(v, t);
    assert forall|i: int| 0 <= i < t.len() implies #[trigger] w.0[v.1 + i] == t[i] by {
        assert(w.0[v.1 + i] == (v.0.take(v.1 as int) + t)[v.1 + i]);
    }
}

/// Backspace: at column 0 nothing changes; at column `k > 0` the character
/// at `k - 1` goes, the ones before it stay, the ones after it move one
/// place left, and the cursor moves to `k - 1`.
pub proof fn backspace_removes_char_before_cursor(v: EditState)
    requires
        state_ok(v),
    ensures
        v.1 == 0 ==> backspace_spec(v) == v,
        v.1 > 0 ==> {
            let w = backspace_spec(v);
            &&& w.0.len() == v.0.len() - 1
            &&& w.1 == v.1 - 1
            &&& forall|i: int| 0 <= i < v.1 - 1 ==> #[trigger] w.0[i] == v.0[i]
            &&& forall|i: int| v.1 - 1 <= i < w.0.len() ==> #[trigger] w.0[i] == v.0[i + 1]
        },
{
}

/// Delete: at the end nothing changes; before it the character at the
/// cursor goes, the ones before stay, the ones after move one place left,
/// and the cursor stays.
pub proof fn delete_forward_removes_char_at_cursor(v: EditState)
    requires
        state_ok(v),
    ensures
        v.1 == v.0.len() ==> delete_forward_spec(v) == v,
        v.1 < v.0.len() ==> {
            let w = delete_forward_spec(v);
            &&& w.0.len() == v.0.len() - 1
            &&& w.1 == v.1
            &&& forall|i: int| 0 <= i < v.1 ==> #[trigger] w.0[i] == v.0[i]
            &&& forall|i: int| v.1 <= i < w.0.len() ==> #[trigger] w.0[i] == v.0[i + 1]
        },
{
}

/// Cursor moves keep the text and move the column by the arithmetic their
/// names say: left to `max(k - 1, 0)`, right to `min(k + 1, len)`, home to
/// 0, end to `len`.
pub proof fn cursor_moves_arithmetic(v: EditState)
    requires
        state_ok(v),
    ensures
        left_spec(v).0 == v.0 && left_spec(v).1 == (if v.1 > 0 {
            v.1 - 1
        } else {
            0int
        }),
        right_spec(v).0 == v.0 && right_spec(v).1 == (if v.1 + 1 <= v.0.len() {
            v.1 + 1
        } else {
            v.0.len()
        }),
        home_spec(v).0 == v.0 && home_spec(v).1 == 0,
        end_spec(v).0 == v.0 && end_spec(v).1 == v.0.len(),
{
}

/// Ctrl-W deletes the stretch `j..k` before the cursor and puts the cursor
/// at `j`, where the stretch is a run of non-space characters followed by
/// the run of spaces that ends at the cursor: the space run is as long as
/// possible (the character before it is not a space, or it reaches the
/// start), and the word run is too (it starts at the start of the text or
/// right after a space).
pub proof fn delete_word_back_deletes_word_and_spaces(v: EditState)
    requires
        state_ok(v),
    ensures
        ({
            let w = delete_word_back_spec(v);
            let j = w.1 as int;
            let k = v.1 as int;
            &&& 0 <= j <= k
            &&& w.0 == v.0.take(j) + v.0.skip(k)
            &&& exists|m: int|
                {
                    &&& j <= m <= k
                    &&& #[trigger] all_spaces(v.0, m, k)
                    &&& forall|i: int| j <= i < m ==> #[trigger] v.0[i] != ' '
                    &&& (m == 0 || v.0[m - 1] != ' ')
                    &&& (j == 0 || v.0[j - 1] == ' ')
                }
        }),
{
    let k = v.1 as int;
    let h = v.0.take(k);
    lemma_trailing_spaces(h);
    let m = without_trailing_spaces(h) as int;
    lemma_after_last_space(h.take(m));
    let j = word_start(h) as int;
    assert(h.take(m).take(j) =~= h.take(j));
    assert forall|i: int| m <= i < k implies #[trigger] v.0[i] == ' ' by {
        assert(h[i] == v.0[i]);
    }
    assert(all_spaces(v.0, m, k));
    assert forall|i: int| j <= i < m implies #[trigger] v.0[i] != ' ' by {
        assert(h.take(m)[i] == v.0[i]);
    }
    if m > 0 {
        assert(h[m - 1] == v.0[m - 1]);
    }
    if j > 0 {
        assert(h.take(m)[j - 1] == v.0[j - 1]);
    }
}

/// Every character of `s` in `m..k` is a space.
pub open spec fn all_spaces(s: Seq<char>, m: int, k: int) -> bool {
    forall|i: int| m <= i < k ==> #[trigger] s[i] == ' '
}

/// `without_trailing_spaces(h)` cuts exactly the spaces at the end of `h`.
proof fn lemma_trailing_spaces(h: Seq<char>)
    ensures
        without_trailing_spaces(h) <= h.len(),
        forall|i: int| without_trailing_spaces(h) <= i < h.len() ==> #[trigger] h[i] == ' ',
        without_trailing_spaces(h) == 0 || h[without_trailing_spaces(h) - 1] != ' ',
    decreases h.len(),
{
    if h.len() > 0 && h.last() == ' ' {
        let t = h.drop_last();
        lemma_trailing_spaces(t);
        assert forall|i: int| without_trailing_spaces(h) <= i < h.len() implies #[trigger] h[i]
            == ' ' by {
            if i < t.len() {
                assert(t[i] == h[i]);
            }
        }
        if without_trailing_spaces(h) > 0 {
            assert(t[without_trailing_spaces(h) - 1] == h[without_trailing_spaces(h) - 1]);
        }
    }
}

/// `after_last_space(h)` is just after the last space of `h` (or 0).
proof fn lemma_after_last_space(h: Seq<char>)
    ensures
        after_last_space(h) <= h.len(),
        forall|i: int| after_last_space(h) <= i < h.len() ==> #[trigger] h[i] != ' ',
        after_last_space(h) == 0 || h[after_last_space(h) - 1] == ' ',
    decreases h.len(),
{
    if h.len() > 0 && h.last() != ' ' {
        let t = h.drop_last();
        lemma_after_last_space(t);
        assert forall|i: int| after_last_space(h) <= i < h.len() implies #[trigger] h[i]
            != ' ' by {
            if i < t.len() {
                assert(t[i] == h[i]);
            }
        }
        if after_last_space(h) > 0 {
            assert(t[after_last_space(h) - 1] == h[after_last_space(h) - 1]);
        }
    }
}

/// What each key does, against the editing laws above: an unmodified
/// character is typed; unmodified Backspace / Delete edit around the
/// cursor; unmodified Left / Right / Home / End move the cursor by the
/// stated arithmetic; Ctrl-W / Ctrl-A / Ctrl-E delete the word or jump to
/// the ends; any other key, and any of these held with Ctrl, Alt or Super,
/// is not consumed and changes nothing.
pub proof fn handle_key_dispatch(v: EditState, key: KeyEvent)
    requires
        state_ok(v),
    ensures
        ({
            let ctrl = key.modifiers & 2 == 2;
            let alt = key.modifiers & 4 == 4;
            let logo = key.modifiers & 8 == 8;
            let plain = !ctrl && !alt && !logo;
            let (w, consumed) = handle_key_spec(v, key);
            let k = v.1 as int;
            let n = v.0.len() as int;
            &&& key.code == KeyCode::Right && plain ==> consumed && w.0 == v.0 && w.1 == (if k
                + 1 <= n {
                k + 1
            } else {
                n
            })
            &&& key.code == KeyCode::Left && plain ==> consumed && w.0 == v.0 && w.1 == (if k
                > 0 {
                k - 1
            } else {
                0
            })
            &&& key.code == KeyCode::Home && plain ==> consumed && w.0 == v.0 && w.1 == 0
            &&& key.code == KeyCode::End && plain ==> consumed && w.0 == v.0 && w.1 == n
            &&& key.code == KeyCode::Backspace && plain ==> consumed && w == backspace_spec(v)
            &&& key.code == KeyCode::Delete && plain ==> consumed && w == delete_forward_spec(v)
            &&& key.code matches KeyCode::Char(c) ==> (plain ==> consumed && w == insert_spec(v, c))
            &&& key.code == KeyCode::Char('w') && ctrl ==> consumed && w
                == delete_word_back_spec(v)
            &&& key.code == KeyCode::Char('a') && ctrl ==> consumed && w.0 == v.0 && w.1 == 0
            &&& key.code == KeyCode::Char('e') && ctrl ==> consumed && w.0 == v.0 && w.1 == n
            &&& !plain && !(ctrl && (key.code == KeyCode::Char('w') || key.code == KeyCode::Char(
                'a',
            ) || key.code == KeyCode::Char('e'))) ==> !consumed && w == v
            &&& !(key.code is Char || key.code == KeyCode::Backspace || key.code
                == KeyCode::Delete || key.code == KeyCode::Left || key.code == KeyCode::Right
                || key.code == KeyCode::Home || key.code == KeyCode::End) ==> !consumed && w == v
        }),
{
    assert(KeyModifiers::CONTROL == 2);
    assert(KeyModifiers::ALT == 4);
    assert(KeyModifiers::SUPER == 8);
}

/// Trimming removes only whitespace, only from the two ends, and leaves no
/// whitespace at either end of what remains.
pub proof fn trim_removes_outer_whitespace(s: Seq<char>)
    ensures
        exists|i: int, j: int|
            {
                &&& 0 <= i <= j <= s.len()
                &&& trim_spec(s) == s.subrange(i, j)
                &&& forall|x: int| 0 <= x < i ==> is_white_space(#[trigger] s[x])
                &&& forall|x: int| j <= x < s.len() ==> is_white_space(#[trigger] s[x])
                &&& i < j ==> !is_white_space(s[i]) && !is_white_space(s[j - 1])
            },
{
    let (i, u) = lemma_trim_start_split(s);
    let j = lemma_trim_end_split(u);
    lemma_trim_start_result(s);
    assert(trim_spec(s) =~= s.subrange(i, i + j));
    assert forall|x: int| i + j <= x < s.len() implies is_white_space(#[trigger] s[x]) by {
        assert(u[x - i] == s[x]);
    }
    if j > 0 {
        assert(u[0] == s[i]);
        assert(u[j - 1] == s[i + j - 1]);
    }
}

proof fn lemma_trim_start_split(s: Seq<char>) -> (r: (int, Seq<char>))
    ensures
        0 <= r.0 <= s.len(),
        r.1 == s.subrange(r.0, s.len() as int),
        trim_start_spec(s) == r.1,
        forall|x: int| 0 <= x < r.0 ==> is_white_space(#[trigger] s[x]),
    decreases s.len(),
{
    if s.len() > 0 && is_white_space(s[0]) {
        let (i, u) = lemma_trim_start_split(s.drop_first());
        assert forall|x: int| 0 <= x < i + 1 implies is_white_space(#[trigger] s[x]) by {
            if x > 0 {
                assert(s.drop_first()[x - 1] == s[x]);
            }
        }
        assert(u =~= s.subrange(i + 1, s.len() as int));
        (i + 1, u)
    } else {
        assert(s.subrange(0, s.len() as int) =~= s);
        (0, s)
    }
}

proof fn lemma_trim_end_split(u: Seq<char>) -> (j: int)
    ensures
        0 <= j <= u.len(),
        trim_end_spec(u) == u.take(j),
        forall|x: int| j <= x < u.len() ==> is_white_space(#[trigger] u[x]),
        j > 0 ==> !is_white_space(u[j - 1]),
    decreases u.len(),
{
    if u.len() > 0 && is_white_space(u.last()) {
        let t = u.drop_last();
        let j = lemma_trim_end_split(t);
        assert(t.take(j) =~= u.take(j));
        assert forall|x: int| j <= x < u.len() implies is_white_space(#[trigger] u[x]) by {
            if x < t.len() {
                assert(t[x] == u[x]);
            }
        }
        if j > 0 {
            assert(t[j - 1] == u[j - 1]);
        }
        j
    } else {
        assert(u.take(u.len() as int) =~= u);
        u.len() as int
    }
}

/// The whitespace that trimming removes is exactly Unicode's `White_Space`
/// set: tab, line feed, vertical tab, form feed, carriage return, space,
/// NEL, no-break space, ogham space mark, the en quad .. hair space block,
/// line and paragraph separators, narrow no-break space, medium
/// mathematical space and ideographic space.
pub proof fn white_space_is_the_unicode_set(c: char)
    ensures
        is_white_space(c) <==> (c == '\t'
        || c == '\n'
        || c == '\u{b}'
        || c == '\u{c}'
        || c == '\r'
        || c == ' '
        || c == '\u{85}'
        || c == '\u{a0}'
        || c == '\u{1680}'
        || c == '\u{2000}'
        || c == '\u{2001}'
        || c == '\u{2002}'
        || c == '\u{2003}'
        || c == '\u{2004}'
        || c == '\u{2005}'
        || c == '\u{2006}'
        || c == '\u{2007}'
        || c == '\u{2008}'
        || c == '\u{2009}'
        || c == '\u{200a}'
        || c == '\u{2028}'
        || c == '\u{2029}'
        || c == '\u{202f}'
        || c == '\u{205f}'
        || c == '\u{3000}'),
{
    vstd::utf8::char_u32_cast(c, c as u32);
}

} // verus!
