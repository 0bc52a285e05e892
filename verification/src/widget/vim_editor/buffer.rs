//! A single-line text buffer with a cursor, and the vim motions over it.
//!
//! Positions are character indices; the cursor is at most the length.

use vstd::prelude::*;

use crate::render::text::{alphanumeric, is_alphanumeric, is_whitespace, spec_whitespace};

verus! {

/// The class of a character for word motions.
#[derive(Clone, Copy, Debug, PartialEq, Eq, Structural)]
pub enum CharClass {
    Word,
    Whitespace,
    Punctuation,
}

/// Word characters are alphanumeric or `_`.
pub open spec fn word_char(c: char) -> bool {
    alphanumeric(c) || c == '_'
}

/// The class of `c`: word, whitespace, else punctuation.
pub open spec fn class_of(c: char) -> CharClass {
    if word_char(c) {
        CharClass::Word
    } else if spec_whitespace(c) {
        CharClass::Whitespace
    } else {
        CharClass::Punctuation
    }
}

/// The first index at or after `i` whose character fails `p`, or the length.
pub open spec fn skip_fwd(s: Seq<char>, i: int, p: spec_fn(char) -> bool) -> int
    decreases s.len() - i,
{
    if i >= s.len() || i < 0 || !p(s[i]) {
        i
    } else {
        skip_fwd(s, i + 1, p)
    }
}

/// Moving left from `i` while the character at the position satisfies `p`,
/// stopping at 0.
pub open spec fn back_while(s: Seq<char>, i: int, p: spec_fn(char) -> bool) -> int
    decreases i,
{
    if i <= 0 || !p(s[i]) {
        i
    } else {
        back_while(s, i - 1, p)
    }
}

/// Moving left from `i` while the character before the position satisfies
/// `p`: the start of the run ending just before `i`.
pub open spec fn back_run(s: Seq<char>, i: int, p: spec_fn(char) -> bool) -> int
    decreases i,
{
    if i <= 0 || !p(s[i - 1]) {
        i
    } else {
        back_run(s, i - 1, p)
    }
}

/// Characters of the class `k`.
pub open spec fn in_class(k: CharClass) -> spec_fn(char) -> bool {
    |c: char| class_of(c) == k
}

/// Whitespace characters.
pub open spec fn ws() -> spec_fn(char) -> bool {
    |c: char| spec_whitespace(c)
}

/// Start of the next word (vim `w`): past the run of the cursor's class,
/// then past whitespace.
pub open spec fn spec_next_word_start(s: Seq<char>, c: int) -> int {
    if c >= s.len() {
        c
    } else {
        skip_fwd(s, skip_fwd(s, c, in_class(class_of(s[c]))), ws())
    }
}

/// Start of the previous word (vim `b`): back over whitespace, then to the
/// start of the run of the class found there.
pub open spec fn spec_prev_word_start(s: Seq<char>, c: int) -> int {
    if c <= 0 {
        0
    } else {
        let p = back_while(s, c - 1, ws());
        if p == 0 && spec_whitespace(s[0]) {
            0
        } else {
            back_run(s, p, in_class(class_of(s[p])))
        }
    }
}

/// End of the current or next word (vim `e`): at least one character on,
/// past whitespace, then to the last character of that run.
pub open spec fn spec_word_end(s: Seq<char>, c: int) -> int {
    if c >= s.len() || c + 1 >= s.len() {
        c
    } else {
        let p = skip_fwd(s, c + 1, ws());
        if p >= s.len() {
            s.len() - 1
        } else {
            skip_fwd(s, p + 1, in_class(class_of(s[p]))) - 1
        }
    }
}

/// First index at or after `i` holding `t`.
pub open spec fn find_from(s: Seq<char>, i: int, t: char) -> Option<int>
    decreases s.len() - i,
{
    if i >= s.len() || i < 0 {
        None
    } else if s[i] == t {
        Some(i)
    } else {
        find_from(s, i + 1, t)
    }
}

/// Last index before `i` holding `t`.
pub open spec fn find_before(s: Seq<char>, i: int, t: char) -> Option<int>
    decreases i,
{
    if i <= 0 {
        None
    } else if s[i - 1] == t {
        Some(i - 1)
    } else {
        find_before(s, i - 1, t)
    }
}

/// A found position as a mathematical index.
pub open spec fn opt_int(o: Option<usize>) -> Option<int> {
    match o {
        Some(p) => Some(p as int),
        None => None,
    }
}

/// The position after `i`, or `i` at the end.
pub open spec fn next_pos(s: Seq<char>, i: int) -> int {
    if i < s.len() { i + 1 } else { i }
}

/// The position before `i`, or 0.
pub open spec fn prev_pos(i: int) -> int {
    if i > 0 { i - 1 } else { 0 }
}

/// Next occurrence of `t` after the cursor (vim `f`).
pub open spec fn spec_find_forward(s: Seq<char>, c: int, t: char) -> Option<int> {
    find_from(s, next_pos(s, c), t)
}

/// One before the next occurrence of `t`, not left of the cursor (vim `t`).
pub open spec fn spec_til_forward(s: Seq<char>, c: int, t: char) -> Option<int> {
    match spec_find_forward(s, c, t) {
        Some(p) => Some(if prev_pos(p) >= c { prev_pos(p) } else { c }),
        None => None,
    }
}

/// Previous occurrence of `t` before the cursor (vim `F`).
pub open spec fn spec_find_backward(s: Seq<char>, c: int, t: char) -> Option<int> {
    find_before(s, c, t)
}

/// One after the previous occurrence of `t`, not right of the cursor (vim `T`).
pub open spec fn spec_til_backward(s: Seq<char>, c: int, t: char) -> Option<int> {
    match find_before(s, c, t) {
        Some(p) => Some(if next_pos(s, p) <= c { next_pos(s, p) } else { c }),
        None => None,
    }
}

/// The run of characters of the class under the cursor (vim `iw`), the
/// cursor taken on the last character when past it.
pub open spec fn spec_inner_word(s: Seq<char>, c: int) -> (int, int) {
    if s.len() == 0 {
        (0, 0)
    } else {
        let pos = if c <= s.len() - 1 { c } else { s.len() - 1 };
        let k = in_class(class_of(s[pos]));
        (back_run(s, pos, k), skip_fwd(s, pos + 1, k))
    }
}

/// The word with its trailing whitespace, or, without any, its leading
/// whitespace (vim `aw`).
pub open spec fn spec_a_word(s: Seq<char>, c: int) -> (int, int) {
    let (start, end) = spec_inner_word(s, c);
    if start == end {
        (start, end)
    } else if skip_fwd(s, end, ws()) > end {
        (start, skip_fwd(s, end, ws()))
    } else {
        (back_run(s, start, ws()), end)
    }
}

proof fn lemma_skip_fwd_bounds(s: Seq<char>, i: int, p: spec_fn(char) -> bool)
    requires
        0 <= i <= s.len(),
    ensures
        i <= skip_fwd(s, i, p) <= s.len(),
        skip_fwd(s, i, p) < s.len() ==> !p(s[skip_fwd(s, i, p)]),
        forall|j: int| i <= j < skip_fwd(s, i, p) ==> p(#[trigger] s[j]),
    decreases s.len() - i,
{
    if i < s.len() && p(s[i]) {
        lemma_skip_fwd_bounds(s, i + 1, p);
    }
}

proof fn lemma_back_run_bounds(s: Seq<char>, i: int, p: spec_fn(char) -> bool)
    requires
        0 <= i <= s.len(),
    ensures
        0 <= back_run(s, i, p) <= i,
    decreases i,
{
    if i > 0 && p(s[i - 1]) {
        lemma_back_run_bounds(s, i - 1, p);
    }
}

proof fn lemma_back_while_bounds(s: Seq<char>, i: int, p: spec_fn(char) -> bool)
    requires
        0 <= i < s.len(),
    ensures
        0 <= back_while(s, i, p) <= i,
    decreases i,
{
    if i > 0 && p(s[i]) {
        lemma_back_while_bounds(s, i - 1, p);
    }
}

proof fn lemma_find_from_bounds(s: Seq<char>, i: int, t: char)
    requires
        0 <= i,
    ensures
        find_from(s, i, t) matches Some(p) ==> i <= p < s.len() && s[p] == t,
    decreases s.len() - i,
{
    if i < s.len() && s[i] != t {
        lemma_find_from_bounds(s, i + 1, t);
    }
}

proof fn lemma_find_before_bounds(s: Seq<char>, i: int, t: char)
    requires
        i <= s.len(),
    ensures
        find_before(s, i, t) matches Some(p) ==> 0 <= p < i && s[p] == t,
    decreases i,
{
    if i > 0 && s[i - 1] != t {
        lemma_find_before_bounds(s, i - 1, t);
    }
}

/// A single-line buffer: characters, a cursor, and the anchor of a visual
/// selection.
pub struct LineBuffer {
    pub chars: Vec<char>,
    pub cursor: usize,
    pub anchor: Option<usize>,
}

impl LineBuffer {
    /// The cursor stays within the text.
    pub open spec fn wf(&self) -> bool {
        self.cursor <= self.chars@.len()
    }

    /// An empty buffer.
    pub fn new() -> (r: Self)
        ensures
            r.wf(),
            r.chars@ == Seq::<char>::empty(),
            r.cursor == 0,
            r.anchor is None,
    {
        LineBuffer { chars: Vec::new(), cursor: 0, anchor: None }
    }

    /// The characters.
    pub fn text(&self) -> (r: &Vec<char>)
        ensures
            r@ == self.chars@,
    {
        &self.chars
    }

    /// The cursor.
    pub fn cursor(&self) -> (r: usize)
        ensures
            r == self.cursor,
    {
        self.cursor
    }

    /// Number of characters.
    pub fn len(&self) -> (r: usize)
        ensures
            r == self.chars@.len(),
    {
        self.chars.len()
    }

    /// Whether the buffer is empty.
    pub fn is_empty(&self) -> (r: bool)
        ensures
            r == (self.chars@.len() == 0),
    {
        self.chars.len() == 0
    }

    /// Position of the last character, or 0 when empty.
    pub fn last_char_offset(&self) -> (r: usize)
        ensures
            r == (if self.chars@.len() == 0 { 0 } else { self.chars@.len() - 1 }),
    {
        if self.chars.len() == 0 {
            0
        } else {
            self.chars.len() - 1
        }
    }

    /// The character at `pos`.
    pub fn expect_char_at(&self, pos: usize) -> (c: char)
        requires
            pos < self.chars@.len(),
        ensures
            c == self.chars@[pos as int],
    {
        self.chars[pos]
    }

    /// The character at `pos`, if any.
    pub fn char_at(&self, pos: usize) -> (c: Option<char>)
        requires
            pos <= self.chars@.len(),
        ensures
            c == (if pos < self.chars@.len() { Some(self.chars@[pos as int]) } else { None::<char> }),
    {
        if pos < self.chars.len() {
            Some(self.chars[pos])
        } else {
            None
        }
    }

    /// The position after `pos`, or the length.
    pub fn next_boundary(&self, pos: usize) -> (r: usize)
        requires
            pos <= self.chars@.len(),
        ensures
            r == next_pos(self.chars@, pos as int),
    {
        if pos < self.chars.len() {
            pos + 1
        } else {
            pos
        }
    }

    /// The position before `pos`, or 0.
    pub fn prev_boundary(&self, pos: usize) -> (r: usize)
        requires
            pos <= self.chars@.len(),
        ensures
            r == prev_pos(pos as int),
    {
        if pos > 0 {
            pos - 1
        } else {
            0
        }
    }

    /// Whether `c` is a word character (alphanumeric or `_`).
    pub fn is_word_char(c: char) -> (b: bool)
        ensures
            b == word_char(c),
    {
        is_alphanumeric(c) || c == '_'
    }

    /// Whether `c` is whitespace.
    pub fn is_whitespace(c: char) -> (b: bool)
        ensures
            b == spec_whitespace(c),
    {
        is_whitespace(c)
    }

    /// The class of `c`.
    pub fn char_class(c: char) -> (k: CharClass)
        ensures
            k == class_of(c),
    {
        if Self::is_word_char(c) {
            CharClass::Word
        } else if Self::is_whitespace(c) {
            CharClass::Whitespace
        } else {
            CharClass::Punctuation
        }
    }

    /// The first position at or after `i` whose character is not of class `k`.
    fn skip_class(&self, i: usize, k: CharClass) -> (r: usize)
        requires
            i <= self.chars@.len(),
        ensures
            r == skip_fwd(self.chars@, i as int, in_class(k)),
    {
        let mut pos = i;
        while pos < self.chars.len()
            invariant
                i <= pos <= self.chars@.len(),
                skip_fwd(self.chars@, i as int, in_class(k)) == skip_fwd(self.chars@, pos as int, in_class(k)),
            decreases self.chars@.len() - pos,
        {
            if Self::char_class(self.chars[pos]) != k {
                return pos;
            }
            pos += 1;
        }
        pos
    }

    /// The first position at or after `i` whose character is not whitespace.
    fn skip_whitespace(&self, i: usize) -> (r: usize)
        requires
            i <= self.chars@.len(),
        ensures
            r == skip_fwd(self.chars@, i as int, ws()),
    {
        let mut pos = i;
        while pos < self.chars.len()
            invariant
                i <= pos <= self.chars@.len(),
                skip_fwd(self.chars@, i as int, ws()) == skip_fwd(self.chars@, pos as int, ws()),
            decreases self.chars@.len() - pos,
        {
            if !Self::is_whitespace(self.chars[pos]) {
                return pos;
            }
            pos += 1;
        }
        pos
    }

    /// Start of the run of class `k` ending just before `i`.
    fn class_run_start(&self, i: usize, k: CharClass) -> (r: usize)
        requires
            i <= self.chars@.len(),
        ensures
            r == back_run(self.chars@, i as int, in_class(k)),
    {
        let mut pos = i;
        while pos > 0
            invariant
                pos <= i,
                i <= self.chars@.len(),
                back_run(self.chars@, i as int, in_class(k)) == back_run(self.chars@, pos as int, in_class(k)),
            decreases pos,
        {
            if Self::char_class(self.chars[pos - 1]) != k {
                return pos;
            }
            pos -= 1;
        }
        pos
    }

    /// Moving left from `i` over whitespace, stopping at 0.
    fn whitespace_back(&self, i: usize) -> (r: usize)
        requires
            i < self.chars@.len(),
        ensures
            r == back_while(self.chars@, i as int, ws()),
            r <= i,
    {
        let mut pos = i;
        while pos > 0
            invariant
                pos <= i < self.chars@.len(),
                back_while(self.chars@, i as int, ws()) == back_while(self.chars@, pos as int, ws()),
            decreases pos,
        {
            if !Self::is_whitespace(self.chars[pos]) {
                return pos;
            }
            pos -= 1;
        }
        pos
    }

    /// Start of the whitespace run ending just before `i`.
    fn whitespace_run_start(&self, i: usize) -> (r: usize)
        requires
            i <= self.chars@.len(),
        ensures
            r == back_run(self.chars@, i as int, ws()),
    {
        let mut pos = i;
        while pos > 0
            invariant
                pos <= i,
                i <= self.chars@.len(),
                back_run(self.chars@, i as int, ws()) == back_run(self.chars@, pos as int, ws()),
            decreases pos,
        {
            if !Self::is_whitespace(self.chars[pos - 1]) {
                return pos;
            }
            pos -= 1;
        }
        pos
    }

    /// Start of the next word (vim `w`).
    pub fn next_word_start(&self) -> (r: usize)
        requires
            self.wf(),
        ensures
            r == spec_next_word_start(self.chars@, self.cursor as int),
            self.cursor <= r <= self.chars@.len(),
    {
        if self.cursor >= self.chars.len() {
            return self.cursor;
        }
        let start_class = Self::char_class(self.expect_char_at(self.cursor));
        let pos = self.skip_class(self.cursor, start_class);
        proof {
            lemma_skip_fwd_bounds(self.chars@, self.cursor as int, in_class(start_class));
            lemma_skip_fwd_bounds(self.chars@, pos as int, ws());
        }
        self.skip_whitespace(pos)
    }

    /// Start of the previous word (vim `b`).
    pub fn prev_word_start(&self) -> (r: usize)
        requires
            self.wf(),
        ensures
            r == spec_prev_word_start(self.chars@, self.cursor as int),
            r <= self.cursor,
    {
        if self.cursor == 0 {
            return 0;
        }
        let pos = self.whitespace_back(self.cursor - 1);
        if pos == 0 && Self::is_whitespace(self.chars[0]) {
            return 0;
        }
        let target_class = Self::char_class(self.expect_char_at(pos));
        proof {
            lemma_back_run_bounds(self.chars@, pos as int, in_class(target_class));
        }
        self.class_run_start(pos, target_class)
    }

    /// End of the current or next word (vim `e`).
    pub fn word_end(&self) -> (r: usize)
        requires
            self.wf(),
        ensures
            r == spec_word_end(self.chars@, self.cursor as int),
            self.cursor <= r <= self.chars@.len(),
            self.cursor < self.chars@.len() ==> r < self.chars@.len(),
    {
        if self.cursor >= self.chars.len() {
            return self.cursor;
        }
        if self.next_boundary(self.cursor) >= self.chars.len() {
            return self.cursor;
        }
        let pos = self.skip_whitespace(self.cursor + 1);
        proof {
            lemma_skip_fwd_bounds(self.chars@, self.cursor + 1, ws());
        }
        if pos >= self.chars.len() {
            return self.last_char_offset();
        }
        let target_class = Self::char_class(self.expect_char_at(pos));
        let end = self.skip_class(pos + 1, target_class);
        proof {
            lemma_skip_fwd_bounds(self.chars@, pos + 1, in_class(target_class));
        }
        end - 1
    }

    /// First non-whitespace position (vim `^`), or the length.
    pub fn first_non_whitespace(&self) -> (r: usize)
        ensures
            r == skip_fwd(self.chars@, 0, ws()),
            r <= self.chars@.len(),
    {
        proof {
            lemma_skip_fwd_bounds(self.chars@, 0, ws());
        }
        self.skip_whitespace(0)
    }

    /// Next occurrence of `target` after the cursor (vim `f`).
    pub fn find_forward(&self, target: char) -> (r: Option<usize>)
        requires
            self.wf(),
        ensures
            opt_int(r) == spec_find_forward(self.chars@, self.cursor as int, target),
            r matches Some(p) ==> self.cursor < p < self.chars@.len(),
    {
        let start = self.next_boundary(self.cursor);
        let mut i = start;
        proof {
            lemma_find_from_bounds(self.chars@, start as int, target);
        }
        while i < self.chars.len()
            invariant
                start <= i <= self.chars@.len(),
                start == next_pos(self.chars@, self.cursor as int),
                self.cursor <= self.chars@.len(),
                find_from(self.chars@, start as int, target) == find_from(self.chars@, i as int, target),
            decreases self.chars@.len() - i,
        {
            if self.chars[i] == target {
                assert(find_from(self.chars@, i as int, target) == Some(i as int));
                return Some(i);
            }
            i += 1;
        }
        None
    }

    /// One before the next occurrence of `target`, not left of the cursor (vim `t`).
    pub fn til_forward(&self, target: char) -> (r: Option<usize>)
        requires
            self.wf(),
        ensures
            opt_int(r) == spec_til_forward(self.chars@, self.cursor as int, target),
            r matches Some(p) ==> self.cursor <= p < self.chars@.len(),
    {
        match self.find_forward(target) {
            Some(pos) => {
                let before = self.prev_boundary(pos);
                Some(if before >= self.cursor { before } else { self.cursor })
            },
            None => None,
        }
    }

    /// Previous occurrence of `target` before the cursor (vim `F`).
    pub fn find_backward(&self, target: char) -> (r: Option<usize>)
        requires
            self.wf(),
        ensures
            opt_int(r) == spec_find_backward(self.chars@, self.cursor as int, target),
            r matches Some(p) ==> p < self.cursor,
    {
        proof {
            lemma_find_before_bounds(self.chars@, self.cursor as int, target);
        }
        let mut i = self.cursor;
        while i > 0
            invariant
                i <= self.cursor <= self.chars@.len(),
                find_before(self.chars@, self.cursor as int, target) == find_before(self.chars@, i as int, target),
            decreases i,
        {
            if self.chars[i - 1] == target {
                return Some(i - 1);
            }
            i -= 1;
        }
        None
    }

    /// One after the previous occurrence of `target`, not right of the cursor (vim `T`).
    pub fn til_backward(&self, target: char) -> (r: Option<usize>)
        requires
            self.wf(),
        ensures
            opt_int(r) == spec_til_backward(self.chars@, self.cursor as int, target),
            r matches Some(p) ==> p <= self.cursor,
    {
        match self.find_backward(target) {
            Some(pos) => {
                let after = self.next_boundary(pos);
                Some(if after <= self.cursor { after } else { self.cursor })
            },
            None => None,
        }
    }

    /// Insert `c` at the cursor and move past it.
    pub fn insert_char(&mut self, c: char)
        requires
            old(self).wf(),
        ensures
            final(self).wf(),
            final(self).chars@ == old(self).chars@.insert(old(self).cursor as int, c),
            final(self).cursor == old(self).cursor + 1,
            final(self).anchor == old(self).anchor,
    {
        self.chars.insert(self.cursor, c);
        let n = self.chars.len();
        assert(self.cursor + 1 <= n);
        self.cursor = self.cursor + 1;
    }

    /// Delete the character before the cursor.
    pub fn backspace(&mut self)
        requires
            old(self).wf(),
        ensures
            final(self).wf(),
            old(self).cursor > 0 ==> final(self).chars@ == old(self).chars@.remove(old(self).cursor - 1)
                && final(self).cursor == old(self).cursor - 1,
            old(self).cursor == 0 ==> final(self).chars@ == old(self).chars@ && final(self).cursor == 0,
            final(self).anchor == old(self).anchor,
    {
        if self.cursor > 0 {
            let prev = self.prev_boundary(self.cursor);
            self.chars.remove(prev);
            self.cursor = prev;
        }
    }

    /// Delete the character at the cursor (vim `x`), keeping the cursor on a
    /// character when one remains.
    pub fn delete_at_cursor(&mut self)
        requires
            old(self).wf(),
        ensures
            final(self).wf(),
            final(self).chars@ == (if old(self).cursor < old(self).chars@.len() {
                old(self).chars@.remove(old(self).cursor as int)
            } else {
                old(self).chars@
            }),
            final(self).cursor == (if final(self).chars@.len() > 0 && old(self).cursor >= final(self).chars@.len() {
                (final(self).chars@.len() - 1) as usize
            } else {
                old(self).cursor
            }),
            final(self).anchor == old(self).anchor,
    {
        if self.cursor < self.chars.len() {
            self.chars.remove(self.cursor);
        }
        if !self.is_empty() && self.cursor >= self.chars.len() {
            self.cursor = self.last_char_offset();
        }
    }

    /// Move the cursor left one character.
    pub fn move_left(&mut self)
        requires
            old(self).wf(),
        ensures
            final(self).wf(),
            final(self).chars@ == old(self).chars@,
            final(self).anchor == old(self).anchor,
            final(self).cursor == prev_pos(old(self).cursor as int),
    {
        if self.cursor > 0 {
            self.cursor = self.prev_boundary(self.cursor);
        }
    }

    /// Move the cursor right one character, up to the end.
    pub fn move_right(&mut self)
        requires
            old(self).wf(),
        ensures
            final(self).wf(),
            final(self).chars@ == old(self).chars@,
            final(self).anchor == old(self).anchor,
            final(self).cursor == next_pos(old(self).chars@, old(self).cursor as int),
    {
        if self.cursor < self.chars.len() {
            self.cursor = self.next_boundary(self.cursor);
        }
    }

    /// Move the cursor right one character, not past the last one.
    pub fn move_right_normal(&mut self)
        requires
            old(self).wf(),
        ensures
            final(self).wf(),
            final(self).chars@ == old(self).chars@,
            final(self).anchor == old(self).anchor,
            final(self).cursor == (if old(self).cursor + 1 < old(self).chars@.len() {
                old(self).cursor + 1
            } else {
                old(self).cursor as int
            }),
    {
        if self.cursor < self.chars.len() {
            let next = self.next_boundary(self.cursor);
            if next < self.chars.len() {
                self.cursor = next;
            }
        }
    }

    /// Keep the cursor on a character: past the end it moves to the last one.
    pub fn clamp_normal(&mut self)
        ensures
            old(self).wf() || old(self).chars@.len() > 0 ==> final(self).wf(),
            final(self).chars@ == old(self).chars@,
            final(self).anchor == old(self).anchor,
            final(self).cursor == (if old(self).chars@.len() > 0 && old(self).cursor >= old(self).chars@.len() {
                (old(self).chars@.len() - 1) as usize
            } else {
                old(self).cursor
            }),
    {
        if !self.is_empty() && self.cursor >= self.chars.len() {
            self.cursor = self.last_char_offset();
        }
    }

    /// Delete `[start, end)` and put the cursor at `start`.
    pub fn delete_range(&mut self, start: usize, end: usize)
        requires
            old(self).wf(),
            start <= end <= old(self).chars@.len(),
        ensures
            final(self).wf(),
            final(self).chars@ == old(self).chars@.subrange(0, start as int) + old(self).chars@.subrange(
                end as int,
                old(self).chars@.len() as int,
            ),
            final(self).cursor == start,
            final(self).anchor == old(self).anchor,
    {
        let mut tail = self.chars.split_off(end);
        self.chars.truncate(start);
        self.chars.append(&mut tail);
        self.cursor = start;
    }

    /// Replace the character under the cursor with `c`.
    pub fn replace_at_cursor(&mut self, c: char)
        requires
            old(self).wf(),
            old(self).cursor < old(self).chars@.len(),
        ensures
            final(self).wf(),
            final(self).chars@ == old(self).chars@.update(old(self).cursor as int, c),
            final(self).cursor == old(self).cursor,
            final(self).anchor == old(self).anchor,
    {
        self.chars.set(self.cursor, c);
    }

    /// The run of the class under the cursor (vim `iw`).
    pub fn inner_word(&self) -> (r: (usize, usize))
        requires
            self.wf(),
        ensures
            (r.0 as int, r.1 as int) == spec_inner_word(self.chars@, self.cursor as int),
            r.0 <= r.1 <= self.chars@.len(),
            self.chars@.len() > 0 ==> r.0 < r.1,
    {
        if self.is_empty() {
            return (0, 0);
        }
        let n = self.len();
        let last = self.last_char_offset();
        let pos = if self.cursor <= last { self.cursor } else { last };
        let class = Self::char_class(self.expect_char_at(pos));
        let start = self.class_run_start(pos, class);
        let end = self.skip_class(pos + 1, class);
        proof {
            lemma_back_run_bounds(self.chars@, pos as int, in_class(class));
            lemma_skip_fwd_bounds(self.chars@, pos + 1, in_class(class));
        }
        (start, end)
    }

    /// The word with its trailing, or else leading, whitespace (vim `aw`).
    pub fn a_word(&self) -> (r: (usize, usize))
        requires
            self.wf(),
        ensures
            (r.0 as int, r.1 as int) == spec_a_word(self.chars@, self.cursor as int),
            r.0 <= r.1 <= self.chars@.len(),
    {
        let (start, end) = self.inner_word();
        if start == end {
            return (start, end);
        }
        let new_end = self.skip_whitespace(end);
        proof {
            lemma_skip_fwd_bounds(self.chars@, end as int, ws());
            lemma_back_run_bounds(self.chars@, start as int, ws());
        }
        if new_end > end {
            return (start, new_end);
        }
        (self.whitespace_run_start(start), end)
    }

    /// Take the characters out, leaving an empty buffer.
    pub fn take_text(&mut self) -> (r: Vec<char>)
        ensures
            r@ == old(self).chars@,
            final(self).chars@ == Seq::<char>::empty(),
            final(self).cursor == 0,
            final(self).anchor is None,
            final(self).wf(),
    {
        let mut taken: Vec<char> = Vec::new();
        std::mem::swap(&mut taken, &mut self.chars);
        self.cursor = 0;
        self.anchor = None;
        taken
    }
}

} // verus!
