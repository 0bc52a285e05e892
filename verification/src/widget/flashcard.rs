//! A two-sided card that flips between a question and an answer.

use vstd::prelude::*;
use vstd::string::StringExecFns;

use crate::render::layout::{spec_constrain, spec_fill, Constraints, Size};
use crate::render::text::{display_width, display_width_of, split_words, wadd16, whitespace_words};

verus! {

/// Which side of the card is showing.
#[derive(Clone, Copy, Debug, PartialEq, Eq, Structural)]
pub enum CardSide {
    Front,
    Back,
}

/// A card with a front and a back text.
#[derive(Clone)]
pub struct Flashcard {
    front: String,
    back: String,
    side: CardSide,
}

/// Narrowest width a card is laid out at.
pub const MIN_WIDTH: u16 = 10;

/// Greedy wrapping state after the first `n` words: finished lines, the
/// line being filled, and its width.
pub open spec fn wrap_state(words: Seq<Seq<char>>, max_width: int, n: int) -> (Seq<Seq<char>>, Seq<char>, int)
    decreases n,
{
    if n <= 0 {
        (Seq::empty(), Seq::empty(), 0)
    } else {
        let (lines, cur, cw) = wrap_state(words, max_width, n - 1);
        let word = words[n - 1];
        let w = display_width_of(word) as int;
        if cur.len() == 0 {
            (lines, word, w)
        } else if cw + 1 + w <= max_width {
            (lines, cur + seq![' '] + word, cw + 1 + w)
        } else {
            (lines.push(cur), word, w)
        }
    }
}

/// Words of `text` packed greedily into lines of at most `max_width`
/// columns, separated by single spaces; a word wider than a line gets a line
/// of its own. No lines at width 0; one empty line when there are no words.
pub open spec fn spec_word_wrap(text: Seq<char>, max_width: int) -> Seq<Seq<char>> {
    if max_width == 0 {
        Seq::empty()
    } else {
        let words = whitespace_words(text);
        if words.len() == 0 {
            seq![Seq::<char>::empty()]
        } else {
            let (lines, cur, _) = wrap_state(words, max_width, words.len() as int);
            if cur.len() > 0 { lines.push(cur) } else { lines }
        }
    }
}

/// Wrap `text` into lines of at most `max_width` columns.
pub fn word_wrap(text: &str, max_width: usize) -> (lines: Vec<String>)
    ensures
        lines@.map_values(|l: String| l@) == spec_word_wrap(text@, max_width as int),
{
    if max_width == 0 {
        let v: Vec<String> = Vec::new();
        assert(v@.map_values(|l: String| l@) =~= Seq::<Seq<char>>::empty());
        return v;
    }
    let words = split_words(text);
    let ghost ws = whitespace_words(text@);
    if words.len() == 0 {
        let mut v: Vec<String> = Vec::new();
        v.push(String::new());
        assert(v@.map_values(|l: String| l@) =~= seq![Seq::<char>::empty()]);
        return v;
    }
    let mut lines: Vec<String> = Vec::new();
    let mut current_line = String::new();
    let mut current_width: usize = 0;
    let mut i: usize = 0;
    while i < words.len()
        invariant
            i <= words@.len(),
            words@.map_values(|w: String| w@) == ws,
            max_width > 0,
            ({
                let (l, c, cw) = wrap_state(ws, max_width as int, i as int);
                &&& lines@.map_values(|x: String| x@) == l
                &&& current_line@ == c
                &&& current_width == cw
            }),
        decreases words@.len() - i,
    {
        let word = &words[i];
        assert(ws[i as int] == words@[i as int]@);
        let w = display_width(word.as_str());
        if current_line.as_str().is_empty() {
            current_line.append(word.as_str());
            current_width = w;
        } else if current_width < max_width && w <= max_width - current_width - 1 {
            current_line.append(" ");
            current_line.append(word.as_str());
            current_width = current_width + 1 + w;
            proof {
                reveal_strlit(" ");
            }
        } else {
            let mut finished = String::new();
            std::mem::swap(&mut finished, &mut current_line);
            let ghost before = lines@;
            lines.push(finished);
            assert(lines@.map_values(|x: String| x@) =~= before.map_values(|x: String| x@).push(finished@));
            current_line.append(word.as_str());
            current_width = w;
        }
        i += 1;
    }
    assert(words@.len() == ws.len());
    if !current_line.as_str().is_empty() {
        let ghost before = lines@;
        lines.push(current_line);
        assert(lines@.map_values(|x: String| x@) =~= before.map_values(|x: String| x@).push(current_line@));
    }
    lines
}

/// The text on the showing side.
pub open spec fn active_text(front: Seq<char>, back: Seq<char>, side: CardSide) -> Seq<char> {
    match side {
        CardSide::Front => front,
        CardSide::Back => back,
    }
}

impl View for Flashcard {
    type V = (Seq<char>, Seq<char>, CardSide);

    closed spec fn view(&self) -> (Seq<char>, Seq<char>, CardSide) {
        (self.front@, self.back@, self.side)
    }
}

impl Flashcard {
    /// A card showing its front.
    pub fn new(front: String, back: String) -> (c: Self)
        ensures
            c@ == (front@, back@, CardSide::Front),
    {
        Flashcard { front, back, side: CardSide::Front }
    }

    /// Turn the card over.
    pub fn flip(&mut self)
        ensures
            final(self)@ == (old(self)@.0, old(self)@.1, match old(self)@.2 {
                CardSide::Front => CardSide::Back,
                CardSide::Back => CardSide::Front,
            }),
    {
        self.side = match self.side {
            CardSide::Front => CardSide::Back,
            CardSide::Back => CardSide::Front,
        };
    }

    /// The showing side.
    pub fn side(&self) -> (s: CardSide)
        ensures
            s == self@.2,
    {
        self.side
    }

    /// Show the given side.
    pub fn set_side(&mut self, side: CardSide)
        ensures
            final(self)@ == (old(self)@.0, old(self)@.1, side),
    {
        self.side = side;
    }

    /// The front text.
    pub fn front(&self) -> (s: &str)
        ensures
            s@ == self@.0,
    {
        self.front.as_str()
    }

    /// The back text.
    pub fn back(&self) -> (s: &str)
        ensures
            s@ == self@.1,
    {
        self.back.as_str()
    }

    /// The text on the showing side.
    pub fn active_text(&self) -> (s: &str)
        ensures
            s@ == active_text(self@.0, self@.1, self@.2),
    {
        match self.side {
            CardSide::Front => self.front.as_str(),
            CardSide::Back => self.back.as_str(),
        }
    }

    /// The label of the showing side.
    pub fn side_label(&self) -> (s: &'static str)
        ensures
            self@.2 == CardSide::Front ==> s@ == "front"@,
            self@.2 == CardSide::Back ==> s@ == "back"@,
    {
        match self.side {
            CardSide::Front => "front",
            CardSide::Back => "back",
        }
    }

    /// At least `MIN_WIDTH` wide (filling when possible); one row each for
    /// the top border, the wrapped text (inside one border and one space of
    /// padding per side), the hint and the bottom border.
    pub fn measure(&self, constraints: Constraints) -> (s: Size)
        ensures
            ({
                let fill = spec_fill(constraints.min_width, constraints.max_width);
                let width = if fill >= MIN_WIDTH { fill } else { MIN_WIDTH };
                let inner = if width >= 4 { width - 4 } else { 0 };
                let lines = spec_word_wrap(active_text(self@.0, self@.1, self@.2), inner as int);
                s == spec_constrain(constraints, Size {
                    width,
                    height: wadd16(wadd16(2, lines.len() as u16), 1),
                })
            }),
    {
        let fill = constraints.fill_width();
        let width = if fill >= MIN_WIDTH { fill } else { MIN_WIDTH };
        let inner_width = width.saturating_sub(4) as usize;
        let content_lines = word_wrap(self.active_text(), inner_width);
        assert(content_lines@.map_values(|l: String| l@).len() == content_lines@.len());
        let height = 2u16.wrapping_add(content_lines.len() as u16).wrapping_add(1);
        constraints.constrain(Size::new(width, height))
    }
}

/// The hint drawn at the bottom right of a card.
pub const CARD_HINT: &'static str = "[space]";

/// The label of a side.
pub open spec fn side_label_of(side: CardSide) -> Seq<char> {
    match side {
        CardSide::Front => "front"@,
        CardSide::Back => "back"@,
    }
}

/// Where the parts of a card go in an area of its size, counted from the
/// area's top-left corner. The border runs along the area's edges.
pub struct CardLayout {
    /// The column of the side label in the top border, when it fits.
    pub label_x: Option<u16>,
    /// The column after the label where the top border's dashes resume,
    /// when it lies before the right corner.
    pub dash_start: Option<u16>,
    /// The wrapped text lines, one per row from row 1 at column 2.
    pub content: Vec<String>,
    /// The columns each text line may take.
    pub content_width: u16,
    /// The column and row of the hint, when it fits inside the border.
    pub hint: Option<(u16, u16)>,
}

/// The wrapped lines shown on a card `width` by `height`: as many as fit
/// between the top border and the hint row.
pub open spec fn spec_card_rows(text: Seq<char>, width: u16, height: u16) -> Seq<Seq<char>> {
    let lines = spec_word_wrap(text, width - 4);
    if lines.len() <= height - 3 {
        lines
    } else {
        lines.take(height - 3)
    }
}

impl Flashcard {
    /// The placement of the card's parts in an area `width` by `height`;
    /// `None` when the area is too small to draw a card (narrower than 4
    /// or lower than 3). The label starts at column 5 when that lies before
    /// the right corner; the dashes resume one label width later; the hint
    /// sits one column inside the right border on the row above the bottom.
    pub fn card_layout(&self, width: u16, height: u16) -> (r: Option<CardLayout>)
        ensures
            (r is Some) <==> (width >= 4 && height >= 3),
            r matches Some(l) ==> {
                &&& l.label_x == (if 5 < width - 1 { Some(5u16) } else { None::<u16> })
                &&& l.dash_start == (if 5 + display_width_of(side_label_of(self@.2)) < width - 1 {
                    Some((5 + display_width_of(side_label_of(self@.2))) as u16)
                } else {
                    None::<u16>
                })
                &&& l.content_width == width - 4
                &&& l.content@.map_values(|line: String| line@) == spec_card_rows(
                    active_text(self@.0, self@.1, self@.2),
                    width,
                    height,
                )
                &&& l.hint == (if width - 1 > 1 + display_width_of(CARD_HINT@) {
                    Some(((width - 2 - display_width_of(CARD_HINT@)) as u16, (height - 2) as u16))
                } else {
                    None::<(u16, u16)>
                })
            },
    {
        if width < 4 || height < 3 {
            return None;
        }
        let right = width - 1;
        let label_x = if 5 < right { Some(5u16) } else { None };
        let label_width = display_width(self.side_label());
        let dash_start = if label_width < (right as usize) && 5 < (right as usize) - label_width {
            Some((5 + label_width) as u16)
        } else {
            None
        };
        let content_width = width - 4;
        let mut content = word_wrap(self.active_text(), content_width as usize);
        let ghost lines = content@;
        let max_rows = (height - 3) as usize;
        if content.len() > max_rows {
            content.truncate(max_rows);
            assert(content@.map_values(|line: String| line@) =~= lines.map_values(|line: String| line@).take(
                max_rows as int,
            ));
        }
        let hint_width = display_width(CARD_HINT);
        let hint = if hint_width < (right as usize) && 1 < (right as usize) - hint_width {
            Some(((right as usize - 1 - hint_width) as u16, height - 2))
        } else {
            None
        };
        Some(CardLayout { label_x, dash_start, content, content_width, hint })
    }
}

} // verus!
