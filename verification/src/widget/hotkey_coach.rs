//! Keyboard-shortcut hints laid out in a row or a column.

use vstd::prelude::*;

use crate::render::layout::{spec_constrain, spec_fill, Constraints, Size};
use crate::render::text::{display_width, display_width_of, wadd, wadd16};

verus! {

/// Width of the separator between two horizontal hints.
pub const SEPARATOR_WIDTH: usize = 3;

/// Gap between the key column and the description column when vertical.
pub const VERTICAL_GAP: u16 = 2;

/// One shortcut: a key label and what it does.
pub struct Shortcut {
    pub key: String,
    pub description: String,
}

/// How the hints are laid out.
#[derive(Clone, Copy, Debug, PartialEq, Eq)]
pub enum Orientation {
    Horizontal,
    Vertical,
}

/// A strip of shortcut hints, each shown as a key badge and a description.
pub struct HotkeyCoach {
    shortcuts: Vec<Shortcut>,
    orientation: Orientation,
}

impl Shortcut {
    /// A shortcut with the given key label and description.
    pub fn new(key: &str, description: &str) -> (s: Self)
        ensures
            s.key@ == key@,
            s.description@ == description@,
    {
        Shortcut { key: key.to_string(), description: description.to_string() }
    }
}

/// Columns of one horizontal hint: the key padded by a space on each side,
/// a space, then the description.
pub open spec fn shortcut_cols(s: Shortcut) -> usize {
    wadd(wadd(wadd(display_width_of(s.key@), 2), 1), display_width_of(s.description@))
}

/// Columns of the first `n` horizontal hints with their separators.
pub open spec fn hints_cols(s: Seq<Shortcut>, n: int) -> usize
    decreases n,
{
    if n <= 0 {
        0
    } else {
        wadd(hints_cols(s, n - 1), shortcut_cols(s[n - 1]))
    }
}

/// Natural width of the horizontal layout.
pub open spec fn horizontal_natural(s: Seq<Shortcut>) -> usize {
    if s.len() == 0 {
        0
    } else {
        wadd(hints_cols(s, s.len() as int), vstd::wrapping::usize_specs::wrapping_mul((s.len() - 1) as usize, SEPARATOR_WIDTH))
    }
}

/// Largest value of `f` over the first `n` shortcuts (0 when none).
pub open spec fn max_over(s: Seq<Shortcut>, n: int, f: spec_fn(Shortcut) -> usize) -> usize
    decreases n,
{
    if n <= 0 {
        0
    } else {
        let m = max_over(s, n - 1, f);
        if f(s[n - 1]) > m { f(s[n - 1]) } else { m }
    }
}

/// Width of a padded key badge.
pub open spec fn key_badge(s: Shortcut) -> usize {
    wadd(display_width_of(s.key@), 2)
}

/// Width of a description.
pub open spec fn desc_cols(s: Shortcut) -> usize {
    display_width_of(s.description@)
}

/// The size measured for a hotkey strip.
pub open spec fn spec_coach_measure(s: Seq<Shortcut>, o: Orientation, c: Constraints) -> Size {
    if s.len() == 0 {
        Size { width: 0, height: 0 }
    } else {
        let natural = match o {
            Orientation::Horizontal => horizontal_natural(s) as u16,
            Orientation::Vertical => wadd16(
                wadd16(max_over(s, s.len() as int, |x: Shortcut| key_badge(x)) as u16, VERTICAL_GAP),
                max_over(s, s.len() as int, |x: Shortcut| desc_cols(x)) as u16,
            ),
        };
        let w0 = spec_constrain(c, Size { width: natural, height: 0 }).width;
        let fill = spec_fill(c.min_width, c.max_width);
        let width = if w0 >= fill { w0 } else { fill };
        let height = match o {
            Orientation::Horizontal => 1u16,
            Orientation::Vertical => s.len() as u16,
        };
        spec_constrain(c, Size { width, height })
    }
}

impl HotkeyCoach {
    /// A horizontal strip of the given shortcuts.
    pub fn new(shortcuts: Vec<Shortcut>) -> (c: Self)
        ensures
            c.shortcuts() == shortcuts@,
            c.layout() == Orientation::Horizontal,
    {
        HotkeyCoach { shortcuts, orientation: Orientation::Horizontal }
    }

    /// The shortcuts, in order.
    pub closed spec fn shortcuts(&self) -> Seq<Shortcut> {
        self.shortcuts@
    }

    /// The orientation.
    pub closed spec fn layout(&self) -> Orientation {
        self.orientation
    }

    /// The same strip with the given orientation.
    pub fn orientation(self, orientation: Orientation) -> (c: Self)
        ensures
            c.shortcuts() == self.shortcuts(),
            c.layout() == orientation,
    {
        HotkeyCoach { shortcuts: self.shortcuts, orientation }
    }

    /// Append a shortcut.
    pub fn push(&mut self, shortcut: Shortcut)
        ensures
            final(self).shortcuts() == old(self).shortcuts().push(shortcut),
            final(self).layout() == old(self).layout(),
    {
        self.shortcuts.push(shortcut);
    }

    /// The shortcuts, in order.
    pub fn entries(&self) -> (r: &Vec<Shortcut>)
        ensures
            r@ == self.shortcuts(),
    {
        &self.shortcuts
    }

    /// The current orientation.
    pub fn current_orientation(&self) -> (o: Orientation)
        ensures
            o == self.layout(),
    {
        self.orientation
    }

    /// Number of shortcuts.
    pub fn len(&self) -> (n: usize)
        ensures
            n == self.shortcuts().len(),
    {
        self.shortcuts.len()
    }

    /// Whether there are no shortcuts.
    pub fn is_empty(&self) -> (b: bool)
        ensures
            b == (self.shortcuts().len() == 0),
    {
        self.shortcuts.len() == 0
    }

    /// Width of the widest padded key badge.
    pub fn max_key_width(&self) -> (w: usize)
        ensures
            w == max_over(self.shortcuts(), self.shortcuts().len() as int, |x: Shortcut| key_badge(x)),
    {
        let mut m: usize = 0;
        let mut i: usize = 0;
        while i < self.shortcuts.len()
            invariant
                i <= self.shortcuts@.len(),
                m == max_over(self.shortcuts@, i as int, |x: Shortcut| key_badge(x)),
            decreases self.shortcuts@.len() - i,
        {
            let k = display_width(self.shortcuts[i].key.as_str()).wrapping_add(2);
            if k > m {
                m = k;
            }
            i += 1;
        }
        m
    }

    /// Width of the widest description.
    fn max_desc_width(&self) -> (w: usize)
        ensures
            w == max_over(self.shortcuts@, self.shortcuts@.len() as int, |x: Shortcut| desc_cols(x)),
    {
        let mut m: usize = 0;
        let mut i: usize = 0;
        while i < self.shortcuts.len()
            invariant
                i <= self.shortcuts@.len(),
                m == max_over(self.shortcuts@, i as int, |x: Shortcut| desc_cols(x)),
            decreases self.shortcuts@.len() - i,
        {
            let d = display_width(self.shortcuts[i].description.as_str());
            if d > m {
                m = d;
            }
            i += 1;
        }
        m
    }

    /// Natural width of the horizontal layout.
    fn horizontal_natural_width(&self) -> (w: usize)
        ensures
            w == horizontal_natural(self.shortcuts@),
    {
        let n = self.shortcuts.len();
        if n == 0 {
            return 0;
        }
        let mut content: usize = 0;
        let mut i: usize = 0;
        while i < n
            invariant
                n == self.shortcuts@.len(),
                i <= n,
                content == hints_cols(self.shortcuts@, i as int),
            decreases n - i,
        {
            let s = &self.shortcuts[i];
            let cols = display_width(s.key.as_str()).wrapping_add(2).wrapping_add(1).wrapping_add(
                display_width(s.description.as_str()),
            );
            content = content.wrapping_add(cols);
            i += 1;
        }
        content.wrapping_add((n - 1).wrapping_mul(SEPARATOR_WIDTH))
    }

    /// Horizontal: the natural width (or all of it when filling), one row.
    /// Vertical: key column, gap and description column, one row per
    /// shortcut. Empty strips measure zero.
    pub fn measure(&self, constraints: Constraints) -> (s: Size)
        ensures
            s == spec_coach_measure(self.shortcuts(), self.layout(), constraints),
    {
        if self.shortcuts.len() == 0 {
            return Size::zero();
        }
        match self.orientation {
            Orientation::Horizontal => {
                let natural = self.horizontal_natural_width() as u16;
                let w0 = constraints.constrain(Size::new(natural, 0)).width;
                let fill = constraints.fill_width();
                let width = if w0 >= fill { w0 } else { fill };
                constraints.constrain(Size::new(width, 1))
            },
            Orientation::Vertical => {
                let max_key = self.max_key_width() as u16;
                let max_desc = self.max_desc_width() as u16;
                let natural = max_key.wrapping_add(VERTICAL_GAP).wrapping_add(max_desc);
                let w0 = constraints.constrain(Size::new(natural, 0)).width;
                let fill = constraints.fill_width();
                let width = if w0 >= fill { w0 } else { fill };
                let height = self.shortcuts.len() as u16;
                constraints.constrain(Size::new(width, height))
            },
        }
    }
}

} // verus!
