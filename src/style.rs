use vstd::prelude::*;
use crate::ansi::{build_color_id, color_id, is_palette_color, CursesStyle, TextAttribute, COLOR_DEFAULT};

verus! {

/// The style currently in force: the attributes switched on, oldest first,
/// and the current foreground and background. It outlives a single line, as
/// a terminal's does.
pub struct State {
    pub attributes: Vec<TextAttribute>,
    pub foreground: i16,
    pub background: i16,
}

/// What the rendering backend must do to apply a style.
#[derive(Debug)]
pub enum StyleEffect {
    /// Switch this attribute on.
    AttributeOn(TextAttribute),
    /// Switch this attribute off.
    AttributeOff(TextAttribute),
    /// Switch to the color pair with this id.
    ColorPair(i16),
    /// Switch these attributes off, then switch to the color pair with this id.
    Reset(Vec<TextAttribute>, i16),
}

/// A style whose colors all belong to the palette.
pub open spec fn style_in_palette(st: CursesStyle) -> bool {
    match st {
        CursesStyle::Color(f, b) => (f is Some ==> is_palette_color(f->0)) && (b is Some
            ==> is_palette_color(b->0)),
        _ => true,
    }
}

/// `s` without any occurrence of `a`, the rest in order.
pub open spec fn without(s: Seq<TextAttribute>, a: TextAttribute) -> Seq<TextAttribute>
    decreases s.len(),
{
    if s.len() == 0 {
        s
    } else {
        let prev = without(s.drop_last(), a);
        if s.last() == a {
            prev
        } else {
            prev.push(s.last())
        }
    }
}

pub open spec fn or_current(v: Option<i16>, current: i16) -> i16 {
    match v {
        Some(c) => c,
        None => current,
    }
}

impl State {
    pub open spec fn wf(&self) -> bool {
        is_palette_color(self.foreground) && is_palette_color(self.background)
    }

    /// No attribute, default colors.
    pub fn default() -> (r: State)
        ensures
            r.wf(),
            r.attributes@.len() == 0,
            r.foreground == COLOR_DEFAULT,
            r.background == COLOR_DEFAULT,
    {
        State { attributes: Vec::new(), foreground: COLOR_DEFAULT, background: COLOR_DEFAULT }
    }

    /// Removes every occurrence of the attribute: it is no longer active.
    pub fn remove_attribute(&mut self, attr: TextAttribute)
        ensures
            final(self).attributes@ == without(old(self).attributes@, attr),
            !final(self).attributes@.contains(attr),
            final(self).foreground == old(self).foreground,
            final(self).background == old(self).background,
    {
        let ghost s = self.attributes@;
        let n = self.attributes.len();
        let mut kept: Vec<TextAttribute> = Vec::new();
        let mut k: usize = 0;
        while k < n
            invariant
                n == s.len(),
                s == self.attributes@,
                k <= n,
                kept@ == without(s.subrange(0, k as int), attr),
                forall|m: int| 0 <= m < kept@.len() ==> kept@[m] != attr,
            decreases n - k,
        {
            let x = self.attributes[k];
            assert(s.subrange(0, k + 1).drop_last() =~= s.subrange(0, k as int));
            if x != attr {
                kept.push(x);
            }
            k = k + 1;
        }
        assert(s.subrange(0, n as int) =~= s);
        self.attributes = kept;
    }

    /// Applies a style: records it and says what the backend has to do.
    /// A color change with one side missing keeps that side's current value.
    pub fn apply(&mut self, style: CursesStyle) -> (r: StyleEffect)
        requires
            old(self).wf(),
            style_in_palette(style),
        ensures
            final(self).wf(),
            match style {
                CursesStyle::Attribute(a, true) => {
                    &&& final(self).attributes@ == old(self).attributes@.push(a)
                    &&& final(self).foreground == old(self).foreground
                    &&& final(self).background == old(self).background
                    &&& r == StyleEffect::AttributeOn(a)
                },
                CursesStyle::Attribute(a, false) => {
                    &&& final(self).attributes@ == without(old(self).attributes@, a)
                    &&& !final(self).attributes@.contains(a)
                    &&& final(self).foreground == old(self).foreground
                    &&& final(self).background == old(self).background
                    &&& r == StyleEffect::AttributeOff(a)
                },
                CursesStyle::Color(f, b) => {
                    &&& final(self).attributes@ == old(self).attributes@
                    &&& final(self).foreground == or_current(f, old(self).foreground)
                    &&& final(self).background == or_current(b, old(self).background)
                    &&& r matches StyleEffect::ColorPair(id)
                    &&& id as int == color_id(final(self).foreground, final(self).background)
                },
                CursesStyle::Reset => {
                    &&& final(self).attributes@.len() == 0
                    &&& final(self).foreground == COLOR_DEFAULT
                    &&& final(self).background == COLOR_DEFAULT
                    &&& r matches StyleEffect::Reset(off, id)
                    &&& off@ == old(self).attributes@
                    &&& id as int == color_id(COLOR_DEFAULT, COLOR_DEFAULT)
                },
            },
    {
        match style {
            CursesStyle::Attribute(a, true) => {
                self.attributes.push(a);
                StyleEffect::AttributeOn(a)
            },
            CursesStyle::Attribute(a, false) => {
                self.remove_attribute(a);
                StyleEffect::AttributeOff(a)
            },
            CursesStyle::Color(f, b) => {
                let fg = match f {
                    Some(c) => c,
                    None => self.foreground,
                };
                let bg = match b {
                    Some(c) => c,
                    None => self.background,
                };
                self.foreground = fg;
                self.background = bg;
                StyleEffect::ColorPair(build_color_id(fg, bg))
            },
            CursesStyle::Reset => {
                let off = self.attributes.split_off(0);
                self.foreground = COLOR_DEFAULT;
                self.background = COLOR_DEFAULT;
                StyleEffect::Reset(off, build_color_id(COLOR_DEFAULT, COLOR_DEFAULT))
            },
        }
    }
}

} // verus!
