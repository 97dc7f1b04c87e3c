use vstd::prelude::*;

verus! {

/// The eight named terminal colors.
pub const COLOR_BLACK: i16 = 0;
pub const COLOR_RED: i16 = 1;
pub const COLOR_GREEN: i16 = 2;
pub const COLOR_YELLOW: i16 = 3;
pub const COLOR_BLUE: i16 = 4;
pub const COLOR_MAGENTA: i16 = 5;
pub const COLOR_CYAN: i16 = 6;
pub const COLOR_WHITE: i16 = 7;

/// The terminal's own default color. Negative values select the default
/// color in the rendering backend; its magnitude lies outside the range of
/// the named colors so that pair ids never collide.
pub const COLOR_DEFAULT: i16 = -9;

/// A color of the palette: one of the eight named colors or the default.
pub open spec fn is_palette_color(c: i16) -> bool {
    (0 <= c <= 7) || c == COLOR_DEFAULT
}

pub open spec fn abs_spec(c: i16) -> int {
    if c < 0 { -(c as int) } else { c as int }
}

/// The color pair id of a foreground / background combination.
pub open spec fn color_id(fg: i16, bg: i16) -> int {
    100 + abs_spec(fg) * 10 + abs_spec(bg)
}

/// Id under which the pair (foreground, background) is registered.
pub fn build_color_id(foreground_color: i16, background_color: i16) -> (r: i16)
    requires
        is_palette_color(foreground_color),
        is_palette_color(background_color),
    ensures
        r as int == color_id(foreground_color, background_color),
        100 <= r < 200,
{
    let f: i16 = if foreground_color < 0 { -foreground_color } else { foreground_color };
    let b: i16 = if background_color < 0 { -background_color } else { background_color };
    100 + f * 10 + b
}

/// The palette in registration order: the eight named colors, then the default.
pub open spec fn palette(k: int) -> i16 {
    if 0 <= k < 8 {
        k as i16
    } else {
        COLOR_DEFAULT
    }
}

/// Every (foreground, background) pair of the palette, 81 in all, each with
/// its id, as `(id, foreground, background)`: they are registered with the
/// rendering backend before first use.
pub fn color_pairs() -> (r: Vec<(i16, i16, i16)>)
    ensures
        r@.len() == 81,
        forall|k: int|
            0 <= k < 81 ==> {
                let (id, f, b) = #[trigger] r@[k];
                &&& f == palette(k / 9)
                &&& b == palette(k % 9)
                &&& id as int == color_id(f, b)
            },
{
    let mut out: Vec<(i16, i16, i16)> = Vec::new();
    let mut i: i16 = 0;
    while i < 9
        invariant
            0 <= i <= 9,
            out@.len() == 9 * i,
            forall|k: int|
                0 <= k < out@.len() ==> {
                    let (id, f, b) = #[trigger] out@[k];
                    &&& f == palette(k / 9)
                    &&& b == palette(k % 9)
                    &&& id as int == color_id(f, b)
                },
        decreases 9 - i,
    {
        let f: i16 = if i < 8 { i } else { COLOR_DEFAULT };
        let mut j: i16 = 0;
        while j < 9
            invariant
                0 <= i < 9,
                0 <= j <= 9,
                f == palette(i as int),
                out@.len() == 9 * i + j,
                forall|k: int|
                    0 <= k < out@.len() ==> {
                        let (id, f, b) = #[trigger] out@[k];
                        &&& f == palette(k / 9)
                        &&& b == palette(k % 9)
                        &&& id as int == color_id(f, b)
                    },
            decreases 9 - j,
        {
            let b: i16 = if j < 8 { j } else { COLOR_DEFAULT };
            let id = build_color_id(f, b);
            let ghost k = out@.len() as int;
            assert(k / 9 == i as int && k % 9 == j as int) by (nonlinear_arith)
                requires
                    k == 9 * i + j,
                    0 <= j < 9,
            ;
            out.push((id, f, b));
            j = j + 1;
        }
        i = i + 1;
    }
    out
}

/// Distinct palette pairs have distinct ids.
pub proof fn lemma_color_id_injective(f1: i16, b1: i16, f2: i16, b2: i16)
    requires
        is_palette_color(f1),
        is_palette_color(b1),
        is_palette_color(f2),
        is_palette_color(b2),
        color_id(f1, b1) == color_id(f2, b2),
    ensures
        f1 == f2,
        b1 == b2,
{
}


/// A text attribute that an escape code can switch on or off.
#[derive(Clone, Copy, Debug, PartialEq, Eq, Structural)]
pub enum TextAttribute {
    Bold,
    Italic,
    Underline,
    Reverse,
    StrikeThrough,
}

/// What a recognised escape code asks of the terminal.
#[derive(Clone, Copy, Debug, PartialEq, Eq, Structural)]
pub enum CursesStyle {
    /// Switch an attribute on (`true`) or off (`false`).
    Attribute(TextAttribute, bool),
    /// Change the foreground and/or the background; `None` keeps that side.
    Color(Option<i16>, Option<i16>),
    /// Clear every attribute and restore the default colors.
    Reset,
}

/// One piece of a parsed line: a style change or a run of text.
#[derive(Debug)]
pub enum CursesComponent {
    Style(CursesStyle),
    Content(String),
}

/// Abstract value of a component: the style, or the text.
pub enum Piece {
    Style(CursesStyle),
    Content(Seq<char>),
}

impl CursesComponent {
    pub open spec fn piece(&self) -> Piece {
        match self {
            CursesComponent::Style(st) => Piece::Style(*st),
            CursesComponent::Content(t) => Piece::Content(t@),
        }
    }
}

pub open spec fn pieces_of(v: Seq<CursesComponent>) -> Seq<Piece> {
    v.map_values(|c: CursesComponent| c.piece())
}

pub const ESC: char = '\x1b';

pub open spec fn is_digit(c: char) -> bool {
    '0' <= c <= '9'
}

/// First index at or after `k` that does not hold a digit.
pub open spec fn digits_end(s: Seq<char>, k: int) -> int
    decreases s.len() - k,
{
    if 0 <= k < s.len() && is_digit(s[k]) {
        digits_end(s, k + 1)
    } else {
        k
    }
}

/// Length of the escape sequence `ESC '[' digits 'm'` that starts at `i`,
/// or 0 where none starts there.
pub open spec fn esc_len(s: Seq<char>, i: int) -> int {
    let j = digits_end(s, i + 2);
    if 0 <= i && i + 1 < s.len() && s[i] == ESC && s[i + 1] == '[' && j > i + 2 && j < s.len()
        && s[j] == 'm' {
        j + 1 - i
    } else {
        0
    }
}

/// First index at or after `i` where an escape sequence starts, or the end.
pub open spec fn plain_end(s: Seq<char>, i: int) -> int
    decreases s.len() - i,
{
    if i < 0 || i >= s.len() || esc_len(s, i) > 0 {
        i
    } else {
        plain_end(s, i + 1)
    }
}

pub open spec fn digit_value(c: char) -> i16 {
    (c as u32 - '0' as u32) as i16
}

/// The style that an escape code (the digits between `ESC [` and `m`) stands for.
pub open spec fn style_of_code(d: Seq<char>) -> Option<CursesStyle> {
    if d.len() == 1 {
        if d[0] == '0' {
            Some(CursesStyle::Reset)
        } else {
            match attribute_of_digit(d[0]) {
                Some(a) => Some(CursesStyle::Attribute(a, true)),
                None => None,
            }
        }
    } else if d.len() == 2 {
        if d[0] == '2' {
            match attribute_off_digit(d[1]) {
                Some(a) => Some(CursesStyle::Attribute(a, false)),
                None => None,
            }
        } else if d[0] == '3' && '0' <= d[1] <= '7' {
            Some(CursesStyle::Color(Some(digit_value(d[1])), None))
        } else if d[0] == '3' && d[1] == '9' {
            Some(CursesStyle::Color(Some(COLOR_DEFAULT), None))
        } else if d[0] == '4' && '0' <= d[1] <= '7' {
            Some(CursesStyle::Color(None, Some(digit_value(d[1]))))
        } else if d[0] == '4' && d[1] == '9' {
            Some(CursesStyle::Color(None, Some(COLOR_DEFAULT)))
        } else {
            None
        }
    } else {
        None
    }
}

/// The attribute that the code `2<c>` switches off (bold is `22`).
pub open spec fn attribute_off_digit(c: char) -> Option<TextAttribute> {
    if c == '2' {
        Some(TextAttribute::Bold)
    } else if c == '1' {
        None
    } else {
        attribute_of_digit(c)
    }
}

pub open spec fn attribute_of_digit(c: char) -> Option<TextAttribute> {
    if c == '1' {
        Some(TextAttribute::Bold)
    } else if c == '3' {
        Some(TextAttribute::Italic)
    } else if c == '4' {
        Some(TextAttribute::Underline)
    } else if c == '7' {
        Some(TextAttribute::Reverse)
    } else if c == '9' {
        Some(TextAttribute::StrikeThrough)
    } else {
        None
    }
}

/// The components of `s` from index `i` on: each escape sequence becomes its
/// style (an unknown code becomes nothing), each maximal run of other
/// characters becomes one content piece.
pub open spec fn components_from(s: Seq<char>, i: int) -> Seq<Piece>
    decreases s.len() - i,
{
    if i < 0 || i >= s.len() {
        Seq::empty()
    } else if esc_len(s, i) > 0 {
        let e = esc_len(s, i);
        let rest = components_from(s, i + e);
        match style_of_code(s.subrange(i + 2, i + e - 1)) {
            Some(st) => seq![Piece::Style(st)] + rest,
            None => rest,
        }
    } else {
        let j = plain_end(s, i + 1);
        if j <= i || j > s.len() {
            Seq::empty()
        } else {
            seq![Piece::Content(s.subrange(i, j))] + components_from(s, j)
        }
    }
}

pub open spec fn components(s: Seq<char>) -> Seq<Piece> {
    components_from(s, 0)
}

/// `s` from index `i` on with every escape sequence removed.
pub open spec fn strip_from(s: Seq<char>, i: int) -> Seq<char>
    decreases s.len() - i,
{
    if i < 0 || i >= s.len() {
        Seq::empty()
    } else if esc_len(s, i) > 0 {
        strip_from(s, i + esc_len(s, i))
    } else {
        seq![s[i]] + strip_from(s, i + 1)
    }
}

pub open spec fn strip(s: Seq<char>) -> Seq<char> {
    strip_from(s, 0)
}

/// The text of the content pieces, joined in order.
pub open spec fn joined_content(p: Seq<Piece>) -> Seq<char>
    decreases p.len(),
{
    if p.len() == 0 {
        Seq::empty()
    } else {
        let head = match p[0] {
            Piece::Content(t) => t,
            Piece::Style(_) => Seq::empty(),
        };
        head + joined_content(p.drop_first())
    }
}


pub proof fn lemma_plain_end_bounds(s: Seq<char>, k: int)
    requires
        0 <= k <= s.len(),
    ensures
        k <= plain_end(s, k) <= s.len(),
        forall|m: int| k <= m < plain_end(s, k) ==> esc_len(s, m) == 0,
        plain_end(s, k) < s.len() ==> esc_len(s, plain_end(s, k)) > 0,
    decreases s.len() - k,
{
    if k < s.len() && esc_len(s, k) == 0 {
        lemma_plain_end_bounds(s, k + 1);
    }
}

/// Below an escape-free stretch, stripping leaves the stretch as it is.
proof fn lemma_strip_plain(s: Seq<char>, i: int, j: int)
    requires
        0 <= i <= j <= s.len(),
        forall|m: int| i <= m < j ==> esc_len(s, m) == 0,
    ensures
        strip_from(s, i) == s.subrange(i, j) + strip_from(s, j),
    decreases j - i,
{
    if i < j {
        lemma_strip_plain(s, i + 1, j);
        assert(s.subrange(i, j) == seq![s[i]] + s.subrange(i + 1, j));
        assert(strip_from(s, i) == seq![s[i]] + strip_from(s, i + 1));
    } else {
        assert(s.subrange(i, j) =~= Seq::<char>::empty());
    }
}

proof fn lemma_joined_cons(x: Piece, rest: Seq<Piece>)
    ensures
        joined_content(seq![x] + rest) == match x {
            Piece::Content(t) => t,
            Piece::Style(_) => Seq::<char>::empty(),
        } + joined_content(rest),
{
    assert((seq![x] + rest).drop_first() =~= rest);
}

/// Joining the content pieces of a line gives the line with its escape
/// sequences removed.
pub proof fn lemma_joined_components_from(s: Seq<char>, i: int)
    requires
        0 <= i,
    ensures
        joined_content(components_from(s, i)) == strip_from(s, i),
    decreases s.len() - i,
{
    if i >= s.len() {
    } else if esc_len(s, i) > 0 {
        let e = esc_len(s, i);
        lemma_joined_components_from(s, i + e);
        match style_of_code(s.subrange(i + 2, i + e - 1)) {
            Some(st) => lemma_joined_cons(Piece::Style(st), components_from(s, i + e)),
            None => {},
        }
    } else {
        let j = plain_end(s, i + 1);
        lemma_plain_end_bounds(s, i + 1);
        lemma_joined_components_from(s, j);
        lemma_joined_cons(Piece::Content(s.subrange(i, j)), components_from(s, j));
        lemma_strip_plain(s, i, j);
    }
}

/// A text without escape sequences is its own stripped form.
proof fn lemma_strip_escape_free(t: Seq<char>, i: int)
    requires
        0 <= i <= t.len(),
        forall|m: int| 0 <= m < t.len() ==> esc_len(t, m) == 0,
    ensures
        strip_from(t, i) == t.subrange(i, t.len() as int),
    decreases t.len() - i,
{
    if i < t.len() {
        lemma_strip_escape_free(t, i + 1);
        assert(t.subrange(i, t.len() as int) =~= seq![t[i]] + t.subrange(i + 1, t.len() as int));
    } else {
        assert(t.subrange(i, t.len() as int) =~= Seq::<char>::empty());
    }
}

/// Stripping the joined content pieces of a line gives the same text as
/// stripping the line itself, for every line whose stripped text holds no
/// escape sequence of its own (stripping `ESC [ ESC [1m 5m` brings two
/// halves together into a new sequence).
pub proof fn lemma_strip_of_joined_content(s: Seq<char>)
    requires
        forall|m: int| 0 <= m < strip(s).len() ==> esc_len(strip(s), m) == 0,
    ensures
        strip(joined_content(components(s))) == strip(s),
{
    lemma_joined_components_from(s, 0);
    let t = strip(s);
    lemma_strip_escape_free(t, 0);
    assert(t.subrange(0, t.len() as int) =~= t);
}


/// The characters of the string, in order.
pub(crate) fn chars_of(s: &str) -> (r: Vec<char>)
    ensures
        r@ == s@,
{
    let mut out: Vec<char> = Vec::new();
    for c in it: s.chars()
        invariant
            out@ == it.seq().take(it.index() as int),
    {
        out.push(c);
    }
    out
}

/// Relies on `String::from_iter` (`FromIterator<&char>`): the string made of
/// these characters, in order.
#[verifier::external_body]
pub(crate) fn string_of(c: &Vec<char>) -> (r: String)
    ensures
        r@ == c@,
{
    String::from_iter(c)
}

fn is_digit_char(c: char) -> (r: bool)
    ensures
        r == is_digit(c),
{
    '0' <= c && c <= '9'
}

/// Length of the escape sequence starting at `i`, 0 where none does.
fn escape_len_at(c: &Vec<char>, i: usize) -> (r: usize)
    requires
        i <= c@.len(),
    ensures
        r as int == esc_len(c@, i as int),
        r > 0 ==> r >= 4 && i + r <= c@.len(),
{
    let n = c.len();
    if i >= n || n - i < 2 || c[i] != ESC || c[i + 1] != '[' {
        return 0;
    }
    let mut k: usize = i + 2;
    while k < n && is_digit_char(c[k])
        invariant
            i + 2 <= k <= n,
            n == c@.len(),
            digits_end(c@, k as int) == digits_end(c@, i + 2),
        decreases n - k,
    {
        k = k + 1;
    }
    if k > i + 2 && k < n && c[k] == 'm' {
        k + 1 - i
    } else {
        0
    }
}

fn attribute_for_digit(c: char) -> (r: Option<TextAttribute>)
    ensures
        r == attribute_of_digit(c),
{
    if c == '1' {
        Some(TextAttribute::Bold)
    } else if c == '3' {
        Some(TextAttribute::Italic)
    } else if c == '4' {
        Some(TextAttribute::Underline)
    } else if c == '7' {
        Some(TextAttribute::Reverse)
    } else if c == '9' {
        Some(TextAttribute::StrikeThrough)
    } else {
        None
    }
}

/// The style of the escape code held in `c[from..to]`.
fn style_for_code(c: &Vec<char>, from: usize, to: usize) -> (r: Option<CursesStyle>)
    requires
        from <= to <= c@.len(),
    ensures
        r == style_of_code(c@.subrange(from as int, to as int)),
{
    let ghost d = c@.subrange(from as int, to as int);
    if to - from == 1 {
        let x = c[from];
        assert(d[0] == x);
        if x == '0' {
            Some(CursesStyle::Reset)
        } else {
            match attribute_for_digit(x) {
                Some(a) => Some(CursesStyle::Attribute(a, true)),
                None => None,
            }
        }
    } else if to - from == 2 {
        let x = c[from];
        let y = c[from + 1];
        assert(d[0] == x && d[1] == y);
        if x == '2' {
            if y == '2' {
                Some(CursesStyle::Attribute(TextAttribute::Bold, false))
            } else if y == '1' {
                None
            } else {
                match attribute_for_digit(y) {
                    Some(a) => Some(CursesStyle::Attribute(a, false)),
                    None => None,
                }
            }
        } else if x == '3' && '0' <= y && y <= '7' {
            Some(CursesStyle::Color(Some((y as u32 - '0' as u32) as i16), None))
        } else if x == '3' && y == '9' {
            Some(CursesStyle::Color(Some(COLOR_DEFAULT), None))
        } else if x == '4' && '0' <= y && y <= '7' {
            Some(CursesStyle::Color(None, Some((y as u32 - '0' as u32) as i16)))
        } else if x == '4' && y == '9' {
            Some(CursesStyle::Color(None, Some(COLOR_DEFAULT)))
        } else {
            None
        }
    } else {
        None
    }
}

/// Whether the line holds an escape character at all.
pub fn has_ansi_escape_sequence(s: &str) -> (r: bool)
    ensures
        r == s@.contains(ESC),
{
    let c = chars_of(s);
    let mut i: usize = 0;
    while i < c.len()
        invariant
            c@ == s@,
            i <= c@.len(),
            forall|k: int| 0 <= k < i ==> c@[k] != ESC,
        decreases c@.len() - i,
    {
        if c[i] == ESC {
            return true;
        }
        i = i + 1;
    }
    false
}

/// The line with every escape sequence `ESC '[' digits 'm'` removed, known
/// or not. Other characters, stray escape characters included, stay.
pub fn strip_ansi(s: &str) -> (r: String)
    ensures
        r@ == strip(s@),
{
    let c = chars_of(s);
    let n = c.len();
    let mut out: Vec<char> = Vec::new();
    let mut i: usize = 0;
    while i < n
        invariant
            c@ == s@,
            n == c@.len(),
            i <= n,
            out@ + strip_from(c@, i as int) == strip(c@),
        decreases n - i,
    {
        let e = escape_len_at(&c, i);
        if e > 0 {
            i = i + e;
        } else {
            out.push(c[i]);
            assert(strip_from(c@, i as int) == seq![c@[i as int]] + strip_from(c@, i + 1));
            i = i + 1;
        }
    }
    assert(out@ + strip_from(c@, i as int) == out@);
    string_of(&out)
}

/// Splits a line into its style changes and text runs, in order. Each
/// escape sequence with a known code becomes its style; one with an unknown
/// code becomes nothing; each maximal run of other characters becomes one
/// content piece.
pub fn break_to_ncurses_components(s: &str) -> (r: Vec<CursesComponent>)
    ensures
        pieces_of(r@) == components(s@),
{
    let c = chars_of(s);
    let n = c.len();
    let mut out: Vec<CursesComponent> = Vec::new();
    let mut i: usize = 0;
    while i < n
        invariant
            c@ == s@,
            n == c@.len(),
            i <= n,
            pieces_of(out@) + components_from(c@, i as int) == components(c@),
        decreases n - i,
    {
        let ghost before = out@;
        let e = escape_len_at(&c, i);
        if e > 0 {
            match style_for_code(&c, i + 2, i + e - 1) {
                Some(st) => {
                    out.push(CursesComponent::Style(st));
                    assert(pieces_of(out@) == pieces_of(before) + seq![Piece::Style(st)]);
                },
                None => {},
            }
            i = i + e;
        } else {
            let mut piece: Vec<char> = Vec::new();
            piece.push(c[i]);
            let mut j: usize = i + 1;
            while j < n && escape_len_at(&c, j) == 0
                invariant
                    n == c@.len(),
                    i < j <= n,
                    piece@ == c@.subrange(i as int, j as int),
                    plain_end(c@, j as int) == plain_end(c@, i + 1),
                decreases n - j,
            {
                piece.push(c[j]);
                j = j + 1;
            }
            let text = string_of(&piece);
            out.push(CursesComponent::Content(text));
            assert(pieces_of(out@) == pieces_of(before) + seq![Piece::Content(text@)]);
            i = j;
        }
    }
    assert(pieces_of(out@) + components_from(c@, i as int) == pieces_of(out@));
    out
}

} // verus!
