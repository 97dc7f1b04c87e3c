use flow::ansi::{
    break_to_ncurses_components, build_color_id, color_pairs, has_ansi_escape_sequence,
    strip_ansi, CursesComponent, CursesStyle, TextAttribute, COLOR_BLACK, COLOR_DEFAULT,
    COLOR_RED, COLOR_WHITE,
};
use flow::style::{State, StyleEffect};

fn describe(components: &[CursesComponent]) -> Vec<String> {
    components
        .iter()
        .map(|c| match c {
            CursesComponent::Style(s) => format!("{:?}", s),
            CursesComponent::Content(t) => format!("text:{}", t),
        })
        .collect()
}

#[test]
fn color_id_formula() {
    assert_eq!(build_color_id(COLOR_DEFAULT, COLOR_DEFAULT), 199);
    assert_eq!(build_color_id(COLOR_RED, COLOR_BLACK), 110);
    assert_eq!(build_color_id(COLOR_WHITE, COLOR_DEFAULT), 179);
    assert_eq!(build_color_id(COLOR_BLACK, COLOR_BLACK), 100);
}

#[test]
fn color_pairs_are_distinct() {
    let pairs = color_pairs();
    assert_eq!(pairs.len(), 81);
    let mut ids: Vec<i16> = pairs.iter().map(|p| p.0).collect();
    ids.sort();
    ids.dedup();
    assert_eq!(ids.len(), 81);
    assert_eq!(pairs[0], (100, 0, 0));
    assert_eq!(pairs[80], (199, -9, -9));
}

#[test]
fn breaks_red_hello_world() {
    let s = "\x1b[31mHello\x1b[0m World";
    let c = break_to_ncurses_components(s);
    assert_eq!(c.len(), 4);
    assert!(matches!(c[0], CursesComponent::Style(CursesStyle::Color(Some(1), None))));
    assert!(matches!(&c[1], CursesComponent::Content(t) if t == "Hello"));
    assert!(matches!(c[2], CursesComponent::Style(CursesStyle::Reset)));
    assert!(matches!(&c[3], CursesComponent::Content(t) if t == " World"));
    assert_eq!(strip_ansi(s), "Hello World");
}

#[test]
fn unknown_codes_are_dropped() {
    let c = break_to_ncurses_components("a\x1b[58mb\x1b[031mc");
    assert_eq!(describe(&c), vec!["text:a", "text:b", "text:c"]);
    assert_eq!(strip_ansi("a\x1b[58mb\x1b[031mc"), "abc");
}

#[test]
fn malformed_sequences_stay_content() {
    let s = "x\x1b[12y\x1b[m\x1b";
    let c = break_to_ncurses_components(s);
    assert_eq!(describe(&c), vec![format!("text:{}", s)]);
    assert_eq!(strip_ansi(s), s);
}

#[test]
fn attributes_and_backgrounds() {
    let c = break_to_ncurses_components("\x1b[1m\x1b[44m\x1b[22m\x1b[49m\x1b[39m");
    assert_eq!(c.len(), 5);
    assert!(matches!(c[0], CursesComponent::Style(CursesStyle::Attribute(TextAttribute::Bold, true))));
    assert!(matches!(c[1], CursesComponent::Style(CursesStyle::Color(None, Some(4)))));
    assert!(matches!(c[2], CursesComponent::Style(CursesStyle::Attribute(TextAttribute::Bold, false))));
    assert!(matches!(c[3], CursesComponent::Style(CursesStyle::Color(None, Some(-9)))));
    assert!(matches!(c[4], CursesComponent::Style(CursesStyle::Color(Some(-9), None))));
}

#[test]
fn empty_line_has_no_components() {
    assert_eq!(break_to_ncurses_components("").len(), 0);
    assert_eq!(strip_ansi(""), "");
    assert!(!has_ansi_escape_sequence("plain"));
    assert!(has_ansi_escape_sequence("a\x1bb"));
}

#[test]
fn stripping_joined_content_matches_stripping() {
    for s in ["\x1b[31mHello\x1b[0m World", "a\x1b[1mb\x1b[7mc", "\x1b[9m", "no escapes"] {
        let joined: String = break_to_ncurses_components(s)
            .iter()
            .filter_map(|c| match c {
                CursesComponent::Content(t) => Some(t.clone()),
                CursesComponent::Style(_) => None,
            })
            .collect();
        assert_eq!(strip_ansi(&joined), strip_ansi(s));
    }
}

#[test]
fn one_sided_color_keeps_the_other_side() {
    let mut st = State::default();
    let e = st.apply(CursesStyle::Color(None, Some(4)));
    assert!(matches!(e, StyleEffect::ColorPair(id) if id == build_color_id(COLOR_DEFAULT, 4)));
    let e = st.apply(CursesStyle::Color(Some(1), None));
    assert!(matches!(e, StyleEffect::ColorPair(114)));
    assert_eq!((st.foreground, st.background), (1, 4));
}

#[test]
fn reset_clears_attributes_and_colors() {
    let mut st = State::default();
    st.apply(CursesStyle::Attribute(TextAttribute::Bold, true));
    st.apply(CursesStyle::Attribute(TextAttribute::Underline, true));
    st.apply(CursesStyle::Color(Some(2), Some(3)));
    let e = st.apply(CursesStyle::Reset);
    match e {
        StyleEffect::Reset(off, id) => {
            assert_eq!(off, vec![TextAttribute::Bold, TextAttribute::Underline]);
            assert_eq!(id, 199);
        }
        _ => panic!("expected a reset"),
    }
    assert!(st.attributes.is_empty());
    assert_eq!((st.foreground, st.background), (COLOR_DEFAULT, COLOR_DEFAULT));
}

#[test]
fn attribute_off_removes_every_occurrence() {
    let mut st = State::default();
    st.apply(CursesStyle::Attribute(TextAttribute::Bold, true));
    st.apply(CursesStyle::Attribute(TextAttribute::Reverse, true));
    st.apply(CursesStyle::Attribute(TextAttribute::Bold, true));
    let e = st.apply(CursesStyle::Attribute(TextAttribute::Bold, false));
    assert!(matches!(e, StyleEffect::AttributeOff(TextAttribute::Bold)));
    assert_eq!(st.attributes, vec![TextAttribute::Reverse]);
    st.remove_attribute(TextAttribute::Italic);
    assert_eq!(st.attributes, vec![TextAttribute::Reverse]);
}

#[test]
fn every_attribute_code() {
    let on = break_to_ncurses_components("\x1b[1m\x1b[3m\x1b[4m\x1b[7m\x1b[9m");
    let off = break_to_ncurses_components("\x1b[22m\x1b[23m\x1b[24m\x1b[27m\x1b[29m\x1b[21m");
    let all = [
        TextAttribute::Bold,
        TextAttribute::Italic,
        TextAttribute::Underline,
        TextAttribute::Reverse,
        TextAttribute::StrikeThrough,
    ];
    assert_eq!(on.len(), 5);
    assert_eq!(off.len(), 5);
    for k in 0..5 {
        assert!(matches!(on[k], CursesComponent::Style(CursesStyle::Attribute(a, true)) if a == all[k]));
        assert!(matches!(off[k], CursesComponent::Style(CursesStyle::Attribute(a, false)) if a == all[k]));
    }
}
