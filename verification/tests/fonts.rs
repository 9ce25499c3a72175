use wezterm_gui::command::LsFontsCommand;
use wezterm_gui::font_report::{
    followed_by_space, font_dirs_section, font_entry, font_report, font_rule_condition,
    glyph_report, rasterize, report_steps, system_fonts_section, Cluster, FontEntry, FontRule,
    GlyphInfo, ReportStep,
};
use wezterm_gui::ls_fonts::{
    byte_lens, parse_codepoints, parse_hex, run_ls_fonts, CodepointError, HexError, LsFontsPlan,
};
use wezterm_gui::selected::{ColumnSpan, LineCell, PhysicalLine};
use wezterm_gui::text::{
    escape_unicode, join, push_decimal, push_left_aligned, push_right_aligned, trim_end,
    trim_end_matches,
};

fn s(text: &str) -> String {
    text.to_string()
}

fn cmd(text: Option<&str>, codepoints: Option<&str>) -> LsFontsCommand {
    LsFontsCommand {
        list_system: true,
        text: text.map(s),
        codepoints: codepoints.map(s),
        rasterize_ascii: false,
    }
}

#[test]
fn hex_numbers_are_read_like_std_does() {
    for text in [
        "", "+", "-", "0", "+0", "1F600", "1f600", "ffffffff", "+FFFFFFFF", "100000000", "g",
        "12x", " 1", "++1", "-1", "0000000000041", "\u{661}", "fffffffffg", "ffffffffg",
        "gfffffffff", "1000000000000000000000000000000000",
    ] {
        let ours = parse_hex(text);
        match u32::from_str_radix(text, 16) {
            Ok(value) => assert_eq!(ours, Ok(value), "{text:?}"),
            Err(err) => {
                assert_eq!(ours.map_err(|e| e.message()), Err(err.to_string().as_str()), "{text:?}")
            }
        }
    }
    assert_eq!(parse_hex(""), Err(HexError::Empty));
    assert_eq!(parse_hex("+"), Err(HexError::InvalidDigit));
    assert_eq!(parse_hex("100000000"), Err(HexError::TooLarge));
}

#[test]
fn codepoints_make_a_text() {
    assert_eq!(parse_codepoints("41,1F600,+e9").ok(), Some(s("A\u{1f600}\u{e9}")));
}

#[test]
fn first_bad_codepoint_is_reported() {
    match parse_codepoints("41,zz,d800") {
        Err(e) => {
            assert!(matches!(&e, CodepointError::NotHex(f, _) if f == "zz"));
            assert_eq!(e.message(), "zz is not a hex number");
            assert_eq!(e.cause(), Some(HexError::InvalidDigit));
        }
        Ok(_) => panic!("accepted"),
    }
    match parse_codepoints("d800,zz") {
        Err(e) => {
            assert!(matches!(e, CodepointError::NotScalar(0xd800)));
            assert_eq!(e.message(), "55296 is not a valid unicode codepoint value");
            assert_eq!(e.cause(), None);
        }
        Ok(_) => panic!("accepted"),
    }
    assert!(matches!(parse_codepoints("110000"), Err(CodepointError::NotScalar(0x110000))));
    for text in ["", "41,"] {
        let r = parse_codepoints(text);
        assert!(matches!(r, Err(CodepointError::NotHex(f, HexError::Empty)) if f.is_empty()));
    }
}

#[test]
fn broken_configuration_ends_the_listing() {
    let r = run_ls_fonts(&cmd(Some("a"), None), &Some(s("broken")), false);
    assert!(matches!(r, Ok(LsFontsPlan::ConfigError(e)) if e == "broken"));
}

#[test]
fn text_comes_before_codepoints() {
    let r = run_ls_fonts(&cmd(Some("a"), Some("zz")), &None, false);
    assert!(matches!(r, Ok(LsFontsPlan::Shape(t)) if t == "a"));
    let r = run_ls_fonts(&cmd(None, Some("42")), &None, false);
    assert!(matches!(r, Ok(LsFontsPlan::Shape(t)) if t == "B"));
    let r = run_ls_fonts(&cmd(None, Some("zz")), &None, false);
    assert!(matches!(r, Err(CodepointError::NotHex(_, _))));
    let r = run_ls_fonts(&cmd(None, None), &None, true);
    assert!(matches!(r, Ok(LsFontsPlan::Report { list_system: true })));
}

#[test]
fn text_is_composed_only_where_configured() {
    let r = run_ls_fonts(&cmd(Some("e\u{301}"), None), &None, true);
    assert!(matches!(r, Ok(LsFontsPlan::Shape(t)) if t == "\u{e9}"));
    let r = run_ls_fonts(&cmd(Some("e\u{301}"), None), &None, false);
    assert!(matches!(r, Ok(LsFontsPlan::Shape(t)) if t == "e\u{301}"));
    let r = run_ls_fonts(&cmd(None, Some("41,30a")), &None, true);
    assert!(matches!(r, Ok(LsFontsPlan::Shape(t)) if t == "\u{c5}"));
}

#[test]
fn every_byte_knows_its_character() {
    let text = "a\u{e9}\u{4e00}\u{1f600}";
    assert_eq!(byte_lens(text), vec![1, 2, 2, 3, 3, 3, 4, 4, 4, 4]);
    assert_eq!(byte_lens(text).len(), text.len());
    assert_eq!(byte_lens(""), Vec::<usize>::new());
}

#[test]
fn glyphs_share_out_the_cells() {
    let c = Cluster {
        left_to_right: true,
        cell_of_byte: vec![4, 5, 5, 7],
        byte_lens: vec![1, 2, 2, 1],
    };
    assert_eq!(c.glyph_columns(0, Some(1)), ColumnSpan { start: 4, end: 5 });
    assert_eq!(c.glyph_columns(1, Some(3)), ColumnSpan { start: 5, end: 7 });
    assert_eq!(c.glyph_columns(3, None), ColumnSpan { start: 7, end: 8 });
    let all = c.all_glyph_columns(&vec![0, 1, 3]);
    assert_eq!(all.iter().map(|s| (s.start, s.end)).collect::<Vec<_>>(), [(4, 5), (5, 7), (7, 8)]);
    assert_eq!(c.all_glyph_columns(&vec![]).len(), 0);
}

#[test]
fn right_to_left_glyphs_end_with_their_character() {
    let c = Cluster {
        left_to_right: false,
        cell_of_byte: vec![0, 0, 1, 1],
        byte_lens: vec![2, 2, 2, 2],
    };
    assert_eq!(c.glyph_columns(2, Some(0)), ColumnSpan { start: 1, end: 2 });
    assert_eq!(c.glyph_columns(0, None), ColumnSpan { start: 0, end: 1 });
    let all = c.all_glyph_columns(&vec![2, 0]);
    assert_eq!(all.iter().map(|s| (s.start, s.end)).collect::<Vec<_>>(), [(1, 2), (0, 1)]);
}

#[test]
fn a_space_may_follow() {
    let cell = |index, text: &str| LineCell { index, text: s(text), wrapped: false };
    let line = PhysicalLine {
        len: 4,
        cells: vec![cell(0, "a"), cell(1, " "), cell(2, "\u{4e00}")],
        selected: ColumnSpan { start: 0, end: 0 },
    };
    assert!(followed_by_space(&line, 0));
    assert!(!followed_by_space(&line, 1));
    assert!(!followed_by_space(&line, 2));
    assert!(!followed_by_space(&line, 9));
}

fn glyph() -> GlyphInfo {
    GlyphInfo {
        cluster: 3,
        text: s("a"),
        x_advance: s("8"),
        num_cells: 1,
        glyph_name: Some(s("a")),
        glyph_pos: 180,
        lua_name: s("wezterm.font('X')"),
        diagnostic: s("/fonts/x.ttf"),
    }
}

#[test]
fn glyph_reports_are_aligned_like_std_does() {
    let g = glyph();
    let want = format!(
        "{:2} {:4} {:12} x_adv={:<2} cells={:<2} glyph={}{:<4} {}\n{:38}{}",
        3, "a", "\\u{61}", 8.0, 1, "a,", 180, "wezterm.font('X')", "", "/fonts/x.ttf"
    );
    assert_eq!(glyph_report(false, &Some(s("Blocks")), &g), want);
    assert_eq!(glyph_report(true, &None, &g), want);
    let custom = format!(
        "{:2} {:4} {:12} drawn by wezterm because custom_block_glyphs=true: {}",
        3, "a", "\\u{61}", "Blocks"
    );
    assert_eq!(glyph_report(true, &Some(s("Blocks")), &g), custom);
}

#[test]
fn wide_fields_are_not_cut() {
    let mut g = glyph();
    g.cluster = 12345;
    g.text = s("abcdef");
    g.glyph_name = None;
    let want = format!(
        "{:2} {:4} {:12} x_adv={:<2} cells={:<2} glyph={}{:<4} {}\n{:38}{}",
        12345,
        "abcdef",
        "abcdef".escape_unicode().to_string(),
        "8",
        1,
        "",
        180,
        "wezterm.font('X')",
        "",
        "/fonts/x.ttf"
    );
    assert_eq!(glyph_report(false, &None, &g), want);
}

#[test]
fn pixels_are_coloured_blocks() {
    let px = |r: u8, g: u8, b: u8, a: u8| {
        format!("\x1b[38:2::{r}:{g}:{b}m\x1b[38:6::{r}:{g}:{b}:{a}m\u{2588}\x1b[0m")
    };
    assert_eq!(
        rasterize(&vec![vec![0x01020304, 0xff800a00], vec![], vec![0]]),
        format!("{}{}\n\n{}\n", px(1, 2, 3, 4), px(255, 128, 10, 0), px(0, 0, 0, 0))
    );
    assert_eq!(rasterize(&vec![]), "");
}

fn no_rule() -> FontRule {
    FontRule {
        intensity: None,
        underline: None,
        italic: None,
        blink: None,
        reverse: None,
        strikethrough: None,
        invisible: None,
    }
}

#[test]
fn rule_conditions_are_listed_in_order() {
    assert_eq!(font_rule_condition(&no_rule()), "When");
    let rule = FontRule {
        intensity: Some(s("Bold")),
        underline: Some(s("Single")),
        italic: Some(true),
        blink: Some(s("Slow")),
        reverse: Some(false),
        strikethrough: Some(true),
        invisible: Some(false),
    };
    assert_eq!(
        font_rule_condition(&rule),
        "When Intensity=Bold Underline=Single Italic=true Blink=Slow Reverse=false \
         Strikethrough=true Invisible=false"
    );
}

fn italic() -> FontRule {
    FontRule { italic: Some(true), ..no_rule() }
}

#[test]
fn report_goes_from_primary_over_rules_to_title() {
    let rules = vec![(italic(), s("R1")), (no_rule(), s("R2"))];
    assert_eq!(
        font_report("P", &rules, "T"),
        "Primary font:\nP\n\n\nWhen Italic=true:\nR1\n\n\nWhen:\nR2\n\nTitle font:\nT\n\n"
    );
    assert_eq!(font_report("P", &vec![], "T"), "Primary font:\nP\n\nTitle font:\nT\n\n");
}

#[test]
fn steps_print_the_report() {
    let fonts = ["R1", "R2"];
    let mut text = String::new();
    let mut listings = 0;
    for step in report_steps(&vec![italic(), no_rule()], true) {
        match step {
            ReportStep::Print(part) => text.push_str(&part),
            ReportStep::PrimaryFont => text.push('P'),
            ReportStep::RuleFont(i) => text.push_str(fonts[i]),
            ReportStep::TitleFont => text.push('T'),
            ReportStep::FontDirs | ReportStep::SystemFonts => listings += 1,
        }
    }
    let rules = vec![(italic(), s("R1")), (no_rule(), s("R2"))];
    assert_eq!(text, font_report("P", &rules, "T"));
    assert_eq!(listings, 2);
    let quiet = report_steps(&vec![], false);
    assert!(!quiet.iter().any(|s| matches!(s, ReportStep::FontDirs | ReportStep::SystemFonts)));
}

#[test]
fn found_fonts_are_listed() {
    let mut font = FontEntry {
        lua_name: s("L"),
        aka: s("AKA "),
        diagnostic: s("D"),
        pixel_sizes: vec![],
    };
    assert_eq!(font_entry(&font), "L -- AKA D");
    font.pixel_sizes = vec![12, 13, 256];
    assert_eq!(font_entry(&font), format!("L -- AKA D pixel_sizes={:?}", font.pixel_sizes));
    let line = font_entry(&font);
    assert_eq!(
        font_dirs_section(&vec![font]),
        format!("1 fonts found in your font_dirs + built-in fonts:\n{line}\n")
    );
    assert_eq!(
        system_fonts_section(&vec![], "FontConfig"),
        "0 system fonts found using FontConfig:\n"
    );
}

#[test]
fn texts_are_trimmed_and_joined() {
    for text in ["", " ", "a \t\n", "a b\u{3000}\u{a0}", "\u{200b}x"] {
        assert_eq!(trim_end(text), text.trim_end());
    }
    for text in ["", "/", "a//", "a/b"] {
        assert_eq!(trim_end_matches(text, '/'), text.trim_end_matches('/'));
    }
    assert_eq!(join(&vec![], ","), "");
    assert_eq!(join(&vec![s("a")], ","), "a");
    assert_eq!(join(&vec![s("a"), s(""), s("b")], ","), "a,,b");
}

#[test]
fn white_space_is_what_unicode_says() {
    let listed = |c: char| match c as u32 {
        0x9..=0xd | 0x20 | 0x85 | 0xa0 | 0x1680 | 0x2000..=0x200a => true,
        0x2028 | 0x2029 | 0x202f | 0x205f | 0x3000 => true,
        _ => false,
    };
    for c in '\u{0}'..=char::MAX {
        assert_eq!(c.is_whitespace(), listed(c));
    }
    for c in '\u{0}'..='\u{3100}' {
        assert_eq!(trim_end(&format!("x{c}")) == "x", listed(c));
    }
}

#[test]
fn texts_are_escaped_and_aligned_like_std_does() {
    for text in ["", "a", "\u{0}\u{10ffff}", "\u{e9}/\u{1f600}"] {
        assert_eq!(escape_unicode(text), text.escape_unicode().to_string());
        let mut left = String::new();
        push_left_aligned(&mut left, text, 3);
        assert_eq!(left, format!("{text:<3}"));
        let mut right = String::new();
        push_right_aligned(&mut right, text, 3);
        assert_eq!(right, format!("{text:>3}"));
    }
    for n in [0, 9, 10, 4294967295, u64::MAX] {
        let mut out = s("n=");
        push_decimal(&mut out, n);
        assert_eq!(out, format!("n={n}"));
    }
}
