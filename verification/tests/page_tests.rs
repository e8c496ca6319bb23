use textty::error::Error;
use textty::mosaic::MosaicTable;
use textty::page::{parse, parse_gif_id, BgColour, FgColour, SpanStyle};

#[test]
fn test_parse_page_style() {
    let test_cases = [
        (
            "bgB",
            SpanStyle { bg: BgColour::Blue, fg: FgColour::White, mosaic: false },
        ),
        (
            "bgBl W",
            SpanStyle { bg: BgColour::Black, fg: FgColour::White, mosaic: false },
        ),
        (
            "bgB  bgImg",
            SpanStyle { fg: FgColour::White, bg: BgColour::Blue, mosaic: true },
        ),
    ];
    for case in test_cases.iter() {
        let result = SpanStyle::from_str(case.0).unwrap();
        assert_eq!(result, case.1);
    }
}

#[test]
fn one_field_inputs_default_to_white_foreground() {
    let cases = [
        ("bgB", BgColour::Blue),
        ("bgBl", BgColour::Black),
        ("bgC", BgColour::Cyan),
        ("bgG", BgColour::Green),
        ("bgM", BgColour::Magenta),
        ("bgR", BgColour::Red),
        ("bgW", BgColour::White),
        ("bgY", BgColour::Yellow),
    ];
    for (input, bg) in cases.iter() {
        let style = SpanStyle::from_str(input).unwrap();
        assert_eq!(
            style,
            SpanStyle { bg: *bg, fg: FgColour::White, mosaic: false }
        );
    }
}

#[test]
fn two_field_inputs_never_set_mosaic() {
    let cases = [
        ("bl", FgColour::Black),
        ("B", FgColour::Blue),
        ("C", FgColour::Cyan),
        ("G", FgColour::Green),
        ("M", FgColour::Magenta),
        ("R", FgColour::Red),
        ("W", FgColour::White),
        ("Y", FgColour::Yellow),
    ];
    for (code, fg) in cases.iter() {
        let input = format!("bgR {code}");
        let style = SpanStyle::from_str(&input).unwrap();
        assert_eq!(style, SpanStyle { bg: BgColour::Red, fg: *fg, mosaic: false });
    }
}

#[test]
fn empty_foreground_field_is_white() {
    // Two spaces in a row: the middle field is empty, an alias for white.
    let style = SpanStyle::from_str("bgB  bgImg").unwrap();
    assert_eq!(style.fg, FgColour::White);
    let style = SpanStyle::from_str("bgG ").unwrap();
    assert_eq!(
        style,
        SpanStyle { bg: BgColour::Green, fg: FgColour::White, mosaic: false }
    );
}

#[test]
fn sentinel_input_sets_mosaic() {
    let style = SpanStyle::from_str("bgBl Y bgImg").unwrap();
    assert_eq!(
        style,
        SpanStyle { bg: BgColour::Black, fg: FgColour::Yellow, mosaic: true }
    );
}

#[test]
fn sentinel_input_still_validates_fields() {
    assert!(matches!(
        SpanStyle::from_str("bgZ W bgImg"),
        Err(Error::UnknownBackground(_))
    ));
    assert!(matches!(
        SpanStyle::from_str("bgB x bgImg"),
        Err(Error::UnknownForeground(_))
    ));
}

#[test]
fn unknown_background_is_reported() {
    match SpanStyle::from_str("bgQ") {
        Err(Error::UnknownBackground(code)) => assert_eq!(code, "bgQ"),
        other => panic!("expected an unknown-background error, got {other:?}"),
    }
}

#[test]
fn unknown_foreground_is_reported() {
    match SpanStyle::from_str("bgB zz") {
        Err(Error::UnknownForeground(code)) => assert_eq!(code, "zz"),
        other => panic!("expected an unknown-foreground error, got {other:?}"),
    }
}

#[test]
fn wrong_field_counts_are_malformed() {
    assert!(matches!(
        SpanStyle::from_str("bgB W extra"),
        Err(Error::MalformedClass(_))
    ));
    assert!(matches!(
        SpanStyle::from_str("bgB W bgImg more"),
        Err(Error::MalformedClass(_))
    ));
}

#[test]
fn style_parse_is_deterministic() {
    for input in ["bgB", "bgBl W", "bgB  bgImg", "bgQ", "a b c d"] {
        let first = SpanStyle::from_str(input);
        let second = SpanStyle::from_str(input);
        match (first, second) {
            (Ok(a), Ok(b)) => assert_eq!(a, b),
            (Err(a), Err(b)) => assert_eq!(format!("{a:?}"), format!("{b:?}")),
            _ => panic!("one parse of {input} succeeded and one failed"),
        }
    }
}

#[test]
fn gif_id_is_extracted_from_style_attribute() {
    assert_eq!(parse_gif_id("background: url(teletext/37.gif)"), Some(37));
    assert_eq!(parse_gif_id("5.gif"), Some(5));
}

#[test]
fn gif_id_extraction_fails_safely() {
    // No digits at all.
    assert_eq!(parse_gif_id("background: none"), None);
    // Digits but no extension marker.
    assert_eq!(parse_gif_id("background: url(teletext/37.png)"), None);
    // The marker comes before the first digit.
    assert_eq!(parse_gif_id(".gif5"), None);
    // A stray non-digit between the run and the marker.
    assert_eq!(parse_gif_id("12a.gif"), None);
    // A value too large for the identifier type.
    assert_eq!(parse_gif_id("99999999999999999999.gif"), None);
}

#[test]
fn unknown_gif_ids_share_the_default_glyph() {
    let fallback = MosaicTable::glyph_for(0);
    assert_eq!(MosaicTable::glyph_for(12345), fallback);
    assert_eq!(MosaicTable::glyph_for(16), fallback);
    assert_ne!(MosaicTable::glyph_for(5), fallback);
}

#[test]
fn parse_builds_lines_and_spans() {
    let html = "<div><span class=\"line toprow\">\
                <span class=\"bgB\">hello</span>\
                <span class=\"bgR W\"> world</span>\
                </span>\
                <span class=\"line\">\
                <span class=\"bgY bl\">next</span>\
                </span></div>";
    let page = parse(html).unwrap();
    assert_eq!(page.len(), 2);
    assert_eq!(page[0].len(), 2);
    assert_eq!(page[1].len(), 1);
    assert_eq!(page[0][0].content, "hello");
    assert_eq!(
        page[0][0].style,
        SpanStyle { bg: BgColour::Blue, fg: FgColour::White, mosaic: false }
    );
    assert_eq!(page[0][1].content, " world");
    assert_eq!(
        page[0][1].style,
        SpanStyle { bg: BgColour::Red, fg: FgColour::White, mosaic: false }
    );
    assert_eq!(page[1][0].content, "next");
    assert_eq!(
        page[1][0].style,
        SpanStyle { bg: BgColour::Yellow, fg: FgColour::Black, mosaic: false }
    );
}

#[test]
fn parse_substitutes_mosaic_glyphs() {
    let html = "<div><span class=\"line\">\
                <span class=\"bgB W bgImg\" style=\"background: url(t/5.gif)\">ignored</span>\
                </span></div>";
    let page = parse(html).unwrap();
    assert_eq!(page.len(), 1);
    assert_eq!(page[0].len(), 1);
    assert!(page[0][0].style.mosaic);
    assert_eq!(page[0][0].content, MosaicTable::glyph_for(5).to_string());
}

#[test]
fn parse_uses_default_glyph_without_style_attribute() {
    let html = "<div><span class=\"line\">\
                <span class=\"bgB W bgImg\">x</span>\
                </span></div>";
    let page = parse(html).unwrap();
    assert_eq!(page[0][0].content, MosaicTable::glyph_for(0).to_string());
}

#[test]
fn parse_rejects_missing_class() {
    let html = "<div><span class=\"line\"><span>text</span></span></div>";
    assert!(matches!(parse(html), Err(Error::MissingClass)));
}

#[test]
fn parse_rejects_bad_span_class() {
    let html = "<div><span class=\"line\"><span class=\"bgQ\">text</span></span></div>";
    assert!(matches!(parse(html), Err(Error::UnknownBackground(_))));
}

#[test]
fn parse_is_deterministic() {
    let html = "<div><span class=\"line\">\
                <span class=\"bgB\">one</span><span class=\"bgR W\">two</span>\
                </span></div>";
    let first = parse(html).unwrap();
    let second = parse(html).unwrap();
    assert_eq!(first.len(), second.len());
    for (a, b) in first.iter().zip(second.iter()) {
        assert_eq!(a.len(), b.len());
        for (x, y) in a.iter().zip(b.iter()) {
            assert_eq!(x.style, y.style);
            assert_eq!(x.content, y.content);
        }
    }
}

#[test]
fn parse_of_markup_without_lines_is_empty() {
    let page = parse("<div><span class=\"other\">x</span></div>").unwrap();
    assert!(page.is_empty());
}
