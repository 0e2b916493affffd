use sleepproxy::gradient::parse_gradient_tag;
use sleepproxy::json::Json;
use sleepproxy::json_text::{parse_json, print_json};
use sleepproxy::motd::{
    component_of, flush_run, gradient_points, looks_like_json, motd_component, parse_legacy_motd,
    plain_component_text, plain_motd_text, rgb_string, Motd,
};
use sleepproxy::style::{color_name, read_bungee_hex, Style};
use sleepproxy::text::{
    ascii_lower, chars_of, encode_utf16, hex_value, is_white_space, parse_unsigned, push_decimal,
    string_of, unescape_line_breaks,
};

fn plain(text: &str) -> Motd {
    Motd::new(text.to_string(), vec![]).unwrap()
}

fn runs(text: &str) -> String {
    let printed = print_json(parse_legacy_motd(&plain(text)));
    let start = "{\"extra\":[";
    let end = "],\"text\":\"\"}";
    assert!(printed.starts_with(start) && printed.ends_with(end));
    printed[start.len()..printed.len() - end.len()].to_string()
}

fn chars(text: &str) -> Vec<char> {
    text.chars().collect()
}

#[test]
fn plain_text_is_one_run() {
    assert_eq!(print_json(parse_legacy_motd(&plain("Hello"))), "{\"extra\":[{\"text\":\"Hello\"}],\"text\":\"\"}");
    assert_eq!(runs(""), "");
}

#[test]
fn named_colors_start_runs() {
    assert_eq!(runs("&aGreen"), "{\"color\":\"green\",\"text\":\"Green\"}");
    assert_eq!(runs("a&Cb"), "{\"text\":\"a\"},{\"color\":\"red\",\"text\":\"b\"}");
    assert_eq!(runs("\u{a7}eYellow"), "{\"color\":\"yellow\",\"text\":\"Yellow\"}");
    assert_eq!(runs("&a&b&cx"), "{\"color\":\"red\",\"text\":\"x\"}");
}

#[test]
fn hex_colors_start_runs() {
    assert_eq!(
        runs("&#54DAF4C&#57d6E4l"),
        "{\"color\":\"#54daf4\",\"text\":\"C\"},{\"color\":\"#57d6e4\",\"text\":\"l\"}"
    );
    assert_eq!(runs("&#54DAF"), "{\"text\":\"&#54DAF\"}");
    assert_eq!(runs("&#54DAFgx"), "{\"text\":\"&#54DAFgx\"}");
}

#[test]
fn bungee_colors_start_runs() {
    assert_eq!(runs("&x&5&4&D&A&F&4Hi"), "{\"color\":\"#54daf4\",\"text\":\"Hi\"}");
    assert_eq!(runs("&X&5\u{a7}4&D&A&F&4Hi"), "{\"color\":\"#54daf4\",\"text\":\"Hi\"}");
    assert_eq!(
        runs("&x&5&4Hi"),
        "{\"text\":\"&x\"},{\"color\":\"dark_red\",\"text\":\"Hi\"}"
    );
    assert_eq!(read_bungee_hex(&chars("ab&x&1&2&3&4&5&6c"), 2), Some(("123456".to_string(), 16)));
    assert_eq!(read_bungee_hex(&chars("&x&1&2&3&4&5"), 0), None);
    assert_eq!(read_bungee_hex(&chars("&x&1&2&3&4&5&g"), 0), None);
    assert_eq!(read_bungee_hex(&chars("&x"), usize::MAX), None);
}

#[test]
fn formats_add_up_and_colors_reset_them() {
    assert_eq!(
        runs("&k&l&m&n&oall"),
        "{\"bold\":true,\"italic\":true,\"obfuscated\":true,\"strikethrough\":true,\"text\":\"all\",\"underlined\":true}"
    );
    assert_eq!(runs("&a&lB"), "{\"bold\":true,\"color\":\"green\",\"text\":\"B\"}");
    assert_eq!(
        runs("&lA&aB"),
        "{\"bold\":true,\"text\":\"A\"},{\"color\":\"green\",\"text\":\"B\"}"
    );
}

#[test]
fn codes_style_only_what_follows() {
    assert_eq!(runs("ab&lcd"), "{\"text\":\"ab\"},{\"bold\":true,\"text\":\"cd\"}");
    assert_eq!(runs("&lA&rB"), "{\"bold\":true,\"text\":\"A\"},{\"text\":\"B\"}");
    assert_eq!(
        runs("&aA&lB&rC"),
        "{\"color\":\"green\",\"text\":\"A\"},{\"bold\":true,\"color\":\"green\",\"text\":\"B\"},{\"text\":\"C\"}"
    );
    assert_eq!(
        runs("&lA<gradient:#ff0000>b</gradient>&rC"),
        "{\"bold\":true,\"text\":\"A\"},{\"bold\":true,\"color\":\"#ff0000\",\"text\":\"b\"},{\"text\":\"C\"}"
    );
}

#[test]
fn a_reset_with_nothing_to_reset_ends_no_run() {
    assert_eq!(runs("ab&rcd"), "{\"text\":\"abcd\"}");
}

#[test]
fn what_is_no_code_stays_text() {
    assert_eq!(runs("a & b"), "{\"text\":\"a & b\"}");
    assert_eq!(runs("&z&"), "{\"text\":\"&z&\"}");
    assert_eq!(runs("1 < 2"), "{\"text\":\"1 < 2\"}");
}

#[test]
fn escaped_line_breaks_become_real_ones() {
    assert_eq!(unescape_line_breaks("a\\nb\\\\n\\"), chars("a\nb\\\n\\"));
    assert_eq!(runs("a\\nb"), "{\"text\":\"a\\nb\"}");
}

#[test]
fn single_stop_gradients_need_no_shades() {
    assert!(gradient_points("<gradient:#FF0000>ab</gradient>").is_empty());
    assert_eq!(
        runs("<gradient:#FF0000>ab</gradient>"),
        "{\"color\":\"#ff0000\",\"text\":\"a\"},{\"color\":\"#ff0000\",\"text\":\"b\"}"
    );
}

#[test]
fn gradients_take_their_shades_in_order() {
    let text = "&l<gradient:#54DAF4:#6DB654>text</gradient>!";
    let points = gradient_points(text);
    assert_eq!(points.len(), 2);
    for (i, point) in points.iter().enumerate() {
        assert_eq!(point.stops, vec![(0x54, 0xda, 0xf4), (0x6d, 0xb6, 0x54)]);
        assert_eq!((point.index, point.last), (i + 1, 3));
    }
    let shades = vec![(0x5c, 0xce, 0xbf), (0x65, 0xc2, 0x89)];
    let motd = Motd::new(text.to_string(), shades).unwrap();
    assert_eq!(
        print_json(motd_component(&motd)),
        "{\"extra\":[\
            {\"bold\":true,\"color\":\"#54daf4\",\"text\":\"t\"},\
            {\"bold\":true,\"color\":\"#5ccebf\",\"text\":\"e\"},\
            {\"bold\":true,\"color\":\"#65c289\",\"text\":\"x\"},\
            {\"bold\":true,\"color\":\"#6db654\",\"text\":\"t\"},\
            {\"bold\":true,\"text\":\"!\"}\
        ],\"text\":\"\"}"
    );
    assert_eq!(plain_motd_text(&motd), "text!");
}

#[test]
fn gradients_end_in_their_stops() {
    assert_eq!(runs("<gradient:#000000:#ffffff></gradient>"), "");
    assert_eq!(
        runs("<gradient:#000000:#888888:#ffffff>a</gradient>"),
        "{\"color\":\"#000000\",\"text\":\"a\"}"
    );
    assert_eq!(
        runs("<gradient:#000000:#888888:#ffffff>ab</gradient>"),
        "{\"color\":\"#000000\",\"text\":\"a\"},{\"color\":\"#ffffff\",\"text\":\"b\"}"
    );
    let three = gradient_points("<gradient:#000000:#ffffff>abc</gradient>");
    assert_eq!(three.len(), 1);
    assert_eq!((three[0].index, three[0].last), (1, 2));
}

#[test]
fn every_gradient_of_a_motd_asks_for_its_shades() {
    let text = "<gradient:#000000:#ffffff>abc</gradient> <gradient:#111111>def</gradient>\
                <gradient:#000000:#ff0000:#fffffe>ghij</gradient>";
    let points = gradient_points(text);
    assert_eq!(points.len(), 3);
    assert_eq!(points[2].stops.len(), 3);
    assert!(Motd::new(text.to_string(), vec![(0, 0, 0); 2]).is_none());
    assert!(Motd::new(text.to_string(), vec![(0, 0, 0); 4]).is_none());
    let motd = Motd::new(text.to_string(), vec![(1, 2, 3), (4, 5, 6), (7, 8, 255)]).unwrap();
    assert_eq!(
        print_json(parse_legacy_motd(&motd)),
        "{\"extra\":[\
            {\"color\":\"#000000\",\"text\":\"a\"},\
            {\"color\":\"#010203\",\"text\":\"b\"},\
            {\"color\":\"#ffffff\",\"text\":\"c\"},\
            {\"text\":\" \"},\
            {\"color\":\"#111111\",\"text\":\"d\"},\
            {\"color\":\"#111111\",\"text\":\"e\"},\
            {\"color\":\"#111111\",\"text\":\"f\"},\
            {\"color\":\"#000000\",\"text\":\"g\"},\
            {\"color\":\"#040506\",\"text\":\"h\"},\
            {\"color\":\"#0708ff\",\"text\":\"i\"},\
            {\"color\":\"#fffffe\",\"text\":\"j\"}\
        ],\"text\":\"\"}"
    );
}

#[test]
fn codes_inside_a_gradient_are_text() {
    assert_eq!(
        runs("<gradient:#FF0000>&a</gradient>"),
        "{\"color\":\"#ff0000\",\"text\":\"&\"},{\"color\":\"#ff0000\",\"text\":\"a\"}"
    );
}

#[test]
fn gradient_tags_are_parsed() {
    assert_eq!(
        parse_gradient_tag(&chars("<gradient:#0a0B0c:#FFffFF>hi</gradient>rest")),
        Some((vec![(10, 11, 12), (255, 255, 255)], "hi".to_string(), 39))
    );
    assert_eq!(
        parse_gradient_tag(&chars("<gradient:#000000>a>b</gradient></gradient>")),
        Some((vec![(0, 0, 0)], "a>b".to_string(), 32))
    );
}

#[test]
fn malformed_gradient_tags_are_refused() {
    for text in [
        "",
        "<gradient",
        "<gradient:",
        "<gradient:>x</gradient>",
        "<gradient:#000000x</gradient",
        "<gradient:#000000>x</gradient",
        "<gradient:000000>x</gradient>",
        "<gradient:#00000>x</gradient>",
        "<gradient:#0000000>x</gradient>",
        "<gradient:#00000g>x</gradient>",
        "<gradient:#000000:>x</gradient>",
        "<gradient:#000000::#000000>x</gradient>",
        "<gradient:#000000,#000000>x</gradient>",
        "<Gradient:#000000>x</gradient>",
        " <gradient:#000000>x</gradient>",
    ] {
        assert_eq!(parse_gradient_tag(&chars(text)), None);
    }
    assert_eq!(runs("<gradient:red>x"), "{\"text\":\"<gradient:red>x\"}");
}

#[test]
fn colors_are_written_in_lower_case_hex() {
    assert_eq!(rgb_string((0, 9, 10)), "#00090a");
    assert_eq!(rgb_string((255, 160, 16)), "#ffa010");
}

#[test]
fn json_components_are_used_verbatim() {
    let text = " {\"text\":\"&a\",\"bold\":false,\"n\":1.5}";
    assert!(looks_like_json(text));
    assert_eq!(print_json(motd_component(&plain(text))), "{\"bold\":false,\"n\":1.5,\"text\":\"&a\"}");
    assert_eq!(print_json(motd_component(&plain("\n[\"a\",{\"text\":\"b\"}]"))), "[\"a\",{\"text\":\"b\"}]");
}

#[test]
fn broken_json_is_parsed_for_codes() {
    assert_eq!(
        print_json(motd_component(&plain("{&aoops"))),
        "{\"extra\":[{\"text\":\"{\"},{\"color\":\"green\",\"text\":\"oops\"}],\"text\":\"\"}"
    );
    assert!(!looks_like_json("\"text\""));
    assert!(!looks_like_json(""));
    assert!(!looks_like_json("x{"));
    assert_eq!(print_json(motd_component(&plain("\"q\""))), "{\"extra\":[{\"text\":\"\\\"q\\\"\"}],\"text\":\"\"}");
}

#[test]
fn parsed_json_counts_only_where_the_text_opens_it() {
    let json = component_of(&plain("{}"), Some(Json::Bool(true)));
    assert_eq!(json, Json::Bool(true));
    let text = component_of(&plain("x"), Some(Json::Bool(true)));
    assert_eq!(print_json(text), "{\"extra\":[{\"text\":\"x\"}],\"text\":\"\"}");
}

#[test]
fn components_flatten_to_their_text() {
    let json = parse_json("{\"text\":\"a\",\"extra\":[{\"text\":\"b\"},\"c\",[\"d\",5,null],{\"extra\":[\"e\"]}],\"x\":\"no\"}");
    assert_eq!(plain_component_text(&json.unwrap()), "abcde");
    assert_eq!(plain_component_text(&parse_json("{\"text\":7,\"extra\":\"no\"}").unwrap()), "");
    assert_eq!(plain_component_text(&Json::Text("a\0b\nc".to_string())), "a b c");
    assert_eq!(plain_motd_text(&plain("&aTwo\\nlines")), "Two lines");
    assert_eq!(plain_motd_text(&plain("{\"text\":\"J\",\"extra\":[\"SON\"]}")), "JSON");
}

#[test]
fn visible_text_survives_in_order() {
    assert_eq!(
        plain_motd_text(&plain("a&lb<gradient:#ff0000>c&d</gradient>&#00ff00e&x&1&2&3&4&5&6f&r.")),
        "abc&def."
    );
}

#[test]
fn flushing_takes_the_text() {
    let mut list: Vec<Json> = Vec::new();
    let mut text = String::from("x");
    let style = Style { italic: true, ..Style::default() };
    flush_run(&mut list, &mut text, &style);
    flush_run(&mut list, &mut text, &style);
    assert_eq!(text, "");
    assert_eq!(list.len(), 1);
    assert_eq!(print_json(list.remove(0)), "{\"italic\":true,\"text\":\"x\"}");
}

#[test]
fn style_codes_change_the_style() {
    let mut style = Style::default();
    assert!(style.is_plain());
    assert_eq!(style.apply_format('r'), Some(false));
    assert_eq!(style.apply_format('x'), None);
    assert_eq!(style.apply_format('L'), None);
    for code in ['k', 'l', 'm', 'n', 'o'] {
        assert_eq!(style.apply_format(code), Some(true));
    }
    assert_eq!(style.apply_format('l'), Some(true));
    assert!(style.obfuscated && style.bold && style.strikethrough && style.underlined && style.italic);
    style.set_color("red".to_string());
    assert_eq!(style, Style { color: Some("red".to_string()), ..Style::default() });
    assert_eq!(style.apply_format('r'), Some(true));
    assert_eq!(style, Style::default());
}

#[test]
fn colors_have_their_names() {
    let names = [
        "black", "dark_blue", "dark_green", "dark_aqua", "dark_red", "dark_purple", "gold", "gray",
        "dark_gray", "blue", "green", "aqua", "red", "light_purple", "yellow", "white",
    ];
    for (code, name) in "0123456789abcdef".chars().zip(names) {
        assert_eq!(color_name(code), Some(name));
    }
    assert_eq!(color_name('g'), None);
    assert_eq!(color_name('A'), None);
}

#[test]
fn text_helpers_agree_with_the_standard_library() {
    for n in 0..=0x10FFFFu32 {
        if let Some(c) = char::from_u32(n) {
            assert_eq!(is_white_space(c), c.is_whitespace());
            assert_eq!(hex_value(c).map(|v| v as u32), c.to_digit(16));
            assert_eq!(ascii_lower(c), c.to_ascii_lowercase());
        }
    }
    let text = "a\u{e9}\u{FFFD}\u{10000}\u{10FFFF}";
    assert_eq!(encode_utf16(text), text.encode_utf16().collect::<Vec<u16>>());
    assert_eq!(chars_of(text), chars(text));
    assert_eq!(string_of(&chars(text)), text);
}

#[test]
fn numbers_are_written_and_read() {
    for n in [0u64, 9, 10, 99, 100, 12345, u64::MAX] {
        let mut out = String::from("n=");
        push_decimal(&mut out, n);
        assert_eq!(out, format!("n={}", n));
        assert_eq!(parse_unsigned(&out[2..], u64::MAX), Some(n));
    }
    for text in ["", "+", "-1", " 1", "1 ", "1_0", "18446744073709551616", "++1", "\u{0661}"] {
        assert_eq!(parse_unsigned(text, u64::MAX), None);
        assert!(text.parse::<u64>().is_err());
    }
    assert_eq!(parse_unsigned("+007", 7), Some(7));
    assert_eq!(parse_unsigned("8", 7), None);
}
