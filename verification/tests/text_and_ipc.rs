use hypr_xp_magnifier::config::{config_path, parse_thickness_override, HeightProblem};
use hypr_xp_magnifier::hyprland::{hyprland_socket_path, parse_cursor_pos};

#[test]
fn cursor_pos_as_hyprland_writes_it() {
    assert_eq!(parse_cursor_pos("1280, 720\n"), Some((1280, 720)));
    assert_eq!(parse_cursor_pos("0,0"), Some((0, 0)));
}

#[test]
fn cursor_pos_negative_and_signed() {
    assert_eq!(parse_cursor_pos("  -5,7"), Some((-5, 7)));
    assert_eq!(parse_cursor_pos("+3,+4"), Some((3, 4)));
    assert_eq!(parse_cursor_pos("-2147483648, 2147483647"), Some((i32::MIN, i32::MAX)));
}

#[test]
fn cursor_pos_white_space_around_numbers() {
    assert_eq!(parse_cursor_pos(" 1 , 2 "), Some((1, 2)));
    assert_eq!(parse_cursor_pos("\u{3000}5,\t6\r\n"), Some((5, 6)));
}

#[test]
fn cursor_pos_rejects_malformed_replies() {
    assert_eq!(parse_cursor_pos(""), None);
    assert_eq!(parse_cursor_pos("12"), None);
    assert_eq!(parse_cursor_pos("a,b"), None);
    assert_eq!(parse_cursor_pos("1,2,3"), None);
    assert_eq!(parse_cursor_pos("1,"), None);
    assert_eq!(parse_cursor_pos(",1"), None);
    assert_eq!(parse_cursor_pos("-,1"), None);
    assert_eq!(parse_cursor_pos("1 2,3"), None);
    assert_eq!(parse_cursor_pos("2147483648,0"), None);
    assert_eq!(parse_cursor_pos("0,-2147483649"), None);
    assert_eq!(parse_cursor_pos("1_000,2"), None);
}

#[test]
fn cursor_pos_matches_std_parsing() {
    let samples = [
        "10,20", " 10 ,20 ", "+-1,2", "-0,0", "007,8", "99999999999,1", "1,99999999999",
        "4294967296,1", "\u{a0}3,4\u{2029}", "3,4\u{200b}", "\u{85}1,1",
    ];
    for s in samples.iter() {
        let mut parts = s.trim().splitn(2, ',');
        let expected = (|| {
            let x: i32 = parts.next()?.trim().parse().ok()?;
            let y: i32 = parts.next()?.trim().parse().ok()?;
            Some((x, y))
        })();
        assert_eq!(parse_cursor_pos(s), expected, "on {:?}", s);
    }
}

#[test]
fn cursor_pos_round_trip_of_written_positions() {
    for &(x, y) in [(0, 0), (-1, 1), (i32::MIN, i32::MAX), (1920, -1080), (7, 70000)].iter() {
        let text = format!("{}, {}\n", x, y);
        assert_eq!(parse_cursor_pos(&text), Some((x, y)));
        let tight = format!("{},{}", x, y);
        assert_eq!(parse_cursor_pos(&tight), Some((x, y)));
    }
}

#[test]
fn socket_path_layout() {
    assert_eq!(
        hyprland_socket_path("/run/user/1000", "abc_123"),
        "/run/user/1000/hypr/abc_123/.socket.sock"
    );
}

#[test]
fn config_path_prefers_xdg_config_home() {
    assert_eq!(
        config_path(Some("/home/u/.cfg"), Some("/home/u")),
        "/home/u/.cfg/hypr-xp-magnifier/settings.json"
    );
    assert_eq!(
        config_path(Some("/cfg/"), None),
        "/cfg/hypr-xp-magnifier/settings.json"
    );
}

#[test]
fn config_path_falls_back_to_home_then_current_dir() {
    assert_eq!(
        config_path(None, Some("/home/u")),
        "/home/u/.config/hypr-xp-magnifier/settings.json"
    );
    assert_eq!(config_path(None, None), "./.config/hypr-xp-magnifier/settings.json");
}

#[test]
fn config_path_joins_like_path_buf() {
    for (xdg, home) in [(Some(""), None), (Some("/x/"), None), (None, Some("/")), (None, Some(""))] {
        let base = match xdg {
            Some(x) => std::path::PathBuf::from(x),
            None => std::path::PathBuf::from(home.unwrap_or(".")).join(".config"),
        };
        let expected = base.join("hypr-xp-magnifier").join("settings.json");
        assert_eq!(config_path(xdg, home), expected.to_str().unwrap());
    }
}

fn args(list: &[&str]) -> Vec<String> {
    list.iter().map(|s| s.to_string()).collect()
}

#[test]
fn height_override_first_positive_value_wins() {
    let r = parse_thickness_override(&args(&["prog", "--height", "120", "--height", "300"]));
    assert_eq!(r.thickness, Some(120));
    assert!(r.problems.is_empty());
}

#[test]
fn height_override_reports_bad_values_then_continues() {
    let r = parse_thickness_override(&args(&["prog", "--height", "0", "--height", "x", "--height", "+40"]));
    assert_eq!(r.thickness, Some(40));
    assert_eq!(r.problems.len(), 2);
    match &r.problems[0] {
        HeightProblem::Unparsable(v) => assert_eq!(v, "0"),
        other => panic!("unexpected {:?}", other),
    }
    match &r.problems[1] {
        HeightProblem::Unparsable(v) => assert_eq!(v, "x"),
        other => panic!("unexpected {:?}", other),
    }
}

#[test]
fn height_override_missing_value_and_absent_flag() {
    let r = parse_thickness_override(&args(&["prog", "--height"]));
    assert_eq!(r.thickness, None);
    assert_eq!(r.problems.len(), 1);
    assert!(matches!(r.problems[0], HeightProblem::MissingValue));
    let r = parse_thickness_override(&args(&["prog", "--width", "5"]));
    assert_eq!(r.thickness, None);
    assert!(r.problems.is_empty());
    let r = parse_thickness_override(&args(&["prog", "--height", "4294967296", "--height", "-3"]));
    assert_eq!(r.thickness, None);
    assert_eq!(r.problems.len(), 2);
}

use hypr_xp_magnifier::text::{chars_of, is_white_space_char, parse_i32_range, parse_u32_range, trim_bounds};

#[test]
fn white_space_matches_char_is_whitespace() {
    for u in 0u32..0x3100 {
        if let Some(c) = char::from_u32(u) {
            assert_eq!(is_white_space_char(c), c.is_whitespace(), "at U+{:04X}", u);
        }
    }
}

#[test]
fn trim_bounds_match_str_trim() {
    for s in ["  a b \n", "", "   ", "x", "\u{2003}y\u{3000}"].iter() {
        let v = chars_of(s);
        let (a, b) = trim_bounds(&v, 0, v.len());
        let trimmed: String = v[a..b].iter().collect();
        assert_eq!(trimmed, s.trim());
    }
}

#[test]
fn integer_parsing_matches_str_parse() {
    let samples = [
        "0", "-0", "+0", "+", "-", "", "12", "-12", "+12", "2147483647", "2147483648", "-2147483648",
        "-2147483649", "4294967295", "4294967296", "0007", "1a", " 1", "1 ", "--1", "+-1", "١",
        "99999999999999999999",
    ];
    for s in samples.iter() {
        let v = chars_of(s);
        assert_eq!(parse_i32_range(&v, 0, v.len()), s.parse::<i32>().ok(), "i32 on {:?}", s);
        assert_eq!(parse_u32_range(&v, 0, v.len()), s.parse::<u32>().ok(), "u32 on {:?}", s);
    }
}

#[test]
fn integer_parsing_of_a_sub_range() {
    let v = chars_of("x-42y");
    assert_eq!(parse_i32_range(&v, 1, 4), Some(-42));
    assert_eq!(parse_u32_range(&v, 2, 4), Some(42));
    assert_eq!(parse_u32_range(&v, 1, 4), None);
}

#[test]
fn chars_of_keeps_every_char() {
    assert_eq!(chars_of("aé😀"), vec!['a', 'é', '😀']);
}
