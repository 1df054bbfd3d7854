use sandbox_profile::minify::is_whitespace;
use sandbox_profile::minify_profile;

fn by_std(profile: &str) -> String {
    let mut kept: Vec<&str> = Vec::new();
    for line in profile.lines() {
        let line = match line.find(';') {
            Some(index) => &line[..index],
            None => line,
        };
        let line = line.trim();
        if !line.is_empty() {
            kept.push(line);
        }
    }
    kept.join(" ")
}

#[test]
fn minify_joins_what_is_left_of_the_lines() {
    let minified = minify_profile(
        "; c\n(version 1)\n\n(deny default)\n; c2\n(allow file-read*)\n",
    );
    assert_eq!(minified, "(version 1) (deny default) (allow file-read*)");
}

#[test]
fn minify_of_nothing_is_nothing() {
    assert_eq!(minify_profile(""), "");
    assert_eq!(minify_profile("\n"), "");
    assert_eq!(minify_profile("\n\n  \n\t\n"), "");
    assert_eq!(minify_profile("; only a comment"), "");
    assert_eq!(minify_profile(";"), "");
    assert_eq!(minify_profile("   "), "");
}

#[test]
fn minify_cuts_a_comment_behind_a_rule() {
    assert_eq!(minify_profile("(version 1) ; the version\n(deny default);x\n"), "(version 1) (deny default)");
    assert_eq!(minify_profile("a;b;c"), "a");
}

#[test]
fn minify_keeps_inner_white_space() {
    assert_eq!(minify_profile("  (allow   file-read*)  \n\t(deny\tdefault)\t"), "(allow   file-read*) (deny\tdefault)");
}

#[test]
fn minify_without_final_line_feed() {
    assert_eq!(minify_profile("a\nb"), "a b");
    assert_eq!(minify_profile("a\nb\n"), "a b");
    assert_eq!(minify_profile("a"), "a");
    assert_eq!(minify_profile("\na"), "a");
}

#[test]
fn minify_takes_carriage_returns_as_white_space() {
    assert_eq!(minify_profile("a\r\nb\r\n"), "a b");
    assert_eq!(minify_profile("a\r"), "a");
    assert_eq!(minify_profile("a\rb\n"), "a\rb");
    assert_eq!(minify_profile("\r\n\r\n"), "");
}

#[test]
fn minify_trims_unicode_white_space() {
    assert_eq!(minify_profile("\u{a0}\u{3000}a b\u{2003}\u{85}\n\u{2028}c\u{205f}"), "a b c");
    assert_eq!(minify_profile("\u{200b}a\u{200b}"), "\u{200b}a\u{200b}");
    assert_eq!(minify_profile(" \u{e9}t\u{e9} \n \u{1f600} "), "\u{e9}t\u{e9} \u{1f600}");
}

#[test]
fn minify_cuts_at_a_semicolon_inside_quotes() {
    let minified = minify_profile("(deny file-read* (subpath \"/tmp/a;b\"))\n(allow network*)\n");
    assert_eq!(minified, "(deny file-read* (subpath \"/tmp/a (allow network*)");
}

#[test]
fn minify_gives_one_line() {
    let profiles = [
        "",
        "\n",
        "a\nb\nc",
        "; c\n(version 1)\n\n(deny default)\n; c2\n(allow file-read*)\n",
        "a\r\nb\rc\n\n\n;\n d ; e \n",
        "\u{2028}x\u{2029}\ny",
    ];
    for profile in profiles {
        let minified = minify_profile(profile);
        assert!(!minified.contains('\n'));
    }
}

#[test]
fn minify_twice_is_minify_once() {
    let profiles = [
        "",
        "\n;\n",
        " a \n b ; c \n\n d",
        "; c\n(version 1)\n\n(deny default)\n; c2\n(allow file-read*)\n",
        "a\r\nb\rc\n\n\n;\n d ; e \n",
        "(allow process-exec\n    (literal \"python\")\n)\n",
        "\u{a0}x\u{a0}y\u{a0}\n\u{3000}z",
    ];
    for profile in profiles {
        let once = minify_profile(profile);
        let twice = minify_profile(&once);
        assert_eq!(twice, once);
    }
}

#[test]
fn minify_agrees_with_std_on_lines_and_trimming() {
    let pieces = ["a", " ", ";", "\n", "\r", "\r\n", "\t", "(x y)", "\u{a0}", "\u{e9}", "\u{2028}", "b;c", "\u{b}"];
    let mut seed: u32 = 12345;
    for _ in 0..4000 {
        let mut profile = String::new();
        seed = seed.wrapping_mul(1664525).wrapping_add(1013904223);
        let count = (seed >> 24) % 12;
        for _ in 0..count {
            seed = seed.wrapping_mul(1664525).wrapping_add(1013904223);
            profile.push_str(pieces[((seed >> 16) as usize) % pieces.len()]);
        }
        assert_eq!(minify_profile(&profile), by_std(&profile), "profile {:?}", profile);
    }
}

#[test]
fn white_space_is_what_std_takes_for_it() {
    for n in 0..=0x10FFFFu32 {
        if let Some(c) = char::from_u32(n) {
            assert_eq!(is_whitespace(c), c.is_whitespace(), "U+{:04X}", n);
        }
    }
}
