use ytkew::palette::Rgb;
use ytkew::theme::{cover, find, from_hex, names, parse_hex, themes};

fn lum(c: Rgb) -> f32 {
    0.2126 * c.0 as f32 + 0.7152 * c.1 as f32 + 0.0722 * c.2 as f32
}

#[test]
fn every_theme_reads_dark_to_bright() {
    for t in themes() {
        let p = t.palette();
        assert!(lum(p.dark) < lum(p.bright), "{}: dark {:?} is not darker than bright {:?}", t.name, p.dark, p.bright);
    }
}

#[test]
fn names_are_unique_and_lowercase() {
    let mut seen = Vec::new();
    for n in names() {
        assert_eq!(n, n.to_ascii_lowercase(), "{n} should be lowercase");
        assert!(!seen.contains(&n), "duplicate theme {n}");
        seen.push(n);
    }
}

#[test]
fn lookup_is_case_insensitive_and_cover_is_not_a_fixed_theme() {
    assert!(find("Gruvbox").is_some());
    assert!(find("  NORD ").is_some());
    assert!(find("cover").is_none(), "cover means the album palette");
    assert!(find("nonsense").is_none());
}

#[test]
fn cover_leads_the_list_so_it_is_the_first_choice() {
    let all = names();
    assert_eq!(all[0], cover());
    assert_eq!(all.len(), themes().len() + 1);
}

#[test]
fn hex_parsing_accepts_both_forms_and_rejects_junk() {
    assert_eq!(parse_hex("#ff8800"), Some(Rgb(0xff, 0x88, 0x00)));
    assert_eq!(parse_hex("ff8800"), Some(Rgb(0xff, 0x88, 0x00)));
    assert_eq!(parse_hex(" #FF8800 "), Some(Rgb(0xff, 0x88, 0x00)));
    assert_eq!(parse_hex("#fff"), None, "short form is not supported");
    assert_eq!(parse_hex("#gggggg"), None);
    assert_eq!(parse_hex(""), None);
    assert_eq!(parse_hex("##ff8800"), None, "one hash at most");
}

#[test]
fn a_custom_palette_needs_exactly_three_colours() {
    let three: Vec<String> = ["#101010", "#808080", "#f0f0f0"].iter().map(|s| s.to_string()).collect();
    assert!(from_hex(&three).is_some());
    assert!(from_hex(&three[..2]).is_none());
    let bad: Vec<String> = ["#101010", "nope", "#f0f0f0"].iter().map(|s| s.to_string()).collect();
    assert!(from_hex(&bad).is_none());
}
