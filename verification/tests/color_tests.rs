use ffsynth::{expand_to_len, fill_gradient, midpoint, ColorError, MyColor};

fn rgba(r: u8, g: u8, b: u8, a: u8) -> MyColor {
    MyColor::new(r, g, b, a)
}

const RED: MyColor = MyColor { r: 255, g: 0, b: 0, a: 255 };
const BLUE: MyColor = MyColor { r: 0, g: 0, b: 255, a: 255 };

#[test]
fn new_keeps_channels() {
    let c = MyColor::new(1, 2, 3, 4);
    assert_eq!((c.r, c.g, c.b, c.a), (1, 2, 3, 4));
}

#[test]
fn default_is_translucent_white() {
    assert_eq!(MyColor::default(), rgba(255, 255, 255, 230));
}

#[test]
fn invert_complements_rgb_and_keeps_alpha() {
    let mut c = rgba(0, 100, 255, 7);
    c.invert();
    assert_eq!(c, rgba(255, 155, 0, 7));
}

#[test]
fn invert_twice_gives_the_color_back() {
    let original = rgba(12, 200, 77, 99);
    let mut c = original;
    c.invert();
    c.invert();
    assert_eq!(c, original);
}

#[test]
fn midpoint_rounds_down() {
    assert_eq!(midpoint(rgba(10, 20, 30, 40), rgba(21, 30, 41, 50)), rgba(15, 25, 35, 45));
    assert_eq!(midpoint(RED, BLUE), rgba(127, 0, 127, 255));
    assert_eq!(midpoint(rgba(255, 255, 255, 255), rgba(255, 255, 255, 255)), rgba(255, 255, 255, 255));
}

#[test]
fn midpoint_of_a_color_with_itself() {
    let c = rgba(3, 141, 59, 26);
    assert_eq!(midpoint(c, c), c);
}

#[test]
fn midpoint_is_symmetric() {
    let (a, b) = (rgba(1, 250, 33, 0), rgba(200, 3, 34, 255));
    assert_eq!(midpoint(a, b), midpoint(b, a));
}

#[test]
fn expand_puts_the_midpoint_between_two_colors() {
    assert_eq!(expand_to_len(vec![RED, BLUE], 3), vec![RED, rgba(127, 0, 127, 255), BLUE]);
}

#[test]
fn expand_refines_twice_for_five() {
    assert_eq!(
        expand_to_len(vec![RED, BLUE], 5),
        vec![RED, rgba(191, 0, 63, 255), rgba(127, 0, 127, 255), rgba(63, 0, 191, 255), BLUE]
    );
}

#[test]
fn expand_ends_on_the_last_color() {
    assert_eq!(
        expand_to_len(vec![RED, BLUE], 4),
        vec![RED, rgba(191, 0, 63, 255), rgba(127, 0, 127, 255), BLUE]
    );
}

#[test]
fn expand_keeps_every_color_in_order() {
    let colors = vec![rgba(128, 0, 128, 255), rgba(0, 255, 255, 255), rgba(255, 255, 0, 255), RED];
    for n in colors.len()..60 {
        let out = expand_to_len(colors.clone(), n);
        assert_eq!(out.len(), n);
        assert_eq!(out[0], colors[0]);
        assert_eq!(out[n - 1], colors[colors.len() - 1]);
        let mut next = 0;
        for c in &out {
            if next < colors.len() && *c == colors[next] {
                next += 1;
            }
        }
        assert_eq!(next, colors.len(), "colors lost for {} bars", n);
    }
}

#[test]
fn purple_to_cyan_to_yellow_over_fifteen_bars() {
    let purple = rgba(128, 0, 128, 255);
    let cyan = rgba(0, 255, 255, 255);
    let yellow = rgba(255, 255, 0, 255);
    let out = fill_gradient(vec![purple, cyan, yellow], 15);
    assert_eq!(out.len(), 15);
    assert_eq!(out[0], purple);
    assert!(out.contains(&cyan));
    assert_eq!(out[14], yellow);
}

#[test]
fn expand_truncates_long_lists() {
    let colors = vec![RED, BLUE, rgba(1, 2, 3, 4), rgba(5, 6, 7, 8)];
    assert_eq!(expand_to_len(colors.clone(), 2), vec![RED, BLUE]);
    assert_eq!(expand_to_len(colors.clone(), 4), colors);
    assert_eq!(expand_to_len(colors, 0), vec![]);
}

#[test]
fn expand_gives_the_length_asked_for() {
    for n in 0..40 {
        let out = expand_to_len(vec![RED, rgba(0, 255, 0, 255), BLUE], n);
        assert_eq!(out.len(), n);
        if n > 0 {
            assert_eq!(out[0], RED);
        }
    }
}

#[test]
fn expand_stays_within_the_given_channels() {
    let colors = vec![rgba(10, 200, 50, 100), rgba(90, 120, 60, 110), rgba(40, 180, 55, 105)];
    for c in expand_to_len(colors, 33) {
        assert!((10..=90).contains(&c.r));
        assert!((120..=200).contains(&c.g));
        assert!((50..=60).contains(&c.b));
        assert!((100..=110).contains(&c.a));
    }
}

#[test]
fn expand_twice_changes_nothing() {
    let once = expand_to_len(vec![RED, BLUE, rgba(9, 9, 9, 9)], 11);
    assert_eq!(expand_to_len(once.clone(), 11), once);
}

#[test]
fn single_color_bar_count_keeps_one() {
    assert_eq!(expand_to_len(vec![RED], 1), vec![RED]);
    assert_eq!(expand_to_len(vec![], 0), vec![]);
}

#[test]
fn no_colors_give_a_red_to_blue_gradient() {
    assert_eq!(fill_gradient(vec![], 2), vec![RED, BLUE]);
    assert_eq!(fill_gradient(vec![], 3), vec![RED, rgba(127, 0, 127, 255), BLUE]);
    assert_eq!(fill_gradient(vec![], 5).len(), 5);
}

#[test]
fn one_color_ends_transparent_on_any_bar_count() {
    let c = rgba(255, 100, 50, 255);
    for n in 2..20 {
        let out = fill_gradient(vec![c], n);
        assert_eq!(out[0], c);
        assert_eq!(out[n - 1], rgba(255, 0, 0, 0));
    }
}

#[test]
fn from_reads_a_valid_color() {
    assert_eq!(MyColor::from("255,0,0"), RED);
    assert_eq!(MyColor::from("0,255,0,128"), rgba(0, 255, 0, 128));
}

#[test]
fn one_color_fades_to_transparent() {
    let c = rgba(255, 100, 50, 255);
    let out = fill_gradient(vec![c], 3);
    assert_eq!(out, vec![c, rgba(255, 50, 25, 127), rgba(255, 0, 0, 0)]);
    assert_eq!(out[2].a, 0);
}

#[test]
fn several_colors_are_kept_in_order() {
    let colors = vec![rgba(128, 0, 128, 255), rgba(0, 255, 255, 255), rgba(255, 255, 0, 255)];
    let out = fill_gradient(colors.clone(), 5);
    assert_eq!(out[0], colors[0]);
    assert_eq!(out[2], colors[1]);
    assert_eq!(out[4], colors[2]);
    assert_eq!(out.len(), 5);
}

#[test]
fn parse_rgb_defaults_alpha() {
    assert_eq!(MyColor::parse("255,0,0"), Ok(RED));
    assert_eq!(MyColor::parse("0,0,255"), Ok(BLUE));
    assert_eq!(MyColor::parse("255,100,50"), Ok(rgba(255, 100, 50, 255)));
}

#[test]
fn parse_rgba() {
    assert_eq!(MyColor::parse("0,255,0,128"), Ok(rgba(0, 255, 0, 128)));
    assert_eq!(MyColor::parse("0,0,255,255"), Ok(BLUE));
}

#[test]
fn parse_trims_channels_and_closing_parens() {
    assert_eq!(MyColor::parse(" 1 , 2 ,3 )"), Ok(rgba(1, 2, 3, 255)));
    assert_eq!(MyColor::parse("\t5,6,7\n"), Ok(rgba(5, 6, 7, 255)));
    assert_eq!(MyColor::parse("1,2,3))"), Ok(rgba(1, 2, 3, 255)));
    assert_eq!(MyColor::parse("\u{3000}9,9,9\u{a0}"), Ok(rgba(9, 9, 9, 255)));
}

#[test]
fn parse_accepts_plus_sign_and_leading_zeros() {
    assert_eq!(MyColor::parse("+7,08,009"), Ok(rgba(7, 8, 9, 255)));
    assert_eq!(MyColor::parse("0255,0,0,000"), Ok(rgba(255, 0, 0, 0)));
}

#[test]
fn parse_refuses_bad_channels() {
    assert_eq!(MyColor::parse("256,0,0"), Err(ColorError::InvalidChannel));
    assert_eq!(MyColor::parse("a,b,c"), Err(ColorError::InvalidChannel));
    assert_eq!(MyColor::parse(""), Err(ColorError::InvalidChannel));
    assert_eq!(MyColor::parse("1,,3"), Err(ColorError::InvalidChannel));
    assert_eq!(MyColor::parse("-1,2,3"), Err(ColorError::InvalidChannel));
    assert_eq!(MyColor::parse("(1,2,3)"), Err(ColorError::InvalidChannel));
    assert_eq!(MyColor::parse("+,2,3"), Err(ColorError::InvalidChannel));
    assert_eq!(MyColor::parse("1 2,3,4"), Err(ColorError::InvalidChannel));
    assert_eq!(MyColor::parse("99999999999999999999999,1,2"), Err(ColorError::InvalidChannel));
}

#[test]
fn parse_refuses_wrong_channel_counts() {
    assert_eq!(MyColor::parse("1,2"), Err(ColorError::WrongChannelCount));
    assert_eq!(MyColor::parse("1,2,3,4,5"), Err(ColorError::WrongChannelCount));
    assert_eq!(MyColor::parse("7"), Err(ColorError::WrongChannelCount));
}

#[test]
fn parse_reads_every_channel_text_back() {
    for v in [0u8, 1, 9, 10, 99, 100, 199, 254, 255] {
        let text = format!("{},{},{}", v, 255 - v, v / 2);
        assert_eq!(MyColor::parse(text.as_str()), Ok(rgba(v, 255 - v, v / 2, 255)));
        let text = format!("{},{},{},{}", v, 255 - v, v / 2, v / 3);
        assert_eq!(MyColor::parse(text.as_str()), Ok(rgba(v, 255 - v, v / 2, v / 3)));
    }
}
