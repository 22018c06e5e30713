use buttplug_lite::integer::decimal_text;
use buttplug_lite::named_map::NamedMap;
use buttplug_lite::motor::{Motor, MotorType};
use buttplug_lite::number::{Number, INFINITY, ONE, SIGN};
use buttplug_lite::settings::{MotorSettings, Setting};
use buttplug_lite::text::{chars_of, is_before, same_text, split_terminated, split_text};

fn number(value: f64) -> Number {
    Number { bits: value.to_bits() }
}

fn samples() -> Vec<f64> {
    vec![
        0.0,
        -0.0,
        1.0,
        -1.0,
        0.5,
        -0.5,
        5e-324,
        -5e-324,
        1e300,
        -1e300,
        f64::INFINITY,
        f64::NEG_INFINITY,
        f64::NAN,
        -f64::NAN,
    ]
}

#[test]
fn constants_are_the_bits_of_doubles() {
    assert_eq!(ONE, 1.0f64.to_bits());
    assert_eq!(INFINITY, f64::INFINITY.to_bits());
    assert_eq!(SIGN, (-0.0f64).to_bits());
    assert_eq!(Number::zero(), number(0.0));
    assert_eq!(Number::one(), number(1.0));
}

#[test]
fn bits_are_compared_like_doubles() {
    for a in samples() {
        assert_eq!(number(a).is_nan(), a.is_nan());
        assert_eq!(number(a).negated().bits, (-a).to_bits());
        assert_eq!(number(a).negated().negated(), number(a));
        for b in samples() {
            assert_eq!(number(a).is_below(number(b)), a < b);
        }
    }
}

#[test]
fn bits_are_clamped_like_doubles() {
    for a in samples() {
        let unit = number(a).clamp_between(number(0.0), number(1.0));
        assert_eq!(unit.bits, a.clamp(0.0, 1.0).to_bits());
        let signed = number(a).clamp_between(number(-1.0), number(1.0));
        assert_eq!(signed.bits, a.clamp(-1.0, 1.0).to_bits());
    }
}

#[test]
fn text_is_split_like_str() {
    for text in ["", ";", "a", "a;", ";a", "a;b", "a;b;", ";;", "a;;b", "\u{e9};\u{1f600}x;"] {
        assert_eq!(split_text(text, ';'), text.split(';').collect::<Vec<&str>>());
        assert_eq!(split_terminated(text, ';'), text.split_terminator(';').collect::<Vec<&str>>());
        assert_eq!(split_text(text, ';').join(";"), text);
    }
}

#[test]
fn text_is_ordered_like_str() {
    let texts = ["", "a", "ab", "b", "B", "\u{e9}", "\u{ffff}", "\u{1f600}", "a b"];
    for a in texts {
        assert_eq!(chars_of(a), a.chars().collect::<Vec<char>>());
        for b in texts {
            assert_eq!(is_before(a, b), a < b);
            assert_eq!(same_text(a, b), a == b);
        }
    }
}

#[test]
fn levels_are_written_in_decimal() {
    for value in 0..=255u8 {
        assert_eq!(decimal_text(value), value.to_string());
    }
}

#[test]
fn a_map_keeps_one_value_per_name() {
    let motor = |index: u32| Motor {
        device_name: "Toy".to_string(),
        feature_index: index,
        feature_type: MotorType::Linear,
    };
    let mut map: NamedMap<Motor> = NamedMap::new();
    assert_eq!(map.len(), 0);
    map.insert("a".to_string(), motor(1));
    map.insert("b".to_string(), motor(2));
    map.insert("a".to_string(), motor(3));
    assert_eq!(map.len(), 2);
    assert_eq!(map.entry(0).0, "a");
    assert_eq!(map.entry(0).1.feature_index, 3);
    assert_eq!(map.entry(1).0, "b");
    assert_eq!(map.get("b").unwrap().feature_index, 2);
    assert!(map.get("c").is_none());
    assert!(map.remove("c").is_none());
    assert_eq!(map.remove("a").unwrap().feature_index, 3);
    assert!(map.get("a").is_none());
    assert_eq!(map.len(), 1);
    assert_eq!(map.entry(0).0, "b");
}

#[test]
fn settings_replace_what_was_asked_before() {
    let mut settings = MotorSettings::default();
    assert!(settings.speed_map.is_empty());
    settings.apply(1, Setting::Speed(number(0.5)));
    settings.apply(1, Setting::Rotation(number(0.25), true));
    settings.apply(1, Setting::Speed(number(0.75)));
    settings.apply(2, Setting::Position(40, number(1.0)));
    settings.apply(2, Setting::Contraction(1));
    settings.apply(5, Setting::Contraction(3));
    assert_eq!(settings.speed_map.len(), 1);
    assert_eq!(settings.speed_map[&1], number(0.75));
    assert_eq!(settings.rotate_map[&1], (number(0.25), true));
    assert_eq!(settings.linear_map[&2], (40, number(1.0)));
    assert_eq!(settings.contraction_hack, Some(3));
}
