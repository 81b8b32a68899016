use zero2prod::domain::SubscriberName;

#[test]
fn a_256_graphene_long_name_is_valid() {
    let name = "ё".repeat(256);
    assert!(SubscriberName::parse(name).is_ok());
}

#[test]
fn a_name_longer_than_256_graphemes_is_rejected() {
    let name = "a".repeat(257);
    assert!(SubscriberName::parse(name).is_err());
}

#[test]
fn whitespace_only_names_are_rejected() {
    let name = "     ".to_string();
    assert!(SubscriberName::parse(name).is_err());
}

#[test]
fn empty_strings_is_rejected() {
    let name = "".to_string();
    assert!(SubscriberName::parse(name).is_err());
}

#[test]
fn names_containing_forbidden_characters_are_rejected() {
    for name in &["a/b", "a(b)", "a\"b", "a<b>", "a\\b", "a{b}"] {
        assert!(SubscriberName::parse(name.to_string()).is_err());
    }
}

#[test]
fn a_valid_name_is_parsed_successfully() {
    let name = "A test name".to_string();
    assert!(SubscriberName::parse(name).is_ok());
}

#[test]
fn a_rejected_name_is_reported_in_words() {
    let error = SubscriberName::parse("a/b".to_string()).unwrap_err();
    assert_eq!(error, "Invalid subscriber name");
}

#[test]
fn each_forbidden_character_is_rejected_alone() {
    for c in ['/', '(', ')', '"', '<', '>', '\\', '{', '}'] {
        assert!(zero2prod::domain::subscriber_name::forbidden_character(c));
        assert!(SubscriberName::parse(format!("name{}", c)).is_err());
    }
    for c in ['a', '-', '\'', '[', ']', '|', '.', ' '] {
        assert!(!zero2prod::domain::subscriber_name::forbidden_character(c));
        assert!(SubscriberName::parse(format!("name{}", c)).is_ok());
    }
}

#[test]
fn length_is_counted_in_grapheme_clusters_not_characters() {
    // Two characters that make one cluster: 512 characters, 256 clusters.
    let name = "a\u{310}".repeat(256);
    assert_eq!(name.chars().count(), 512);
    assert!(SubscriberName::parse(name).is_ok());
    let name = "a\u{310}".repeat(257);
    assert!(SubscriberName::parse(name).is_err());
}

#[test]
fn the_count_of_clusters_decides_at_the_bound() {
    assert!(SubscriberName::accepts("Ursula", 256));
    assert!(!SubscriberName::accepts("Ursula", 257));
    assert!(SubscriberName::accepts("Ursula", 0));
    assert!(!SubscriberName::accepts("  ", 2));
    assert!(!SubscriberName::accepts("Ursula {", 8));
}

#[test]
fn blank_follows_the_white_space_property_for_every_character() {
    let white_space = |c: char| {
        let u = c as u32;
        (0x09..=0x0D).contains(&u)
            || u == 0x20
            || u == 0x85
            || u == 0xA0
            || u == 0x1680
            || (0x2000..=0x200A).contains(&u)
            || u == 0x2028
            || u == 0x2029
            || u == 0x202F
            || u == 0x205F
            || u == 0x3000
    };
    let mut buffer = [0u8; 4];
    for u in 0u32..=0x10FFFF {
        if let Some(c) = char::from_u32(u) {
            let text: &str = c.encode_utf8(&mut buffer);
            assert_eq!(
                zero2prod::domain::subscriber_name::blank(text),
                white_space(c),
                "U+{:04X}",
                u
            );
            assert_eq!(
                zero2prod::domain::subscriber_name::white_space(c),
                c.is_whitespace(),
                "U+{:04X}",
                u
            );
            assert_eq!(text.trim().is_empty(), white_space(c), "U+{:04X}", u);
        }
    }
}

#[test]
fn white_space_around_a_name_is_kept() {
    let name = SubscriberName::parse("  Ursula Le Guin ".to_string()).unwrap();
    assert_eq!(name.as_ref(), "  Ursula Le Guin ");
    assert_eq!(name.inner_ref(), "  Ursula Le Guin ");
    assert_eq!(name.inner(), "  Ursula Le Guin ".to_string());
}

#[test]
fn the_inner_string_can_be_written_through() {
    let mut name = SubscriberName::parse("Ursula".to_string()).unwrap();
    name.inner_mut().push_str(" Le Guin");
    assert_eq!(name.inner_ref(), "Ursula Le Guin");
}
