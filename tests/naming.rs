use fmod_audio::derive_short_name;

#[test]
fn short_name_drops_sub_label() {
    assert_eq!(derive_short_name("event:/ui/click:button"), "click");
}

#[test]
fn short_name_of_plain_path() {
    assert_eq!(derive_short_name("event:/weapons/explosion"), "explosion");
}

#[test]
fn short_name_without_slash_or_label() {
    assert_eq!(derive_short_name("beep"), "beep");
}

#[test]
fn short_name_cuts_at_first_colon() {
    assert_eq!(derive_short_name("event:/a/b:c:d"), "b");
}

#[test]
fn short_name_of_trailing_slash_is_empty() {
    assert_eq!(derive_short_name("event:/ui/"), "");
}

#[test]
fn short_name_of_empty_path() {
    assert_eq!(derive_short_name(""), "");
}
