use lookpoint::device_name::{DeviceName, MAX_LOCAL_NAME_LENGTH};

#[test]
fn short_name_is_kept() {
    let name = DeviceName::new("Lookpoint Tracker");
    assert_eq!(name.len(), 17);
    assert_eq!(name.as_str(), "Lookpoint Tracker");
    assert_eq!(name.as_ptr(), "Lookpoint Tracker".as_bytes());
}

#[test]
fn name_at_limit_is_kept() {
    let name = DeviceName::new("0123456789abcdefghi");
    assert_eq!(name.len(), MAX_LOCAL_NAME_LENGTH);
    assert_eq!(name.as_str(), "0123456789abcdefghi");
}

#[test]
fn empty_name_is_kept() {
    let name = DeviceName::new("");
    assert_eq!(name.len(), 0);
    assert_eq!(name.as_str(), "");
}

#[test]
fn long_ascii_name_is_cut_at_limit() {
    let name = DeviceName::new("Lookpoint Tracker 1234");
    assert_eq!(name.len(), 19);
    assert_eq!(name.as_str(), "Lookpoint Tracker 1");
}

#[test]
fn long_name_is_not_cut_inside_a_code_point() {
    // 18 ASCII bytes, then a two-byte 'é' that would end at byte 20.
    let name = DeviceName::new("abcdefghijklmnopqré");
    assert_eq!(name.len(), 18);
    assert_eq!(name.as_str(), "abcdefghijklmnopqr");
}

#[test]
fn four_byte_code_points_are_kept_whole() {
    let name = DeviceName::new("😀😀😀😀😀");
    assert_eq!(name.len(), 16);
    assert_eq!(name.as_str(), "😀😀😀😀");
}

#[test]
fn truncated_name_is_a_prefix_within_limit() {
    let inputs = ["Lookpoint Tracker with a long name", "ééééééééééééé", "a😀b😀c😀d😀e😀"];
    for input in inputs {
        let name = DeviceName::new(input);
        assert!(name.len() <= MAX_LOCAL_NAME_LENGTH);
        assert!(name.len() >= MAX_LOCAL_NAME_LENGTH - 3);
        assert!(input.starts_with(name.as_str()));
        assert!(input.is_char_boundary(name.len()));
        assert!(!input.is_char_boundary(name.len() + 1) || name.len() == MAX_LOCAL_NAME_LENGTH);
    }
}

#[test]
fn from_str_truncates_like_new() {
    let name: DeviceName = "Lookpoint Tracker 1234".into();
    assert_eq!(name.as_str(), "Lookpoint Tracker 1");
}
