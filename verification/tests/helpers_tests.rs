use socless::split_with_delimiter;

#[test]
fn test_split_with_delimiter() {
    let result = split_with_delimiter("something.something!json", "!");
    assert_eq!(
        result,
        Some((
            "something.something".to_string(),
            "!".to_string(),
            "json".to_string()
        ))
    );
}

#[test]
fn test_split_with_delimiter_not_found() {
    let result = split_with_delimiter("something.somethingjson", "!");
    assert_eq!(result, None);
}

#[test]
fn test_split_with_delimiter_appear_twice() {
    let result = split_with_delimiter("something.something!!json", "!");
    assert_eq!(
        result,
        Some((
            "something.something".to_string(),
            "!".to_string(),
            "!json".to_string()
        ))
    );
}

#[test]
fn test_split_with_delimiter_appear_at_end() {
    let result = split_with_delimiter("something.somethingjson!", "!");
    assert_eq!(
        result,
        Some((
            "something.somethingjson".to_string(),
            "!".to_string(),
            "".to_string()
        ))
    );
}

#[test]
fn test_split_with_delimiter_appear_at_beginning() {
    let result = split_with_delimiter("!something.somethingjson", "!");
    assert_eq!(
        result,
        Some((
            "".to_string(),
            "!".to_string(),
            "something.somethingjson".to_string()
        ))
    );
}
