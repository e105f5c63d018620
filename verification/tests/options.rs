use mess::options::parse_options;

fn pairs(options: &[(&str, &str)]) -> Vec<(String, String)> {
    options.iter().map(|(key, value)| (key.to_string(), value.to_string())).collect()
}

#[test]
fn blank_text_gives_no_options() {
    assert!(parse_options("").is_empty());
    assert!(parse_options("  \t ").is_empty());
}

#[test]
fn pairs_are_separated_by_commas() {
    assert_eq!(parse_options("a=1,b=2"), pairs(&[("a", "1"), ("b", "2")]));
    assert_eq!(parse_options("a=1,flag,c=3"), pairs(&[("a", "1"), ("flag", ""), ("c", "3")]));
    assert_eq!(parse_options("a=1"), pairs(&[("a", "1")]));
    assert_eq!(parse_options("flag"), pairs(&[("flag", "")]));
}

#[test]
fn a_later_pair_replaces_an_earlier_one() {
    assert_eq!(parse_options("a=1,b=2,a=3"), pairs(&[("a", "3"), ("b", "2")]));
}

#[test]
fn only_the_text_up_to_the_second_equals_sign_is_the_value() {
    assert_eq!(parse_options("a=1=2"), pairs(&[("a", "1")]));
    assert_eq!(parse_options("a="), pairs(&[("a", "")]));
    assert_eq!(parse_options("=x"), pairs(&[("", "x")]));
    assert_eq!(parse_options("a,,b"), pairs(&[("a", ""), ("", ""), ("b", "")]));
    assert_eq!(parse_options(" a = 1 "), pairs(&[(" a ", " 1 ")]));
}
