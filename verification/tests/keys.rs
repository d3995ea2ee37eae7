use azure_environment::AzureEnvironment;

#[test]
fn test_key_replace_last() {
    let input = "EXTERNAL_APIS.AUTH.SCOPES.0";
    let expected = "EXTERNAL_APIS.AUTH.SCOPES[0]";

    let actual = AzureEnvironment::create_array_key(input);
    assert_eq!(expected, actual);
}

#[test]
fn test_key_replace_in_between() {
    let input = "EXTERNAL_APIS.AUTH.CLIENT.1.SECRET";
    let expected = "EXTERNAL_APIS.AUTH.CLIENT[1].SECRET";

    let actual = AzureEnvironment::create_array_key(input);
    assert_eq!(expected, actual);
}

#[test]
fn test_key_replace_multiple() {
    let input = "EXTERNAL_APIS.AUTH.CLIENT.10.SCOPES.999";
    let expected = "EXTERNAL_APIS.AUTH.CLIENT[10].SCOPES[999]";

    let actual = AzureEnvironment::create_array_key(input);
    assert_eq!(expected, actual);
}

#[test]
fn test_key_replace_digit_prefixed() {
    let input = "WEIRD_KEY.0A";
    let expected = "WEIRD_KEY.0A";

    let actual = AzureEnvironment::create_array_key(input);
    assert_eq!(expected, actual);
}

#[test]
fn identity_without_digit_segments() {
    let input = "EXTERNAL_APIS.AUTH.SCOPES";
    assert_eq!(input, AzureEnvironment::create_array_key(input));
}

#[test]
fn identity_empty_key() {
    assert_eq!("", AzureEnvironment::create_array_key(""));
}

#[test]
fn identity_digits_at_start() {
    assert_eq!("0.APIS", AzureEnvironment::create_array_key("0.APIS"));
    assert_eq!("7", AzureEnvironment::create_array_key("7"));
}

#[test]
fn bracket_single_last_segment() {
    assert_eq!("A[0]", AzureEnvironment::create_array_key("A.0"));
}

#[test]
fn bracket_single_mid_segment() {
    assert_eq!("A[1].C", AzureEnvironment::create_array_key("A.1.C"));
}

#[test]
fn bracket_with_empty_prefix() {
    assert_eq!("[5]", AzureEnvironment::create_array_key(".5"));
}

#[test]
fn bracket_after_repeated_delimiter() {
    assert_eq!("A.[0]", AzureEnvironment::create_array_key("A..0"));
}

#[test]
fn bracket_three_separated_segments() {
    assert_eq!("A[1].B[2].C[3]", AzureEnvironment::create_array_key("A.1.B.2.C.3"));
    assert_eq!("A[1].B[2].C", AzureEnvironment::create_array_key("A.1.B.2.C"));
}

#[test]
fn adjacent_digit_segments_single_pass() {
    // The second segment's leading delimiter is consumed by the first
    // match, so only the first of two adjacent digit segments is
    // rewritten.
    assert_eq!("A[1].2", AzureEnvironment::create_array_key("A.1.2"));
}

#[test]
fn unterminated_run_then_match() {
    assert_eq!("A.0A[1]", AzureEnvironment::create_array_key("A.0A.1"));
}

#[test]
fn bracketed_key_not_rematched() {
    assert_eq!("A[0]", AzureEnvironment::create_array_key("A[0]"));
    let once = AzureEnvironment::create_array_key("A.0");
    let twice = AzureEnvironment::create_array_key(&once);
    assert_eq!(once, twice);
}

#[test]
fn bracketed_mid_key_not_rematched() {
    let once = AzureEnvironment::create_array_key("A.1.C");
    let twice = AzureEnvironment::create_array_key(&once);
    assert_eq!("A[1].C", once);
    assert_eq!(once, twice);
}
