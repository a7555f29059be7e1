use player_checker::parse::{
    parse_arg, parse_opt_args, parse_req_args, replace_all, OptArgs, ParseError, Replace, ReqArgs,
};

#[test]
fn value_after_argument() {
    let rep = Replace(None);
    let val = parse_arg("--listen", &rep, "--listen 1.2.3.4:27015 -u bob\n").unwrap();
    assert_eq!(val, "1.2.3.4:27015");
}

#[test]
fn value_cut_at_newline() {
    let rep = Replace(None);
    let val = parse_arg("-u", &rep, "--listen 1.2.3.4:27015 -u bob\n").unwrap();
    assert_eq!(val, "bob");
}

#[test]
fn quoted_value_keeps_spaces() {
    let rep = Replace(None);
    let val = parse_arg("-u", &rep, "-u \"some name\" rest\n").unwrap();
    assert_eq!(val, "some name");
}

#[test]
fn one_quote_is_refused() {
    let rep = Replace(None);
    let r = parse_arg("-u", &rep, "-u \"half quoted\n");
    assert_eq!(r, Err(ParseError::UnmatchedQuote));
}

#[test]
fn two_bare_quotes_are_refused() {
    // Two adjacent quotes leave nothing to cut a value out of.
    let rep = Replace(None);
    let r = parse_arg("-u", &rep, "-u \"\"");
    assert_eq!(r, Err(ParseError::MalformedQuotes));
}

#[test]
fn missing_argument_is_not_found() {
    let rep = Replace(None);
    let r = parse_arg("--dump", &rep, "--print 1.2.3.4\n");
    assert_eq!(r, Err(ParseError::NotFound));
}

#[test]
fn empty_argument_is_refused() {
    let rep = Replace(None);
    assert_eq!(parse_arg("", &rep, "anything"), Err(ParseError::EmptyArg));
}

#[test]
fn replacement_variable_is_substituted() {
    let rep = Replace(Some(("*recent", "1.2.3.4:27015")));
    let val = parse_arg("--print", &rep, "--print *recent\n").unwrap();
    assert_eq!(val, "1.2.3.4:27015");
}

#[test]
fn replacement_leaves_other_values_alone() {
    let rep = Replace(Some(("*recent", "1.2.3.4:27015")));
    let val = parse_arg("--print", &rep, "--print 9.9.9.9:1\n").unwrap();
    assert_eq!(val, "9.9.9.9:1");
}

#[test]
fn replace_all_replaces_every_occurrence() {
    assert_eq!(replace_all("aXbXc", "X", "YY"), "aYYbYYc");
    assert_eq!(replace_all("none here", "X", "YY"), "none here");
    assert_eq!(replace_all("aXbXc", "", "YY"), "aXbXc");
    assert_eq!(replace_all("XX", "X", ""), "");
}

#[test]
fn required_arguments_in_order() {
    let rep = Replace(None);
    let args: &[&str] = &["--listen", "-u"];
    let vals = parse_req_args(args, &rep, "--listen 1.2.3.4:27015 -u bob\n").unwrap();
    assert_eq!(vals, vec!["1.2.3.4:27015".to_string(), "bob".to_string()]);
}

#[test]
fn required_argument_missing_fails() {
    let rep = Replace(None);
    let args: &[&str] = &["--listen", "-u"];
    let r = parse_req_args(args, &rep, "--listen 1.2.3.4:27015\n");
    assert_eq!(r, Err(ParseError::NotFound));
}

#[test]
fn empty_required_names_are_skipped() {
    let rep = Replace(None);
    let args: &[&str] = &["", "--print"];
    let vals = parse_req_args(args, &rep, "--print 1.2.3.4\n").unwrap();
    assert_eq!(vals, vec!["1.2.3.4".to_string()]);
}

#[test]
fn optional_arguments_skip_missing_ones() {
    let rep = Replace(None);
    let args: &[&str] = &["--loud", "-u"];
    let vals = parse_opt_args(args, &rep, "-u bob\n").unwrap();
    assert_eq!(vals, vec!["bob".to_string()]);
}

#[test]
fn wrapper_structs_carry_their_lists() {
    let req = ReqArgs(&["--listen", "-u"]);
    let opt = OptArgs(None);
    assert_eq!(req.0.len(), 2);
    assert!(opt.0.is_none());
}
