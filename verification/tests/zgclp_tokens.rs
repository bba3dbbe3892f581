use o_o::zgclp::{arg_parse, Arg};

#[test]
fn zgclp_short_option_simple() {
    let args = vec!["-a", "1", "-f", "-g3"];
    let v = arg_parse(&args, 0);
    assert_eq!(v, (Arg::Option("-a"), Some(1), Some((2, "1"))));
    let v = arg_parse(&args, 1);
    assert_eq!(v, (Arg::Value, None, Some((1, "1"))));
    let v = arg_parse(&args, 2);
    assert_eq!(v, (Arg::Option("-f"), Some(1), None));
    let v = arg_parse(&args, 3);
    assert_eq!(v, (Arg::Option("-g"), None, Some((1, "3"))));
}

#[test]
fn zgclp_short_option_complicated() {
    let args = vec!["-a=1", "-f", "-", "-g", "--", "-h"];
    let v = arg_parse(&args, 0);
    assert_eq!(v, (Arg::Option("-a"), None, Some((1, "=1"))));
    let v = arg_parse(&args, 1);
    assert_eq!(v, (Arg::Option("-f"), Some(1), Some((2, "-"))));
    let v = arg_parse(&args, 2);
    assert_eq!(v, (Arg::Value, None, Some((1, "-"))));
    let v = arg_parse(&args, 3);
    assert_eq!(v, (Arg::Option("-g"), Some(1), None));
    let v = arg_parse(&args, 4);
    assert_eq!(v, (Arg::Separator("--"), Some(1), None));
    let v = arg_parse(&args, 5);
    assert_eq!(v, (Arg::Option("-h"), Some(1), None));
}

#[test]
fn zgclp_long_option_simple() {
    let args = vec!["--aa", "1", "--ff", "--gg=3"];
    let v = arg_parse(&args, 0);
    assert_eq!(v, (Arg::Option("--aa"), Some(1), Some((2, "1"))));
    let v = arg_parse(&args, 1);
    assert_eq!(v, (Arg::Value, None, Some((1, "1"))));
    let v = arg_parse(&args, 2);
    assert_eq!(v, (Arg::Option("--ff"), Some(1), None));
    let v = arg_parse(&args, 3);
    assert_eq!(v, (Arg::Option("--gg"), None, Some((1, "3"))));
}

#[test]
fn match_test() {
    let args = vec!["--aa", "1", "--bb=3"];
    let v = arg_parse(&args, 0);
    match v {
        (Arg::Option("--aa"), Some(1), Some((2, "1"))) => { }
        _ => { panic!("match fails.") }
    }
    match v {
        (Arg::Option("--aa"), _, Some((eat, "1"))) => {
            assert_eq!(eat, 2 as usize);
        }
        _ => { panic!("match fails.") }
    }

    let v = arg_parse(&args, 2);
    match v {
        (Arg::Option("--bb"), None, Some((eat, value))) => {
            assert_eq!(eat, 1 as usize);
            assert_eq!(value, "3");
        }
        _ => { panic!("match fails.") }
    }
}
