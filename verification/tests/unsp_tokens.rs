use o_o::unsp::{parse, Arg};

#[test]
fn unsp_short_option_simple() {
    let args = vec!["-a", "1", "-f", "-g3"];
    let v = parse(&args, 0);
    assert_eq!(v, vec![
        (Arg::value_option("-a", "1"), 2 as usize),
        (Arg::flag_option("-a"), 1 as usize),
    ]);
    let v = parse(&args, 1);
    assert_eq!(v, vec![
        (Arg::value("1"), 1 as usize),
    ]);
    let v = parse(&args, 2);
    assert_eq!(v, vec![
        (Arg::flag_option("-f"), 1 as usize),
    ]);
    let v = parse(&args, 3);
    assert_eq!(v, vec![
        (Arg::value_option("-g", "3"), 1 as usize),
    ]);
}

#[test]
fn unsp_short_option_complicated() {
    let args = vec!["-a=1", "-f", "-", "-g", "--", "-h"];
    let v = parse(&args, 0);
    assert_eq!(v, vec![
        (Arg::value_option("-a", "=1"), 1 as usize),
    ]);
    let v = parse(&args, 1);
    assert_eq!(v, vec![
        (Arg::value_option("-f", "-"), 2 as usize),
        (Arg::flag_option("-f"), 1 as usize),
    ]);
    let v = parse(&args, 2);
    assert_eq!(v, vec![
        (Arg::value("-"), 1 as usize),
    ]);
    let v = parse(&args, 3);
    assert_eq!(v, vec![
        (Arg::flag_option("-g"), 1 as usize),
    ]);
    let v = parse(&args, 4);
    assert_eq!(v, vec![
        (Arg::separator("--"), 1 as usize),
    ]);
    let v = parse(&args, 5);
    assert_eq!(v, vec![
        (Arg::flag_option("-h"), 1 as usize),
    ]);
}

#[test]
fn unsp_long_option_simple() {
    let args = vec!["--aa", "1", "--ff", "--gg=3"];
    let v = parse(&args, 0);
    assert_eq!(v, vec![
        (Arg::value_option("--aa", "1"), 2 as usize),
        (Arg::flag_option("--aa"), 1 as usize),
    ]);
    let v = parse(&args, 1);
    assert_eq!(v, vec![
        (Arg::value("1"), 1 as usize),
    ]);
    let v = parse(&args, 2);
    assert_eq!(v, vec![
        (Arg::flag_option("--ff"), 1 as usize),
    ]);
    let v = parse(&args, 3);
    assert_eq!(v, vec![
        (Arg::value_option("--gg", "3"), 1 as usize),
    ]);
}
