use std::path::Path;

use redis_runner::config::is_conf_file;
use redis_runner::pid::get_currently_running_pids;
use redis_runner::runtime::{
    CLUSTER_CLIENT_PROGRAM, NODE_SERVER_PROGRAM, TERMINATION_PROGRAM,
};
use redis_runner::text::{char_is_space, read_u32, split_tokens, to_chars, to_string};

#[test]
fn separators_are_the_whitespace_characters() {
    let mut code: u32 = 0;
    while code <= 0x10FFFF {
        if let Some(c) = char::from_u32(code) {
            assert_eq!(char_is_space(c), c.is_whitespace(), "U+{:04X}", code);
        }
        code += 1;
    }
}

#[test]
fn tokens_are_those_of_split_whitespace() {
    let samples = [
        "",
        " ",
        "a",
        " a ",
        "port 7000",
        "\tport\u{2003}7000\r",
        "a  b   c",
        "\u{3000}x\u{a0}y\u{85}z",
        "tab\there there",
    ];
    for sample in samples.iter() {
        let chars = to_chars(sample);
        let tokens: Vec<String> =
            split_tokens(&chars, 0, chars.len()).iter().map(to_string).collect();
        let expected: Vec<String> = sample.split_whitespace().map(|t| t.to_string()).collect();
        assert_eq!(tokens, expected, "{:?}", sample);
    }
}

#[test]
fn tokens_of_a_stretch() {
    let chars = to_chars("ab cd ef");
    let tokens: Vec<String> = split_tokens(&chars, 1, 7).iter().map(to_string).collect();
    assert_eq!(tokens, vec!["b".to_string(), "cd".to_string(), "e".to_string()]);
}

#[test]
fn numbers_are_read_as_by_parse() {
    let samples = [
        "", "0", "7", "+7", "-7", "+", "++7", "007", "4294967295", "4294967296", "42949672950",
        "18446744073709551616", "12a", "a12", "1 2", "1_000", "\u{0661}\u{0662}", "+0", "00000000000000000001",
    ];
    for sample in samples.iter() {
        assert_eq!(read_u32(&to_chars(sample)), sample.parse::<u32>().ok(), "{:?}", sample);
    }
    assert_eq!(read_u32(&to_chars("1234")), Some(1234));
    assert_eq!(read_u32(&to_chars("4294967296")), None);
}

#[test]
fn rendered_numbers_are_those_of_to_string() {
    for pid in [0u32, 1, 9, 10, 11, 99, 100, 1234, 65535, 1000000, 4294967294, 4294967295].iter() {
        let mut set = redis_runner::pid::PidSet::new();
        set.insert(redis_runner::pid::PIDEntry { port: "p".to_string(), pid: *pid });
        let text = redis_runner::pid::write_data_to_pid_file(&set);
        assert_eq!(text, format!("p {}\n", pid));
        assert_eq!(get_currently_running_pids(&text).get(0).pid, *pid);
    }
}

#[test]
fn conf_files_are_those_with_the_extension() {
    let samples = [
        "a.conf", "a.CONF", "a.Conf", "d/a.conf", "d.conf/a", ".conf", "d/.conf", "a.conf.bak",
        "a.b.conf", "a", "a.", "conf", "d/e/f.cOnF", "a.confx", "..conf", "d/..conf", "a.con",
    ];
    for sample in samples.iter() {
        let expected = Path::new(sample)
            .extension()
            .map_or(false, |ext| ext.eq_ignore_ascii_case("conf"));
        assert_eq!(is_conf_file(sample), expected, "{:?}", sample);
    }
}

#[test]
fn programs() {
    assert_eq!(NODE_SERVER_PROGRAM, "redis-server");
    assert_eq!(CLUSTER_CLIENT_PROGRAM, "redis-cli");
    assert_eq!(TERMINATION_PROGRAM, "kill");
}
