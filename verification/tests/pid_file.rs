use redis_runner::dotdir::{
    join_path, local_config_dir, pid_file_path, StoreFault, CONFIG_DIR_NAME, SERVER_PID_FILE_NAME,
};
use redis_runner::pid::{get_currently_running_pids, write_data_to_pid_file, PIDEntry, PidSet};

fn entry(port: &str, pid: u32) -> PIDEntry {
    PIDEntry { port: port.to_string(), pid }
}

fn entries_of(set: &PidSet) -> Vec<PIDEntry> {
    let mut out = Vec::new();
    let mut i = 0;
    while i < set.len() {
        out.push(set.get(i).clone());
        i += 1;
    }
    out
}

#[test]
fn test_write_data_pid_file_success() {
    let mut test_set = PidSet::new();
    test_set.insert(PIDEntry { port: "7000".to_string(), pid: 1 });
    test_set.insert(PIDEntry { port: "7001".to_string(), pid: 2 });
    let contents = write_data_to_pid_file(&test_set);
    assert_eq!(contents, "7000 1\n7001 2\n");

    let pids = get_currently_running_pids(&contents);
    assert_eq!(pids.len(), 2);
}

#[test]
fn test_get_currently_running_pids_success() {
    let pids = get_currently_running_pids("7000 101\n7001 102\n7002 103\n");
    assert_eq!(pids.len(), 3);
}

#[test]
fn malformed_lines_are_passed_over() {
    let pids = get_currently_running_pids("7000 1\nbadline\n7001 2\n");
    assert_eq!(entries_of(&pids), vec![entry("7000", 1), entry("7001", 2)]);
}

#[test]
fn round_trip_keeps_entries_and_order() {
    let mut set = PidSet::new();
    assert!(set.insert(entry("7002", 4294967295)));
    assert!(set.insert(entry("7000", 0)));
    assert!(set.insert(entry("7001", 1234)));
    let text = write_data_to_pid_file(&set);
    assert_eq!(text, "7002 4294967295\n7000 0\n7001 1234\n");
    let back = get_currently_running_pids(&text);
    assert_eq!(entries_of(&back), entries_of(&set));
}

#[test]
fn empty_text_is_the_empty_registry() {
    let pids = get_currently_running_pids("");
    assert!(pids.is_empty());
    assert_eq!(pids.len(), 0);
    assert!(pids.first().is_none());
    assert_eq!(write_data_to_pid_file(&PidSet::new()), "");
}

#[test]
fn blank_and_overlong_lines_are_passed_over() {
    let pids = get_currently_running_pids("\n   \n7000 1 extra\n7001\n\n7002 3");
    assert_eq!(entries_of(&pids), vec![entry("7002", 3)]);
}

#[test]
fn any_whitespace_separates_tokens() {
    let pids = get_currently_running_pids("  7000\t\t1  \r\n\u{3000}7001\u{a0}2\u{2003}\n");
    assert_eq!(entries_of(&pids), vec![entry("7000", 1), entry("7001", 2)]);
}

#[test]
fn process_id_must_be_an_unsigned_32_bit_number() {
    let text = "a 4294967295\nb 4294967296\nc -1\nd +7\ne 0012\nf 1x\ng +\nh 99999999999999999999999\ni 1.5\n";
    let pids = get_currently_running_pids(text);
    assert_eq!(
        entries_of(&pids),
        vec![entry("a", 4294967295), entry("d", 7), entry("e", 12)]
    );
}

#[test]
fn first_line_wins_for_a_repeated_process_id() {
    let pids = get_currently_running_pids("7000 5\n7001 5\n7000 6\n");
    assert_eq!(entries_of(&pids), vec![entry("7000", 5), entry("7000", 6)]);
}

#[test]
fn insert_refuses_a_process_id_that_is_present() {
    let mut set = PidSet::new();
    assert!(set.insert(entry("7000", 9)));
    assert!(!set.insert(entry("7001", 9)));
    assert_eq!(set.len(), 1);
    assert!(set.contains_pid(9));
    assert!(!set.contains_pid(10));
    assert_eq!(set.first(), Some(&entry("7000", 9)));
}

#[test]
fn file_names() {
    assert_eq!(CONFIG_DIR_NAME, ".rr");
    assert_eq!(SERVER_PID_FILE_NAME, "servers.pid");
}

#[test]
fn test_get_or_create_local_config_dir_bad_home() {
    let dir_result = local_config_dir(None);
    assert!(dir_result.is_err());
    assert_eq!(dir_result, Err(StoreFault::ConfigDirUnavailable));
    assert_eq!(pid_file_path(None), Err(StoreFault::ConfigDirUnavailable));
}

#[test]
fn test_get_or_create_local_config_dir_home_exists() {
    let dir_result = local_config_dir(Some("."));
    assert!(dir_result.is_ok());
    assert_eq!(dir_result, Ok("./.rr".to_string()));
}

#[test]
fn test_get_or_create_local_config_dir_home_doesnt_exist() {
    let dir_result = local_config_dir(Some("/nonexist"));
    assert!(dir_result.is_ok());
    assert_eq!(dir_result, Ok("/nonexist/.rr".to_string()));
}

#[test]
fn pid_file_is_in_the_config_dir() {
    assert_eq!(pid_file_path(Some("/home/op")), Ok("/home/op/.rr/servers.pid".to_string()));
    assert_eq!(pid_file_path(Some("/home/op/")), Ok("/home/op/.rr/servers.pid".to_string()));
    assert_eq!(pid_file_path(Some("/")), Ok("/.rr/servers.pid".to_string()));
    assert_eq!(pid_file_path(Some("")), Ok(".rr/servers.pid".to_string()));
}

#[test]
fn paths_are_joined_as_by_std() {
    let bases = ["", ".", "/", "/home/op", "/home/op/", "rel", "rel/", "a//", "d.conf"];
    let names = [".rr", "servers.pid", "x/y", ""];
    for base in bases.iter() {
        for name in names.iter() {
            let expected = std::path::Path::new(base).join(name);
            assert_eq!(
                join_path(base, name),
                expected.to_str().unwrap(),
                "{:?} {:?}",
                base,
                name
            );
        }
    }
}
