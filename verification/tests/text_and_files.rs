use distributed_swmr_registers::hosts::{
    distinct_host_records,
    first_index_of_each_host, host_entries_from_string, host_records_from_string, hosts_string_is_valid,
};
use distributed_swmr_registers::launch::{
    build_application_command, check_write_read_soundness, color_from_node_id, execute_remote_command_string,
    gather_command, hosts_file_string, run_application_on_remote_computer_command, run_install_subcommand_command,
    run_result_file_name_from_node_id, run_single_application_instance_command, scp_from_remote_command,
    scp_to_remote_command, snapshot_string_from_node_id_and_number_of_snapshotters, stop_remote_processes_command,
    write_string_from_node_id_and_number_of_writers, InstallArguments, TerminalColor,
};
use distributed_swmr_registers::parse::{lines, parse_i32, split_string};
use distributed_swmr_registers::scenario::{parse_scenario_line, scenarios_from_string, RunScenario, Scenario};
use distributed_swmr_registers::text::{decimal_string, sorted_ids, starts_with, trim_end_string};

#[test]
fn decimal_strings() {
    assert_eq!(decimal_string(0), "0");
    assert_eq!(decimal_string(7), "7");
    assert_eq!(decimal_string(-45), "-45");
    assert_eq!(decimal_string(i32::MAX), "2147483647");
    assert_eq!(decimal_string(i32::MIN), "-2147483648");
}

#[test]
fn trimming_the_end() {
    assert_eq!(trim_end_string("a b \n\t "), "a b");
    assert_eq!(trim_end_string(" \n"), "");
    assert_eq!(trim_end_string("x\u{3000}"), "x");
    assert_eq!(trim_end_string("xy"), "xy");
    assert_eq!(trim_end_string("a\u{3000}\u{2029}\u{85}\t"), "a");
    assert_eq!(trim_end_string("a\u{200B}"), "a\u{200B}");
}

#[test]
fn prefixes() {
    assert!(starts_with("abc", "ab"));
    assert!(starts_with("abc", ""));
    assert!(!starts_with("ab", "abc"));
    assert!(!starts_with("xbc", "ab"));
}

#[test]
fn sorting_ids() {
    assert_eq!(sorted_ids(&vec![4, 1, 3, 1, -2]), vec![-2, 1, 3, 4]);
    assert_eq!(sorted_ids(&vec![]), Vec::<i32>::new());
}

#[test]
fn parsing_integers() {
    assert_eq!(parse_i32("42"), Some(42));
    assert_eq!(parse_i32("-7"), Some(-7));
    assert_eq!(parse_i32("+5"), Some(5));
    assert_eq!(parse_i32("007"), Some(7));
    assert_eq!(parse_i32(""), None);
    assert_eq!(parse_i32("-"), None);
    assert_eq!(parse_i32("1a"), None);
    assert_eq!(parse_i32(" 1"), None);
    assert_eq!(parse_i32("2147483647"), Some(i32::MAX));
    assert_eq!(parse_i32("2147483648"), None);
    assert_eq!(parse_i32("-2147483648"), Some(i32::MIN));
    assert_eq!(parse_i32("-2147483649"), None);
    assert_eq!(parse_i32("99999999999999999999"), None);
    for text in ["12", "-3", "+0", "x", "", "--1", "4294967296"] {
        assert_eq!(parse_i32(text), text.parse::<i32>().ok());
    }
}

#[test]
fn splitting_and_lines() {
    assert_eq!(split_string("a,b,", ','), vec!["a", "b", ""]);
    assert_eq!(split_string("", ','), vec![""]);
    assert_eq!(split_string("abc", ','), vec!["abc"]);
    for text in ["a\r\nb\n", "a\n\nb", "x\r", "", "\n", "one"] {
        let expected: Vec<String> = text.lines().map(|l| l.to_string()).collect();
        assert_eq!(lines(text), expected);
    }
}

#[test]
fn scenarios() {
    let scenario = Scenario::new(3, 1, 2);
    assert_eq!(scenario.to_string(), "Scenario,3,1,2");
    assert_eq!(Scenario::from_string("Scenario,3,1,2"), Some(scenario));
    assert_eq!(Scenario::from_string("Other,3,1,2"), None);
    assert_eq!(Scenario::from_string("Scenario,3,1"), None);
    assert_eq!(parse_scenario_line("3,2,2"), Some(Scenario::new(3, 2, 2)));
    assert_eq!(parse_scenario_line("3,2"), None);
    assert_eq!(
        scenarios_from_string("3,3,3\n3,1,1\n3,3,3\n3,0,3\n"),
        vec![Scenario::new(3, 3, 3), Scenario::new(3, 1, 1), Scenario::new(3, 0, 3)]
    );
    let run = RunScenario::new();
    assert_eq!((run.number_of_nodes, run.number_of_readers, run.number_of_writers), (0, 0, 0));
}

#[test]
fn scenario_text_reads_back() {
    for scenario in [
        Scenario::new(3, 1, 2),
        Scenario::new(0, 0, 0),
        Scenario::new(-7, 2147483647, -2147483648),
    ] {
        assert_eq!(Scenario::from_string(&scenario.to_string()), Some(scenario));
    }
    assert_eq!(parse_i32(&decimal_string(-2147483648)), Some(-2147483648));
}

#[test]
fn colors_and_file_names() {
    assert_eq!(color_from_node_id(0), TerminalColor::Black);
    assert_eq!(color_from_node_id(1), TerminalColor::Red);
    assert_eq!(color_from_node_id(6), TerminalColor::Cyan);
    assert_eq!(color_from_node_id(7), TerminalColor::Black);
    assert_eq!(color_from_node_id(9).name(), "Green");
    assert_eq!(run_result_file_name_from_node_id(1), "node001.eval");
    assert_eq!(run_result_file_name_from_node_id(2), "node002.eval");
    assert_eq!(run_result_file_name_from_node_id(45), "node045.eval");
    assert_eq!(run_result_file_name_from_node_id(1000), "node1000.eval");
    assert_eq!(run_result_file_name_from_node_id(-5), format!("node{:0>3}.eval", -5));
    assert_eq!(run_result_file_name_from_node_id(1234567), "node1234567.eval");
}

#[test]
fn flags_and_soundness() {
    assert_eq!(write_string_from_node_id_and_number_of_writers(2, 2), "--write");
    assert_eq!(write_string_from_node_id_and_number_of_writers(3, 2), "");
    assert_eq!(snapshot_string_from_node_id_and_number_of_snapshotters(1, 0), "");
    assert_eq!(snapshot_string_from_node_id_and_number_of_snapshotters(1, 1), "--snapshot");
    assert!(check_write_read_soundness(true, 2, 3));
    assert!(!check_write_read_soundness(true, 3, 3));
    assert!(check_write_read_soundness(false, 3, 3));
}

#[test]
fn local_hosts_file() {
    assert_eq!(hosts_file_string(2), "1,127.0.0.1:62001\n2,127.0.0.1:62002\n");
    assert_eq!(hosts_file_string(0), "");
}

#[test]
fn local_hosts_file_reads_back() {
    let text = hosts_file_string(4);
    assert!(hosts_string_is_valid(&text, 2));
    let entries = host_entries_from_string(&text);
    assert_eq!(entries.len(), 4);
    for (k, entry) in entries.iter().enumerate() {
        assert_eq!(entry.node_id, k as i32 + 1);
        assert_eq!(entry.address, format!("127.0.0.1:{}", 62001 + k));
    }
}

#[test]
fn commands() {
    assert_eq!(build_application_command("--release"), "cargo build --release --manifest-path ../application/Cargo.toml");
    assert_eq!(
        run_single_application_instance_command("", 3, TerminalColor::Yellow, "10", "", true, 3, 1),
        "cargo run  --manifest-path ../application/Cargo.toml -- 3 hosts.txt -c Yellow -l 10  --write "
    );
    assert_eq!(
        run_single_application_instance_command("", 1, TerminalColor::Red, "0", "-p", true, 3, 1),
        "cargo run  --manifest-path ../application/Cargo.toml -- 1 hosts.txt -c Red -l 0 -p  --read"
    );
    assert_eq!(
        run_application_on_remote_computer_command("dir", "", 2, "hosts.txt", "5", TerminalColor::Green, "-e", "", 2, 1),
        "\"cd dir/application/;cargo run  -- 2 hosts.txt -l 5 -c Green -e  --write ;cd ../../\""
    );
    assert_eq!(execute_remote_command_string("k", "u", "1.2.3.4", "ls"), "ssh -i k u@1.2.3.4 ls");
    assert_eq!(scp_to_remote_command("k", "src/", "u", "h", "dir", "app/src/"), "scp -i k -r src/ u@h:dir/app/src/");
    assert_eq!(scp_from_remote_command("k", "u", "h", "dir", "f", "g"), "scp -i k -r u@h:dir/f g");
    assert_eq!(stop_remote_processes_command("u"), "pkill -u u");
    let install = InstallArguments { hosts_file: "hosts".to_string(), optimize_string: "--release".to_string() };
    assert_eq!(
        run_install_subcommand_command(&install),
        "cargo run --manifest-path ../remote_starter/Cargo.toml -- hosts -i --release"
    );
    assert_eq!(
        gather_command("hosts", 1, 2, "", "30", "-p"),
        "cargo run --manifest-path ../remote_starter/Cargo.toml -- hosts -r 1 -w 2 -e  -l 30 -p"
    );
}

#[test]
fn hosts_files() {
    let text = "1,127.0.0.1:62001\n2,127.0.0.1:62002";
    assert!(hosts_string_is_valid(text, 2));
    assert!(!hosts_string_is_valid(text, 3));
    assert!(!hosts_string_is_valid("x,127.0.0.1:1", 2));
    let entries = host_entries_from_string(text);
    assert_eq!(entries.len(), 2);
    assert_eq!((entries[1].node_id, entries[1].address.as_str()), (2, "127.0.0.1:62002"));
    let records = host_records_from_string("5,host:1,key,user,script.sh\n");
    assert_eq!(records.len(), 1);
    assert_eq!(records[0].node_id, 5);
    assert_eq!(records[0].key_path, "key");
    assert_eq!(records[0].username, "user");
    assert_eq!(records[0].script_path, "script.sh");
    let addresses: Vec<String> = ["a", "b", "a", "c", "b"].iter().map(|s| s.to_string()).collect();
    assert_eq!(first_index_of_each_host(&addresses), vec![0, 1, 3]);
}

#[test]
fn a_repeated_host_line_counts_once() {
    let records = host_records_from_string("1,a:1,k,u,s\n2,b:2,k,u,s\n1,a:1,k,u,s\n1,a:1,k,v,s\n");
    assert_eq!(records.len(), 4);
    let distinct = distinct_host_records(&records);
    let fields: Vec<(i32, String, String)> =
        distinct.iter().map(|r| (r.node_id, r.address.clone(), r.username.clone())).collect();
    assert_eq!(
        fields,
        vec![
            (1, "a:1".to_string(), "u".to_string()),
            (2, "b:2".to_string(), "u".to_string()),
            (1, "a:1".to_string(), "v".to_string()),
        ]
    );
}
