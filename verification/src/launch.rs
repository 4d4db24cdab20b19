use vstd::prelude::*;

use crate::hosts::{host_line_field, host_line_id, host_line_valid, hosts_text_valid};
use crate::parse::{
    lemma_decimal_characters, lemma_parse_decimal, lemma_split_scan_plain, lemma_split_scan_separator, lines_of,
    split_at_char, split_scan, strip_carriage_return,
};
use crate::text::{decimal, decimal_string};
use crate::types::{Int, NodeId};

verus! {

/// The colors a node's terminal output can take.
#[derive(Debug, PartialEq, Eq, Structural, Clone, Copy)]
pub enum TerminalColor {
    Black,
    Red,
    Green,
    Yellow,
    Blue,
    Magenta,
    Cyan,
}

/// The colors in the order they are handed out to nodes.
pub open spec fn color_at(index: int) -> TerminalColor {
    if index == 0 { TerminalColor::Black }
    else if index == 1 { TerminalColor::Red }
    else if index == 2 { TerminalColor::Green }
    else if index == 3 { TerminalColor::Yellow }
    else if index == 4 { TerminalColor::Blue }
    else if index == 5 { TerminalColor::Magenta }
    else { TerminalColor::Cyan }
}

/// The name of a color, as `{:?}` writes it.
pub open spec fn color_name(color: TerminalColor) -> Seq<char> {
    match color {
        TerminalColor::Black => "Black"@,
        TerminalColor::Red => "Red"@,
        TerminalColor::Green => "Green"@,
        TerminalColor::Yellow => "Yellow"@,
        TerminalColor::Blue => "Blue"@,
        TerminalColor::Magenta => "Magenta"@,
        TerminalColor::Cyan => "Cyan"@,
    }
}

impl TerminalColor {
    /// The color's name.
    pub fn name(&self) -> (name: &'static str)
        ensures
            name@ == color_name(*self),
    {
        match self {
            TerminalColor::Black => "Black",
            TerminalColor::Red => "Red",
            TerminalColor::Green => "Green",
            TerminalColor::Yellow => "Yellow",
            TerminalColor::Blue => "Blue",
            TerminalColor::Magenta => "Magenta",
            TerminalColor::Cyan => "Cyan",
        }
    }
}

/// The terminal color of node `node_id`: the seven colors in turn, by the node
/// id taken as a `usize`.
pub fn color_from_node_id(node_id: NodeId) -> (color: TerminalColor)
    ensures
        color == color_at(((node_id as usize) % 7) as int),
{
    let index = (node_id as usize) % 7;
    if index == 0 { TerminalColor::Black }
    else if index == 1 { TerminalColor::Red }
    else if index == 2 { TerminalColor::Green }
    else if index == 3 { TerminalColor::Yellow }
    else if index == 4 { TerminalColor::Blue }
    else if index == 5 { TerminalColor::Magenta }
    else { TerminalColor::Cyan }
}

/// `text` padded on the left with `0`s to at least `width` characters.
pub open spec fn zero_padded(text: Seq<char>, width: int) -> Seq<char> {
    if text.len() < width {
        Seq::new((width - text.len()) as nat, |i: int| '0') + text
    } else {
        text
    }
}

/// The name of the file node `node_id` records its run result in:
/// `node<id>.eval`, the id padded with zeros to three characters.
pub fn run_result_file_name_from_node_id(node_id: NodeId) -> (name: String)
    ensures
        name@ == "node"@ + zero_padded(decimal(node_id as int), 3) + ".eval"@,
{
    let id_text = decimal_string(node_id);
    let mut name = String::from_str("node");
    let width = id_text.unicode_len();
    let mut padding: usize = width;
    let ghost start = name@;
    while padding < 3
        invariant
            width == id_text@.len(),
            width <= padding <= 3 || (width > 3 && padding == width),
            name@ == start + Seq::new((padding - width) as nat, |i: int| '0'),
        decreases 3 - padding,
    {
        proof {
            reveal_strlit("0");
        }
        name.append("0");
        proof {
            assert(Seq::new((padding + 1 - width) as nat, |i: int| '0') =~= Seq::new((padding - width) as nat, |i: int| '0').push('0'));
        }
        padding = padding + 1;
    }
    name.append(id_text.as_str());
    name.append(".eval");
    proof {
        if width < 3 {
            assert(name@ =~= "node"@ + zero_padded(decimal(node_id as int), 3) + ".eval"@);
        } else {
            assert(Seq::new(0, |i: int| '0') =~= Seq::<char>::empty());
            assert(name@ =~= "node"@ + zero_padded(decimal(node_id as int), 3) + ".eval"@);
        }
    }
    name
}

/// `--write` for the nodes among the first `number_of_writers`, else nothing.
pub fn write_string_from_node_id_and_number_of_writers(node_id: NodeId, number_of_writers: Int) -> (flag: &'static str)
    ensures
        flag@ == if node_id <= number_of_writers { "--write"@ } else { ""@ },
{
    if node_id <= number_of_writers {
        "--write"
    } else {
        ""
    }
}

/// `--snapshot` for the nodes among the first `number_of_snapshotters`, else
/// nothing.
pub fn snapshot_string_from_node_id_and_number_of_snapshotters(node_id: NodeId, number_of_snapshotters: Int) -> (flag: &'static str)
    ensures
        flag@ == if node_id <= number_of_snapshotters { "--snapshot"@ } else { ""@ },
{
    if node_id <= number_of_snapshotters {
        "--snapshot"
    } else {
        ""
    }
}

/// `flag` when `present`, else nothing.
pub fn flag_string(present: bool, flag: &'static str) -> (text: &'static str)
    ensures
        text@ == if present { flag@ } else { ""@ },
{
    if present {
        flag
    } else {
        ""
    }
}

/// A local run may write and read only when the writing node is not also among
/// the readers: with a writer, there must be fewer readers than nodes. The
/// local starter refuses to start (it panics) exactly when this is `false`.
pub fn check_write_read_soundness(should_write: bool, number_of_readers: Int, number_of_nodes: Int) -> (sound: bool)
    ensures
        sound == !(should_write && number_of_readers >= number_of_nodes),
{
    !(should_write && number_of_readers >= number_of_nodes)
}

/// The line of the hosts file for local node `node_id`: its id, then the
/// loopback address with port 62000 plus the id.
pub open spec fn local_host_line(node_id: int) -> Seq<char> {
    decimal(node_id) + ",127.0.0.1:"@ + decimal(node_id + 62000) + "\n"@
}

/// The hosts file lines of local nodes 1 to `last`.
pub open spec fn local_hosts_text(last: int) -> Seq<char>
    decreases last,
{
    if last <= 0 {
        Seq::empty()
    } else {
        local_hosts_text(last - 1) + local_host_line(last)
    }
}

/// A line of the local hosts file without its line feed.
pub open spec fn local_host_body(node_id: int) -> Seq<char> {
    decimal(node_id) + ",127.0.0.1:"@ + decimal(node_id + 62000)
}

/// A character of a concatenation is a character of one of its parts.
proof fn lemma_concat_contains(a: Seq<char>, b: Seq<char>, c: char)
    requires
        (a + b).contains(c),
    ensures
        a.contains(c) || b.contains(c),
{
    let k = choose|k: int| 0 <= k < (a + b).len() && (a + b)[k] == c;
    if k < a.len() {
        assert(a[k] == c);
    } else {
        assert(b[k - a.len()] == c);
    }
}

/// The only characters of a local host line besides the digits and signs of
/// its numbers are those of `,127.0.0.1:`.
proof fn lemma_local_host_body_characters(node_id: int, c: char)
    requires
        local_host_body(node_id).contains(c),
    ensures
        c == '-' || c == ',' || c == '.' || c == ':' || ('0' <= c <= '9'),
{
    reveal_strlit(",127.0.0.1:");
    let a = decimal(node_id);
    let b = ",127.0.0.1:"@;
    let d = decimal(node_id + 62000);
    lemma_concat_contains(a + b, d, c);
    if (a + b).contains(c) {
        lemma_concat_contains(a, b, c);
        if a.contains(c) {
            lemma_decimal_characters(node_id, c);
        } else {
            let k = choose|k: int| 0 <= k < b.len() && b[k] == c;
        }
    } else {
        lemma_decimal_characters(node_id + 62000, c);
    }
}

/// Splitting the local hosts file of nodes 1 to `last` at line feeds gives
/// their lines, with nothing after the last line feed.
proof fn lemma_local_hosts_split(last: int)
    requires
        0 <= last,
    ensures
        split_scan(local_hosts_text(last), '\n')
            == (Seq::new(last as nat, |k: int| local_host_body(k + 1)), Seq::<char>::empty()),
    decreases last,
{
    reveal_strlit("\n");
    if last == 0 {
        assert(Seq::new(0, |k: int| local_host_body(k + 1)) =~= Seq::<Seq<char>>::empty());
    } else {
        lemma_local_hosts_split(last - 1);
        let before = local_hosts_text(last - 1);
        let body = local_host_body(last);
        assert(!body.contains('\n')) by {
            if body.contains('\n') {
                lemma_local_host_body_characters(last, '\n');
            }
        }
        lemma_split_scan_plain(before, body, '\n');
        lemma_split_scan_separator(before + body, '\n');
        assert(local_hosts_text(last) =~= (before + body).push('\n'));
        assert(Seq::<char>::empty() + body =~= body);
        assert(Seq::new((last - 1) as nat, |k: int| local_host_body(k + 1)).push(body)
            =~= Seq::new(last as nat, |k: int| local_host_body(k + 1)));
    }
}

/// The hosts file the local starter writes for `number_of_nodes` nodes is one
/// the nodes read back: its lines are the nodes 1 to `number_of_nodes` in
/// order, each a node id followed by the loopback address at port 62000 plus
/// the id.
pub proof fn lemma_local_hosts_read_back(number_of_nodes: int)
    requires
        0 <= number_of_nodes <= Int::MAX - 62000,
    ensures
        hosts_text_valid(local_hosts_text(number_of_nodes), 2),
        lines_of(local_hosts_text(number_of_nodes)).len() == number_of_nodes,
        forall|k: int| 0 <= k < number_of_nodes ==> {
            &&& host_line_id(#[trigger] lines_of(local_hosts_text(number_of_nodes))[k]) == k + 1
            &&& host_line_field(lines_of(local_hosts_text(number_of_nodes))[k], 1)
                == "127.0.0.1:"@ + decimal(k + 1 + 62000)
        },
{
    reveal_strlit(",127.0.0.1:");
    reveal_strlit("127.0.0.1:");
    let text = local_hosts_text(number_of_nodes);
    lemma_local_hosts_split(number_of_nodes);
    let lines = lines_of(text);
    assert forall|k: int| 0 <= k < number_of_nodes implies {
        &&& host_line_valid(#[trigger] lines[k], 2)
        &&& host_line_id(lines[k]) == k + 1
        &&& host_line_field(lines[k], 1) == "127.0.0.1:"@ + decimal(k + 1 + 62000)
    } by {
        let id = k + 1;
        let body = local_host_body(id);
        assert(body.len() > 0);
        assert(body.last() != '\r') by {
            assert(body.contains(body.last())) by {
                assert(body[body.len() - 1] == body.last());
            }
            lemma_local_host_body_characters(id, body.last());
        }
        assert(strip_carriage_return(body) == body);
        assert(lines[k] == body);
        let a = decimal(id);
        let rest = "127.0.0.1:"@ + decimal(id + 62000);
        assert(!a.contains(',')) by {
            if a.contains(',') {
                lemma_decimal_characters(id, ',');
            }
        }
        assert(!rest.contains(',')) by {
            if rest.contains(',') {
                lemma_concat_contains("127.0.0.1:"@, decimal(id + 62000), ',');
                if "127.0.0.1:"@.contains(',') {
                    let j = choose|j: int| 0 <= j < "127.0.0.1:"@.len() && "127.0.0.1:"@[j] == ',';
                } else {
                    lemma_decimal_characters(id + 62000, ',');
                }
            }
        }
        let empty = Seq::<char>::empty();
        assert(split_scan(empty, ',') == (Seq::<Seq<char>>::empty(), empty));
        lemma_split_scan_plain(empty, a, ',');
        assert(empty + a =~= a);
        lemma_split_scan_separator(a, ',');
        lemma_split_scan_plain(a.push(','), rest, ',');
        assert(empty + rest =~= rest);
        assert(body =~= a.push(',') + rest);
        assert(split_at_char(body, ',') =~= seq![a, rest]);
        lemma_parse_decimal(id as i32);
    }
}

/// The hosts file of `number_of_nodes` nodes on this computer.
pub fn hosts_file_string(number_of_nodes: Int) -> (text: String)
    requires
        number_of_nodes <= Int::MAX - 62000,
    ensures
        text@ == local_hosts_text(number_of_nodes as int),
{
    let mut text = String::new();
    let port_offset: Int = 62000;
    let mut node_id: Int = 1;
    while node_id < number_of_nodes + 1
        invariant
            number_of_nodes <= Int::MAX - 62000,
            1 <= node_id,
            node_id <= number_of_nodes + 1 || node_id == 1,
            port_offset == 62000,
            text@ == local_hosts_text((node_id - 1) as int),
        decreases number_of_nodes + 1 - node_id,
    {
        let id_text = decimal_string(node_id);
        text.append(id_text.as_str());
        text.append(",127.0.0.1:");
        let port_text = decimal_string(node_id + port_offset);
        text.append(port_text.as_str());
        text.append("\n");
        node_id = node_id + 1;
    }
    proof {
        if number_of_nodes <= 0 {
            assert(local_hosts_text(number_of_nodes as int) == Seq::<char>::empty());
        }
    }
    text
}

/// The command that builds the node application, in release mode when
/// `release_mode_string` says so.
pub fn build_application_command(release_mode_string: &str) -> (text: String)
    ensures
        text@ == Seq::<char>::empty()
            + "cargo build "@
            + release_mode_string@
            + " --manifest-path ../application/Cargo.toml"@,
{
    let mut text = String::new();
    text.append("cargo build ");
    text.append(release_mode_string);
    text.append(" --manifest-path ../application/Cargo.toml");
    text
}

/// The command that runs local node `node_id` of `number_of_nodes`: the last
/// node writes when `should_write`, the first `number_of_readers` nodes read.
pub fn run_single_application_instance_command(release_mode_string: &str, node_id: NodeId, color: TerminalColor, run_length_string: &str, print_client_operations_string: &str, should_write: bool, number_of_nodes: Int, number_of_readers: Int) -> (text: String)
    ensures
        text@ == Seq::<char>::empty()
            + "cargo run "@
            + release_mode_string@
            + " --manifest-path ../application/Cargo.toml -- "@
            + decimal(node_id as int)
            + " hosts.txt -c "@
            + color_name(color)
            + " -l "@
            + run_length_string@
            + " "@
            + print_client_operations_string@
            + " "@
            + (if node_id == number_of_nodes && should_write { "--write"@ } else { ""@ })
            + " "@
            + (if node_id <= number_of_readers { "--read"@ } else { ""@ }),
{
    let mut text = String::new();
    text.append("cargo run ");
    text.append(release_mode_string);
    text.append(" --manifest-path ../application/Cargo.toml -- ");
    let node_id_text = decimal_string(node_id);
    text.append(node_id_text.as_str());
    text.append(" hosts.txt -c ");
    text.append(color.name());
    text.append(" -l ");
    text.append(run_length_string);
    text.append(" ");
    text.append(print_client_operations_string);
    text.append(" ");
    text.append(flag_string(node_id == number_of_nodes && should_write, "--write"));
    text.append(" ");
    text.append(flag_string(node_id <= number_of_readers, "--read"));
    text
}

/// The command that runs node `node_id` on its remote computer, from the
/// directory `remote_directory`: the first `number_of_writers` nodes write,
/// the first `number_of_readers` nodes read.
pub fn run_application_on_remote_computer_command(remote_directory: &str, release_mode_string: &str, node_id: NodeId, hosts_file_name: &str, run_length_string: &str, color: TerminalColor, record_evaluation_info_string: &str, print_client_operations_string: &str, number_of_writers: Int, number_of_readers: Int) -> (text: String)
    ensures
        text@ == Seq::<char>::empty()
            + "\"cd "@
            + remote_directory@
            + "/application/;cargo run "@
            + release_mode_string@
            + " -- "@
            + decimal(node_id as int)
            + " "@
            + hosts_file_name@
            + " -l "@
            + run_length_string@
            + " -c "@
            + color_name(color)
            + " "@
            + record_evaluation_info_string@
            + " "@
            + print_client_operations_string@
            + " "@
            + (if node_id <= number_of_writers { "--write"@ } else { ""@ })
            + " "@
            + (if node_id <= number_of_readers { "--read"@ } else { ""@ })
            + ";cd ../../\""@,
{
    let mut text = String::new();
    text.append("\"cd ");
    text.append(remote_directory);
    text.append("/application/;cargo run ");
    text.append(release_mode_string);
    text.append(" -- ");
    let node_id_text = decimal_string(node_id);
    text.append(node_id_text.as_str());
    text.append(" ");
    text.append(hosts_file_name);
    text.append(" -l ");
    text.append(run_length_string);
    text.append(" -c ");
    text.append(color.name());
    text.append(" ");
    text.append(record_evaluation_info_string);
    text.append(" ");
    text.append(print_client_operations_string);
    text.append(" ");
    text.append(flag_string(node_id <= number_of_writers, "--write"));
    text.append(" ");
    text.append(flag_string(node_id <= number_of_readers, "--read"));
    text.append(";cd ../../\"");
    text
}

/// The command that builds the node application on a remote computer, in
/// the directory `remote_directory`.
pub fn build_source_code_on_remote_computer_command(remote_directory: &str, release_mode_string: &str) -> (text: String)
    ensures
        text@ == Seq::<char>::empty()
            + "\"cd "@
            + remote_directory@
            + "/application/;cargo build "@
            + release_mode_string@
            + ";\""@,
{
    let mut text = String::new();
    text.append("\"cd ");
    text.append(remote_directory);
    text.append("/application/;cargo build ");
    text.append(release_mode_string);
    text.append(";\"");
    text
}

/// The command that runs `command` on the computer at `ip_address` over ssh,
/// as `username` with the key at `key_path`.
pub fn execute_remote_command_string(key_path: &str, username: &str, ip_address: &str, command: &str) -> (text: String)
    ensures
        text@ == Seq::<char>::empty()
            + "ssh -i "@
            + key_path@
            + " "@
            + username@
            + "@"@
            + ip_address@
            + " "@
            + command@,
{
    let mut text = String::new();
    text.append("ssh -i ");
    text.append(key_path);
    text.append(" ");
    text.append(username);
    text.append("@");
    text.append(ip_address);
    text.append(" ");
    text.append(command);
    text
}

/// The command that copies the local `source_path` to `destination_path`
/// under `remote_directory` on the computer at `ip_address`.
pub fn scp_to_remote_command(key_path: &str, source_path: &str, username: &str, ip_address: &str, remote_directory: &str, destination_path: &str) -> (text: String)
    ensures
        text@ == Seq::<char>::empty()
            + "scp -i "@
            + key_path@
            + " -r "@
            + source_path@
            + " "@
            + username@
            + "@"@
            + ip_address@
            + ":"@
            + remote_directory@
            + "/"@
            + destination_path@,
{
    let mut text = String::new();
    text.append("scp -i ");
    text.append(key_path);
    text.append(" -r ");
    text.append(source_path);
    text.append(" ");
    text.append(username);
    text.append("@");
    text.append(ip_address);
    text.append(":");
    text.append(remote_directory);
    text.append("/");
    text.append(destination_path);
    text
}

/// The command that copies `source_path` under `remote_directory` on the
/// computer at `ip_address` to the local `destination_path`.
pub fn scp_from_remote_command(key_path: &str, username: &str, ip_address: &str, remote_directory: &str, source_path: &str, destination_path: &str) -> (text: String)
    ensures
        text@ == Seq::<char>::empty()
            + "scp -i "@
            + key_path@
            + " -r "@
            + username@
            + "@"@
            + ip_address@
            + ":"@
            + remote_directory@
            + "/"@
            + source_path@
            + " "@
            + destination_path@,
{
    let mut text = String::new();
    text.append("scp -i ");
    text.append(key_path);
    text.append(" -r ");
    text.append(username);
    text.append("@");
    text.append(ip_address);
    text.append(":");
    text.append(remote_directory);
    text.append("/");
    text.append(source_path);
    text.append(" ");
    text.append(destination_path);
    text
}

/// The command that stops every process of `username`.
pub fn stop_remote_processes_command(username: &str) -> (text: String)
    ensures
        text@ == Seq::<char>::empty()
            + "pkill -u "@
            + username@,
{
    let mut text = String::new();
    text.append("pkill -u ");
    text.append(username);
    text
}

/// What the `install` subcommand of the evaluation is given: the hosts file and
/// the build mode flag.
#[derive(Debug)]
pub struct InstallArguments {
    pub hosts_file: String,
    pub optimize_string: String,
}

/// The command the `install` subcommand runs.
pub fn run_install_subcommand_command(arguments: &InstallArguments) -> (text: String)
    ensures
        text@ == "cargo run --manifest-path ../remote_starter/Cargo.toml -- "@ + arguments.hosts_file@ + " -i "@
            + arguments.optimize_string@,
{
    install_command(arguments.hosts_file.as_str(), arguments.optimize_string.as_str())
}

/// The command that installs the application on the hosts of `hosts_file`,
/// through the remote starter.
pub fn install_command(hosts_file: &str, optimize_string: &str) -> (text: String)
    ensures
        text@ == Seq::<char>::empty()
            + "cargo run --manifest-path ../remote_starter/Cargo.toml -- "@
            + hosts_file@
            + " -i "@
            + optimize_string@,
{
    let mut text = String::new();
    text.append("cargo run --manifest-path ../remote_starter/Cargo.toml -- ");
    text.append(hosts_file);
    text.append(" -i ");
    text.append(optimize_string);
    text
}

/// The command that runs one scenario on the hosts of `hosts_file`, through
/// the remote starter, recording evaluation information.
pub fn gather_command(hosts_file: &str, number_of_readers: Int, number_of_writers: Int, optimize_string: &str, run_length_string: &str, print_client_operations_string: &str) -> (text: String)
    ensures
        text@ == Seq::<char>::empty()
            + "cargo run --manifest-path ../remote_starter/Cargo.toml -- "@
            + hosts_file@
            + " -r "@
            + decimal(number_of_readers as int)
            + " -w "@
            + decimal(number_of_writers as int)
            + " -e "@
            + optimize_string@
            + " -l "@
            + run_length_string@
            + " "@
            + print_client_operations_string@,
{
    let mut text = String::new();
    text.append("cargo run --manifest-path ../remote_starter/Cargo.toml -- ");
    text.append(hosts_file);
    text.append(" -r ");
    let number_of_readers_text = decimal_string(number_of_readers);
    text.append(number_of_readers_text.as_str());
    text.append(" -w ");
    let number_of_writers_text = decimal_string(number_of_writers);
    text.append(number_of_writers_text.as_str());
    text.append(" -e ");
    text.append(optimize_string);
    text.append(" -l ");
    text.append(run_length_string);
    text.append(" ");
    text.append(print_client_operations_string);
    text
}

} // verus!
