use vstd::prelude::*;

use crate::parse::{
    lemma_decimal_characters, lemma_parse_decimal, lemma_split_scan_plain, lemma_split_scan_separator, lines,
    lines_of, parse_i32, parsed_i32, split_at_char, split_scan, split_string, string_views,
};
use crate::text::{decimal, decimal_string};
use crate::types::Int;

verus! {

/// A run to evaluate: how many nodes take part, how many of them read, and how
/// many write.
#[derive(Debug, PartialEq, Eq, Structural, Hash, Copy, Clone)]
pub struct Scenario {
    pub number_of_nodes: Int,
    pub number_of_readers: Int,
    pub number_of_writers: Int,
}

/// The text of a scenario: `Scenario,<nodes>,<readers>,<writers>`.
pub open spec fn scenario_text(scenario: Scenario) -> Seq<char> {
    seq!['S', 'c', 'e', 'n', 'a', 'r', 'i', 'o', ','] + decimal(scenario.number_of_nodes as int) + seq![',']
        + decimal(scenario.number_of_readers as int) + seq![','] + decimal(scenario.number_of_writers as int)
}

/// The scenario a text of the form `Scenario,<nodes>,<readers>,<writers>`
/// denotes; what follows a fourth comma is ignored.
pub open spec fn scenario_of_text(text: Seq<char>) -> Option<Scenario> {
    let parts = split_at_char(text, ',');
    if parts.len() >= 4 && parsed_i32(parts[1]) is Some && parsed_i32(parts[2]) is Some
        && parsed_i32(parts[3]) is Some && parts[0] == seq!['S', 'c', 'e', 'n', 'a', 'r', 'i', 'o'] {
        Some(Scenario {
            number_of_nodes: parsed_i32(parts[1])->0,
            number_of_readers: parsed_i32(parts[2])->0,
            number_of_writers: parsed_i32(parts[3])->0,
        })
    } else {
        None
    }
}

/// The scenario a line `<nodes>,<readers>,<writers>` of a scenario file
/// denotes; what follows a third comma is ignored.
pub open spec fn scenario_of_line(line: Seq<char>) -> Option<Scenario> {
    let parts = split_at_char(line, ',');
    if parts.len() >= 3 && parsed_i32(parts[0]) is Some && parsed_i32(parts[1]) is Some
        && parsed_i32(parts[2]) is Some {
        Some(Scenario {
            number_of_nodes: parsed_i32(parts[0])->0,
            number_of_readers: parsed_i32(parts[1])->0,
            number_of_writers: parsed_i32(parts[2])->0,
        })
    } else {
        None
    }
}

/// Every line of `text` denotes a scenario.
pub open spec fn scenario_file_valid(text: Seq<char>) -> bool {
    forall|i: int| 0 <= i < lines_of(text).len() ==> (#[trigger] scenario_of_line(lines_of(text)[i])) is Some
}

/// The scenarios the lines of `text` denote.
pub open spec fn scenarios_of_file(text: Seq<char>) -> Set<Scenario> {
    Set::new(|scenario: Scenario| exists|i: int| 0 <= i < lines_of(text).len()
        && #[trigger] scenario_of_line(lines_of(text)[i]) == Some(scenario))
}

/// The decimal representation of a number holds no comma.
proof fn lemma_decimal_has_no_comma(i: int)
    ensures
        !decimal(i).contains(','),
{
    if decimal(i).contains(',') {
        lemma_decimal_characters(i, ',');
    }
}

/// A scenario's text reads back as the same scenario, which is what lets a
/// scenario be stored under its text as a key and found again.
pub proof fn lemma_scenario_text_round_trip(scenario: Scenario)
    ensures
        scenario_of_text(scenario_text(scenario)) == Some(scenario),
{
    let name = seq!['S', 'c', 'e', 'n', 'a', 'r', 'i', 'o'];
    let d1 = decimal(scenario.number_of_nodes as int);
    let d2 = decimal(scenario.number_of_readers as int);
    let d3 = decimal(scenario.number_of_writers as int);
    lemma_decimal_has_no_comma(scenario.number_of_nodes as int);
    lemma_decimal_has_no_comma(scenario.number_of_readers as int);
    lemma_decimal_has_no_comma(scenario.number_of_writers as int);
    let empty = Seq::<char>::empty();
    assert(!name.contains(',')) by {
        if name.contains(',') {
            let k = choose|k: int| 0 <= k < name.len() && name[k] == ',';
            assert(name[k] != ',');
        }
    }
    assert(split_scan(empty, ',') == (Seq::<Seq<char>>::empty(), empty));
    lemma_split_scan_plain(empty, name, ',');
    assert(empty + name =~= name);
    let t1 = name.push(',');
    lemma_split_scan_separator(name, ',');
    let t2 = t1 + d1;
    lemma_split_scan_plain(t1, d1, ',');
    let t3 = t2.push(',');
    lemma_split_scan_separator(t2, ',');
    let t4 = t3 + d2;
    lemma_split_scan_plain(t3, d2, ',');
    let t5 = t4.push(',');
    lemma_split_scan_separator(t4, ',');
    let t6 = t5 + d3;
    lemma_split_scan_plain(t5, d3, ',');
    assert(empty + d1 =~= d1);
    assert(empty + d2 =~= d2);
    assert(empty + d3 =~= d3);
    assert(scenario_text(scenario) =~= t6);
    let parts = split_at_char(scenario_text(scenario), ',');
    assert(parts =~= seq![name, d1, d2, d3]);
    lemma_parse_decimal(scenario.number_of_nodes);
    lemma_parse_decimal(scenario.number_of_readers);
    lemma_parse_decimal(scenario.number_of_writers);
}

impl Scenario {
    pub fn new(number_of_nodes: Int, number_of_readers: Int, number_of_writers: Int) -> (scenario: Scenario)
        ensures
            scenario.number_of_nodes == number_of_nodes,
            scenario.number_of_readers == number_of_readers,
            scenario.number_of_writers == number_of_writers,
    {
        Scenario {
            number_of_nodes: number_of_nodes,
            number_of_readers: number_of_readers,
            number_of_writers: number_of_writers,
        }
    }

    /// The scenario's text, `Scenario,<nodes>,<readers>,<writers>`, under which
    /// it is stored as a key.
    pub fn to_string(&self) -> (text: String)
        ensures
            text@ == scenario_text(*self),
    {
        proof {
            reveal_strlit("Scenario,");
            reveal_strlit(",");
        }
        let mut text = String::from_str("Scenario,");
        let nodes = decimal_string(self.number_of_nodes);
        text.append(nodes.as_str());
        text.append(",");
        let readers = decimal_string(self.number_of_readers);
        text.append(readers.as_str());
        text.append(",");
        let writers = decimal_string(self.number_of_writers);
        text.append(writers.as_str());
        text
    }

    /// The scenario of a text `Scenario,<nodes>,<readers>,<writers>`; `None` when
    /// the text is not of that form. A stored scenario key that does not read
    /// back is a corrupt result file: the callers stop with a panic on `None`,
    /// the library itself never panics.
    pub fn from_string(text: &str) -> (scenario: Option<Scenario>)
        ensures
            scenario == scenario_of_text(text@),
    {
        proof {
            reveal_strlit("Scenario");
            assert("Scenario"@ =~= seq!['S', 'c', 'e', 'n', 'a', 'r', 'i', 'o']);
        }
        let parts = split_string(text, ',');
        assert(string_views(parts@).len() == parts@.len());
        if parts.len() < 4 {
            return None;
        }
        assert(string_views(parts@)[1] == parts@[1]@);
        assert(string_views(parts@)[2] == parts@[2]@);
        assert(string_views(parts@)[3] == parts@[3]@);
        assert(string_views(parts@)[0] == parts@[0]@);
        let number_of_nodes = parse_i32(parts[1].as_str());
        let number_of_readers = parse_i32(parts[2].as_str());
        let number_of_writers = parse_i32(parts[3].as_str());
        match (number_of_nodes, number_of_readers, number_of_writers) {
            (Some(n), Some(r), Some(w)) => {
                if parts[0] == String::from_str("Scenario") {
                    Some(Scenario::new(n, r, w))
                } else {
                    None
                }
            },
            _ => None,
        }
    }
}

/// The scenario a line `<nodes>,<readers>,<writers>` denotes; `None` when the
/// line is not of that form.
pub fn parse_scenario_line(line: &str) -> (scenario: Option<Scenario>)
    ensures
        scenario == scenario_of_line(line@),
{
    let parts = split_string(line, ',');
    assert(string_views(parts@).len() == parts@.len());
    if parts.len() < 3 {
        return None;
    }
    assert(string_views(parts@)[0] == parts@[0]@);
    assert(string_views(parts@)[1] == parts@[1]@);
    assert(string_views(parts@)[2] == parts@[2]@);
    let number_of_nodes = parse_i32(parts[0].as_str());
    let number_of_readers = parse_i32(parts[1].as_str());
    let number_of_writers = parse_i32(parts[2].as_str());
    match (number_of_nodes, number_of_readers, number_of_writers) {
        (Some(n), Some(r), Some(w)) => Some(Scenario::new(n, r, w)),
        _ => None,
    }
}

/// The scenarios of a scenario file, one `<nodes>,<readers>,<writers>` per
/// line, each once, in the order they first appear.
pub fn scenarios_from_string(string: &str) -> (scenarios: Vec<Scenario>)
    requires
        scenario_file_valid(string@),
    ensures
        scenarios@.no_duplicates(),
        scenarios@.to_set() == scenarios_of_file(string@),
{
    let lines = lines(string);
    let ghost all = lines_of(string@);
    assert(string_views(lines@).len() == lines@.len());
    let mut scenarios: Vec<Scenario> = Vec::new();
    let mut i: usize = 0;
    while i < lines.len()
        invariant
            string_views(lines@) == all,
            all == lines_of(string@),
            scenario_file_valid(string@),
            i <= lines@.len(),
            scenarios@.no_duplicates(),
            forall|s: Scenario| scenarios@.contains(s) <==> exists|j: int| 0 <= j < i
                && #[trigger] scenario_of_line(all[j]) == Some(s),
        decreases lines@.len() - i,
    {
        assert(string_views(lines@)[i as int] == lines@[i as int]@);
        let parsed = parse_scenario_line(lines[i].as_str());
        assert(scenario_of_line(all[i as int]) is Some);
        let scenario = parsed.unwrap();
        let mut k: usize = 0;
        let mut seen = false;
        while k < scenarios.len()
            invariant
                k <= scenarios@.len(),
                seen <==> exists|m: int| 0 <= m < k && scenarios@[m] == scenario,
            decreases scenarios@.len() - k,
        {
            if scenarios[k] == scenario {
                seen = true;
            }
            k = k + 1;
        }
        let ghost before = scenarios@;
        if !seen {
            scenarios.push(scenario);
        }
        proof {
            assert forall|s: Scenario| scenarios@.contains(s) <==> exists|j: int| 0 <= j < i + 1
                && #[trigger] scenario_of_line(all[j]) == Some(s) by {
                if scenarios@.contains(s) && !before.contains(s) {
                    assert(s == scenario);
                    assert(scenario_of_line(all[i as int]) == Some(s));
                }
                if exists|j: int| 0 <= j < i + 1 && #[trigger] scenario_of_line(all[j]) == Some(s) {
                    let j = choose|j: int| 0 <= j < i + 1 && #[trigger] scenario_of_line(all[j]) == Some(s);
                    if j == i {
                        if seen {
                            let m = choose|m: int| 0 <= m < before.len() && before[m] == scenario;
                            assert(before.contains(s));
                        } else {
                            assert(scenarios@[before.len() as int] == s);
                        }
                    }
                    assert(before.contains(s) ==> scenarios@.contains(s)) by {
                        if before.contains(s) {
                            let m = before.index_of(s);
                            assert(scenarios@[m] == s);
                        }
                    }
                }
            }
        }
        i = i + 1;
    }
    assert(scenarios@.to_set() =~= scenarios_of_file(string@));
    scenarios
}

/// The sizes of a run, as the evaluation records them.
#[derive(Debug, PartialEq, Eq, Structural, Hash)]
pub struct RunScenario {
    pub number_of_nodes: usize,
    pub number_of_readers: usize,
    pub number_of_writers: usize,
}

impl RunScenario {
    pub fn new() -> (scenario: RunScenario)
        ensures
            scenario.number_of_nodes == 0,
            scenario.number_of_readers == 0,
            scenario.number_of_writers == 0,
    {
        RunScenario { number_of_nodes: 0, number_of_readers: 0, number_of_writers: 0 }
    }
}

} // verus!
