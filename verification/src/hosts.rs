use vstd::prelude::*;

use crate::parse::{lines, lines_of, parse_i32, parsed_i32, split_at_char, split_string, string_views};
use crate::types::NodeId;

verus! {

/// One line of a hosts file, `<id>,<address>`: the node id and the text of
/// its socket address.
#[derive(Debug)]
pub struct HostEntry {
    pub node_id: NodeId,
    pub address: String,
}

/// One line of a hosts file for remote runs,
/// `<id>,<address>,<key path>,<username>,<install script path>`.
#[derive(Debug)]
pub struct HostRecord {
    pub node_id: NodeId,
    pub address: String,
    pub key_path: String,
    pub username: String,
    pub script_path: String,
}

/// The line has at least `fields` comma-separated fields and the first is a
/// node id.
pub open spec fn host_line_valid(line: Seq<char>, fields: int) -> bool {
    let parts = split_at_char(line, ',');
    parts.len() >= fields && parsed_i32(parts[0]) is Some
}

/// Every line of `text` is a host line of at least `fields` fields.
pub open spec fn hosts_text_valid(text: Seq<char>, fields: int) -> bool {
    forall|i: int| 0 <= i < lines_of(text).len() ==> #[trigger] host_line_valid(lines_of(text)[i], fields)
}

/// The node id of a host line.
pub open spec fn host_line_id(line: Seq<char>) -> NodeId {
    parsed_i32(split_at_char(line, ',')[0])->0
}

/// The `k`th field of a host line.
pub open spec fn host_line_field(line: Seq<char>, k: int) -> Seq<char> {
    split_at_char(line, ',')[k]
}

/// The node ids and socket address texts of a hosts file, one
/// `<id>,<address>` per line, in the order of the lines.
pub fn host_entries_from_string(string: &str) -> (entries: Vec<HostEntry>)
    requires
        hosts_text_valid(string@, 2),
    ensures
        entries@.len() == lines_of(string@).len(),
        forall|i: int| 0 <= i < entries@.len() ==> {
            &&& (#[trigger] entries@[i]).node_id == host_line_id(lines_of(string@)[i])
            &&& entries@[i].address@ == host_line_field(lines_of(string@)[i], 1)
        },
{
    let lines = lines(string);
    let ghost all = lines_of(string@);
    assert(string_views(lines@).len() == lines@.len());
    let mut entries: Vec<HostEntry> = Vec::new();
    let mut i: usize = 0;
    while i < lines.len()
        invariant
            string_views(lines@) == all,
            all == lines_of(string@),
            hosts_text_valid(string@, 2),
            i <= lines@.len(),
            entries@.len() == i,
            forall|j: int| 0 <= j < i ==> {
                &&& (#[trigger] entries@[j]).node_id == host_line_id(all[j])
                &&& entries@[j].address@ == host_line_field(all[j], 1)
            },
        decreases lines@.len() - i,
    {
        assert(string_views(lines@)[i as int] == lines@[i as int]@);
        assert(host_line_valid(all[i as int], 2));
        let parts = split_string(lines[i].as_str(), ',');
        assert(string_views(parts@).len() == parts@.len());
        assert(string_views(parts@)[0] == parts@[0]@);
        assert(string_views(parts@)[1] == parts@[1]@);
        let node_id = parse_i32(parts[0].as_str()).unwrap();
        let address = parts[1].clone();
        entries.push(HostEntry { node_id: node_id, address: address });
        i = i + 1;
    }
    entries
}

/// The records of a hosts file for remote runs, one
/// `<id>,<address>,<key path>,<username>,<install script path>` per line, in
/// the order of the lines.
pub fn host_records_from_string(string: &str) -> (records: Vec<HostRecord>)
    requires
        hosts_text_valid(string@, 5),
    ensures
        records@.len() == lines_of(string@).len(),
        forall|i: int| 0 <= i < records@.len() ==> {
            let line = lines_of(string@)[i];
            &&& (#[trigger] records@[i]).node_id == host_line_id(line)
            &&& records@[i].address@ == host_line_field(line, 1)
            &&& records@[i].key_path@ == host_line_field(line, 2)
            &&& records@[i].username@ == host_line_field(line, 3)
            &&& records@[i].script_path@ == host_line_field(line, 4)
        },
{
    let lines = lines(string);
    let ghost all = lines_of(string@);
    assert(string_views(lines@).len() == lines@.len());
    let mut records: Vec<HostRecord> = Vec::new();
    let mut i: usize = 0;
    while i < lines.len()
        invariant
            string_views(lines@) == all,
            all == lines_of(string@),
            hosts_text_valid(string@, 5),
            i <= lines@.len(),
            records@.len() == i,
            forall|j: int| 0 <= j < i ==> {
                let line = all[j];
                &&& (#[trigger] records@[j]).node_id == host_line_id(line)
                &&& records@[j].address@ == host_line_field(line, 1)
                &&& records@[j].key_path@ == host_line_field(line, 2)
                &&& records@[j].username@ == host_line_field(line, 3)
                &&& records@[j].script_path@ == host_line_field(line, 4)
            },
        decreases lines@.len() - i,
    {
        assert(string_views(lines@)[i as int] == lines@[i as int]@);
        assert(host_line_valid(all[i as int], 5));
        let parts = split_string(lines[i].as_str(), ',');
        assert(string_views(parts@).len() == parts@.len());
        assert(string_views(parts@)[0] == parts@[0]@);
        assert(string_views(parts@)[1] == parts@[1]@);
        assert(string_views(parts@)[2] == parts@[2]@);
        assert(string_views(parts@)[3] == parts@[3]@);
        assert(string_views(parts@)[4] == parts@[4]@);
        let node_id = parse_i32(parts[0].as_str()).unwrap();
        let record = HostRecord {
            node_id: node_id,
            address: parts[1].clone(),
            key_path: parts[2].clone(),
            username: parts[3].clone(),
            script_path: parts[4].clone(),
        };
        records.push(record);
        i = i + 1;
    }
    records
}

/// The text of a host record, field by field.
pub open spec fn host_record_view(record: HostRecord) -> (NodeId, Seq<char>, Seq<char>, Seq<char>, Seq<char>) {
    (record.node_id, record.address@, record.key_path@, record.username@, record.script_path@)
}

/// The texts of a sequence of host records.
pub open spec fn host_record_views(records: Seq<HostRecord>) -> Seq<(NodeId, Seq<char>, Seq<char>, Seq<char>, Seq<char>)> {
    Seq::new(records.len(), |i: int| host_record_view(records[i]))
}

/// Whether two host records agree in every field.
fn same_host_record(a: &HostRecord, b: &HostRecord) -> (same: bool)
    ensures
        same == (host_record_view(*a) == host_record_view(*b)),
{
    a.node_id == b.node_id && a.address == b.address && a.key_path == b.key_path && a.username == b.username
        && a.script_path == b.script_path
}

/// A copy of a host record.
fn copy_host_record(record: &HostRecord) -> (copy: HostRecord)
    ensures
        host_record_view(copy) == host_record_view(*record),
{
    HostRecord {
        node_id: record.node_id,
        address: record.address.clone(),
        key_path: record.key_path.clone(),
        username: record.username.clone(),
        script_path: record.script_path.clone(),
    }
}

/// The records of a hosts file as a set: each distinct record once, at its
/// first occurrence.
pub fn distinct_host_records(records: &Vec<HostRecord>) -> (distinct: Vec<HostRecord>)
    ensures
        host_record_views(distinct@).no_duplicates(),
        host_record_views(distinct@).to_set() == host_record_views(records@).to_set(),
{
    let ghost all = host_record_views(records@);
    let mut distinct: Vec<HostRecord> = Vec::new();
    let mut i: usize = 0;
    while i < records.len()
        invariant
            all == host_record_views(records@),
            i <= records@.len(),
            host_record_views(distinct@).no_duplicates(),
            host_record_views(distinct@).to_set() == all.take(i as int).to_set(),
        decreases records@.len() - i,
    {
        let mut seen = false;
        let mut k: usize = 0;
        while k < distinct.len()
            invariant
                k <= distinct@.len(),
                i < records@.len(),
                seen <==> exists|m: int| 0 <= m < k && host_record_view(distinct@[m]) == host_record_view(records@[i as int]),
            decreases distinct@.len() - k,
        {
            if same_host_record(&distinct[k], &records[i]) {
                seen = true;
            }
            k = k + 1;
        }
        let ghost before = host_record_views(distinct@);
        let ghost v = host_record_view(records@[i as int]);
        proof {
            assert(all.take(i + 1) =~= all.take(i as int).push(v));
            all.take(i as int).lemma_push_to_set_commute(v);
        }
        if !seen {
            let copy = copy_host_record(&records[i]);
            distinct.push(copy);
            proof {
                assert(host_record_views(distinct@) =~= before.push(v));
                assert(!before.contains(v)) by {
                    if before.contains(v) {
                        let m = before.index_of(v);
                        assert(host_record_view(distinct@[m]) == v);
                    }
                }
                before.lemma_push_to_set_commute(v);
            }
        } else {
            proof {
                let m = choose|m: int| 0 <= m < distinct@.len() && host_record_view(distinct@[m]) == v;
                assert(before[m] == v);
                assert(before.to_set().contains(v));
                assert(before.to_set().insert(v) =~= before.to_set());
            }
        }
        i = i + 1;
    }
    assert(all.take(records@.len() as int) =~= all);
    distinct
}

/// Whether every line of `string` is a host line of at least `fields` fields.
pub fn hosts_string_is_valid(string: &str, fields: usize) -> (valid: bool)
    ensures
        valid == hosts_text_valid(string@, fields as int),
{
    let lines = lines(string);
    let ghost all = lines_of(string@);
    assert(string_views(lines@).len() == lines@.len());
    let mut i: usize = 0;
    while i < lines.len()
        invariant
            string_views(lines@) == all,
            all == lines_of(string@),
            i <= lines@.len(),
            forall|j: int| 0 <= j < i ==> #[trigger] host_line_valid(all[j], fields as int),
        decreases lines@.len() - i,
    {
        assert(string_views(lines@)[i as int] == lines@[i as int]@);
        let parts = split_string(lines[i].as_str(), ',');
        assert(string_views(parts@).len() == parts@.len());
        if parts.len() < fields || parts.len() == 0 {
            assert(!host_line_valid(all[i as int], fields as int));
            return false;
        }
        assert(string_views(parts@)[0] == parts@[0]@);
        if parse_i32(parts[0].as_str()).is_none() {
            assert(!host_line_valid(all[i as int], fields as int));
            return false;
        }
        i = i + 1;
    }
    true
}

/// The address at `j` is also at one of `indices`.
pub open spec fn host_listed(addresses: Seq<String>, indices: Seq<usize>, j: int) -> bool {
    exists|k: int| 0 <= k < indices.len() && addresses[indices[k] as int]@ == addresses[j]@
}

/// For each distinct address of `addresses`, the index of its first
/// occurrence, in ascending order.
pub fn first_index_of_each_host(addresses: &Vec<String>) -> (indices: Vec<usize>)
    ensures
        forall|k: int, m: int| 0 <= k < m < indices@.len() ==> indices@[k] < indices@[m],
        forall|k: int| 0 <= k < indices@.len() ==> {
            &&& #[trigger] indices@[k] < addresses@.len()
            &&& forall|j: int| 0 <= j < indices@[k] ==> (#[trigger] addresses@[j])@ != addresses@[indices@[k] as int]@
        },
        forall|j: int| 0 <= j < addresses@.len() ==> #[trigger] host_listed(addresses@, indices@, j),
{
    let mut indices: Vec<usize> = Vec::new();
    let mut i: usize = 0;
    while i < addresses.len()
        invariant
            i <= addresses@.len(),
            forall|k: int, m: int| 0 <= k < m < indices@.len() ==> indices@[k] < indices@[m],
            forall|k: int| 0 <= k < indices@.len() ==> {
                &&& #[trigger] indices@[k] < i
                &&& forall|j: int| 0 <= j < indices@[k] ==> (#[trigger] addresses@[j])@ != addresses@[indices@[k] as int]@
            },
            forall|j: int| 0 <= j < i ==> #[trigger] host_listed(addresses@, indices@, j),
        decreases addresses@.len() - i,
    {
        let mut seen = false;
        let mut j: usize = 0;
        while j < i
            invariant
                j <= i,
                i < addresses@.len(),
                seen <==> exists|m: int| 0 <= m < j && addresses@[m]@ == addresses@[i as int]@,
            decreases i - j,
        {
            if addresses[j] == addresses[i] {
                seen = true;
            }
            j = j + 1;
        }
        let ghost before = indices@;
        if !seen {
            indices.push(i);
        } else {
            proof {
                let m = choose|m: int| 0 <= m < i && addresses@[m]@ == addresses@[i as int]@;
                assert(host_listed(addresses@, before, m));
            }
        }
        proof {
            assert forall|j: int| 0 <= j < i + 1 implies #[trigger] host_listed(addresses@, indices@, j) by {
                if j < i {
                    assert(host_listed(addresses@, before, j));
                    let k = choose|k: int| 0 <= k < before.len() && addresses@[before[k] as int]@ == addresses@[j]@;
                    assert(indices@[k] == before[k]);
                } else if !seen {
                    assert(indices@[before.len() as int] == i);
                } else {
                    let m = choose|m: int| 0 <= m < i && addresses@[m]@ == addresses@[i as int]@;
                    assert(host_listed(addresses@, before, m));
                    let k = choose|k: int| 0 <= k < before.len() && addresses@[before[k] as int]@ == addresses@[m]@;
                    assert(indices@[k] == before[k]);
                }
            }
        }
        i = i + 1;
    }
    indices
}

} // verus!
