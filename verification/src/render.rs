use vstd::prelude::*;

use crate::data_types::register::Register;
use crate::data_types::vector::Vector;
use crate::entry::Entry;
use crate::text::{decimal, decimal_string, sorted_ids, strictly_ascending, trim_end, trim_end_string};
use crate::types::{NodeId, Timestamp};

verus! {

/// Values that have a textual form, the one `format!("{}", ..)` writes.
pub trait Render {
    /// The text of `self`.
    spec fn rendered(&self) -> Seq<char>;

    /// The text of `self`.
    fn render(&self) -> (text: String)
        ensures
            text@ == self.rendered();
}

impl Render for i32 {
    open spec fn rendered(&self) -> Seq<char> {
        decimal(*self as int)
    }

    fn render(&self) -> (text: String) {
        decimal_string(*self)
    }
}

impl Render for String {
    open spec fn rendered(&self) -> Seq<char> {
        self@
    }

    fn render(&self) -> (text: String) {
        self.clone()
    }
}

impl<'a> Render for &'a str {
    open spec fn rendered(&self) -> Seq<char> {
        (*self)@
    }

    fn render(&self) -> (text: String) {
        String::from_str(*self)
    }
}

/// The text of a timestamped value: `[ts = <ts>, val = <value>]`.
pub open spec fn stamped_text(ts: Timestamp, value: Seq<char>) -> Seq<char> {
    seq!['[', 't', 's', ' ', '=', ' '] + decimal(ts as int) + seq![',', ' ', 'v', 'a', 'l', ' ', '=', ' ']
        + value + seq![']']
}

/// The text of a timestamped value.
fn stamped_string(ts: Timestamp, value: &str) -> (text: String)
    ensures
        text@ == stamped_text(ts, value@),
{
    proof {
        reveal_strlit("[ts = ");
        reveal_strlit(", val = ");
        reveal_strlit("]");
    }
    let mut text = String::from_str("[ts = ");
    let ts_text = decimal_string(ts);
    text.append(ts_text.as_str());
    text.append(", val = ");
    text.append(value);
    text.append("]");
    text
}

impl<V: Render> Render for Entry<V> {
    open spec fn rendered(&self) -> Seq<char> {
        stamped_text(self.ts, self.val.rendered())
    }

    fn render(&self) -> (text: String) {
        let value = self.val.render();
        stamped_string(self.ts, value.as_str())
    }
}

impl<V: Render> Render for Register<V> {
    open spec fn rendered(&self) -> Seq<char> {
        stamped_text(self.ts, self.val.rendered())
    }

    fn render(&self) -> (text: String) {
        let value = self.val.render();
        stamped_string(self.ts, value.as_str())
    }
}

impl<V: Render> Entry<V> {
    /// The entry's text, `[ts = <ts>, val = <value>]`.
    pub fn to_string(&self) -> (text: String)
        ensures
            text@ == self.rendered(),
    {
        self.render()
    }
}

impl<V: Render> Register<V> {
    /// The register's text, `[ts = <ts>, val = <value>]`.
    pub fn to_string(&self) -> (text: String)
        ensures
            text@ == self.rendered(),
    {
        self.render()
    }
}

/// One line per id of `ids`, in their order: `<id>: <value>` and a line break.
pub open spec fn node_lines<V: Render>(ids: Seq<NodeId>, values: Map<NodeId, V>) -> Seq<char>
    decreases ids.len(),
{
    if ids.len() == 0 {
        Seq::empty()
    } else {
        node_lines(ids.drop_last(), values) + decimal(ids.last() as int) + seq![':', ' ']
            + values[ids.last()].rendered() + seq!['\n']
    }
}

/// The text of a map from nodes to values: one line `<id>: <value>` per node in
/// ascending order of ids, without trailing white space.
pub open spec fn nodes_text<V: Render>(values: Map<NodeId, V>, text: Seq<char>) -> bool {
    exists|ids: Seq<NodeId>| {
        &&& strictly_ascending(ids)
        &&& #[trigger] ids.to_set() == values.dom()
        &&& text == trim_end(node_lines(ids, values))
    }
}

impl<V: Render> Vector<V> {
    /// The vector's text: one line `<id>: <value>` per node in ascending order
    /// of ids, without trailing white space.
    pub fn to_string(&self) -> (text: String)
        ensures
            nodes_text(self@, text@),
    {
        let keys = self.node_id_list();
        let ids = sorted_ids(&keys);
        let mut lines = String::new();
        let mut i: usize = 0;
        while i < ids.len()
            invariant
                i <= ids@.len(),
                ids@.to_set() == self@.dom(),
                lines@ == node_lines(ids@.take(i as int), self@),
            decreases ids@.len() - i,
        {
            proof {
                reveal_strlit(": ");
                reveal_strlit("\n");
            }
            let id = ids[i];
            assert(ids@.to_set().contains(ids@[i as int]));
            let id_text = decimal_string(id);
            lines.append(id_text.as_str());
            lines.append(": ");
            let value_text = self.get(id).render();
            lines.append(value_text.as_str());
            lines.append("\n");
            proof {
                let next = ids@.take(i + 1);
                assert(next.drop_last() =~= ids@.take(i as int));
                assert(next.last() == id);
                assert(node_lines(next, self@) == node_lines(ids@.take(i as int), self@) + decimal(id as int)
                    + seq![':', ' '] + self@[id].rendered() + seq!['\n']);
            }
            i = i + 1;
        }
        assert(ids@.take(ids@.len() as int) =~= ids@);
        trim_end_string(lines.as_str())
    }
}

} // verus!
