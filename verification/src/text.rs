use vstd::prelude::*;

use std::collections::BTreeSet;

use vstd::std_specs::cmp::OrdSpec;
use vstd::std_specs::iter::IteratorSpec;

use crate::types::NodeId;

verus! {

/// The character of a decimal digit `d` (0 to 9).
pub open spec fn digit_char(d: int) -> char {
    if d == 0 { '0' }
    else if d == 1 { '1' }
    else if d == 2 { '2' }
    else if d == 3 { '3' }
    else if d == 4 { '4' }
    else if d == 5 { '5' }
    else if d == 6 { '6' }
    else if d == 7 { '7' }
    else if d == 8 { '8' }
    else { '9' }
}

/// The decimal digits of `n`, most significant first, without leading zeros.
pub open spec fn nat_digits(n: nat) -> Seq<char>
    decreases n,
{
    if n < 10 {
        seq![digit_char(n as int)]
    } else {
        nat_digits(n / 10).push(digit_char((n % 10) as int))
    }
}

/// The decimal representation of `i`, with a leading `-` when negative.
pub open spec fn decimal(i: int) -> Seq<char> {
    if i < 0 {
        seq!['-'] + nat_digits((-i) as nat)
    } else {
        nat_digits(i as nat)
    }
}

/// The one-character string of the digit `d`.
fn digit_str(d: u64) -> (s: &'static str)
    requires
        d < 10,
    ensures
        s@ == seq![digit_char(d as int)],
{
    proof {
        reveal_strlit("0");
        reveal_strlit("1");
        reveal_strlit("2");
        reveal_strlit("3");
        reveal_strlit("4");
        reveal_strlit("5");
        reveal_strlit("6");
        reveal_strlit("7");
        reveal_strlit("8");
        reveal_strlit("9");
    }
    if d == 0 { "0" }
    else if d == 1 { "1" }
    else if d == 2 { "2" }
    else if d == 3 { "3" }
    else if d == 4 { "4" }
    else if d == 5 { "5" }
    else if d == 6 { "6" }
    else if d == 7 { "7" }
    else if d == 8 { "8" }
    else { "9" }
}

/// The decimal digits of `n`.
fn nat_digits_string(n: u64) -> (s: String)
    ensures
        s@ == nat_digits(n as nat),
    decreases n,
{
    if n < 10 {
        String::from_str(digit_str(n))
    } else {
        let mut s = nat_digits_string(n / 10);
        s.append(digit_str(n % 10));
        s
    }
}

/// The decimal representation of `i`, as `format!("{}", i)` writes it.
pub fn decimal_string(i: i32) -> (s: String)
    ensures
        s@ == decimal(i as int),
{
    if i < 0 {
        proof {
            reveal_strlit("-");
        }
        let magnitude: i64 = -(i as i64);
        let mut s = String::from_str("-");
        let digits = nat_digits_string(magnitude as u64);
        s.append(digits.as_str());
        s
    } else {
        nat_digits_string(i as u64)
    }
}

/// Whether `s` begins with `prefix`.
pub fn starts_with(s: &str, prefix: &str) -> (begins: bool)
    ensures
        begins == prefix@.is_prefix_of(s@),
{
    let n = prefix.unicode_len();
    let m = s.unicode_len();
    if n > m {
        return false;
    }
    let mut i: usize = 0;
    while i < n
        invariant
            n == prefix@.len(),
            m == s@.len(),
            n <= m,
            i <= n,
            forall|j: int| 0 <= j < i ==> s@[j] == prefix@[j],
        decreases n - i,
    {
        if s.get_char(i) != prefix.get_char(i) {
            return false;
        }
        i = i + 1;
    }
    assert(prefix@ =~= s@.subrange(0, n as int));
    true
}

/// `c` has the Unicode `White_Space` property.
pub open spec fn is_white_space(c: char) -> bool {
    let u = c as u32;
    ||| 0x9 <= u <= 0xD
    ||| u == 0x20
    ||| u == 0x85
    ||| u == 0xA0
    ||| u == 0x1680
    ||| 0x2000 <= u <= 0x200A
    ||| u == 0x2028
    ||| u == 0x2029
    ||| u == 0x202F
    ||| u == 0x205F
    ||| u == 0x3000
}

/// Whether `c` has the Unicode `White_Space` property, as `char::is_whitespace`
/// tells.
fn char_is_whitespace(c: char) -> (white: bool)
    ensures
        white == is_white_space(c),
{
    let u = c as u32;
    (0x9 <= u && u <= 0xD) || u == 0x20 || u == 0x85 || u == 0xA0 || u == 0x1680 || (0x2000 <= u && u <= 0x200A)
        || u == 0x2028 || u == 0x2029 || u == 0x202F || u == 0x205F || u == 0x3000
}

/// `s` without its trailing white space.
pub open spec fn trim_end(s: Seq<char>) -> Seq<char>
    decreases s.len(),
{
    if s.len() > 0 && is_white_space(s.last()) {
        trim_end(s.drop_last())
    } else {
        s
    }
}

/// `s` without its trailing white space, as `str::trim_end` gives it.
pub fn trim_end_string(s: &str) -> (trimmed: String)
    ensures
        trimmed@ == trim_end(s@),
{
    let mut end = s.unicode_len();
    assert(s@.subrange(0, end as int) =~= s@);
    while end > 0 && char_is_whitespace(s.get_char(end - 1))
        invariant
            end <= s@.len(),
            trim_end(s@) == trim_end(s@.subrange(0, end as int)),
        decreases end,
    {
        assert(s@.subrange(0, end - 1) =~= s@.subrange(0, end as int).drop_last());
        end = end - 1;
    }
    assert(trim_end(s@.subrange(0, end as int)) == s@.subrange(0, end as int));
    String::from_str(s.substring_char(0, end))
}

/// `ids` is in strictly ascending order.
pub open spec fn strictly_ascending(ids: Seq<NodeId>) -> bool {
    forall|i: int, j: int| 0 <= i < j < ids.len() ==> ids[i] < ids[j]
}

/// Node ids are ordered as `Ord` promises.
proof fn lemma_ids_are_ordered()
    ensures
        vstd::laws_cmp::obeys_cmp::<NodeId>(),
{
    broadcast use vstd::laws_cmp::group_laws_cmp;
}

/// Keys in increasing order, as a `BTreeSet` gives them, ascend.
proof fn lemma_ascending_keys(keys: Seq<&NodeId>)
    requires
        vstd::std_specs::btree::increasing_seq(keys),
    ensures
        forall|i: int, j: int| 0 <= i < j < keys.len() ==> *keys[i] < *keys[j],
{
    broadcast use vstd::std_specs::btree::group_btree_axioms, vstd::laws_cmp::group_laws_cmp;

    assert(vstd::laws_cmp::obeys_cmp::<NodeId>());
    assert(vstd::laws_cmp::obeys_cmp::<&NodeId>());
    assert forall|i: int, j: int| 0 <= i < j < keys.len() implies *keys[i] < *keys[j] by {
        assert(OrdSpec::cmp_spec(&keys[i], &keys[j]) is Less);
    }
}

/// The ids of `ids`, each once, in ascending order: gathered in a `BTreeSet`,
/// which holds them in order.
pub fn sorted_ids(ids: &Vec<NodeId>) -> (sorted: Vec<NodeId>)
    ensures
        strictly_ascending(sorted@),
        sorted@.to_set() == ids@.to_set(),
{
    broadcast use vstd::std_specs::btree::group_btree_axioms;

    proof {
        lemma_ids_are_ordered();
    }
    let mut set: BTreeSet<NodeId> = BTreeSet::new();
    let mut k: usize = 0;
    while k < ids.len()
        invariant
            k <= ids@.len(),
            set@ == ids@.take(k as int).to_set(),
        decreases ids@.len() - k,
    {
        proof {
            assert(ids@.take(k + 1) =~= ids@.take(k as int).push(ids@[k as int]));
            ids@.take(k as int).lemma_push_to_set_commute(ids@[k as int]);
        }
        set.insert(ids[k]);
        k = k + 1;
    }
    assert(ids@.take(ids@.len() as int) =~= ids@);
    let mut sorted: Vec<NodeId> = Vec::new();
    let ghost keys = set.iter().remaining();
    assert(vstd::std_specs::btree::increasing_seq(keys));
    let ghost mut visited: int = 0;
    for id in it: set.iter()
        invariant
            keys == it.seq(),
            visited == it.index(),
            sorted@ == keys.unref().take(visited),
    {
        sorted.push(*id);
        proof {
            assert(keys.unref().take(visited + 1) =~= keys.unref().take(visited).push(*id));
            visited = visited + 1;
        }
    }
    proof {
        assert(keys.unref().take(visited) =~= keys.unref());
        lemma_ascending_keys(keys);
    }
    sorted
}

} // verus!
