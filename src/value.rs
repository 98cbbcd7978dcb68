//! A parsed structured-text document, as the configuration logic reads it.
use vstd::prelude::*;

verus! {

/// One node of a parsed document: a string, a keyed record, a sequence, or
/// a scalar of another kind (integer, boolean, date) that no rule reads.
#[derive(Debug)]
pub enum Value {
    Str(String),
    Table(Vec<(String, Value)>),
    Array(Vec<Value>),
    Other,
}

/// The value bound to `key` in a record's entries; where a key repeats, the
/// later entry wins.
pub open spec fn find_key(entries: Seq<(String, Value)>, key: Seq<char>) -> Option<Value>
    decreases entries.len(),
{
    if entries.len() == 0 {
        None
    } else if entries.last().0@ == key {
        Some(entries.last().1)
    } else {
        find_key(entries.drop_last(), key)
    }
}

/// Looks `key` up in a record's entries.
pub fn lookup<'a>(entries: &'a Vec<(String, Value)>, key: &String) -> (r: Option<&'a Value>)
    ensures
        match r {
            Some(v) => find_key(entries@, key@) == Some(*v),
            None => find_key(entries@, key@) is None,
        },
{
    let mut i: usize = entries.len();
    assert(entries@.subrange(0, i as int) =~= entries@);
    while i > 0
        invariant
            i <= entries@.len(),
            find_key(entries@, key@) == find_key(entries@.subrange(0, i as int), key@),
        decreases i,
    {
        let ghost prefix = entries@.subrange(0, i as int);
        assert(prefix.drop_last() =~= entries@.subrange(0, i - 1));
        if entries[i - 1].0 == *key {
            return Some(&entries[i - 1].1);
        }
        i = i - 1;
    }
    None
}

} // verus!
