use vstd::prelude::*;

verus! {

/// A JSON-like value, as blocks produce it. A number is held as its decimal text.
pub enum Value {
    Null,
    Bool(bool),
    Number(String),
    Str(String),
    Array(Vec<Value>),
    Object(Vec<(String, Value)>),
}

/// The enclosing map block and the current iteration, inside a fan-out.
#[derive(Clone, Debug, PartialEq, Eq)]
pub struct MapState {
    pub name: String,
    pub iteration: usize,
}

/// The current input record and its position in the input set.
pub struct InputState {
    pub value: Option<Value>,
    pub index: usize,
}

/// What a block execution may read: the outputs of the blocks that ran before it,
/// keyed by block name, the current input and the map context.
pub struct Env {
    pub state: Vec<(String, Value)>,
    pub input: InputState,
    pub map: Option<MapState>,
}

/// The value stored under `key` in `entries` at or after position `i`: the first
/// such entry wins.
pub open spec fn lookup_from(entries: Seq<(String, Value)>, key: Seq<char>, i: int) -> Option<Value>
    decreases entries.len() - i,
{
    if i < 0 || i >= entries.len() {
        None
    } else if entries[i].0@ == key {
        Some(entries[i].1)
    } else {
        lookup_from(entries, key, i + 1)
    }
}

/// The value stored under `key` in `entries`.
pub open spec fn lookup(entries: Seq<(String, Value)>, key: Seq<char>) -> Option<Value> {
    lookup_from(entries, key, 0)
}

/// The position of the entry that `lookup` reads, if there is one.
pub fn find_entry(entries: &Vec<(String, Value)>, key: &String) -> (r: Option<usize>)
    ensures
        match r {
            Some(i) => i < entries@.len() && entries@[i as int].0@ == key@
                && lookup(entries@, key@) == Some(entries@[i as int].1),
            None => lookup(entries@, key@) is None,
        },
{
    let mut i: usize = 0;
    while i < entries.len()
        invariant
            i <= entries@.len(),
            lookup(entries@, key@) == lookup_from(entries@, key@, i as int),
        decreases entries@.len() - i,
    {
        if entries[i].0 == *key {
            return Some(i);
        }
        i = i + 1;
    }
    None
}

impl Env {
    /// The output recorded for the block `name`.
    pub fn state_get(&self, name: &String) -> (r: Option<&Value>)
        ensures
            match r {
                Some(v) => lookup(self.state@, name@) == Some(*v),
                None => lookup(self.state@, name@) is None,
            },
    {
        match find_entry(&self.state, name) {
            Some(i) => Some(&self.state[i].1),
            None => None,
        }
    }
}

} // verus!
