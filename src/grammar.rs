use crate::block_type::ParseError;
use vstd::prelude::*;
use vstd::string::*;

verus! {

/// One child of a parsed `key: value` pair, with the text that it spans.
pub enum Fragment {
    /// The key.
    Key(String),
    /// A plain string value.
    Text(String),
    /// A multiline value, fences included.
    Multiline(String),
}

/// A multiline literal ends with a newline followed by its 3-character close
/// fence, after a 3-character open fence and its newline.
pub open spec fn multiline_ok(t: Seq<char>) -> bool {
    t.len() >= 7 && t[t.len() - 4] == '\n'
}

/// The content of a multiline literal: what lies between the newline that
/// follows the open fence and the close fence.
pub open spec fn multiline_body(t: Seq<char>) -> Seq<char> {
    t.subrange(4, t.len() - 3)
}

/// A fragment that reads without error.
pub open spec fn fragment_ok(f: Fragment) -> bool {
    match f {
        Fragment::Multiline(s) => multiline_ok(s@),
        _ => true,
    }
}

/// The text of the last key among `fs`.
pub open spec fn last_key(fs: Seq<Fragment>) -> Option<Seq<char>>
    decreases fs.len(),
{
    if fs.len() == 0 {
        None
    } else {
        match fs.last() {
            Fragment::Key(s) => Some(s@),
            _ => last_key(fs.drop_last()),
        }
    }
}

/// The value given by the last value fragment among `fs`.
pub open spec fn last_value(fs: Seq<Fragment>) -> Option<Seq<char>>
    decreases fs.len(),
{
    if fs.len() == 0 {
        None
    } else {
        match fs.last() {
            Fragment::Text(s) => Some(s@),
            Fragment::Multiline(s) => Some(multiline_body(s@)),
            Fragment::Key(_) => last_value(fs.drop_last()),
        }
    }
}

/// The `(key, value)` pair that the children `fs` of a pair node give.
pub open spec fn pair_of(fs: Seq<Fragment>) -> Result<(Seq<char>, Seq<char>), ParseError> {
    if exists|i: int| 0 <= i < fs.len() && !fragment_ok(#[trigger] fs[i]) {
        Err(ParseError::MalformedMultiline)
    } else {
        match (last_key(fs), last_value(fs)) {
            (Some(k), Some(v)) => Ok((k, v)),
            (None, _) => Err(ParseError::MissingKey),
            (_, None) => Err(ParseError::MissingValue),
        }
    }
}

/// The content of the multiline literal `s`; a literal that does not end with a
/// newline before its close fence is an error.
pub fn parse_multiline(s: &str) -> (r: Result<String, ParseError>)
    ensures
        match r {
            Ok(v) => multiline_ok(s@) && v@ == multiline_body(s@),
            Err(e) => !multiline_ok(s@) && e == ParseError::MalformedMultiline,
        },
{
    let n = s.unicode_len();
    if n < 7 || s.get_char(n - 4) != '\n' {
        return Err(ParseError::MalformedMultiline);
    }
    Ok(s.substring_char(4, n - 3).to_owned())
}

/// Reads a `key: value` pair from the children of a pair node: the key, and a
/// plain string or the content of a multiline literal as the value.
pub fn parse_pair(children: &Vec<Fragment>) -> (r: Result<(String, String), ParseError>)
    ensures
        match pair_of(children@) {
            Ok((k, v)) => r matches Ok(p) && p.0@ == k && p.1@ == v,
            Err(e) => r matches Err(f) && f == e,
        },
{
    let mut key: Option<String> = None;
    let mut value: Option<String> = None;
    let mut i: usize = 0;
    while i < children.len()
        invariant
            i <= children@.len(),
            forall|j: int| 0 <= j < i ==> fragment_ok(#[trigger] children@[j]),
            match key {
                Some(k) => last_key(children@.subrange(0, i as int)) == Some(k@),
                None => last_key(children@.subrange(0, i as int)) is None,
            },
            match value {
                Some(v) => last_value(children@.subrange(0, i as int)) == Some(v@),
                None => last_value(children@.subrange(0, i as int)) is None,
            },
        decreases children@.len() - i,
    {
        let ghost prefix = children@.subrange(0, i + 1);
        assert(prefix.drop_last() =~= children@.subrange(0, i as int));
        match &children[i] {
            Fragment::Key(s) => {
                key = Some(s.clone());
            },
            Fragment::Text(s) => {
                value = Some(s.clone());
            },
            Fragment::Multiline(s) => {
                match parse_multiline(s.as_str()) {
                    Ok(v) => {
                        value = Some(v);
                    },
                    Err(e) => {
                        assert(!fragment_ok(children@[i as int]));
                        return Err(e);
                    },
                }
            },
        }
        i = i + 1;
    }
    assert(children@.subrange(0, i as int) =~= children@);
    match (key, value) {
        (Some(k), Some(v)) => Ok((k, v)),
        (None, _) => Err(ParseError::MissingKey),
        (_, None) => Err(ParseError::MissingValue),
    }
}

} // verus!
