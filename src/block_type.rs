use vstd::prelude::*;
use vstd::string::*;

verus! {

/// Failure to turn DSL text into configuration.
#[derive(Clone, Copy, PartialEq, Eq, Structural, Debug, Hash)]
pub enum ParseError {
    /// The identifier names no block kind.
    UnknownBlockType,
    /// A multiline literal does not end with a newline followed by its close fence.
    MalformedMultiline,
    /// A pair fragment holds no key.
    MissingKey,
    /// A pair fragment holds no value.
    MissingValue,
}

/// The closed set of block kinds.
#[derive(Clone, Copy, PartialEq, Eq, Structural, Debug, Hash)]
pub enum BlockType {
    Input,
    Data,
    Code,
    LLM,
    MapBlock,
    Reduce,
    Search,
    Curl,
    Browser,
}

/// The canonical lowercase identifier of a kind.
pub open spec fn identifier(k: BlockType) -> Seq<char> {
    match k {
        BlockType::Input => "input"@,
        BlockType::Data => "data"@,
        BlockType::Code => "code"@,
        BlockType::LLM => "llm"@,
        BlockType::MapBlock => "map"@,
        BlockType::Reduce => "reduce"@,
        BlockType::Search => "search"@,
        BlockType::Curl => "curl"@,
        BlockType::Browser => "browser"@,
    }
}

/// The kind that a text identifies, if any.
pub open spec fn kind_of(s: Seq<char>) -> Option<BlockType> {
    if s == "input"@ {
        Some(BlockType::Input)
    } else if s == "data"@ {
        Some(BlockType::Data)
    } else if s == "code"@ {
        Some(BlockType::Code)
    } else if s == "llm"@ {
        Some(BlockType::LLM)
    } else if s == "map"@ {
        Some(BlockType::MapBlock)
    } else if s == "reduce"@ {
        Some(BlockType::Reduce)
    } else if s == "search"@ {
        Some(BlockType::Search)
    } else if s == "curl"@ {
        Some(BlockType::Curl)
    } else if s == "browser"@ {
        Some(BlockType::Browser)
    } else {
        None
    }
}

/// Whether `s` is the identifier of some kind.
pub open spec fn is_identifier(s: Seq<char>) -> bool {
    exists|k: BlockType| identifier(k) == s
}

fn text_eq(a: &str, b: &str) -> (r: bool)
    ensures
        r == (a@ == b@),
{
    a.to_owned() == b.to_owned()
}

impl BlockType {
    /// The canonical identifier of this kind.
    pub fn to_string(&self) -> (r: String)
        ensures
            r@ == identifier(*self),
    {
        match self {
            BlockType::Input => String::from_str("input"),
            BlockType::Data => String::from_str("data"),
            BlockType::Code => String::from_str("code"),
            BlockType::LLM => String::from_str("llm"),
            BlockType::MapBlock => String::from_str("map"),
            BlockType::Reduce => String::from_str("reduce"),
            BlockType::Search => String::from_str("search"),
            BlockType::Curl => String::from_str("curl"),
            BlockType::Browser => String::from_str("browser"),
        }
    }

    /// The kind whose identifier is `s`; an unknown identifier is an error.
    pub fn from_str(s: &str) -> (r: Result<BlockType, ParseError>)
        ensures
            match kind_of(s@) {
                Some(k) => r == Ok::<BlockType, ParseError>(k),
                None => r == Err::<BlockType, ParseError>(ParseError::UnknownBlockType),
            },
    {
        if text_eq(s, "input") {
            Ok(BlockType::Input)
        } else if text_eq(s, "data") {
            Ok(BlockType::Data)
        } else if text_eq(s, "code") {
            Ok(BlockType::Code)
        } else if text_eq(s, "llm") {
            Ok(BlockType::LLM)
        } else if text_eq(s, "map") {
            Ok(BlockType::MapBlock)
        } else if text_eq(s, "reduce") {
            Ok(BlockType::Reduce)
        } else if text_eq(s, "search") {
            Ok(BlockType::Search)
        } else if text_eq(s, "curl") {
            Ok(BlockType::Curl)
        } else if text_eq(s, "browser") {
            Ok(BlockType::Browser)
        } else {
            Err(ParseError::UnknownBlockType)
        }
    }
}

proof fn reveal_identifiers()
    ensures
        "input"@ =~= seq!['i', 'n', 'p', 'u', 't'],
        "data"@ =~= seq!['d', 'a', 't', 'a'],
        "code"@ =~= seq!['c', 'o', 'd', 'e'],
        "llm"@ =~= seq!['l', 'l', 'm'],
        "map"@ =~= seq!['m', 'a', 'p'],
        "reduce"@ =~= seq!['r', 'e', 'd', 'u', 'c', 'e'],
        "search"@ =~= seq!['s', 'e', 'a', 'r', 'c', 'h'],
        "curl"@ =~= seq!['c', 'u', 'r', 'l'],
        "browser"@ =~= seq!['b', 'r', 'o', 'w', 's', 'e', 'r'],
{
    reveal_strlit("input");
    reveal_strlit("data");
    reveal_strlit("code");
    reveal_strlit("llm");
    reveal_strlit("map");
    reveal_strlit("reduce");
    reveal_strlit("search");
    reveal_strlit("curl");
    reveal_strlit("browser");
}

/// Reading back the identifier of a kind gives that kind.
pub proof fn lemma_identifier_round_trip(k: BlockType)
    ensures
        kind_of(identifier(k)) == Some(k),
{
    reveal_identifiers();
}

/// A text is read as a kind exactly when it is the identifier of one, and then
/// as the kind that it identifies.
pub proof fn lemma_unknown_identifier_rejected(s: Seq<char>)
    ensures
        kind_of(s) is None <==> !is_identifier(s),
        kind_of(s) matches Some(k) ==> identifier(k) == s,
{
    reveal_identifiers();
    if kind_of(s) is None {
        assert forall|k: BlockType| identifier(k) != s by {
            lemma_identifier_round_trip(k);
        }
    } else {
        assert(identifier(kind_of(s)->Some_0) == s);
    }
}

} // verus!
