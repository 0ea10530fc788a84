use crate::env::{find_entry, lookup, Env, Value};
use vstd::prelude::*;
use vstd::string::*;

verus! {

/// The pattern of a variable reference: `${NAME.KEY}`.
pub const VARIABLE_PATTERN: &'static str = "\\$\\{(?P<name>[A-Z0-9_]+)\\.(?P<key>[a-zA-Z0-9_\\.]+)\\}";

/// A character allowed in the block name of a reference.
pub open spec fn is_name_char(c: char) -> bool {
    ('A' <= c && c <= 'Z') || ('0' <= c && c <= '9') || c == '_'
}

/// A character allowed in the key of a reference.
pub open spec fn is_key_char(c: char) -> bool {
    ('a' <= c && c <= 'z') || ('A' <= c && c <= 'Z') || ('0' <= c && c <= '9') || c == '_'
        || c == '.'
}

/// Length of the run of name characters (`key` false) or key characters (`key`
/// true) that starts at `j`.
pub open spec fn run_len(t: Seq<char>, j: int, key: bool) -> nat
    decreases t.len() - j,
{
    if 0 <= j < t.len() && (if key { is_key_char(t[j]) } else { is_name_char(t[j]) }) {
        1 + run_len(t, j + 1, key)
    } else {
        0
    }
}

/// Where a reference starts at `i`, the lengths of its name and of its key.
pub open spec fn reference_at(t: Seq<char>, i: int) -> Option<(nat, nat)> {
    if 0 <= i && i + 1 < t.len() && t[i] == '$' && t[i + 1] == '{' {
        let n = run_len(t, i + 2, false);
        if n > 0 && i + 2 + n < t.len() && t[i + 2 + n] == '.' {
            let k = run_len(t, i + 3 + n, true);
            if k > 0 && i + 3 + n + k < t.len() && t[i + 3 + n + k] == '}' {
                Some((n, k))
            } else {
                None
            }
        } else {
            None
        }
    } else {
        None
    }
}

/// The references found in `t` from position `i` on, left to right, each search
/// going on after the end of the previous reference.
pub open spec fn references_from(t: Seq<char>, i: int) -> Seq<(Seq<char>, Seq<char>)>
    decreases t.len() - i,
{
    if i < 0 || i >= t.len() {
        Seq::empty()
    } else {
        match reference_at(t, i) {
            Some((n, k)) => seq![
                (t.subrange(i + 2, i + 2 + n), t.subrange(i + 3 + n, i + 3 + n + k)),
            ] + references_from(t, i + 4 + n + k),
            None => references_from(t, i + 1),
        }
    }
}

/// The `(NAME, KEY)` pairs of the references in `t`, in order of appearance.
pub open spec fn variable_refs(t: Seq<char>) -> Seq<(Seq<char>, Seq<char>)> {
    references_from(t, 0)
}

/// The texts of a list of `(NAME, KEY)` pairs.
pub open spec fn pairs_view(v: Seq<(String, String)>) -> Seq<(Seq<char>, Seq<char>)> {
    v.map_values(|p: (String, String)| (p.0@, p.1@))
}

/// The text of the reference to `key` in the output of `name`.
pub open spec fn token(name: Seq<char>, key: Seq<char>) -> Seq<char> {
    seq!['$', '{'] + name + seq!['.'] + key + seq!['}']
}

/// `s` with every match of `pat` replaced by `rep`, matches taken left to right
/// without overlap.
pub open spec fn replace_all(s: Seq<char>, pat: Seq<char>, rep: Seq<char>) -> Seq<char>
    decreases s.len(),
{
    if s.len() == 0 {
        s
    } else if 0 < pat.len() <= s.len() && s.subrange(0, pat.len() as int) == pat {
        rep + replace_all(s.subrange(pat.len() as int, s.len() as int), pat, rep)
    } else {
        seq![s[0]] + replace_all(s.subrange(1, s.len() as int), pat, rep)
    }
}

/// Relies on regex's `Regex::new` and `Regex::captures_iter`: the matches of
/// `VARIABLE_PATTERN` in `text`, leftmost first and without overlap, each given
/// by its `name` and `key` groups.
#[verifier::external_body]
fn scan_references(text: &str) -> (r: Vec<(String, String)>)
    ensures
        pairs_view(r@) == variable_refs(text@),
{
    let re = regex::Regex::new(VARIABLE_PATTERN).unwrap();
    re.captures_iter(text).map(|c| (c["name"].to_string(), c["key"].to_string())).collect()
}

/// Relies on `str::replace`: every match of `from`, taken left to right without
/// overlap, is replaced by `to`.
#[verifier::external_body]
fn replace_text(s: &str, from: &str, to: &str) -> (r: String)
    requires
        from@.len() > 0,
    ensures
        r@ == replace_all(s@, from@, to@),
{
    s.replace(from, to)
}

/// The `(NAME, KEY)` pairs of the `${NAME.KEY}` references in `text`, in order of
/// appearance; a pair that occurs twice is listed twice.
pub fn find_variables(text: &str) -> (r: Vec<(String, String)>)
    ensures
        pairs_view(r@) == variable_refs(text@),
{
    scan_references(text)
}

/// Why a reference could not be resolved, over the texts involved.
pub enum Failure {
    NotFound(Seq<char>),
    NotObject(Seq<char>, Seq<char>),
    KeyMissing(Seq<char>, Seq<char>),
    NotString(Seq<char>, Seq<char>),
}

/// Why a reference could not be resolved.
pub enum ResolveError {
    /// No output is recorded for the block `name`.
    OutputNotFound { name: String },
    /// The output of `name`, referred to in `field`, is not an object.
    NotAnObject { name: String, field: String },
    /// The output of `name` has no entry `key`.
    KeyNotPresent { name: String, key: String },
    /// The entry `key` in the output of `name` is not a string.
    NotAString { name: String, key: String },
}

impl View for ResolveError {
    type V = Failure;

    open spec fn view(&self) -> Failure {
        match self {
            ResolveError::OutputNotFound { name } => Failure::NotFound(name@),
            ResolveError::NotAnObject { name, field } => Failure::NotObject(name@, field@),
            ResolveError::KeyNotPresent { name, key } => Failure::KeyMissing(name@, key@),
            ResolveError::NotAString { name, key } => Failure::NotString(name@, key@),
        }
    }
}

/// The text that the reference to `key` in the output of `name` stands for.
pub open spec fn reference_value(
    state: Seq<(String, Value)>,
    name: Seq<char>,
    key: Seq<char>,
    field: Seq<char>,
) -> Result<Seq<char>, Failure> {
    match lookup(state, name) {
        None => Err(Failure::NotFound(name)),
        Some(Value::Object(entries)) => match lookup(entries@, key) {
            None => Err(Failure::KeyMissing(name, key)),
            Some(Value::Str(s)) => Ok(s@),
            Some(_) => Err(Failure::NotString(name, key)),
        },
        Some(_) => Err(Failure::NotObject(name, field)),
    }
}

/// Substitutes the references `refs` into `text` one after the other; the first
/// one that cannot be resolved is the failure.
pub open spec fn substitute(
    text: Seq<char>,
    refs: Seq<(Seq<char>, Seq<char>)>,
    state: Seq<(String, Value)>,
    field: Seq<char>,
) -> Result<Seq<char>, Failure>
    decreases refs.len(),
{
    if refs.len() == 0 {
        Ok(text)
    } else {
        match reference_value(state, refs[0].0, refs[0].1, field) {
            Err(f) => Err(f),
            Ok(v) => substitute(
                replace_all(text, token(refs[0].0, refs[0].1), v),
                refs.subrange(1, refs.len() as int),
                state,
                field,
            ),
        }
    }
}

/// The result of resolving every reference of `text` against `state`.
pub open spec fn resolution(text: Seq<char>, state: Seq<(String, Value)>, field: Seq<char>) -> Result<
    Seq<char>,
    Failure,
> {
    substitute(text, variable_refs(text), state, field)
}

fn reference_text(name: &String, key: &String) -> (r: String)
    ensures
        r@ == token(name@, key@),
{
    proof {
        reveal_strlit("${");
        reveal_strlit(".");
        reveal_strlit("}");
    }
    let mut t = String::from_str("${");
    t.append(name.as_str());
    t.append(".");
    t.append(key.as_str());
    t.append("}");
    proof {
        assert(t@ =~= token(name@, key@));
    }
    t
}

fn resolve_reference<'a>(env: &'a Env, name: &String, key: &String, field: &str) -> (r: Result<
    &'a String,
    ResolveError,
>)
    ensures
        match r {
            Ok(s) => reference_value(env.state@, name@, key@, field@) == Ok::<Seq<char>, Failure>(
                s@,
            ),
            Err(e) => reference_value(env.state@, name@, key@, field@) == Err::<Seq<char>, Failure>(
                e@,
            ),
        },
{
    let output = match env.state_get(name) {
        Some(v) => v,
        None => {
            return Err(ResolveError::OutputNotFound { name: name.clone() });
        },
    };
    match output {
        Value::Object(entries) => match find_entry(entries, key) {
            None => Err(ResolveError::KeyNotPresent { name: name.clone(), key: key.clone() }),
            Some(i) => match &entries[i].1 {
                Value::Str(s) => Ok(s),
                _ => Err(ResolveError::NotAString { name: name.clone(), key: key.clone() }),
            },
        },
        _ => Err(ResolveError::NotAnObject { name: name.clone(), field: field.to_owned() }),
    }
}

/// Replaces each `${NAME.KEY}` reference of `text` by the string stored under
/// `KEY` in the recorded output of block `NAME`. Fails on the first reference
/// whose block has no output, whose output is not an object, lacks the key, or
/// holds a value other than a string there. `field` names the text in errors.
pub fn replace_variables_in_string(text: &str, field: &str, env: &Env) -> (r: Result<
    String,
    ResolveError,
>)
    ensures
        match r {
            Ok(s) => resolution(text@, env.state@, field@) == Ok::<Seq<char>, Failure>(s@),
            Err(e) => resolution(text@, env.state@, field@) == Err::<Seq<char>, Failure>(e@),
        },
{
    let variables = find_variables(text);
    let ghost refs = variable_refs(text@);
    let mut result = text.to_owned();
    let mut i: usize = 0;
    assert(refs.subrange(0, refs.len() as int) =~= refs);
    while i < variables.len()
        invariant
            i <= variables@.len(),
            pairs_view(variables@) == refs,
            refs == variable_refs(text@),
            substitute(text@, refs, env.state@, field@) == substitute(
                result@,
                refs.subrange(i as int, refs.len() as int),
                env.state@,
                field@,
            ),
        decreases variables@.len() - i,
    {
        let name = &variables[i].0;
        let key = &variables[i].1;
        let ghost rest = refs.subrange(i as int, refs.len() as int);
        assert(rest[0] == (name@, key@));
        assert(rest.subrange(1, rest.len() as int) =~= refs.subrange(i + 1, refs.len() as int));
        let value = match resolve_reference(env, name, key, field) {
            Ok(v) => v,
            Err(e) => {
                return Err(e);
            },
        };
        let tok = reference_text(name, key);
        result = replace_text(result.as_str(), tok.as_str(), value.as_str());
        i = i + 1;
    }
    proof {
        assert(refs.subrange(i as int, refs.len() as int) =~= Seq::<(Seq<char>, Seq<char>)>::empty());
    }
    Ok(result)
}

proof fn lemma_references_from_none(t: Seq<char>, i: int)
    requires
        forall|j: int| 0 <= j < t.len() ==> reference_at(t, j) is None,
    ensures
        references_from(t, i) == Seq::<(Seq<char>, Seq<char>)>::empty(),
    decreases t.len() - i,
{
    if 0 <= i < t.len() {
        lemma_references_from_none(t, i + 1);
    }
}

/// A text in which no reference starts anywhere has no variables.
pub proof fn lemma_no_reference_no_variables(t: Seq<char>)
    requires
        forall|j: int| 0 <= j < t.len() ==> reference_at(t, j) is None,
    ensures
        variable_refs(t) == Seq::<(Seq<char>, Seq<char>)>::empty(),
{
    lemma_references_from_none(t, 0);
}

/// Resolving again the result of a successful resolution, when that result holds
/// no reference, gives it back unchanged.
pub proof fn lemma_resolution_idempotent(
    text: Seq<char>,
    state: Seq<(String, Value)>,
    field: Seq<char>,
    out: Seq<char>,
)
    requires
        resolution(text, state, field) == Ok::<Seq<char>, Failure>(out),
        variable_refs(out).len() == 0,
    ensures
        resolution(out, state, field) == Ok::<Seq<char>, Failure>(out),
{
}

} // verus!
