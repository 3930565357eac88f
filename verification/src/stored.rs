//! Reading back what the task store keeps as JSON: the command of a task and its environment.

use vstd::prelude::*;

use crate::error::{GhostError, GhostErrorView, result_view};

verus! {

/// The list of strings that a JSON text stands for, or why it stands for none.
pub uninterp spec fn json_strings(text: Seq<char>) -> Result<Seq<Seq<char>>, Seq<char>>;

/// The strings by name that a JSON text stands for, if it stands for any.
pub uninterp spec fn json_string_map(text: Seq<char>) -> Option<Map<Seq<char>, Seq<char>>>;

/// The model of a list of strings, or of the reason why there is none.
pub open spec fn strings_view(r: Result<Vec<String>, String>) -> Result<Seq<Seq<char>>, Seq<char>> {
    match r {
        Ok(list) => Ok(list.deep_view()),
        Err(said) => Err(said@),
    }
}

/// Whether `pairs` holds every entry of `map` once, in whatever order, and nothing else.
pub open spec fn enumerates(
    pairs: Seq<(Seq<char>, Seq<char>)>,
    map: Map<Seq<char>, Seq<char>>,
) -> bool {
    &&& forall|i: int|
        0 <= i < pairs.len() ==> map.contains_key((#[trigger] pairs[i]).0) && map[pairs[i].0]
            == pairs[i].1
    &&& forall|i: int, j: int|
        0 <= i < j < pairs.len() ==> (#[trigger] pairs[i]).0 != (#[trigger] pairs[j]).0
    &&& forall|k: Seq<char>| #[trigger]
        map.contains_key(k) ==> exists|i: int| 0 <= i < pairs.len() && (#[trigger] pairs[i]).0 == k
}

/// `serde_json::from_str` for a list of strings. The list, or the wording of the error, is
/// the same whenever the text is the same; `json_strings` is a name for it.
#[verifier::external_body]
fn parse_json_strings(text: &str) -> (r: Result<Vec<String>, String>)
    ensures
        strings_view(r) == json_strings(text@),
{
    match serde_json::from_str::<Vec<String>>(text) {
        Ok(list) => Ok(list),
        Err(e) => Err(e.to_string()),
    }
}

/// `serde_json::from_str` for a hash map of strings. Whether there is one, and what it
/// holds, is the same whenever the text is the same; `json_string_map` is a name for it. The
/// entries come in the order in which the hash map is walked, of which nothing is known.
#[verifier::external_body]
fn parse_json_string_map(text: &str) -> (r: Option<Vec<(String, String)>>)
    ensures
        r is Some <==> json_string_map(text@) is Some,
        r matches Some(pairs) ==> enumerates(pairs.deep_view(), json_string_map(text@)->0),
{
    match serde_json::from_str::<std::collections::HashMap<String, String>>(text) {
        Ok(map) => Some(map.into_iter().collect()),
        Err(_) => None,
    }
}

/// The command of a task, given what its JSON text stands for.
pub open spec fn command_meaning(parsed: Result<Seq<Seq<char>>, Seq<char>>) -> Result<
    Seq<Seq<char>>,
    GhostErrorView,
> {
    match parsed {
        Ok(command) => Ok(command),
        Err(said) => Err(
            GhostErrorView::InvalidArgument { message: "Failed to parse command: "@ + said },
        ),
    }
}

/// Assignments of the form `name=value`, one for each pair.
pub open spec fn assignments(pairs: Seq<(Seq<char>, Seq<char>)>) -> Seq<Seq<char>> {
    pairs.map_values(|p: (Seq<char>, Seq<char>)| p.0 + "="@ + p.1)
}

/// Whether `env` is what is read back of a stored environment: one assignment for each of
/// its variables, in some order, and none if it is missing or cannot be read.
pub open spec fn is_stored_env(stored: Option<Seq<char>>, env: Seq<Seq<char>>) -> bool {
    if stored is Some && json_string_map(stored->0) is Some {
        exists|pairs: Seq<(Seq<char>, Seq<char>)>| #[trigger]
            enumerates(pairs, json_string_map(stored->0)->0) && env == assignments(pairs)
    } else {
        env.len() == 0
    }
}

/// The command of a task, once its JSON text was read.
pub fn read_command(parsed: Result<Vec<String>, String>) -> (r: Result<Vec<String>, GhostError>)
    ensures
        result_view(r) == command_meaning(strings_view(parsed)),
{
    match parsed {
        Ok(command) => Ok(command),
        Err(said) => {
            let mut message = "Failed to parse command: ".to_owned();
            message.append(said.as_str());
            Err(GhostError::InvalidArgument { message })
        },
    }
}

/// Reads the command of a task.
pub fn stored_command(command: &str) -> (r: Result<Vec<String>, GhostError>)
    ensures
        result_view(r) == command_meaning(json_strings(command@)),
{
    read_command(parse_json_strings(command))
}

/// The environment of a task, once its JSON text was read.
pub fn read_env(parsed: Option<Vec<(String, String)>>) -> (r: Vec<String>)
    ensures
        r.deep_view() == match parsed {
            Some(pairs) => assignments(pairs.deep_view()),
            None => seq![],
        },
{
    let mut r: Vec<String> = Vec::new();
    if let Some(pairs) = parsed {
        let ghost all = assignments(pairs.deep_view());
        let mut i: usize = 0;
        while i < pairs.len()
            invariant
                i <= pairs@.len(),
                all == assignments(pairs.deep_view()),
                r.deep_view() =~= all.take(i as int),
            decreases pairs@.len() - i,
        {
            let ghost before = r.deep_view();
            let mut entry = pairs[i].0.clone();
            entry.append("=");
            entry.append(pairs[i].1.as_str());
            assert(entry@ =~= all[i as int]);
            r.push(entry);
            assert(r.deep_view() =~= before.push(all[i as int]));
            i = i + 1;
        }
        assert(r.deep_view() =~= all);
    } else {
        assert(r.deep_view() =~= seq![]);
    }
    r
}

/// Reads the environment of a task.
pub fn stored_env(env: &Option<String>) -> (r: Vec<String>)
    ensures
        is_stored_env(env.deep_view(), r.deep_view()),
{
    match env {
        Some(text) => read_env(parse_json_string_map(text.as_str())),
        None => Vec::new(),
    }
}

/// Whether an entry assigns a variable of `map` its value.
pub open spec fn is_assignment(entry: Seq<char>, map: Map<Seq<char>, Seq<char>>) -> bool {
    exists|k: Seq<char>| #[trigger] map.contains_key(k) && entry == k + "="@ + map[k]
}

/// Every variable of an environment is assigned once, by its name and its value, and nothing
/// else is assigned.
pub proof fn law_assignments(
    pairs: Seq<(Seq<char>, Seq<char>)>,
    map: Map<Seq<char>, Seq<char>>,
)
    requires
        enumerates(pairs, map),
    ensures
        forall|k: Seq<char>| #[trigger]
            map.contains_key(k) ==> assignments(pairs).contains(k + "="@ + map[k]),
        forall|i: int|
            0 <= i < assignments(pairs).len() ==> is_assignment(
                #[trigger] assignments(pairs)[i],
                map,
            ),
        map.dom().finite(),
        assignments(pairs).len() == map.dom().len(),
{
    let all = assignments(pairs);
    assert forall|k: Seq<char>| #[trigger] map.contains_key(k) implies all.contains(
        k + "="@ + map[k],
    ) by {
        let i = choose|i: int| 0 <= i < pairs.len() && (#[trigger] pairs[i]).0 == k;
        assert(all[i] == k + "="@ + map[k]);
    }
    assert forall|i: int| 0 <= i < all.len() implies is_assignment(#[trigger] all[i], map) by {
        assert(map.contains_key(pairs[i].0));
    }
    let names = pairs.map_values(|p: (Seq<char>, Seq<char>)| p.0);
    assert(names.no_duplicates()) by {
        assert forall|i: int, j: int|
            0 <= i < names.len() && 0 <= j < names.len() && i != j implies names[i] != names[j] by {
            if i < j {
                assert(pairs[i].0 != pairs[j].0);
            } else {
                assert(pairs[j].0 != pairs[i].0);
            }
        }
    }
    names.unique_seq_to_set();
    assert(names.to_set() =~= map.dom()) by {
        assert forall|k: Seq<char>| names.to_set().contains(k) == map.dom().contains(k) by {
            if map.contains_key(k) {
                let i = choose|i: int| 0 <= i < pairs.len() && (#[trigger] pairs[i]).0 == k;
                assert(names[i] == k);
            }
            if names.contains(k) {
                let i = choose|i: int| 0 <= i < names.len() && names[i] == k;
                assert(map.contains_key(pairs[i].0));
            }
        }
    }
}

/// What is made of a stored command: the words that its text stands for, as they are; or, if
/// it stands for none, an error that says why.
pub proof fn law_command_meaning(words: Seq<Seq<char>>, said: Seq<char>)
    ensures
        command_meaning(Ok(words)) == Ok::<Seq<Seq<char>>, GhostErrorView>(words),
        command_meaning(Err(said)) == Err::<Seq<Seq<char>>, GhostErrorView>(
            GhostErrorView::InvalidArgument { message: "Failed to parse command: "@ + said },
        ),
{
}

/// How pairs are written as assignments: one for each pair, in order, which is the name, an
/// equals sign and the value.
pub proof fn law_assignment_form(pairs: Seq<(Seq<char>, Seq<char>)>)
    ensures
        assignments(pairs).len() == pairs.len(),
        forall|i: int|
            0 <= i < pairs.len() ==> {
                let entry = #[trigger] assignments(pairs)[i];
                let name = pairs[i].0;
                &&& entry.len() == name.len() + 1 + pairs[i].1.len()
                &&& entry.take(name.len() as int) == name
                &&& entry[name.len() as int] == '='
                &&& entry.skip((name.len() + 1) as int) == pairs[i].1
            },
{
    reveal_strlit("=");
    assert forall|i: int| 0 <= i < pairs.len() implies {
        let entry = #[trigger] assignments(pairs)[i];
        let name = pairs[i].0;
        &&& entry.len() == name.len() + 1 + pairs[i].1.len()
        &&& entry.take(name.len() as int) == name
        &&& entry[name.len() as int] == '='
        &&& entry.skip((name.len() + 1) as int) == pairs[i].1
    } by {
        let entry = assignments(pairs)[i];
        assert(entry.take(pairs[i].0.len() as int) =~= pairs[i].0);
        assert(entry.skip((pairs[i].0.len() + 1) as int) =~= pairs[i].1);
    }
}

/// What is read back of a stored environment. Nothing, if none is stored or if its text stands
/// for none. Else an assignment for every variable that the text stands for, none twice, and
/// no other.
pub proof fn law_stored_env(stored: Option<Seq<char>>, env: Seq<Seq<char>>)
    requires
        is_stored_env(stored, env),
    ensures
        stored is None ==> env.len() == 0,
        stored matches Some(text) ==> match json_string_map(text) {
            None => env.len() == 0,
            Some(map) => {
                &&& env.len() == map.dom().len()
                &&& forall|k: Seq<char>| #[trigger]
                    map.contains_key(k) ==> env.contains(k + "="@ + map[k])
                &&& forall|i: int|
                    0 <= i < env.len() ==> is_assignment(#[trigger] env[i], map)
            },
        },
{
    if let Some(text) = stored {
        if let Some(map) = json_string_map(text) {
            let pairs = choose|pairs: Seq<(Seq<char>, Seq<char>)>| #[trigger]
                enumerates(pairs, map) && env == assignments(pairs);
            law_assignments(pairs, map);
            assert(env == assignments(pairs));
        }
    }
}

} // verus!
