//! The list of statuses that a cleanup is restricted to.

use vstd::prelude::*;

use crate::error::{GhostError, GhostErrorView, invalid_argument, result_view};
use crate::task::TaskStatus;
use crate::text::{
    chars_of, cut, join, joined, lemma_first_index_is, piece_ranges, pieces, same_text,
    text_between, trim_between, trimmed, trimmed_end, trimmed_start, within,
};

verus! {

/// The status that a name stands for. Running tasks are never cleaned up.
pub open spec fn named_status(name: Seq<char>) -> Result<TaskStatus, GhostErrorView> {
    if name == "exited"@ {
        Ok(TaskStatus::Exited)
    } else if name == "killed"@ {
        Ok(TaskStatus::Killed)
    } else if name == "unknown"@ {
        Ok(TaskStatus::Unknown)
    } else if name == "running"@ {
        Err(GhostErrorView::InvalidArgument { message: "Cannot cleanup running tasks"@ })
    } else {
        Err(
            GhostErrorView::InvalidArgument {
                message: "Invalid status: "@ + name
                    + ". Valid options: exited, killed, unknown, all"@,
            },
        )
    }
}

/// The statuses that names stand for, or the error of the first name that stands for none.
pub open spec fn named_statuses(names: Seq<Seq<char>>) -> Result<Seq<TaskStatus>, GhostErrorView>
    decreases names.len(),
{
    if names.len() == 0 {
        Ok(seq![])
    } else {
        match named_status(trimmed(names[0])) {
            Err(e) => Err(e),
            Ok(status) => match named_statuses(names.drop_first()) {
                Err(e) => Err(e),
                Ok(rest) => Ok(seq![status] + rest),
            },
        }
    }
}

/// What a filter means: no filter is `exited` and `killed`, `all` is everything but
/// running, and anything else is a list of names between commas.
pub open spec fn filter_meaning(filter: Option<Seq<char>>) -> Result<
    Seq<TaskStatus>,
    GhostErrorView,
> {
    match filter {
        None => Ok(seq![TaskStatus::Exited, TaskStatus::Killed]),
        Some(text) => if text == "all"@ {
            Ok(seq![TaskStatus::Exited, TaskStatus::Killed, TaskStatus::Unknown])
        } else {
            named_statuses(pieces(text, ','))
        },
    }
}

/// The names of statuses.
pub open spec fn status_names(statuses: Seq<TaskStatus>) -> Seq<Seq<char>> {
    statuses.map_values(|s: TaskStatus| s.name())
}

/// A list of statuses as it is shown.
pub open spec fn status_list(statuses: Seq<TaskStatus>) -> Seq<char> {
    joined(status_names(statuses), ", "@)
}

/// Reads the name of one status.
pub fn parse_status(name: &str) -> (r: Result<TaskStatus, GhostError>)
    ensures
        result_view(r) == named_status(name@),
{
    if same_text(name, "exited") {
        Ok(TaskStatus::Exited)
    } else if same_text(name, "killed") {
        Ok(TaskStatus::Killed)
    } else if same_text(name, "unknown") {
        Ok(TaskStatus::Unknown)
    } else if same_text(name, "running") {
        Err(invalid_argument("Cannot cleanup running tasks"))
    } else {
        let mut message = "Invalid status: ".to_owned();
        message.append(name);
        message.append(". Valid options: exited, killed, unknown, all");
        Err(GhostError::InvalidArgument { message })
    }
}

/// The first error decides: once the first `i` names are read and the next is wrong, the
/// whole list is.
proof fn lemma_named_statuses_step(names: Seq<Seq<char>>, i: int, done: Seq<TaskStatus>)
    requires
        0 <= i < names.len(),
        named_statuses(names) == prefixed(done, named_statuses(names.skip(i))),
    ensures
        named_status(trimmed(names[i])) matches Err(e) ==> named_statuses(names) == Err::<
            Seq<TaskStatus>,
            GhostErrorView,
        >(e),
        named_status(trimmed(names[i])) matches Ok(status) ==> named_statuses(names) == prefixed(
            done.push(status),
            named_statuses(names.skip(i + 1)),
        ),
{
    let rest = names.skip(i);
    assert(rest.drop_first() =~= names.skip(i + 1));
    assert(rest[0] == names[i]);
    if let Ok(status) = named_status(trimmed(names[i])) {
        if let Ok(more) = named_statuses(names.skip(i + 1)) {
            assert(done + (seq![status] + more) =~= done.push(status) + more);
        }
    }
}

/// `done` before a list, if there is a list.
spec fn prefixed(
    done: Seq<TaskStatus>,
    rest: Result<Seq<TaskStatus>, GhostErrorView>,
) -> Result<Seq<TaskStatus>, GhostErrorView> {
    match rest {
        Err(e) => Err(e),
        Ok(list) => Ok(done + list),
    }
}

/// Reads a status filter.
pub fn parse_status_filter(status: Option<&str>) -> (r: Result<Vec<TaskStatus>, GhostError>)
    ensures
        result_view(r) == filter_meaning(status.deep_view()),
{
    match status {
        None => {
            let mut statuses: Vec<TaskStatus> = Vec::new();
            statuses.push(TaskStatus::Exited);
            statuses.push(TaskStatus::Killed);
            assert(statuses.deep_view() =~= seq![TaskStatus::Exited, TaskStatus::Killed]);
            Ok(statuses)
        },
        Some(status_str) => {
            if same_text(status_str, "all") {
                let mut statuses: Vec<TaskStatus> = Vec::new();
                statuses.push(TaskStatus::Exited);
                statuses.push(TaskStatus::Killed);
                statuses.push(TaskStatus::Unknown);
                assert(statuses.deep_view() =~= seq![
                    TaskStatus::Exited,
                    TaskStatus::Killed,
                    TaskStatus::Unknown,
                ]);
                Ok(statuses)
            } else {
                parse_status_list(status_str)
            }
        },
    }
}

/// Reads a list of status names between commas.
fn parse_status_list(text: &str) -> (r: Result<Vec<TaskStatus>, GhostError>)
    ensures
        result_view(r) == named_statuses(pieces(text@, ',')),
{
    let chars = chars_of(text);
    let ranges = piece_ranges(&chars, ',');
    let ghost names = pieces(text@, ',');
    let mut statuses: Vec<TaskStatus> = Vec::new();
    let mut i: usize = 0;
    assert(names.skip(0) =~= names);
    assert(prefixed(statuses.deep_view(), named_statuses(names)) == named_statuses(names)) by {
        if let Ok(list) = named_statuses(names) {
            assert(statuses.deep_view() + list =~= list);
        }
    }
    while i < ranges.len()
        invariant
            i <= ranges@.len(),
            within(ranges@, chars@.len()),
            names == pieces(text@, ','),
            cut(chars@, ranges@) == names,
            named_statuses(names) == prefixed(
                statuses.deep_view(),
                named_statuses(names.skip(i as int)),
            ),
        decreases ranges@.len() - i,
    {
        assert(ranges@[i as int].0 <= ranges@[i as int].1 <= chars@.len());
        let (from, to) = trim_between(&chars, ranges[i].0, ranges[i].1);
        let name = text_between(&chars, from, to);
        proof {
            assert(names[i as int] == cut(chars@, ranges@)[i as int]);
            assert(name@ == trimmed(names[i as int]));
            lemma_named_statuses_step(names, i as int, statuses.deep_view());
        }
        let ghost done = statuses.deep_view();
        match parse_status(name.as_str()) {
            Err(e) => {
                return Err(e);
            },
            Ok(status) => {
                statuses.push(status);
                assert(statuses.deep_view() =~= done.push(status));
            },
        }
        i = i + 1;
    }
    assert(names.skip(i as int) =~= seq![]);
    assert(statuses.deep_view() + Seq::<TaskStatus>::empty() =~= statuses.deep_view());
    Ok(statuses)
}

/// Shows a list of statuses.
pub fn format_status_list(statuses: &Vec<TaskStatus>) -> (r: String)
    ensures
        r@ == status_list(statuses@),
{
    let mut names: Vec<String> = Vec::new();
    let mut i: usize = 0;
    while i < statuses.len()
        invariant
            i <= statuses@.len(),
            names.deep_view() =~= status_names(statuses@).take(i as int),
        decreases statuses@.len() - i,
    {
        let ghost before = names.deep_view();
        names.push(statuses[i].as_str().to_owned());
        assert(names.deep_view() =~= before.push(status_names(statuses@)[i as int]));
        i = i + 1;
    }
    assert(names.deep_view() =~= status_names(statuses@));
    join(&names, ", ")
}

/// Whatever the filter, running tasks are not in it, and it is not empty.
pub proof fn law_filter_spares_running(filter: Option<Seq<char>>)
    ensures
        filter_meaning(filter) matches Ok(statuses) ==> statuses.len() > 0 && !statuses.contains(
            TaskStatus::Running,
        ),
{
    if let Some(text) = filter {
        if text != "all"@ {
            lemma_named_statuses_spare_running(pieces(text, ','));
        }
    }
}

proof fn lemma_named_statuses_spare_running(names: Seq<Seq<char>>)
    ensures
        named_statuses(names) matches Ok(statuses) ==> statuses.len() == names.len()
            && !statuses.contains(TaskStatus::Running),
    decreases names.len(),
{
    if names.len() > 0 {
        lemma_named_statuses_spare_running(names.drop_first());
        if let Ok(statuses) = named_statuses(names) {
            let rest = named_statuses(names.drop_first())->Ok_0;
            let first = named_status(trimmed(names[0]))->Ok_0;
            assert forall|i: int| 0 <= i < statuses.len() implies statuses[i]
                != TaskStatus::Running by {
                if i > 0 {
                    assert(statuses[i] == rest[i - 1]);
                    assert(rest.contains(rest[i - 1]));
                }
            }
        }
    }
}

/// What is shown of a filter can be given as a filter again and means the same. The empty
/// list is left out, for it is shown as nothing, and nothing is not the name of a status.
pub proof fn law_status_list_is_a_filter(statuses: Seq<TaskStatus>)
    requires
        statuses.len() > 0,
        !statuses.contains(TaskStatus::Running),
    ensures
        filter_meaning(Some(status_list(statuses))) == Ok::<Seq<TaskStatus>, GhostErrorView>(
            statuses,
        ),
{
    let text = status_list(statuses);
    let none = Seq::<char>::empty();
    lemma_list_reads_back(statuses, none);
    assert(none + text =~= text);
    assert(statuses.contains(statuses[0]));
    lemma_names(statuses[0], none);
    assert(status_names(statuses)[0] == statuses[0].name());
    assert(text[0] == statuses[0].name()[0]);
    reveal_strlit("all");
    assert("all"@[0] == 'a');
    assert(text != "all"@);
}

/// What is needed of the names of statuses: they hold neither commas nor, at their ends,
/// white space, and stand for the status.
proof fn lemma_names(status: TaskStatus, lead: Seq<char>)
    requires
        status != TaskStatus::Running,
        lead == Seq::<char>::empty() || lead == seq![' '],
    ensures
        status.name().len() > 0,
        status.name()[0] != 'a',
        !(lead + status.name()).contains(','),
        trimmed(lead + status.name()) == status.name(),
        named_status(status.name()) == Ok::<TaskStatus, GhostErrorView>(status),
{
    reveal_strlit("exited");
    reveal_strlit("killed");
    reveal_strlit("unknown");
    let name = status.name();
    let s = lead + name;
    assert("exited"@[0] == 'e' && "killed"@[0] == 'k' && "unknown"@[0] == 'u');
    assert("exited"@.last() == 'd' && "killed"@.last() == 'd' && "unknown"@.last() == 'n');
    assert forall|i: int| 0 <= i < s.len() implies s[i] != ',' by {
        if i >= lead.len() {
            assert(s[i] == name[i - lead.len()]);
        }
    }
    assert(trimmed_start(s) == name) by {
        reveal_with_fuel(trimmed_start, 3);
        if lead.len() == 0 {
            assert(s =~= name);
        } else {
            assert(s.drop_first() =~= name);
        }
    }
    assert(trimmed_end(name) == name);
}

/// A list of statuses, with or without a blank before it, reads back as it was.
proof fn lemma_list_reads_back(statuses: Seq<TaskStatus>, lead: Seq<char>)
    requires
        statuses.len() > 0,
        !statuses.contains(TaskStatus::Running),
        lead == Seq::<char>::empty() || lead == seq![' '],
    ensures
        named_statuses(pieces(lead + status_list(statuses), ',')) == Ok::<
            Seq<TaskStatus>,
            GhostErrorView,
        >(statuses),
    decreases statuses.len(),
{
    let names = status_names(statuses);
    let first = lead + names[0];
    let s = lead + status_list(statuses);
    assert(statuses.contains(statuses[0]));
    lemma_names(statuses[0], lead);
    assert forall|j: int| 0 <= j < first.len() implies first[j] != ',' by {
        assert(first.contains(first[j]));
    }
    if statuses.len() == 1 {
        assert(s =~= first);
        lemma_first_index_is(s, ',', s.len() as int);
        reveal_with_fuel(named_statuses, 2);
        assert(pieces(s, ',')[0] == s);
        assert(pieces(s, ',').drop_first() =~= seq![]);
        assert(seq![statuses[0]] + Seq::<TaskStatus>::empty() =~= statuses);
    } else {
        let rest = statuses.drop_first();
        let blank = seq![' '];
        assert forall|i: int| 0 <= i < rest.len() implies rest[i] != TaskStatus::Running by {
            assert(rest[i] == statuses[i + 1]);
        }
        lemma_list_reads_back(rest, blank);
        reveal_strlit(", ");
        assert(names.drop_first() =~= status_names(rest));
        let tail = blank + status_list(rest);
        assert(", "@ =~= seq![','] + blank);
        assert(s =~= first + seq![','] + tail);
        let k = first.len() as int;
        assert forall|j: int| 0 <= j < k implies s[j] != ',' by {
            assert(s[j] == first[j]);
        }
        lemma_first_index_is(s, ',', k);
        assert(s.take(k) =~= first);
        assert(s.skip(k + 1) =~= tail);
        assert(pieces(s, ',')[0] == first);
        assert(pieces(s, ',').drop_first() =~= pieces(tail, ','));
        assert(seq![statuses[0]] + rest =~= statuses);
    }
}

/// What the name of a status stands for, and what is said of any other name.
pub proof fn law_named_status(name: Seq<char>)
    ensures
        named_status("exited"@) == Ok::<TaskStatus, GhostErrorView>(TaskStatus::Exited),
        named_status("killed"@) == Ok::<TaskStatus, GhostErrorView>(TaskStatus::Killed),
        named_status("unknown"@) == Ok::<TaskStatus, GhostErrorView>(TaskStatus::Unknown),
        named_status("running"@) == Err::<TaskStatus, GhostErrorView>(
            GhostErrorView::InvalidArgument { message: "Cannot cleanup running tasks"@ },
        ),
        name != "exited"@ && name != "killed"@ && name != "unknown"@ && name != "running"@
            ==> named_status(name) == Err::<TaskStatus, GhostErrorView>(
            GhostErrorView::InvalidArgument {
                message: "Invalid status: "@ + name
                    + ". Valid options: exited, killed, unknown, all"@,
            },
        ),
{
    reveal_strlit("exited");
    reveal_strlit("killed");
    reveal_strlit("unknown");
    reveal_strlit("running");
    assert("exited"@[0] == 'e' && "killed"@[0] == 'k' && "unknown"@[0] == 'u' && "running"@[0]
        == 'r');
}

/// Whether a name, with white space around it or not, is that of a task that can be cleaned up.
pub open spec fn names_finished(name: Seq<char>) -> bool {
    trimmed(name) == "exited"@ || trimmed(name) == "killed"@ || trimmed(name) == "unknown"@
}

/// What a filter means, told by its text alone. No filter is exited and killed; `all` is
/// exited, killed and unknown. Any other text is cut at its commas. If every name between
/// them is that of a finished status, there is one status for each name, in order, and it is
/// the one that the name says. Else the first name that is not decides what is wrong.
pub proof fn law_filter_meaning(text: Seq<char>)
    ensures
        filter_meaning(None) == Ok::<Seq<TaskStatus>, GhostErrorView>(
            seq![TaskStatus::Exited, TaskStatus::Killed],
        ),
        filter_meaning(Some("all"@)) == Ok::<Seq<TaskStatus>, GhostErrorView>(
            seq![TaskStatus::Exited, TaskStatus::Killed, TaskStatus::Unknown],
        ),
        text != "all"@ ==> {
            let names = pieces(text, ',');
            &&& filter_meaning(Some(text)) is Ok <==> forall|k: int|
                0 <= k < names.len() ==> names_finished(#[trigger] names[k])
            &&& filter_meaning(Some(text)) matches Ok(statuses) ==> statuses.len() == names.len()
                && forall|k: int|
                #![trigger statuses[k]]
                0 <= k < names.len() ==> match statuses[k] {
                    TaskStatus::Running => false,
                    TaskStatus::Exited => trimmed(names[k]) == "exited"@,
                    TaskStatus::Killed => trimmed(names[k]) == "killed"@,
                    TaskStatus::Unknown => trimmed(names[k]) == "unknown"@,
                }
            &&& forall|k: int|
                0 <= k < names.len() && !names_finished(#[trigger] names[k]) && (forall|j: int|
                    0 <= j < k ==> names_finished(#[trigger] names[j])) ==> filter_meaning(
                    Some(text),
                ) == Err::<Seq<TaskStatus>, GhostErrorView>(
                    GhostErrorView::InvalidArgument {
                        message: if trimmed(names[k]) == "running"@ {
                            "Cannot cleanup running tasks"@
                        } else {
                            "Invalid status: "@ + trimmed(names[k])
                                + ". Valid options: exited, killed, unknown, all"@
                        },
                    },
                )
        },
{
    if text != "all"@ {
        let names = pieces(text, ',');
        lemma_named_statuses_mean(names);
        assert forall|k: int|
            0 <= k < names.len() && !names_finished(#[trigger] names[k]) && (forall|j: int|
                0 <= j < k ==> names_finished(#[trigger] names[j])) implies named_statuses(names)
            == Err::<Seq<TaskStatus>, GhostErrorView>(
            named_status(trimmed(names[k]))->Err_0,
        ) by {
            lemma_first_wrong_name(names, k);
        }
    }
}

proof fn lemma_named_statuses_mean(names: Seq<Seq<char>>)
    ensures
        named_statuses(names) is Ok <==> forall|k: int|
            0 <= k < names.len() ==> names_finished(#[trigger] names[k]),
        named_statuses(names) matches Ok(statuses) ==> statuses.len() == names.len() && forall|
            k: int,
        |
            #![trigger statuses[k]]
            0 <= k < names.len() ==> match statuses[k] {
                TaskStatus::Running => false,
                TaskStatus::Exited => trimmed(names[k]) == "exited"@,
                TaskStatus::Killed => trimmed(names[k]) == "killed"@,
                TaskStatus::Unknown => trimmed(names[k]) == "unknown"@,
            },
    decreases names.len(),
{
    if names.len() > 0 {
        let rest = names.drop_first();
        lemma_named_statuses_mean(rest);
        assert(forall|k: int| 0 <= k < rest.len() ==> #[trigger] rest[k] == names[k + 1]);
        assert forall|k: int| 0 < k < names.len() implies #[trigger] names[k] == rest[k - 1] by {}
        if forall|k: int| 0 <= k < names.len() ==> names_finished(#[trigger] names[k]) {
            assert(names_finished(names[0]));
            assert forall|k: int| 0 <= k < rest.len() implies names_finished(#[trigger] rest[k]) by {
                assert(names_finished(names[k + 1]));
            }
        }
        if let Ok(statuses) = named_statuses(names) {
            let more = named_statuses(rest)->Ok_0;
            assert forall|k: int| 0 <= k < names.len() implies names_finished(
                #[trigger] names[k],
            ) by {
                if k > 0 {
                    assert(names_finished(rest[k - 1]));
                }
            }
            assert forall|k: int| #![trigger statuses[k]] 0 <= k < names.len() implies match
                statuses[k] {
                TaskStatus::Running => false,
                TaskStatus::Exited => trimmed(names[k]) == "exited"@,
                TaskStatus::Killed => trimmed(names[k]) == "killed"@,
                TaskStatus::Unknown => trimmed(names[k]) == "unknown"@,
            } by {
                if k > 0 {
                    assert(statuses[k] == more[k - 1]);
                    assert(names[k] == rest[k - 1]);
                }
            }
        }
    }
}

proof fn lemma_first_wrong_name(names: Seq<Seq<char>>, k: int)
    requires
        0 <= k < names.len(),
        !names_finished(names[k]),
        forall|j: int| 0 <= j < k ==> names_finished(#[trigger] names[j]),
    ensures
        named_statuses(names) == Err::<Seq<TaskStatus>, GhostErrorView>(
            named_status(trimmed(names[k]))->Err_0,
        ),
    decreases names.len(),
{
    if k > 0 {
        let rest = names.drop_first();
        assert(names_finished(names[0]));
        assert forall|j: int| 0 <= j < k - 1 implies names_finished(#[trigger] rest[j]) by {
            assert(names_finished(names[j + 1]));
        }
        lemma_first_wrong_name(rest, k - 1);
    }
}

/// How a list of statuses is shown: the name of each, in order, with a comma and a blank
/// between each two neighbours.
pub proof fn law_status_list(statuses: Seq<TaskStatus>)
    ensures
        ({
            let names = Seq::new(
                statuses.len(),
                |k: int|
                    match statuses[k] {
                        TaskStatus::Running => "running"@,
                        TaskStatus::Exited => "exited"@,
                        TaskStatus::Killed => "killed"@,
                        TaskStatus::Unknown => "unknown"@,
                    },
            );
            status_list(statuses) == joined(names, ", "@)
        }),
{
    let names = Seq::new(
        statuses.len(),
        |k: int|
            match statuses[k] {
                TaskStatus::Running => "running"@,
                TaskStatus::Exited => "exited"@,
                TaskStatus::Killed => "killed"@,
                TaskStatus::Unknown => "unknown"@,
            },
    );
    assert(status_names(statuses) =~= names);
}

} // verus!
