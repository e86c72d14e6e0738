//! The filters that recognise the steps of a command in its output.

use vstd::prelude::*;
use vstd::string::*;

use crate::detail::Detail;
use crate::osc;
use crate::pattern::Pattern;
use crate::text;

verus! {

/// The type of the filters that recognise a step.
pub const STEP_FILTER: &'static str = "step";

/// A regular expression to look for in the output of commands.
pub struct RegexFilter {
    pub filter_type: String,
    pub name: String,
    pub pattern: String,
    pub detail: Option<String>,
    /// The pattern in compiled form; a filter without it matches nothing.
    pub regex: Option<Pattern>,
}

/// A filter, with its texts as sequences of characters.
#[verifier::ext_equal]
pub struct FilterView {
    pub filter_type: Seq<char>,
    pub name: Seq<char>,
    pub pattern: Seq<char>,
    pub detail: Option<Seq<char>>,
    pub regex: Option<Seq<char>>,
}

impl View for RegexFilter {
    type V = FilterView;

    open spec fn view(&self) -> FilterView {
        FilterView {
            filter_type: self.filter_type@,
            name: self.name@,
            pattern: self.pattern@,
            detail: self.detail.deep_view(),
            regex: match self.regex {
                Some(regex) => Some(regex@),
                None => None,
            },
        }
    }
}

/// The filters of a list, with their texts as sequences of characters.
pub open spec fn filter_views(filters: Seq<RegexFilter>) -> Seq<FilterView> {
    filters.map_values(|filter: RegexFilter| filter@)
}

/// What the first `n` capture groups hold, by the names of those that have one; the whole match
/// is not among them.
pub open spec fn named_groups(
    names: Seq<Option<Seq<char>>>,
    groups: Seq<Option<Seq<char>>>,
    n: nat,
) -> Map<Seq<char>, Seq<char>>
    decreases n,
{
    if n <= 1 {
        Map::empty()
    } else {
        let rest = named_groups(names, groups, (n - 1) as nat);
        match (names[n - 1], osc::group(Some(groups), n - 1)) {
            (Some(name), Some(value)) => rest.insert(name, value),
            _ => rest,
        }
    }
}

/// What the named capture groups hold, where any of them holds something.
pub open spec fn detail_of(
    names: Seq<Option<Seq<char>>>,
    groups: Seq<Option<Seq<char>>>,
) -> Option<Map<Seq<char>, Seq<char>>> {
    let named = named_groups(names, groups, names.len());
    if named == Map::<Seq<char>, Seq<char>>::empty() {
        None
    } else {
        Some(named)
    }
}

/// Whether the values of a detail, where there is one, are stretches of `line`, and there are some.
pub open spec fn values_stand_in(
    detail: Option<Map<Seq<char>, Seq<char>>>,
    line: Seq<char>,
) -> bool {
    detail matches Some(detail) ==> {
        &&& detail != Map::<Seq<char>, Seq<char>>::empty()
        &&& forall|name: Seq<char>| #[trigger]
            detail.contains_key(name) ==> text::contains_text(line, detail[name])
    }
}

/// What the named capture groups hold, where any of them holds something.
pub fn named_captures(names: &Vec<Option<String>>, groups: &Vec<Option<String>>) -> (r: Option<
    Detail,
>)
    ensures
        r.deep_view() == detail_of(names.deep_view(), groups.deep_view()),
        r matches Some(detail) ==> detail.wf(),
{
    let mut detail = Detail::new();
    let mut i: usize = 1;
    while i < names.len()
        invariant
            i == 1 || 1 < i <= names@.len(),
            detail.wf(),
            detail@ == named_groups(names.deep_view(), groups.deep_view(), i as nat),
        decreases names@.len() - i,
    {
        if let Some(name) = &names[i] {
            if i < groups.len() {
                if let Some(value) = &groups[i] {
                    detail.insert(name.clone(), value.clone());
                }
            }
        }
        i += 1;
    }
    assert(detail@ == named_groups(names.deep_view(), groups.deep_view(), names@.len()));
    if detail.is_empty() {
        None
    } else {
        Some(detail)
    }
}

/// What named capture groups hold is what groups hold.
proof fn named_groups_stand_in(
    names: Seq<Option<Seq<char>>>,
    groups: Seq<Option<Seq<char>>>,
    n: nat,
    line: Seq<char>,
)
    requires
        crate::pattern::groups_stand_in(Some(groups), line),
    ensures
        forall|name: Seq<char>| #[trigger]
            named_groups(names, groups, n).contains_key(name) ==> text::contains_text(
                line,
                named_groups(names, groups, n)[name],
            ),
    decreases n,
{
    if n > 1 {
        named_groups_stand_in(names, groups, (n - 1) as nat, line);
        let rest = named_groups(names, groups, (n - 1) as nat);
        let all = named_groups(names, groups, n);
        assert forall|name: Seq<char>| #[trigger]
            all.contains_key(name) implies text::contains_text(line, all[name]) by {
            if n - 1 < groups.len() && groups[n - 1] is Some {
                assert(text::contains_text(line, groups[n - 1]->0));
            }
            if rest.contains_key(name) {
                assert(text::contains_text(line, rest[name]));
            }
        }
    }
}

/// Whether the filter recognises a step in `line`.
pub open spec fn filter_matches(filter: FilterView, line: Seq<char>) -> bool {
    &&& filter.filter_type == STEP_FILTER@
    &&& filter.regex matches Some(regex) && crate::pattern::regex_captures(regex, line) is Some
}

/// The step that the first filter that matches recognises in `line`: its name and what the named
/// capture groups hold. The name is empty where no filter matches.
pub open spec fn step_in(filters: Seq<FilterView>, line: Seq<char>) -> (
    Seq<char>,
    Option<Map<Seq<char>, Seq<char>>>,
)
    decreases filters.len(),
{
    if filters.len() == 0 {
        (Seq::empty(), None)
    } else if filter_matches(filters.first(), line) {
        let regex = filters.first().regex->0;
        (
            filters.first().name,
            detail_of(
                crate::pattern::regex_group_names(regex),
                crate::pattern::regex_captures(regex, line)->0,
            ),
        )
    } else {
        step_in(filters.drop_first(), line)
    }
}

/// The step that the first filter that matches recognises in `line`: its name and what the named
/// capture groups hold. The name is empty where no filter matches.
pub fn match_step_event(line: &str, filters: &[RegexFilter]) -> (r: (String, Option<Detail>))
    ensures
        (r.0@, r.1.deep_view()) == step_in(filter_views(filters@), line@),
        r.1 matches Some(detail) ==> detail.wf(),
        values_stand_in(r.1.deep_view(), line@),
{
    let mut i: usize = 0;
    assert(filter_views(filters@).skip(0) =~= filter_views(filters@));
    while i < filters.len()
        invariant
            i <= filters@.len(),
            step_in(filter_views(filters@), line@) == step_in(
                filter_views(filters@).skip(i as int),
                line@,
            ),
        decreases filters@.len() - i,
    {
        let filter = &filters[i];
        assert(filter_views(filters@).skip(i as int).drop_first() =~= filter_views(filters@).skip(
            i + 1,
        ));
        if text::same_text(filter.filter_type.as_str(), STEP_FILTER) {
            if let Some(regex) = &filter.regex {
                if let Some(groups) = regex.captures(line) {
                    proof {
                        let names = crate::pattern::regex_group_names(regex@);
                        named_groups_stand_in(names, groups.deep_view(), names.len(), line@);
                    }
                    return (filter.name.clone(), named_captures(&regex.capture_names(), &groups));
                }
            }
        }
        i += 1;
    }
    (String::new(), None)
}

/// Filters, or the pattern that stands in the way of having them, as sequences of characters.
pub open spec fn outcome_view(outcome: Result<Vec<RegexFilter>, String>) -> Result<
    Seq<FilterView>,
    Seq<char>,
> {
    match outcome {
        Ok(filters) => Ok(filter_views(filters@)),
        Err(pattern) => Err(pattern@),
    }
}

/// Compiled patterns, where there are any, by the texts that they were compiled from.
pub open spec fn regex_views(compiled: Seq<Option<Pattern>>) -> Seq<Option<Seq<char>>> {
    Seq::new(
        compiled.len(),
        |i: int|
            match compiled[i] {
                Some(regex) => Some(regex@),
                None => None,
            },
    )
}

/// Whether the list holds a compiled form for the filter at index `i`.
pub open spec fn has_regex(regexes: Seq<Option<Seq<char>>>, i: int) -> bool {
    i < regexes.len() && regexes[i] is Some
}

/// Whether the outcome is `incoming` with the listed compiled forms, each for the filter at the
/// same index, or the pattern of the first filter for which the list holds none.
pub open spec fn is_attached(
    incoming: Seq<FilterView>,
    regexes: Seq<Option<Seq<char>>>,
    outcome: Result<Seq<FilterView>, Seq<char>>,
) -> bool {
    match outcome {
        Ok(filters) => {
            &&& filters.len() == incoming.len()
            &&& forall|i: int| 0 <= i < incoming.len() ==> #[trigger] has_regex(regexes, i)
            &&& forall|i: int|
                0 <= i < incoming.len() ==> #[trigger] filters[i] == (FilterView {
                    regex: regexes[i],
                    ..incoming[i]
                })
        },
        Err(pattern) => exists|i: int|
            {
                &&& 0 <= i < incoming.len()
                &&& !#[trigger] has_regex(regexes, i)
                &&& forall|j: int| 0 <= j < i ==> #[trigger] has_regex(regexes, j)
                &&& incoming[i].pattern == pattern
            },
    }
}

/// Whether compiling the patterns of `incoming` may give the listed compiled forms: each is that of
/// the pattern at the same index or is missing, which it is for none of the library's own patterns.
pub open spec fn is_compilation(
    incoming: Seq<FilterView>,
    regexes: Seq<Option<Seq<char>>>,
) -> bool {
    &&& regexes.len() == incoming.len()
    &&& forall|i: int|
        0 <= i < incoming.len() ==> match #[trigger] regexes[i] {
            Some(regex) => regex == incoming[i].pattern,
            None => !crate::pattern::is_own_pattern(incoming[i].pattern),
        }
}

/// Whether compiling `incoming` may have the given outcome: all the filters, each with the compiled
/// form of its pattern, or the first pattern that was not compiled, which is none of the library's
/// own.
pub open spec fn is_outcome(
    incoming: Seq<FilterView>,
    outcome: Result<Seq<FilterView>, Seq<char>>,
) -> bool {
    exists|regexes: Seq<Option<Seq<char>>>|
        is_compilation(incoming, regexes) && #[trigger] is_attached(incoming, regexes, outcome)
}

/// The filters, each with the compiled form of its own pattern.
pub open spec fn compiled_forms(filters: Seq<FilterView>) -> Seq<FilterView> {
    Seq::new(
        filters.len(),
        |i: int| FilterView { regex: Some(filters[i].pattern), ..filters[i] },
    )
}

/// The filters of a request that is accepted are those that it sent, each with the compiled form of
/// its own pattern. A request with none but the library's own patterns is accepted.
pub proof fn accepted_filters_are_those_sent(
    incoming: Seq<FilterView>,
    outcome: Result<Seq<FilterView>, Seq<char>>,
)
    requires
        is_outcome(incoming, outcome),
    ensures
        outcome matches Ok(filters) ==> filters == compiled_forms(incoming),
        (forall|i: int|
            0 <= i < incoming.len() ==> crate::pattern::is_own_pattern(
                (#[trigger] incoming[i]).pattern,
            )) ==> outcome is Ok,
{
    let regexes = choose|regexes: Seq<Option<Seq<char>>>|
        is_compilation(incoming, regexes) && #[trigger] is_attached(incoming, regexes, outcome);
    if let Ok(filters) = outcome {
        assert forall|i: int| 0 <= i < incoming.len() implies filters[i] == compiled_forms(
            incoming,
        )[i] by {
            assert(has_regex(regexes, i));
            assert(regexes[i] is Some);
        }
        assert(filters =~= compiled_forms(incoming));
    }
}

/// The filters with the compiled forms of their patterns, which are listed in the same order, or
/// the pattern of the first filter for which the list holds none.
pub fn attach_regexes(incoming: &[RegexFilter], compiled: Vec<Option<Pattern>>) -> (r: Result<
    Vec<RegexFilter>,
    String,
>)
    ensures
        is_attached(filter_views(incoming@), regex_views(compiled@), outcome_view(r)),
{
    let ghost regexes = regex_views(compiled@);
    let mut rest = compiled;
    let mut filters: Vec<RegexFilter> = Vec::new();
    let mut i: usize = 0;
    while i < incoming.len()
        invariant
            i <= incoming@.len(),
            filters@.len() == i,
            regexes == regex_views(compiled@),
            rest@.len() == compiled@.len(),
            forall|j: int| i <= j < compiled@.len() ==> #[trigger] rest@[j] == compiled@[j],
            forall|j: int| 0 <= j < i ==> #[trigger] has_regex(regexes, j),
            forall|j: int|
                0 <= j < i ==> (#[trigger] filters@[j])@ == (FilterView {
                    regex: regexes[j],
                    ..incoming@[j]@
                }),
        decreases incoming@.len() - i,
    {
        let regex = if i < rest.len() {
            rest[i].take()
        } else {
            None
        };
        let filter = &incoming[i];
        if regex.is_none() {
            assert(!has_regex(regexes, i as int));
            assert(filter_views(incoming@)[i as int].pattern == filter.pattern@);
            return Err(filter.pattern.clone());
        }
        filters.push(
            RegexFilter {
                filter_type: filter.filter_type.clone(),
                name: filter.name.clone(),
                pattern: filter.pattern.clone(),
                detail: filter.detail.clone(),
                regex,
            },
        );
        assert(has_regex(regexes, i as int));
        assert(filters@[i as int]@ =~= FilterView {
            regex: regexes[i as int],
            ..incoming@[i as int]@
        });
        i += 1;
    }
    Ok(filters)
}

/// The filters with their patterns in compiled form, or the first pattern among them that could not
/// be compiled. The library's own patterns always can be. Which others can be rests on the machine,
/// because `regex` refuses what takes too much memory.
pub fn compile_filters(incoming: &[RegexFilter]) -> (r: Result<Vec<RegexFilter>, String>)
    ensures
        is_outcome(filter_views(incoming@), outcome_view(r)),
        r matches Ok(filters) ==> filter_views(filters@) == compiled_forms(
            filter_views(incoming@),
        ),
        (forall|i: int|
            0 <= i < incoming@.len() ==> crate::pattern::is_own_pattern(
                (#[trigger] filter_views(incoming@)[i]).pattern,
            )) ==> r is Ok,
{
    let mut compiled: Vec<Option<Pattern>> = Vec::new();
    let mut i: usize = 0;
    while i < incoming.len()
        invariant
            i <= incoming@.len(),
            compiled@.len() == i,
            forall|j: int|
                0 <= j < i ==> match #[trigger] compiled@[j] {
                    Some(regex) => regex@ == incoming@[j]@.pattern,
                    None => !crate::pattern::is_own_pattern(incoming@[j]@.pattern),
                },
        decreases incoming@.len() - i,
    {
        compiled.push(Pattern::compile(incoming[i].pattern.as_str()));
        i += 1;
    }
    proof {
        let regexes = regex_views(compiled@);
        assert forall|j: int| 0 <= j < incoming@.len() implies match #[trigger] regexes[j] {
            Some(regex) => regex == filter_views(incoming@)[j].pattern,
            None => !crate::pattern::is_own_pattern(filter_views(incoming@)[j].pattern),
        } by {
            assert(compiled@[j] is Some == regexes[j] is Some);
        }
        assert(is_compilation(filter_views(incoming@), regexes));
    }
    let r = attach_regexes(incoming, compiled);
    proof {
        accepted_filters_are_those_sent(filter_views(incoming@), outcome_view(r));
    }
    r
}

/// The answer to a request that sends filters.
pub struct FilterReply {
    /// The status code in HTTP.
    pub status: u16,
    pub body: String,
}

impl View for FilterReply {
    type V = (u16, Seq<char>);

    open spec fn view(&self) -> (u16, Seq<char>) {
        (self.status, self.body@)
    }
}

/// The status code for a request that was done.
pub const STATUS_OK: u16 = 200;

/// The status code for a request that was refused.
pub const STATUS_BAD_REQUEST: u16 = 400;

/// The body of the answer to a request that was done.
pub const DONE: &'static str = "OK";

/// What the body of the answer to a request that was refused begins with.
pub const INVALID_REGEX: &'static str = "Invalid regex: ";

/// The filters after a request whose filters were compiled with the given outcome: the new ones, or
/// where there are none the current ones.
pub open spec fn installed(
    current: Seq<FilterView>,
    outcome: Result<Seq<FilterView>, Seq<char>>,
) -> Seq<FilterView> {
    match outcome {
        Ok(filters) => filters,
        Err(_) => current,
    }
}

/// The answer to a request whose filters were compiled with the given outcome.
pub open spec fn reply_to(outcome: Result<Seq<FilterView>, Seq<char>>) -> (u16, Seq<char>) {
    match outcome {
        Ok(_) => (STATUS_OK, DONE@),
        Err(pattern) => (STATUS_BAD_REQUEST, INVALID_REGEX@ + pattern),
    }
}

/// Puts compiled filters in the place of the current ones, and answers the request that sent
/// them. Where a pattern could not be compiled the current filters stay as they are.
pub fn install_filters(
    current: &mut Vec<RegexFilter>,
    compiled: Result<Vec<RegexFilter>, String>,
) -> (r: FilterReply)
    ensures
        filter_views(final(current)@) == installed(
            filter_views(old(current)@),
            outcome_view(compiled),
        ),
        r@ == reply_to(outcome_view(compiled)),
        match compiled {
            Ok(filters) => {
                &&& *final(current) == filters
                &&& r.status == STATUS_OK
                &&& r.body@ == DONE@
            },
            Err(pattern) => {
                &&& *final(current) == *old(current)
                &&& r.status == STATUS_BAD_REQUEST
                &&& r.body@ == INVALID_REGEX@ + pattern@
            },
        },
{
    match compiled {
        Ok(filters) => {
            *current = filters;
            FilterReply { status: STATUS_OK, body: DONE.to_string() }
        },
        Err(pattern) => FilterReply {
            status: STATUS_BAD_REQUEST,
            body: INVALID_REGEX.to_string().concat(pattern.as_str()),
        },
    }
}

/// Filters that are not for steps make no difference.
pub proof fn other_filters_are_ignored(filters: Seq<FilterView>, line: Seq<char>)
    ensures
        step_in(filters, line) == step_in(
            filters.filter(|filter: FilterView| filter.filter_type == STEP_FILTER@),
            line,
        ),
    decreases filters.len(),
{
    let is_step = |filter: FilterView| filter.filter_type == STEP_FILTER@;
    if filters.len() > 0 {
        let rest = filters.drop_first();
        other_filters_are_ignored(rest, line);
        rest.lemma_filter_prepend(filters.first(), is_step);
        assert(seq![filters.first()] + rest =~= filters);
        if is_step(filters.first()) {
            assert((seq![filters.first()] + rest.filter(is_step)).drop_first() =~= rest.filter(
                is_step,
            ));
        }
    } else {
        assert(filters.filter(is_step) =~= filters) by {
            filters.lemma_filter_len(is_step);
        }
    }
}

/// The first filter that matches decides: what stands behind it makes no difference, and neither
/// do filters before it that do not match. Where none matches there is no step.
pub proof fn first_match_decides(filters: Seq<FilterView>, later: Seq<FilterView>, line: Seq<char>)
    ensures
        (exists|i: int| 0 <= i < filters.len() && filter_matches(#[trigger] filters[i], line))
            ==> step_in(filters + later, line) == step_in(filters, line),
        (forall|i: int| 0 <= i < filters.len() ==> !filter_matches(#[trigger] filters[i], line))
            ==> step_in(filters, line) == (
            Seq::<char>::empty(),
            None::<Map<Seq<char>, Seq<char>>>,
        ) && step_in(filters + later, line) == step_in(later, line),
    decreases filters.len(),
{
    if filters.len() > 0 {
        let rest = filters.drop_first();
        first_match_decides(rest, later, line);
        assert((filters + later).drop_first() =~= rest + later);
        assert((filters + later).first() == filters.first());
        if !filter_matches(filters.first(), line) {
            assert forall|i: int|
                0 <= i < filters.len() && filter_matches(
                    #[trigger] filters[i],
                    line,
                ) implies filter_matches(rest[i - 1], line) by {
                assert(rest[i - 1] == filters[i]);
            }
            assert forall|i: int| 0 <= i < rest.len() implies #[trigger] rest[i] == filters[i
                + 1] by {}
        }
    } else {
        assert(filters + later =~= later);
    }
}

/// The filters after a series of requests, by the outcomes of compiling what they sent. Before the
/// first request there are none.
pub open spec fn after_requests(outcomes: Seq<Result<Seq<FilterView>, Seq<char>>>) -> Seq<
    FilterView,
>
    decreases outcomes.len(),
{
    if outcomes.len() == 0 {
        Seq::empty()
    } else {
        installed(after_requests(outcomes.drop_last()), outcomes.last())
    }
}

/// Whether every filter carries the compiled form of its own pattern.
pub open spec fn carry_own_patterns(filters: Seq<FilterView>) -> bool {
    forall|k: int|
        0 <= k < filters.len() ==> (#[trigger] filters[k]).regex == Some(filters[k].pattern)
}

/// Whatever requests came, accepted or refused, every current filter carries the compiled form of
/// its own pattern.
pub proof fn current_filters_carry_own_patterns(
    requests: Seq<Seq<FilterView>>,
    outcomes: Seq<Result<Seq<FilterView>, Seq<char>>>,
)
    requires
        requests.len() == outcomes.len(),
        forall|i: int| 0 <= i < requests.len() ==> is_outcome(requests[i], #[trigger] outcomes[i]),
    ensures
        carry_own_patterns(after_requests(outcomes)),
    decreases outcomes.len(),
{
    if outcomes.len() > 0 {
        let before = outcomes.drop_last();
        let requests_before = requests.drop_last();
        assert forall|i: int| 0 <= i < before.len() implies is_outcome(
            requests_before[i],
            #[trigger] before[i],
        ) by {
            assert(before[i] == outcomes[i]);
        }
        current_filters_carry_own_patterns(requests_before, before);
        assert(is_outcome(requests.last(), outcomes[outcomes.len() - 1]));
        if let Ok(filters) = outcomes.last() {
            accepted_filters_are_those_sent(requests.last(), outcomes.last());
            assert(filters == compiled_forms(requests.last()));
        }
    }
}

/// The current filters are those of the last request that was accepted.
pub proof fn last_accepted_filters_hold(
    outcomes: Seq<Result<Seq<FilterView>, Seq<char>>>,
    accepted: int,
)
    requires
        0 <= accepted < outcomes.len(),
        outcomes[accepted] is Ok,
        forall|j: int| accepted < j < outcomes.len() ==> #[trigger] outcomes[j] is Err,
    ensures
        after_requests(outcomes) == outcomes[accepted]->Ok_0,
    decreases outcomes.len(),
{
    let before = outcomes.drop_last();
    if accepted < before.len() {
        assert forall|j: int| accepted < j < before.len() implies #[trigger] before[j] is Err by {
            assert(outcomes[j] is Err);
        }
        last_accepted_filters_hold(before, accepted);
        assert(outcomes[outcomes.len() - 1] is Err);
    }
}

/// There are no filters until a request is accepted.
pub proof fn no_filters_at_first(outcomes: Seq<Result<Seq<FilterView>, Seq<char>>>)
    requires
        forall|i: int| 0 <= i < outcomes.len() ==> #[trigger] outcomes[i] is Err,
    ensures
        after_requests(outcomes) == Seq::<FilterView>::empty(),
    decreases outcomes.len(),
{
    if outcomes.len() > 0 {
        let before = outcomes.drop_last();
        assert forall|i: int| 0 <= i < before.len() implies #[trigger] before[i] is Err by {
            assert(outcomes[i] is Err);
        }
        no_filters_at_first(before);
        assert(outcomes[outcomes.len() - 1] is Err);
    }
}

/// A request that is repeated at once, and whose patterns are compiled or refused as before, gets
/// the same answer and changes no filter.
pub proof fn repeated_request_changes_nothing(
    current: Seq<FilterView>,
    incoming: Seq<FilterView>,
    regexes: Seq<Option<Seq<char>>>,
    first: Result<Seq<FilterView>, Seq<char>>,
    second: Result<Seq<FilterView>, Seq<char>>,
)
    requires
        is_attached(incoming, regexes, first),
        is_attached(incoming, regexes, second),
    ensures
        reply_to(second) == reply_to(first),
        installed(installed(current, first), second) == installed(current, first),
{
    match (first, second) {
        (Ok(a), Ok(b)) => {
            assert(a =~= b);
        },
        (Err(a), Err(b)) => {
            let i = choose|i: int|
                {
                    &&& 0 <= i < incoming.len()
                    &&& !#[trigger] has_regex(regexes, i)
                    &&& forall|j: int| 0 <= j < i ==> #[trigger] has_regex(regexes, j)
                    &&& incoming[i].pattern == a
                };
            let k = choose|k: int|
                {
                    &&& 0 <= k < incoming.len()
                    &&& !#[trigger] has_regex(regexes, k)
                    &&& forall|j: int| 0 <= j < k ==> #[trigger] has_regex(regexes, j)
                    &&& incoming[k].pattern == b
                };
            assert(i == k);
        },
        _ => {},
    }
}

/// Whether capture group `i` is one with a name that took part in a match.
pub open spec fn took_part(
    names: Seq<Option<Seq<char>>>,
    groups: Seq<Option<Seq<char>>>,
    i: int,
) -> bool {
    1 <= i < names.len() && i < groups.len() && names[i] is Some && groups[i] is Some
}

/// The detail tells of every group with a name that took part what it holds, the last one where
/// several have the same name, and tells of nothing else. There is one exactly where any took part.
pub proof fn detail_tells_of_every_named_group(
    names: Seq<Option<Seq<char>>>,
    groups: Seq<Option<Seq<char>>>,
)
    ensures
        forall|i: int|
            #[trigger] took_part(names, groups, i) && (forall|j: int|
                i < j && #[trigger] took_part(names, groups, j) ==> names[j] != names[i]) ==> {
                &&& detail_of(names, groups) is Some
                &&& detail_of(names, groups)->0.contains_key(names[i]->0)
                &&& detail_of(names, groups)->0[names[i]->0] == groups[i]->0
            },
        forall|name: Seq<char>|
            detail_of(names, groups) is Some && #[trigger] detail_of(
                names,
                groups,
            )->0.contains_key(name) ==> exists|i: int| #[trigger]
                took_part(names, groups, i) && names[i] == Some(name),
        detail_of(names, groups) is Some <==> exists|i: int| took_part(names, groups, i),
{
    let n = names.len();
    let all = named_groups(names, groups, n);
    named_groups_by_index(names, groups, n);
    assert forall|i: int| took_part(names, groups, i) implies all != Map::<
        Seq<char>,
        Seq<char>,
    >::empty() by {
        assert(all.contains_key(names[i]->0));
    }
    if !(exists|i: int| took_part(names, groups, i)) {
        assert forall|name: Seq<char>| !all.contains_key(name) by {
            if all.contains_key(name) {
                let i = choose|i: int|
                    i < n && #[trigger] took_part(names, groups, i) && names[i] == Some(name);
                assert(took_part(names, groups, i));
            }
        }
        assert(all =~= Map::empty());
    }
}

proof fn named_groups_by_index(
    names: Seq<Option<Seq<char>>>,
    groups: Seq<Option<Seq<char>>>,
    n: nat,
)
    requires
        n <= names.len(),
    ensures
        forall|i: int|
            i < n && #[trigger] took_part(names, groups, i) ==> named_groups(
                names,
                groups,
                n,
            ).contains_key(names[i]->0),
        forall|i: int|
            i < n && #[trigger] took_part(names, groups, i) && (forall|j: int|
                i < j < n && #[trigger] took_part(names, groups, j) ==> names[j] != names[i])
                ==> named_groups(names, groups, n)[names[i]->0] == groups[i]->0,
        forall|name: Seq<char>| #[trigger]
            named_groups(names, groups, n).contains_key(name) ==> exists|i: int|
                i < n && #[trigger] took_part(names, groups, i) && names[i] == Some(name),
    decreases n,
{
    if n > 1 {
        let m = (n - 1) as nat;
        let rest = named_groups(names, groups, m);
        let all = named_groups(names, groups, n);
        named_groups_by_index(names, groups, m);
        assert(took_part(names, groups, m as int) ==> all == rest.insert(
            names[m as int]->0,
            groups[m as int]->0,
        ));
        assert(!took_part(names, groups, m as int) ==> all == rest);
        assert forall|i: int|
            i < n && #[trigger] took_part(names, groups, i) && (forall|j: int|
                i < j < n && #[trigger] took_part(names, groups, j) ==> names[j]
                    != names[i]) implies all[names[i]->0] == groups[i]->0 by {
            if i < m {
                assert(took_part(names, groups, m as int) ==> names[m as int] != names[i]);
                assert(forall|j: int|
                    i < j < m && #[trigger] took_part(names, groups, j) ==> names[j] != names[i]);
            }
        }
        assert forall|name: Seq<char>| #[trigger] all.contains_key(name) implies exists|i: int|
            i < n && #[trigger] took_part(names, groups, i) && names[i] == Some(name) by {
            if rest.contains_key(name) {
                let i = choose|i: int|
                    i < m && #[trigger] took_part(names, groups, i) && names[i] == Some(name);
                assert(took_part(names, groups, i));
            } else {
                assert(took_part(names, groups, m as int));
            }
        }
    }
}

/// Whether a filter is for steps and a search with its compiled pattern finds something in `line`.
pub open spec fn finds_step(filter: FilterView, line: Seq<char>) -> bool {
    &&& filter.filter_type == "step"@
    &&& filter.regex is Some
    &&& crate::pattern::regex_captures(filter.regex->0, line) is Some
}

/// The step is that of the first filter for steps whose pattern is found, wherever in the list it
/// stands: its name, and what its named groups hold. Where there is no such filter there is no step.
pub proof fn step_of_the_first_that_finds(filters: Seq<FilterView>, line: Seq<char>)
    ensures
        forall|i: int|
            0 <= i < filters.len() && #[trigger] finds_step(filters[i], line) && (forall|j: int|
                0 <= j < i ==> !#[trigger] finds_step(filters[j], line)) ==> step_in(filters, line)
                == (
                filters[i].name,
                detail_of(
                    crate::pattern::regex_group_names(filters[i].regex->0),
                    crate::pattern::regex_captures(filters[i].regex->0, line)->0,
                ),
            ),
        (forall|i: int| 0 <= i < filters.len() ==> !#[trigger] finds_step(filters[i], line))
            ==> step_in(filters, line).0.len() == 0 && step_in(filters, line).1 is None,
        forall|filter: FilterView| filter_matches(filter, line) == #[trigger] finds_step(
            filter,
            line,
        ),
    decreases filters.len(),
{
    if filters.len() > 0 {
        let rest = filters.drop_first();
        step_of_the_first_that_finds(rest, line);
        assert forall|i: int|
            0 <= i < filters.len() && #[trigger] finds_step(filters[i], line) && (forall|j: int|
                0 <= j < i ==> !#[trigger] finds_step(filters[j], line)) implies step_in(
            filters,
            line,
        ) == (
            filters[i].name,
            detail_of(
                crate::pattern::regex_group_names(filters[i].regex->0),
                crate::pattern::regex_captures(filters[i].regex->0, line)->0,
            ),
        ) by {
            if i > 0 {
                assert(!finds_step(filters[0], line));
                assert(rest[i - 1] == filters[i]);
                assert forall|j: int| 0 <= j < i - 1 implies !#[trigger] finds_step(
                    rest[j],
                    line,
                ) by {
                    assert(!finds_step(filters[j + 1], line));
                }
            }
        }
        if forall|i: int| 0 <= i < filters.len() ==> !#[trigger] finds_step(filters[i], line) {
            assert(!finds_step(filters[0], line));
            assert forall|j: int| 0 <= j < rest.len() implies !#[trigger] finds_step(
                rest[j],
                line,
            ) by {
                assert(!finds_step(filters[j + 1], line));
            }
        }
    }
}

/// Filters that get their compiled forms stay what they are and where they are in the list, and
/// each gets the form that is listed for it. Where one is missing, the pattern that is told is that
/// of the first filter without one.
pub proof fn attached_filters_stay_themselves(
    incoming: Seq<FilterView>,
    regexes: Seq<Option<Seq<char>>>,
    outcome: Result<Seq<FilterView>, Seq<char>>,
)
    requires
        is_attached(incoming, regexes, outcome),
    ensures
        outcome is Ok <==> (forall|i: int|
            0 <= i < incoming.len() ==> i < regexes.len() && #[trigger] regexes[i] is Some),
        outcome matches Ok(filters) ==> {
            &&& filters.len() == incoming.len()
            &&& forall|i: int|
                0 <= i < incoming.len() ==> {
                    &&& (#[trigger] filters[i]).filter_type == incoming[i].filter_type
                    &&& filters[i].name == incoming[i].name
                    &&& filters[i].pattern == incoming[i].pattern
                    &&& filters[i].detail == incoming[i].detail
                    &&& filters[i].regex == regexes[i]
                }
        },
        outcome matches Err(pattern) ==> exists|i: int|
            {
                &&& 0 <= i < incoming.len()
                &&& (#[trigger] incoming[i]).pattern == pattern
                &&& i < regexes.len() ==> regexes[i] is None
                &&& forall|j: int|
                    0 <= j < i ==> j < regexes.len() && #[trigger] regexes[j] is Some
            },
{
    match outcome {
        Ok(filters) => {
            assert forall|i: int| 0 <= i < incoming.len() implies i < regexes.len()
                && #[trigger] regexes[i] is Some by {
                assert(has_regex(regexes, i));
            }
        },
        Err(pattern) => {
            let i = choose|i: int|
                {
                    &&& 0 <= i < incoming.len()
                    &&& !#[trigger] has_regex(regexes, i)
                    &&& forall|j: int| 0 <= j < i ==> #[trigger] has_regex(regexes, j)
                    &&& incoming[i].pattern == pattern
                };
            assert forall|j: int| 0 <= j < i implies j < regexes.len()
                && #[trigger] regexes[j] is Some by {
                assert(has_regex(regexes, j));
            }
            assert(incoming[i].pattern == pattern);
            if forall|i: int|
                0 <= i < incoming.len() ==> i < regexes.len() && #[trigger] regexes[i] is Some {
                assert(regexes[i] is Some);
            }
        },
    }
}

/// Filters that were compiled stay what they are, each with the compiled form of its own pattern.
/// Where that fails, the pattern that is told is one of those sent and none of the library's own.
pub proof fn compiled_filters_stay_themselves(
    incoming: Seq<FilterView>,
    outcome: Result<Seq<FilterView>, Seq<char>>,
)
    requires
        is_outcome(incoming, outcome),
    ensures
        outcome matches Ok(filters) ==> {
            &&& filters.len() == incoming.len()
            &&& forall|i: int|
                0 <= i < incoming.len() ==> {
                    &&& (#[trigger] filters[i]).filter_type == incoming[i].filter_type
                    &&& filters[i].name == incoming[i].name
                    &&& filters[i].pattern == incoming[i].pattern
                    &&& filters[i].detail == incoming[i].detail
                    &&& filters[i].regex == Some(incoming[i].pattern)
                }
        },
        outcome matches Err(pattern) ==> {
            &&& exists|i: int|
                0 <= i < incoming.len() && (#[trigger] incoming[i]).pattern == pattern
            &&& !crate::pattern::is_own_pattern(pattern)
        },
{
    let regexes = choose|regexes: Seq<Option<Seq<char>>>|
        is_compilation(incoming, regexes) && #[trigger] is_attached(incoming, regexes, outcome);
    attached_filters_stay_themselves(incoming, regexes, outcome);
    if let Ok(filters) = outcome {
        assert forall|i: int| 0 <= i < incoming.len() implies (#[trigger] filters[i]).regex == Some(
            incoming[i].pattern,
        ) by {
            assert(regexes[i] is Some);
        }
    }
}

/// Filters that were compiled take the place of the current ones, all of them, and the answer is
/// that this was done; where a pattern was refused the current ones stay, all of them, and the
/// answer tells that pattern.
pub proof fn answer_tells_what_was_done(
    current: Seq<FilterView>,
    outcome: Result<Seq<FilterView>, Seq<char>>,
)
    ensures
        outcome matches Ok(filters) ==> {
            &&& installed(current, outcome) == filters
            &&& reply_to(outcome) == (200u16, "OK"@)
        },
        outcome matches Err(pattern) ==> {
            &&& installed(current, outcome) == current
            &&& reply_to(outcome) == (400u16, "Invalid regex: "@ + pattern)
        },
{
}

/// The view of a filter shows each of its parts, and that of a list each filter.
pub proof fn filters_are_seen_whole(filters: Seq<RegexFilter>)
    ensures
        filter_views(filters).len() == filters.len(),
        forall|i: int|
            0 <= i < filters.len() ==> {
                let seen = #[trigger] filter_views(filters)[i];
                &&& seen.filter_type == filters[i].filter_type@
                &&& seen.name == filters[i].name@
                &&& seen.pattern == filters[i].pattern@
                &&& seen.detail == filters[i].detail.deep_view()
                &&& seen.regex is Some == filters[i].regex is Some
                &&& seen.regex is Some ==> seen.regex->0 == filters[i].regex->0@
            },
{
}

/// The view of a list of compiled patterns shows each of them, and that of an outcome all that it
/// tells.
pub proof fn outcomes_are_seen_whole(
    compiled: Seq<Option<Pattern>>,
    outcome: Result<Vec<RegexFilter>, String>,
)
    ensures
        regex_views(compiled).len() == compiled.len(),
        forall|i: int|
            0 <= i < compiled.len() ==> {
                &&& #[trigger] regex_views(compiled)[i] is Some == compiled[i] is Some
                &&& compiled[i] is Some ==> regex_views(compiled)[i]->0 == compiled[i]->0@
            },
        outcome matches Ok(filters) ==> outcome_view(outcome) == Ok::<Seq<FilterView>, Seq<char>>(
            filter_views(filters@),
        ),
        outcome matches Err(pattern) ==> outcome_view(outcome) == Err::<
            Seq<FilterView>,
            Seq<char>,
        >(pattern@),
{
}

} // verus!
