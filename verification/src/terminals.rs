//! The terminals that are connected, by what their headers say of them.

use vstd::hash_map::StringHashMap;
use vstd::prelude::*;

verus! {

/// The header of a recording: who uses which shell, and where, and whatever else it says.
pub struct CastHeader<R> {
    pub username: Option<String>,
    pub directory: Option<String>,
    pub shell: Option<String>,
    /// What else the header says, which makes no difference to what is reported.
    pub rest: R,
}

/// Who uses which shell, and where, as far as a header says it, as sequences of characters.
#[verifier::ext_equal]
pub struct HeaderView {
    pub username: Option<Seq<char>>,
    pub directory: Option<Seq<char>>,
    pub shell: Option<Seq<char>>,
}

impl<R> View for CastHeader<R> {
    type V = HeaderView;

    open spec fn view(&self) -> HeaderView {
        HeaderView {
            username: self.username.deep_view(),
            directory: self.directory.deep_view(),
            shell: self.shell.deep_view(),
        }
    }
}

/// What happens to the table of the terminals.
pub enum TableStep<R> {
    /// The header of the connection with this identifier came.
    Header(Seq<char>, CastHeader<R>),
    /// The connection with this identifier was closed.
    Close(Seq<char>),
}

impl<R> TableStep<R> {
    /// The identifier of the connection that the step is of.
    pub open spec fn id(self) -> Seq<char> {
        match self {
            TableStep::Header(id, _) => id,
            TableStep::Close(id) => id,
        }
    }
}

/// What one step makes of the table.
pub open spec fn on_step<R>(
    table: Map<Seq<char>, CastHeader<R>>,
    step: TableStep<R>,
) -> Map<Seq<char>, CastHeader<R>> {
    match step {
        TableStep::Header(id, header) => table.insert(id, header),
        TableStep::Close(id) => table.remove(id),
    }
}

/// What a series of steps makes of the table.
pub open spec fn after_steps<R>(
    table: Map<Seq<char>, CastHeader<R>>,
    steps: Seq<TableStep<R>>,
) -> Map<Seq<char>, CastHeader<R>>
    decreases steps.len(),
{
    if steps.len() == 0 {
        table
    } else {
        on_step(after_steps(table, steps.drop_last()), steps.last())
    }
}

/// The headers of the terminals that are connected, each under the identifier of its connection.
#[verifier::reject_recursive_types(R)]
pub struct TerminalTable<R> {
    headers: StringHashMap<CastHeader<R>>,
}

impl<R> View for TerminalTable<R> {
    type V = Map<Seq<char>, CastHeader<R>>;

    closed spec fn view(&self) -> Map<Seq<char>, CastHeader<R>> {
        self.headers@
    }
}

impl<R> TerminalTable<R> {
    /// A table without terminals.
    pub fn new() -> (r: TerminalTable<R>)
        ensures
            r@ == Map::<Seq<char>, CastHeader<R>>::empty(),
    {
        TerminalTable { headers: StringHashMap::new() }
    }

    /// The header of the connection with the given identifier, where one came.
    pub fn header(&self, id: &str) -> (r: Option<&CastHeader<R>>)
        ensures
            r is Some == self@.contains_key(id@),
            r matches Some(header) ==> *header == self@[id@],
    {
        self.headers.get(id)
    }

    /// The header of a connection came.
    pub fn insert(&mut self, id: String, header: CastHeader<R>)
        ensures
            final(self)@ == on_step(old(self)@, TableStep::Header(id@, header)),
    {
        self.headers.insert(id, header);
    }

    /// A connection was closed.
    pub fn remove(&mut self, id: &str)
        ensures
            final(self)@ == on_step(old(self)@, TableStep::<R>::Close(id@)),
    {
        self.headers.remove(id);
    }
}

/// Whatever other terminals do, the table holds the header of a terminal from the moment it came
/// until the connection is closed, and from then on none for it.
pub proof fn header_is_kept_until_close<R>(
    table: Map<Seq<char>, CastHeader<R>>,
    id: Seq<char>,
    header: CastHeader<R>,
    open: Seq<TableStep<R>>,
    closed: Seq<TableStep<R>>,
)
    requires
        forall|i: int| 0 <= i < open.len() ==> (#[trigger] open[i]).id() != id,
        forall|i: int| 0 <= i < closed.len() ==> (#[trigger] closed[i]).id() != id,
    ensures
        ({
            let kept = after_steps(on_step(table, TableStep::Header(id, header)), open);
            let gone = after_steps(on_step(kept, TableStep::Close(id)), closed);
            &&& kept.contains_key(id)
            &&& kept[id] == header
            &&& !gone.contains_key(id)
        }),
{
    let first = on_step(table, TableStep::Header(id, header));
    let kept = after_steps(first, open);
    others_change_nothing(first, id, open);
    others_change_nothing(on_step(kept, TableStep::Close(id)), id, closed);
}

proof fn others_change_nothing<R>(
    table: Map<Seq<char>, CastHeader<R>>,
    id: Seq<char>,
    steps: Seq<TableStep<R>>,
)
    requires
        forall|i: int| 0 <= i < steps.len() ==> (#[trigger] steps[i]).id() != id,
    ensures
        after_steps(table, steps).contains_key(id) == table.contains_key(id),
        table.contains_key(id) ==> after_steps(table, steps)[id] == table[id],
    decreases steps.len(),
{
    if steps.len() > 0 {
        let before = steps.drop_last();
        assert forall|i: int| 0 <= i < before.len() implies (#[trigger] before[i]).id() != id by {
            assert(before[i] == steps[i]);
        }
        others_change_nothing(table, id, before);
        assert(steps[steps.len() - 1].id() != id);
    }
}

/// A step changes what the table holds of its own connection, and of no other: a header is kept
/// whole, in place of what was there, and after the close there is none.
pub proof fn step_changes_its_connection_alone<R>(
    table: Map<Seq<char>, CastHeader<R>>,
    step: TableStep<R>,
    other: Seq<char>,
)
    requires
        other != step.id(),
    ensures
        on_step(table, step).contains_key(other) == table.contains_key(other),
        table.contains_key(other) ==> on_step(table, step)[other] == table[other],
        step matches TableStep::Header(id, header) ==> on_step(table, step).contains_key(id)
            && on_step(table, step)[id] == header,
        step matches TableStep::Close(id) ==> !on_step(table, step).contains_key(id),
{
}

/// The view of a header shows who uses which shell, and where.
pub proof fn header_is_seen_whole<R>(header: CastHeader<R>)
    ensures
        header@.username == header.username.deep_view(),
        header@.directory == header.directory.deep_view(),
        header@.shell == header.shell.deep_view(),
{
}

} // verus!
