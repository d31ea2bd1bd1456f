//! What is said of a failure, in words.
use vstd::prelude::*;
use vstd::string::StringExecFns;

use crate::diagnostics::ReactorId;
use crate::effect::MAX_RUNS_PER_FLUSH;
use crate::id::{Location, NodeId};
use crate::reactor::{ReactCycleError, Reactor};
use crate::scope::ErrorInfo;

verus! {

/// The character of a decimal digit.
pub open spec fn digit(value: nat) -> char {
    (48 + value) as char
}

/// A number in decimal notation.
pub open spec fn decimal(value: nat) -> Seq<char>
    decreases value,
{
    if value < 10 {
        seq![digit(value)]
    } else {
        decimal(value / 10).push(digit(value % 10))
    }
}

/// A place in a program: the file, the line and the column, with colons between them.
pub open spec fn place_text(place: Location) -> Seq<char> {
    place.file@ + ":"@ + decimal(place.line as nat) + ":"@ + decimal(place.column as nat)
}

/// Where something was created, if that is known.
pub open spec fn created_at(origin: Option<Location>) -> Seq<char> {
    match origin {
        Some(place) => " (created at "@ + place_text(place) + ")"@,
        None => Seq::empty(),
    }
}

/// The nodes of a path up to `count`, with arrows between them, each with its creation site.
pub open spec fn path_text(path: Seq<u64>, sites: Seq<Option<Location>>, count: nat) -> Seq<char>
    decreases count,
{
    if count == 0 {
        Seq::empty()
    } else {
        let before = path_text(path, sites, (count - 1) as nat);
        let arrow = if count == 1 {
            before
        } else {
            before + " -> "@
        };
        let site = if count <= sites.len() {
            sites[count - 1]
        } else {
            None
        };
        arrow + decimal(path[count - 1] as nat) + created_at(site)
    }
}

/// What is said of a dependency cycle.
pub open spec fn cycle_text(path: Seq<u64>, sites: Seq<Option<Location>>) -> Seq<char> {
    "reactive cycle detected: "@ + path_text(path, sites, path.len())
}

/// What is said of an effect that does not converge.
pub open spec fn divergence_text(origin: Option<Location>) -> Seq<char> {
    "adaptite: effect created at "@ + (match origin {
        Some(place) => place_text(place),
        None => "<unknown>"@,
    }) + " ran more than "@ + decimal(MAX_RUNS_PER_FLUSH as nat)
        + " times in a single drain; this suggests a divergent reactive feedback loop (the effect writes state it depends on without converging)"@
}

/// What is said of an effect that failed: the effect, its creation site, and the message it failed
/// with, as far as they are known.
pub open spec fn failure_text(
    node: NodeId,
    origin: Option<Location>,
    message: Option<Seq<char>>,
) -> Seq<char> {
    let named = "effect "@ + decimal(node.0 as nat) + " panicked"@ + created_at(origin);
    match message {
        Some(message) => named + ": "@ + message,
        None => named,
    }
}

fn digit_text(value: u64) -> (text: &'static str)
    requires
        value < 10,
    ensures
        text@ == seq![digit(value as nat)],
{
    proof {
        reveal_strlit("0");
        reveal_strlit("1");
        reveal_strlit("2");
        reveal_strlit("3");
        reveal_strlit("4");
        reveal_strlit("5");
        reveal_strlit("6");
        reveal_strlit("7");
        reveal_strlit("8");
        reveal_strlit("9");
    }
    match value {
        0 => "0",
        1 => "1",
        2 => "2",
        3 => "3",
        4 => "4",
        5 => "5",
        6 => "6",
        7 => "7",
        8 => "8",
        _ => "9",
    }
}

fn append_number(text: &mut String, value: u64)
    ensures
        final(text)@ == old(text)@ + decimal(value as nat),
    decreases value,
{
    let ghost before = text@;
    if value >= 10 {
        append_number(text, value / 10);
    }
    text.append(digit_text(value % 10));
    assert(text@ =~= before + decimal(value as nat));
}

fn append_place(text: &mut String, place: &Location)
    ensures
        final(text)@ == old(text)@ + place_text(*place),
{
    let ghost before = text@;
    text.append(place.file);
    text.append(":");
    append_number(text, place.line as u64);
    text.append(":");
    append_number(text, place.column as u64);
    assert(text@ =~= before + place_text(*place));
}

fn append_origin(text: &mut String, origin: &Option<Location>)
    ensures
        final(text)@ == old(text)@ + created_at(*origin),
{
    let ghost before = text@;
    if let Some(place) = origin {
        text.append(" (created at ");
        append_place(text, place);
        text.append(")");
    }
    assert(text@ =~= before + created_at(*origin));
}

impl NodeId {
    /// Writes the identifier out.
    pub fn label(self) -> (label: String)
        ensures
            label@ == decimal(self.0 as nat),
    {
        let mut text = String::new();
        append_number(&mut text, self.0);
        assert(text@ =~= decimal(self.0 as nat));
        text
    }
}

impl ReactorId {
    /// Writes the identifier out, as that of a node is.
    pub fn label(self) -> (label: String)
        ensures
            label@ == decimal(self.0 as nat),
    {
        let mut text = String::new();
        append_number(&mut text, self.0);
        assert(text@ =~= decimal(self.0 as nat));
        text
    }
}

impl ReactCycleError {
    /// Names the nodes of the cycle, with the places where they were created.
    pub fn message(&self) -> (message: String)
        ensures
            message@ == cycle_text(self.path(), self.sites()),
    {
        let mut text = String::from_str("reactive cycle detected: ");
        let cycle = self.cycle();
        let origins = self.origins();
        let ghost start = text@;
        let mut index: usize = 0;
        while index < cycle.len()
            invariant
                index <= cycle.len(),
                cycle@.map_values(|node: NodeId| node.0) == self.path(),
                origins@ == self.sites(),
                text@ =~= start + path_text(self.path(), self.sites(), index as nat),
            decreases cycle.len() - index,
        {
            let ghost before = text@;
            if index != 0 {
                text.append(" -> ");
            }
            let node = cycle[index];
            assert(self.path()[index as int] == node.0);
            append_number(&mut text, node.get());
            let origin = if index < origins.len() {
                origins[index]
            } else {
                None
            };
            append_origin(&mut text, &origin);
            index = index + 1;
            assert(text@ =~= start + path_text(self.path(), self.sites(), index as nat));
        }
        assert(self.path().len() == cycle.len());
        text
    }
}

impl Reactor {
    /// Says that an effect does not converge, and where it was created.
    pub fn divergence_message(&self, node: NodeId) -> (message: String)
        ensures
            message@ == divergence_text(self@.origin(node.0)),
    {
        let mut text = String::from_str("adaptite: effect created at ");
        match self.node_origin(node) {
            Some(place) => append_place(&mut text, &place),
            None => text.append("<unknown>"),
        }
        text.append(" ran more than ");
        append_number(&mut text, MAX_RUNS_PER_FLUSH as u64);
        text.append(
            " times in a single drain; this suggests a divergent reactive feedback loop (the effect writes state it depends on without converging)",
        );
        assert(text@ =~= divergence_text(self@.origin(node.0)));
        text
    }
}

impl<P> ErrorInfo<P> {
    /// Says which effect failed, where it was created, and with what message, if there is one.
    pub fn describe(&self, message: Option<&str>) -> (description: String)
        ensures
            description@ == failure_text(
                self.subject(),
                self.site(),
                (match message {
                    Some(message) => Some(message@),
                    None => None,
                }),
            ),
    {
        let mut text = String::from_str("effect ");
        append_number(&mut text, self.node().get());
        text.append(" panicked");
        append_origin(&mut text, &self.origin());
        if let Some(message) = message {
            text.append(": ");
            text.append(message);
        }
        text
    }
}

} // verus!
