//! The registry of states.

use vstd::prelude::*;
use crate::lang::parse::Error;
use crate::lang::parse::blocks::state::{Attribute, Rgb8, StatesBlock};
use crate::lang::runtime::StateId;

verus! {

/// The colour of a state that declares none.
pub const DEFAULT_COLOR: Rgb8 = (0xff, 0xff, 0xff);

/// Whether `attributes` mark a state as the default.
pub open spec fn marks_default(attributes: Seq<Attribute>) -> bool {
    exists|i: int| 0 <= i < attributes.len() && attributes[i] is Default
}

/// Whether `color` is the colour of a state with `attributes`: that of
/// the first recognised colour attribute, or the default colour where
/// there is none.
pub open spec fn is_color_of(attributes: Seq<Attribute>, color: Rgb8) -> bool {
    ||| exists|i: int|
        0 <= i < attributes.len() && attributes[i] == Attribute::Color(Some(color)) && forall|j: int|
            0 <= j < i ==> !(#[trigger] attributes[j] matches Attribute::Color(Some(_)))
    ||| color == DEFAULT_COLOR && forall|j: int|
        0 <= j < attributes.len() ==> !(#[trigger] attributes[j] matches Attribute::Color(Some(_)))
}

/// Whether `id` is the first position of `name` in `names`.
pub open spec fn is_first(names: Seq<Seq<char>>, name: Seq<char>, id: int) -> bool {
    &&& 0 <= id < names.len()
    &&& names[id] == name
    &&& forall|j: int| 0 <= j < id ==> names[j] != name
}

/// The identifier that `name` has among `names`: its first position.
pub open spec fn id_in(names: Seq<Seq<char>>, name: Seq<char>) -> Option<StateId> {
    if exists|i: int| is_first(names, name, i) {
        Some((choose|i: int| is_first(names, name, i)) as usize)
    } else {
        None
    }
}

/// The names of the states of `entries`, in order.
pub open spec fn names_of(entries: Seq<(Seq<char>, Seq<Attribute>)>) -> Seq<Seq<char>> {
    Seq::new(entries.len(), |i: int| entries[i].0)
}

/// Whether two states of `entries` are marked as the default.
pub open spec fn two_defaults(entries: Seq<(Seq<char>, Seq<Attribute>)>) -> bool {
    exists|i: int, j: int|
        0 <= i < j < entries.len() && marks_default(entries[i].1) && marks_default(entries[j].1)
}

/// The state of `entries` that is marked as the default, if one is.
pub open spec fn default_of(entries: Seq<(Seq<char>, Seq<Attribute>)>) -> Option<StateId> {
    if exists|i: int| 0 <= i < entries.len() && marks_default(entries[i].1) {
        Some((choose|i: int| 0 <= i < entries.len() && marks_default(entries[i].1)) as usize)
    } else {
        None
    }
}

fn holds_default(attributes: &Vec<Attribute>) -> (r: bool)
    ensures
        r == marks_default(attributes@),
{
    let mut i: usize = 0;
    while i < attributes.len()
        invariant
            i <= attributes.len(),
            forall|j: int| 0 <= j < i ==> !(attributes@[j] is Default),
        decreases attributes.len() - i,
    {
        if attributes[i].is_default() {
            return true;
        }
        i += 1;
    }
    false
}

fn color_of_attributes(attributes: &Vec<Attribute>) -> (r: Rgb8)
    ensures
        is_color_of(attributes@, r),
{
    let mut i: usize = 0;
    while i < attributes.len()
        invariant
            i <= attributes.len(),
            forall|j: int| 0 <= j < i ==> !(#[trigger] attributes@[j] matches Attribute::Color(Some(_))),
        decreases attributes.len() - i,
    {
        match attributes[i] {
            Attribute::Color(Some(color)) => {
                return color;
            },
            _ => {},
        }
        i += 1;
    }
    DEFAULT_COLOR
}

/// The registry of states: each state's name and colour by identifier,
/// and the default state if one is marked.
pub struct States {
    num_states: StateId,
    names: Vec<String>,
    colors: Vec<Rgb8>,
    default: Option<StateId>,
}

impl States {
    /// The names of the states, by identifier.
    pub closed spec fn names(self) -> Seq<Seq<char>> {
        Seq::new(self.names@.len(), |i: int| self.names@[i]@)
    }

    /// The colours of the states, by identifier.
    pub closed spec fn colors(self) -> Seq<Rgb8> {
        self.colors@
    }

    /// The default state, if one is marked.
    pub closed spec fn default_id(self) -> Option<StateId> {
        self.default
    }

    /// Number of states.
    pub closed spec fn count(self) -> nat {
        self.num_states as nat
    }

    /// The invariant of a registry: every identifier below the number of
    /// states has a name and a colour, and the default is one of them.
    pub open spec fn wf(self) -> bool {
        &&& self.names().len() == self.count()
        &&& self.colors().len() == self.count()
        &&& self.default_id() matches Some(d) ==> d < self.count()
    }

    /// The identifier that `name` resolves to: the first state of that
    /// name.
    pub open spec fn id_of(self, name: Seq<char>) -> Option<StateId> {
        id_in(self.names(), name)
    }

    /// A registry of the states `names`, the state `i` coloured
    /// `colors[i]`. There must be as many colours as names, and the default
    /// must be one of the states.
    pub fn new(names: Vec<String>, colors: Vec<Rgb8>, default: Option<StateId>) -> (r: States)
        requires
            names@.len() == colors@.len(),
            default matches Some(d) ==> d < names@.len(),
        ensures
            r.wf(),
            r.count() == names@.len(),
            r.names() == Seq::new(names@.len(), |i: int| names@[i]@),
            r.colors() == colors@,
            r.default_id() == default,
    {
        States { num_states: names.len(), names, colors, default }
    }

    /// Builds the registry of a states block: identifiers in declaration
    /// order, the colour of each state from its attributes. Fails with
    /// `MultipleDefaultStates` exactly where two states are marked as the
    /// default.
    pub fn from_block(states_block: StatesBlock) -> (r: Result<States, Error>)
        ensures
            match r {
                Ok(s) => {
                    &&& !two_defaults(states_block@)
                    &&& s.wf()
                    &&& s.count() == states_block@.len()
                    &&& s.names() == names_of(states_block@)
                    &&& s.default_id() == default_of(states_block@)
                    &&& forall|i: int|
                        0 <= i < states_block@.len() ==> is_color_of(
                            states_block@[i].1,
                            #[trigger] s.colors()[i],
                        )
                },
                Err(e) => e == Error::MultipleDefaultStates && two_defaults(states_block@),
            },
    {
        let ghost entries = states_block@;
        let block = states_block.into_vec();
        let mut names: Vec<String> = Vec::new();
        let mut colors: Vec<Rgb8> = Vec::new();
        let mut default: Option<StateId> = None;
        let mut i: usize = 0;
        while i < block.len()
            invariant
                i <= block.len(),
                entries == states_block@,
                block@.len() == entries.len(),
                forall|k: int|
                    0 <= k < block@.len() ==> (#[trigger] block@[k]).0@ == entries[k].0 && block@[k].1@
                        == entries[k].1,
                names@.len() == i,
                colors@.len() == i,
                forall|k: int| 0 <= k < i ==> (#[trigger] names@[k])@ == entries[k].0,
                forall|k: int| 0 <= k < i ==> is_color_of(entries[k].1, #[trigger] colors@[k]),
                default matches Some(d) ==> d < i,
                forall|k: int|
                    0 <= k < i ==> (marks_default(#[trigger] entries[k].1) <==> default == Some(
                        k as usize,
                    )),
            decreases block.len() - i,
        {
            let entry = &block[i];
            assert(entry.1@ == entries[i as int].1);
            if holds_default(&entry.1) {
                match default {
                    Some(d) => {
                        assert(marks_default(entries[d as int].1));
                        assert(marks_default(entries[i as int].1));
                        assert(0 <= d < i < entries.len());
                        return Err(Error::MultipleDefaultStates);
                    },
                    None => {
                        default = Some(i);
                    },
                }
            }
            names.push(entry.0.clone());
            colors.push(color_of_attributes(&entry.1));
            i += 1;
        }
        let s = States { num_states: names.len(), names, colors, default };
        proof {
            assert(s.names() =~= names_of(entries));
            if two_defaults(entries) {
                let (a, b) = choose|a: int, b: int|
                    0 <= a < b < entries.len() && marks_default(entries[a].1) && marks_default(
                        entries[b].1,
                    );
                assert(default == Some(a as usize));
                assert(default == Some(b as usize));
            }
            match default {
                Some(d) => {
                    assert(marks_default(entries[d as int].1));
                    let k = choose|k: int| 0 <= k < entries.len() && marks_default(entries[k].1);
                    assert(default == Some(k as usize));
                },
                None => {
                    assert forall|k: int| 0 <= k < entries.len() implies !marks_default(
                        entries[k].1,
                    ) by {
                        assert(marks_default(entries[k].1) <==> default == Some(k as usize));
                    }
                },
            }
        }
        Ok(s)
    }

    /// Number of states.
    pub fn num_states(&self) -> (r: StateId)
        ensures
            r == self.count(),
    {
        self.num_states
    }

    /// The identifier of the state named `name`, if it is declared.
    pub fn name_to_id(&self, name: &str) -> (r: Option<StateId>)
        requires
            self.wf(),
        ensures
            r == self.id_of(name@),
            r matches Some(id) ==> id < self.count(),
    {
        let wanted = name.to_owned();
        let mut i: usize = 0;
        while i < self.names.len()
            invariant
                i <= self.names.len(),
                self.wf(),
                wanted@ == name@,
                forall|j: int| 0 <= j < i ==> self.names()[j] != name@,
            decreases self.names.len() - i,
        {
            if self.names[i] == wanted {
                assert(is_first(self.names(), name@, i as int));
                proof {
                    let k = choose|k: int| is_first(self.names(), name@, k);
                    assert(k == i);
                    assert(self.names().len() == self.names@.len());
                }
                return Some(i);
            }
            i += 1;
        }
        None
    }

    /// The colour of the state `id`.
    pub fn color(&self, id: StateId) -> (r: Rgb8)
        requires
            self.wf(),
            id < self.count(),
        ensures
            r == self.colors()[id as int],
    {
        self.colors[id]
    }

    /// The name of every state, by identifier.
    pub fn name_map(&self) -> (r: Vec<String>)
        ensures
            r@.len() == self.names().len(),
            forall|i: int| 0 <= i < r@.len() ==> (#[trigger] r@[i])@ == self.names()[i],
    {
        let mut out: Vec<String> = Vec::new();
        let mut i: usize = 0;
        while i < self.names.len()
            invariant
                i <= self.names.len(),
                out@.len() == i,
                forall|k: int| 0 <= k < i ==> (#[trigger] out@[k])@ == self.names()[k],
            decreases self.names.len() - i,
        {
            out.push(self.names[i].clone());
            i += 1;
        }
        out
    }

    /// The colour of every state, by identifier.
    pub fn color_map(&self) -> (r: Vec<Rgb8>)
        ensures
            r@ == self.colors(),
    {
        let mut out: Vec<Rgb8> = Vec::new();
        let mut i: usize = 0;
        while i < self.colors.len()
            invariant
                i <= self.colors.len(),
                out@ == self.colors@.take(i as int),
            decreases self.colors.len() - i,
        {
            out.push(self.colors[i]);
            assert(out@ =~= self.colors@.take(i + 1));
            i += 1;
        }
        assert(self.colors@.take(self.colors.len() as int) =~= self.colors@);
        out
    }

    /// The default state, if one is marked.
    pub fn default_state(&self) -> (r: Option<StateId>)
        ensures
            r == self.default_id(),
    {
        self.default
    }
}

} // verus!
