//! The states block, the attributes of states and their colours.

use vstd::prelude::*;

verus! {

/// A colour as red, green and blue.
pub type Rgb8 = (u8, u8, u8);

/// An attribute of a declared state.
#[derive(Debug, Eq, PartialEq, Clone, Copy)]
pub enum Attribute {
    /// The state of every cell that is not stored.
    Default,
    /// The colour of the state; `None` where the colour was not recognised.
    Color(Option<Rgb8>),
}

impl Attribute {
    /// Whether the attribute is a recognised colour.
    pub fn is_color(&self) -> (r: bool)
        ensures
            r == (*self matches Attribute::Color(Some(_))),
    {
        match self {
            Attribute::Color(Some(_)) => true,
            _ => false,
        }
    }

    /// Whether the attribute marks the default state.
    pub fn is_default(&self) -> (r: bool)
        ensures
            r == (*self is Default),
    {
        match self {
            Attribute::Default => true,
            _ => false,
        }
    }
}

/// The colour that a built-in colour name stands for.
pub open spec fn builtin_color(name: Seq<char>) -> Option<Rgb8> {
    if name == "black"@ {
        Some((0u8, 0u8, 0u8))
    } else if name == "white"@ {
        Some((255u8, 255u8, 255u8))
    } else if name == "grey"@ || name == "gray"@ {
        Some((0xf0u8, 0xf0u8, 0xf0u8))
    } else if name == "red"@ {
        Some((255u8, 0u8, 0u8))
    } else if name == "green"@ {
        Some((0u8, 255u8, 0u8))
    } else if name == "blue"@ {
        Some((0u8, 0u8, 255u8))
    } else {
        None
    }
}

fn same_text(a: &str, b: &str) -> (r: bool)
    ensures
        r == (a@ == b@),
{
    a.to_owned() == b.to_owned()
}

/// Looks a colour name up among the built-in colours.
pub fn named_color(name: &str) -> (r: Option<Rgb8>)
    ensures
        r == builtin_color(name@),
{
    if same_text(name, "black") {
        Some((0, 0, 0))
    } else if same_text(name, "white") {
        Some((255, 255, 255))
    } else if same_text(name, "grey") || same_text(name, "gray") {
        Some((0xf0, 0xf0, 0xf0))
    } else if same_text(name, "red") {
        Some((255, 0, 0))
    } else if same_text(name, "green") {
        Some((0, 255, 0))
    } else if same_text(name, "blue") {
        Some((0, 0, 255))
    } else {
        None
    }
}

/// The value of a hexadecimal digit, in either case.
pub open spec fn hex_digit(c: char) -> Option<int> {
    if '0' <= c <= '9' {
        Some(c as int - '0' as int)
    } else if 'a' <= c <= 'f' {
        Some(c as int - 'a' as int + 10)
    } else if 'A' <= c <= 'F' {
        Some(c as int - 'A' as int + 10)
    } else {
        None
    }
}

/// The byte that two hexadecimal digits write.
pub open spec fn hex_byte(hi: char, lo: char) -> Option<u8> {
    match (hex_digit(hi), hex_digit(lo)) {
        (Some(h), Some(l)) => Some((h * 16 + l) as u8),
        _ => None,
    }
}

/// The colour that `#RRGGBB` writes: `None` unless the text is a hash
/// sign and six hexadecimal digits.
pub open spec fn hex_color_of(text: Seq<char>) -> Option<Rgb8> {
    if text.len() == 7 && text[0] == '#' {
        match (hex_byte(text[1], text[2]), hex_byte(text[3], text[4]), hex_byte(text[5], text[6])) {
            (Some(r), Some(g), Some(b)) => Some((r, g, b)),
            _ => None,
        }
    } else {
        None
    }
}

fn hex_value(c: char) -> (r: Option<u8>)
    ensures
        match r {
            Some(v) => hex_digit(c) == Some(v as int) && v < 16,
            None => hex_digit(c) is None,
        },
{
    if '0' <= c && c <= '9' {
        Some((c as u32 - '0' as u32) as u8)
    } else if 'a' <= c && c <= 'f' {
        Some((c as u32 - 'a' as u32 + 10) as u8)
    } else if 'A' <= c && c <= 'F' {
        Some((c as u32 - 'A' as u32 + 10) as u8)
    } else {
        None
    }
}

fn hex_pair(hi: char, lo: char) -> (r: Option<u8>)
    ensures
        r == hex_byte(hi, lo),
{
    match (hex_value(hi), hex_value(lo)) {
        (Some(h), Some(l)) => Some(h * 16 + l),
        _ => None,
    }
}

/// Reads a colour written as `#RRGGBB`.
pub fn hex_color(text: &str) -> (r: Option<Rgb8>)
    ensures
        r == hex_color_of(text@),
{
    if text.unicode_len() != 7 {
        return None;
    }
    if text.get_char(0) != '#' {
        return None;
    }
    match (
        hex_pair(text.get_char(1), text.get_char(2)),
        hex_pair(text.get_char(3), text.get_char(4)),
        hex_pair(text.get_char(5), text.get_char(6)),
    ) {
        (Some(r), Some(g), Some(b)) => Some((r, g, b)),
        _ => None,
    }
}

/// The colour that a colour attribute's value stands for: a hexadecimal
/// colour where the text starts with a hash sign, else a built-in name.
pub open spec fn color_of(text: Seq<char>) -> Option<Rgb8> {
    if text.len() > 0 && text[0] == '#' {
        hex_color_of(text)
    } else {
        builtin_color(text)
    }
}

/// Reads the value of a colour attribute; `None` where it is not
/// recognised.
pub fn parse_color(text: &str) -> (r: Option<Rgb8>)
    ensures
        r == color_of(text@),
{
    if text.unicode_len() > 0 && text.get_char(0) == '#' {
        hex_color(text)
    } else {
        named_color(text)
    }
}

/// Position of the entry named `name` among `entries`, if there is one.
pub open spec fn slot(entries: Seq<(Seq<char>, Seq<Attribute>)>, name: Seq<char>) -> Option<int> {
    if exists|i: int| 0 <= i < entries.len() && entries[i].0 == name {
        Some(choose|i: int| 0 <= i < entries.len() && entries[i].0 == name)
    } else {
        None
    }
}

/// The entries with the state `name` declared with `attributes`: a name
/// that is declared already keeps its place and takes the new attributes.
pub open spec fn put(
    entries: Seq<(Seq<char>, Seq<Attribute>)>,
    name: Seq<char>,
    attributes: Seq<Attribute>,
) -> Seq<(Seq<char>, Seq<Attribute>)> {
    match slot(entries, name) {
        Some(i) => entries.update(i, (name, attributes)),
        None => entries.push((name, attributes)),
    }
}

/// The declared states with their attributes, in the order of their
/// declaration; no name occurs twice.
#[derive(Debug, Eq, PartialEq)]
pub struct StatesBlock {
    states: Vec<(String, Vec<Attribute>)>,
}

impl StatesBlock {
    /// The entries as names and attribute lists, in declaration order.
    pub closed spec fn view(self) -> Seq<(Seq<char>, Seq<Attribute>)> {
        Seq::new(self.states@.len(), |i: int| (self.states@[i].0@, self.states@[i].1@))
    }

    /// Position of the entry named `name`, if there is one.
    pub open spec fn position(self, name: Seq<char>) -> Option<int> {
        slot(self@, name)
    }

    /// The invariant of a block: no name occurs twice.
    pub open spec fn wf(self) -> bool {
        forall|i: int, j: int|
            0 <= i < self@.len() && 0 <= j < self@.len() && i != j ==> self@[i].0 != self@[j].0
    }

    /// A block without states.
    pub fn new() -> (r: StatesBlock)
        ensures
            r@.len() == 0,
            r.wf(),
    {
        StatesBlock { states: Vec::new() }
    }

    /// Number of declared states.
    pub fn len(&self) -> (r: usize)
        ensures
            r == self@.len(),
    {
        self.states.len()
    }

    /// Declares the state `name` with `attributes`. A name that is declared
    /// already keeps its place and takes the new attributes.
    pub fn insert(&mut self, name: String, attributes: Vec<Attribute>)
        requires
            old(self).wf(),
        ensures
            final(self).wf(),
            final(self)@ == put(old(self)@, name@, attributes@),
    {
        let mut i: usize = 0;
        while i < self.states.len()
            invariant
                i <= self.states.len(),
                self.wf(),
                *self == *old(self),
                forall|j: int| 0 <= j < i ==> self@[j].0 != name@,
            decreases self.states.len() - i,
        {
            if self.states[i].0 == name {
                let ghost before = self@;
                assert(before[i as int].0 == name@);
                proof {
                    let k = choose|k: int| 0 <= k < before.len() && before[k].0 == name@;
                    assert(k == i);
                }
                self.states[i] = (name, attributes);
                assert(self@ =~= before.update(i as int, (name@, attributes@)));
                return ;
            }
            i += 1;
        }
        let ghost before = self@;
        self.states.push((name, attributes));
        assert(self@ =~= before.push((name@, attributes@)));
    }

    /// Appends to `out` one warning for each colour attribute whose colour
    /// is not known.
    pub fn warn_unknown_colors(&self, out: &mut Vec<crate::lang::Warnings>)
        ensures
            final(out)@.len() == old(out)@.len() + crate::lang::unknown_colors_of(self@),
            forall|i: int| 0 <= i < old(out)@.len() ==> final(out)@[i] == old(out)@[i],
    {
        let ghost start = out@;
        let mut i: usize = 0;
        while i < self.states.len()
            invariant
                i <= self.states.len(),
                out@.len() == start.len() + crate::lang::unknown_colors_of(self@.take(i as int)),
                forall|k: int| 0 <= k < start.len() ==> out@[k] == start[k],
            decreases self.states.len() - i,
        {
            let attributes = &self.states[i].1;
            let ghost before = out@.len();
            let mut j: usize = 0;
            while j < attributes.len()
                invariant
                    j <= attributes.len(),
                    out@.len() == before + crate::lang::unknown_colors(attributes@.take(j as int)),
                    forall|k: int| 0 <= k < start.len() ==> out@[k] == start[k],
                    start.len() <= before,
                decreases attributes.len() - j,
            {
                proof {
                    let next = attributes@.take(j + 1);
                    assert(next.drop_last() =~= attributes@.take(j as int));
                    assert(next.last() == attributes@[j as int]);
                }
                match attributes[j] {
                    Attribute::Color(None) => {
                        out.push(crate::lang::Warnings::UnknownColor);
                    },
                    _ => {},
                }
                j += 1;
            }
            proof {
                assert(attributes@.take(attributes.len() as int) =~= attributes@);
                let next = self@.take(i + 1);
                assert(next.drop_last() =~= self@.take(i as int));
                assert(next.last() == self@[i as int]);
            }
            i += 1;
        }
        assert(self@.take(self.states.len() as int) =~= self@);
    }

    /// The entries, in declaration order.
    pub fn into_vec(self) -> (r: Vec<(String, Vec<Attribute>)>)
        ensures
            r@.len() == self@.len(),
            forall|i: int| 0 <= i < r@.len() ==> (#[trigger] r@[i]).0@ == self@[i].0 && r@[i].1@ == self@[i].1,
    {
        self.states
    }
}

} // verus!
