//! The string types of the library. Each wraps a text and is compared by it.
use crate::text::chars_of;
use vstd::prelude::*;
use vstd::std_specs::cmp::PartialEqSpecImpl;
use vstd::string::StringExecFns;

verus! {

/// The identifier of a node or of an edge: an opaque token, compared by its text.
#[derive(Eq, Hash, Debug, PartialOrd, Ord)]
pub struct Id {
    text: String,
}

impl View for Id {
    type V = Seq<char>;

    closed spec fn view(&self) -> Seq<char> {
        self.text@
    }
}

impl Clone for Id {
    fn clone(&self) -> (r: Self)
        ensures
            r@ == self@,
    {
        Id { text: self.text.clone() }
    }
}

impl PartialEq for Id {
    fn eq(&self, other: &Self) -> (r: bool) {
        self.text == other.text
    }
}

impl PartialEqSpecImpl for Id {
    open spec fn obeys_eq_spec() -> bool {
        true
    }

    open spec fn eq_spec(&self, other: &Self) -> bool {
        self@ == other@
    }
}

impl Id {
    /// An identifier with the given text.
    pub fn new(text: &str) -> (r: Self)
        ensures
            r@ == text@,
    {
        Id { text: String::from_str(text) }
    }

    /// The text itself.
    pub fn as_str(&self) -> (r: &str)
        ensures
            r@ == self@,
    {
        self.text.as_str()
    }

    /// A copy of the text.
    pub fn to_string(&self) -> (r: String)
        ensures
            r@ == self@,
    {
        self.text.clone()
    }

    /// The characters of the text.
    pub fn chars(&self) -> (r: Vec<char>)
        ensures
            r@ == self@,
    {
        chars_of(self.text.as_str())
    }
}

/// The raw text attached to a node, annotations included.
#[derive(Eq, Hash, Debug, PartialOrd, Ord)]
pub struct Label {
    text: String,
}

impl View for Label {
    type V = Seq<char>;

    closed spec fn view(&self) -> Seq<char> {
        self.text@
    }
}

impl Clone for Label {
    fn clone(&self) -> (r: Self)
        ensures
            r@ == self@,
    {
        Label { text: self.text.clone() }
    }
}

impl PartialEq for Label {
    fn eq(&self, other: &Self) -> (r: bool) {
        self.text == other.text
    }
}

impl PartialEqSpecImpl for Label {
    open spec fn obeys_eq_spec() -> bool {
        true
    }

    open spec fn eq_spec(&self, other: &Self) -> bool {
        self@ == other@
    }
}

impl Label {
    /// A label with the given text.
    pub fn new(text: &str) -> (r: Self)
        ensures
            r@ == text@,
    {
        Label { text: String::from_str(text) }
    }

    /// The text itself.
    pub fn as_str(&self) -> (r: &str)
        ensures
            r@ == self@,
    {
        self.text.as_str()
    }

    /// A copy of the text.
    pub fn to_string(&self) -> (r: String)
        ensures
            r@ == self@,
    {
        self.text.clone()
    }

    /// The characters of the text.
    pub fn chars(&self) -> (r: Vec<char>)
        ensures
            r@ == self@,
    {
        chars_of(self.text.as_str())
    }
}

/// The message in which a command reports what it did.
#[derive(Eq, Hash, Debug, PartialOrd, Ord)]
pub struct CommandResult {
    text: String,
}

impl View for CommandResult {
    type V = Seq<char>;

    closed spec fn view(&self) -> Seq<char> {
        self.text@
    }
}

impl Clone for CommandResult {
    fn clone(&self) -> (r: Self)
        ensures
            r@ == self@,
    {
        CommandResult { text: self.text.clone() }
    }
}

impl PartialEq for CommandResult {
    fn eq(&self, other: &Self) -> (r: bool) {
        self.text == other.text
    }
}

impl PartialEqSpecImpl for CommandResult {
    open spec fn obeys_eq_spec() -> bool {
        true
    }

    open spec fn eq_spec(&self, other: &Self) -> bool {
        self@ == other@
    }
}

impl CommandResult {
    /// A message with the given text.
    pub fn new(text: &str) -> (r: Self)
        ensures
            r@ == text@,
    {
        CommandResult { text: String::from_str(text) }
    }

    /// The text itself.
    pub fn as_str(&self) -> (r: &str)
        ensures
            r@ == self@,
    {
        self.text.as_str()
    }

    /// A copy of the text.
    pub fn to_string(&self) -> (r: String)
        ensures
            r@ == self@,
    {
        self.text.clone()
    }

    /// The characters of the text.
    pub fn chars(&self) -> (r: Vec<char>)
        ensures
            r@ == self@,
    {
        chars_of(self.text.as_str())
    }
}

/// One line of input, as typed.
#[derive(Eq, Hash, Debug, PartialOrd, Ord)]
pub struct Line {
    text: String,
}

impl View for Line {
    type V = Seq<char>;

    closed spec fn view(&self) -> Seq<char> {
        self.text@
    }
}

impl Clone for Line {
    fn clone(&self) -> (r: Self)
        ensures
            r@ == self@,
    {
        Line { text: self.text.clone() }
    }
}

impl PartialEq for Line {
    fn eq(&self, other: &Self) -> (r: bool) {
        self.text == other.text
    }
}

impl PartialEqSpecImpl for Line {
    open spec fn obeys_eq_spec() -> bool {
        true
    }

    open spec fn eq_spec(&self, other: &Self) -> bool {
        self@ == other@
    }
}

impl Line {
    /// A line with the given text.
    pub fn new(text: &str) -> (r: Self)
        ensures
            r@ == text@,
    {
        Line { text: String::from_str(text) }
    }

    /// The text itself.
    pub fn as_str(&self) -> (r: &str)
        ensures
            r@ == self@,
    {
        self.text.as_str()
    }

    /// A copy of the text.
    pub fn to_string(&self) -> (r: String)
        ensures
            r@ == self@,
    {
        self.text.clone()
    }

    /// The characters of the text.
    pub fn chars(&self) -> (r: Vec<char>)
        ensures
            r@ == self@,
    {
        chars_of(self.text.as_str())
    }
}

} // verus!
