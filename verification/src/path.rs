//! Field paths: where in a JSON document the text of an event is found.

use crate::views::view_each;
use vstd::prelude::*;

verus! {

/// One step of a path, as contracts see it.
pub enum Step {
    /// Into an object, by the name of a member.
    Key(Seq<char>),
    /// Into an array, by the position of an element.
    Index(int),
}

/// One step of a path: the name of an object member or the position of an
/// array element.
#[derive(Debug, Clone, PartialEq, Eq)]
pub enum PathStep {
    Key(String),
    Index(usize),
}

impl View for PathStep {
    type V = Step;

    open spec fn view(&self) -> Step {
        match self {
            PathStep::Key(name) => Step::Key(name@),
            PathStep::Index(position) => Step::Index(*position as int),
        }
    }
}

/// The path from the root of a JSON document to the text that an event
/// carries. The empty path names the root itself.
#[derive(Debug, Clone, PartialEq, Eq)]
pub struct FieldPath {
    steps: Vec<PathStep>,
}

impl View for FieldPath {
    type V = Seq<Step>;

    closed spec fn view(&self) -> Seq<Step> {
        view_each(self.steps@)
    }
}

impl FieldPath {
    /// The empty path.
    pub fn new() -> (path: Self)
        ensures
            path@ == Seq::<Step>::empty(),
    {
        FieldPath { steps: Vec::new() }
    }

    /// This path, continued into the object member called `name`.
    pub fn key(self, name: &str) -> (path: Self)
        ensures
            path@ == self@.push(Step::Key(name@)),
    {
        let mut steps = self.steps;
        steps.push(PathStep::Key(name.to_owned()));
        FieldPath { steps }
    }

    /// This path, continued into the array element at `position`.
    pub fn index(self, position: usize) -> (path: Self)
        ensures
            path@ == self@.push(Step::Index(position as int)),
    {
        let mut steps = self.steps;
        steps.push(PathStep::Index(position));
        FieldPath { steps }
    }

    /// The number of steps.
    pub fn len(&self) -> (count: usize)
        ensures
            count == self@.len(),
    {
        self.steps.len()
    }

    /// The step at `position`.
    pub fn step(&self, position: usize) -> (step: &PathStep)
        requires
            position < self@.len(),
        ensures
            step@ == self@[position as int],
    {
        &self.steps[position]
    }

    /// The path `completion`: the text of an event of the form
    /// `{"completion": "..."}`.
    pub fn completion() -> (path: Self)
        ensures
            path@ == seq![Step::Key("completion"@)],
    {
        FieldPath::new().key("completion")
    }

    /// The path `choices[0].delta.content`: the text of one streamed chat
    /// event.
    pub fn chat_delta() -> (path: Self)
        ensures
            path@ == seq![
                Step::Key("choices"@),
                Step::Index(0),
                Step::Key("delta"@),
                Step::Key("content"@),
            ],
    {
        FieldPath::new().key("choices").index(0).key("delta").key("content")
    }

    /// The path `choices[0].message.content`: the text of a chat response
    /// that arrives in one piece.
    pub fn chat_message() -> (path: Self)
        ensures
            path@ == seq![
                Step::Key("choices"@),
                Step::Index(0),
                Step::Key("message"@),
                Step::Key("content"@),
            ],
    {
        FieldPath::new().key("choices").index(0).key("message").key("content")
    }
}

} // verus!
