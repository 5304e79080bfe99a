//! An env file as the library takes it: what its caller read of it.

use vstd::prelude::*;

verus! {

/// What reading an env file gave, its lines in file order.
#[derive(Debug, PartialEq, Eq)]
pub enum Content {
    /// The file could not be opened.
    Unopened,
    /// A line could not be read: these are the lines before it.
    Truncated(Vec<String>),
    /// Every line of the file.
    Complete(Vec<String>),
}

/// An env file as one operation sees it: the path that names it and what reading it gave.
#[derive(Debug, PartialEq, Eq)]
pub struct EnvFile {
    pub path: String,
    pub content: Content,
}

/// The mathematical content of a `Content`.
pub enum ContentView {
    Unopened,
    Truncated(Seq<Seq<char>>),
    Complete(Seq<Seq<char>>),
}

/// The mathematical content of an `EnvFile`.
pub struct FileView {
    pub path: Seq<char>,
    pub content: ContentView,
}

impl View for Content {
    type V = ContentView;

    open spec fn view(&self) -> ContentView {
        match self {
            Content::Unopened => ContentView::Unopened,
            Content::Truncated(lines) => ContentView::Truncated(lines.deep_view()),
            Content::Complete(lines) => ContentView::Complete(lines.deep_view()),
        }
    }
}

impl View for EnvFile {
    type V = FileView;

    open spec fn view(&self) -> FileView {
        FileView { path: self.path@, content: self.content@ }
    }
}

impl ContentView {
    /// The lines that were read.
    pub open spec fn lines(self) -> Seq<Seq<char>> {
        match self {
            ContentView::Unopened => Seq::empty(),
            ContentView::Truncated(lines) => lines,
            ContentView::Complete(lines) => lines,
        }
    }
}

} // verus!
