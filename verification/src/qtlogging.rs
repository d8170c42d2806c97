//! The context that travels with a log message.

use vstd::prelude::*;

verus! {

/// What a [`QMessageLogContext`] says, as plain values.
pub struct LogContextView {
    pub line: int,
    pub file: Seq<u8>,
    pub function: Seq<u8>,
    pub category: Seq<u8>,
}

/// The context passed to a message handler: the place in the source where
/// the message was raised, and the category it was raised under. The three
/// texts are borrowed byte strings.
#[derive(Clone, Copy, Debug)]
pub struct QMessageLogContext<'a> {
    line: i32,
    file: &'a [u8],
    function: &'a [u8],
    category: &'a [u8],
}

impl<'a> View for QMessageLogContext<'a> {
    type V = LogContextView;

    closed spec fn view(&self) -> LogContextView {
        LogContextView {
            line: self.line as int,
            file: self.file@,
            function: self.function@,
            category: self.category@,
        }
    }
}

impl<'a> QMessageLogContext<'a> {
    /// Constructs the context of a message raised at `line` of `file`, in
    /// `function`, under `category`.
    pub fn new(line: i32, file: &'a [u8], function: &'a [u8], category: &'a [u8]) -> (context:
        QMessageLogContext<'a>)
        ensures
            context@ == (LogContextView {
                line: line as int,
                file: file@,
                function: function@,
                category: category@,
            }),
    {
        QMessageLogContext { line, file, function, category }
    }

    /// The line number given to the message handler.
    pub fn line(&self) -> (line: i32)
        ensures
            line == self@.line,
    {
        self.line
    }

    /// The file path given to the message handler.
    pub fn file(&self) -> (file: &'a [u8])
        ensures
            file@ == self@.file,
    {
        self.file
    }

    /// The name of the function given to the message handler.
    pub fn function(&self) -> (function: &'a [u8])
        ensures
            function@ == self@.function,
    {
        self.function
    }

    /// The category given to the message handler.
    pub fn category(&self) -> (category: &'a [u8])
        ensures
            category@ == self@.category,
    {
        self.category
    }
}

} // verus!
