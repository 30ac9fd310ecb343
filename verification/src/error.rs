//! A concrete error value: a display text together with an optional cause,
//! forming a finite, acyclic chain that ends at a root cause.
use vstd::prelude::*;

verus! {

/// An error-like value: its display text and, optionally, the error that
/// proximately caused it. A chain of these models any ecosystem error whose
/// capability is "give me your message, give me your cause".
pub struct ErrorNode {
    /// The display text of this error alone.
    pub text: String,
    /// The error that caused this one, if any.
    pub cause: Option<Box<ErrorNode>>,
}

impl ErrorNode {
    /// The display texts of the whole chain, head first, root cause last.
    pub open spec fn chain(self) -> Seq<Seq<char>>
        decreases self,
    {
        match self.cause {
            Option::None => seq![self.text@],
            Option::Some(c) => seq![self.text@] + c.chain(),
        }
    }

    /// An error with no cause.
    pub fn new(text: String) -> (r: Self)
        ensures
            r.text@ == text@,
            r.cause is None,
            r.chain() =~= seq![text@],
    {
        ErrorNode { text, cause: Option::None }
    }

    /// An error caused by another.
    pub fn with_cause(text: String, cause: ErrorNode) -> (r: Self)
        ensures
            r.text@ == text@,
            r.chain() =~= seq![text@] + cause.chain(),
    {
        ErrorNode { text, cause: Option::Some(Box::new(cause)) }
    }

    /// The cause of this error, if any: the next link of the chain.
    pub fn source(&self) -> (r: Option<&ErrorNode>)
        ensures
            match r {
                Option::Some(c) => self.cause is Some && c.chain() == self.chain().drop_first()
                    && self.chain() == seq![self.text@] + c.chain(),
                Option::None => self.cause is None && self.chain() == seq![self.text@],
            },
    {
        match &self.cause {
            Option::Some(b) => {
                proof {
                    assert(b.chain() =~= self.chain().drop_first());
                }
                Option::Some(&**b)
            },
            Option::None => Option::None,
        }
    }

    /// The display text of this error alone, without its causes.
    pub fn message(&self) -> (r: &String)
        ensures
            r@ == self.text@,
    {
        &self.text
    }
}

/// The capability a value needs in order to be reported: it can hand out a
/// reference to the error it stands for. Mirrors ecosystems where a container
/// exposes its error only through a reference conversion.
pub trait AsRefError {
    /// The chain of display texts of the error this value stands for.
    spec fn error_chain(&self) -> Seq<Seq<char>>;

    /// A reference to the error this value stands for.
    fn as_ref_error(&self) -> (r: &ErrorNode)
        ensures
            r.chain() == self.error_chain(),
    ;
}

impl AsRefError for ErrorNode {
    open spec fn error_chain(&self) -> Seq<Seq<char>> {
        self.chain()
    }

    fn as_ref_error(&self) -> (r: &ErrorNode) {
        self
    }
}

impl<'e> AsRefError for &'e ErrorNode {
    open spec fn error_chain(&self) -> Seq<Seq<char>> {
        self.chain()
    }

    fn as_ref_error(&self) -> (r: &ErrorNode) {
        self
    }
}

} // verus!
