//! Presentation of error cause chains: walking a chain of errors, removing
//! display text that an error duplicates from its cause, and rendering the
//! cleaned chain either on one line or as a numbered multi-line block.
use vstd::prelude::*;

pub mod clean;
pub mod error;
pub mod render;
pub mod text;

pub use clean::{CleanedErrorText, CleanedErrors};
pub use error::{AsRefError, ErrorNode};

use crate::clean::{chain_entry, cleaned_texts, lemma_chain_length, lemma_entries_index};
use crate::render::{count_nonempty, lemma_count_le_len, lemma_render_empty_when_none, render};

verus! {

/// Report presents an error and all its causes.
///
/// Cause texts are cleaned as `CleanedErrorText` walks them, removing the
/// duplication of errors that include their cause's message in their own.
/// The multi-line layout prints each error on a line of its own under a
/// `Caused by:` heading, while the inline layout joins all errors on one
/// line separated by colons.
pub struct Report<E: AsRefError>(E);

impl<E: AsRefError> Report<E> {
    /// The chain of display texts of the wrapped error.
    pub closed spec fn chain(&self) -> Seq<Seq<char>> {
        self.0.error_chain()
    }

    /// Construct a new `Report` from an error.
    pub fn new(err: E) -> (r: Self)
        ensures
            r.chain() == err.error_chain(),
    {
        Self::from(err)
    }

    /// Renders the cleaned chain in the layout the flag selects: numbered
    /// multi-line when `multiline` holds, colon-joined inline otherwise.
    pub fn format(&self, multiline: bool) -> (r: String)
        requires
            self.chain().len() <= usize::MAX,
        ensures
            r@ == render(cleaned_texts(self.chain()), multiline),
    {
        let err = self.0.as_ref_error();
        let ghost chain = self.chain();
        let ghost ct = cleaned_texts(chain);
        proof {
            lemma_chain_length(chain);
        }
        let mut iter = CleanedErrorText::new(err);
        let mut out = String::new();
        let mut emitted: usize = 0;
        let ghost mut i: int = 0;
        loop
            invariant
                iter.wf(),
                0 <= i <= chain.len(),
                chain.len() <= usize::MAX,
                chain == self.chain(),
                ct == cleaned_texts(chain),
                ct.len() == chain.len(),
                iter.remaining() == chain.skip(i),
                emitted as nat == count_nonempty(ct.take(i)),
                out@ == render(ct.take(i), multiline),
            decreases chain.len() - i,
        {
            match iter.next() {
                Option::None => {
                    proof {
                        assert(chain.skip(i).len() == 0);
                        assert(ct.take(i) =~= ct);
                    }
                    return out;
                },
                Option::Some(entry) => {
                    let (_, txt, _) = entry;
                    proof {
                        assert(chain.skip(i).len() > 0);
                        lemma_entries_index(chain, i);
                        assert(ct[i] == chain_entry(chain.skip(i)).0);
                        assert(chain.skip(i).drop_first() =~= chain.skip(i + 1));
                        assert(ct.take(i + 1).drop_last() =~= ct.take(i));
                        assert(ct.take(i + 1).last() == txt@);
                    }
                    if txt.as_str().is_empty() {
                        proof {
                            i = i + 1;
                        }
                    } else {
                        proof {
                            lemma_count_le_len(ct.take(i));
                            if emitted == 0 {
                                lemma_render_empty_when_none(ct.take(i), multiline);
                            }
                        }
                        if !multiline {
                            if emitted > 0 {
                                out.append(": ");
                            }
                            out.append(txt.as_str());
                            proof {
                                reveal_strlit(": ");
                                assert(": "@ =~= crate::render::inline_sep());
                                assert(out@ =~= render(ct.take(i + 1), multiline));
                            }
                        } else {
                            if emitted == 0 {
                                out.append(txt.as_str());
                            } else {
                                if emitted == 1 {
                                    out.append("\n\nCaused by:\n");
                                }
                                out.append("    ");
                                let num = text::usize_to_decimal(emitted);
                                out.append(num.as_str());
                                out.append(". ");
                                out.append(txt.as_str());
                                out.append("\n");
                            }
                            proof {
                                reveal_strlit("\n\nCaused by:\n");
                                reveal_strlit("    ");
                                reveal_strlit(". ");
                                reveal_strlit("\n");
                                assert("\n\nCaused by:\n"@ =~= crate::render::caused_by_header());
                                assert(render(ct.take(i + 1), multiline) == crate::render::render_multiline(
                                    ct.take(i + 1),
                                ));
                                assert(out@ =~= render(ct.take(i + 1), multiline));
                            }
                        }
                        emitted = emitted + 1;
                        proof {
                            i = i + 1;
                        }
                    }
                },
            }
        }
    }

    /// The compact presentation: inline normally, multi-line when the caller
    /// asks for the alternate, verbose form.
    pub fn display_string(&self, alternate: bool) -> (r: String)
        requires
            self.chain().len() <= usize::MAX,
        ensures
            r@ == render(cleaned_texts(self.chain()), alternate),
    {
        self.format(alternate)
    }

    /// The diagnostic presentation: always multi-line.
    pub fn debug_string(&self) -> (r: String)
        requires
            self.chain().len() <= usize::MAX,
        ensures
            r@ == render(cleaned_texts(self.chain()), true),
    {
        self.format(true)
    }
}

impl<E: AsRefError> From<E> for Report<E> {
    fn from(value: E) -> (r: Self)
        ensures
            r.chain() == value.error_chain(),
    {
        Report(value)
    }
}

impl<E: AsRefError> vstd::std_specs::convert::FromSpecImpl<E> for Report<E> {
    open spec fn obeys_from_spec() -> bool {
        true
    }

    closed spec fn from_spec(v: E) -> Self {
        Report(v)
    }
}

/// Rendering a report is a pure function of its chain: two reports over equal
/// chains render identically, so rendering one report twice, without mutating
/// the underlying chain, yields the same text both times.
pub proof fn lemma_render_idempotent<E1: AsRefError, E2: AsRefError>(
    r1: &Report<E1>,
    r2: &Report<E2>,
    multiline: bool,
)
    requires
        r1.chain() == r2.chain(),
    ensures
        render(cleaned_texts(r1.chain()), multiline) == render(cleaned_texts(r2.chain()), multiline),
{
}

/// Provides the `report` method, converting any error-like value to a
/// `Report`.
pub trait Reportable: AsRefError + Sized {
    /// Wrap this error in a `Report`.
    fn report(self) -> (r: Report<Self>)
        ensures
            r.chain() == self.error_chain(),
    ;
}

impl<E: AsRefError> Reportable for E {
    fn report(self) -> (r: Report<E>) {
        Report::new(self)
    }
}

/// Ref holds a value that only stands for an error through a reference
/// conversion, letting it be used with `Report` all the same.
pub struct Ref<E>(E);

impl<E: AsRefError> AsRefError for Ref<E> {
    closed spec fn error_chain(&self) -> Seq<Seq<char>> {
        self.0.error_chain()
    }

    fn as_ref_error(&self) -> (r: &ErrorNode) {
        self.0.as_ref_error()
    }
}

impl<E: AsRefError> Report<Ref<E>> {
    /// Construct a new `Report` from a value that stands for an error by
    /// reference conversion.
    pub fn from_ref(value: E) -> (r: Self)
        ensures
            r.chain() == value.error_chain(),
    {
        Report::new(Ref(value))
    }
}

impl<E: AsRefError> From<E> for Report<Ref<E>> {
    fn from(value: E) -> (r: Self)
        ensures
            r.chain() == value.error_chain(),
    {
        Report(Ref(value))
    }
}

impl<E: AsRefError> vstd::std_specs::convert::FromSpecImpl<E> for Report<Ref<E>> {
    open spec fn obeys_from_spec() -> bool {
        true
    }

    closed spec fn from_spec(v: E) -> Self {
        Report(Ref(v))
    }
}

} // verus!
