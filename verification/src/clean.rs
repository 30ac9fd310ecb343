//! The chain walker: visits every error of a cause chain, head to root, and
//! removes a cause's display text from the end of its wrapper's display text
//! when the wrapper duplicates it.
use vstd::prelude::*;
use crate::error::{AsRefError, ErrorNode};
use crate::text::{is_space, is_space_char, strip_last_colon, trim_end_spec};

verus! {

/// Whether the cleaning step fires: the cause's text `s` stands at the end of
/// the wrapper's text `t`.
pub open spec fn cleaned_with(t: Seq<char>, s: Seq<char>) -> bool {
    s.is_suffix_of(t)
}

/// One cleaning step: if the cause's text `s` is a trailing duplicate inside
/// `t`, remove it, right-trim whitespace, and strip one trailing colon;
/// otherwise leave `t` unchanged.
pub open spec fn clean_pair(t: Seq<char>, s: Seq<char>) -> Seq<char> {
    if s.is_suffix_of(t) {
        strip_last_colon(trim_end_spec(t.take(t.len() - s.len())))
    } else {
        t
    }
}

/// The entry the walker emits for the head of a chain: the head's text,
/// cleaned against the text of its immediate cause when there is one, paired
/// with whether cleaning fired.
pub open spec fn chain_entry(chain: Seq<Seq<char>>) -> (Seq<char>, bool)
    recommends
        chain.len() >= 1,
{
    if chain.len() >= 2 {
        (clean_pair(chain[0], chain[1]), cleaned_with(chain[0], chain[1]))
    } else if chain.len() == 1 {
        (chain[0], false)
    } else {
        (Seq::empty(), false)
    }
}

/// Every entry of the walk over a chain of display texts, head to root: one
/// entry per link, each cleaned against its immediate cause only.
pub open spec fn cleaned_entries(chain: Seq<Seq<char>>) -> Seq<(Seq<char>, bool)>
    decreases chain.len(),
{
    if chain.len() == 0 {
        Seq::empty()
    } else {
        seq![chain_entry(chain)] + cleaned_entries(chain.drop_first())
    }
}

/// The cleaned texts of the walk alone, without the flags.
pub open spec fn cleaned_texts(chain: Seq<Seq<char>>) -> Seq<Seq<char>> {
    cleaned_entries(chain).map_values(|e: (Seq<char>, bool)| e.0)
}

/// The walk emits exactly one entry per link of the chain.
pub proof fn lemma_chain_length(chain: Seq<Seq<char>>)
    ensures
        cleaned_entries(chain).len() == chain.len(),
        cleaned_texts(chain).len() == chain.len(),
    decreases chain.len(),
{
    if chain.len() > 0 {
        lemma_chain_length(chain.drop_first());
    }
}

/// The walk is in head-to-root order: the entry at position `i` is the text
/// of link `i`, cleaned against link `i + 1` when that link exists.
pub proof fn lemma_entries_index(chain: Seq<Seq<char>>, i: int)
    requires
        0 <= i < chain.len(),
    ensures
        cleaned_entries(chain).len() == chain.len(),
        cleaned_entries(chain)[i] == chain_entry(chain.skip(i)),
    decreases i,
{
    lemma_chain_length(chain);
    if i == 0 {
        assert(chain.skip(0) =~= chain);
    } else {
        lemma_entries_index(chain.drop_first(), i - 1);
        assert(chain.drop_first().skip(i - 1) =~= chain.skip(i));
    }
}

/// An error with no cause yields exactly one entry: its own text, with no
/// cleaning recorded.
pub proof fn lemma_no_cause_single_entry(e: ErrorNode)
    requires
        e.cause is None,
    ensures
        cleaned_entries(e.chain()).len() == 1,
        cleaned_entries(e.chain())[0] == (e.text@, false),
{
    let c = e.chain();
    assert(c =~= seq![e.text@]);
    assert(cleaned_entries(c.drop_first()) =~= Seq::<(Seq<char>, bool)>::empty());
    assert(cleaned_entries(c) =~= seq![chain_entry(c)]);
}

/// Cleaning a wrapper text `a + ": " + b` against its cause text `b` fires
/// and yields exactly `a`: the duplicate, the separating whitespace and the
/// separating colon all go.
pub proof fn lemma_suffix_cleaning(a: Seq<char>, b: Seq<char>)
    ensures
        cleaned_with(a + seq![':', ' '] + b, b),
        clean_pair(a + seq![':', ' '] + b, b) == a,
{
    let t = a + seq![':', ' '] + b;
    let p = a + seq![':', ' '];
    assert(t.subrange(t.len() - b.len(), t.len() as int) =~= b);
    assert(b.is_suffix_of(t));
    assert(t.take(t.len() - b.len()) =~= p);
    assert(p.last() == ' ');
    assert(is_space_char(' '));
    assert(p.drop_last() =~= a + seq![':']);
    assert(trim_end_spec(p) == trim_end_spec(a + seq![':']));
    assert((a + seq![':']).last() == ':');
    assert(!is_space_char(':'));
    assert(trim_end_spec(a + seq![':']) == a + seq![':']);
    assert(strip_last_colon(a + seq![':']) =~= a);
}

/// When the cause's text is no suffix of the wrapper's text, the wrapper's
/// text passes through unchanged and no cleaning is recorded.
pub proof fn lemma_non_suffix_unchanged(t: Seq<char>, s: Seq<char>)
    requires
        !s.is_suffix_of(t),
    ensures
        clean_pair(t, s) == t,
        !cleaned_with(t, s),
{
}

/// Performs one cleaning step on real strings, matching `clean_pair` and
/// `cleaned_with`.
fn clean_text(t: &str, s: &str) -> (r: (String, bool))
    ensures
        r.0@ == clean_pair(t@, s@),
        r.1 == cleaned_with(t@, s@),
{
    let t_len = t.unicode_len();
    let s_len = s.unicode_len();
    if s_len <= t_len {
        let tail = t.substring_char(t_len - s_len, t_len);
        let tail_string = String::from_str(tail);
        let s_string = String::from_str(s);
        if tail_string == s_string {
            assert(s@.is_suffix_of(t@));
            let m = t_len - s_len;
            let mut k: usize = m;
            while k > 0 && is_space(t.get_char(k - 1))
                invariant
                    k <= m <= t_len,
                    t_len == t@.len(),
                    trim_end_spec(t@.take(m as int)) == trim_end_spec(t@.take(k as int)),
                decreases k,
            {
                proof {
                    assert(t@.take(k as int).last() == t@[k - 1]);
                    assert(t@.take(k as int).drop_last() =~= t@.take(k - 1));
                }
                k = k - 1;
            }
            proof {
                assert(trim_end_spec(t@.take(k as int)) == t@.take(k as int));
            }
            let final_k = if k > 0 && t.get_char(k - 1) == ':' {
                proof {
                    assert(t@.take(k as int).last() == t@[k - 1]);
                    assert(t@.take(k as int).drop_last() =~= t@.take(k - 1));
                }
                k - 1
            } else {
                k
            };
            let cleaned = String::from_str(t.substring_char(0, final_k));
            proof {
                assert(cleaned@ =~= clean_pair(t@, s@));
            }
            (cleaned, true)
        } else {
            assert(!s@.is_suffix_of(t@));
            (String::from_str(t), false)
        }
    } else {
        assert(!s@.is_suffix_of(t@));
        (String::from_str(t), false)
    }
}

/// One step of the walk: the error the walker stands at, with its display
/// text computed once and carried along so no text is computed twice.
struct CleanedErrorTextStep<'a> {
    error: &'a ErrorNode,
    error_text: String,
}

impl<'a> CleanedErrorTextStep<'a> {
    fn new(err: &'a ErrorNode) -> (r: Self)
        ensures
            r.error == err,
            r.error_text@ == err.text@,
    {
        CleanedErrorTextStep { error: err, error_text: err.text.clone() }
    }
}

/// A walk over an error's cause chain that yields, per link, the original
/// error, its cleaned display text, and whether cleaning fired. The walk
/// holds a single current step and ends once the root cause was emitted.
pub struct CleanedErrorText<'a>(Option<CleanedErrorTextStep<'a>>);

impl<'a> CleanedErrorText<'a> {
    /// The carried text is the display text of the error the walker stands at.
    pub closed spec fn wf(self) -> bool {
        match self.0 {
            Option::Some(step) => step.error_text@ == step.error.text@,
            Option::None => true,
        }
    }

    /// The chain of display texts the walk has yet to emit entries for.
    pub closed spec fn remaining(self) -> Seq<Seq<char>> {
        match self.0 {
            Option::Some(step) => step.error.chain(),
            Option::None => Seq::empty(),
        }
    }

    /// Starts a walk at the head of an error's chain.
    pub fn new(err: &'a ErrorNode) -> (r: Self)
        ensures
            r.wf(),
            r.remaining() == err.chain(),
    {
        CleanedErrorText(Option::Some(CleanedErrorTextStep::new(err)))
    }

    /// Emits the entry for the error the walker stands at and advances to its
    /// cause. Yields `None` once every link was emitted; running past the end
    /// is not a failure.
    pub fn next(&mut self) -> (r: Option<(&'a ErrorNode, String, bool)>)
        requires
            old(self).wf(),
        ensures
            final(self).wf(),
            r is Some <==> old(self).remaining().len() > 0,
            old(self).remaining().len() > 0 ==> final(self).remaining() == old(
                self,
            ).remaining().drop_first(),
            old(self).remaining().len() == 0 ==> final(self).remaining() == old(self).remaining(),
            (match r {
                Option::Some(entry) => {
                    &&& entry.0.chain() == old(self).remaining()
                    &&& entry.1@ == chain_entry(old(self).remaining()).0
                    &&& entry.2 == chain_entry(old(self).remaining()).1
                },
                Option::None => true,
            }),
    {
        let stepo = self.0.take();
        match stepo {
            Option::None => Option::None,
            Option::Some(step) => {
                let error_text = step.error_text;
                let err = step.error;
                match err.source() {
                    Option::Some(source) => {
                        let source_text = source.text.clone();
                        let (cleaned_text, cleaned) = clean_text(
                            error_text.as_str(),
                            source_text.as_str(),
                        );
                        proof {
                            assert(err.chain()[0] == err.text@);
                            assert(err.chain()[1] == source.chain()[0]);
                        }
                        self.0 = Option::Some(
                            CleanedErrorTextStep { error: source, error_text: source_text },
                        );
                        Option::Some((err, cleaned_text, cleaned))
                    },
                    Option::None => Option::Some((err, error_text, false)),
                }
            },
        }
    }
}

/// Provides `cleaned_errors` on anything reportable, starting a cleaned walk
/// over its chain.
pub trait CleanedErrors: AsRefError {
    /// Walk the cause chain of the error this value stands for, with
    /// duplicated trailing texts removed.
    fn cleaned_errors<'a>(&'a self) -> (r: CleanedErrorText<'a>)
        ensures
            r.wf(),
            r.remaining() == self.error_chain(),
    ;
}

impl<T: AsRefError> CleanedErrors for T {
    fn cleaned_errors<'a>(&'a self) -> (r: CleanedErrorText<'a>) {
        CleanedErrorText::new(self.as_ref_error())
    }
}

} // verus!
