//! The capture extractor: running a compiled pattern against one input line
//! and collecting its named-group captures in declaration order.

use vstd::prelude::*;
use crate::error::BindError;
use crate::error::BindErrorV;
use crate::pattern::Pattern;
use crate::pattern::regex_captures;
use crate::pattern::regex_match;

verus! {

/// The ordered (group name, raw text) pairs of one successful match. Groups
/// that did not participate in the match are absent, which is how an optional
/// field's absence is told apart from a present-but-empty value.
pub struct CaptureSet {
    pub pairs: Vec<(String, String)>,
}

impl View for CaptureSet {
    type V = Seq<(Seq<char>, Seq<char>)>;

    open spec fn view(&self) -> Seq<(Seq<char>, Seq<char>)> {
        self.pairs.deep_view()
    }
}

/// The raw text of the first pair carrying `key`, if any.
pub open spec fn lookup_capture(caps: Seq<(Seq<char>, Seq<char>)>, key: Seq<char>) -> Option<
    Seq<char>,
>
    decreases caps.len(),
{
    if caps.len() == 0 {
        Option::None
    } else if caps[0].0 == key {
        Option::Some(caps[0].1)
    } else {
        lookup_capture(caps.skip(1), key)
    }
}

impl CaptureSet {
    /// Looks `key` up among the captured pairs, borrowing the first raw text
    /// recorded under it: the zero-copy counterpart of `lookup`.
    pub fn get(&self, key: &String) -> (r: Option<&String>)
        ensures
            match r {
                Option::Some(v) => lookup_capture(self@, key@) == Option::Some(v@),
                Option::None => lookup_capture(self@, key@) is None,
            },
    {
        let n = self.pairs.len();
        assert(self@.skip(0) =~= self@);
        let mut i: usize = 0;
        while i < n
            invariant
                i <= n,
                n == self.pairs.len(),
                self@.len() == n as int,
                forall|j: int| 0 <= j < n ==> self@[j] == (self.pairs@[j].0@, self.pairs@[j].1@),
                lookup_capture(self@.skip(i as int), key@) == lookup_capture(self@, key@),
            decreases n - i,
        {
            assert(self@.skip(i as int)[0] == self@[i as int]);
            if self.pairs[i].0.eq(key) {
                return Option::Some(&self.pairs[i].1);
            }
            assert(self@.skip(i as int).skip(1) =~= self@.skip(i + 1));
            i = i + 1;
        }
        assert(self@.skip(n as int) =~= Seq::<(Seq<char>, Seq<char>)>::empty());
        Option::None
    }

    /// Looks `key` up among the captured pairs, returning a copy of the first
    /// raw text recorded under it.
    pub fn lookup(&self, key: &String) -> (r: Option<String>)
        ensures
            match r {
                Option::Some(v) => lookup_capture(self@, key@) == Option::Some(v@),
                Option::None => lookup_capture(self@, key@) is None,
            },
    {
        match self.get(key) {
            Option::Some(v) => Option::Some(v.clone()),
            Option::None => Option::None,
        }
    }
}

/// Applies `pattern` to `input` once. Fails with `NoMatch` exactly when the
/// pattern does not match at all; otherwise yields the named-group captures
/// of the first match, in group declaration order, participating groups only.
pub fn extract(pattern: &Pattern, input: &str) -> (r: Result<CaptureSet, BindError>)
    ensures
        match r {
            Result::Ok(caps) => regex_match(pattern@, input@) && caps@ == regex_captures(
                pattern@,
                input@,
            ),
            Result::Err(e) => !regex_match(pattern@, input@) && e@ == BindErrorV::NoMatch(input@),
        },
{
    match pattern.capture_pairs(input) {
        Option::Some(pairs) => Result::Ok(CaptureSet { pairs }),
        Option::None => Result::Err(BindError::NoMatch(input.to_owned())),
    }
}

} // verus!
