//! Platform account identifiers.
//!
//! A user id is the platform's own string identifier for an account. Ids
//! taken from free-form command text are untrusted; ids carried by an
//! authenticated platform event are trusted from the start.

use vstd::prelude::*;
use crate::text::{lemma_before_pipe, spec_parse_slack_user_id, str_eq, strip_prefix_string,
    strip_suffix_string, text_ends_with};
use crate::trust::{Trustability, Trusted, Untrusted};

verus! {

/// A platform account id at a given trust level.
#[derive(Debug)]
pub struct Id<T: Trustability> {
    id: String,
    trusted: T,
}

impl<T: Trustability> Id<T> {
    /// The character view of the underlying account id.
    pub closed spec fn view(self) -> Seq<char> {
        self.id@
    }

    /// An identical copy of the account id.
    pub fn dup(&self) -> (r: Self)
        ensures
            r == *self,
            r@ == self@,
    {
        Id { id: self.id.clone(), trusted: self.trusted }
    }

    /// Whether two account ids name the same account.
    pub fn same_as<U: Trustability>(&self, other: &Id<U>) -> (r: bool)
        ensures
            r == (self@ == other@),
    {
        str_eq(self.id.as_str(), other.id.as_str())
    }
}

impl Id<Untrusted> {
    /// Wraps an externally supplied account id.
    pub fn new(id: String) -> (r: Self)
        ensures
            r@ == id@,
    {
        Id { id, trusted: Untrusted }
    }
}

impl Id<Trusted> {
    /// An account id carried by an authenticated platform event: the
    /// platform itself vouches for the sender, so no lookup is needed.
    pub fn from_authenticated(id: String) -> (r: Self)
        ensures
            r@ == id@,
    {
        Id { id, trusted: Trusted }
    }
}

/// Transforms the escaped mention form `<@U1234|user>` into an id `U1234`.
pub fn parse_slack_user_id(escaped: &str) -> (r: Option<Id<Untrusted>>)
    ensures
        match r {
            Some(id) => spec_parse_slack_user_id(escaped@) == Some(id@),
            None => spec_parse_slack_user_id(escaped@) is None,
        },
{
    proof {
        reveal_strlit("<@");
        reveal_strlit(">");
    }
    let Some(rest) = strip_prefix_string(escaped, "<@") else { return None };
    let Some(inner) = strip_suffix_string(rest.as_str(), ">") else {
        proof {
            if escaped@.len() >= 3 && text_ends_with(escaped@, ">"@) {
                assert(rest@.subrange(rest@.len() - 1, rest@.len() as int) =~= escaped@.subrange(
                    escaped@.len() - 1,
                    escaped@.len() as int,
                ));
            }
        }
        return None;
    };
    proof {
        assert(inner@ =~= escaped@.subrange(2, escaped@.len() - 1));
        assert(text_ends_with(escaped@, ">"@)) by {
            assert(escaped@.subrange(escaped@.len() - 1, escaped@.len() as int) =~= rest@.subrange(
                rest@.len() - 1,
                rest@.len() as int,
            ));
        }
    }
    let il = inner.as_str().unicode_len();
    let mut k: usize = 0;
    while k < il && inner.as_str().get_char(k) != '|'
        invariant
            0 <= k <= il,
            il == inner@.len(),
            forall|j: int| 0 <= j < k ==> inner@[j] != '|',
        decreases il - k,
    {
        k = k + 1;
    }
    proof {
        lemma_before_pipe(inner@, k as int);
    }
    let cut = inner.as_str().substring_char(0, k).to_owned();
    if cut.as_str().unicode_len() == 0 {
        return None;
    }
    if cut.as_str().get_char(0) != 'U' {
        return None;
    }
    Some(Id { id: cut, trusted: Untrusted })
}

} // verus!
