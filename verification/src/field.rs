//! The closed set of member names that a document may use.

use vstd::prelude::*;
use vstd::string::StrSliceExecFns;

verus! {

/// One of the two members of a record.
#[derive(Clone, Copy, Debug, PartialEq, Eq, Structural)]
pub enum FieldKey {
    P,
    Q,
}

impl FieldKey {
    /// The canonical, lower-case name of the field.
    pub open spec fn spec_name(self) -> Seq<char> {
        match self {
            FieldKey::P => seq!['p'],
            FieldKey::Q => seq!['q'],
        }
    }

    /// The field that an object key names, if any. A key names a field when
    /// it is the field's one-letter name in either case; every other key,
    /// the empty one included, names none.
    pub open spec fn recognize(key: Seq<char>) -> Option<FieldKey> {
        if key == seq!['p'] || key == seq!['P'] {
            Some(FieldKey::P)
        } else if key == seq!['q'] || key == seq!['Q'] {
            Some(FieldKey::Q)
        } else {
            None
        }
    }

    /// The canonical, lower-case name of the field.
    pub fn name(&self) -> (s: &'static str)
        ensures
            s@ == self.spec_name(),
    {
        match self {
            FieldKey::P => {
                proof {
                    reveal_strlit("p");
                }
                assert("p"@ =~= seq!['p']);
                "p"
            },
            FieldKey::Q => {
                proof {
                    reveal_strlit("q");
                }
                assert("q"@ =~= seq!['q']);
                "q"
            },
        }
    }

    /// Matches an object key against the field names, ignoring case.
    pub fn from_key(key: &str) -> (r: Option<FieldKey>)
        ensures
            r == Self::recognize(key@),
    {
        if key.unicode_len() != 1 {
            return None;
        }
        let c = key.get_char(0);
        assert(key@ =~= seq![c]);
        if c == 'p' || c == 'P' {
            Some(FieldKey::P)
        } else if c == 'q' || c == 'Q' {
            Some(FieldKey::Q)
        } else {
            assert(seq!['p'][0] == 'p' && seq!['P'][0] == 'P');
            assert(seq!['q'][0] == 'q' && seq!['Q'][0] == 'Q');
            None
        }
    }
}

} // verus!
