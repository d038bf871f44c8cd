//! Mailbox references: an identifier resolving to a target mailbox, with the
//! rule that the absence of a user-supplied name is a resolution error unless
//! a fixed default ("Sent", "Drafts") is contractually defined.

use crate::error::Error;
use vstd::prelude::*;

verus! {

/// A reference to a named mailbox of the mail store.
#[derive(Clone, Debug)]
pub struct Mbox {
    pub name: String,
}

impl View for Mbox {
    type V = Seq<char>;

    open spec fn view(&self) -> Seq<char> {
        self.name@
    }
}

impl Mbox {
    /// The mailbox with the given name.
    pub fn from_name(name: &str) -> (r: Mbox)
        ensures
            r@ == name@,
    {
        Mbox { name: name.to_owned() }
    }

    /// Resolve an optional user-supplied name. Absence of a name is a
    /// resolution error, never a silent default: the result is `Ok` if and
    /// only if a name was supplied.
    pub fn try_from_opt(name: Option<&str>) -> (r: Result<Mbox, Error>)
        ensures
            r is Ok <==> name is Some,
            name matches Some(n) ==> r matches Ok(m) && m@ == n@,
            name is None ==> r == Err::<Mbox, Error>(Error::NoTargetMbox),
    {
        match name {
            Some(n) => Ok(Mbox { name: n.to_owned() }),
            None => Err(Error::NoTargetMbox),
        }
    }
}

} // verus!
