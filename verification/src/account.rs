//! The account context: read-only inputs of the mailbox operations (address,
//! display signature, downloads directory, default page size).

use vstd::prelude::*;
use vstd::string::StringExecFns;

verus! {

/// Read-only account configuration consulted by the operations.
#[derive(Clone, Debug)]
pub struct Account {
    /// The bare email address.
    pub email: String,
    /// The display name put in front of the address, possibly empty.
    pub display_name: String,
    /// The signature appended to composed messages.
    pub signature: String,
    /// Where downloaded attachments are written (a path, kept as text here;
    /// the surrounding program does the writing).
    pub downloads_dir: String,
    /// The page size used when a listing gives none.
    pub default_page_size: usize,
}

/// The full sender address of an account: `name <email>` when a display name
/// is set, the bare email otherwise.
pub open spec fn spec_address(name: Seq<char>, email: Seq<char>) -> Seq<char> {
    if name.len() == 0 {
        email
    } else {
        name + " <"@ + email + ">"@
    }
}

impl Account {
    /// The address this account sends as.
    pub fn address(&self) -> (r: String)
        ensures
            r@ == spec_address(self.display_name@, self.email@),
    {
        if self.display_name.as_str().is_empty() {
            self.email.clone()
        } else {
            let mut s = self.display_name.clone();
            s.append(" <");
            s.append(self.email.as_str());
            s.append(">");
            s
        }
    }
}

} // verus!
