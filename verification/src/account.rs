//! Who may sign in.
use crate::text::same_text;
use vstd::prelude::*;

verus! {

/// The accounts that may sign in.
pub struct UserDatabase;

/// Whether a name and a password belong to an account.
pub open spec fn credentials_accepted(username: Seq<char>, password: Seq<char>) -> bool {
    username == "guest"@ && password == "1234"@
}

impl UserDatabase {
    /// Whether a name and a password belong to an account.
    pub fn verify(username: &str, password: &str) -> (r: bool)
        ensures
            r == credentials_accepted(username@, password@),
    {
        same_text(username, "guest") && same_text(password, "1234")
    }
}

/// There is one account: the name is `guest`, the password `1234`, letter for
/// letter.
pub proof fn law_guest_is_the_only_account(username: Seq<char>, password: Seq<char>)
    ensures
        credentials_accepted(username, password) <==> username == seq!['g', 'u', 'e', 's', 't']
            && password == seq!['1', '2', '3', '4'],
{
    reveal_strlit("guest");
    reveal_strlit("1234");
    assert("guest"@ == seq!['g', 'u', 'e', 's', 't']);
    assert("1234"@ == seq!['1', '2', '3', '4']);
}

} // verus!
