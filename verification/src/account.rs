//! Account identifiers: the names under which services and users are known.

use crate::error::LedgerError;
use vstd::prelude::*;
use vstd::string::*;

verus! {

/// A lower-case letter or a digit.
pub open spec fn is_alphanumeric(c: char) -> bool {
    ('a' <= c && c <= 'z') || ('0' <= c && c <= '9')
}

/// One of the three characters that join the parts of an identifier.
pub open spec fn is_separator(c: char) -> bool {
    c == '-' || c == '_' || c == '.'
}

/// The shortest identifier has two characters.
pub const MIN_ACCOUNT_ID_LEN: usize = 2;

/// The longest identifier has sixty-four characters.
pub const MAX_ACCOUNT_ID_LEN: usize = 64;

/// The syntax of an account identifier: between two and sixty-four
/// characters, each a lower-case letter, a digit or a separator, where no
/// separator stands first, last, or next to another one.
pub open spec fn valid_account_id(s: Seq<char>) -> bool {
    &&& MIN_ACCOUNT_ID_LEN <= s.len() <= MAX_ACCOUNT_ID_LEN
    &&& forall|i: int| 0 <= i < s.len() ==> is_alphanumeric(#[trigger] s[i]) || is_separator(s[i])
    &&& !is_separator(s[0])
    &&& !is_separator(s[s.len() - 1])
    &&& forall|i: int| 0 <= i < s.len() - 1 ==> !(is_separator(#[trigger] s[i]) && is_separator(s[i + 1]))
}

/// The text of the sub-account `label` of `parent`: the label, a dot, the
/// parent.
pub open spec fn sub_account_text(label: Seq<char>, parent: Seq<char>) -> Seq<char> {
    label + seq!['.'] + parent
}

/// Calls `near_sdk::AccountId`'s `FromStr` and reports whether it accepted
/// the text. The contract restates the syntax that the parser enforces; it
/// is believed, not proved.
#[verifier::external_body]
fn parses_as_account_id(text: &str) -> (accepted: bool)
    ensures
        accepted == valid_account_id(text@),
{
    text.parse::<near_sdk::AccountId>().is_ok()
}

/// A syntactically valid account identifier.
#[derive(Debug)]
pub struct AccountId {
    name: String,
}

impl View for AccountId {
    type V = Seq<char>;

    closed spec fn view(&self) -> Seq<char> {
        self.name@
    }
}

impl Clone for AccountId {
    fn clone(&self) -> (copy: Self)
        ensures
            copy@ == self@,
    {
        proof {
            use_type_invariant(self);
        }
        AccountId { name: self.name.clone() }
    }
}

impl PartialEq for AccountId {
    fn eq(&self, other: &Self) -> (same: bool) {
        self.name == other.name
    }
}

impl Eq for AccountId {

}

impl vstd::std_specs::cmp::PartialEqSpecImpl for AccountId {
    open spec fn obeys_eq_spec() -> bool {
        true
    }

    open spec fn eq_spec(&self, other: &Self) -> bool {
        self@ == other@
    }
}

impl AccountId {
    #[verifier::type_invariant]
    spec fn well_formed(self) -> bool {
        valid_account_id(self.name@)
    }

    /// Reads an identifier; `None` exactly when the text is not valid.
    pub fn parse(text: &str) -> (parsed: Option<AccountId>)
        ensures
            parsed is Some <==> valid_account_id(text@),
            parsed matches Some(id) ==> id@ == text@,
    {
        if parses_as_account_id(text) {
            Some(AccountId { name: String::from_str(text) })
        } else {
            None
        }
    }

    /// The identifier as text.
    pub fn as_str(&self) -> (text: &str)
        ensures
            text@ == self@,
            valid_account_id(text@),
    {
        proof {
            use_type_invariant(self);
        }
        self.name.as_str()
    }

    /// Whether two identifiers name the same account.
    pub fn same_as(&self, other: &AccountId) -> (same: bool)
        ensures
            same == (self@ == other@),
    {
        self.name == other.name
    }

    /// The sub-account `label` of this account, which is
    /// `InvalidAccountId` exactly when the joined text is no identifier.
    pub fn sub_account(&self, label: &str) -> (derived: Result<AccountId, LedgerError>)
        ensures
            derived is Ok <==> valid_account_id(sub_account_text(label@, self@)),
            derived matches Ok(id) ==> id@ == sub_account_text(label@, self@),
            derived matches Err(e) ==> e == LedgerError::InvalidAccountId,
    {
        let mut text = String::from_str(label);
        text.append(".");
        text.append(self.name.as_str());
        proof {
            reveal_strlit(".");
            assert("."@ =~= seq!['.']);
        }
        match AccountId::parse(text.as_str()) {
            Some(id) => Ok(id),
            None => Err(LedgerError::InvalidAccountId),
        }
    }
}

} // verus!
