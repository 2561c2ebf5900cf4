//! The flattened participant record produced by the pagination pipeline
//! and consumed by the export sink.

use vstd::prelude::*;

verus! {

/// One retrieved participant, immutable after creation: the optional
/// username and phone, the name fields, the service's boolean flags and
/// a role label.
#[derive(Debug, PartialEq, Eq)]
pub struct MemberRecord {
    pub username: Option<String>,
    pub first_name: String,
    pub last_name: Option<String>,
    pub scam: bool,
    pub phone: Option<String>,
    pub verified: bool,
    pub is_bot: bool,
    pub is_support: bool,
    pub role: String,
}

/// The mathematical content of a [`MemberRecord`]: every text field as a
/// sequence of characters, every flag as a boolean.
#[verifier::ext_equal]
pub ghost struct MemberView {
    pub username: Option<Seq<char>>,
    pub first_name: Seq<char>,
    pub last_name: Option<Seq<char>>,
    pub scam: bool,
    pub phone: Option<Seq<char>>,
    pub verified: bool,
    pub is_bot: bool,
    pub is_support: bool,
    pub role: Seq<char>,
}

/// The view of an optional text field.
pub open spec fn opt_view(s: Option<String>) -> Option<Seq<char>> {
    match s {
        Some(t) => Some(t@),
        None => None,
    }
}

impl View for MemberRecord {
    type V = MemberView;

    open spec fn view(&self) -> MemberView {
        MemberView {
            username: opt_view(self.username),
            first_name: self.first_name@,
            last_name: opt_view(self.last_name),
            scam: self.scam,
            phone: opt_view(self.phone),
            verified: self.verified,
            is_bot: self.is_bot,
            is_support: self.is_support,
            role: self.role@,
        }
    }
}

/// Clones an optional text field, keeping its view.
fn clone_opt_string(s: &Option<String>) -> (r: Option<String>)
    ensures
        opt_view(r) == opt_view(*s),
{
    match s {
        Some(t) => Some(t.clone()),
        None => None,
    }
}

impl Clone for MemberRecord {
    /// A clone carries exactly the same fields as the original.
    fn clone(&self) -> (res: Self)
        ensures
            res@ == self@,
    {
        let res = MemberRecord {
            username: clone_opt_string(&self.username),
            first_name: self.first_name.clone(),
            last_name: clone_opt_string(&self.last_name),
            scam: self.scam,
            phone: clone_opt_string(&self.phone),
            verified: self.verified,
            is_bot: self.is_bot,
            is_support: self.is_support,
            role: self.role.clone(),
        };
        assert(res@ =~= self@);
        res
    }
}

/// Two record sequences that carry the same content, element by element.
pub open spec fn same_records(a: Seq<MemberRecord>, b: Seq<MemberRecord>) -> bool {
    &&& a.len() == b.len()
    &&& forall|i: int| 0 <= i < a.len() ==> a[i]@ == b[i]@
}

} // verus!
