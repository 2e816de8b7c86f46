//! Messages sent through the contact form.

use vstd::prelude::*;
use crate::models::{opt_view, ContactDB};
use crate::text::{chars_of, extend_chars, string_of};

verus! {

pub struct ContactRequest {
    pub subject: String,
    pub name: String,
    pub email: String,
    pub content: String,
}

/// The reply-to mailbox of a message: `name <email>`.
pub open spec fn mailbox_spec(name: Seq<char>, email: Seq<char>) -> Seq<char> {
    name + seq![' ', '<'] + email + seq!['>']
}

impl ContactRequest {
    /// The row to store for a message received at time `now` from
    /// `ip_address`; the database assigns its id.
    pub fn to_hobby_db(&self, ip_address: String, now: i64) -> (r: Result<ContactDB, String>)
        ensures
            r matches Ok(c) && c.subject@ == self.subject@ && c.name@ == self.name@ && c.email@
                == self.email@ && c.content@ == self.content@ && c.created_at == now && opt_view(
                c.ip_address,
            ) == Some(ip_address@),
    {
        Ok(
            ContactDB {
                id: 0,
                subject: self.subject.clone(),
                name: self.name.clone(),
                email: self.email.clone(),
                content: self.content.clone(),
                created_at: now,
                ip_address: Some(ip_address),
            },
        )
    }

    /// The mailbox that replies to the message go to.
    pub fn reply_to(&self) -> (r: String)
        ensures
            r@ == mailbox_spec(self.name@, self.email@),
    {
        let mut out = chars_of(self.name.as_str());
        out.push(' ');
        out.push('<');
        let email = chars_of(self.email.as_str());
        extend_chars(&mut out, &email, 0, email.len());
        assert(email@.subrange(0, email.len() as int) =~= email@);
        out.push('>');
        assert(out@ =~= mailbox_spec(self.name@, self.email@));
        string_of(&out)
    }
}

} // verus!
