//! The mail collaborator's pure decisions: subjects, recipient lists, and
//! when credentials are attached.  Building the transport and sending the
//! message happen outside the library.

use vstd::prelude::*;

use crate::text::{join_str, joined_sep};

verus! {

/// The subject line of an outcome mail.
pub open spec fn mail_subject_text(success: bool, job_name: Seq<char>, hostname: Seq<char>) -> Seq<
    char,
> {
    (if success {
        "Success: Backup Job '"@
    } else {
        "Failure: Backup Job '"@
    }) + job_name + "' on host '"@ + hostname + "'"@
}

/// The subject line of an outcome mail.
pub fn mail_subject(success: bool, job_name: &str, hostname: &str) -> (r: String)
    ensures
        r@ == mail_subject_text(success, job_name@, hostname@),
{
    let mut m = String::new();
    if success {
        m.append("Success: Backup Job '");
    } else {
        m.append("Failure: Backup Job '");
    }
    m.append(job_name);
    m.append("' on host '");
    m.append(hostname);
    m.append("'");
    proof {
        assert(m@ =~= mail_subject_text(success, job_name@, hostname@));
    }
    m
}

/// The recipient header value: the configured addresses, comma-separated.
pub fn mail_recipients(to: &Vec<String>) -> (r: String)
    ensures
        r@ == joined_sep(to.deep_view(), ", "@),
{
    join_str(to, ", ")
}

/// Whether the transport gets credentials: only when a user or a password
/// is configured at all.
pub fn needs_credentials(user: &str, password: &str) -> (r: bool)
    ensures
        r == !(user@.len() == 0 && password@.len() == 0),
{
    !(user.unicode_len() == 0 && password.unicode_len() == 0)
}

} // verus!
