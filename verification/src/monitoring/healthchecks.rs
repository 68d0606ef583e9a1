//! The HTTP ping collaborator's pure decisions: the shape of a check, the
//! schedule it is registered with, and the ping paths.  The HTTP client
//! itself lives outside the library.

use vstd::prelude::*;

use crate::config::JobConfig;
use crate::monitoring::NotificationKind;
use crate::text::{after_last_char, after_last_char_str, joined_sep, split_char, split_char_str};

verus! {

/// One check as the ping service describes it; only the ping address is
/// read by the library.
#[derive(Debug, Clone)]
pub struct HealthchecksCheckInfo {
    pub name: String,
    pub slug: String,
    pub ping_url: String,
}

/// A listing of checks.
#[derive(Debug, Clone)]
pub struct HealthchecksListChecksResponse {
    pub checks: Vec<HealthchecksCheckInfo>,
}

/// The request registering or updating one check.
#[derive(Debug, Clone)]
pub struct HealthchecksCreateCheckRequest {
    pub name: String,
    pub tags: String,
    pub schedule: String,
    pub grace: u64,
    pub slug: String,
    pub unique: Vec<String>,
    pub timeout: u64,
}

/// What every check management call offers; implemented by the live HTTP
/// collaborator outside the library.
pub trait HealthchecksManagementApiTrait: Sized {
    fn list_checks(
        &self,
        tag_filter: Option<Vec<String>>,
        slug_filter: Option<String>,
    ) -> Result<HealthchecksListChecksResponse, String>;

    fn initialize(&mut self, jobs: Vec<JobConfig>) -> Result<(), String>;
}

/// The space-separated fields of `s`, empty fields dropped.
pub open spec fn space_fields(s: Seq<char>) -> Seq<Seq<char>>
    decreases s.len(),
{
    nonempty_fields(split_char(s, ' '))
}

/// `parts` without its empty entries.
pub open spec fn nonempty_fields(parts: Seq<Seq<char>>) -> Seq<Seq<char>>
    decreases parts.len(),
{
    if parts.len() == 0 {
        Seq::empty()
    } else {
        let tail = nonempty_fields(parts.subrange(1, parts.len() as int));
        if parts[0].len() == 0 {
            tail
        } else {
            seq![parts[0]] + tail
        }
    }
}

/// The schedule a check is registered with: the job's cron schedule with
/// its leading seconds field dropped — the ping service understands the
/// five-field form.
pub open spec fn check_schedule_text(schedule: Seq<char>) -> Seq<char> {
    let fields = space_fields(schedule);
    if fields.len() == 0 {
        Seq::empty()
    } else {
        joined_sep(fields.subrange(1, fields.len() as int), " "@)
    }
}

/// Drop the leading seconds field of a space-separated cron schedule.
pub fn check_schedule(schedule: &str) -> (r: String)
    ensures
        r@ == check_schedule_text(schedule@),
{
    let parts = split_char_str(schedule, ' ');
    let mut fields: Vec<String> = Vec::new();
    let ghost all = parts.deep_view();
    let mut rem = parts;
    proof {
        assert(rem.deep_view() =~= all);
        assert(fields.deep_view() + nonempty_fields(all) =~= nonempty_fields(all));
    }
    while rem.len() > 0
        invariant
            all == split_char(schedule@, ' '),
            nonempty_fields(all) == fields.deep_view() + nonempty_fields(rem.deep_view()),
        decreases rem.len(),
    {
        let ghost before = rem.deep_view();
        let ghost f_before = fields.deep_view();
        let p = rem.remove(0);
        proof {
            assert(rem.deep_view() =~= before.subrange(1, before.len() as int));
            assert(before[0] == p@);
        }
        if p.as_str().unicode_len() > 0 {
            proof {
                assert(nonempty_fields(before) == seq![before[0]] + nonempty_fields(
                    rem.deep_view(),
                ));
            }
            fields.push(p);
            proof {
                assert(fields.deep_view() =~= f_before.push(before[0]));
                assert(fields.deep_view() + nonempty_fields(rem.deep_view())
                    =~= nonempty_fields(all));
            }
        } else {
            proof {
                assert(nonempty_fields(before) == nonempty_fields(rem.deep_view()));
            }
        }
    }
    proof {
        assert(nonempty_fields(rem.deep_view()) =~= Seq::<Seq<char>>::empty());
        assert(fields.deep_view() + Seq::<Seq<char>>::empty() =~= fields.deep_view());
    }
    if fields.len() == 0 {
        proof {
            assert(check_schedule_text(schedule@) =~= Seq::<char>::empty());
        }
        return String::new();
    }
    let mut tail: Vec<String> = Vec::new();
    let ghost fdeep = fields.deep_view();
    let mut i: usize = 1;
    proof {
        assert(tail.deep_view() =~= fdeep.subrange(1, 1));
    }
    while i < fields.len()
        invariant
            1 <= i <= fields@.len(),
            fdeep == fields.deep_view(),
            tail.deep_view() =~= fdeep.subrange(1, i as int),
        decreases fields@.len() - i,
    {
        let ghost t_before = tail.deep_view();
        tail.push(fields[i].clone());
        proof {
            assert(fields.deep_view()[i as int] == fields@[i as int]@);
            assert(tail.deep_view() =~= t_before.push(fdeep[i as int]));
            assert(tail.deep_view() =~= fdeep.subrange(1, i + 1));
        }
        i = i + 1;
    }
    proof {
        assert(tail.deep_view() =~= fdeep.subrange(1, fdeep.len() as int));
    }
    crate::text::join_str(&tail, " ")
}

/// The check registration request for one job: the job name is both name
/// and slug, the schedule is the five-field form, the check is unique by
/// name, and a day of timeout backs the configured grace.
pub fn check_request_for(job: &JobConfig, grace: u64) -> (r: HealthchecksCreateCheckRequest)
    ensures
        r.name@ == job.name@,
        r.slug@ == job.name@,
        r.tags@.len() == 0,
        r.schedule@ == check_schedule_text(job.schedule@),
        r.grace == grace,
        r.timeout == 86400,
        r.unique.deep_view() == seq!["name"@],
{
    let mut unique: Vec<String> = Vec::new();
    unique.push("name".to_owned());
    let r = HealthchecksCreateCheckRequest {
        name: job.name.clone(),
        tags: String::new(),
        schedule: check_schedule(job.schedule.as_str()),
        grace,
        slug: job.name.clone(),
        unique,
        timeout: 86400,
    };
    proof {
        assert(r.unique.deep_view() =~= seq!["name"@]);
    }
    r
}

/// The ping identifier of a check: the last segment of its ping address.
pub fn ping_uuid(check: &HealthchecksCheckInfo) -> (r: String)
    ensures
        r@ == after_last_char(check.ping_url@, '/'),
{
    after_last_char_str(check.ping_url.as_str(), '/').to_owned()
}

/// The ping path of a signal: `/ping/<uuid>`, with `/start` or `/fail`
/// appended for the start and failure signals.
pub open spec fn ping_path_text(ping_url: Seq<char>, kind: NotificationKind) -> Seq<char> {
    "/ping/"@ + after_last_char(ping_url, '/') + (match kind {
        NotificationKind::Start => "/start"@,
        NotificationKind::Success => Seq::<char>::empty(),
        NotificationKind::Failure => "/fail"@,
    })
}

/// The ping path of a signal for this check.
pub fn ping_path(check: &HealthchecksCheckInfo, kind: NotificationKind) -> (r: String)
    ensures
        r@ == ping_path_text(check.ping_url@, kind),
{
    let mut p = "/ping/".to_owned();
    let uuid = ping_uuid(check);
    p.append(uuid.as_str());
    match kind {
        NotificationKind::Start => p.append("/start"),
        NotificationKind::Success => {},
        NotificationKind::Failure => p.append("/fail"),
    }
    proof {
        assert(p@ =~= ping_path_text(check.ping_url@, kind));
    }
    p
}

} // verus!
