//! Static configuration of the daemon, its jobs, hosts and backends.
//!
//! These are plain values; loading and merging them from files is done
//! outside the library, which then hands the result in.

use vstd::prelude::*;

use crate::storage::borg::{BorgCompressionType, BorgEncryptionType, BorgStorageRetention};
use crate::storage::local::LocalCompressionType;

verus! {

/// Process-wide settings.
#[derive(Debug, Clone)]
pub struct GeneralConfig {
    pub log_level: String,
    pub hostname: String,
}

impl Default for GeneralConfig {
    fn default() -> (r: GeneralConfig)
        ensures
            r.log_level@ == "info"@,
            r.hostname@ == "localhost"@,
    {
        GeneralConfig { log_level: "info".to_owned(), hostname: "localhost".to_owned() }
    }
}

/// One hypervisor host credential set.
#[derive(Debug, Clone)]
pub struct XenConfig {
    /// The host identity used inside flat backup names.
    pub name: String,
    pub server: String,
    pub username: String,
    pub password: String,
}

impl Default for XenConfig {
    fn default() -> (r: XenConfig)
        ensures
            r.name@.len() == 0,
            r.server@ == "localhost"@,
            r.username@.len() == 0,
            r.password@.len() == 0,
    {
        XenConfig {
            name: String::new(),
            server: "localhost".to_owned(),
            username: String::new(),
            password: String::new(),
        }
    }
}

/// One plain-file directory backend.
#[derive(Debug, Clone)]
pub struct LocalStorageConfig {
    pub enabled: bool,
    pub name: String,
    pub path: String,
    /// Keep this many most recent artifacts per object.
    pub retention: u32,
    pub compression: Option<LocalCompressionType>,
}

impl Default for LocalStorageConfig {
    fn default() -> (r: LocalStorageConfig)
        ensures
            r.enabled == false,
            r.name@.len() == 0,
            r.path@.len() == 0,
            r.retention == 7,
            r.compression is None,
    {
        LocalStorageConfig {
            enabled: false,
            name: String::new(),
            path: String::new(),
            retention: 7,
            compression: None,
        }
    }
}

/// One deduplicating-archive repository backend.
#[derive(Debug, Clone)]
pub struct BorgStorageConfig {
    pub enabled: bool,
    pub name: String,
    /// Repository location, local path or `user@host:path`.
    pub repository: String,
    /// Where export streams are spooled before archiving.
    pub temp_dir: String,
    pub ssh_key_path: Option<String>,
    pub encryption: Option<BorgEncryptionType>,
    pub compression: Option<BorgCompressionType>,
    pub retention: BorgStorageRetention,
}

impl Default for BorgStorageConfig {
    fn default() -> (r: BorgStorageConfig)
        ensures
            r.enabled == false,
            r.ssh_key_path is None,
            r.encryption is None,
            r.compression is None,
            r.retention.daily == 7,
            r.retention.weekly == 4,
            r.retention.monthly == 6,
            r.retention.yearly == 1,
    {
        BorgStorageConfig {
            enabled: false,
            name: String::new(),
            repository: String::new(),
            temp_dir: "/tmp/xenbakd".to_owned(),
            ssh_key_path: None,
            encryption: None,
            compression: None,
            retention: BorgStorageRetention { daily: 7, weekly: 4, monthly: 6, yearly: 1 },
        }
    }
}

/// Every configured storage backend, by kind.
#[derive(Debug, Clone)]
pub struct StorageConfig {
    pub local: Vec<LocalStorageConfig>,
    pub borg: Vec<BorgStorageConfig>,
}

impl Default for StorageConfig {
    fn default() -> (r: StorageConfig)
        ensures
            r.local@.len() == 0,
            r.borg@.len() == 0,
    {
        StorageConfig { local: Vec::new(), borg: Vec::new() }
    }
}

/// Healthchecks ping/management collaborator settings.
#[derive(Debug, Clone)]
pub struct HealthchecksConfig {
    pub enabled: bool,
    pub api_key: String,
    pub server: String,
    pub grace: u64,
    pub max_retries: u32,
}

impl Default for HealthchecksConfig {
    fn default() -> (r: HealthchecksConfig)
        ensures
            r.enabled == false,
            r.api_key@.len() == 0,
            r.server@ == "https://hc-ping.com"@,
            r.grace == 7200,
            r.max_retries == 3,
    {
        HealthchecksConfig {
            enabled: false,
            api_key: String::new(),
            server: "https://hc-ping.com".to_owned(),
            grace: 7200,
            max_retries: 3,
        }
    }
}

/// Mail notification collaborator settings.
#[derive(Debug, Clone)]
pub struct MailConfig {
    pub enabled: bool,
    pub smtp_server: String,
    pub smtp_port: u16,
    pub smtp_user: String,
    pub smtp_password: String,
    pub smtp_from: String,
    pub smtp_to: Vec<String>,
}

impl Default for MailConfig {
    fn default() -> (r: MailConfig)
        ensures
            r.enabled == false,
            r.smtp_port == 587,
            r.smtp_to@.len() == 0,
    {
        MailConfig {
            enabled: false,
            smtp_server: String::new(),
            smtp_port: 587,
            smtp_user: String::new(),
            smtp_password: String::new(),
            smtp_from: String::new(),
            smtp_to: Vec::new(),
        }
    }
}

/// All monitoring collaborators.
#[derive(Debug, Clone)]
pub struct MonitoringConfig {
    pub mail: MailConfig,
    pub healthchecks: HealthchecksConfig,
}

impl Default for MonitoringConfig {
    fn default() -> (r: MonitoringConfig)
        ensures
            r.mail.enabled == false,
            r.healthchecks.enabled == false,
    {
        MonitoringConfig { mail: MailConfig::default(), healthchecks: HealthchecksConfig::default() }
    }
}

/// One backup job: which VMs, how often, how wide, where to.
#[derive(Debug)]
pub struct JobConfig {
    pub enabled: bool,
    pub name: String,
    /// Cron schedule with a leading seconds field.
    pub schedule: String,
    /// VMs carrying any of these tags are included.
    pub tag_filter: Vec<String>,
    /// VMs carrying any of these tags are excluded again.
    pub tag_filter_exclude: Vec<String>,
    /// Names of the hypervisor hosts this job covers.
    pub xen_hosts: Vec<String>,
    /// Bound on concurrently running per-VM tasks.
    pub concurrency: u32,
    /// Keep this many most recent artifacts per object.
    pub retention: u32,
    pub compression: Option<LocalCompressionType>,
    /// Reuse a fresh existing snapshot instead of creating one.
    pub use_existing_snapshot: bool,
    /// Maximum age, in seconds, for a snapshot to count as fresh.
    pub use_existing_snapshot_age: Option<i64>,
}

impl Default for JobConfig {
    fn default() -> (r: JobConfig)
        ensures
            r.enabled == false,
            r.schedule@ == "0 0 0 * * *"@,
            r.tag_filter@.len() == 0,
            r.tag_filter_exclude@.len() == 0,
            r.xen_hosts@.len() == 0,
            r.concurrency == 1,
            r.retention == 7,
            r.compression is None,
            r.use_existing_snapshot == false,
            r.use_existing_snapshot_age is None,
    {
        JobConfig {
            enabled: false,
            name: String::new(),
            schedule: "0 0 0 * * *".to_owned(),
            tag_filter: Vec::new(),
            tag_filter_exclude: Vec::new(),
            xen_hosts: Vec::new(),
            concurrency: 1,
            retention: 7,
            compression: None,
            use_existing_snapshot: false,
            use_existing_snapshot_age: None,
        }
    }
}

/// The host credential sets of `xen` whose name stands in `hosts`, in
/// configuration order.
pub open spec fn covered_hosts(xen: Seq<XenConfigView>, hosts: Seq<Seq<char>>) -> Seq<
    XenConfigView,
>
    decreases xen.len(),
{
    if xen.len() == 0 {
        Seq::empty()
    } else {
        let tail = covered_hosts(xen.subrange(1, xen.len() as int), hosts);
        if hosts.contains(xen[0].name) {
            seq![xen[0]] + tail
        } else {
            tail
        }
    }
}

impl JobConfig {
    /// The two configurations hold the same values, text for text.
    pub open spec fn equiv(self, o: JobConfig) -> bool {
        &&& self.enabled == o.enabled
        &&& self.name == o.name
        &&& self.schedule == o.schedule
        &&& self.tag_filter@ == o.tag_filter@
        &&& self.tag_filter_exclude@ == o.tag_filter_exclude@
        &&& self.xen_hosts@ == o.xen_hosts@
        &&& self.concurrency == o.concurrency
        &&& self.retention == o.retention
        &&& self.compression == o.compression
        &&& self.use_existing_snapshot == o.use_existing_snapshot
        &&& self.use_existing_snapshot_age == o.use_existing_snapshot_age
    }
}

impl Clone for JobConfig {
    fn clone(&self) -> (r: Self)
        ensures
            r.equiv(*self),
    {
        JobConfig {
            enabled: self.enabled,
            name: self.name.clone(),
            schedule: self.schedule.clone(),
            tag_filter: clone_string_vec(&self.tag_filter),
            tag_filter_exclude: clone_string_vec(&self.tag_filter_exclude),
            xen_hosts: clone_string_vec(&self.xen_hosts),
            concurrency: self.concurrency,
            retention: self.retention,
            compression: self.compression,
            use_existing_snapshot: self.use_existing_snapshot,
            use_existing_snapshot_age: self.use_existing_snapshot_age,
        }
    }
}

impl JobConfig {
    /// The hypervisor host credential sets linked to this job: those whose
    /// name stands in `xen_hosts`, in configuration order.
    pub fn get_xen_configs(&self, xen: Vec<XenConfig>) -> (r: Vec<XenConfig>)
        ensures
            r.deep_view() == covered_hosts(xen.deep_view(), self.xen_hosts.deep_view()),
    {
        let ghost hosts = self.xen_hosts.deep_view();
        let ghost orig = xen.deep_view();
        let mut rem = xen;
        let mut r: Vec<XenConfig> = Vec::new();
        proof {
            assert(r.deep_view() + covered_hosts(orig, hosts) =~= covered_hosts(orig, hosts));
        }
        while rem.len() > 0
            invariant
                hosts == self.xen_hosts.deep_view(),
                covered_hosts(orig, hosts) == r.deep_view() + covered_hosts(
                    rem.deep_view(),
                    hosts,
                ),
            decreases rem.len(),
        {
            let ghost before = rem.deep_view();
            let ghost r_before = r.deep_view();
            let x = rem.remove(0);
            proof {
                assert(rem.deep_view() =~= before.subrange(1, before.len() as int));
            }
            if contains_string(&self.xen_hosts, &x.name) {
                proof {
                    assert(before[0] == x.deep_view());
                    assert(before.len() > 0);
                    assert(before[0].name == x.name@);
                    assert(hosts.contains(before[0].name));
                    assert(before.subrange(1, before.len() as int) == rem.deep_view());
                    assert(covered_hosts(before, hosts) == seq![before[0]] + covered_hosts(
                        before.subrange(1, before.len() as int),
                        hosts,
                    ));
                    assert(covered_hosts(before, hosts) =~= seq![x.deep_view()] + covered_hosts(
                        rem.deep_view(),
                        hosts,
                    ));
                }
                r.push(x);
                proof {
                    assert(r.deep_view() =~= r_before.push(x.deep_view()));
                    assert(r.deep_view() + covered_hosts(rem.deep_view(), hosts)
                        =~= covered_hosts(orig, hosts));
                }
            } else {
                proof {
                    assert(before[0] == x.deep_view());
                    assert(before.len() > 0);
                    assert(before[0].name == x.name@);
                    assert(!hosts.contains(before[0].name));
                    assert(before.subrange(1, before.len() as int) == rem.deep_view());
                    assert(covered_hosts(before, hosts) == covered_hosts(
                        before.subrange(1, before.len() as int),
                        hosts,
                    ));
                    assert(covered_hosts(before, hosts) =~= covered_hosts(rem.deep_view(), hosts));
                }
            }
        }
        proof {
            assert(covered_hosts(rem.deep_view(), hosts) =~= Seq::<XenConfigView>::empty());
            assert(r.deep_view() + Seq::<XenConfigView>::empty() =~= r.deep_view());
        }
        r
    }
}

/// Whether the two strings hold the same text.
pub fn string_eq(a: &String, b: &String) -> (r: bool)
    ensures
        r == (a@ == b@),
{
    a.eq(b)
}

/// Whether one of `v` equals `s`, by text.
pub fn contains_string(v: &Vec<String>, s: &String) -> (r: bool)
    ensures
        r == v.deep_view().contains(s@),
{
    let mut i: usize = 0;
    while i < v.len()
        invariant
            i <= v.len(),
            forall|j: int| 0 <= j < i ==> v.deep_view()[j] != s@,
        decreases v.len() - i,
    {
        if string_eq(&v[i], s) {
            assert(v.deep_view()[i as int] == v@[i as int]@);
            assert(v.deep_view().contains(s@));
            return true;
        }
        assert(v.deep_view()[i as int] == v@[i as int]@);
        i = i + 1;
    }
    assert(forall|j: int| 0 <= j < v.deep_view().len() ==> v.deep_view()[j] != s@);
    false
}

/// Clone of a vector of strings, text for text.
pub fn clone_string_vec(v: &Vec<String>) -> (r: Vec<String>)
    ensures
        r@ == v@,
{
    let mut r: Vec<String> = Vec::new();
    let mut i: usize = 0;
    while i < v.len()
        invariant
            i <= v.len(),
            r@ == v@.take(i as int),
        decreases v.len() - i,
    {
        r.push(v[i].clone());
        proof {
            assert(r@ =~= v@.take(i + 1));
        }
        i = i + 1;
    }
    proof {
        assert(v@.take(v@.len() as int) =~= v@);
    }
    r
}

/// View of one host credential set, for contracts.
pub struct XenConfigView {
    pub name: Seq<char>,
    pub server: Seq<char>,
    pub username: Seq<char>,
    pub password: Seq<char>,
}

impl DeepView for XenConfig {
    type V = XenConfigView;

    open spec fn deep_view(&self) -> XenConfigView {
        XenConfigView {
            name: self.name@,
            server: self.server@,
            username: self.username@,
            password: self.password@,
        }
    }
}

/// The whole static configuration.
#[derive(Debug, Clone)]
pub struct AppConfig {
    pub general: GeneralConfig,
    pub xen: Vec<XenConfig>,
    pub storage: StorageConfig,
    pub monitoring: MonitoringConfig,
    pub jobs: Vec<JobConfig>,
}

impl Default for AppConfig {
    fn default() -> (r: AppConfig)
        ensures
            r.xen@.len() == 0,
            r.jobs@.len() == 0,
            r.storage.local@.len() == 0,
            r.storage.borg@.len() == 0,
    {
        AppConfig {
            general: GeneralConfig::default(),
            xen: Vec::new(),
            storage: StorageConfig::default(),
            monitoring: MonitoringConfig::default(),
            jobs: Vec::new(),
        }
    }
}

/// What the whole process shares: the loaded configuration.  The live
/// monitoring collaborators built from it are owned outside the library.
#[derive(Debug, Clone)]
pub struct GlobalState {
    pub config: AppConfig,
}

} // verus!
