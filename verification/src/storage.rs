//! The storage abstraction and the artifact identity codec.
//!
//! A stored backup is identified by its flat name alone:
//! `host__job__object__rfc3339[.base_ext[.compression_ext]]` with a
//! double-underscore field separator.  `encode` and `decode` are exact
//! inverses for every well-formed artifact (see `lemma_round_trip`), and the
//! rotation engine depends on that inversion.

pub mod borg;
pub mod local;
pub mod memory;

use vstd::prelude::*;

use crate::config::{contains_string, JobConfig};
use crate::error::DecodeError;
use crate::jobs::{job_type_extension, job_type_of_token, job_type_token, JobType};
use crate::storage::local::{lct_extension, lct_of_extension, LocalCompressionType};
use crate::text::{
    after_last_char, after_last_char_str, before_char, before_char_str, field_ok, push_char,
    sep_free, sep_seq, split_sep, split_sep_str, trim_spec, trim_str, trimmed,
    lemma_split_prepend, lemma_split_whole, lemma_trim_of_trimmed, sep_at,
};
use crate::timestamp::{
    format_rfc3339, parse_rfc3339, rfc3339_clean, rfc3339_inverts, rfc3339_of, rfc3339_parse_of,
    Timestamp, MAX_TIMESTAMP_SECS,
};

verus! {

/// The closed set of backend kinds.
#[derive(Debug, Clone, Copy, PartialEq, Eq, Structural)]
pub enum StorageType {
    Local,
    Borg,
}

/// Space and artifact accounting a backend can report.
#[derive(Debug, Clone, Copy, PartialEq, Eq, Structural)]
pub struct StorageStatus {
    pub free_space: u64,
    pub total_space: u64,
    pub used_space: u64,
    pub backup_count: u32,
}

/// What every storage backend exposes without I/O.  The lifecycle
/// operations (initialize, list, rotate, stream consumption) work on the
/// external store; the library states their pure decision logic, and the
/// in-memory backend realizes the whole contract on plain values.
pub trait StorageHandler: Sized {
    fn get_storage_type(&self) -> StorageType;

    fn get_job_config(&self) -> JobConfig;
}

// --------------------------------------------------------------------------
// The artifact and its identity
// --------------------------------------------------------------------------
/// Mathematical image of one artifact.
#[verifier::ext_equal]
pub struct BackupObjectView {
    pub job_type: JobType,
    pub vm_name: Seq<char>,
    pub xen_host: Seq<char>,
    pub time_stamp: i64,
    pub size: Option<u64>,
    pub compression: Option<LocalCompressionType>,
}

impl BackupObjectView {
    /// Well-formed artifacts: both name fields are trimmed and free of
    /// separator collisions, and the instant is one the codec renders.
    pub open spec fn wf(self) -> bool {
        &&& field_ok(self.xen_host)
        &&& trimmed(self.xen_host)
        &&& field_ok(self.vm_name)
        &&& trimmed(self.vm_name)
        &&& 0 <= self.time_stamp <= MAX_TIMESTAMP_SECS
    }
}

/// One stored backup unit: never persisted as a record — its encoded name
/// is the persisted form.
#[derive(Debug)]
pub struct BackupObject {
    pub job_type: JobType,
    pub vm_name: String,
    pub xen_host: String,
    pub time_stamp: Timestamp,
    pub size: Option<u64>,
    pub compression: Option<LocalCompressionType>,
}

impl DeepView for BackupObject {
    type V = BackupObjectView;

    open spec fn deep_view(&self) -> BackupObjectView {
        BackupObjectView {
            job_type: self.job_type,
            vm_name: self.vm_name@,
            xen_host: self.xen_host@,
            time_stamp: self.time_stamp.secs,
            size: self.size,
            compression: self.compression,
        }
    }
}

impl Clone for BackupObject {
    fn clone(&self) -> (r: Self)
        ensures
            r == *self,
    {
        BackupObject {
            job_type: self.job_type,
            vm_name: self.vm_name.clone(),
            xen_host: self.xen_host.clone(),
            time_stamp: self.time_stamp,
            size: self.size,
            compression: self.compression,
        }
    }
}

// --------------------------------------------------------------------------
// Encoding
// --------------------------------------------------------------------------
/// The flat name of `a` without extensions:
/// `host__job__object__rfc3339`, with both name fields trimmed.
pub open spec fn base_name_of(a: BackupObjectView) -> Seq<char> {
    trim_spec(a.xen_host) + sep_seq() + job_type_token(a.job_type) + sep_seq() + trim_spec(
        a.vm_name,
    ) + sep_seq() + rfc3339_of(a.time_stamp)
}

/// The flat name of `a` with the base extension of its job kind and, where
/// the artifact is compressed, the compression extension.
pub open spec fn full_name_of(a: BackupObjectView) -> Seq<char> {
    let with_base = base_name_of(a) + seq!['.'] + job_type_extension(a.job_type);
    match a.compression {
        None => with_base,
        Some(c) => with_base + seq!['.'] + lct_extension(c),
    }
}

// --------------------------------------------------------------------------
// Decoding
// --------------------------------------------------------------------------
/// Exact mathematical decoder: split on the separator, demand four fields,
/// read the job kind from the closed token mapping, parse the timestamp
/// from the text before the first dot, and try the text after the last dot
/// against the compression-extension table — an unknown suffix means "no
/// compression", not an error.  A timestamp outside the renderable range of
/// the codec (the years 1970 through 9999) is rejected: no name this codec
/// produces carries one.
pub open spec fn decoded(s: Seq<char>) -> Result<BackupObjectView, DecodeError> {
    let parts = split_sep(s);
    if parts.len() != 4 {
        Err(DecodeError::MalformedName)
    } else {
        match job_type_of_token(parts[1]) {
            None => Err(DecodeError::UnknownJobType),
            Some(jt) => match rfc3339_parse_of(before_char(parts[3], '.')) {
                None => Err(DecodeError::BadTimestamp),
                Some(secs) => if 0 <= secs <= MAX_TIMESTAMP_SECS {
                    Ok(
                        BackupObjectView {
                            job_type: jt,
                            xen_host: parts[0],
                            vm_name: parts[2],
                            time_stamp: secs,
                            size: None,
                            compression: lct_of_extension(after_last_char(parts[3], '.')),
                        },
                    )
                } else {
                    Err(DecodeError::BadTimestamp)
                },
            },
        }
    }
}

/// The view of a decode result.
pub open spec fn decoded_view(r: Result<BackupObject, DecodeError>) -> Result<
    BackupObjectView,
    DecodeError,
> {
    match r {
        Ok(a) => Ok(a.deep_view()),
        Err(e) => Err(e),
    }
}

impl BackupObject {
    /// A fresh artifact record; its size is unknown until stored.
    pub fn new(
        job_type: JobType,
        vm_name: String,
        xen_host: String,
        time_stamp: Timestamp,
        compression: Option<LocalCompressionType>,
    ) -> (r: BackupObject)
        ensures
            r.job_type == job_type,
            r.vm_name == vm_name,
            r.xen_host == xen_host,
            r.time_stamp == time_stamp,
            r.size is None,
            r.compression == compression,
    {
        BackupObject { job_type, vm_name, xen_host, time_stamp, size: None, compression }
    }

    /// The flat name without extensions, used for archive entries.
    pub fn generate_name_without_extension(&self) -> (r: String)
        requires
            0 <= self.time_stamp.secs <= MAX_TIMESTAMP_SECS,
        ensures
            r@ == base_name_of(self.deep_view()),
            rfc3339_clean(self.deep_view().time_stamp),
    {
        let sep = "__";
        proof {
            reveal_strlit("__");
            assert(sep@ =~= sep_seq());
        }
        let mut s = String::new();
        s.append(trim_str(self.xen_host.as_str()));
        s.append(sep);
        let token = self.job_type.to_string();
        s.append(token.as_str());
        s.append(sep);
        s.append(trim_str(self.vm_name.as_str()));
        s.append(sep);
        let stamp = format_rfc3339(self.time_stamp);
        s.append(stamp.as_str());
        proof {
            assert(s@ =~= base_name_of(self.deep_view()));
        }
        s
    }

    /// The flat name with the base extension and, where the artifact is
    /// compressed, the compression extension — the persisted file name.
    pub fn generate_name_with_extension(&self) -> (r: String)
        requires
            0 <= self.time_stamp.secs <= MAX_TIMESTAMP_SECS,
        ensures
            r@ == full_name_of(self.deep_view()),
            rfc3339_clean(self.deep_view().time_stamp),
    {
        let mut s = self.generate_name_without_extension();
        push_char(&mut s, '.');
        let base = self.job_type.base_extension();
        s.append(base.as_str());
        match &self.compression {
            None => {
                proof {
                    assert(s@ =~= full_name_of(self.deep_view()));
                }
                s
            },
            Some(c) => {
                push_char(&mut s, '.');
                let ext = c.to_extension();
                s.append(ext.as_str());
                proof {
                    assert(s@ =~= full_name_of(self.deep_view()));
                }
                s
            },
        }
    }

    /// Decode a flat name back into the artifact it stands for.  The
    /// contract is the exact mathematical decoder: in particular a name
    /// without exactly four fields, with an unknown job token, or with an
    /// unparsable timestamp is rejected with the matching error.
    pub fn from_name_with_extension(filename: String) -> (r: Result<BackupObject, DecodeError>)
        ensures
            decoded_view(r) == decoded(filename@),
    {
        let parts = split_sep_str(filename.as_str());
        if parts.len() != 4 {
            proof {
                assert(parts.deep_view().len() == parts@.len());
            }
            return Err(DecodeError::MalformedName);
        }
        proof {
            assert(parts.deep_view().len() == parts@.len());
            assert(forall|j: int|
                0 <= j < parts@.len() ==> #[trigger] parts.deep_view()[j] == parts@[j]@);
        }
        let jt = match JobType::from_str(parts[1].as_str()) {
            Ok(j) => j,
            Err(e) => {
                return Err(e);
            },
        };
        let tpart = &parts[3];
        let tstr = before_char_str(tpart.as_str(), '.');
        let ts = match parse_rfc3339(tstr) {
            Some(t) => t,
            None => {
                return Err(DecodeError::BadTimestamp);
            },
        };
        if ts.secs < 0 || ts.secs > MAX_TIMESTAMP_SECS {
            return Err(DecodeError::BadTimestamp);
        }
        let ext = after_last_char_str(tpart.as_str(), '.');
        let compression = match LocalCompressionType::from_extension(ext) {
            Ok(c) => Some(c),
            Err(_) => None,
        };
        let r = BackupObject {
            job_type: jt,
            xen_host: parts[0].clone(),
            vm_name: parts[2].clone(),
            time_stamp: ts,
            size: None,
            compression,
        };
        proof {
            assert(r.deep_view() =~= decoded(filename@).unwrap());
        }
        Ok(r)
    }
}

// --------------------------------------------------------------------------
// The round-trip law
// --------------------------------------------------------------------------
/// Establishes, by rendering and reparsing once, what the codec's trusted
/// wrappers promise of this instant: its rendering is clean and parsing
/// inverts it.  Purely for its postconditions.
pub fn establish_rfc3339_facts(ts: Timestamp)
    requires
        ts.wf(),
    ensures
        rfc3339_clean(ts.secs),
        rfc3339_inverts(ts.secs),
{
    let s = format_rfc3339(ts);
    let p = parse_rfc3339(s.as_str());
    proof {
        assert(p == Some(Timestamp { secs: ts.secs }));
    }
}

/// No character of a full flat name's final field is an underscore, so the
/// final field is separator-free.
proof fn lemma_tail_sep_free(a: BackupObjectView)
    requires
        rfc3339_clean(a.time_stamp),
    ensures
        sep_free(rfc3339_of(a.time_stamp)),
        sep_free(
            rfc3339_of(a.time_stamp) + seq!['.'] + job_type_extension(a.job_type),
        ),
        a.compression matches Some(c) ==> sep_free(
            rfc3339_of(a.time_stamp) + seq!['.'] + job_type_extension(a.job_type) + seq!['.']
                + lct_extension(c),
        ),
{
    let rfc = rfc3339_of(a.time_stamp);
    let withbase = rfc + seq!['.'] + job_type_extension(a.job_type);
    assert(forall|i: int| 0 <= i < withbase.len() ==> #[trigger] withbase[i] != '_');
    assert(forall|i: int| !sep_at(withbase, i));
    assert(forall|i: int| !sep_at(rfc, i));
    match a.compression {
        Some(c) => {
            let full = withbase + seq!['.'] + lct_extension(c);
            assert(forall|i: int| 0 <= i < full.len() ==> #[trigger] full[i] != '_');
            assert(forall|i: int| !sep_at(full, i));
        },
        None => {},
    }
}

/// The job-kind token may stand as a non-final field.
proof fn lemma_token_field_ok(j: JobType)
    ensures
        field_ok(job_type_token(j)),
{
    let t = job_type_token(j);
    assert(forall|i: int| sep_at(t, i) ==> i == 0);
    assert(!sep_at(t, 0));
}

/// Splitting a full or base flat name gives back exactly the four fields.
proof fn lemma_split_of_name(a: BackupObjectView, tail: Seq<char>)
    requires
        a.wf(),
        sep_free(tail),
    ensures
        split_sep(
            trim_spec(a.xen_host) + sep_seq() + job_type_token(a.job_type) + sep_seq() + trim_spec(
                a.vm_name,
            ) + sep_seq() + tail,
        ) == seq![trim_spec(a.xen_host), job_type_token(a.job_type), trim_spec(a.vm_name), tail],
{
    let host = trim_spec(a.xen_host);
    let token = job_type_token(a.job_type);
    let vm = trim_spec(a.vm_name);
    lemma_trim_of_trimmed(a.xen_host);
    lemma_trim_of_trimmed(a.vm_name);
    let r2 = vm + sep_seq() + tail;
    let r1 = token + sep_seq() + r2;
    lemma_split_whole(tail);
    lemma_split_prepend(vm, tail);
    lemma_token_field_ok(a.job_type);
    lemma_split_prepend(token, r2);
    lemma_split_prepend(host, r1);
    assert(host + sep_seq() + r1 =~= host + sep_seq() + token + sep_seq() + vm + sep_seq()
        + tail);
    assert(seq![host] + (seq![token] + (seq![vm] + seq![tail])) =~= seq![
        host,
        token,
        vm,
        tail,
    ]);
}

/// **Round-trip law**: decoding the encoded name of any well-formed,
/// still-unsized artifact gives the artifact back — with the full name its
/// compression included, with the extension-less base name (as archives
/// store it) the compression read as absent.
///
/// The two rendering hypotheses hold of every instant the codec renders;
/// `establish_rfc3339_facts` proves them for a concrete artifact.
pub proof fn lemma_round_trip(a: BackupObjectView)
    requires
        a.wf(),
        a.size is None,
        rfc3339_clean(a.time_stamp),
        rfc3339_inverts(a.time_stamp),
    ensures
        decoded(full_name_of(a)) == Ok::<BackupObjectView, DecodeError>(a),
        decoded(base_name_of(a)) == Ok::<BackupObjectView, DecodeError>(
            BackupObjectView { compression: None, ..a },
        ),
{
    lemma_trim_of_trimmed(a.xen_host);
    lemma_trim_of_trimmed(a.vm_name);
    lemma_tail_sep_free(a);
    let rfc = rfc3339_of(a.time_stamp);
    let baseext = job_type_extension(a.job_type);

    // The base name: the final field is the bare timestamp text.
    lemma_split_of_name(a, rfc);
    assert(base_name_of(a) =~= trim_spec(a.xen_host) + sep_seq() + job_type_token(a.job_type)
        + sep_seq() + trim_spec(a.vm_name) + sep_seq() + rfc);
    crate::text::lemma_before_char_whole(rfc, '.');
    crate::text::lemma_after_last_whole(rfc, '.');
    assert(lct_of_extension(rfc) is None);
    assert(decoded(base_name_of(a)) =~= Ok::<BackupObjectView, DecodeError>(
        BackupObjectView { compression: None, ..a },
    ));

    // The full name: the final field carries the dotted extensions.
    match a.compression {
        None => {
            let tail = rfc + seq!['.'] + baseext;
            lemma_split_of_name(a, tail);
            assert(full_name_of(a) =~= trim_spec(a.xen_host) + sep_seq() + job_type_token(
                a.job_type,
            ) + sep_seq() + trim_spec(a.vm_name) + sep_seq() + tail);
            crate::text::lemma_before_char_prefix(tail, '.', rfc.len() as int);
            assert(tail.subrange(0, rfc.len() as int) =~= rfc);
            crate::text::lemma_after_last_suffix(tail, '.', rfc.len() as int + 1);
            assert(tail.subrange(rfc.len() as int + 1, tail.len() as int) =~= baseext);
            assert(lct_of_extension(baseext) is None);
            assert(decoded(full_name_of(a)) =~= Ok::<BackupObjectView, DecodeError>(a));
        },
        Some(c) => {
            let tail = rfc + seq!['.'] + baseext + seq!['.'] + lct_extension(c);
            lemma_split_of_name(a, tail);
            assert(full_name_of(a) =~= trim_spec(a.xen_host) + sep_seq() + job_type_token(
                a.job_type,
            ) + sep_seq() + trim_spec(a.vm_name) + sep_seq() + tail);
            crate::text::lemma_before_char_prefix(tail, '.', rfc.len() as int);
            assert(tail.subrange(0, rfc.len() as int) =~= rfc);
            crate::text::lemma_after_last_suffix(tail, '.', rfc.len() as int + baseext.len() + 2);
            assert(tail.subrange(rfc.len() as int + baseext.len() + 2, tail.len() as int)
                =~= lct_extension(c));
            assert(lct_of_extension(lct_extension(c)) == Some(c));
            assert(decoded(full_name_of(a)) =~= Ok::<BackupObjectView, DecodeError>(a));
        },
    }
}

impl BackupObject {
    /// Executable witness of the round-trip law: encode, then decode, and
    /// get the same artifact back.
    pub fn reencoded(&self) -> (r: BackupObject)
        requires
            self.deep_view().wf(),
            self.size is None,
        ensures
            r.deep_view() == self.deep_view(),
    {
        establish_rfc3339_facts(self.time_stamp);
        let name = self.generate_name_with_extension();
        proof {
            lemma_round_trip(self.deep_view());
        }
        match Self::from_name_with_extension(name) {
            Ok(a) => a,
            Err(_) => {
                proof {
                    assert(false);
                }
                vstd::pervasive::unreached()
            },
        }
    }
}

// --------------------------------------------------------------------------
// Listing filters
// --------------------------------------------------------------------------
/// Mathematical image of a listing filter.
#[verifier::ext_equal]
pub struct BackupObjectFilterView {
    pub job_type: Option<Seq<JobType>>,
    pub vm_name: Option<Seq<Seq<char>>>,
    pub xen_host: Option<Seq<Seq<char>>>,
    pub time_stamp: Option<(Option<i64>, Option<i64>)>,
    pub compression: Option<Seq<LocalCompressionType>>,
}

/// A query restricting a storage listing.  Every present field is a
/// conjunctive predicate; an absent field restricts nothing.
#[derive(Debug, Clone)]
pub struct BackupObjectFilter {
    pub job_type: Option<Vec<JobType>>,
    pub vm_name: Option<Vec<String>>,
    pub xen_host: Option<Vec<String>>,
    /// Inclusive lower and upper instant bounds.
    pub time_stamp: Option<(Option<Timestamp>, Option<Timestamp>)>,
    pub compression: Option<Vec<LocalCompressionType>>,
}

impl DeepView for BackupObjectFilter {
    type V = BackupObjectFilterView;

    open spec fn deep_view(&self) -> BackupObjectFilterView {
        BackupObjectFilterView {
            job_type: match self.job_type {
                None => None,
                Some(v) => Some(v@),
            },
            vm_name: match self.vm_name {
                None => None,
                Some(v) => Some(v.deep_view()),
            },
            xen_host: match self.xen_host {
                None => None,
                Some(v) => Some(v.deep_view()),
            },
            time_stamp: match self.time_stamp {
                None => None,
                Some((lo, hi)) => Some(
                    (
                        match lo {
                            None => None,
                            Some(t) => Some(t.secs),
                        },
                        match hi {
                            None => None,
                            Some(t) => Some(t.secs),
                        },
                    ),
                ),
            },
            compression: match self.compression {
                None => None,
                Some(v) => Some(v@),
            },
        }
    }
}

/// Conjunction of every present field of `f` over the artifact `a`.
pub open spec fn filter_matches(f: BackupObjectFilterView, a: BackupObjectView) -> bool {
    &&& match f.job_type {
        None => true,
        Some(js) => js.contains(a.job_type),
    }
    &&& match f.vm_name {
        None => true,
        Some(vs) => vs.contains(a.vm_name),
    }
    &&& match f.xen_host {
        None => true,
        Some(hs) => hs.contains(a.xen_host),
    }
    &&& match f.time_stamp {
        None => true,
        Some((lo, hi)) => {
            &&& match lo {
                None => true,
                Some(l) => l <= a.time_stamp,
            }
            &&& match hi {
                None => true,
                Some(h) => a.time_stamp <= h,
            }
        },
    }
    &&& match f.compression {
        None => true,
        Some(cs) => match a.compression {
            None => false,
            Some(c) => cs.contains(c),
        },
    }
}

/// A filter with no present field matches every artifact.
pub proof fn lemma_empty_filter_matches(f: BackupObjectFilterView, a: BackupObjectView)
    requires
        f.job_type is None,
        f.vm_name is None,
        f.xen_host is None,
        f.time_stamp is None,
        f.compression is None,
    ensures
        filter_matches(f, a),
{
}

/// Whether one of `v` equals `j`.
fn contains_job_type(v: &Vec<JobType>, j: JobType) -> (r: bool)
    ensures
        r == v@.contains(j),
{
    let mut i: usize = 0;
    while i < v.len()
        invariant
            i <= v.len(),
            forall|k: int| 0 <= k < i ==> v@[k] != j,
        decreases v.len() - i,
    {
        if v[i] == j {
            return true;
        }
        i = i + 1;
    }
    false
}

/// Whether one of `v` equals `c`.
fn contains_compression(v: &Vec<LocalCompressionType>, c: LocalCompressionType) -> (r: bool)
    ensures
        r == v@.contains(c),
{
    let mut i: usize = 0;
    while i < v.len()
        invariant
            i <= v.len(),
            forall|k: int| 0 <= k < i ==> v@[k] != c,
        decreases v.len() - i,
    {
        if v[i] == c {
            return true;
        }
        i = i + 1;
    }
    false
}

impl BackupObjectFilter {
    /// The identity filter of one artifact: its host, kind and object name,
    /// every instant up to its timestamp, and its compression if any.
    /// Rotation is scoped with this filter so that it never touches
    /// artifacts of another object.
    pub fn from_backup_object(backup_object: BackupObject) -> (r: BackupObjectFilter)
        ensures
            r.deep_view().job_type == Some(seq![backup_object.job_type]),
            r.deep_view().vm_name == Some(seq![backup_object.vm_name@]),
            r.deep_view().xen_host == Some(seq![backup_object.xen_host@]),
            r.deep_view().time_stamp == Some(
                (None::<i64>, Some(backup_object.time_stamp.secs)),
            ),
            r.deep_view().compression == match backup_object.compression {
                None => None::<Seq<LocalCompressionType>>,
                Some(c) => Some(seq![c]),
            },
    {
        let compression = match backup_object.compression {
            None => None,
            Some(c) => Some(vec![c]),
        };
        let r = BackupObjectFilter {
            job_type: Some(vec![backup_object.job_type]),
            vm_name: Some(vec![backup_object.vm_name]),
            xen_host: Some(vec![backup_object.xen_host]),
            time_stamp: Some((None, Some(backup_object.time_stamp))),
            compression,
        };
        proof {
            assert(r.deep_view().job_type->Some_0 =~= seq![backup_object.job_type]);
            assert(r.deep_view().vm_name->Some_0 =~= seq![r.vm_name->Some_0@[0]@]);
            assert(r.deep_view().xen_host->Some_0 =~= seq![r.xen_host->Some_0@[0]@]);
            match &r.compression {
                None => {},
                Some(c) => {
                    assert(r.deep_view().compression->Some_0 =~= seq![c@[0]]);
                },
            }
        }
        r
    }

    /// Whether `o` passes every present field of this filter.
    pub fn matches(&self, o: &BackupObject) -> (r: bool)
        ensures
            r == filter_matches(self.deep_view(), o.deep_view()),
    {
        if let Some(js) = &self.job_type {
            if !contains_job_type(js, o.job_type) {
                return false;
            }
        }
        if let Some(vs) = &self.vm_name {
            if !contains_string(vs, &o.vm_name) {
                return false;
            }
        }
        if let Some(hs) = &self.xen_host {
            if !contains_string(hs, &o.xen_host) {
                return false;
            }
        }
        if let Some((lo, hi)) = &self.time_stamp {
            if let Some(l) = lo {
                if !(l.secs <= o.time_stamp.secs) {
                    return false;
                }
            }
            if let Some(h) = hi {
                if !(o.time_stamp.secs <= h.secs) {
                    return false;
                }
            }
        }
        if let Some(cs) = &self.compression {
            match &o.compression {
                None => {
                    return false;
                },
                Some(c) => {
                    if !contains_compression(cs, *c) {
                        return false;
                    }
                },
            }
        }
        true
    }
}

impl BackupObject {
    /// The identity filter of this artifact.
    pub fn to_filter(&self) -> (r: BackupObjectFilter)
        ensures
            r.deep_view().job_type == Some(seq![self.job_type]),
            r.deep_view().vm_name == Some(seq![self.vm_name@]),
            r.deep_view().xen_host == Some(seq![self.xen_host@]),
            r.deep_view().time_stamp == Some((None::<i64>, Some(self.time_stamp.secs))),
            r.deep_view().compression == match self.compression {
                None => None::<Seq<LocalCompressionType>>,
                Some(c) => Some(seq![c]),
            },
    {
        BackupObjectFilter::from_backup_object(self.clone())
    }
}

// --------------------------------------------------------------------------
// Listing
// --------------------------------------------------------------------------
/// The artifacts of `objs` that pass `f`, in listing order.
pub open spec fn retained(objs: Seq<BackupObjectView>, f: BackupObjectFilterView) -> Seq<
    BackupObjectView,
>
    decreases objs.len(),
{
    if objs.len() == 0 {
        Seq::empty()
    } else {
        let tail = retained(objs.subrange(1, objs.len() as int), f);
        if filter_matches(f, objs[0]) {
            seq![objs[0]] + tail
        } else {
            tail
        }
    }
}

/// What a listing of the stored names yields under `f`: each name is
/// decoded, an undecodable name is skipped rather than aborting the
/// listing, and every present filter field is applied conjunctively.
pub open spec fn listed(names: Seq<Seq<char>>, f: BackupObjectFilterView) -> Seq<
    BackupObjectView,
>
    decreases names.len(),
{
    if names.len() == 0 {
        Seq::empty()
    } else {
        let tail = listed(names.subrange(1, names.len() as int), f);
        match decoded(names[0]) {
            Ok(a) => if filter_matches(f, a) {
                seq![a] + tail
            } else {
                tail
            },
            Err(_) => tail,
        }
    }
}

/// Every artifact a listing yields carries a timestamp in the codec's
/// renderable range: the decoder rejects anything else, so every listed
/// artifact can be translated back into its flat name.
pub proof fn lemma_listed_times_wf(names: Seq<Seq<char>>, f: BackupObjectFilterView)
    ensures
        forall|i: int|
            0 <= i < listed(names, f).len() ==> 0 <= #[trigger] listed(names, f)[i].time_stamp
                <= MAX_TIMESTAMP_SECS,
    decreases names.len(),
{
    if names.len() == 0 {
    } else {
        let tail = names.subrange(1, names.len() as int);
        lemma_listed_times_wf(tail, f);
        match decoded(names[0]) {
            Ok(a) => {
                if filter_matches(f, a) {
                    assert(listed(names, f) == seq![a] + listed(tail, f));
                    assert(forall|i: int|
                        1 <= i < listed(names, f).len() ==> listed(names, f)[i] == listed(
                            tail,
                            f,
                        )[i - 1]);
                }
            },
            Err(_) => {},
        }
    }
}

/// Apply `f` to an already-decoded listing.
pub fn filter_listing(objs: Vec<BackupObject>, f: &BackupObjectFilter) -> (r: Vec<BackupObject>)
    ensures
        r.deep_view() == retained(objs.deep_view(), f.deep_view()),
{
    let ghost orig = objs.deep_view();
    let mut rem = objs;
    let mut r: Vec<BackupObject> = Vec::new();
    proof {
        assert(r.deep_view() + retained(orig, f.deep_view()) =~= retained(orig, f.deep_view()));
    }
    while rem.len() > 0
        invariant
            retained(orig, f.deep_view()) == r.deep_view() + retained(
                rem.deep_view(),
                f.deep_view(),
            ),
        decreases rem.len(),
    {
        let ghost before = rem.deep_view();
        let ghost r_before = r.deep_view();
        let x = rem.remove(0);
        proof {
            assert(rem.deep_view() =~= before.subrange(1, before.len() as int));
            assert(before[0] == x.deep_view());
        }
        if f.matches(&x) {
            r.push(x);
            proof {
                assert(r.deep_view() =~= r_before.push(x.deep_view()));
                assert(retained(before, f.deep_view()) == seq![before[0]] + retained(
                    before.subrange(1, before.len() as int),
                    f.deep_view(),
                ));
                assert(r.deep_view() + retained(rem.deep_view(), f.deep_view()) =~= retained(
                    orig,
                    f.deep_view(),
                ));
            }
        } else {
            proof {
                assert(retained(before, f.deep_view()) == retained(
                    before.subrange(1, before.len() as int),
                    f.deep_view(),
                ));
            }
        }
    }
    proof {
        assert(retained(rem.deep_view(), f.deep_view()) =~= Seq::<BackupObjectView>::empty());
        assert(r.deep_view() + Seq::<BackupObjectView>::empty() =~= r.deep_view());
    }
    r
}

/// The pure part of a backend's `list`: decode the stored names, skip the
/// undecodable ones, keep what passes `f`.
pub fn list_from_file_names(names: Vec<String>, f: &BackupObjectFilter) -> (r: Vec<BackupObject>)
    ensures
        r.deep_view() == listed(names.deep_view(), f.deep_view()),
{
    let ghost orig = names.deep_view();
    let mut rem = names;
    let mut r: Vec<BackupObject> = Vec::new();
    proof {
        assert(r.deep_view() + listed(orig, f.deep_view()) =~= listed(orig, f.deep_view()));
    }
    while rem.len() > 0
        invariant
            listed(orig, f.deep_view()) == r.deep_view() + listed(
                rem.deep_view(),
                f.deep_view(),
            ),
        decreases rem.len(),
    {
        let ghost before = rem.deep_view();
        let ghost r_before = r.deep_view();
        let name = rem.remove(0);
        proof {
            assert(rem.deep_view() =~= before.subrange(1, before.len() as int));
            assert(before[0] == name@);
        }
        match BackupObject::from_name_with_extension(name) {
            Ok(a) => {
                proof {
                    assert(decoded(before[0]) == Ok::<BackupObjectView, DecodeError>(
                        a.deep_view(),
                    ));
                }
                if f.matches(&a) {
                    proof {
                        assert(listed(before, f.deep_view()) == seq![a.deep_view()] + listed(
                            rem.deep_view(),
                            f.deep_view(),
                        ));
                    }
                    r.push(a);
                    proof {
                        assert(r.deep_view() =~= r_before.push(listed(orig, f.deep_view())[
                            r_before.len() as int
                        ]));
                        assert(r.deep_view() + listed(rem.deep_view(), f.deep_view())
                            =~= listed(orig, f.deep_view()));
                    }
                } else {
                    proof {
                        assert(listed(before, f.deep_view()) == listed(
                            rem.deep_view(),
                            f.deep_view(),
                        ));
                    }
                }
            },
            Err(_) => {
                proof {
                    assert(decoded(before[0]) is Err);
                    assert(listed(before, f.deep_view()) == listed(
                        rem.deep_view(),
                        f.deep_view(),
                    ));
                }
            },
        }
    }
    proof {
        assert(listed(rem.deep_view(), f.deep_view()) =~= Seq::<BackupObjectView>::empty());
        assert(r.deep_view() + Seq::<BackupObjectView>::empty() =~= r.deep_view());
    }
    r
}

} // verus!
