//! The hypervisor CLI collaborator: parsing its textual output and building
//! its command lines.
//!
//! The process invocation itself happens outside the library; what stands
//! here is everything that can be wrong about it — the argument vectors
//! handed to `xe` and the interpretation of what it prints.

use vstd::prelude::*;

use crate::config::{contains_string, XenConfig};
use crate::error::{XApiParseError, XApiParseErrorView};
use crate::text::{
    after_first_char, after_first_char_str, before_char, before_char_str, count_char,
    count_char_str, has_char, has_char_str, join_char, joined, push_char, split_char,
    split_char_str, trim_spec, trim_str,
};
use crate::timestamp::{parse_timestamp, xe_time_of, Timestamp};

verus! {

/// A universally unique identifier, as the CLI prints it.
pub type UUID = String;

/// A minimal-form list of identifiers.
pub type UUIDs = Vec<String>;

/// Mathematical image of a VM descriptor.
#[verifier::ext_equal]
pub struct VMView {
    pub uuid: Seq<char>,
    pub name_label: Seq<char>,
    pub name_description: Seq<char>,
    pub is_a_template: bool,
    pub is_default_template: bool,
    pub is_a_snapshot: bool,
    pub snapshot_time: i64,
}

/// One VM or snapshot descriptor parsed from `xe vm-param-list` output.
#[derive(Debug)]
pub struct VM {
    pub uuid: String,
    pub name_label: String,
    pub name_description: String,
    pub is_a_template: bool,
    pub is_default_template: bool,
    pub is_a_snapshot: bool,
    pub snapshot_time: Timestamp,
}

impl DeepView for VM {
    type V = VMView;

    open spec fn deep_view(&self) -> VMView {
        VMView {
            uuid: self.uuid@,
            name_label: self.name_label@,
            name_description: self.name_description@,
            is_a_template: self.is_a_template,
            is_default_template: self.is_default_template,
            is_a_snapshot: self.is_a_snapshot,
            snapshot_time: self.snapshot_time.secs,
        }
    }
}

impl Clone for VM {
    fn clone(&self) -> (r: Self)
        ensures
            r == *self,
    {
        VM {
            uuid: self.uuid.clone(),
            name_label: self.name_label.clone(),
            name_description: self.name_description.clone(),
            is_a_template: self.is_a_template,
            is_default_template: self.is_default_template,
            is_a_snapshot: self.is_a_snapshot,
            snapshot_time: self.snapshot_time,
        }
    }
}

impl Default for VM {
    fn default() -> (r: VM)
        ensures
            r.uuid@.len() == 0,
            r.name_label@.len() == 0,
            r.name_description@.len() == 0,
            r.is_a_template == false,
            r.is_default_template == false,
            r.is_a_snapshot == false,
            r.snapshot_time.secs == 0,
    {
        VM {
            uuid: String::new(),
            name_label: String::new(),
            name_description: String::new(),
            is_a_template: false,
            is_default_template: false,
            is_a_snapshot: false,
            snapshot_time: Timestamp { secs: 0 },
        }
    }
}

/// The snapshot flavours the CLI can take.
#[derive(Debug, Clone, Copy, PartialEq, Eq, Structural)]
pub enum SnapshotType {
    Normal,
    Memory,
}

/// The CLI token of `t`.
pub open spec fn snapshot_type_token(t: SnapshotType) -> Seq<char> {
    match t {
        SnapshotType::Normal => "basic"@,
        SnapshotType::Memory => "memory"@,
    }
}

impl SnapshotType {
    /// The CLI token of this flavour.
    pub fn to_string(&self) -> (r: String)
        ensures
            r@ == snapshot_type_token(*self),
    {
        match self {
            SnapshotType::Normal => "basic".to_owned(),
            SnapshotType::Memory => "memory".to_owned(),
        }
    }
}

/// A value parsed from one block of CLI standard output.
pub trait FromCliOutput: Sized {
    fn from_cli_output(output: &str) -> Result<Self, XApiParseError>;
}

// --------------------------------------------------------------------------
// Cleaning and shaping CLI output
// --------------------------------------------------------------------------
/// `s` with every newline and carriage return removed.
pub open spec fn strip_crlf(s: Seq<char>) -> Seq<char>
    decreases s.len(),
{
    if s.len() == 0 {
        s
    } else {
        strip_crlf(s.subrange(0, s.len() - 1)) + (if s[s.len() - 1] == '\n' || s[s.len() - 1]
            == '\r' {
            Seq::<char>::empty()
        } else {
            seq![s[s.len() - 1]]
        })
    }
}

/// The CLI's minimal output reduced to one line: whitespace margins
/// trimmed, every newline and carriage return removed.
pub fn clean_stdout(stdout: &str) -> (r: String)
    ensures
        r@ == strip_crlf(trim_spec(stdout@)),
{
    let t = trim_str(stdout);
    let len = t.unicode_len();
    let mut r = String::new();
    let mut i: usize = 0;
    proof {
        assert(t@.subrange(0, 0) =~= Seq::<char>::empty());
    }
    while i < len
        invariant
            i <= len,
            len == t@.len(),
            t@ == trim_spec(stdout@),
            r@ == strip_crlf(t@.subrange(0, i as int)),
        decreases len - i,
    {
        let ghost pre = t@.subrange(0, i as int);
        let ch = t.get_char(i);
        if ch != '\n' && ch != '\r' {
            push_char(&mut r, ch);
        }
        proof {
            let cur = t@.subrange(0, i + 1);
            assert(cur.subrange(0, cur.len() - 1) =~= pre);
            assert(cur[cur.len() - 1] == t@[i as int]);
            assert(r@ =~= strip_crlf(cur));
        }
        i = i + 1;
    }
    proof {
        assert(t@.subrange(0, t@.len() as int) =~= t@);
    }
    r
}

/// An identifier has the CLI's five dash-separated groups.
pub open spec fn uuid_shaped(s: Seq<char>) -> bool {
    count_char(s, '-') == 4
}

/// What parsing one cleaned identifier yields.
pub open spec fn uuid_parse(s: Seq<char>) -> Result<Seq<char>, XApiParseError> {
    let cleaned = strip_crlf(trim_spec(s));
    if uuid_shaped(cleaned) {
        Ok(cleaned)
    } else {
        Err(XApiParseError::EmptyOutput)
    }
}

/// Parse one identifier from CLI output; anything without the five
/// dash-separated groups is rejected.
pub fn parse_uuid(output: &str) -> (r: Result<String, XApiParseError>)
    ensures
        r matches Ok(u) ==> uuid_parse(output@) == Ok::<Seq<char>, XApiParseError>(u@),
        r matches Err(e) ==> uuid_parse(output@) == Err::<Seq<char>, XApiParseError>(e),
{
    let cleaned = clean_stdout(output);
    if count_char_str(cleaned.as_str(), '-') == 4 {
        Ok(cleaned)
    } else {
        Err(XApiParseError::EmptyOutput)
    }
}

/// The comma-separated fields of the cleaned output, each trimmed.
pub open spec fn uuid_fields(s: Seq<char>) -> Seq<Seq<char>> {
    let parts = split_char(strip_crlf(trim_spec(s)), ',');
    Seq::new(parts.len(), |i: int| trim_spec(parts[i]))
}

/// What parsing a cleaned identifier list yields: every field must have
/// the five dash-separated groups.
pub open spec fn uuids_parse(s: Seq<char>) -> Result<Seq<Seq<char>>, XApiParseError> {
    let fields = uuid_fields(s);
    if forall|i: int| 0 <= i < fields.len() ==> uuid_shaped(#[trigger] fields[i]) {
        Ok(fields)
    } else {
        Err(XApiParseError::EmptyOutput)
    }
}

/// Parse a minimal-form identifier list from CLI output.
pub fn parse_uuids(output: &str) -> (r: Result<Vec<String>, XApiParseError>)
    ensures
        r matches Ok(v) ==> uuids_parse(output@) == Ok::<Seq<Seq<char>>, XApiParseError>(
            v.deep_view(),
        ),
        r matches Err(e) ==> uuids_parse(output@) == Err::<Seq<Seq<char>>, XApiParseError>(e),
{
    let cleaned = clean_stdout(output);
    let parts = split_char_str(cleaned.as_str(), ',');
    let mut fields: Vec<String> = Vec::new();
    let mut i: usize = 0;
    proof {
        assert(fields.deep_view() =~= uuid_fields(output@).take(0));
    }
    while i < parts.len()
        invariant
            i <= parts@.len(),
            parts.deep_view() == split_char(strip_crlf(trim_spec(output@)), ','),
            fields.deep_view() =~= uuid_fields(output@).take(i as int),
            forall|j: int| 0 <= j < i ==> uuid_shaped(#[trigger] uuid_fields(output@)[j]),
        decreases parts@.len() - i,
    {
        let ghost fbefore = fields.deep_view();
        let f = trim_str(parts[i].as_str());
        if count_char_str(f, '-') != 4 {
            proof {
                assert(parts.deep_view()[i as int] == parts@[i as int]@);
                assert(uuid_fields(output@)[i as int] == trim_spec(parts@[i as int]@));
                assert(!uuid_shaped(uuid_fields(output@)[i as int]));
            }
            return Err(XApiParseError::EmptyOutput);
        }
        fields.push(f.to_owned());
        proof {
            assert(parts.deep_view()[i as int] == parts@[i as int]@);
            assert(uuid_fields(output@)[i as int] == trim_spec(parts@[i as int]@));
            assert(fields.deep_view() =~= fbefore.push(trim_spec(parts@[i as int]@)));
            assert(fields.deep_view() =~= uuid_fields(output@).take(i + 1));
        }
        i = i + 1;
    }
    proof {
        assert(uuid_fields(output@).take(uuid_fields(output@).len() as int) =~= uuid_fields(
            output@,
        ));
    }
    Ok(fields)
}

impl FromCliOutput for String {
    fn from_cli_output(output: &str) -> Result<Self, XApiParseError> {
        parse_uuid(output)
    }
}

impl FromCliOutput for Vec<String> {
    fn from_cli_output(output: &str) -> Result<Self, XApiParseError> {
        parse_uuids(output)
    }
}

// --------------------------------------------------------------------------
// Parsing `vm-param-list` output
// --------------------------------------------------------------------------
/// The CLI's boolean tokens; anything else is no boolean.
pub open spec fn bool_of_token(s: Seq<char>) -> Option<bool> {
    if s == "true"@ {
        Some(true)
    } else if s == "false"@ {
        Some(false)
    } else {
        None
    }
}

/// Parse a CLI boolean token.
pub fn parse_bool_token(s: &str) -> (r: Option<bool>)
    ensures
        r == bool_of_token(s@),
{
    let owned = s.to_owned();
    if owned == "true".to_owned() {
        Some(true)
    } else if owned == "false".to_owned() {
        Some(false)
    } else {
        None
    }
}

/// What one key/value line does to the descriptor: a line without a colon
/// is skipped; the key is the first space-separated token of the trimmed
/// left part; the value is the trimmed right part.  Unknown keys are
/// ignored; a malformed boolean or timestamp fails the parse.
pub open spec fn vm_apply_line(line: Seq<char>, acc: VMView) -> Result<
    VMView,
    XApiParseErrorView,
> {
    if !has_char(line, ':') {
        Ok(acc)
    } else {
        let key = before_char(trim_spec(before_char(line, ':')), ' ');
        let value = trim_spec(after_first_char(line, ':'));
        if key == "uuid"@ {
            Ok(VMView { uuid: value, ..acc })
        } else if key == "name-label"@ {
            Ok(VMView { name_label: value, ..acc })
        } else if key == "name-description"@ {
            Ok(VMView { name_description: value, ..acc })
        } else if key == "is-a-template"@ {
            match bool_of_token(value) {
                Some(b) => Ok(VMView { is_a_template: b, ..acc }),
                None => Err(XApiParseErrorView::GenericParseError(value)),
            }
        } else if key == "is-default-template"@ {
            match bool_of_token(value) {
                Some(b) => Ok(VMView { is_default_template: b, ..acc }),
                None => Err(XApiParseErrorView::GenericParseError(value)),
            }
        } else if key == "is-a-snapshot"@ {
            match bool_of_token(value) {
                Some(b) => Ok(VMView { is_a_snapshot: b, ..acc }),
                None => Err(XApiParseErrorView::GenericParseError(value)),
            }
        } else if key == "snapshot-time"@ {
            match xe_time_of(value) {
                Some(t) => Ok(VMView { snapshot_time: t, ..acc }),
                None => Err(XApiParseErrorView::TimestampParseError),
            }
        } else {
            Ok(acc)
        }
    }
}

/// Fold the key/value lines of `vm-param-list` output over a descriptor.
pub open spec fn vm_from_lines(lines: Seq<Seq<char>>, acc: VMView) -> Result<
    VMView,
    XApiParseErrorView,
>
    decreases lines.len(),
{
    if lines.len() == 0 {
        Ok(acc)
    } else {
        match vm_apply_line(lines[0], acc) {
            Ok(acc2) => vm_from_lines(lines.subrange(1, lines.len() as int), acc2),
            Err(e) => Err(e),
        }
    }
}

/// The zeroed descriptor the fold starts from.
pub open spec fn vm_init() -> VMView {
    VMView {
        uuid: Seq::empty(),
        name_label: Seq::empty(),
        name_description: Seq::empty(),
        is_a_template: false,
        is_default_template: false,
        is_a_snapshot: false,
        snapshot_time: 0,
    }
}

/// What parsing a whole `vm-param-list` output yields: the fold of its
/// newline-separated lines over the zeroed descriptor.
pub open spec fn vm_parse(s: Seq<char>) -> Result<VMView, XApiParseErrorView> {
    vm_from_lines(split_char(trim_spec(s), '\n'), vm_init())
}

impl VM {
    /// Parse one `vm-param-list` output block into a descriptor.
    pub fn parse_cli_output(output: &str) -> (r: Result<VM, XApiParseError>)
        ensures
            r matches Ok(vm) ==> vm_parse(output@) == Ok::<VMView, XApiParseErrorView>(
                vm.deep_view(),
            ),
            r matches Err(e) ==> vm_parse(output@) == Err::<VMView, XApiParseErrorView>(
                e.deep_view(),
            ),
    {
        let t = trim_str(output);
        let lines = split_char_str(t, '\n');
        let ghost all_lines = lines.deep_view();
        let mut acc = VM::default();
        proof {
            assert(acc.deep_view() =~= vm_init());
        }
        let mut rem = lines;
        proof {
            assert(rem.deep_view() =~= all_lines);
        }
        while rem.len() > 0
            invariant
                vm_parse(output@) == vm_from_lines(rem.deep_view(), acc.deep_view()),
            decreases rem.len(),
        {
            let ghost before = rem.deep_view();
            let ghost acc_before = acc.deep_view();
            let line = rem.remove(0);
            proof {
                assert(rem.deep_view() =~= before.subrange(1, before.len() as int));
                assert(before[0] == line@);
            }
            if has_char_str(line.as_str(), ':') {
                let left = before_char_str(line.as_str(), ':');
                let left_trimmed = trim_str(left);
                let key = before_char_str(left_trimmed, ' ');
                let value = trim_str(after_first_char_str(line.as_str(), ':'));
                let k = key.to_owned();
                if k == "uuid".to_owned() {
                    acc.uuid = value.to_owned();
                } else if k == "name-label".to_owned() {
                    acc.name_label = value.to_owned();
                } else if k == "name-description".to_owned() {
                    acc.name_description = value.to_owned();
                } else if k == "is-a-template".to_owned() {
                    match parse_bool_token(value) {
                        Some(b) => {
                            acc.is_a_template = b;
                        },
                        None => {
                            proof {
                                assert(vm_apply_line(before[0], acc_before)
                                    == Err::<VMView, XApiParseErrorView>(
                                    XApiParseErrorView::GenericParseError(value@),
                                ));
                            }
                            return Err(XApiParseError::GenericParseError(value.to_owned()));
                        },
                    }
                } else if k == "is-default-template".to_owned() {
                    match parse_bool_token(value) {
                        Some(b) => {
                            acc.is_default_template = b;
                        },
                        None => {
                            return Err(XApiParseError::GenericParseError(value.to_owned()));
                        },
                    }
                } else if k == "is-a-snapshot".to_owned() {
                    match parse_bool_token(value) {
                        Some(b) => {
                            acc.is_a_snapshot = b;
                        },
                        None => {
                            return Err(XApiParseError::GenericParseError(value.to_owned()));
                        },
                    }
                } else if k == "snapshot-time".to_owned() {
                    match parse_timestamp(value) {
                        Ok(ts) => {
                            acc.snapshot_time = ts;
                        },
                        Err(e) => {
                            return Err(e);
                        },
                    }
                }
            }
            proof {
                assert(vm_apply_line(before[0], acc_before) == Ok::<
                    VMView,
                    XApiParseErrorView,
                >(acc.deep_view()));
            }
        }
        proof {
            assert(vm_from_lines(rem.deep_view(), acc.deep_view()) == Ok::<
                VMView,
                XApiParseErrorView,
            >(acc.deep_view()));
        }
        Ok(acc)
    }
}

impl FromCliOutput for VM {
    fn from_cli_output(output: &str) -> Result<Self, XApiParseError> {
        VM::parse_cli_output(output)
    }
}

// --------------------------------------------------------------------------
// The CLI client
// --------------------------------------------------------------------------
/// Client of the hypervisor's `xe` command line; it builds every argument
/// vector the caller hands to the process.
#[derive(Debug)]
pub struct XApiCliClient {
    pub config: XenConfig,
}

/// The connection arguments of `c`: a loopback server needs no
/// credentials, any other server is addressed with user and password.
pub open spec fn base_args_of(c: XenConfig) -> Seq<Seq<char>> {
    if c.server@ == "localhost"@ || c.server@ == "127.0.0.1"@ {
        seq!["-s"@, "127.0.0.1"@]
    } else {
        seq!["-s"@, c.server@, "-u"@, c.username@, "-pw"@, c.password@]
    }
}

/// `prefix` glued to `value`, the CLI's `key=value` shape.
pub open spec fn kv(prefix: Seq<char>, value: Seq<char>) -> Seq<char> {
    prefix + value
}

impl XApiCliClient {
    pub fn new(config: XenConfig) -> (r: Self)
        ensures
            r.config == config,
    {
        XApiCliClient { config }
    }

    pub fn get_config(&self) -> (r: &XenConfig)
        ensures
            *r == self.config,
    {
        &self.config
    }

    /// The connection arguments every `xe` invocation starts with.
    pub fn get_base_command(&self) -> (r: Vec<String>)
        ensures
            r.deep_view() == base_args_of(self.config),
    {
        let mut args: Vec<String> = Vec::new();
        args.push("-s".to_owned());
        let local = self.config.server == "localhost".to_owned() || self.config.server
            == "127.0.0.1".to_owned();
        if local {
            args.push("127.0.0.1".to_owned());
        } else {
            args.push(self.config.server.clone());
            args.push("-u".to_owned());
            args.push(self.config.username.clone());
            args.push("-pw".to_owned());
            args.push(self.config.password.clone());
        }
        proof {
            assert(args.deep_view() =~= base_args_of(self.config));
        }
        args
    }

    /// Arguments of the minimal `vm-list` restricted to real, running
    /// machines carrying the given tags.
    pub fn vm_list_args(&self, tags: &Vec<String>) -> (r: Vec<String>)
        ensures
            r.deep_view() == base_args_of(self.config) + seq![
                "vm-list"@,
                kv("tags:contains="@, joined(tags.deep_view(), ',')),
                "is-a-template=false"@,
                "is-a-snapshot=false"@,
                "is-control-domain=false"@,
                "--minimal"@,
            ],
    {
        let mut args = self.get_base_command();
        args.push("vm-list".to_owned());
        let mut tag_arg = "tags:contains=".to_owned();
        let joined_tags = join_char(tags, ',');
        tag_arg.append(joined_tags.as_str());
        args.push(tag_arg);
        args.push("is-a-template=false".to_owned());
        args.push("is-a-snapshot=false".to_owned());
        args.push("is-control-domain=false".to_owned());
        args.push("--minimal".to_owned());
        proof {
            assert(args.deep_view() =~= base_args_of(self.config) + seq![
                "vm-list"@,
                kv("tags:contains="@, joined(tags.deep_view(), ',')),
                "is-a-template=false"@,
                "is-a-snapshot=false"@,
                "is-control-domain=false"@,
                "--minimal"@,
            ]);
        }
        args
    }

    /// Arguments creating a snapshot of the VM; a memory snapshot uses the
    /// checkpoint command.
    pub fn snapshot_args(&self, vm_uuid: &String, snapshot_type: SnapshotType) -> (r: Vec<
        String,
    >)
        ensures
            r.deep_view() == base_args_of(self.config) + seq![
                (match snapshot_type {
                    SnapshotType::Normal => "vm-snapshot"@,
                    SnapshotType::Memory => "vm-checkpoint"@,
                }),
                kv("vm="@, vm_uuid@),
                "new-name-label=xenbakd-snapshot"@,
            ],
    {
        let mut args = self.get_base_command();
        match snapshot_type {
            SnapshotType::Normal => args.push("vm-snapshot".to_owned()),
            SnapshotType::Memory => args.push("vm-checkpoint".to_owned()),
        }
        let mut vm_arg = "vm=".to_owned();
        vm_arg.append(vm_uuid.as_str());
        args.push(vm_arg);
        args.push("new-name-label=xenbakd-snapshot".to_owned());
        proof {
            assert(args.deep_view() =~= base_args_of(self.config) + seq![
                (match snapshot_type {
                    SnapshotType::Normal => "vm-snapshot"@,
                    SnapshotType::Memory => "vm-checkpoint"@,
                }),
                kv("vm="@, vm_uuid@),
                "new-name-label=xenbakd-snapshot"@,
            ]);
        }
        args
    }

    /// Arguments listing the snapshots of the VM, minimal form.
    pub fn snapshot_list_args(&self, vm_uuid: &String) -> (r: Vec<String>)
        ensures
            r.deep_view() == base_args_of(self.config) + seq![
                "snapshot-list"@,
                kv("snapshot-of="@, vm_uuid@),
                "--minimal"@,
            ],
    {
        let mut args = self.get_base_command();
        args.push("snapshot-list".to_owned());
        let mut arg = "snapshot-of=".to_owned();
        arg.append(vm_uuid.as_str());
        args.push(arg);
        args.push("--minimal".to_owned());
        proof {
            assert(args.deep_view() =~= base_args_of(self.config) + seq![
                "snapshot-list"@,
                kv("snapshot-of="@, vm_uuid@),
                "--minimal"@,
            ]);
        }
        args
    }

    /// Arguments renaming a snapshot.
    pub fn set_snapshot_name_args(&self, snapshot_uuid: &String, name: &str) -> (r: Vec<String>)
        ensures
            r.deep_view() == base_args_of(self.config) + seq![
                "snapshot-param-set"@,
                kv("uuid="@, snapshot_uuid@),
                kv("name-label="@, name@),
            ],
    {
        let mut args = self.get_base_command();
        args.push("snapshot-param-set".to_owned());
        let mut uuid_arg = "uuid=".to_owned();
        uuid_arg.append(snapshot_uuid.as_str());
        args.push(uuid_arg);
        let mut name_arg = "name-label=".to_owned();
        name_arg.append(name);
        args.push(name_arg);
        proof {
            assert(args.deep_view() =~= base_args_of(self.config) + seq![
                "snapshot-param-set"@,
                kv("uuid="@, snapshot_uuid@),
                kv("name-label="@, name@),
            ]);
        }
        args
    }

    /// Arguments flipping a snapshot's template flag off — snapshots are
    /// templates by default and must be flipped before export.
    pub fn set_snapshot_param_not_template_args(&self, snapshot_uuid: &String) -> (r: Vec<
        String,
    >)
        ensures
            r.deep_view() == base_args_of(self.config) + seq![
                "snapshot-param-set"@,
                "is-a-template=false"@,
                kv("uuid="@, snapshot_uuid@),
            ],
    {
        let mut args = self.get_base_command();
        args.push("snapshot-param-set".to_owned());
        args.push("is-a-template=false".to_owned());
        let mut uuid_arg = "uuid=".to_owned();
        uuid_arg.append(snapshot_uuid.as_str());
        args.push(uuid_arg);
        proof {
            assert(args.deep_view() =~= base_args_of(self.config) + seq![
                "snapshot-param-set"@,
                "is-a-template=false"@,
                kv("uuid="@, snapshot_uuid@),
            ]);
        }
        args
    }

    /// Arguments force-uninstalling a snapshot.
    pub fn delete_snapshot_args(&self, snapshot_uuid: &String) -> (r: Vec<String>)
        ensures
            r.deep_view() == base_args_of(self.config) + seq![
                "snapshot-uninstall"@,
                kv("uuid="@, snapshot_uuid@),
                "force=true"@,
            ],
    {
        let mut args = self.get_base_command();
        args.push("snapshot-uninstall".to_owned());
        let mut uuid_arg = "uuid=".to_owned();
        uuid_arg.append(snapshot_uuid.as_str());
        args.push(uuid_arg);
        args.push("force=true".to_owned());
        proof {
            assert(args.deep_view() =~= base_args_of(self.config) + seq![
                "snapshot-uninstall"@,
                kv("uuid="@, snapshot_uuid@),
                "force=true"@,
            ]);
        }
        args
    }

    /// Arguments reading one VM's parameters.
    pub fn vm_param_list_args(&self, vm_uuid: &String) -> (r: Vec<String>)
        ensures
            r.deep_view() == base_args_of(self.config) + seq![
                "vm-param-list"@,
                kv("uuid="@, vm_uuid@),
            ],
    {
        let mut args = self.get_base_command();
        args.push("vm-param-list".to_owned());
        let mut uuid_arg = "uuid=".to_owned();
        uuid_arg.append(vm_uuid.as_str());
        args.push(uuid_arg);
        proof {
            assert(args.deep_view() =~= base_args_of(self.config) + seq![
                "vm-param-list"@,
                kv("uuid="@, vm_uuid@),
            ]);
        }
        args
    }

    /// Arguments exporting a VM's bytes to standard output.
    pub fn vm_export_args(&self, vm_uuid: &String) -> (r: Vec<String>)
        ensures
            r.deep_view() == base_args_of(self.config) + seq![
                "vm-export"@,
                kv("vm="@, vm_uuid@),
                "filename="@,
            ],
    {
        let mut args = self.get_base_command();
        args.push("vm-export".to_owned());
        let mut vm_arg = "vm=".to_owned();
        vm_arg.append(vm_uuid.as_str());
        args.push(vm_arg);
        args.push("filename=".to_owned());
        proof {
            assert(args.deep_view() =~= base_args_of(self.config) + seq![
                "vm-export"@,
                kv("vm="@, vm_uuid@),
                "filename="@,
            ]);
        }
        args
    }
}

// --------------------------------------------------------------------------
// Tag filtering
// --------------------------------------------------------------------------
/// The identifiers of `tagged` that are not among `excluded`, in order.
pub open spec fn without_excluded(tagged: Seq<Seq<char>>, excluded: Seq<Seq<char>>) -> Seq<
    Seq<char>,
>
    decreases tagged.len(),
{
    if tagged.len() == 0 {
        Seq::empty()
    } else {
        let tail = without_excluded(tagged.subrange(1, tagged.len() as int), excluded);
        if excluded.contains(tagged[0]) {
            tail
        } else {
            seq![tagged[0]] + tail
        }
    }
}

/// Drop from `tagged` every identifier that also carries an excluded tag —
/// the subtraction step of resolving a job's VMs.
pub fn exclude_uuids(tagged: Vec<String>, excluded: &Vec<String>) -> (r: Vec<String>)
    ensures
        r.deep_view() == without_excluded(tagged.deep_view(), excluded.deep_view()),
{
    let ghost orig = tagged.deep_view();
    let mut rem = tagged;
    let mut r: Vec<String> = Vec::new();
    proof {
        assert(r.deep_view() + without_excluded(orig, excluded.deep_view()) =~= without_excluded(
            orig,
            excluded.deep_view(),
        ));
    }
    while rem.len() > 0
        invariant
            without_excluded(orig, excluded.deep_view()) == r.deep_view() + without_excluded(
                rem.deep_view(),
                excluded.deep_view(),
            ),
        decreases rem.len(),
    {
        let ghost before = rem.deep_view();
        let ghost r_before = r.deep_view();
        let u = rem.remove(0);
        proof {
            assert(rem.deep_view() =~= before.subrange(1, before.len() as int));
            assert(before[0] == u@);
        }
        if contains_string(excluded, &u) {
            proof {
                assert(without_excluded(before, excluded.deep_view()) == without_excluded(
                    rem.deep_view(),
                    excluded.deep_view(),
                ));
            }
        } else {
            proof {
                assert(without_excluded(before, excluded.deep_view()) == seq![before[0]]
                    + without_excluded(rem.deep_view(), excluded.deep_view()));
            }
            r.push(u);
            proof {
                assert(r.deep_view() =~= r_before.push(before[0]));
                assert(r.deep_view() + without_excluded(rem.deep_view(), excluded.deep_view())
                    =~= without_excluded(orig, excluded.deep_view()));
            }
        }
    }
    proof {
        assert(without_excluded(rem.deep_view(), excluded.deep_view()) =~= Seq::<
            Seq<char>,
        >::empty());
        assert(r.deep_view() + Seq::<Seq<char>>::empty() =~= r.deep_view());
    }
    r
}

} // verus!
