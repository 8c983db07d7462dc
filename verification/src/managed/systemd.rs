//! What is asked of systemd: the transient unit of a redeploy, and the order in
//! which units are stopped, enabled and started.

use vstd::prelude::*;

use super::manifest::{product_units, InstallationManifest};
use super::product::{
    application_socket_name, management_socket_name, runtime_max, service_name, ManagedProduct,
    ManagedProductOptions,
};
use super::protocol::{lemma_hex_injective, JobId, ManagementError};
use crate::duration::Duration;
use crate::text;
use crate::text::texts;

verus! {

/// How long a unit may take to stop.
pub const STOP_DEADLINE_SECONDS: u64 = 30;

/// How long is waited between two looks at a unit that stops.
pub const STOP_POLL_MILLISECONDS: u64 = 100;

/// Why something that was asked of systemd failed.
#[derive(Debug, PartialEq, Eq)]
#[allow(inconsistent_fields)]
pub enum SystemdError {
    Connect(String),
    Start { unit: String, source: String },
    Operation { action: String, source: String },
    DurationOverflow,
    UnitStopTimeout(String),
    UnsafeApplicationSocket(String),
    SocketRemoval { path: String, source: String },
}

impl SystemdError {
    /// The words for the error.
    pub open spec fn words(self) -> Seq<char> {
        match self {
            SystemdError::Connect(source) => "failed to connect to the systemd system bus: "@
                + source@,
            SystemdError::Start { unit, source } => "failed to start transient unit "@ + unit@
                + ": "@ + source@,
            SystemdError::Operation { action, source } => "failed to "@ + action@ + ": "@
                + source@,
            SystemdError::DurationOverflow =>
                "managed build timeout cannot be represented for systemd"@,
            SystemdError::UnitStopTimeout(unit) => "systemd unit "@ + unit@
                + " did not stop before the deadline"@,
            SystemdError::UnsafeApplicationSocket(path) =>
                "refusing to remove an unexpected application socket at "@ + path@,
            SystemdError::SocketRemoval { path, source } => "failed to remove application socket "@
                + path@ + ": "@ + source@,
        }
    }

    /// The words for the error.
    pub fn message(&self) -> (out: String)
        ensures
            out@ == self.words(),
    {
        match self {
            SystemdError::Connect(source) =>
                "failed to connect to the systemd system bus: ".to_owned().concat(source.as_str()),
            SystemdError::Start { unit, source } =>
                "failed to start transient unit ".to_owned().concat(unit.as_str()).concat(
                ": ",
            ).concat(source.as_str()),
            SystemdError::Operation { action, source } => "failed to ".to_owned().concat(
                action.as_str(),
            ).concat(": ").concat(source.as_str()),
            SystemdError::DurationOverflow =>
                "managed build timeout cannot be represented for systemd".to_owned(),
            SystemdError::UnitStopTimeout(unit) => "systemd unit ".to_owned().concat(
                unit.as_str(),
            ).concat(" did not stop before the deadline"),
            SystemdError::UnsafeApplicationSocket(path) =>
                "refusing to remove an unexpected application socket at ".to_owned().concat(
                path.as_str(),
            ),
            SystemdError::SocketRemoval { path, source } =>
                "failed to remove application socket ".to_owned().concat(path.as_str()).concat(
                ": ",
            ).concat(source.as_str()),
        }
    }
}

/// Whether the name of a D-Bus error says that there is no such unit.
pub open spec fn names_missing_unit(name: Seq<char>) -> bool {
    ||| name == "org.freedesktop.systemd1.NoSuchUnit"@
    ||| name == "org.freedesktop.systemd1.NoSuchUnitFile"@
    ||| name == "org.freedesktop.DBus.Error.FileNotFound"@
}

/// Whether the name of a D-Bus error says that there is no such unit.
pub fn missing_unit_error_name(name: &str) -> (r: bool)
    ensures
        r == names_missing_unit(name@),
{
    text::same(name, "org.freedesktop.systemd1.NoSuchUnit") || text::same(
        name,
        "org.freedesktop.systemd1.NoSuchUnitFile",
    ) || text::same(name, "org.freedesktop.DBus.Error.FileNotFound")
}

/// A span of time in whole microseconds, where they fit.
pub fn duration_microseconds(duration: &Duration) -> (r: Result<u64, SystemdError>)
    ensures
        r is Ok <==> duration@ / 1000 <= u64::MAX,
        r matches Ok(n) ==> n == duration@ / 1000,
        r matches Err(e) ==> e is DurationOverflow,
{
    let micros: u128 = duration.as_nanos() / 1000;
    if micros > u64::MAX as u128 {
        return Err(SystemdError::DurationOverflow);
    }
    Ok(micros as u64)
}

/// The name of the transient unit of a job.
pub open spec fn redeploy_unit(product: Seq<char>, job: JobId) -> Seq<char> {
    product + "-redeploy-"@ + text::hex(job@) + ".service"@
}

/// What is asked of systemd for a managed product.
pub struct SystemdManager;

impl SystemdManager {
    /// The name of the transient unit of a job.
    pub fn redeploy_unit_name(product: &ManagedProduct, job: &JobId) -> (out: String)
        ensures
            out@ == redeploy_unit(product@.product@, *job),
    {
        let id = job.text();
        product.name().to_owned().concat("-redeploy-").concat(id.as_str()).concat(".service")
    }
}

// ---------------------------------------------------------------------------
// The transient unit of a redeploy
// ---------------------------------------------------------------------------

/// The value of a unit property.
#[derive(Clone, Debug, PartialEq, Eq)]
pub enum UnitValue {
    Text(String),
    Flag(bool),
    Number32(u32),
    Number64(u64),
    List(Vec<String>),
    Command { executable: String, arguments: Vec<String> },
}

/// What the value of a unit property says.
pub ghost enum UnitValueView {
    Text(Seq<char>),
    Flag(bool),
    Number32(u32),
    Number64(int),
    List(Seq<Seq<char>>),
    Command { executable: Seq<char>, arguments: Seq<Seq<char>> },
}

impl UnitValue {
    pub open spec fn view(self) -> UnitValueView {
        match self {
            UnitValue::Text(s) => UnitValueView::Text(s@),
            UnitValue::Flag(b) => UnitValueView::Flag(b),
            UnitValue::Number32(n) => UnitValueView::Number32(n),
            UnitValue::Number64(n) => UnitValueView::Number64(n as int),
            UnitValue::List(list) => UnitValueView::List(texts(list@)),
            UnitValue::Command { executable, arguments } => UnitValueView::Command {
                executable: executable@,
                arguments: texts(arguments@),
            },
        }
    }
}

/// What unit properties say.
pub open spec fn property_views(properties: Seq<(&'static str, UnitValue)>) -> Seq<
    (Seq<char>, UnitValueView),
> {
    properties.map_values(|p: (&'static str, UnitValue)| (p.0@, p.1@))
}

/// The command line of the worker of a job.
pub open spec fn worker_arguments(o: ManagedProductOptions, job: JobId) -> Seq<Seq<char>> {
    seq![o.agent_binary@, "redeploy-worker"@, "--job"@, text::hex(job@)]
}

/// A property that holds a text.
pub open spec fn text_property(name: Seq<char>, value: Seq<char>) -> (Seq<char>, UnitValueView) {
    (name, UnitValueView::Text(value))
}

/// The properties of the transient unit of a job: a service of root's that runs
/// the worker once, in a control group of its own, within bounds.
pub open spec fn redeploy_properties(o: ManagedProductOptions, job: JobId) -> Seq<
    (Seq<char>, UnitValueView),
> {
    seq![
        text_property(
            "Description"@,
            o.product@ + " managed redeploy "@ + text::hex(job@),
        ),
        text_property("Type"@, "exec"@),
        text_property("User"@, "root"@),
        text_property("Group"@, "root"@),
        ("UMask"@, UnitValueView::Number32(0o077)),
        (
            "ExecStart"@,
            UnitValueView::Command {
                executable: o.agent_binary@,
                arguments: worker_arguments(o, job),
            },
        ),
        text_property("KillMode"@, "control-group"@),
        text_property("Restart"@, "no"@),
        text_property("OOMPolicy"@, "stop"@),
        (
            "RuntimeMaxUSec"@,
            UnitValueView::Number64(
                (runtime_max(o.redeploy.build_timeout@) / 1000) as int,
            ),
        ),
        ("TimeoutStopUSec"@, UnitValueView::Number64(30_000_000)),
        text_property("StandardOutput"@, "journal"@),
        text_property("StandardError"@, "journal"@),
        text_property("SyslogIdentifier"@, o.product@),
        ("NoNewPrivileges"@, UnitValueView::Flag(true)),
        ("PrivateTmp"@, UnitValueView::Flag(true)),
        ("CPUAccounting"@, UnitValueView::Flag(true)),
        ("CPUWeight"@, UnitValueView::Number64(100)),
        ("MemoryAccounting"@, UnitValueView::Flag(true)),
        ("IOAccounting"@, UnitValueView::Flag(true)),
        ("IOWeight"@, UnitValueView::Number64(100)),
        ("TasksAccounting"@, UnitValueView::Flag(true)),
        ("TasksMax"@, UnitValueView::Number64(o.redeploy.maximum_tasks as int)),
        ("Wants"@, UnitValueView::List(seq!["network-online.target"@])),
        ("After"@, UnitValueView::List(seq!["network-online.target"@])),
        text_property("CollectMode"@, "inactive-or-failed"@),
    ]
}

fn text_value(s: &str) -> (r: UnitValue)
    ensures
        r@ == UnitValueView::Text(s@),
{
    UnitValue::Text(s.to_owned())
}

fn online() -> (r: UnitValue)
    ensures
        r@ == UnitValueView::List(seq!["network-online.target"@]),
{
    let mut list: Vec<String> = Vec::new();
    list.push("network-online.target".to_owned());
    assert(texts(list@) =~= seq!["network-online.target"@]);
    UnitValue::List(list)
}

impl SystemdManager {
    /// The properties of the transient unit of a job.
    pub fn transient_properties(product: &ManagedProduct, job: &JobId) -> (r: Result<
        Vec<(&'static str, UnitValue)>,
        SystemdError,
    >)
        ensures
            r matches Ok(list) && property_views(list@) == redeploy_properties(product@, *job),
    {
        let declared = product.declaration();
        assert(declared.accepted());
        let id = job.text();
        let description = product.name().to_owned().concat(" managed redeploy ").concat(
            id.as_str(),
        );
        let executable = product.agent_executable().to_owned();
        let mut arguments: Vec<String> = Vec::new();
        arguments.push(product.agent_executable().to_owned());
        arguments.push("redeploy-worker".to_owned());
        arguments.push("--job".to_owned());
        arguments.push(id);
        assert(texts(arguments@) =~= worker_arguments(product@, *job));
        let runtime: u64 = duration_microseconds(&product.redeploy_runtime_max())?;
        let mut list: Vec<(&'static str, UnitValue)> = Vec::new();
        list.push(("Description", text_value(description.as_str())));
        list.push(("Type", text_value("exec")));
        list.push(("User", text_value("root")));
        list.push(("Group", text_value("root")));
        list.push(("UMask", UnitValue::Number32(0o077)));
        list.push(("ExecStart", UnitValue::Command { executable, arguments }));
        list.push(("KillMode", text_value("control-group")));
        list.push(("Restart", text_value("no")));
        list.push(("OOMPolicy", text_value("stop")));
        list.push(("RuntimeMaxUSec", UnitValue::Number64(runtime)));
        list.push(("TimeoutStopUSec", UnitValue::Number64(30_000_000)));
        list.push(("StandardOutput", text_value("journal")));
        list.push(("StandardError", text_value("journal")));
        list.push(("SyslogIdentifier", text_value(product.name())));
        list.push(("NoNewPrivileges", UnitValue::Flag(true)));
        list.push(("PrivateTmp", UnitValue::Flag(true)));
        list.push(("CPUAccounting", UnitValue::Flag(true)));
        list.push(("CPUWeight", UnitValue::Number64(100)));
        list.push(("MemoryAccounting", UnitValue::Flag(true)));
        list.push(("IOAccounting", UnitValue::Flag(true)));
        list.push(("IOWeight", UnitValue::Number64(100)));
        list.push(("TasksAccounting", UnitValue::Flag(true)));
        list.push(("TasksMax", UnitValue::Number64(product.maximum_tasks())));
        list.push(("Wants", online()));
        list.push(("After", online()));
        list.push(("CollectMode", text_value("inactive-or-failed")));
        assert(property_views(list@) =~= redeploy_properties(product@, *job));
        Ok(list)
    }
}

/// Whether a unit has a property with the value, and no other value of it.
pub open spec fn has_property(
    properties: Seq<(&'static str, UnitValue)>,
    name: Seq<char>,
    value: UnitValueView,
) -> bool {
    &&& exists|i: int|
        0 <= i < properties.len() && (#[trigger] properties[i]).0@ == name && properties[i].1@
            == value
    &&& forall|i: int|
        0 <= i < properties.len() && (#[trigger] properties[i]).0@ == name ==> properties[i].1@
            == value
}

proof fn lemma_property(
    properties: Seq<(&'static str, UnitValue)>,
    views: Seq<(Seq<char>, UnitValueView)>,
    k: int,
)
    requires
        property_views(properties) == views,
        0 <= k < views.len(),
        forall|i: int| 0 <= i < views.len() && i != k ==> (#[trigger] views[i]).0 != views[k].0,
    ensures
        has_property(properties, views[k].0, views[k].1),
{
    assert(properties[k].0@ == views[k].0 && properties[k].1@ == views[k].1);
    assert forall|i: int|
        0 <= i < properties.len() && (#[trigger] properties[i]).0@ == views[k].0 implies properties[
        i].1@ == views[k].1 by {
        assert(views[i].0 == properties[i].0@);
    }
}

/// The place that a property's name has among those of a transient unit.
spec fn name_place(s: Seq<char>) -> int {
    if s.len() == 11 && s[0] == 'D' && s[10] == 'n' {
        0
    } else if s.len() == 4 && s[0] == 'T' && s[3] == 'e' {
        1
    } else if s.len() == 4 && s[0] == 'U' && s[3] == 'r' {
        2
    } else if s.len() == 5 && s[0] == 'G' && s[4] == 'p' {
        3
    } else if s.len() == 5 && s[0] == 'U' && s[4] == 'k' {
        4
    } else if s.len() == 9 && s[0] == 'E' && s[8] == 't' {
        5
    } else if s.len() == 8 && s[0] == 'K' && s[7] == 'e' {
        6
    } else if s.len() == 7 && s[0] == 'R' && s[6] == 't' {
        7
    } else if s.len() == 9 && s[0] == 'O' && s[8] == 'y' {
        8
    } else if s.len() == 14 && s[0] == 'R' && s[13] == 'c' {
        9
    } else if s.len() == 15 && s[0] == 'T' && s[14] == 'c' {
        10
    } else if s.len() == 14 && s[0] == 'S' && s[13] == 't' {
        11
    } else if s.len() == 13 && s[0] == 'S' && s[12] == 'r' {
        12
    } else if s.len() == 16 && s[0] == 'S' && s[15] == 'r' {
        13
    } else if s.len() == 15 && s[0] == 'N' && s[14] == 's' {
        14
    } else if s.len() == 10 && s[0] == 'P' && s[9] == 'p' {
        15
    } else if s.len() == 13 && s[0] == 'C' && s[12] == 'g' {
        16
    } else if s.len() == 9 && s[0] == 'C' && s[8] == 't' {
        17
    } else if s.len() == 16 && s[0] == 'M' && s[15] == 'g' {
        18
    } else if s.len() == 12 && s[0] == 'I' && s[11] == 'g' {
        19
    } else if s.len() == 8 && s[0] == 'I' && s[7] == 't' {
        20
    } else if s.len() == 15 && s[0] == 'T' && s[14] == 'g' {
        21
    } else if s.len() == 8 && s[0] == 'T' && s[7] == 'x' {
        22
    } else if s.len() == 5 && s[0] == 'W' && s[4] == 's' {
        23
    } else if s.len() == 5 && s[0] == 'A' && s[4] == 'r' {
        24
    } else if s.len() == 11 && s[0] == 'C' && s[10] == 'e' {
        25
    } else {
        -1
    }
}

proof fn lemma_property_names(o: ManagedProductOptions, job: JobId)
    ensures
        forall|i: int|
            0 <= i < redeploy_properties(o, job).len() ==> name_place(
                (#[trigger] redeploy_properties(o, job)[i]).0,
            ) == i,
{
    let views = redeploy_properties(o, job);
    reveal_strlit("Description");
    assert(name_place(views[0].0) == 0);
    reveal_strlit("Type");
    assert(name_place(views[1].0) == 1);
    reveal_strlit("User");
    assert(name_place(views[2].0) == 2);
    reveal_strlit("Group");
    assert(name_place(views[3].0) == 3);
    reveal_strlit("UMask");
    assert(name_place(views[4].0) == 4);
    reveal_strlit("ExecStart");
    assert(name_place(views[5].0) == 5);
    reveal_strlit("KillMode");
    assert(name_place(views[6].0) == 6);
    reveal_strlit("Restart");
    assert(name_place(views[7].0) == 7);
    reveal_strlit("OOMPolicy");
    assert(name_place(views[8].0) == 8);
    reveal_strlit("RuntimeMaxUSec");
    assert(name_place(views[9].0) == 9);
    reveal_strlit("TimeoutStopUSec");
    assert(name_place(views[10].0) == 10);
    reveal_strlit("StandardOutput");
    assert(name_place(views[11].0) == 11);
    reveal_strlit("StandardError");
    assert(name_place(views[12].0) == 12);
    reveal_strlit("SyslogIdentifier");
    assert(name_place(views[13].0) == 13);
    reveal_strlit("NoNewPrivileges");
    assert(name_place(views[14].0) == 14);
    reveal_strlit("PrivateTmp");
    assert(name_place(views[15].0) == 15);
    reveal_strlit("CPUAccounting");
    assert(name_place(views[16].0) == 16);
    reveal_strlit("CPUWeight");
    assert(name_place(views[17].0) == 17);
    reveal_strlit("MemoryAccounting");
    assert(name_place(views[18].0) == 18);
    reveal_strlit("IOAccounting");
    assert(name_place(views[19].0) == 19);
    reveal_strlit("IOWeight");
    assert(name_place(views[20].0) == 20);
    reveal_strlit("TasksAccounting");
    assert(name_place(views[21].0) == 21);
    reveal_strlit("TasksMax");
    assert(name_place(views[22].0) == 22);
    reveal_strlit("Wants");
    assert(name_place(views[23].0) == 23);
    reveal_strlit("After");
    assert(name_place(views[24].0) == 24);
    reveal_strlit("CollectMode");
    assert(name_place(views[25].0) == 25);
    assert forall|i: int| 0 <= i < views.len() implies name_place((#[trigger] views[i]).0) == i by {
        if i == 0 {
            assert(name_place(views[0].0) == 0);
        } else if i == 1 {
            assert(name_place(views[1].0) == 1);
        } else if i == 2 {
            assert(name_place(views[2].0) == 2);
        } else if i == 3 {
            assert(name_place(views[3].0) == 3);
        } else if i == 4 {
            assert(name_place(views[4].0) == 4);
        } else if i == 5 {
            assert(name_place(views[5].0) == 5);
        } else if i == 6 {
            assert(name_place(views[6].0) == 6);
        } else if i == 7 {
            assert(name_place(views[7].0) == 7);
        } else if i == 8 {
            assert(name_place(views[8].0) == 8);
        } else if i == 9 {
            assert(name_place(views[9].0) == 9);
        } else if i == 10 {
            assert(name_place(views[10].0) == 10);
        } else if i == 11 {
            assert(name_place(views[11].0) == 11);
        } else if i == 12 {
            assert(name_place(views[12].0) == 12);
        } else if i == 13 {
            assert(name_place(views[13].0) == 13);
        } else if i == 14 {
            assert(name_place(views[14].0) == 14);
        } else if i == 15 {
            assert(name_place(views[15].0) == 15);
        } else if i == 16 {
            assert(name_place(views[16].0) == 16);
        } else if i == 17 {
            assert(name_place(views[17].0) == 17);
        } else if i == 18 {
            assert(name_place(views[18].0) == 18);
        } else if i == 19 {
            assert(name_place(views[19].0) == 19);
        } else if i == 20 {
            assert(name_place(views[20].0) == 20);
        } else if i == 21 {
            assert(name_place(views[21].0) == 21);
        } else if i == 22 {
            assert(name_place(views[22].0) == 22);
        } else if i == 23 {
            assert(name_place(views[23].0) == 23);
        } else if i == 24 {
            assert(name_place(views[24].0) == 24);
        } else if i == 25 {
            assert(name_place(views[25].0) == 25);
        }
    }
}

/// The transient unit of a job runs the worker of exactly that job with the
/// product's agent, as root, in one control group that is killed as a whole and
/// never restarted, for no longer than the runtime of a redeploy and with no
/// more tasks than the product allows.
pub proof fn law_transient_unit_runs_the_worker_of_its_job(
    product: ManagedProduct,
    job: JobId,
    r: Result<Vec<(&'static str, UnitValue)>, SystemdError>,
    runtime: Duration,
    word: &str,
    read: Result<JobId, ManagementError>,
)
    requires
        call_ensures(SystemdManager::transient_properties, (&product, &job), r),
        call_ensures(ManagedProduct::redeploy_runtime_max, (&product,), runtime),
        word@ == text::hex(job@),
        call_ensures(JobId::parse, (word,), read),
        job@.len() == 16,
    ensures
        read matches Ok(back) && back@ == job@,
        r matches Ok(list) && {
            &&& has_property(
                list@,
                "ExecStart"@,
                UnitValueView::Command {
                    executable: product@.agent_binary@,
                    arguments: seq![product@.agent_binary@, "redeploy-worker"@, "--job"@, word@],
                },
            )
            &&& has_property(list@, "User"@, UnitValueView::Text("root"@))
            &&& has_property(list@, "Group"@, UnitValueView::Text("root"@))
            &&& has_property(list@, "UMask"@, UnitValueView::Number32(0o077))
            &&& has_property(list@, "Type"@, UnitValueView::Text("exec"@))
            &&& has_property(list@, "KillMode"@, UnitValueView::Text("control-group"@))
            &&& has_property(list@, "Restart"@, UnitValueView::Text("no"@))
            &&& has_property(list@, "OOMPolicy"@, UnitValueView::Text("stop"@))
            &&& has_property(list@, "NoNewPrivileges"@, UnitValueView::Flag(true))
            &&& has_property(list@, "PrivateTmp"@, UnitValueView::Flag(true))
            &&& has_property(list@, "TimeoutStopUSec"@, UnitValueView::Number64(30_000_000))
            &&& has_property(list@, "StandardOutput"@, UnitValueView::Text("journal"@))
            &&& has_property(list@, "StandardError"@, UnitValueView::Text("journal"@))
            &&& has_property(list@, "SyslogIdentifier"@, UnitValueView::Text(product@.product@))
            &&& has_property(list@, "CPUAccounting"@, UnitValueView::Flag(true))
            &&& has_property(list@, "MemoryAccounting"@, UnitValueView::Flag(true))
            &&& has_property(list@, "IOAccounting"@, UnitValueView::Flag(true))
            &&& has_property(list@, "TasksAccounting"@, UnitValueView::Flag(true))
            &&& has_property(list@, "CPUWeight"@, UnitValueView::Number64(100))
            &&& has_property(list@, "IOWeight"@, UnitValueView::Number64(100))
            &&& has_property(
                list@,
                "Wants"@,
                UnitValueView::List(seq!["network-online.target"@]),
            )
            &&& has_property(
                list@,
                "After"@,
                UnitValueView::List(seq!["network-online.target"@]),
            )
            &&& has_property(list@, "CollectMode"@, UnitValueView::Text("inactive-or-failed"@))
            &&& has_property(
                list@,
                "TasksMax"@,
                UnitValueView::Number64(product@.redeploy.maximum_tasks as int),
            )
            &&& exists|limit: int|
                {
                    &&& #[trigger] has_property(
                        list@,
                        "RuntimeMaxUSec"@,
                        UnitValueView::Number64(limit),
                    )
                    &&& limit * 1000 <= runtime@ < (limit + 1) * 1000
                }
        },
{
    let list = r->Ok_0;
    let views = redeploy_properties(product@, job);
    text::lemma_hex_len(job@);
    lemma_property_names(product@, job);
    if let Ok(back) = read {
        lemma_hex_injective(back@, job@);
    }
    assert(has_property(list@, views[0].0, views[0].1)) by {
        lemma_property(list@, views, 0);
    }
    assert(has_property(list@, views[1].0, views[1].1)) by {
        lemma_property(list@, views, 1);
    }
    assert(has_property(list@, views[2].0, views[2].1)) by {
        lemma_property(list@, views, 2);
    }
    assert(has_property(list@, views[3].0, views[3].1)) by {
        lemma_property(list@, views, 3);
    }
    assert(has_property(list@, views[4].0, views[4].1)) by {
        lemma_property(list@, views, 4);
    }
    assert(has_property(list@, views[5].0, views[5].1)) by {
        lemma_property(list@, views, 5);
    }
    assert(has_property(list@, views[6].0, views[6].1)) by {
        lemma_property(list@, views, 6);
    }
    assert(has_property(list@, views[7].0, views[7].1)) by {
        lemma_property(list@, views, 7);
    }
    assert(has_property(list@, views[8].0, views[8].1)) by {
        lemma_property(list@, views, 8);
    }
    assert(has_property(list@, views[9].0, views[9].1)) by {
        lemma_property(list@, views, 9);
    }
    assert(has_property(list@, views[10].0, views[10].1)) by {
        lemma_property(list@, views, 10);
    }
    assert(has_property(list@, views[11].0, views[11].1)) by {
        lemma_property(list@, views, 11);
    }
    assert(has_property(list@, views[12].0, views[12].1)) by {
        lemma_property(list@, views, 12);
    }
    assert(has_property(list@, views[13].0, views[13].1)) by {
        lemma_property(list@, views, 13);
    }
    assert(has_property(list@, views[14].0, views[14].1)) by {
        lemma_property(list@, views, 14);
    }
    assert(has_property(list@, views[15].0, views[15].1)) by {
        lemma_property(list@, views, 15);
    }
    assert(has_property(list@, views[16].0, views[16].1)) by {
        lemma_property(list@, views, 16);
    }
    assert(has_property(list@, views[17].0, views[17].1)) by {
        lemma_property(list@, views, 17);
    }
    assert(has_property(list@, views[18].0, views[18].1)) by {
        lemma_property(list@, views, 18);
    }
    assert(has_property(list@, views[19].0, views[19].1)) by {
        lemma_property(list@, views, 19);
    }
    assert(has_property(list@, views[20].0, views[20].1)) by {
        lemma_property(list@, views, 20);
    }
    assert(has_property(list@, views[21].0, views[21].1)) by {
        lemma_property(list@, views, 21);
    }
    assert(has_property(list@, views[22].0, views[22].1)) by {
        lemma_property(list@, views, 22);
    }
    assert(has_property(list@, views[23].0, views[23].1)) by {
        lemma_property(list@, views, 23);
    }
    assert(has_property(list@, views[24].0, views[24].1)) by {
        lemma_property(list@, views, 24);
    }
    assert(has_property(list@, views[25].0, views[25].1)) by {
        lemma_property(list@, views, 25);
    }
    assert(has_property(
        list@,
        "RuntimeMaxUSec"@,
        UnitValueView::Number64((runtime@ / 1000) as int),
    ));
}

// ---------------------------------------------------------------------------
// Stopping, enabling and starting units
// ---------------------------------------------------------------------------

/// One thing that is done to the units of a product.
#[derive(Clone, Debug, PartialEq, Eq)]
pub enum UnitAction {
    Stop(String),
    RemoveApplicationSocket,
    Disable(Vec<String>),
    Enable(Vec<String>),
    Reload,
    Start(String),
    Restart(String),
}

/// What a unit action says.
pub ghost enum UnitActionView {
    Stop(Seq<char>),
    RemoveApplicationSocket,
    Disable(Seq<Seq<char>>),
    Enable(Seq<Seq<char>>),
    Reload,
    Start(Seq<char>),
    Restart(Seq<char>),
}

impl UnitAction {
    pub open spec fn view(self) -> UnitActionView {
        match self {
            UnitAction::Stop(unit) => UnitActionView::Stop(unit@),
            UnitAction::RemoveApplicationSocket => UnitActionView::RemoveApplicationSocket,
            UnitAction::Disable(units) => UnitActionView::Disable(texts(units@)),
            UnitAction::Enable(units) => UnitActionView::Enable(texts(units@)),
            UnitAction::Reload => UnitActionView::Reload,
            UnitAction::Start(unit) => UnitActionView::Start(unit@),
            UnitAction::Restart(unit) => UnitActionView::Restart(unit@),
        }
    }
}

/// A unit action, and the words for it in an error.
#[derive(Clone, Debug, PartialEq, Eq)]
pub struct UnitOperation {
    pub action: UnitAction,
    pub purpose: String,
}

/// What unit operations say.
pub open spec fn operation_views(list: Seq<UnitOperation>) -> Seq<(UnitActionView, Seq<char>)> {
    list.map_values(|o: UnitOperation| (o.action@, o.purpose@))
}

/// The units of the first list that are not in the second.
pub open spec fn obsolete(previous: Seq<Seq<char>>, target: Seq<Seq<char>>) -> Seq<Seq<char>>
    decreases previous.len(),
{
    if previous.len() == 0 {
        Seq::empty()
    } else {
        let before = obsolete(previous.drop_last(), target);
        if target.contains(previous.last()) {
            before
        } else {
            before.push(previous.last())
        }
    }
}

/// The sockets among units.
pub open spec fn sockets(units: Seq<Seq<char>>) -> Seq<Seq<char>>
    decreases units.len(),
{
    if units.len() == 0 {
        Seq::empty()
    } else {
        let before = sockets(units.drop_last());
        if ".socket"@.is_suffix_of(units.last()) {
            before.push(units.last())
        } else {
            before
        }
    }
}

/// Stopping each unit.
pub open spec fn stops(units: Seq<Seq<char>>) -> Seq<(UnitActionView, Seq<char>)> {
    units.map_values(|u: Seq<char>| (UnitActionView::Stop(u), "stop "@ + u))
}

/// Starting each unit.
pub open spec fn starts(units: Seq<Seq<char>>, verb: Seq<char>) -> Seq<
    (UnitActionView, Seq<char>),
> {
    units.map_values(|u: Seq<char>| (UnitActionView::Start(u), verb + " "@ + u))
}

/// Enabling the units of the first list instead of those of the second.
pub open spec fn enablement(target: Seq<Seq<char>>, previous: Seq<Seq<char>>) -> Seq<
    (UnitActionView, Seq<char>),
> {
    let disable = if obsolete(previous, target).len() > 0 {
        seq![
            (
                UnitActionView::Disable(obsolete(previous, target)),
                "disable obsolete managed units"@,
            ),
        ]
    } else {
        seq![]
    };
    let enable = if target.len() > 0 {
        seq![(UnitActionView::Enable(target), "enable managed units"@)]
    } else {
        seq![]
    };
    disable + enable
}

/// Stopping everything that a product runs, and removing the application
/// socket that its agent may have left.
pub open spec fn cold_stop(product: Seq<char>) -> Seq<(UnitActionView, Seq<char>)> {
    stops(
        seq![
            application_socket_name(product),
            management_socket_name(product),
            service_name(product),
        ],
    ) + seq![(UnitActionView::RemoveApplicationSocket, "remove the application socket"@)]
}

/// Making way for units: where the product had no service, everything is
/// stopped; else only the units that are no longer wanted.
pub open spec fn make_way(
    product: Seq<char>,
    previous: Seq<Seq<char>>,
    target: Seq<Seq<char>>,
    previous_service_file: bool,
) -> Seq<(UnitActionView, Seq<char>)> {
    if previous_service_file {
        stops(obsolete(previous, target))
    } else {
        cold_stop(product)
    }
}

/// What activates an installation.
pub open spec fn activation_plan(
    product: Seq<char>,
    target: Seq<Seq<char>>,
    previous: Seq<Seq<char>>,
    previous_service_file: bool,
) -> Seq<(UnitActionView, Seq<char>)> {
    let service = service_name(product);
    make_way(product, previous, target, previous_service_file) + enablement(target, previous)
        + seq![(UnitActionView::Reload, "reload systemd units"@)] + starts(
        sockets(target),
        "start"@,
    ) + seq![
        if previous_service_file {
            (UnitActionView::Restart(service), "restart "@ + service)
        } else {
            (UnitActionView::Start(service), "start "@ + service)
        },
    ]
}

/// What restores the units that were enabled before an installation.
pub open spec fn restoration_plan(
    product: Seq<char>,
    target: Seq<Seq<char>>,
    previous: Seq<Seq<char>>,
    previous_service_file: bool,
) -> Seq<(UnitActionView, Seq<char>)> {
    let service = service_name(product);
    let resumed = if previous_service_file {
        starts(sockets(previous), "restore"@) + seq![
            (UnitActionView::Restart(service), "restart restored "@ + service),
        ]
    } else {
        seq![]
    };
    make_way(product, target, previous, previous_service_file) + enablement(previous, target)
        + seq![(UnitActionView::Reload, "reload restored systemd units"@)] + resumed
}

/// What brings the units of an installed product in order.
pub open spec fn refresh_plan(target: Seq<Seq<char>>, previous: Seq<Seq<char>>) -> Seq<
    (UnitActionView, Seq<char>),
> {
    stops(obsolete(previous, target)) + enablement(target, previous) + seq![
        (UnitActionView::Reload, "reload systemd units"@),
    ] + starts(sockets(target), "start"@)
}

/// What deactivates a product.
pub open spec fn deactivation_plan(o: ManagedProductOptions) -> Seq<(UnitActionView, Seq<char>)> {
    stops(
        seq![
            service_name(o.product@),
            application_socket_name(o.product@),
            management_socket_name(o.product@),
        ],
    ) + seq![
        (UnitActionView::Disable(product_units(o)), "disable managed units"@),
        (UnitActionView::Reload, "reload systemd after deactivation"@),
    ]
}

fn push_operation(list: &mut Vec<UnitOperation>, action: UnitAction, purpose: String)
    ensures
        operation_views(final(list)@) == operation_views(old(list)@).push((action@, purpose@)),
{
    let ghost before = operation_views(list@);
    list.push(UnitOperation { action, purpose });
    assert(operation_views(list@) =~= before.push((action@, purpose@)));
}

fn list_obsolete(previous: &Vec<String>, target: &Vec<String>) -> (out: Vec<String>)
    ensures
        texts(out@) == obsolete(texts(previous@), texts(target@)),
{
    let ghost all = texts(previous@);
    let mut out: Vec<String> = Vec::new();
    let mut i: usize = 0;
    assert(texts(out@) =~= obsolete(all.take(0), texts(target@)));
    while i < previous.len()
        invariant
            i <= previous@.len(),
            all == texts(previous@),
            texts(out@) == obsolete(all.take(i as int), texts(target@)),
        decreases previous@.len() - i,
    {
        let ghost before = texts(out@);
        assert(all.take(i + 1).drop_last() =~= all.take(i as int));
        assert(all.take(i + 1).last() == previous@[i as int]@);
        if !text::contains_text(target, previous[i].as_str()) {
            out.push(previous[i].clone());
            assert(texts(out@) =~= before.push(previous@[i as int]@));
        }
        i = i + 1;
    }
    assert(all.take(i as int) =~= all);
    out
}

fn list_sockets(units: &Vec<String>) -> (out: Vec<String>)
    ensures
        texts(out@) == sockets(texts(units@)),
{
    let ghost all = texts(units@);
    let mut out: Vec<String> = Vec::new();
    let mut i: usize = 0;
    assert(texts(out@) =~= sockets(all.take(0)));
    while i < units.len()
        invariant
            i <= units@.len(),
            all == texts(units@),
            texts(out@) == sockets(all.take(i as int)),
        decreases units@.len() - i,
    {
        let ghost before = texts(out@);
        assert(all.take(i + 1).drop_last() =~= all.take(i as int));
        assert(all.take(i + 1).last() == units@[i as int]@);
        if text::ends_with(units[i].as_str(), ".socket") {
            out.push(units[i].clone());
            assert(texts(out@) =~= before.push(units@[i as int]@));
        }
        i = i + 1;
    }
    assert(all.take(i as int) =~= all);
    out
}

fn push_stops(list: &mut Vec<UnitOperation>, units: &Vec<String>)
    ensures
        operation_views(final(list)@) == operation_views(old(list)@) + stops(texts(units@)),
{
    let ghost start = operation_views(list@);
    let ghost all = stops(texts(units@));
    let mut i: usize = 0;
    assert(operation_views(list@) =~= start + all.take(0));
    while i < units.len()
        invariant
            i <= units@.len(),
            all == stops(texts(units@)),
            operation_views(list@) == start + all.take(i as int),
        decreases units@.len() - i,
    {
        let purpose = "stop ".to_owned().concat(units[i].as_str());
        let ghost before = operation_views(list@);
        push_operation(list, UnitAction::Stop(units[i].clone()), purpose);
        i = i + 1;
        assert(start + all.take(i as int) =~= before.push(all[i - 1]));
    }
    assert(all.take(i as int) =~= all);
}

fn push_starts(list: &mut Vec<UnitOperation>, units: &Vec<String>, verb: &str)
    ensures
        operation_views(final(list)@) == operation_views(old(list)@) + starts(texts(units@), verb@),
{
    let ghost start = operation_views(list@);
    let ghost all = starts(texts(units@), verb@);
    let mut i: usize = 0;
    assert(operation_views(list@) =~= start + all.take(0));
    while i < units.len()
        invariant
            i <= units@.len(),
            all == starts(texts(units@), verb@),
            operation_views(list@) == start + all.take(i as int),
        decreases units@.len() - i,
    {
        let purpose = verb.to_owned().concat(" ").concat(units[i].as_str());
        let ghost before = operation_views(list@);
        push_operation(list, UnitAction::Start(units[i].clone()), purpose);
        i = i + 1;
        assert(start + all.take(i as int) =~= before.push(all[i - 1]));
    }
    assert(all.take(i as int) =~= all);
}

fn push_enablement(list: &mut Vec<UnitOperation>, target: &Vec<String>, previous: &Vec<String>)
    ensures
        operation_views(final(list)@) == operation_views(old(list)@) + enablement(
            texts(target@),
            texts(previous@),
        ),
{
    let ghost start = operation_views(list@);
    let disable = list_obsolete(previous, target);
    assert(texts(disable@).len() == disable@.len());
    if disable.len() > 0 {
        push_operation(
            list,
            UnitAction::Disable(disable),
            "disable obsolete managed units".to_owned(),
        );
    }
    if target.len() > 0 {
        push_operation(
            list,
            UnitAction::Enable(text::copy_texts(target)),
            "enable managed units".to_owned(),
        );
    }
    assert(operation_views(list@) =~= start + enablement(texts(target@), texts(previous@)));
}

fn push_make_way(
    list: &mut Vec<UnitOperation>,
    product: &ManagedProduct,
    previous: &Vec<String>,
    target: &Vec<String>,
    previous_service_file: bool,
)
    ensures
        operation_views(final(list)@) == operation_views(old(list)@) + make_way(
            product@.product@,
            texts(previous@),
            texts(target@),
            previous_service_file,
        ),
{
    let ghost start = operation_views(list@);
    if previous_service_file {
        let units = list_obsolete(previous, target);
        push_stops(list, &units);
    } else {
        let mut units: Vec<String> = Vec::new();
        units.push(product.application_socket_name());
        units.push(product.management_socket_name());
        units.push(product.service_name());
        assert(texts(units@) =~= seq![
            application_socket_name(product@.product@),
            management_socket_name(product@.product@),
            service_name(product@.product@),
        ]);
        push_stops(list, &units);
        push_operation(
            list,
            UnitAction::RemoveApplicationSocket,
            "remove the application socket".to_owned(),
        );
    }
    assert(operation_views(list@) =~= start + make_way(
        product@.product@,
        texts(previous@),
        texts(target@),
        previous_service_file,
    ));
}

impl SystemdManager {
    /// What activates an installation.
    pub fn activate_installation(
        product: &ManagedProduct,
        target_enable_units: &Vec<String>,
        previously_enabled: &Vec<String>,
        previous_service_file: bool,
    ) -> (r: Vec<UnitOperation>)
        ensures
            operation_views(r@) == activation_plan(
                product@.product@,
                texts(target_enable_units@),
                texts(previously_enabled@),
                previous_service_file,
            ),
    {
        let mut list: Vec<UnitOperation> = Vec::new();
        push_make_way(
            &mut list,
            product,
            previously_enabled,
            target_enable_units,
            previous_service_file,
        );
        push_enablement(&mut list, target_enable_units, previously_enabled);
        push_operation(&mut list, UnitAction::Reload, "reload systemd units".to_owned());
        let starting = list_sockets(target_enable_units);
        push_starts(&mut list, &starting, "start");
        let service = product.service_name();
        if previous_service_file {
            let purpose = "restart ".to_owned().concat(service.as_str());
            push_operation(&mut list, UnitAction::Restart(service), purpose);
        } else {
            let purpose = "start ".to_owned().concat(service.as_str());
            push_operation(&mut list, UnitAction::Start(service), purpose);
        }
        assert(operation_views(list@) =~= activation_plan(
            product@.product@,
            texts(target_enable_units@),
            texts(previously_enabled@),
            previous_service_file,
        ));
        list
    }

    /// What restores the units that were enabled before an installation.
    pub fn restore_installation(
        product: &ManagedProduct,
        target_enable_units: &Vec<String>,
        previously_enabled: &Vec<String>,
        previous_service_file: bool,
    ) -> (r: Vec<UnitOperation>)
        ensures
            operation_views(r@) == restoration_plan(
                product@.product@,
                texts(target_enable_units@),
                texts(previously_enabled@),
                previous_service_file,
            ),
    {
        let mut list: Vec<UnitOperation> = Vec::new();
        push_make_way(
            &mut list,
            product,
            target_enable_units,
            previously_enabled,
            previous_service_file,
        );
        push_enablement(&mut list, previously_enabled, target_enable_units);
        push_operation(
            &mut list,
            UnitAction::Reload,
            "reload restored systemd units".to_owned(),
        );
        if previous_service_file {
            let starting = list_sockets(previously_enabled);
            push_starts(&mut list, &starting, "restore");
            let service = product.service_name();
            let purpose = "restart restored ".to_owned().concat(service.as_str());
            push_operation(&mut list, UnitAction::Restart(service), purpose);
        }
        assert(operation_views(list@) =~= restoration_plan(
            product@.product@,
            texts(target_enable_units@),
            texts(previously_enabled@),
            previous_service_file,
        ));
        list
    }

    /// What brings the units of an installed product in order.
    pub fn refresh_installation(
        product: &ManagedProduct,
        previously_enabled: &Vec<String>,
    ) -> (r: Vec<UnitOperation>)
        ensures
            operation_views(r@) == refresh_plan(
                product_units(product@),
                texts(previously_enabled@),
            ),
    {
        let units = product.installation_manifest().enable_units;
        let mut list: Vec<UnitOperation> = Vec::new();
        let stopping = list_obsolete(previously_enabled, &units);
        push_stops(&mut list, &stopping);
        push_enablement(&mut list, &units, previously_enabled);
        push_operation(&mut list, UnitAction::Reload, "reload systemd units".to_owned());
        let starting = list_sockets(&units);
        push_starts(&mut list, &starting, "start");
        assert(operation_views(list@) =~= refresh_plan(
            product_units(product@),
            texts(previously_enabled@),
        ));
        list
    }

    /// What deactivates a product.
    pub fn deactivate_installation(product: &ManagedProduct) -> (r: Vec<UnitOperation>)
        ensures
            operation_views(r@) == deactivation_plan(product@),
    {
        let mut list: Vec<UnitOperation> = Vec::new();
        let names = SystemdManager::managed_unit_names(product);
        push_stops(&mut list, &names);
        let units = product.installation_manifest().enable_units;
        push_operation(
            &mut list,
            UnitAction::Disable(units),
            "disable managed units".to_owned(),
        );
        push_operation(
            &mut list,
            UnitAction::Reload,
            "reload systemd after deactivation".to_owned(),
        );
        assert(operation_views(list@) =~= deactivation_plan(product@));
        list
    }

    /// The names of the units that a product may have.
    pub fn managed_unit_names(product: &ManagedProduct) -> (r: Vec<String>)
        ensures
            texts(r@) == seq![
                service_name(product@.product@),
                application_socket_name(product@.product@),
                management_socket_name(product@.product@),
            ],
    {
        let mut names: Vec<String> = Vec::new();
        names.push(product.service_name());
        names.push(product.application_socket_name());
        names.push(product.management_socket_name());
        assert(texts(names@) =~= seq![
            service_name(product@.product@),
            application_socket_name(product@.product@),
            management_socket_name(product@.product@),
        ]);
        names
    }
}

/// The units that are enabled after an action.
pub open spec fn enabled_after(enabled: Set<Seq<char>>, action: UnitActionView) -> Set<Seq<char>> {
    match action {
        UnitActionView::Disable(units) => enabled.difference(units.to_set()),
        UnitActionView::Enable(units) => enabled.union(units.to_set()),
        _ => enabled,
    }
}

/// The units that are enabled after operations.
pub open spec fn enabled_after_all(
    enabled: Set<Seq<char>>,
    plan: Seq<(UnitActionView, Seq<char>)>,
) -> Set<Seq<char>>
    decreases plan.len(),
{
    if plan.len() == 0 {
        enabled
    } else {
        enabled_after(enabled_after_all(enabled, plan.drop_last()), plan.last().0)
    }
}

proof fn lemma_enabled_concat(
    enabled: Set<Seq<char>>,
    a: Seq<(UnitActionView, Seq<char>)>,
    b: Seq<(UnitActionView, Seq<char>)>,
)
    ensures
        enabled_after_all(enabled, a + b) == enabled_after_all(enabled_after_all(enabled, a), b),
    decreases b.len(),
{
    if b.len() == 0 {
        assert(a + b =~= a);
    } else {
        assert((a + b).drop_last() =~= a + b.drop_last());
        lemma_enabled_concat(enabled, a, b.drop_last());
    }
}

/// Whether operations neither enable nor disable a unit.
pub open spec fn leaves_enablement(plan: Seq<(UnitActionView, Seq<char>)>) -> bool {
    forall|i: int|
        0 <= i < plan.len() ==> !((#[trigger] plan[i]).0 is Enable) && !(plan[i].0 is Disable)
}

proof fn lemma_enabled_unchanged(
    enabled: Set<Seq<char>>,
    plan: Seq<(UnitActionView, Seq<char>)>,
)
    requires
        leaves_enablement(plan),
    ensures
        enabled_after_all(enabled, plan) == enabled,
    decreases plan.len(),
{
    if plan.len() > 0 {
        let front = plan.drop_last();
        assert forall|i: int| 0 <= i < front.len() implies !((#[trigger] front[i]).0 is Enable) && !(
        front[i].0 is Disable) by {
            assert(front[i] == plan[i]);
        }
        lemma_enabled_unchanged(enabled, front);
        assert(!(plan[plan.len() - 1].0 is Enable) && !(plan[plan.len() - 1].0 is Disable));
    }
}

proof fn lemma_obsolete_members(previous: Seq<Seq<char>>, target: Seq<Seq<char>>)
    ensures
        forall|u: Seq<char>|
            obsolete(previous, target).contains(u) <==> previous.contains(u) && !target.contains(
                u,
            ),
    decreases previous.len(),
{
    if previous.len() > 0 {
        let front = previous.drop_last();
        let before = obsolete(front, target);
        let all = obsolete(previous, target);
        lemma_obsolete_members(front, target);
        assert forall|u: Seq<char>|
            all.contains(u) <==> previous.contains(u) && !target.contains(u) by {
            if all.contains(u) {
                let k = choose|k: int| 0 <= k < all.len() && all[k] == u;
                if k < before.len() {
                    assert(before[k] == u);
                    assert(before.contains(u));
                    assert(front.contains(u));
                    let j = choose|j: int| 0 <= j < front.len() && front[j] == u;
                    assert(previous[j] == u);
                } else {
                    assert(previous[previous.len() - 1] == u);
                }
            }
            if previous.contains(u) && !target.contains(u) {
                let j = choose|j: int| 0 <= j < previous.len() && previous[j] == u;
                if j < front.len() {
                    assert(front[j] == u);
                    assert(front.contains(u));
                    assert(before.contains(u));
                    let k = choose|k: int| 0 <= k < before.len() && before[k] == u;
                    assert(all[k] == u);
                } else {
                    assert(all[before.len() as int] == u);
                }
            }
        }
    }
}

proof fn lemma_enablement(
    enabled: Set<Seq<char>>,
    target: Seq<Seq<char>>,
    previous: Seq<Seq<char>>,
)
    ensures
        enabled_after_all(enabled, enablement(target, previous)) == enabled.difference(
            previous.to_set(),
        ).union(enabled.intersect(target.to_set())).union(target.to_set()),
{
    reveal_with_fuel(enabled_after_all, 3);
    lemma_obsolete_members(previous, target);
    let plan = enablement(target, previous);
    let gone = obsolete(previous, target);
    let after = enabled_after_all(enabled, plan);
    assert(gone.len() == 0 ==> gone.to_set() =~= Set::empty());
    assert(target.len() == 0 ==> target.to_set() =~= Set::empty());
    assert(after =~= enabled.difference(gone.to_set()).union(target.to_set())) by {
        if gone.len() > 0 && target.len() > 0 {
            assert(plan.drop_last() =~= seq![plan[0]]);
            assert(plan.drop_last().drop_last() =~= seq![]);
        } else if gone.len() > 0 || target.len() > 0 {
            assert(plan.len() == 1);
            assert(plan.drop_last() =~= seq![]);
        } else {
            assert(plan =~= seq![]);
        }
    }
    assert(after =~= enabled.difference(previous.to_set()).union(
        enabled.intersect(target.to_set()),
    ).union(target.to_set()));
}

/// Restoring reinstates the enablement that was there before an installation:
/// whatever of its units an activation had enabled or disabled by then, the
/// units that were enabled before are enabled again, those of the installation
/// that were not are disabled, and no other unit is touched.
pub proof fn law_restoration_reinstates_enablement(
    product: Seq<char>,
    target: Seq<Seq<char>>,
    previous: Seq<Seq<char>>,
    previous_service_file: bool,
    others: Set<Seq<char>>,
    enabled: Set<Seq<char>>,
)
    requires
        others.disjoint(target.to_set()),
        others.disjoint(previous.to_set()),
        others.subset_of(enabled),
        enabled.subset_of(others.union(target.to_set()).union(previous.to_set())),
    ensures
        enabled_after_all(
            enabled,
            restoration_plan(product, target, previous, previous_service_file),
        ) == others.union(previous.to_set()),
{
    let service = service_name(product);
    let a = make_way(product, target, previous, previous_service_file);
    let b = enablement(previous, target);
    let c = seq![(UnitActionView::Reload, "reload restored systemd units"@)];
    let d = if previous_service_file {
        starts(sockets(previous), "restore"@) + seq![
            (UnitActionView::Restart(service), "restart restored "@ + service),
        ]
    } else {
        seq![]
    };
    lemma_enabled_concat(enabled, a + b + c, d);
    lemma_enabled_concat(enabled, a + b, c);
    lemma_enabled_concat(enabled, a, b);
    lemma_enabled_unchanged(enabled, a);
    lemma_enablement(enabled, previous, target);
    let after = enabled_after_all(enabled, b);
    lemma_enabled_unchanged(after, c);
    lemma_enabled_unchanged(after, d);
    assert(after =~= others.union(previous.to_set()));
}

/// Activating enables exactly the units of the installation in place of those
/// that were enabled before, and touches no other unit.
pub proof fn law_activation_enables_target(
    product: Seq<char>,
    target: Seq<Seq<char>>,
    previous: Seq<Seq<char>>,
    previous_service_file: bool,
    others: Set<Seq<char>>,
)
    requires
        others.disjoint(target.to_set()),
        others.disjoint(previous.to_set()),
    ensures
        enabled_after_all(
            others.union(previous.to_set()),
            activation_plan(product, target, previous, previous_service_file),
        ) == others.union(target.to_set()),
{
    let service = service_name(product);
    let enabled = others.union(previous.to_set());
    let a = make_way(product, previous, target, previous_service_file);
    let b = enablement(target, previous);
    let c = seq![(UnitActionView::Reload, "reload systemd units"@)];
    let d = starts(sockets(target), "start"@);
    let e = seq![
        if previous_service_file {
            (UnitActionView::Restart(service), "restart "@ + service)
        } else {
            (UnitActionView::Start(service), "start "@ + service)
        },
    ];
    lemma_enabled_concat(enabled, a + b + c + d, e);
    lemma_enabled_concat(enabled, a + b + c, d);
    lemma_enabled_concat(enabled, a + b, c);
    lemma_enabled_concat(enabled, a, b);
    lemma_enabled_unchanged(enabled, a);
    lemma_enablement(enabled, target, previous);
    let after = enabled_after_all(enabled, b);
    lemma_enabled_unchanged(after, c);
    lemma_enabled_unchanged(after, d);
    lemma_enabled_unchanged(after, e);
    assert(after =~= others.union(target.to_set()));
}

/// A release over an installed one keeps its listeners: activating it stops no
/// unit of the installation, and restarts the service.
pub proof fn law_retained_units_are_not_stopped(
    product: Seq<char>,
    target: Seq<Seq<char>>,
    previous: Seq<Seq<char>>,
    unit: Seq<char>,
)
    requires
        target.contains(unit),
    ensures
        ({
            let plan = activation_plan(product, target, previous, true);
            &&& forall|i: int|
                0 <= i < plan.len() ==> (#[trigger] plan[i]).0 != UnitActionView::Stop(unit)
            &&& plan.last().0 == UnitActionView::Restart(service_name(product))
        }),
{
    lemma_obsolete_members(previous, target);
    let plan = activation_plan(product, target, previous, true);
    let gone = obsolete(previous, target);
    assert forall|i: int| 0 <= i < plan.len() implies (#[trigger] plan[i]).0
        != UnitActionView::Stop(unit) by {
        if i < gone.len() {
            assert(plan[i] == stops(gone)[i]);
            assert(gone.to_set().contains(gone[i]));
        }
    }
}

// ---------------------------------------------------------------------------
// What the operations on a product's units come to
// ---------------------------------------------------------------------------

/// What is done to units, in its order.
pub open spec fn actions(list: Seq<UnitOperation>) -> Seq<UnitActionView> {
    list.map_values(|o: UnitOperation| o.action@)
}

/// Where an action stands among others: units are stopped first, then disabled
/// and enabled, then systemd reads the unit files, and then units are started.
pub open spec fn turn(action: UnitActionView) -> int {
    match action {
        UnitActionView::Stop(_) => 0,
        UnitActionView::RemoveApplicationSocket => 1,
        UnitActionView::Disable(_) => 2,
        UnitActionView::Enable(_) => 3,
        UnitActionView::Reload => 4,
        UnitActionView::Start(_) => 5,
        UnitActionView::Restart(_) => 6,
    }
}

/// Whether actions take their turns, and systemd reads the unit files once.
pub open spec fn take_turns(actions: Seq<UnitActionView>) -> bool {
    &&& forall|i: int, j: int|
        0 <= i <= j < actions.len() ==> turn(#[trigger] actions[i]) <= turn(#[trigger] actions[j])
    &&& exists|k: int| 0 <= k < actions.len() && #[trigger] actions[k] is Reload
    &&& forall|i: int, j: int|
        0 <= i < actions.len() && 0 <= j < actions.len() && #[trigger] actions[i] is Reload
            && #[trigger] actions[j] is Reload ==> i == j
}

/// Whether a unit is the product's: its service or one of its sockets.
pub open spec fn is_own_unit(product: Seq<char>, unit: Seq<char>) -> bool {
    unit == service_name(product) || unit == application_socket_name(product) || unit
        == management_socket_name(product)
}

/// Whether the units that are stopped are those of the first list that are not
/// in the second.
pub open spec fn stops_the_dropped(
    actions: Seq<UnitActionView>,
    from: Seq<Seq<char>>,
    to: Seq<Seq<char>>,
) -> bool {
    &&& forall|u: Seq<char>|
        #[trigger] actions.contains(UnitActionView::Stop(u)) <==> from.contains(u) && !to.contains(
            u,
        )
    &&& !actions.contains(UnitActionView::RemoveApplicationSocket)
}

/// Whether every unit of the product is stopped, and the application socket that
/// its agent may have left is removed.
pub open spec fn stops_the_product(actions: Seq<UnitActionView>, product: Seq<char>) -> bool {
    &&& forall|u: Seq<char>|
        #[trigger] actions.contains(UnitActionView::Stop(u)) <==> is_own_unit(product, u)
    &&& actions.contains(UnitActionView::RemoveApplicationSocket)
}

/// Whether a unit is a socket of a list.
pub open spec fn is_socket_of(units: Seq<Seq<char>>, unit: Seq<char>) -> bool {
    units.contains(unit) && ".socket"@.is_suffix_of(unit)
}

proof fn lemma_socket_members(units: Seq<Seq<char>>)
    ensures
        forall|u: Seq<char>| #[trigger] sockets(units).contains(u) <==> is_socket_of(units, u),
    decreases units.len(),
{
    if units.len() > 0 {
        let front = units.drop_last();
        let before = sockets(front);
        let all = sockets(units);
        lemma_socket_members(front);
        assert forall|u: Seq<char>| #[trigger] all.contains(u) <==> is_socket_of(units, u) by {
            if all.contains(u) {
                let k = choose|k: int| 0 <= k < all.len() && all[k] == u;
                if k < before.len() {
                    assert(before[k] == u);
                    assert(before.contains(u));
                    let j = choose|j: int| 0 <= j < front.len() && front[j] == u;
                    assert(units[j] == u);
                } else {
                    assert(units[units.len() - 1] == u);
                }
            }
            if is_socket_of(units, u) {
                let j = choose|j: int| 0 <= j < units.len() && units[j] == u;
                if j < front.len() {
                    assert(front[j] == u);
                    assert(is_socket_of(front, u));
                    assert(before.contains(u));
                    let k = choose|k: int| 0 <= k < before.len() && before[k] == u;
                    assert(all[k] == u);
                } else {
                    assert(all[all.len() - 1] == u);
                }
            }
        }
    }
}

/// What a list of five parts holds.
proof fn lemma_five_parts<T>(a: Seq<T>, b: Seq<T>, c: Seq<T>, d: Seq<T>, e: Seq<T>, x: T)
    ensures
        (a + b + c + d + e).contains(x) <==> a.contains(x) || b.contains(x) || c.contains(x)
            || d.contains(x) || e.contains(x),
{
    let all = a + b + c + d + e;
    let n = a.len() as int;
    let m = n + b.len();
    let o = m + c.len();
    let p = o + d.len();
    if a.contains(x) {
        let k = choose|k: int| 0 <= k < a.len() && a[k] == x;
        assert(all[k] == x);
    }
    if b.contains(x) {
        let k = choose|k: int| 0 <= k < b.len() && b[k] == x;
        assert(all[n + k] == x);
    }
    if c.contains(x) {
        let k = choose|k: int| 0 <= k < c.len() && c[k] == x;
        assert(all[m + k] == x);
    }
    if d.contains(x) {
        let k = choose|k: int| 0 <= k < d.len() && d[k] == x;
        assert(all[o + k] == x);
    }
    if e.contains(x) {
        let k = choose|k: int| 0 <= k < e.len() && e[k] == x;
        assert(all[p + k] == x);
    }
    if all.contains(x) {
        let k = choose|k: int| 0 <= k < all.len() && all[k] == x;
        if k < n {
            assert(a[k] == x);
        } else if k < m {
            assert(b[k - n] == x);
        } else if k < o {
            assert(c[k - m] == x);
        } else if k < p {
            assert(d[k - o] == x);
        } else {
            assert(e[k - p] == x);
        }
    }
}

/// The actions of a plan.
spec fn plan_actions(plan: Seq<(UnitActionView, Seq<char>)>) -> Seq<UnitActionView> {
    plan.map_values(|p: (UnitActionView, Seq<char>)| p.0)
}

proof fn lemma_actions(list: Seq<UnitOperation>)
    ensures
        actions(list) == plan_actions(operation_views(list)),
{
    assert(actions(list) =~= plan_actions(operation_views(list)));
}

proof fn lemma_stops_hold(units: Seq<Seq<char>>, x: UnitActionView)
    ensures
        plan_actions(stops(units)).contains(x) <==> (x matches UnitActionView::Stop(u)
            && units.contains(u)),
{
    let all = plan_actions(stops(units));
    if all.contains(x) {
        let k = choose|k: int| 0 <= k < all.len() && all[k] == x;
        assert(units[k] == x->Stop_0);
    }
    if let UnitActionView::Stop(u) = x {
        if units.contains(u) {
            let k = choose|k: int| 0 <= k < units.len() && units[k] == u;
            assert(all[k] == x);
        }
    }
}

proof fn lemma_starts_hold(units: Seq<Seq<char>>, verb: Seq<char>, x: UnitActionView)
    ensures
        plan_actions(starts(units, verb)).contains(x) <==> (x matches UnitActionView::Start(u)
            && units.contains(u)),
{
    let all = plan_actions(starts(units, verb));
    if all.contains(x) {
        let k = choose|k: int| 0 <= k < all.len() && all[k] == x;
        assert(units[k] == x->Start_0);
    }
    if let UnitActionView::Start(u) = x {
        if units.contains(u) {
            let k = choose|k: int| 0 <= k < units.len() && units[k] == u;
            assert(all[k] == x);
        }
    }
}

proof fn lemma_one_holds<T>(one: T, x: T)
    ensures
        seq![one].contains(x) <==> x == one,
{
    assert(seq![one][0] == one);
}

/// A plan of five parts, each with its turn, takes turns.
proof fn lemma_turns(
    a: Seq<UnitActionView>,
    b: Seq<UnitActionView>,
    c: Seq<UnitActionView>,
    d: Seq<UnitActionView>,
    e: Seq<UnitActionView>,
)
    requires
        forall|i: int, j: int|
            0 <= i <= j < a.len() ==> turn(#[trigger] a[i]) <= turn(#[trigger] a[j]),
        forall|i: int| 0 <= i < a.len() ==> turn(#[trigger] a[i]) <= 1,
        forall|i: int, j: int|
            0 <= i <= j < b.len() ==> turn(#[trigger] b[i]) <= turn(#[trigger] b[j]),
        forall|i: int| 0 <= i < b.len() ==> 2 <= turn(#[trigger] b[i]) <= 3,
        c == seq![UnitActionView::Reload],
        forall|i: int| 0 <= i < d.len() ==> turn(#[trigger] d[i]) == 5,
        e.len() <= 1,
        forall|i: int| 0 <= i < e.len() ==> turn(#[trigger] e[i]) >= 5,
    ensures
        take_turns(a + b + c + d + e),
{
    let all = a + b + c + d + e;
    let n = a.len() as int;
    let m = n + b.len();
    let o = m + 1;
    let p = o + d.len();
    assert(all[m] is Reload);
    assert forall|i: int, j: int| 0 <= i <= j < all.len() implies turn(#[trigger] all[i]) <= turn(
        #[trigger] all[j],
    ) by {
        lemma_part(a, b, c, d, e, i);
        lemma_part(a, b, c, d, e, j);
    }
    assert forall|i: int| 0 <= i < all.len() && #[trigger] all[i] is Reload implies i == m by {
        lemma_part(a, b, c, d, e, i);
    }
}

proof fn lemma_part<T>(a: Seq<T>, b: Seq<T>, c: Seq<T>, d: Seq<T>, e: Seq<T>, i: int)
    requires
        0 <= i < (a + b + c + d + e).len(),
    ensures
        ({
            let n = a.len() as int;
            let m = n + b.len();
            let o = m + c.len();
            let p = o + d.len();
            (a + b + c + d + e)[i] == if i < n {
                a[i]
            } else if i < m {
                b[i - n]
            } else if i < o {
                c[i - m]
            } else if i < p {
                d[i - o]
            } else {
                e[i - p]
            }
        }),
{
}

/// What making way for units stops, and what it holds besides.
proof fn lemma_make_way(
    product: Seq<char>,
    previous: Seq<Seq<char>>,
    target: Seq<Seq<char>>,
    had: bool,
)
    ensures
        ({
            let a = plan_actions(make_way(product, previous, target, had));
            &&& forall|u: Seq<char>|
                #[trigger] a.contains(UnitActionView::Stop(u)) <==> if had {
                    previous.contains(u) && !target.contains(u)
                } else {
                    is_own_unit(product, u)
                }
            &&& a.contains(UnitActionView::RemoveApplicationSocket) <==> !had
            &&& forall|i: int| 0 <= i < a.len() ==> turn(#[trigger] a[i]) <= 1
            &&& forall|x: UnitActionView| #[trigger] a.contains(x) ==> turn(x) <= 1
            &&& forall|i: int, j: int|
                0 <= i <= j < a.len() ==> turn(#[trigger] a[i]) <= turn(#[trigger] a[j])
        }),
{
    let a = plan_actions(make_way(product, previous, target, had));
    lemma_obsolete_members(previous, target);
    if had {
        let gone = obsolete(previous, target);
        assert forall|u: Seq<char>|
            a.contains(UnitActionView::Stop(u)) <==> previous.contains(u) && !target.contains(u) by {
            lemma_stops_hold(gone, UnitActionView::Stop(u));
        }
        lemma_stops_hold(gone, UnitActionView::RemoveApplicationSocket);
    } else {
        let s = application_socket_name(product);
        let m = management_socket_name(product);
        let v = service_name(product);
        assert(a =~= seq![
            UnitActionView::Stop(s),
            UnitActionView::Stop(m),
            UnitActionView::Stop(v),
            UnitActionView::RemoveApplicationSocket,
        ]);
        assert(a[0] == UnitActionView::Stop(s) && a[1] == UnitActionView::Stop(m) && a[2]
            == UnitActionView::Stop(v) && a[3] == UnitActionView::RemoveApplicationSocket);
    }
}

proof fn lemma_enablement_turns(target: Seq<Seq<char>>, previous: Seq<Seq<char>>)
    ensures
        ({
            let b = plan_actions(enablement(target, previous));
            &&& forall|i: int| 0 <= i < b.len() ==> 2 <= turn(#[trigger] b[i]) <= 3
            &&& forall|x: UnitActionView| #[trigger] b.contains(x) ==> 2 <= turn(x) <= 3
            &&& forall|i: int, j: int|
                0 <= i <= j < b.len() ==> turn(#[trigger] b[i]) <= turn(#[trigger] b[j])
        }),
{
}

/// Activating an installation stops what it drops where the product was
/// installed before, and everything of the product where it was not; then it
/// starts exactly the sockets of the installation, and last of all the service:
/// anew where it ran before.
pub proof fn law_activation_starts_the_installation(
    product: ManagedProduct,
    target: Vec<String>,
    previous: Vec<String>,
    had_service: bool,
    r: Vec<UnitOperation>,
)
    requires
        call_ensures(
            SystemdManager::activate_installation,
            (&product, &target, &previous, had_service),
            r,
        ),
    ensures
        ({
            let done = actions(r@);
            let name = product@.product@;
            let service = service_name(name);
            &&& take_turns(done)
            &&& if had_service {
                &&& stops_the_dropped(done, texts(previous@), texts(target@))
                &&& done.last() == UnitActionView::Restart(service)
                &&& forall|u: Seq<char>|
                    #[trigger] done.contains(UnitActionView::Start(u)) <==> is_socket_of(
                        texts(target@),
                        u,
                    )
            } else {
                &&& stops_the_product(done, name)
                &&& done.last() == UnitActionView::Start(service)
                &&& forall|u: Seq<char>|
                    #[trigger] done.contains(UnitActionView::Start(u)) <==> is_socket_of(
                        texts(target@),
                        u,
                    ) || u == service
            }
            &&& forall|u: Seq<char>|
                #[trigger] done.contains(UnitActionView::Restart(u)) <==> had_service && u
                    == service
        }),
{
    let name = product@.product@;
    let service = service_name(name);
    let t = texts(target@);
    let p = texts(previous@);
    let a = plan_actions(make_way(name, p, t, had_service));
    let b = plan_actions(enablement(t, p));
    let c = seq![UnitActionView::Reload];
    let d = plan_actions(starts(sockets(t), "start"@));
    let e = seq![
        if had_service {
            UnitActionView::Restart(service)
        } else {
            UnitActionView::Start(service)
        },
    ];
    let done = actions(r@);
    lemma_actions(r@);
    assert(done =~= a + b + c + d + e);
    assert(done.last() == e[0]);
    lemma_make_way(name, p, t, had_service);
    lemma_enablement_turns(t, p);
    lemma_turns(a, b, c, d, e);
    lemma_socket_members(t);
    assert forall|x: UnitActionView| #[trigger] done.contains(x) <==> a.contains(x) || b.contains(x)
        || x is Reload || (x matches UnitActionView::Start(u) && is_socket_of(t, u)) || x == e[0] by {
        lemma_five_parts(a, b, c, d, e, x);
        lemma_one_holds(UnitActionView::Reload, x);
        lemma_one_holds(e[0], x);
        lemma_starts_hold(sockets(t), "start"@, x);
    }
}

/// Restoring what was there before an installation stops what only the
/// installation had, or everything of the product where it had no service
/// before. Where it had one, systemd reads the unit files, every socket that
/// was enabled before is started and no other unit, and last of all the service
/// is restarted; where it had none, nothing is started or restarted.
pub proof fn law_restoration_resumes_the_previous_service(
    product: ManagedProduct,
    target: Vec<String>,
    previous: Vec<String>,
    had_service: bool,
    r: Vec<UnitOperation>,
)
    requires
        call_ensures(
            SystemdManager::restore_installation,
            (&product, &target, &previous, had_service),
            r,
        ),
    ensures
        ({
            let done = actions(r@);
            let name = product@.product@;
            let service = service_name(name);
            &&& take_turns(done)
            &&& if had_service {
                &&& stops_the_dropped(done, texts(target@), texts(previous@))
                &&& done.last() == UnitActionView::Restart(service)
            } else {
                stops_the_product(done, name)
            }
            &&& forall|u: Seq<char>|
                #[trigger] done.contains(UnitActionView::Start(u)) <==> had_service && is_socket_of(
                    texts(previous@),
                    u,
                )
            &&& forall|u: Seq<char>|
                #[trigger] done.contains(UnitActionView::Restart(u)) <==> had_service && u
                    == service
        }),
{
    let name = product@.product@;
    let service = service_name(name);
    let t = texts(target@);
    let p = texts(previous@);
    let a = plan_actions(make_way(name, t, p, had_service));
    let b = plan_actions(enablement(p, t));
    let c = seq![UnitActionView::Reload];
    let d = if had_service {
        plan_actions(starts(sockets(p), "restore"@))
    } else {
        seq![]
    };
    let e = if had_service {
        seq![UnitActionView::Restart(service)]
    } else {
        seq![]
    };
    let done = actions(r@);
    lemma_actions(r@);
    assert(done =~= a + b + c + d + e);
    assert(had_service ==> done.last() == e[0]);
    lemma_make_way(name, t, p, had_service);
    lemma_enablement_turns(p, t);
    lemma_turns(a, b, c, d, e);
    lemma_socket_members(p);
    assert forall|x: UnitActionView| #[trigger] done.contains(x) <==> a.contains(x) || b.contains(x)
        || x is Reload || (had_service && (x matches UnitActionView::Start(u) && is_socket_of(p, u)))
        || (had_service && x == UnitActionView::Restart(service)) by {
        lemma_five_parts(a, b, c, d, e, x);
        lemma_one_holds(UnitActionView::Reload, x);
        lemma_one_holds(UnitActionView::Restart(service), x);
        lemma_starts_hold(sockets(p), "restore"@, x);
    }
}

/// After an activation the units of the installation are enabled in place of
/// those that were enabled before; after a restoration it is the other way
/// round, from whatever the activation had come to. No other unit is touched.
pub proof fn law_enablement_is_exchanged(
    product: ManagedProduct,
    target: Vec<String>,
    previous: Vec<String>,
    had_service: bool,
    others: Set<Seq<char>>,
    enabled: Set<Seq<char>>,
    activated: Vec<UnitOperation>,
    restored: Vec<UnitOperation>,
)
    requires
        call_ensures(
            SystemdManager::activate_installation,
            (&product, &target, &previous, had_service),
            activated,
        ),
        call_ensures(
            SystemdManager::restore_installation,
            (&product, &target, &previous, had_service),
            restored,
        ),
        others.disjoint(texts(target@).to_set()),
        others.disjoint(texts(previous@).to_set()),
        others.subset_of(enabled),
        enabled.subset_of(others.union(texts(target@).to_set()).union(texts(previous@).to_set())),
    ensures
        enabled_after_all(
            others.union(texts(previous@).to_set()),
            operation_views(activated@),
        ) == others.union(texts(target@).to_set()),
        enabled_after_all(enabled, operation_views(restored@)) == others.union(
            texts(previous@).to_set(),
        ),
{
    law_activation_enables_target(
        product@.product@,
        texts(target@),
        texts(previous@),
        had_service,
        others,
    );
    law_restoration_reinstates_enablement(
        product@.product@,
        texts(target@),
        texts(previous@),
        had_service,
        others,
        enabled,
    );
}

/// Refreshing an installed product stops what is enabled and no longer declared,
/// and starts exactly the sockets that the product declares; it restarts
/// nothing.
pub proof fn law_refresh_starts_the_declared_sockets(
    product: ManagedProduct,
    manifest: InstallationManifest,
    previous: Vec<String>,
    r: Vec<UnitOperation>,
)
    requires
        call_ensures(ManagedProduct::installation_manifest, (&product,), manifest),
        call_ensures(SystemdManager::refresh_installation, (&product, &previous), r),
    ensures
        ({
            let done = actions(r@);
            let units = texts(manifest.enable_units@);
            &&& take_turns(done)
            &&& stops_the_dropped(done, texts(previous@), units)
            &&& forall|u: Seq<char>|
                #[trigger] done.contains(UnitActionView::Start(u)) <==> is_socket_of(units, u)
            &&& forall|u: Seq<char>| !#[trigger] done.contains(UnitActionView::Restart(u))
        }),
{
    let t = texts(manifest.enable_units@);
    let p = texts(previous@);
    let a = plan_actions(stops(obsolete(p, t)));
    let b = plan_actions(enablement(t, p));
    let c = seq![UnitActionView::Reload];
    let d = plan_actions(starts(sockets(t), "start"@));
    let e = Seq::<UnitActionView>::empty();
    let done = actions(r@);
    lemma_actions(r@);
    assert(manifest@.enable_units == t);
    assert(done =~= a + b + c + d + e);
    lemma_make_way(product@.product@, p, t, true);
    assert(a == plan_actions(make_way(product@.product@, p, t, true)));
    lemma_enablement_turns(t, p);
    lemma_turns(a, b, c, d, e);
    lemma_socket_members(t);
    assert forall|x: UnitActionView| #[trigger] done.contains(x) <==> a.contains(x) || b.contains(x)
        || x is Reload || (x matches UnitActionView::Start(u) && is_socket_of(t, u)) by {
        lemma_five_parts(a, b, c, d, e, x);
        lemma_one_holds(UnitActionView::Reload, x);
        lemma_starts_hold(sockets(t), "start"@, x);
    }
}

/// After a refresh exactly the units that the product declares are enabled in
/// place of those that were enabled before, whatever these were, and no other
/// unit is touched.
pub proof fn law_refresh_enables_the_declared_units(
    product: ManagedProduct,
    manifest: InstallationManifest,
    previous: Vec<String>,
    others: Set<Seq<char>>,
    r: Vec<UnitOperation>,
)
    requires
        call_ensures(ManagedProduct::installation_manifest, (&product,), manifest),
        call_ensures(SystemdManager::refresh_installation, (&product, &previous), r),
        others.disjoint(texts(manifest.enable_units@).to_set()),
        others.disjoint(texts(previous@).to_set()),
    ensures
        enabled_after_all(
            others.union(texts(previous@).to_set()),
            operation_views(r@),
        ) == others.union(texts(manifest.enable_units@).to_set()),
{
    let t = texts(manifest.enable_units@);
    let p = texts(previous@);
    let enabled = others.union(p.to_set());
    assert(manifest@.enable_units == t);
    let a = stops(obsolete(p, t));
    let b = enablement(t, p);
    let c = seq![(UnitActionView::Reload, "reload systemd units"@)];
    let d = starts(sockets(t), "start"@);
    lemma_enabled_concat(enabled, a + b + c, d);
    lemma_enabled_concat(enabled, a + b, c);
    lemma_enabled_concat(enabled, a, b);
    lemma_enabled_unchanged(enabled, a);
    lemma_enablement(enabled, t, p);
    let after = enabled_after_all(enabled, b);
    lemma_enabled_unchanged(after, c);
    lemma_enabled_unchanged(after, d);
    assert(after =~= others.union(t.to_set()));
}

/// Deactivating a product stops its service and both its sockets, leaves none of
/// the units that it declares enabled and every other unit as it was, and starts
/// nothing.
pub proof fn law_deactivation_stops_the_product(
    product: ManagedProduct,
    manifest: InstallationManifest,
    enabled: Set<Seq<char>>,
    r: Vec<UnitOperation>,
)
    requires
        call_ensures(ManagedProduct::installation_manifest, (&product,), manifest),
        call_ensures(SystemdManager::deactivate_installation, (&product,), r),
    ensures
        ({
            let done = actions(r@);
            &&& take_turns(done)
            &&& forall|u: Seq<char>|
                #[trigger] done.contains(UnitActionView::Stop(u)) <==> is_own_unit(
                    product@.product@,
                    u,
                )
            &&& !done.contains(UnitActionView::RemoveApplicationSocket)
            &&& forall|u: Seq<char>| !#[trigger] done.contains(UnitActionView::Start(u))
            &&& forall|u: Seq<char>| !#[trigger] done.contains(UnitActionView::Restart(u))
            &&& enabled_after_all(enabled, operation_views(r@)) == enabled.difference(
                texts(manifest.enable_units@).to_set(),
            )
        }),
{
    let name = product@.product@;
    let t = texts(manifest.enable_units@);
    assert(manifest@.enable_units == t);
    let done = actions(r@);
    lemma_actions(r@);
    assert(done =~= seq![
        UnitActionView::Stop(service_name(name)),
        UnitActionView::Stop(application_socket_name(name)),
        UnitActionView::Stop(management_socket_name(name)),
        UnitActionView::Disable(t),
        UnitActionView::Reload,
    ]);
    assert(done[0] == UnitActionView::Stop(service_name(name)));
    assert(done[1] == UnitActionView::Stop(application_socket_name(name)));
    assert(done[2] == UnitActionView::Stop(management_socket_name(name)));
    assert(done[4] is Reload);
    let a = stops(
        seq![service_name(name), application_socket_name(name), management_socket_name(name)],
    );
    let b = seq![(UnitActionView::Disable(t), "disable managed units"@)];
    let c = seq![(UnitActionView::Reload, "reload systemd after deactivation"@)];
    assert(operation_views(r@) =~= a + b + c);
    lemma_enabled_concat(enabled, a + b, c);
    lemma_enabled_concat(enabled, a, b);
    lemma_enabled_unchanged(enabled, a);
    lemma_enabled_unchanged(enabled_after_all(enabled, b), c);
    assert(b.drop_last() =~= seq![]);
    reveal_with_fuel(enabled_after_all, 2);
}

// ---------------------------------------------------------------------------
// What systemd reports
// ---------------------------------------------------------------------------

/// The activity of a unit.
#[derive(Clone, Copy, Debug, PartialEq, Eq, Structural)]
pub enum UnitActivity {
    Active,
    Activating,
    Reloading,
    Deactivating,
    Inactive,
    Failed,
    Other,
}

/// The state of a unit file.
#[derive(Clone, Copy, Debug, PartialEq, Eq, Structural)]
pub enum UnitFileActivity {
    Enabled,
    EnabledRuntime,
    Linked,
    LinkedRuntime,
    Other,
}

/// Whether a transient unit still runs.
pub fn counts_as_running(activity: UnitActivity) -> (r: bool)
    ensures
        r == (activity is Active || activity is Activating || activity is Reloading
            || activity is Deactivating),
{
    match activity {
        UnitActivity::Active
        | UnitActivity::Activating
        | UnitActivity::Reloading
        | UnitActivity::Deactivating => true,
        _ => false,
    }
}

/// Whether a unit file counts as enabled.
pub fn counts_as_enabled(state: UnitFileActivity) -> (r: bool)
    ensures
        r == !(state is Other),
{
    match state {
        UnitFileActivity::Other => false,
        _ => true,
    }
}

/// What is done about a unit that was told to stop.
#[derive(Clone, Copy, Debug, PartialEq, Eq, Structural)]
pub enum StopWait {
    Stopped,
    LookAgain,
    GiveUp,
}

/// Decides what is done about a unit that was told to stop.
pub fn stop_wait(activity: UnitActivity, before_deadline: bool) -> (r: StopWait)
    ensures
        r == if activity is Inactive || activity is Failed {
            StopWait::Stopped
        } else if before_deadline {
            StopWait::LookAgain
        } else {
            StopWait::GiveUp
        },
{
    match activity {
        UnitActivity::Inactive | UnitActivity::Failed => StopWait::Stopped,
        _ => if before_deadline {
            StopWait::LookAgain
        } else {
            StopWait::GiveUp
        },
    }
}

/// Whether the application socket at a path may be removed: nothing is there,
/// or a socket of root's. Anything else is left alone and is an error.
pub fn removable_socket(path: &String, found: bool, is_socket: bool, uid: u32) -> (r: Result<
    bool,
    SystemdError,
>)
    ensures
        r == if !found {
            Ok::<bool, SystemdError>(false)
        } else if is_socket && uid == 0 {
            Ok::<bool, SystemdError>(true)
        } else {
            Err::<bool, SystemdError>(SystemdError::UnsafeApplicationSocket(*path))
        },
{
    if !found {
        return Ok(false);
    }
    if is_socket && uid == 0 {
        return Ok(true);
    }
    Err(SystemdError::UnsafeApplicationSocket(path.clone()))
}

} // verus!
