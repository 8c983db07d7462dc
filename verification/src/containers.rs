//! Container runtimes: which one is used, and the commands for it.

use vstd::prelude::*;

use crate::command_reading::{lemma_read_options, read_words};
use crate::process::{
    command_failed, exit_code, failure_text, require_streamed_success, require_success,
    variable_views, CommandLine, CommandLineView, CommandOutput, ProcessError,
};
use crate::text;
use crate::text::texts;

verus! {

/// A container runtime.
#[derive(Clone, Copy, Debug, PartialEq, Eq, Structural)]
pub enum ContainerRuntimeKind {
    Docker,
    Podman,
}

/// Whether a runtime may be used through `sudo`.
#[derive(Clone, Copy, Debug, PartialEq, Eq, Structural)]
pub enum DetectionMode {
    UserOnly,
    UserOrSudo,
}

/// A container runtime, and whether it is used through `sudo`.
#[derive(Clone, Copy, Debug, PartialEq, Eq, Structural)]
pub struct ContainerRuntime {
    kind: ContainerRuntimeKind,
    use_sudo: bool,
}

/// A directory that a container sees.
#[derive(Clone, Copy, Debug, PartialEq, Eq)]
pub struct ContainerMount<'a> {
    pub source: &'a str,
    pub target: &'a str,
    pub read_only: bool,
}

/// Why no container runtime can be used.
#[derive(Debug, PartialEq, Eq)]
pub enum ContainerError {
    NoRuntime,
    BuildxCheck,
    NoBuildx,
    BuildxReported(String),
}

impl ContainerError {
    /// The words for the error.
    pub open spec fn words(self) -> Seq<char> {
        match self {
            ContainerError::NoRuntime =>
                "Missing supported local container runtime. Install `docker` or `podman`, or make it usable without an interactive sudo prompt."@,
            ContainerError::BuildxCheck =>
                "Failed to check whether Docker Buildx is installed"@,
            ContainerError::NoBuildx =>
                "Docker Buildx is required. Install the `docker buildx` plugin; legacy builders are not supported."@,
            ContainerError::BuildxReported(detail) =>
                "Docker Buildx is required. Install the `docker buildx` plugin; legacy builders are not supported. Docker reported: "@
                + detail@,
        }
    }

    /// The words for the error.
    pub fn message(&self) -> (out: String)
        ensures
            out@ == self.words(),
    {
        match self {
            ContainerError::NoRuntime =>
                "Missing supported local container runtime. Install `docker` or `podman`, or make it usable without an interactive sudo prompt.".to_owned(),
            ContainerError::BuildxCheck =>
                "Failed to check whether Docker Buildx is installed".to_owned(),
            ContainerError::NoBuildx =>
                "Docker Buildx is required. Install the `docker buildx` plugin; legacy builders are not supported.".to_owned(),
            ContainerError::BuildxReported(detail) =>
                "Docker Buildx is required. Install the `docker buildx` plugin; legacy builders are not supported. Docker reported: ".to_owned().concat(
                detail.as_str(),
            ),
        }
    }
}

/// A command for a runtime, the words for it in an error, and whether its output
/// goes where the caller's goes.
#[derive(Clone, Debug, PartialEq, Eq)]
pub struct ContainerCommand {
    pub command: CommandLine,
    pub action: &'static str,
    pub streamed: bool,
}

/// Whether a command is the given one.
pub open spec fn is_call(
    c: ContainerCommand,
    command: CommandLineView,
    action: Seq<char>,
    streamed: bool,
) -> bool {
    c.command@ == command && c.action@ == action && c.streamed == streamed
}

impl ContainerCommand {
    /// Whether what the command writes is shown as it comes: that of a streamed
    /// command is, where there is a terminal to show it on.
    pub open spec fn shown(self, terminal: bool) -> bool {
        self.streamed && terminal
    }

    /// Whether what the command writes is shown as it comes, and not captured.
    pub fn is_shown(&self, terminal: bool) -> (r: bool)
        ensures
            r == self.shown(terminal),
    {
        self.streamed && terminal
    }

    /// The judgement on what the command came to: its exit status decides. What
    /// was shown already is not said again.
    pub fn answer(&self, ended: CommandOutput, terminal: bool) -> (r: Result<(), ProcessError>)
        ensures
            r is Ok <==> ended.success,
            r matches Err(e) ==> command_failed(
                e,
                self.action@,
                self.command@,
                if self.shown(terminal) {
                    "exit status "@ + text::signed_decimal(exit_code(ended.code))
                } else {
                    failure_text(ended.stdout@, ended.stderr@, ended.code)
                },
            ),
    {
        if self.is_shown(terminal) {
            return require_streamed_success(
                self.action,
                &self.command,
                ended.success,
                ended.code,
            );
        }
        match require_success(self.action, &self.command, ended) {
            Ok(_) => Ok(()),
            Err(e) => Err(e),
        }
    }
}

/// The runtimes that are tried, in their order: those of the user first, and
/// Docker before Podman.
pub open spec fn candidates(mode: DetectionMode) -> Seq<(ContainerRuntimeKind, bool)> {
    let own = seq![(ContainerRuntimeKind::Docker, false), (ContainerRuntimeKind::Podman, false)];
    match mode {
        DetectionMode::UserOnly => own,
        DetectionMode::UserOrSudo => own + seq![
            (ContainerRuntimeKind::Docker, true),
            (ContainerRuntimeKind::Podman, true),
        ],
    }
}

/// The name of a runtime's program.
pub open spec fn program_name(kind: ContainerRuntimeKind) -> Seq<char> {
    match kind {
        ContainerRuntimeKind::Docker => "docker"@,
        ContainerRuntimeKind::Podman => "podman"@,
    }
}

impl ContainerRuntime {
    /// The runtime and whether it is used through `sudo`.
    pub closed spec fn view(self) -> (ContainerRuntimeKind, bool) {
        (self.kind, self.use_sudo)
    }

    /// The command that runs the runtime with arguments.
    pub open spec fn call(self, arguments: Seq<Seq<char>>) -> CommandLineView {
        if self@.1 {
            CommandLineView {
                program: "sudo"@,
                arguments: seq!["-n"@, program_name(self@.0)] + arguments,
                environment: Seq::empty(),
            }
        } else {
            CommandLineView {
                program: program_name(self@.0),
                arguments,
                environment: Seq::empty(),
            }
        }
    }

    /// Whether images can be built: with Podman always, with Docker where asking
    /// for Buildx succeeded.
    pub open spec fn can_build(self, asked: Option<CommandOutput>) -> bool {
        self@.0 is Podman || (asked matches Some(output) && output.success)
    }

    /// A runtime.
    pub fn new(kind: ContainerRuntimeKind, use_sudo: bool) -> (r: ContainerRuntime)
        ensures
            r@ == (kind, use_sudo),
    {
        ContainerRuntime { kind, use_sudo }
    }

    /// The runtimes that are tried, in their order.
    pub fn candidates(mode: DetectionMode) -> (r: Vec<ContainerRuntime>)
        ensures
            r@.map_values(|c: ContainerRuntime| c@) == candidates(mode),
    {
        let mut out: Vec<ContainerRuntime> = Vec::new();
        out.push(ContainerRuntime::new(ContainerRuntimeKind::Docker, false));
        out.push(ContainerRuntime::new(ContainerRuntimeKind::Podman, false));
        if let DetectionMode::UserOrSudo = mode {
            out.push(ContainerRuntime::new(ContainerRuntimeKind::Docker, true));
            out.push(ContainerRuntime::new(ContainerRuntimeKind::Podman, true));
        }
        assert(out@.map_values(|c: ContainerRuntime| c@) =~= candidates(mode));
        out
    }

    /// The first runtime that can be used, with or without `sudo`. `usable` says
    /// of each candidate whether it can be.
    pub fn detect(usable: &Vec<bool>) -> (r: Result<ContainerRuntime, ContainerError>)
        ensures
            detection(DetectionMode::UserOrSudo, usable@, r),
    {
        ContainerRuntime::detect_with_mode(DetectionMode::UserOrSudo, usable)
    }

    /// The first runtime that can be used. `usable` says of each candidate
    /// whether it can be.
    pub fn detect_with_mode(mode: DetectionMode, usable: &Vec<bool>) -> (r: Result<
        ContainerRuntime,
        ContainerError,
    >)
        ensures
            detection(mode, usable@, r),
    {
        let list = ContainerRuntime::candidates(mode);
        let ghost all = candidates(mode);
        let mut i: usize = 0;
        while i < list.len() && i < usable.len()
            invariant
                i <= list@.len(),
                i <= usable@.len(),
                all == list@.map_values(|c: ContainerRuntime| c@),
                all == candidates(mode),
                forall|k: int| 0 <= k < i ==> !#[trigger] usable@[k],
            decreases list@.len() - i,
        {
            if usable[i] {
                assert(all[i as int] == list@[i as int]@);
                assert(answers(mode, usable@, i as int));
                return Ok(list[i]);
            }
            i = i + 1;
        }
        assert(list@.len() == all.len());
        Err(ContainerError::NoRuntime)
    }

    /// The name of the runtime's program.
    pub fn name(self) -> (r: &'static str)
        ensures
            r@ == program_name(self@.0),
    {
        match self.kind {
            ContainerRuntimeKind::Docker => "docker",
            ContainerRuntimeKind::Podman => "podman",
        }
    }

    /// Whether the runtime is used through `sudo`.
    pub fn uses_sudo(self) -> (r: bool)
        ensures
            r == self@.1,
    {
        self.use_sudo
    }

    /// The command that runs the runtime.
    pub fn command(self) -> (r: CommandLine)
        ensures
            r@ == self.call(Seq::empty()),
    {
        if self.use_sudo {
            let mut command = CommandLine::new("sudo");
            command.arg("-n");
            command.arg(self.name());
            assert(command@ =~= self.call(Seq::empty()));
            command
        } else {
            let command = CommandLine::new(self.name());
            assert(command@ =~= self.call(Seq::empty()));
            command
        }
    }

    /// The command that runs the runtime, as the beginning of a shell command.
    pub fn shell_prefix(self) -> (out: String)
        ensures
            out@ == if self@.1 {
                "sudo -n "@ + program_name(self@.0)
            } else {
                program_name(self@.0)
            },
    {
        if self.use_sudo {
            "sudo -n ".to_owned().concat(self.name())
        } else {
            self.name().to_owned()
        }
    }

    fn with(self, arguments: &Vec<String>, action: &'static str, streamed: bool) -> (r:
        ContainerCommand)
        ensures
            is_call(r, self.call(texts(arguments@)), action@, streamed),
    {
        let mut command = self.command();
        command.args(arguments);
        assert(command@ =~= self.call(texts(arguments@)));
        ContainerCommand { command, action, streamed }
    }

    /// The command that asks whether the runtime can be used.
    pub fn availability_command(self) -> (r: CommandLine)
        ensures
            r@ == self.call(seq!["version"@]),
    {
        let mut command = self.command();
        command.arg("version");
        assert(command@ =~= self.call(seq!["version"@]));
        command
    }

    /// The command that asks whether images can be built, where that has to be
    /// asked.
    pub fn build_check_command(self) -> (r: Option<CommandLine>)
        ensures
            match self@.0 {
                ContainerRuntimeKind::Docker => r matches Some(c) && c@ == self.call(
                    seq!["buildx"@, "version"@],
                ),
                ContainerRuntimeKind::Podman => r is None,
            },
    {
        match self.kind {
            ContainerRuntimeKind::Docker => {
                let mut command = self.command();
                command.arg("buildx");
                command.arg("version");
                assert(command@ =~= self.call(seq!["buildx"@, "version"@]));
                Some(command)
            },
            ContainerRuntimeKind::Podman => None,
        }
    }

    /// Whether images can be built, from what asking for Docker Buildx came to;
    /// `None` where it could not be asked. Podman can always build.
    pub fn ensure_build_available(self, asked: &Option<CommandOutput>) -> (r: Result<
        (),
        ContainerError,
    >)
        ensures
            r is Ok <==> self.can_build(*asked),
            r matches Err(e) ==> build_fault(*asked, e),
    {
        match self.kind {
            ContainerRuntimeKind::Podman => Ok(()),
            ContainerRuntimeKind::Docker => match asked {
                None => Err(ContainerError::BuildxCheck),
                Some(output) => {
                    if output.success {
                        return Ok(());
                    }
                    let stderr = text::trim(output.stderr.as_str());
                    let detail = if !stderr.as_str().is_empty() {
                        stderr
                    } else {
                        text::trim(output.stdout.as_str())
                    };
                    if detail.as_str().is_empty() {
                        return Err(ContainerError::NoBuildx);
                    }
                    Err(ContainerError::BuildxReported(detail))
                },
            },
        }
    }

    /// The command that builds an image, from what asking for Docker Buildx came
    /// to: where images cannot be built there is none.
    pub fn build(
        self,
        asked: &Option<CommandOutput>,
        tag: &str,
        context_dir: &str,
        containerfile: &str,
    ) -> (r: Result<ContainerCommand, ContainerError>)
        ensures
            r is Ok <==> self.can_build(*asked),
            r matches Err(e) ==> build_fault(*asked, e),
            r matches Ok(c) ==> match self@.0 {
                ContainerRuntimeKind::Docker => is_call(
                    c,
                    self.call(
                        seq![
                            "buildx"@,
                            "build"@,
                            "--load"@,
                            "-t"@,
                            tag@,
                            "-f"@,
                            containerfile@,
                            context_dir@,
                        ],
                    ),
                    "build container image with Docker Buildx"@,
                    true,
                ),
                ContainerRuntimeKind::Podman => is_call(
                    c,
                    self.call(seq!["build"@, "-t"@, tag@, "-f"@, containerfile@, context_dir@]),
                    "build container image with Podman"@,
                    true,
                ),
            },
    {
        match self.ensure_build_available(asked) {
            Ok(_) => {},
            Err(e) => return Err(e),
        }
        let mut list: Vec<String> = Vec::new();
        match self.kind {
            ContainerRuntimeKind::Docker => {
                list.push("buildx".to_owned());
                list.push("build".to_owned());
                list.push("--load".to_owned());
                list.push("-t".to_owned());
                list.push(tag.to_owned());
                list.push("-f".to_owned());
                list.push(containerfile.to_owned());
                list.push(context_dir.to_owned());
                assert(texts(list@) =~= seq![
                    "buildx"@,
                    "build"@,
                    "--load"@,
                    "-t"@,
                    tag@,
                    "-f"@,
                    containerfile@,
                    context_dir@,
                ]);
                Ok(self.with(&list, "build container image with Docker Buildx", true))
            },
            ContainerRuntimeKind::Podman => {
                list.push("build".to_owned());
                list.push("-t".to_owned());
                list.push(tag.to_owned());
                list.push("-f".to_owned());
                list.push(containerfile.to_owned());
                list.push(context_dir.to_owned());
                assert(texts(list@) =~= seq![
                    "build"@,
                    "-t"@,
                    tag@,
                    "-f"@,
                    containerfile@,
                    context_dir@,
                ]);
                Ok(self.with(&list, "build container image with Podman", true))
            },
        }
    }

    /// Whether an image exists, from what its inspection came to: its exit status
    /// decides.
    pub fn image_exists(self, inspected: &CommandOutput) -> (r: bool)
        ensures
            r == inspected.success,
    {
        inspected.success
    }

    /// The command that succeeds where an image exists.
    pub fn image_inspection(self, tag: &str) -> (r: CommandLine)
        ensures
            r@ == self.call(seq!["image"@, "inspect"@, tag@]),
    {
        let mut command = self.command();
        command.arg("image");
        command.arg("inspect");
        command.arg(tag);
        assert(command@ =~= self.call(seq!["image"@, "inspect"@, tag@]));
        command
    }

    /// The command that saves an image to an archive.
    pub fn save(self, tag: &str, archive_path: &str) -> (r: ContainerCommand)
        ensures
            is_call(
                r,
                self.call(seq!["save"@, "-o"@, archive_path@, tag@]),
                "save container image archive"@,
                false,
            ),
    {
        let mut list: Vec<String> = Vec::new();
        list.push("save".to_owned());
        list.push("-o".to_owned());
        list.push(archive_path.to_owned());
        list.push(tag.to_owned());
        assert(texts(list@) =~= seq!["save"@, "-o"@, archive_path@, tag@]);
        self.with(&list, "save container image archive", false)
    }

    /// The command that loads an image from an archive.
    pub fn load(self, archive_path: &str) -> (r: ContainerCommand)
        ensures
            is_call(
                r,
                self.call(seq!["load"@, "-i"@, archive_path@]),
                "load container image archive"@,
                true,
            ),
    {
        let mut list: Vec<String> = Vec::new();
        list.push("load".to_owned());
        list.push("-i".to_owned());
        list.push(archive_path.to_owned());
        assert(texts(list@) =~= seq!["load"@, "-i"@, archive_path@]);
        self.with(&list, "load container image archive", true)
    }

    /// The command that gives an image another tag.
    pub fn tag(self, source: &str, target: &str) -> (r: ContainerCommand)
        ensures
            is_call(r, self.call(seq!["tag"@, source@, target@]), "tag container image"@, false),
    {
        let mut list: Vec<String> = Vec::new();
        list.push("tag".to_owned());
        list.push(source.to_owned());
        list.push(target.to_owned());
        assert(texts(list@) =~= seq!["tag"@, source@, target@]);
        self.with(&list, "tag container image", false)
    }

    /// The command that removes an image.
    pub fn remove_image(self, target: &str) -> (r: ContainerCommand)
        ensures
            is_call(
                r,
                self.call(seq!["image"@, "rm"@, "-f"@, target@]),
                "remove container image"@,
                false,
            ),
    {
        let mut list: Vec<String> = Vec::new();
        list.push("image".to_owned());
        list.push("rm".to_owned());
        list.push("-f".to_owned());
        list.push(target.to_owned());
        assert(texts(list@) =~= seq!["image"@, "rm"@, "-f"@, target@]);
        self.with(&list, "remove container image", false)
    }

    /// The command that pushes an image.
    pub fn push(self, target: &str) -> (r: ContainerCommand)
        ensures
            is_call(r, self.call(seq!["push"@, target@]), "push container image"@, true),
    {
        let mut list: Vec<String> = Vec::new();
        list.push("push".to_owned());
        list.push(target.to_owned());
        assert(texts(list@) =~= seq!["push"@, target@]);
        self.with(&list, "push container image", true)
    }

    /// The command that pulls an image.
    pub fn pull(self, target: &str) -> (r: ContainerCommand)
        ensures
            is_call(r, self.call(seq!["pull"@, target@]), "pull container image"@, true),
    {
        let mut list: Vec<String> = Vec::new();
        list.push("pull".to_owned());
        list.push(target.to_owned());
        assert(texts(list@) =~= seq!["pull"@, target@]);
        self.with(&list, "pull container image", true)
    }

    /// The command that logs in to a registry, and what it reads: the password.
    pub fn login_password_stdin(self, registry: &str, username: &str, password: &str) -> (r: (
        ContainerCommand,
        String,
    ))
        ensures
            is_call(
                r.0,
                self.call(seq!["login"@, "-u"@, username@, "--password-stdin"@, registry@]),
                "log in container runtime"@,
                false,
            ),
            r.1@ == password@,
    {
        let mut list: Vec<String> = Vec::new();
        list.push("login".to_owned());
        list.push("-u".to_owned());
        list.push(username.to_owned());
        list.push("--password-stdin".to_owned());
        list.push(registry.to_owned());
        assert(texts(list@) =~= seq![
            "login"@,
            "-u"@,
            username@,
            "--password-stdin"@,
            registry@,
        ]);
        (self.with(&list, "log in container runtime", false), password.to_owned())
    }

    /// The command that runs a container as the given user.
    pub fn run(
        self,
        image: &str,
        workdir: Option<&str>,
        envs: &Vec<(String, String)>,
        mounts: &Vec<ContainerMount<'_>>,
        command_args: &Vec<String>,
        uid: u32,
        gid: u32,
    ) -> (r: ContainerCommand)
        ensures
            is_call(
                r,
                self.call(
                    run_arguments(
                        image@,
                        workdir,
                        variable_views(envs@),
                        mounts@,
                        texts(command_args@),
                        uid,
                        gid,
                    ),
                ),
                "run container"@,
                true,
            ),
    {
        let mut list: Vec<String> = Vec::new();
        list.push("run".to_owned());
        list.push("--rm".to_owned());
        assert(texts(list@) =~= seq!["run"@, "--rm"@] + mount_arguments(mounts@.take(0)));
        let mut i: usize = 0;
        while i < mounts.len()
            invariant
                i <= mounts@.len(),
                texts(list@) == seq!["run"@, "--rm"@] + mount_arguments(mounts@.take(i as int)),
            decreases mounts@.len() - i,
        {
            let ghost before = texts(list@);
            let mount = &mounts[i];
            let mut spec = mount.source.to_owned().concat(":").concat(mount.target);
            if mount.read_only {
                spec = spec.concat(":ro");
            }
            assert(spec@ == mount_text(*mount));
            list.push("-v".to_owned());
            list.push(spec);
            assert(texts(list@) =~= before.push("-v"@).push(mount_text(*mount)));
            assert(mounts@.take(i + 1).drop_last() =~= mounts@.take(i as int));
            i = i + 1;
            assert(texts(list@) =~= seq!["run"@, "--rm"@] + mount_arguments(
                mounts@.take(i as int),
            ));
        }
        assert(mounts@.take(i as int) =~= mounts@);
        let ghost mounted = texts(list@);
        if let Some(directory) = workdir {
            list.push("-w".to_owned());
            list.push(directory.to_owned());
        }
        let ghost placed = mounted + workdir_arguments(workdir);
        assert(texts(list@) =~= placed);
        let ghost variables = variable_views(envs@);
        let mut j: usize = 0;
        assert(texts(list@) =~= placed + variable_arguments(variables.take(0)));
        while j < envs.len()
            invariant
                j <= envs@.len(),
                variables == variable_views(envs@),
                texts(list@) == placed + variable_arguments(variables.take(j as int)),
            decreases envs@.len() - j,
        {
            let ghost before = texts(list@);
            let setting = envs[j].0.clone().concat("=").concat(envs[j].1.as_str());
            list.push("-e".to_owned());
            list.push(setting);
            assert(texts(list@) =~= before.push("-e"@).push(setting@));
            assert(variables.take(j + 1).drop_last() =~= variables.take(j as int));
            j = j + 1;
            assert(texts(list@) =~= placed + variable_arguments(variables.take(j as int)));
        }
        assert(variables.take(j as int) =~= variables);
        let ghost set = texts(list@);
        let uid_text = text::decimal_u64(uid as u64);
        let gid_text = text::decimal_u64(gid as u64);
        list.push("--user".to_owned());
        list.push(uid_text.concat(":").concat(gid_text.as_str()));
        list.push(image.to_owned());
        let mut k: usize = 0;
        let ghost ready = texts(list@);
        assert(ready =~= set + seq![
            "--user"@,
            text::decimal(uid as nat) + ":"@ + text::decimal(gid as nat),
            image@,
        ]);
        assert(texts(list@) =~= ready + texts(command_args@).take(0));
        while k < command_args.len()
            invariant
                k <= command_args@.len(),
                texts(list@) == ready + texts(command_args@).take(k as int),
            decreases command_args@.len() - k,
        {
            let ghost before = texts(list@);
            let argument = command_args[k].clone();
            list.push(argument);
            assert(texts(list@) =~= before.push(argument@));
            k = k + 1;
            assert(ready + texts(command_args@).take(k as int) =~= before.push(
                texts(command_args@)[k - 1],
            ));
        }
        assert(texts(command_args@).take(k as int) =~= texts(command_args@));
        assert(texts(list@) =~= run_arguments(
            image@,
            workdir,
            variables,
            mounts@,
            texts(command_args@),
            uid,
            gid,
        ));
        self.with(&list, "run container", true)
    }
}

/// Whether an error is that for images that cannot be built: Buildx could not be
/// asked for, or Docker does not have it, with what Docker says of that.
pub open spec fn build_fault(asked: Option<CommandOutput>, e: ContainerError) -> bool {
    match asked {
        None => e is BuildxCheck,
        Some(output) => {
            let detail = if text::trimmed(output.stderr@).len() > 0 {
                text::trimmed(output.stderr@)
            } else {
                text::trimmed(output.stdout@)
            };
            if detail.len() == 0 {
                e is NoBuildx
            } else {
                e matches ContainerError::BuildxReported(d) && d@ == detail
            }
        },
    }
}

/// Whether the candidate at position `i` is the first that can be used.
pub open spec fn answers(mode: DetectionMode, usable: Seq<bool>, i: int) -> bool {
    &&& 0 <= i < candidates(mode).len()
    &&& i < usable.len()
    &&& usable[i]
    &&& forall|k: int| 0 <= k < i ==> !#[trigger] usable[k]
}

/// Whether a result is the first candidate that can be used.
pub open spec fn detection(
    mode: DetectionMode,
    usable: Seq<bool>,
    r: Result<ContainerRuntime, ContainerError>,
) -> bool {
    match r {
        Ok(runtime) => exists|i: int|
            #[trigger] answers(mode, usable, i) && runtime@ == candidates(mode)[i],
        Err(e) => e is NoRuntime && forall|i: int| !#[trigger] answers(mode, usable, i),
    }
}

/// The text of a mount.
pub open spec fn mount_text(mount: ContainerMount<'_>) -> Seq<char> {
    let places = mount.source@ + ":"@ + mount.target@;
    if mount.read_only {
        places + ":ro"@
    } else {
        places
    }
}

/// The arguments for mounts.
pub open spec fn mount_arguments(mounts: Seq<ContainerMount<'_>>) -> Seq<Seq<char>>
    decreases mounts.len(),
{
    if mounts.len() == 0 {
        Seq::empty()
    } else {
        mount_arguments(mounts.drop_last()) + seq!["-v"@, mount_text(mounts.last())]
    }
}

/// The arguments for variables.
pub open spec fn variable_arguments(variables: Seq<(Seq<char>, Seq<char>)>) -> Seq<Seq<char>>
    decreases variables.len(),
{
    if variables.len() == 0 {
        Seq::empty()
    } else {
        variable_arguments(variables.drop_last()) + seq![
            "-e"@,
            variables.last().0 + "="@ + variables.last().1,
        ]
    }
}

/// The arguments for a working directory.
pub open spec fn workdir_arguments(workdir: Option<&str>) -> Seq<Seq<char>> {
    match workdir {
        Some(directory) => seq!["-w"@, directory@],
        None => seq![],
    }
}

/// The arguments that run a container.
pub open spec fn run_arguments(
    image: Seq<char>,
    workdir: Option<&str>,
    variables: Seq<(Seq<char>, Seq<char>)>,
    mounts: Seq<ContainerMount<'_>>,
    command: Seq<Seq<char>>,
    uid: u32,
    gid: u32,
) -> Seq<Seq<char>> {
    seq!["run"@, "--rm"@] + mount_arguments(mounts) + workdir_arguments(workdir)
        + variable_arguments(variables) + seq![
        "--user"@,
        text::decimal(uid as nat) + ":"@ + text::decimal(gid as nat),
        image,
    ] + command
}

// ---------------------------------------------------------------------------
// What a runtime is told
// ---------------------------------------------------------------------------

/// The words that reach the runtime: those behind its name, which stands behind
/// `sudo -n` where that is used.
pub open spec fn runtime_words(kind: ContainerRuntimeKind, use_sudo: bool, c: CommandLine) -> Option<
    Seq<Seq<char>>,
> {
    let words = texts(c.arguments@);
    let name = match kind {
        ContainerRuntimeKind::Docker => "docker"@,
        ContainerRuntimeKind::Podman => "podman"@,
    };
    if !use_sudo && c.program@ == name {
        Some(words)
    } else if use_sudo && c.program@ == "sudo"@ && words.len() >= 2 && words[0] == "-n"@ && words[1]
        == name {
        Some(words.skip(2))
    } else {
        None
    }
}

/// A command for a runtime reaches that runtime with its words and no others.
proof fn lemma_runtime_words(runtime: ContainerRuntime, c: CommandLine, words: Seq<Seq<char>>)
    requires
        c@ == runtime.call(words),
    ensures
        runtime_words(runtime@.0, runtime@.1, c) == Some(words),
{
    assert(c@.arguments == texts(c.arguments@));
    if runtime@.1 {
        assert(texts(c.arguments@).skip(2) =~= words);
    }
}

/// The words of `run` that stand for themselves.
pub open spec fn run_flags() -> Set<Seq<char>> {
    set!["--rm"@]
}

/// The words of `run` that take a value.
pub open spec fn run_options() -> Set<Seq<char>> {
    set!["-v"@, "-w"@, "-e"@, "--user"@]
}

/// The options of mounts, a working directory, variables and a user.
spec fn run_pairs(
    workdir: Option<&str>,
    variables: Seq<(Seq<char>, Seq<char>)>,
    mounts: Seq<ContainerMount<'_>>,
    user: Seq<char>,
) -> Seq<(Seq<char>, Seq<char>)> {
    mounts.map_values(|m: ContainerMount<'_>| ("-v"@, mount_text(m))) + match workdir {
        Some(directory) => seq![("-w"@, directory@)],
        None => seq![],
    } + variables.map_values(|v: (Seq<char>, Seq<char>)| ("-e"@, v.0 + "="@ + v.1)) + seq![
        ("--user"@, user),
    ]
}

/// Whether words at a place are those of options.
spec fn words_of_pairs(words: Seq<Seq<char>>, pairs: Seq<(Seq<char>, Seq<char>)>) -> bool {
    &&& words.len() == 2 * pairs.len()
    &&& forall|i: int|
        0 <= i < pairs.len() ==> words[2 * i] == (#[trigger] pairs[i]).0 && words[2 * i + 1]
            == pairs[i].1
}

proof fn lemma_pairs_concat(
    a: Seq<Seq<char>>,
    b: Seq<Seq<char>>,
    p: Seq<(Seq<char>, Seq<char>)>,
    q: Seq<(Seq<char>, Seq<char>)>,
)
    requires
        words_of_pairs(a, p),
        words_of_pairs(b, q),
    ensures
        words_of_pairs(a + b, p + q),
{
    let words = a + b;
    let pairs = p + q;
    assert forall|i: int| 0 <= i < pairs.len() implies words[2 * i] == (#[trigger] pairs[i]).0
        && words[2 * i + 1] == pairs[i].1 by {
        if i < p.len() {
            assert(pairs[i] == p[i]);
            assert(words[2 * i] == a[2 * i]);
            assert(words[2 * i + 1] == a[2 * i + 1]);
        } else {
            let k = i - p.len();
            assert(pairs[i] == q[k]);
            assert(words[2 * i] == b[2 * k]);
            assert(words[2 * i + 1] == b[2 * k + 1]);
        }
    }
}

proof fn lemma_mount_pairs(mounts: Seq<ContainerMount<'_>>)
    ensures
        words_of_pairs(
            mount_arguments(mounts),
            mounts.map_values(|m: ContainerMount<'_>| ("-v"@, mount_text(m))),
        ),
    decreases mounts.len(),
{
    let all = mounts.map_values(|m: ContainerMount<'_>| ("-v"@, mount_text(m)));
    if mounts.len() > 0 {
        let front = mounts.drop_last();
        lemma_mount_pairs(front);
        let before = front.map_values(|m: ContainerMount<'_>| ("-v"@, mount_text(m)));
        let one = seq![("-v"@, mount_text(mounts.last()))];
        assert(all =~= before + one);
        lemma_pairs_concat(
            mount_arguments(front),
            seq!["-v"@, mount_text(mounts.last())],
            before,
            one,
        );
    }
}

proof fn lemma_variable_pairs(variables: Seq<(Seq<char>, Seq<char>)>)
    ensures
        words_of_pairs(
            variable_arguments(variables),
            variables.map_values(|v: (Seq<char>, Seq<char>)| ("-e"@, v.0 + "="@ + v.1)),
        ),
    decreases variables.len(),
{
    let all = variables.map_values(|v: (Seq<char>, Seq<char>)| ("-e"@, v.0 + "="@ + v.1));
    if variables.len() > 0 {
        let front = variables.drop_last();
        let last = variables.last();
        lemma_variable_pairs(front);
        let before = front.map_values(|v: (Seq<char>, Seq<char>)| ("-e"@, v.0 + "="@ + v.1));
        let one = seq![("-e"@, last.0 + "="@ + last.1)];
        assert(all =~= before + one);
        lemma_pairs_concat(
            variable_arguments(front),
            seq!["-e"@, last.0 + "="@ + last.1],
            before,
            one,
        );
    }
}

/// A container runs as it is declared: it is removed when it ends, it sees each
/// mount at its target, and only a mount that is read-only carries `ro` behind
/// source and target; it starts in the working directory, with each variable
/// set, as the given user and group, from the image, with the command. An image
/// that is spelled like an option is left out.
pub proof fn law_a_container_runs_as_declared(
    runtime: ContainerRuntime,
    image: &str,
    workdir: Option<&str>,
    envs: Vec<(String, String)>,
    mounts: Vec<ContainerMount<'_>>,
    command: Vec<String>,
    uid: u32,
    gid: u32,
    r: ContainerCommand,
)
    requires
        call_ensures(
            ContainerRuntime::run,
            (runtime, image, workdir, &envs, &mounts, &command, uid, gid),
            r,
        ),
        !run_flags().contains(image@),
        !run_options().contains(image@),
    ensures
        ({
            let told = runtime_words(runtime@.0, runtime@.1, r.command);
            &&& told matches Some(words) && words.len() > 0 && words[0] == "run"@
            &&& {
                let read = read_words(told->0.skip(1), run_flags(), run_options(), true);
                let m = mounts@.len() as int;
                let w: int = if workdir is Some {
                    1
                } else {
                    0
                };
                let v = envs@.len() as int;
                &&& read.flags == seq!["--rm"@]
                &&& read.operands == seq![image@] + texts(command@)
                &&& read.options.len() == m + w + v + 1
                &&& forall|i: int|
                    0 <= i < m ==> {
                        let places = mounts@[i].source@ + ":"@ + mounts@[i].target@;
                        &&& (#[trigger] read.options[i]).0 == "-v"@
                        &&& mounts@[i].read_only ==> read.options[i].1 == places + ":ro"@
                        &&& !mounts@[i].read_only ==> read.options[i].1 == places
                    }
                &&& workdir matches Some(directory) ==> read.options[m] == ("-w"@, directory@)
                &&& forall|i: int|
                    0 <= i < v ==> (#[trigger] envs@[i]).0@ + "="@ + envs@[i].1@
                        == read.options[m + w + i].1 && read.options[m + w + i].0 == "-e"@
                &&& read.options[m + w + v] == (
                    "--user"@,
                    text::decimal(uid as nat) + ":"@ + text::decimal(gid as nat),
                )
            }
        }),
{
    let variables = variable_views(envs@);
    let words = run_arguments(image@, workdir, variables, mounts@, texts(command@), uid, gid);
    lemma_runtime_words(runtime, r.command, words);
    let user = text::decimal(uid as nat) + ":"@ + text::decimal(gid as nat);
    let pairs = run_pairs(workdir, variables, mounts@, user);
    let mounted = mounts@.map_values(|m: ContainerMount<'_>| ("-v"@, mount_text(m)));
    let placed: Seq<(Seq<char>, Seq<char>)> = match workdir {
        Some(directory) => seq![("-w"@, directory@)],
        None => seq![],
    };
    let set_here = variables.map_values(|v: (Seq<char>, Seq<char>)| ("-e"@, v.0 + "="@ + v.1));
    lemma_mount_pairs(mounts@);
    lemma_variable_pairs(variables);
    assert(words_of_pairs(workdir_arguments(workdir), placed));
    let given = mount_arguments(mounts@) + workdir_arguments(workdir) + variable_arguments(
        variables,
    ) + seq!["--user"@, user];
    lemma_pairs_concat(mount_arguments(mounts@), workdir_arguments(workdir), mounted, placed);
    lemma_pairs_concat(
        mount_arguments(mounts@) + workdir_arguments(workdir),
        variable_arguments(variables),
        mounted + placed,
        set_here,
    );
    lemma_pairs_concat(
        mount_arguments(mounts@) + workdir_arguments(workdir) + variable_arguments(variables),
        seq!["--user"@, user],
        mounted + placed + set_here,
        seq![("--user"@, user)],
    );
    assert(words_of_pairs(given, pairs));
    let rest = seq![image@] + texts(command@);
    let behind = words.skip(1);
    assert(behind =~= seq!["--rm"@] + given + rest);
    let options = behind.skip(1);
    assert(options =~= given + rest);
    reveal_strlit("--rm");
    reveal_strlit("-v");
    reveal_strlit("-w");
    reveal_strlit("-e");
    reveal_strlit("--user");
    assert("--rm"@.len() == 4 && "-v"@.len() == 2 && "-w"@.len() == 2 && "-e"@.len() == 2
        && "--user"@.len() == 6);
    assert(!run_options().contains("--rm"@));
    assert forall|i: int| 0 <= i < pairs.len() implies run_options().contains(
        (#[trigger] pairs[i]).0,
    ) && options[2 * i] == pairs[i].0 && options[2 * i + 1] == pairs[i].1 by {
        assert(options[2 * i] == given[2 * i]);
        assert(options[2 * i + 1] == given[2 * i + 1]);
        if i < mounted.len() {
            assert(pairs[i] == mounted[i]);
        }
    }
    assert(options.skip(2 * pairs.len() as int) =~= rest);
    lemma_read_options(pairs, options, rest, run_flags(), run_options(), true);
    let read = read_words(behind, run_flags(), run_options(), true);
    assert(rest[0] == image@);
    assert(read.flags =~= seq!["--rm"@]);
    assert(read.options =~= pairs);
    assert(read.operands =~= rest);
    let m = mounts@.len() as int;
    assert forall|i: int| 0 <= i < m implies {
        let places = mounts@[i].source@ + ":"@ + mounts@[i].target@;
        &&& (#[trigger] read.options[i]).0 == "-v"@
        &&& mounts@[i].read_only ==> read.options[i].1 == places + ":ro"@
        &&& !mounts@[i].read_only ==> read.options[i].1 == places
    } by {
        assert(pairs[i] == mounted[i]);
    }
    let w = placed.len() as int;
    assert forall|i: int| 0 <= i < envs@.len() implies (#[trigger] envs@[i]).0@ + "="@ + envs@[i].1@
        == read.options[m + w + i].1 && read.options[m + w + i].0 == "-e"@ by {
        assert(pairs[m + w + i] == set_here[i]);
        assert(variables[i] == (envs@[i].0@, envs@[i].1@));
    }
}

/// Images are built only where the runtime can build, with the tag, from the
/// file, in the directory, and with Docker through Buildx, whose image is loaded.
/// A directory that is spelled like an option is left out.
pub proof fn law_an_image_is_built_as_declared(
    runtime: ContainerRuntime,
    asked: Option<CommandOutput>,
    tag: &str,
    directory: &str,
    file: &str,
    r: Result<ContainerCommand, ContainerError>,
)
    requires
        call_ensures(ContainerRuntime::build, (runtime, &asked, tag, directory, file), r),
        directory@.len() == 0 || directory@[0] != '-',
    ensures
        r is Ok <==> runtime@.0 is Podman || (asked matches Some(output) && output.success),
        r matches Ok(c) ==> {
            let told = runtime_words(runtime@.0, runtime@.1, c.command);
            let flags = set!["--load"@];
            let valued = set!["-t"@, "-f"@];
            &&& told matches Some(words) && {
                let read = read_words(words, flags, valued, false);
                &&& read.options == seq![("-t"@, tag@), ("-f"@, file@)]
                &&& if runtime@.0 is Docker {
                    &&& read.flags == seq!["--load"@]
                    &&& read.operands == seq!["buildx"@, "build"@, directory@]
                } else {
                    &&& read.flags.len() == 0
                    &&& read.operands == seq!["build"@, directory@]
                }
            }
            &&& c.streamed
        },
{
    if let Ok(c) = r {
        let flags = set!["--load"@];
        let valued = set!["-t"@, "-f"@];
        reveal_strlit("--load");
        reveal_strlit("-t");
        reveal_strlit("-f");
        reveal_strlit("build");
        reveal_strlit("buildx");
        assert("-t"@[0] == '-' && "-f"@[0] == '-' && "--load"@[0] == '-' && "build"@[0] == 'b'
            && "buildx"@[0] == 'b');
        assert("--load"@.len() == 6 && "-t"@.len() == 2 && "-f"@.len() == 2);
        assert(!flags.contains("build"@) && !valued.contains("build"@));
        assert(!flags.contains("buildx"@) && !valued.contains("buildx"@));
        assert(!flags.contains(directory@) && !valued.contains(directory@));
        assert(!valued.contains("--load"@));
        let pairs = seq![("-t"@, tag@), ("-f"@, file@)];
        let rest = seq![directory@];
        let options = seq!["-t"@, tag@, "-f"@, file@, directory@];
        assert(options.skip(4) =~= rest);
        lemma_read_options(pairs, options, rest, flags, valued, false);
        assert(rest.skip(1) =~= seq![]);
        assert(rest[0] == directory@);
        let none = read_words(rest.skip(1), flags, valued, false);
        assert(none.operands =~= seq![] && none.options =~= seq![] && none.flags =~= seq![]);
        let end = read_words(rest, flags, valued, false);
        assert(end.operands =~= rest && end.options =~= seq![] && end.flags =~= seq![]);
        let read = read_words(options, flags, valued, false);
        assert(read.operands =~= rest && read.options =~= pairs && read.flags =~= seq![]);
        match runtime@.0 {
            ContainerRuntimeKind::Docker => {
                let words = seq![
                    "buildx"@,
                    "build"@,
                    "--load"@,
                    "-t"@,
                    tag@,
                    "-f"@,
                    file@,
                    directory@,
                ];
                lemma_runtime_words(runtime, c.command, words);
                let a = words.skip(1);
                let b = a.skip(1);
                assert(b.skip(1) =~= options);
                assert(a[0] == "build"@ && b[0] == "--load"@);
                assert(read_words(b, flags, valued, false).flags =~= seq!["--load"@]);
                assert(read_words(a, flags, valued, false).operands =~= seq!["build"@, directory@]);
                assert(read_words(words, flags, valued, false).operands =~= seq![
                    "buildx"@,
                    "build"@,
                    directory@,
                ]);
            },
            ContainerRuntimeKind::Podman => {
                let words = seq!["build"@, "-t"@, tag@, "-f"@, file@, directory@];
                lemma_runtime_words(runtime, c.command, words);
                assert(words.skip(1) =~= options);
                assert(read_words(words, flags, valued, false).operands =~= seq![
                    "build"@,
                    directory@,
                ]);
            },
        }
    }
}

/// Images are inspected, saved, loaded, tagged, removed, pushed and pulled under
/// the names that are given, and a password goes to the runtime's input and not
/// into its words.
pub proof fn law_images_are_handled_by_name(
    runtime: ContainerRuntime,
    image: &str,
    other: &str,
    username: &str,
    inspected: CommandLine,
    saved: ContainerCommand,
    loaded: ContainerCommand,
    tagged: ContainerCommand,
    removed: ContainerCommand,
    pushed: ContainerCommand,
    pulled: ContainerCommand,
    password: &str,
    login: (ContainerCommand, String),
)
    requires
        call_ensures(ContainerRuntime::image_inspection, (runtime, image), inspected),
        call_ensures(ContainerRuntime::save, (runtime, image, other), saved),
        call_ensures(ContainerRuntime::load, (runtime, other), loaded),
        call_ensures(ContainerRuntime::tag, (runtime, image, other), tagged),
        call_ensures(ContainerRuntime::remove_image, (runtime, image), removed),
        call_ensures(ContainerRuntime::push, (runtime, image), pushed),
        call_ensures(ContainerRuntime::pull, (runtime, image), pulled),
        call_ensures(
            ContainerRuntime::login_password_stdin,
            (runtime, other, username, password),
            login,
        ),
    ensures
        runtime_words(runtime@.0, runtime@.1, inspected) == Some(
            seq!["image"@, "inspect"@, image@],
        ),
        runtime_words(runtime@.0, runtime@.1, saved.command) == Some(
            seq!["save"@, "-o"@, other@, image@],
        ),
        runtime_words(runtime@.0, runtime@.1, loaded.command) == Some(seq!["load"@, "-i"@, other@]),
        runtime_words(runtime@.0, runtime@.1, tagged.command) == Some(
            seq!["tag"@, image@, other@],
        ),
        runtime_words(runtime@.0, runtime@.1, removed.command) == Some(
            seq!["image"@, "rm"@, "-f"@, image@],
        ),
        runtime_words(runtime@.0, runtime@.1, pushed.command) == Some(seq!["push"@, image@]),
        runtime_words(runtime@.0, runtime@.1, pulled.command) == Some(seq!["pull"@, image@]),
        runtime_words(runtime@.0, runtime@.1, login.0.command) == Some(
            seq!["login"@, "-u"@, username@, "--password-stdin"@, other@],
        ),
        login.1@ == password@,
{
    lemma_runtime_words(runtime, inspected, seq!["image"@, "inspect"@, image@]);
    lemma_runtime_words(runtime, saved.command, seq!["save"@, "-o"@, other@, image@]);
    lemma_runtime_words(runtime, loaded.command, seq!["load"@, "-i"@, other@]);
    lemma_runtime_words(runtime, tagged.command, seq!["tag"@, image@, other@]);
    lemma_runtime_words(runtime, removed.command, seq!["image"@, "rm"@, "-f"@, image@]);
    lemma_runtime_words(runtime, pushed.command, seq!["push"@, image@]);
    lemma_runtime_words(runtime, pulled.command, seq!["pull"@, image@]);
    lemma_runtime_words(
        runtime,
        login.0.command,
        seq!["login"@, "-u"@, username@, "--password-stdin"@, other@],
    );
}

/// The runtime that is used is one that can be used; one without `sudo` is
/// preferred to one with it, and Docker to Podman. `sudo` is tried only where
/// that is allowed, and there is none only where none can be used. `usable` says
/// of Docker and Podman alone, and then of both with `sudo`, whether each can be.
pub proof fn law_the_preferred_usable_runtime_is_used(
    mode: DetectionMode,
    usable: Vec<bool>,
    r: Result<ContainerRuntime, ContainerError>,
)
    requires
        call_ensures(ContainerRuntime::detect_with_mode, (mode, &usable), r),
        usable@.len() == 4,
    ensures
        r matches Ok(runtime) ==> {
            let place: int = match runtime@ {
                (ContainerRuntimeKind::Docker, false) => 0,
                (ContainerRuntimeKind::Podman, false) => 1,
                (ContainerRuntimeKind::Docker, true) => 2,
                (ContainerRuntimeKind::Podman, true) => 3,
            };
            &&& usable@[place]
            &&& runtime@.1 ==> mode is UserOrSudo
            &&& forall|k: int| 0 <= k < place ==> !#[trigger] usable@[k]
        },
        r is Err <==> !usable@[0] && !usable@[1] && (mode is UserOnly || (!usable@[2]
            && !usable@[3])),
{
    match r {
        Ok(runtime) => {
            let i = choose|i: int|
                #[trigger] answers(mode, usable@, i) && runtime@ == candidates(mode)[i];
            assert(answers(mode, usable@, i));
        },
        Err(_) => {
            let list = usable@;
            if list[0] {
                assert(answers(mode, list, 0));
            } else if list[1] {
                assert(answers(mode, list, 1));
            } else if mode is UserOrSudo && list[2] {
                assert(answers(mode, list, 2));
            } else if mode is UserOrSudo && list[3] {
                assert(answers(mode, list, 3));
            }
        },
    }
}

} // verus!
