//! Building kernels for machines.

use vstd::prelude::*;
use vstd::string::*;

use crate::command::{given, Invocation, InvocationView};
use crate::error::answer;
use crate::path::{join, joined};
use crate::procedure::{must, no_steps, plan, then_must, Step, StepView};
use crate::text::{dec, decimal, decimal_signed, dec_signed, same};

verus! {

/// The version of the kernel that is built.
pub const KERNEL_TAG: &'static str = "microvm-kernel-6.1.163-20.299.amzn2023";

/// Where the source of the kernel comes from.
pub const KERNEL_REPO: &'static str = "https://github.com/amazonlinux/linux.git";

/// The image of the container that kernels are built in.
pub const BUILDER_IMAGE: &'static str = "ember-kernel-builder";

/// What depends on the processor of the host.
#[derive(Debug, PartialEq)]
pub struct TargetArch {
    /// What the hypervisor calls the processor.
    pub firecracker_arch: String,
    /// What `make` is told of the processor.
    pub cross: String,
    /// What `make` is to build.
    pub make_target: String,
    /// Where `make` puts it.
    pub output_rel: String,
}

/// A [`TargetArch`], its strings taken by their texts.
#[verifier::ext_equal]
pub struct ArchView {
    pub firecracker_arch: Seq<char>,
    pub cross: Seq<char>,
    pub make_target: Seq<char>,
    pub output_rel: Seq<char>,
}

impl View for TargetArch {
    type V = ArchView;

    open spec fn view(&self) -> ArchView {
        ArchView {
            firecracker_arch: self.firecracker_arch@,
            cross: self.cross@,
            make_target: self.make_target@,
            output_rel: self.output_rel@,
        }
    }
}

/// What depends on the processor of the host, or the error for one that is not
/// supported.
pub open spec fn arch_of(host: Seq<char>) -> Result<ArchView, Seq<char>> {
    if host == "x86_64"@ {
        Ok(
            ArchView {
                firecracker_arch: "x86_64"@,
                cross: ""@,
                make_target: "vmlinux"@,
                output_rel: "vmlinux"@,
            },
        )
    } else if host == "aarch64"@ {
        Ok(
            ArchView {
                firecracker_arch: "aarch64"@,
                cross: "ARCH=arm64 CROSS_COMPILE=aarch64-linux-gnu- "@,
                make_target: "Image"@,
                output_rel: "arch/arm64/boot/Image"@,
            },
        )
    } else {
        Err(
            "unsupported host architecture '"@ + host
                + "' for kernel build (expected x86_64 or aarch64)"@,
        )
    }
}

/// What depends on the processor of the host.
pub fn target_arch(host: &str) -> (r: Result<TargetArch, String>)
    ensures
        match r {
            Ok(a) => arch_of(host@) == Ok::<ArchView, Seq<char>>(a@),
            Err(e) => arch_of(host@) == Err::<ArchView, Seq<char>>(e@),
        },
{
    if same(host, "x86_64") {
        Ok(
            TargetArch {
                firecracker_arch: "x86_64".to_owned(),
                cross: "".to_owned(),
                make_target: "vmlinux".to_owned(),
                output_rel: "vmlinux".to_owned(),
            },
        )
    } else if same(host, "aarch64") {
        Ok(
            TargetArch {
                firecracker_arch: "aarch64".to_owned(),
                cross: "ARCH=arm64 CROSS_COMPILE=aarch64-linux-gnu- ".to_owned(),
                make_target: "Image".to_owned(),
                output_rel: "arch/arm64/boot/Image".to_owned(),
            },
        )
    } else {
        Err(
            "unsupported host architecture '".to_owned().concat(host).concat(
                "' for kernel build (expected x86_64 or aarch64)",
            ),
        )
    }
}

/// What the hypervisor calls the processor of the host.
pub fn host_config_arch(host: &str) -> (r: Result<String, String>)
    ensures
        match r {
            Ok(a) => arch_of(host@) is Ok && a@ == (arch_of(host@)->Ok_0).firecracker_arch,
            Err(e) => arch_of(host@) == Err::<ArchView, Seq<char>>(e@),
        },
{
    match target_arch(host) {
        Ok(a) => Ok(a.firecracker_arch),
        Err(e) => Err(e),
    }
}

/// The tool that runs containers, given which are there.
pub fn detect_container_tool(docker: bool, podman: bool) -> (r: Result<String, String>)
    ensures
        match r {
            Ok(t) => if docker {
                t@ == "docker"@
            } else {
                podman && t@ == "podman"@
            },
            Err(e) => !docker && !podman && e@
                == "neither 'docker' nor 'podman' is installed.\nInstall one to build kernels."@,
        },
{
    if docker {
        Ok("docker".to_owned())
    } else if podman {
        Ok("podman".to_owned())
    } else {
        Err(
            "neither 'docker' nor 'podman' is installed.\nInstall one to build kernels.".to_owned(),
        )
    }
}

/// What a container is told of the processor.
pub open spec fn platform_of(arch: ArchView) -> Seq<char> {
    "linux/"@ + arch.firecracker_arch
}

/// The call that makes the image of the container.
pub open spec fn making_the_image(tool: Seq<char>, arch: ArchView) -> InvocationView {
    InvocationView {
        program: tool,
        args: seq!["build"@, "--platform"@, platform_of(arch), "-t"@, BUILDER_IMAGE@, "."@],
        label: tool + " build"@,
        start_label: tool + " build"@,
    }
}

/// The call that makes the image of the container.
pub fn image_call(tool: &str, arch: &TargetArch) -> (r: Invocation)
    ensures
        r@ == making_the_image(tool@, arch@),
{
    let platform = "linux/".to_owned().concat(arch.firecracker_arch.as_str());
    let label = tool.to_owned().concat(" build");
    Invocation::new(tool, label.as_str()).arg("build").arg("--platform").arg(
        platform.as_str(),
    ).arg("-t").arg(BUILDER_IMAGE).arg(".")
}

/// Where the configuration of the kernel comes from.
pub open spec fn base_config_url(arch: ArchView) -> Seq<char> {
    "https://raw.githubusercontent.com/firecracker-microvm/firecracker/main/resources/guest_configs/microvm-kernel-ci-"@
        + arch.firecracker_arch + "-6.1.config"@
}

/// What runs in the container.
pub open spec fn script_of(arch: ArchView, jobs: nat) -> Seq<char> {
    "set -e\necho '==> Downloading Firecracker CI kernel config ("@ + arch.firecracker_arch
        + ")...'\ncurl -fSL -o base.config '"@ + base_config_url(arch)
        + "'\necho '==> Cloning kernel source (shallow, tag "@ + KERNEL_TAG@
        + ")...'\ngit clone --depth 1 --branch '"@ + KERNEL_TAG@ + "' '"@ + KERNEL_REPO@
        + "' linux\necho '==> Merging base config + fragments...'\ncd linux\nKCONFIG_CONFIG=.config scripts/kconfig/merge_config.sh -m ../base.config ../docker.fragment ../avf.fragment\nsed -i 's/^CONFIG_BUILD_SALT=.*/CONFIG_BUILD_SALT=\"\"/' .config\nmake "@
        + arch.cross + "olddefconfig\necho '==> Building "@ + arch.make_target + " ("@ + dec(jobs)
        + " jobs)...'\nmake -j"@ + dec(jobs) + " "@ + arch.cross + arch.make_target
        + "\necho '==> Done.'"@
}

/// What runs in the container.
pub fn build_script(arch: &TargetArch, jobs: usize) -> (r: String)
    ensures
        r@ == script_of(arch@, jobs as nat),
{
    let url =
        "https://raw.githubusercontent.com/firecracker-microvm/firecracker/main/resources/guest_configs/microvm-kernel-ci-".to_owned().concat(
    arch.firecracker_arch.as_str()).concat("-6.1.config");
    let n = decimal(jobs as u64);
    "set -e\necho '==> Downloading Firecracker CI kernel config (".to_owned().concat(
        arch.firecracker_arch.as_str(),
    ).concat(")...'\ncurl -fSL -o base.config '").concat(url.as_str()).concat(
        "'\necho '==> Cloning kernel source (shallow, tag ",
    ).concat(KERNEL_TAG).concat(")...'\ngit clone --depth 1 --branch '").concat(
        KERNEL_TAG,
    ).concat("' '").concat(KERNEL_REPO).concat(
        "' linux\necho '==> Merging base config + fragments...'\ncd linux\nKCONFIG_CONFIG=.config scripts/kconfig/merge_config.sh -m ../base.config ../docker.fragment ../avf.fragment\nsed -i 's/^CONFIG_BUILD_SALT=.*/CONFIG_BUILD_SALT=\"\"/' .config\nmake ",
    ).concat(arch.cross.as_str()).concat("olddefconfig\necho '==> Building ").concat(
        arch.make_target.as_str(),
    ).concat(" (").concat(n.as_str()).concat(" jobs)...'\nmake -j").concat(n.as_str()).concat(
        " ",
    ).concat(arch.cross.as_str()).concat(arch.make_target.as_str()).concat(
        "\necho '==> Done.'",
    )
}

/// The call that builds a kernel in the container, as the user who asked for it.
pub open spec fn making_the_kernel(
    tool: Seq<char>,
    arch: ArchView,
    uid: nat,
    gid: nat,
    work: Seq<char>,
    jobs: nat,
) -> InvocationView {
    InvocationView {
        program: tool,
        args: seq![
            "run"@,
            "--rm"@,
            "--platform"@,
            platform_of(arch),
            "--user"@,
            dec(uid) + ":"@ + dec(gid),
            "-v"@,
            work + ":/build"@,
            "-w"@,
            "/build"@,
            BUILDER_IMAGE@,
            "sh"@,
            "-c"@,
            script_of(arch, jobs),
        ],
        label: tool + " run"@,
        start_label: tool + " run"@,
    }
}

/// The call that builds a kernel in the container, as the user who asked for it.
pub fn kernel_call(
    tool: &str,
    arch: &TargetArch,
    uid: u32,
    gid: u32,
    work: &str,
    jobs: usize,
) -> (r: Invocation)
    ensures
        r@ == making_the_kernel(tool@, arch@, uid as nat, gid as nat, work@, jobs as nat),
{
    let platform = "linux/".to_owned().concat(arch.firecracker_arch.as_str());
    let u = decimal(uid as u64);
    let g = decimal(gid as u64);
    let user = u.concat(":").concat(g.as_str());
    let volume = work.to_owned().concat(":/build");
    let script = build_script(arch, jobs);
    let label = tool.to_owned().concat(" run");
    Invocation::new(tool, label.as_str()).arg("run").arg("--rm").arg("--platform").arg(
        platform.as_str(),
    ).arg("--user").arg(user.as_str()).arg("-v").arg(volume.as_str()).arg("-w").arg("/build").arg(
        BUILDER_IMAGE,
    ).arg("sh").arg("-c").arg(script.as_str())
}

/// Whether the container built the kernel, and why not: it has to end well, and
/// to leave the kernel where it belongs.
pub fn built(exit_code: Option<i32>, path: &str, there: bool) -> (r: Result<(), String>)
    ensures
        answer(r) == (if exit_code != Some(0i32) {
            Err::<(), Seq<char>>(
                "kernel build failed (exit code "@ + dec_signed(
                    match exit_code {
                        Some(c) => c as int,
                        None => -1int,
                    },
                ) + ")"@,
            )
        } else if !there {
            Err("build completed but vmlinux not found at "@ + path@)
        } else {
            Ok(())
        }),
{
    let code: i32 = match exit_code {
        Some(c) => c,
        None => -1,
    };
    if code != 0 {
        let n = decimal_signed(code);
        return Err(
            "kernel build failed (exit code ".to_owned().concat(n.as_str()).concat(")"),
        );
    }
    if !there {
        return Err("build completed but vmlinux not found at ".to_owned().concat(path));
    }
    Ok(())
}

/// What a file says that the container is made from.
#[derive(Debug, Clone, Copy, PartialEq, Eq, Structural)]
pub enum SourceFile {
    /// How the container is made.
    Dockerfile,
    /// What kernels need for containers.
    DockerFragment,
    /// What kernels need on macOS.
    AvfFragment,
}

impl SourceFile {
    /// The name of the file.
    pub open spec fn named(self) -> Seq<char> {
        match self {
            SourceFile::Dockerfile => "Dockerfile"@,
            SourceFile::DockerFragment => "docker.fragment"@,
            SourceFile::AvfFragment => "avf.fragment"@,
        }
    }

    /// The name of the file.
    pub fn name(self) -> (r: &'static str)
        ensures
            r@ == self.named(),
    {
        match self {
            SourceFile::Dockerfile => "Dockerfile",
            SourceFile::DockerFragment => "docker.fragment",
            SourceFile::AvfFragment => "avf.fragment",
        }
    }
}

/// Something to do to build a kernel.
#[derive(Debug, PartialEq)]
pub enum KernelAction {
    /// Tell the user.
    Say(String),
    /// Write a file at a place.
    Write(SourceFile, String),
    /// Make the image of the container with a call from a directory, with
    /// `DOCKER_BUILDKIT` set to `1`.
    MakeImage(Invocation, String),
    /// Build the kernel with a call.
    MakeKernel(Invocation),
    /// See that the kernel is there.
    LookFor(String),
    /// Make a directory and those above it.
    MakeDir(String),
    /// Copy a file to a place.
    Copy(String, String),
}

/// A [`KernelAction`], its strings taken by their texts.
pub enum KernelView {
    Say(Seq<char>),
    Write(SourceFile, Seq<char>),
    MakeImage(InvocationView, Seq<char>),
    MakeKernel(InvocationView),
    LookFor(Seq<char>),
    MakeDir(Seq<char>),
    Copy(Seq<char>, Seq<char>),
}

impl View for KernelAction {
    type V = KernelView;

    open spec fn view(&self) -> KernelView {
        match self {
            KernelAction::Say(t) => KernelView::Say(t@),
            KernelAction::Write(f, p) => KernelView::Write(*f, p@),
            KernelAction::MakeImage(c, d) => KernelView::MakeImage(c@, d@),
            KernelAction::MakeKernel(c) => KernelView::MakeKernel(c@),
            KernelAction::LookFor(p) => KernelView::LookFor(p@),
            KernelAction::MakeDir(d) => KernelView::MakeDir(d@),
            KernelAction::Copy(a, b) => KernelView::Copy(a@, b@),
        }
    }
}

/// Where the container leaves the kernel.
pub open spec fn kernel_at(work: Seq<char>, arch: ArchView) -> Seq<char> {
    joined(joined(work, "linux"@), arch.output_rel)
}

/// How a kernel is built in the directory `work` and put among the others, under
/// the name `file`.
pub open spec fn building(
    tool: Seq<char>,
    arch: ArchView,
    uid: nat,
    gid: nat,
    work: Seq<char>,
    jobs: nat,
    kernel_dir: Seq<char>,
    file: Seq<char>,
) -> Seq<StepView<KernelView>> {
    seq![
        must(KernelView::Say("Build directory: "@ + work)),
        must(KernelView::Write(SourceFile::Dockerfile, joined(work, "Dockerfile"@))),
        must(KernelView::Write(SourceFile::DockerFragment, joined(work, "docker.fragment"@))),
        must(KernelView::Write(SourceFile::AvfFragment, joined(work, "avf.fragment"@))),
        must(
            KernelView::Say(
                "Building container image ("@ + BUILDER_IMAGE@ + ", "@ + platform_of(arch)
                    + ")..."@,
            ),
        ),
        must(KernelView::MakeImage(making_the_image(tool, arch), work)),
        must(KernelView::Say("Starting kernel build (this may take 10-30 minutes)..."@)),
        must(
            KernelView::MakeKernel(
                making_the_kernel(tool, arch, uid, gid, work, jobs),
            ),
        ),
        must(KernelView::LookFor(kernel_at(work, arch))),
        must(KernelView::MakeDir(kernel_dir)),
        must(KernelView::Copy(kernel_at(work, arch), joined(kernel_dir, file))),
        must(KernelView::Say("Kernel installed to "@ + joined(kernel_dir, file))),
    ]
}

/// How a kernel is built in the directory `work` and put among the others, under
/// the name `file`; also says where it is then.
pub fn build(
    tool: &str,
    arch: &TargetArch,
    uid: u32,
    gid: u32,
    work: &str,
    jobs: usize,
    kernel_dir: &str,
    file: &str,
) -> (r: (Vec<Step<KernelAction>>, String))
    ensures
        plan(r.0@) == building(
            tool@,
            arch@,
            uid as nat,
            gid as nat,
            work@,
            jobs as nat,
            kernel_dir@,
            file@,
        ),
        r.1@ == joined(kernel_dir@, file@),
{
    let dest = join(kernel_dir, file);
    let linux = join(work, "linux");
    let at = join(linux.as_str(), arch.output_rel.as_str());
    let platform = "linux/".to_owned().concat(arch.firecracker_arch.as_str());
    let steps = then_must(
        no_steps(),
        KernelAction::Say("Build directory: ".to_owned().concat(work)),
    );
    let steps = then_must(
        steps,
        KernelAction::Write(SourceFile::Dockerfile, join(work, SourceFile::Dockerfile.name())),
    );
    let steps = then_must(
        steps,
        KernelAction::Write(
            SourceFile::DockerFragment,
            join(work, SourceFile::DockerFragment.name()),
        ),
    );
    let steps = then_must(
        steps,
        KernelAction::Write(SourceFile::AvfFragment, join(work, SourceFile::AvfFragment.name())),
    );
    let t = "Building container image (".to_owned().concat(BUILDER_IMAGE).concat(", ").concat(
        platform.as_str(),
    ).concat(")...");
    let steps = then_must(steps, KernelAction::Say(t));
    let steps = then_must(steps, KernelAction::MakeImage(image_call(tool, arch), work.to_owned()));
    let steps = then_must(
        steps,
        KernelAction::Say("Starting kernel build (this may take 10-30 minutes)...".to_owned()),
    );
    let steps = then_must(
        steps,
        KernelAction::MakeKernel(kernel_call(tool, arch, uid, gid, work, jobs)),
    );
    let steps = then_must(steps, KernelAction::LookFor(at.clone()));
    let steps = then_must(steps, KernelAction::MakeDir(kernel_dir.to_owned()));
    let steps = then_must(steps, KernelAction::Copy(at, dest.clone()));
    let steps = then_must(
        steps,
        KernelAction::Say("Kernel installed to ".to_owned().concat(dest.as_str())),
    );
    (steps, dest)
}

/// What the user is told when something fails that ought to be done to build a
/// kernel: `tool` runs the containers, and `said` is what it wrote when it could
/// be run and failed. `None` where something else says why.
pub open spec fn failure_of(
    action: KernelView,
    tool: Seq<char>,
    said: Option<Seq<char>>,
) -> Option<Seq<char>> {
    match action {
        KernelView::Say(_) => None,
        KernelView::Write(f, _) => Some("failed to write "@ + f.named()),
        KernelView::MakeImage(_, _) => match said {
            Some(t) => Some(tool + " build failed:\n"@ + t),
            None => Some("failed to execute '"@ + tool + " build'"@),
        },
        KernelView::MakeKernel(_) => match said {
            Some(_) => None,
            None => Some("failed to execute '"@ + tool + " run'"@),
        },
        KernelView::LookFor(_) => None,
        KernelView::MakeDir(d) => Some("failed to create "@ + d),
        KernelView::Copy(a, b) => Some("failed to copy vmlinux from "@ + a + " to "@ + b),
    }
}

/// What the user is told when something fails that ought to be done to build a
/// kernel. Of a kernel that was not built, [`built`] says why.
pub fn failure(action: &KernelAction, tool: &str, said: Option<&str>) -> (r: Option<String>)
    ensures
        match r {
            Some(t) => failure_of(
                action@,
                tool@,
                match said {
                    Some(x) => Some(x@),
                    None => None,
                },
            ) == Some(t@),
            None => failure_of(
                action@,
                tool@,
                match said {
                    Some(x) => Some(x@),
                    None => None,
                },
            ) is None,
        },
{
    match action {
        KernelAction::Say(_) => None,
        KernelAction::Write(f, _) => Some("failed to write ".to_owned().concat(f.name())),
        KernelAction::MakeImage(_, _) => match said {
            Some(t) => Some(tool.to_owned().concat(" build failed:\n").concat(t)),
            None => Some("failed to execute '".to_owned().concat(tool).concat(" build'")),
        },
        KernelAction::MakeKernel(_) => match said {
            Some(_) => None,
            None => Some("failed to execute '".to_owned().concat(tool).concat(" run'")),
        },
        KernelAction::LookFor(_) => None,
        KernelAction::MakeDir(d) => Some("failed to create ".to_owned().concat(d.as_str())),
        KernelAction::Copy(a, b) => Some(
            "failed to copy vmlinux from ".to_owned().concat(a.as_str()).concat(" to ").concat(
                b.as_str(),
            ),
        ),
    }
}

/// What there is while a kernel is built in a directory for a processor: the files that
/// were written, whether the image of the container is there, whether the kernel was built
/// and found, the directories that were made, and where the kernel was put.
pub struct Bench {
    pub written: Set<SourceFile>,
    pub image: bool,
    pub built: bool,
    pub found: bool,
    pub dirs: Set<Seq<char>>,
    pub installed: Option<Seq<char>>,
}

/// What an action makes of it; `None` where it cannot be done. An image is made from the
/// directory that says how, a kernel in a container of that image that has the directory,
/// and a kernel is put into a directory that is there once it was found.
pub open spec fn effect(w: Bench, work: Seq<char>, arch: ArchView, a: KernelView) -> Option<Bench> {
    match a {
        KernelView::Say(_) => Some(w),
        KernelView::Write(f, p) => if p == joined(work, f.named()) {
            Some(Bench { written: w.written.insert(f), ..w })
        } else {
            None
        },
        KernelView::MakeImage(call, dir) => if dir == work && w.written.contains(
            SourceFile::Dockerfile,
        ) && call.args.len() > 0 && call.args[0] == "build"@ && call.args.last() == "."@ && given(
            call.args,
            "-t"@,
            "ember-kernel-builder"@,
        ) && given(call.args, "--platform"@, "linux/"@ + arch.firecracker_arch) {
            Some(Bench { image: true, ..w })
        } else {
            None
        },
        KernelView::MakeKernel(call) => if w.image && w.written.contains(SourceFile::DockerFragment)
            && w.written.contains(SourceFile::AvfFragment) && call.args.len() > 0 && call.args[0]
            == "run"@ && given(call.args, "-v"@, work + ":/build"@) && given(
            call.args,
            "-w"@,
            "/build"@,
        ) && given(call.args, "--platform"@, "linux/"@ + arch.firecracker_arch) && given(
            call.args,
            "ember-kernel-builder"@,
            "sh"@,
        ) {
            Some(Bench { built: true, ..w })
        } else {
            None
        },
        KernelView::LookFor(p) => if w.built && p == joined(
            joined(work, "linux"@),
            arch.output_rel,
        ) {
            Some(Bench { found: true, ..w })
        } else {
            None
        },
        KernelView::MakeDir(d) => Some(Bench { dirs: w.dirs.insert(d), ..w }),
        KernelView::Copy(from, to) => if w.found && from == joined(
            joined(work, "linux"@),
            arch.output_rel,
        ) {
            Some(Bench { installed: Some(to), ..w })
        } else {
            None
        },
    }
}

/// What the first `n` steps come to when each of them succeeds.
pub open spec fn run(
    w: Bench,
    work: Seq<char>,
    arch: ArchView,
    p: Seq<StepView<KernelView>>,
    n: int,
) -> Option<Bench>
    decreases n,
{
    if n <= 0 {
        Some(w)
    } else {
        match run(w, work, arch, p, n - 1) {
            Some(x) => effect(x, work, arch, p[n - 1].action),
            None => None,
        }
    }
}

/// A kernel that was built lies among the others under its name. It was built in a container
/// of the image that was made for it, for the processor that was asked for and from all
/// that it is built from, and was found before it was put there; and nothing of it may
/// fail.
pub proof fn law_a_built_kernel_is_installed(
    tool: Seq<char>,
    arch: ArchView,
    uid: nat,
    gid: nat,
    work: Seq<char>,
    jobs: nat,
    kernel_dir: Seq<char>,
    file: Seq<char>,
)
    ensures
        ({
            let p = building(tool, arch, uid, gid, work, jobs, kernel_dir, file);
            let none = Bench {
                written: Set::empty(),
                image: false,
                built: false,
                found: false,
                dirs: Set::empty(),
                installed: None,
            };
            let done = run(none, work, arch, p, p.len() as int);
            &&& done is Some
            &&& done->0.installed == Some(joined(kernel_dir, file))
            &&& done->0.dirs.contains(kernel_dir)
            &&& forall|i: int| 0 <= i < p.len() ==> !(#[trigger] p[i]).tolerate
            &&& making_the_image(tool, arch).program == tool
            &&& making_the_kernel(tool, arch, uid, gid, work, jobs).program == tool
            &&& given(
                making_the_kernel(tool, arch, uid, gid, work, jobs).args,
                "--user"@,
                dec(uid) + ":"@ + dec(gid),
            )
        }),
{
    let p = building(tool, arch, uid, gid, work, jobs, kernel_dir, file);
    let w0 = Bench {
        written: Set::empty(),
        image: false,
        built: false,
        found: false,
        dirs: Set::empty(),
        installed: None,
    };
    let a = making_the_image(tool, arch).args;
    assert(a[0] == "build"@ && a[1] == "--platform"@ && a[3] == "-t"@ && a[5] == "."@);
    let b = making_the_kernel(tool, arch, uid, gid, work, jobs).args;
    assert(b[0] == "run"@ && b[2] == "--platform"@ && b[4] == "--user"@ && b[6] == "-v"@ && b[8]
        == "-w"@ && b[10] == "ember-kernel-builder"@ && b[11] == "sh"@);
    let w2 = Bench { written: w0.written.insert(SourceFile::Dockerfile), ..w0 };
    let w3 = Bench { written: w2.written.insert(SourceFile::DockerFragment), ..w2 };
    let w4 = Bench { written: w3.written.insert(SourceFile::AvfFragment), ..w3 };
    let w6 = Bench { image: true, ..w4 };
    let w8 = Bench { built: true, ..w6 };
    let w9 = Bench { found: true, ..w8 };
    let w10 = Bench { dirs: w9.dirs.insert(kernel_dir), ..w9 };
    let w11 = Bench { installed: Some(joined(kernel_dir, file)), ..w10 };
    assert(run(w0, work, arch, p, 0) == Some(w0));
    assert(run(w0, work, arch, p, 1) == Some(w0));
    assert(run(w0, work, arch, p, 2) == Some(w2));
    assert(run(w0, work, arch, p, 3) == Some(w3));
    assert(run(w0, work, arch, p, 4) == Some(w4));
    assert(run(w0, work, arch, p, 5) == Some(w4));
    assert(run(w0, work, arch, p, 6) == Some(w6));
    assert(run(w0, work, arch, p, 7) == Some(w6));
    assert(run(w0, work, arch, p, 8) == Some(w8));
    assert(run(w0, work, arch, p, 9) == Some(w9));
    assert(run(w0, work, arch, p, 10) == Some(w10));
    assert(run(w0, work, arch, p, 11) == Some(w11));
    assert(run(w0, work, arch, p, 12) == Some(w11));
}

} // verus!
