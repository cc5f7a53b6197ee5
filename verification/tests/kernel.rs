//! Kernels that are built and listed.

use ember::cli::kernel::{
    confirm, go_on, jobs, list, question, ready_text, BuildArgs, KernelFile, KernelNames,
};
use ember::kernel::{
    build, build_script, built, detect_container_tool, failure, host_config_arch, target_arch,
    KernelAction, SourceFile,
};

#[test]
fn the_processor_decides() {
    let arm = target_arch("aarch64").unwrap();
    assert_eq!(arm.make_target, "Image");
    assert!(build_script(&arm, 4).contains("CROSS_COMPILE=aarch64-linux-gnu-"));
    assert_eq!(target_arch("x86_64").unwrap().output_rel, "vmlinux");
    assert!(target_arch("riscv64").unwrap_err().contains("riscv64"));
    assert!(host_config_arch("riscv64").is_err());
}

#[test]
fn a_tool_for_containers_is_needed() {
    assert_eq!(detect_container_tool(true, true).unwrap(), "docker");
    assert_eq!(detect_container_tool(false, true).unwrap(), "podman");
    assert!(detect_container_tool(false, false).is_err());
    assert!(built(Some(0), "/k", true).is_ok());
    assert!(built(Some(1), "/k", true).is_err());
    assert!(built(Some(0), "/k", false).is_err());
}

#[test]
fn only_yes_is_yes() {
    assert!(confirm(Some("y\n")));
    assert!(confirm(Some(" YES ")));
    assert!(!confirm(Some("")));
    assert!(!confirm(Some("no")));
    assert!(!confirm(None));
    let args = BuildArgs { jobs: Some(3), yes: true };
    assert_eq!(jobs(&args, Some(8)), 3);
    let args = BuildArgs { jobs: None, yes: true };
    assert_eq!(jobs(&args, Some(8)), 8);
}

#[test]
fn kernels_are_listed_in_order() {
    let file = |name: &str, is_file: bool| KernelFile {
        name: name.to_string(),
        len: 1024,
        is_file,
    };
    let names = KernelNames {
        stock: "vmlinux".to_string(),
        docker: "vmlinux-docker".to_string(),
        default: "vmlinux-docker".to_string(),
    };
    let files = vec![
        file("zeta", true),
        file("vmlinux-docker", true),
        file("modules", false),
        file("vmlinux", true),
    ];
    assert_eq!(
        list("/k", Some(&files), &names),
        [
            "vmlinux  1 KiB (stock)",
            "vmlinux-docker  1 KiB (docker) [default]",
            "zeta  1 KiB",
        ]
    );
    assert_eq!(list("/k", Some(&vec![file("d", false)]), &names), ["No kernels found in /k"]);
    assert_eq!(list("/k", None, &names), ["No kernels directory found at /k"]);
}

#[test]
fn a_kernel_is_built_and_installed() {
    let arch = target_arch("aarch64").unwrap();
    let (steps, dest) = build("podman", &arch, 1000, 100, "/tmp/w", 8, "/s/kernels", "vmlinux-docker");
    assert_eq!(dest, "/s/kernels/vmlinux-docker");
    assert_eq!(steps.len(), 12);
    assert!(steps.iter().all(|s| !s.tolerate && s.undo.is_empty()));
    assert_eq!(
        steps[4].action,
        KernelAction::Say("Building container image (ember-kernel-builder, linux/aarch64)...".to_string())
    );
    let KernelAction::MakeKernel(call) = &steps[7].action else {
        panic!("{:?}", steps[7].action);
    };
    assert_eq!(call.program, "podman");
    assert!(call.args.contains(&"1000:100".to_string()));
    assert!(call.args.contains(&"/tmp/w:/build".to_string()));
    assert_eq!(
        steps[10].action,
        KernelAction::Copy(
            "/tmp/w/linux/arch/arm64/boot/Image".to_string(),
            "/s/kernels/vmlinux-docker".to_string()
        )
    );
    assert_eq!(
        failure(&steps[5].action, "podman", Some("no space")).unwrap(),
        "podman build failed:\nno space"
    );
    assert_eq!(
        failure(&steps[7].action, "podman", None).unwrap(),
        "failed to execute 'podman run'"
    );
    assert_eq!(
        failure(
            &KernelAction::Write(SourceFile::AvfFragment, "/tmp/w/avf.fragment".to_string()),
            "podman",
            None
        )
        .unwrap(),
        "failed to write avf.fragment"
    );
}

#[test]
fn the_user_is_asked_first() {
    let args = |yes: bool| BuildArgs { jobs: None, yes };
    assert_eq!(question(&args(true), "docker", 4), None);
    let asked = question(&args(false), "docker", 4).unwrap();
    assert!(asked.contains("make -j4"));
    assert!(asked.ends_with("minutes.\n\nProceed? [y/N] "));
    assert_eq!(go_on(&args(true), None), None);
    assert_eq!(go_on(&args(false), Some("Yes\n")), None);
    assert_eq!(go_on(&args(false), Some("n")), Some("Aborted.".to_string()));
    assert!(ready_text("/k/v").ends_with("\nInstalled at: /k/v"));
}
