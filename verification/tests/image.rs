//! Images that are pulled, built and deleted.

use ember::cli::image::{
    build, delete, delete_entry, delete_steps, find, inspect, list, not_found, pick, pull, pulled_text,
    resolve_local_name, store_built, store_pulled, BuildArgs, DeleteArgs, ImageAction, KeyProbe, VmProbe,
};
use ember::config::{GlobalConfig, StorageKind};
use ember::image::ImageEntry;
use ember::vm::VmMetadata;
use ember::zfs::storage::LinuxStorage;

fn entry(reference: &str, local: &str) -> ImageEntry {
    ImageEntry {
        reference: reference.to_string(),
        local_name: local.to_string(),
        disk_path: format!("/dev/zvol/tank/{local}"),
        size_mib: 64,
        pulled_at: "2026-01-01".to_string(),
        thin_id: None,
    }
}

#[test]
fn images_go_by_both_names() {
    let images = vec![
        entry("docker.io/library/alpine:latest", "library-alpine-latest"),
        entry("local/web", "web"),
    ];
    assert_eq!(find(&images, "web"), Some(1));
    assert_eq!(find(&images, "nope"), None);
    assert_eq!(resolve_local_name(&images, "web", "library-web-latest").unwrap(), "web");
    assert_eq!(
        resolve_local_name(&images, "alpine", "library-alpine-latest").unwrap(),
        "library-alpine-latest"
    );
    assert!(resolve_local_name(&images, "nope", "library-nope-latest").is_err());
    assert!(list(&images).len() > images.len());
    assert!(inspect(&images[1]).iter().any(|l| l.contains("local/web")));
}

fn config() -> GlobalConfig {
    GlobalConfig {
        storage_backend: StorageKind::Zfs,
        pool: "tank".to_string(),
        dataset: "ember".to_string(),
        kernel_path: None,
        wan_iface: None,
        state_dir: "/state".to_string(),
        instance_id: "a3f4".to_string(),
        ip_subnet: "10.100.0.0/16".to_string(),
        storage_path: None,
        dm_thin_block_size: None,
        dm_thin_mode: None,
        vdo: None,
        cpu_weight: None,
    }
}

#[test]
fn images_are_picked_by_the_first_that_fits() {
    let images = vec![entry("docker.io/web", "web"), entry("other", "web"), entry("x", "y")];
    assert_eq!(pick(&images, "y", "library-y-latest"), Ok(2));
    assert_eq!(pick(&images, "web", "library-web-latest"), Ok(0));
    assert_eq!(pick(&images, "z", "y"), Ok(2));
    let told = pick(&images, "z", "library-z-latest").unwrap_err();
    assert!(told.starts_with("image 'z' not found locally\n"), "{told}");
    assert!(told.ends_with("or 'ember image pull z' to pull it"), "{told}");
}

#[test]
fn an_image_is_stored_where_machines_are_cloned_from() {
    let volume = "tank/ember/images/library-alpine-latest";
    let steps = store_pulled(&config(), "alpine:latest", "library-alpine-latest", 64, "today");
    assert_eq!(steps[1].action, ImageAction::CreateFilesystem(64));
    assert_eq!(steps[2].action, ImageAction::Say(format!("  Creating zvol {volume}...")));
    assert_eq!(steps[3].action, ImageAction::CreateVolume(volume.to_string(), 64));
    assert_eq!(steps[5].action, ImageAction::WriteVolume(volume.to_string()));
    let kept = ImageEntry {
        reference: "alpine:latest".to_string(),
        local_name: "library-alpine-latest".to_string(),
        disk_path: volume.to_string(),
        size_mib: 64,
        pulled_at: "today".to_string(),
        thin_id: None,
    };
    assert_eq!(steps[6].action, ImageAction::SaveEntry(kept));
    assert_eq!(
        steps[7].action,
        ImageAction::Say(
            "Image 'alpine:latest' pulled successfully as 'library-alpine-latest'.".to_string()
        )
    );
    let storage = LinuxStorage::new(&config());
    let (_, path) = storage.create_image_volume("library-alpine-latest", 64);
    assert_eq!(path, volume);
    let steps = store_built(&config(), "Web", "web", 64, "today");
    assert!(steps.iter().any(|s| matches!(
        &s.action,
        ImageAction::SaveEntry(e) if e.reference == "Web" && e.disk_path == "tank/ember/images/web"
    )));
}

#[test]
fn a_failed_image_is_not_kept() {
    let steps = store_built(&config(), "Web", "web", 64, "today");
    let written = steps
        .iter()
        .find(|s| matches!(s.action, ImageAction::WriteVolume(_)))
        .unwrap();
    assert!(written.undo.iter().any(|a| matches!(a, ImageAction::DestroyVolume(_))));
    let last = steps.last().unwrap();
    assert_eq!(last.action, ImageAction::Say("Image 'web' built successfully.".to_string()));
    assert!(last.undo.is_empty());
}

#[test]
fn keys_are_put_in_where_there_are_any() {
    let key = Some(KeyProbe {
        path: "/k.pub".to_string(),
        there: true,
    });
    let has_key = |steps: &Vec<ember::procedure::Step<ImageAction>>| {
        steps.iter().any(|s| s.action == ImageAction::InjectKey("/k.pub".to_string()))
    };
    let args = BuildArgs {
        name: "web".to_string(),
        dockerfile: Some("Dockerfile".to_string()),
    };
    let none: Vec<ImageEntry> = vec![];
    assert!(has_key(&pull(&none, "alpine", "library-alpine-latest", &key).0));
    assert!(has_key(&build(&none, &args, "web", true, &key).0));
    assert!(!has_key(&pull(&none, "alpine", "library-alpine-latest", &None).0));
}

#[test]
fn images_are_made_once() {
    let images = vec![entry("local/web", "web")];
    let args = BuildArgs {
        name: "web".to_string(),
        dockerfile: Some("Dockerfile".to_string()),
    };
    let (steps, more) = build(&images, &args, "web", false, &None);
    assert!(!more);
    assert_eq!(steps.len(), 1);
    assert_eq!(
        steps[0].action,
        ImageAction::Say("Image 'web' already exists locally.".to_string())
    );
    let (steps, more) = pull(&images, "docker.io/web", "web", &None);
    assert!(!more);
    assert_eq!(
        steps[0].action,
        ImageAction::Say("Image 'docker.io/web' already exists locally as 'web'.".to_string())
    );
    assert_eq!(
        pulled_text("docker.io/web", "web"),
        "Image 'docker.io/web' pulled successfully as 'web'."
    );
    let (steps, more) = pull(&images, "alpine", "library-alpine-latest", &None);
    assert!(more);
    assert_eq!(steps[2].action, ImageAction::PullLayers);
    assert_eq!(
        not_found("nope"),
        "image 'nope' not found locally\nHint: run 'ember image list' to see available images"
    );
}

#[test]
fn nothing_is_built_without_a_source() {
    let args = |dockerfile: Option<&str>| BuildArgs {
        name: "web".to_string(),
        dockerfile: dockerfile.map(|p| p.to_string()),
    };
    let (steps, more) = build(&vec![], &args(Some("/d/Dockerfile")), "web", false, &None);
    assert!(!more);
    assert_eq!(steps.len(), 2);
    assert_eq!(steps[0].action, ImageAction::Say("Building image 'web'...".to_string()));
    assert_eq!(
        steps[1].action,
        ImageAction::Refuse("Dockerfile not found: /d/Dockerfile".to_string())
    );
    let (steps, more) = build(&vec![], &args(None), "web", false, &None);
    assert!(more);
    assert!(steps.iter().any(|s| s.action == ImageAction::BuildLayers));
}

#[test]
fn images_in_use_are_deleted_by_force_only() {
    let e = entry("local/web", "web");
    let mut vm = VmMetadata::default_for_teardown();
    vm.name = "one".to_string();
    vm.image = "local/web".to_string();
    let args = |force: bool| DeleteArgs {
        name: "web".to_string(),
        force,
    };
    let vms = vec![VmMetadata::default_for_teardown(), vm];
    assert!(delete(&args(false), &e, &vms).is_err());
    assert_eq!(delete(&args(true), &e, &vms).unwrap(), vec![1]);
    assert!(delete(&args(false), &e, &vec![]).unwrap().is_empty());
    assert!(delete_entry(&e, true)
        .iter()
        .any(|s| matches!(s.action, ImageAction::DestroyVolume(_))));
    assert!(!delete_entry(&e, false)
        .iter()
        .any(|s| matches!(s.action, ImageAction::DestroyVolume(_))));
}

#[test]
fn an_image_goes_after_all_that_use_it() {
    let e = entry("local/web", "web");
    let machine = |name: &str, image: &str| {
        let mut vm = VmMetadata::default_for_teardown();
        vm.name = name.to_string();
        vm.image = image.to_string();
        vm.disk_path = format!("tank/{name}");
        vm
    };
    let vms = vec![
        machine("one", "local/web"),
        machine("other", "local/db"),
        machine("two", "local/web"),
    ];
    let there = vec![
        VmProbe {
            alive: false,
            socket_there: false,
            volume_there: true,
        };
        3
    ];
    let args = |force: bool| DeleteArgs {
        name: "web".to_string(),
        force,
    };
    assert!(delete_steps(&args(false), &e, &vms, &there, true)
        .unwrap_err()
        .contains("in use by VM(s): one, two"));
    let steps = delete_steps(&args(true), &e, &vms, &there, true).unwrap();
    let place = |a: ImageAction| steps.iter().position(|s| s.action == a);
    let one = place(ImageAction::DeleteRecord("one".to_string())).unwrap();
    let two = place(ImageAction::DeleteRecord("two".to_string())).unwrap();
    let volume = place(ImageAction::DestroyVolume(e.disk_path.clone())).unwrap();
    let removed = place(ImageAction::RemoveEntry("web".to_string())).unwrap();
    assert!(one < two && two < volume && volume < removed);
    assert!(!steps[volume].tolerate);
    assert_eq!(place(ImageAction::DeleteRecord("other".to_string())), None);
    let own = place(ImageAction::DestroyVmVolume("tank/one".to_string())).unwrap();
    assert!(steps[own].tolerate);
    assert!(delete_steps(&args(false), &e, &vec![], &vec![], false).is_ok());
}
