//! What a machine is started with.

use ember::firecracker::{
    console_log, kill, socket_timeout, spawn, wait_for_exit, wait_for_socket, ApiRequest, KillResult, Poll, VmConfig,
    VmNetworkConfig, DEFAULT_BOOT_ARGS,
};

#[test]
fn boot_args_without_network() {
    let config = VmConfig::new(2, 512, "/boot/vmlinux", "/dev/zvol/pool/vms/test");
    assert_eq!(config.full_boot_args(), DEFAULT_BOOT_ARGS);
}

#[test]
fn boot_args_with_network() {
    let config = VmConfig::new(2, 512, "/boot/vmlinux", "/dev/zvol/pool/vms/test")
        .with_network(VmNetworkConfig {
            tap_device: "em-abc123".to_string(),
            guest_ip: "10.100.0.2".to_string(),
            gateway_ip: "10.100.0.1".to_string(),
            netmask: "255.255.255.252".to_string(),
            guest_mac: None,
        });
    assert_eq!(
        config.full_boot_args(),
        "console=ttyS0 reboot=k panic=1 pci=off ip=10.100.0.2::10.100.0.1:255.255.255.252::eth0:off"
    );
}

#[test]
fn custom_boot_args() {
    let config = VmConfig::new(1, 128, "/boot/vmlinux", "/dev/zvol/pool/vms/test")
        .with_boot_args("console=ttyS0 panic=1");
    assert_eq!(config.full_boot_args(), "console=ttyS0 panic=1");
}

#[test]
fn custom_boot_args_with_network() {
    let config = VmConfig::new(1, 128, "/boot/vmlinux", "/dev/zvol/pool/vms/test")
        .with_boot_args("console=ttyS0 panic=1")
        .with_network(VmNetworkConfig {
            tap_device: "em-xyz".to_string(),
            guest_ip: "10.100.0.6".to_string(),
            gateway_ip: "10.100.0.5".to_string(),
            netmask: "255.255.255.252".to_string(),
            guest_mac: Some("AA:FC:00:00:00:01".to_string()),
        });
    assert_eq!(
        config.full_boot_args(),
        "console=ttyS0 panic=1 ip=10.100.0.6::10.100.0.5:255.255.255.252::eth0:off"
    );
}

#[test]
fn a_machine_is_configured_before_it_is_started() {
    let config = VmConfig::new(2, 512, "/boot/vmlinux", "/dev/zvol/pool/vms/test");
    let requests = config.configure_and_start();
    assert_eq!(requests.len(), config.configure().len() + 1);
    assert!(matches!(requests.last(), Some(ApiRequest::InstanceStart)));
    assert!(matches!(
        requests[0],
        ApiRequest::MachineConfig { vcpu_count: 2, mem_size_mib: 512 }
    ));
}

#[test]
fn waiting_has_an_end() {
    assert!(matches!(wait_for_socket(0, true), Poll::Over(true)));
    assert!(matches!(wait_for_socket(0, false), Poll::Again(10)));
    assert!(matches!(wait_for_socket(5000, false), Poll::Over(false)));
    assert!(matches!(wait_for_exit(0, 1000, true), Poll::Again(50)));
    assert!(matches!(wait_for_exit(1000, 1000, true), Poll::Over(false)));
    assert!(matches!(wait_for_exit(1000, 1000, false), Poll::Over(true)));
}

#[test]
fn a_process_that_is_gone_counts_as_killed() {
    assert!(kill(7, &KillResult::Sent).is_ok());
    assert!(kill(7, &KillResult::NoSuchProcess).is_ok());
    assert!(kill(7, &KillResult::Failed("EPERM".to_string())).unwrap_err().contains("7"));
    assert_eq!(spawn("/s", "/l", 2, 512).program, "systemd-run");
}

#[test]
fn logs_lie_beside_the_socket() {
    assert_eq!(
        socket_timeout("/s/vms/web/firecracker.sock"),
        "firecracker API socket did not appear at /s/vms/web/firecracker.sock within 5s\n\
         Hint: check /s/vms/web/firecracker.log for errors"
    );
    assert_eq!(console_log("/s/vms/web/firecracker.log"), "/s/vms/web/console.log");
}
