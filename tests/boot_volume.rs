use rpi_imager_tui::boot::{get_boot_partition, rewrite_cmdline};

#[test]
fn digit_suffixed_disks_take_p_infix() {
    assert_eq!(get_boot_partition("/dev/nvme0n1"), "/dev/nvme0n1p1");
    assert_eq!(get_boot_partition("/dev/mmcblk0"), "/dev/mmcblk0p1");
}

#[test]
fn other_disks_take_bare_number() {
    assert_eq!(get_boot_partition("/dev/sda"), "/dev/sda1");
    assert_eq!(get_boot_partition("/dev/sdb"), "/dev/sdb1");
    assert_ne!(get_boot_partition("/dev/sda"), get_boot_partition("/dev/sda0"));
}

#[test]
fn empty_device_path_gets_bare_number() {
    assert_eq!(get_boot_partition(""), "1");
}

#[test]
fn cmdline_gets_one_shot_arguments() {
    let old = "console=serial0,115200 root=PARTUUID=1234-02 rootwait\n";
    assert_eq!(
        rewrite_cmdline(old),
        "console=serial0,115200 root=PARTUUID=1234-02 rootwait systemd.run=/boot/firstrun.sh systemd.run_success_action=reboot systemd.unit=kernel-command-line.target"
    );
}

#[test]
fn cmdline_rewrite_does_not_duplicate() {
    let old = "root=/dev/mmcblk0p2 rootwait\n";
    let once = rewrite_cmdline(old);
    let twice = rewrite_cmdline(&once);
    assert_eq!(once, twice);
    assert_eq!(twice.matches("systemd.run=/boot/firstrun.sh").count(), 1);
}
