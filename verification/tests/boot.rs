use imaged::pxe::{bootstrap_ipxe, dynamic_base, manifest_ipxe, BootParams};
use imaged::tftp::{boot_file, requested_boot_file, BootFile};

#[test]
fn the_base_url_follows_the_scheme_and_public_host() {
    assert_eq!(dynamic_base(false, None), "http://localhost:8080");
    assert_eq!(dynamic_base(true, Some("imaging.lab".into())), "https://imaging.lab");
}

#[test]
fn the_bootstrap_script_chains_into_the_manifest_with_smbios_strings() {
    assert_eq!(
        bootstrap_ipxe("http://srv"),
        "#!ipxe\nchain http://srv/boot/manifest.ipxe?product=${smbios/product:uristring}&manufacturer=${smbios/manufacturer:uristring}\n"
    );
}

fn params(product: Option<&str>, manufacturer: Option<&str>) -> BootParams {
    BootParams {
        product: product.map(String::from),
        manufacturer: manufacturer.map(String::from),
    }
}

#[test]
fn a_virtual_machine_gets_its_serial_console_last() {
    let script = manifest_ipxe("http://srv", &params(Some("Standard PC (Q35 + ICH9, 2009)"), None));
    assert_eq!(
        script,
        "#!ipxe\nset base http://srv\nkernel ${base}/boot/vmlinuz initrd=initramfs.cpio.gz img_srv=${base} console=tty0 console=ttyS0,115200n8 earlyprintk=vga loglevel=8\ninitrd ${base}/boot/initramfs.cpio.gz\nboot\n"
    );
    assert!(manifest_ipxe("b", &params(None, Some("QEMU"))).contains("console=tty0 console=ttyS0,115200n8"));
}

#[test]
fn physical_hardware_gets_its_vga_console_last() {
    let script = manifest_ipxe("http://srv", &params(Some("OptiPlex 7050"), Some("Dell Inc.")));
    assert!(script.contains("console=ttyS0,115200n8 console=tty0 earlyprintk"));
    assert!(manifest_ipxe("b", &params(None, None)).contains("console=ttyS0,115200n8 console=tty0"));
}

#[test]
fn tftp_serves_the_two_boot_files_from_the_root() {
    assert_eq!(requested_boot_file("/ipxe.efi"), Some(BootFile::Ipxe));
    assert_eq!(requested_boot_file("./undionly.kpxe"), Some(BootFile::Undionly));
    assert_eq!(requested_boot_file("ipxe.efi"), Some(BootFile::Ipxe));
    assert_eq!(requested_boot_file("//ipxe.efi"), Some(BootFile::Ipxe));
}

#[test]
fn tftp_refuses_any_other_file() {
    assert_eq!(requested_boot_file("/boot/ipxe.efi"), None);
    assert_eq!(requested_boot_file("/IPXE.EFI"), None);
    assert_eq!(requested_boot_file("/"), None);
    assert_eq!(requested_boot_file(""), None);
    assert_eq!(boot_file("undionly.kpxe"), Some(BootFile::Undionly));
    assert_eq!(boot_file("/ipxe.efi"), None);
}
