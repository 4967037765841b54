//! The iPXE scripts that boot a machine into the imaging agent. The
//! bootstrap script reports the machine's SMBIOS product and manufacturer to
//! the manifest, which picks the kernel console order: virtual machines get
//! their serial console last (so it becomes the primary console), physical
//! machines get the VGA console last.
use vstd::prelude::*;
use vstd::string::*;
use crate::text::{contains_seq, occurs_at, push_str, str_contains};

verus! {

/// The query parameters the manifest is requested with.
#[derive(Debug)]
pub struct BootParams {
    pub product: Option<String>,
    pub manufacturer: Option<String>,
}

/// The public base URL of the server: `https://` when HTTPS is in use,
/// `http://` otherwise, followed by the public host (`localhost:8080` when
/// none is configured).
pub open spec fn base_url(use_https: bool, public_base: Option<Seq<char>>) -> Seq<char> {
    (if use_https {
        "https"@
    } else {
        "http"@
    }) + "://"@ + match public_base {
        Some(b) => b,
        None => "localhost:8080"@,
    }
}

/// Builds the public base URL from whether HTTPS is in use and the
/// configured public host, if any.
pub fn dynamic_base(use_https: bool, public_base: Option<String>) -> (base: String)
    ensures
        base@ == base_url(use_https, match public_base {
            Some(b) => Some(b@),
            None => None,
        }),
{
    let mut base = if use_https {
        String::from_str("https")
    } else {
        String::from_str("http")
    };
    push_str(&mut base, "://");
    match &public_base {
        Some(b) => push_str(&mut base, b.as_str()),
        None => push_str(&mut base, "localhost:8080"),
    }
    base
}

/// The bootstrap script: chain into the manifest, passing the machine's
/// SMBIOS product and manufacturer.
pub open spec fn bootstrap_text(base: Seq<char>) -> Seq<char> {
    "#!ipxe\nchain "@ + base
        + "/boot/manifest.ipxe?product=${smbios/product:uristring}&manufacturer=${smbios/manufacturer:uristring}\n"@
}

/// The bootstrap iPXE script served at `/boot/boot.ipxe`.
pub fn bootstrap_ipxe(base: &str) -> (script: String)
    ensures
        script@ == bootstrap_text(base@),
{
    let mut script = String::from_str("#!ipxe\nchain ");
    push_str(&mut script, base);
    push_str(
        &mut script,
        "/boot/manifest.ipxe?product=${smbios/product:uristring}&manufacturer=${smbios/manufacturer:uristring}\n",
    );
    script
}

/// Whether the SMBIOS strings identify a virtual machine: a QEMU or
/// "Standard PC" product, or a QEMU manufacturer. A missing value counts as
/// empty.
pub open spec fn is_vm(product: Seq<char>, manufacturer: Seq<char>) -> bool {
    contains_seq(product, "QEMU"@) || contains_seq(product, "Standard PC"@) || contains_seq(
        manufacturer,
        "QEMU"@,
    )
}

/// The kernel console arguments: on a VM the serial console comes last (and
/// is primary), on physical hardware the VGA console does.
pub open spec fn console_args(vm: bool) -> Seq<char> {
    if vm {
        "console=tty0 console=ttyS0,115200n8"@
    } else {
        "console=ttyS0,115200n8 console=tty0"@
    }
}

/// The manifest script: set the base, load kernel and initramfs, boot.
pub open spec fn manifest_text(base: Seq<char>, console: Seq<char>) -> Seq<char> {
    "#!ipxe\nset base "@ + base
        + "\nkernel ${base}/boot/vmlinuz initrd=initramfs.cpio.gz img_srv=${base} "@ + console
        + " earlyprintk=vga loglevel=8\ninitrd ${base}/boot/initramfs.cpio.gz\nboot\n"@
}

fn text_or_empty(s: &Option<String>) -> (r: &str)
    ensures
        r@ == match s {
            Some(v) => v@,
            None => Seq::<char>::empty(),
        },
{
    match s {
        Some(v) => v.as_str(),
        None => {
            proof {
                reveal_strlit("");
            }
            ""
        },
    }
}

/// The manifest iPXE script served at `/boot/manifest.ipxe` for a machine
/// reporting `params`.
pub fn manifest_ipxe(base: &str, params: &BootParams) -> (script: String)
    ensures
        script@ == manifest_text(
            base@,
            console_args(
                is_vm(
                    match params.product {
                        Some(v) => v@,
                        None => Seq::<char>::empty(),
                    },
                    match params.manufacturer {
                        Some(v) => v@,
                        None => Seq::<char>::empty(),
                    },
                ),
            ),
        ),
{
    let product = text_or_empty(&params.product);
    let manufacturer = text_or_empty(&params.manufacturer);
    let vm = str_contains(product, "QEMU") || str_contains(product, "Standard PC") || str_contains(
        manufacturer,
        "QEMU",
    );
    let console = if vm {
        "console=tty0 console=ttyS0,115200n8"
    } else {
        "console=ttyS0,115200n8 console=tty0"
    };
    let mut script = String::from_str("#!ipxe\nset base ");
    push_str(&mut script, base);
    push_str(&mut script, "\nkernel ${base}/boot/vmlinuz initrd=initramfs.cpio.gz img_srv=${base} ");
    push_str(&mut script, console);
    push_str(&mut script, " earlyprintk=vga loglevel=8\ninitrd ${base}/boot/initramfs.cpio.gz\nboot\n");
    script
}

/// Every manifest is an iPXE script (it starts with `#!ipxe` on its own
/// line) whose last line is `boot`, that loads the kernel and the initramfs
/// from under `/boot`, and the two console orders differ.
pub proof fn lemma_manifest_shape(base: Seq<char>, vm: bool)
    ensures
        "#!ipxe\n"@.is_prefix_of(manifest_text(base, console_args(vm))),
        "\nboot\n"@.is_suffix_of(manifest_text(base, console_args(vm))),
        contains_seq(manifest_text(base, console_args(vm)), "/boot/vmlinuz"@),
        contains_seq(manifest_text(base, console_args(vm)), "/boot/initramfs.cpio.gz"@),
        console_args(true) != console_args(false),
{
    reveal_strlit("#!ipxe\n");
    reveal_strlit("#!ipxe\nset base ");
    reveal_strlit("\nboot\n");
    reveal_strlit(" earlyprintk=vga loglevel=8\ninitrd ${base}/boot/initramfs.cpio.gz\nboot\n");
    reveal_strlit("console=tty0 console=ttyS0,115200n8");
    reveal_strlit("console=ttyS0,115200n8 console=tty0");
    let t = manifest_text(base, console_args(vm));
    let head = "#!ipxe\nset base "@;
    let tail = " earlyprintk=vga loglevel=8\ninitrd ${base}/boot/initramfs.cpio.gz\nboot\n"@;
    assert(t.subrange(0, 7) =~= head.subrange(0, 7));
    assert(t.subrange(t.len() - 6, t.len() as int) =~= tail.subrange(tail.len() - 6, tail.len() as int));
    assert(console_args(true)[11] != console_args(false)[11]);
    reveal_strlit("\nkernel ${base}/boot/vmlinuz initrd=initramfs.cpio.gz img_srv=${base} ");
    reveal_strlit("/boot/vmlinuz");
    reveal_strlit("/boot/initramfs.cpio.gz");
    let middle = "\nkernel ${base}/boot/vmlinuz initrd=initramfs.cpio.gz img_srv=${base} "@;
    let k: int = (16 + base.len() + 15) as int;
    assert(t.subrange(k, k + 13) =~= "/boot/vmlinuz"@) by {
        assert forall|i: int| 0 <= i < 13 implies #[trigger] t.subrange(k, k + 13)[i] == middle[15 + i] by {
            assert(t[k + i] == middle[15 + i]);
        }
    }
    assert(occurs_at(t, "/boot/vmlinuz"@, k));
    let c = console_args(vm);
    let m: int = (16 + base.len() + 70 + c.len() + 42) as int;
    assert(t.subrange(m, m + 23) =~= "/boot/initramfs.cpio.gz"@) by {
        assert forall|i: int| 0 <= i < 23 implies #[trigger] t.subrange(m, m + 23)[i] == tail[42 + i] by {
            assert(t[m + i] == tail[42 + i]);
        }
    }
    assert(occurs_at(t, "/boot/initramfs.cpio.gz"@, m));
}

/// The console arguments a manifest is given appear in it as they are.
proof fn lemma_manifest_carries_console(base: Seq<char>, console: Seq<char>)
    ensures
        contains_seq(manifest_text(base, console), console),
{
    reveal_strlit("#!ipxe\nset base ");
    reveal_strlit("\nkernel ${base}/boot/vmlinuz initrd=initramfs.cpio.gz img_srv=${base} ");
    let t = manifest_text(base, console);
    let head = "#!ipxe\nset base "@ + base + "\nkernel ${base}/boot/vmlinuz initrd=initramfs.cpio.gz img_srv=${base} "@;
    let k = head.len() as int;
    assert(t.subrange(k, k + console.len()) =~= console) by {
        assert forall|i: int| 0 <= i < console.len() implies #[trigger] t.subrange(k, k + console.len())[i]
            == console[i] by {
            assert(t[k + i] == console[i]);
        }
    }
    assert(occurs_at(t, console, k));
}

/// A machine that reports a QEMU product, a "Standard PC" product or a QEMU
/// manufacturer is a virtual machine, whatever else it reports: its manifest
/// boots the kernel with the serial console last
/// (`console=tty0 console=ttyS0,115200n8`). A machine that reports none of
/// these gets the physical order (`console=ttyS0,115200n8 console=tty0`).
/// A missing value counts as empty.
pub proof fn lemma_console_order_follows_the_machine(base: Seq<char>, product: Seq<char>, manufacturer: Seq<char>)
    ensures
        contains_seq(product, "QEMU"@) ==> contains_seq(
            manifest_text(base, console_args(is_vm(product, manufacturer))),
            "console=tty0 console=ttyS0,115200n8"@,
        ),
        contains_seq(product, "Standard PC"@) ==> contains_seq(
            manifest_text(base, console_args(is_vm(product, manufacturer))),
            "console=tty0 console=ttyS0,115200n8"@,
        ),
        contains_seq(manufacturer, "QEMU"@) ==> contains_seq(
            manifest_text(base, console_args(is_vm(product, manufacturer))),
            "console=tty0 console=ttyS0,115200n8"@,
        ),
        !contains_seq(product, "QEMU"@) && !contains_seq(product, "Standard PC"@) && !contains_seq(
            manufacturer,
            "QEMU"@,
        ) ==> contains_seq(
            manifest_text(base, console_args(is_vm(product, manufacturer))),
            "console=ttyS0,115200n8 console=tty0"@,
        ),
{
    lemma_manifest_carries_console(base, console_args(is_vm(product, manufacturer)));
}

/// The scheme of the public base URL depends only on whether HTTPS is in
/// use: `http://` without it and `https://` with it, whatever host is
/// configured; what follows the scheme is the configured public host, or
/// `localhost:8080` when none is.
pub proof fn lemma_scheme_follows_https_only(use_https: bool, public_base: Option<Seq<char>>)
    ensures
        !use_https ==> "http://"@.is_prefix_of(base_url(use_https, public_base)),
        !use_https ==> base_url(use_https, public_base).skip(7) == (match public_base {
            Some(b) => b,
            None => "localhost:8080"@,
        }),
        use_https ==> "https://"@.is_prefix_of(base_url(use_https, public_base)),
        use_https ==> base_url(use_https, public_base).skip(8) == (match public_base {
            Some(b) => b,
            None => "localhost:8080"@,
        }),
{
    reveal_strlit("http");
    reveal_strlit("https");
    reveal_strlit("://");
    reveal_strlit("http://");
    reveal_strlit("https://");
    let host = match public_base {
        Some(b) => b,
        None => "localhost:8080"@,
    };
    let u = base_url(use_https, public_base);
    if use_https {
        assert(u =~= "https://"@ + host);
        assert(u.subrange(0, 8) =~= "https://"@);
        assert(u.skip(8) =~= host);
    } else {
        assert(u =~= "http://"@ + host);
        assert(u.subrange(0, 7) =~= "http://"@);
        assert(u.skip(7) =~= host);
    }
}

} // verus!
