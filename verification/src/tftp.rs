//! The TFTP side of network boot: which boot file a read request asks for.
use vstd::prelude::*;
use vstd::string::*;

verus! {

/// The boot files the TFTP server hands out.
#[derive(Debug, Clone, Copy, PartialEq, Eq, Structural)]
pub enum BootFile {
    /// The iPXE binary for UEFI machines, `ipxe.efi`.
    Ipxe,
    /// The iPXE binary for legacy BIOS PXE, `undionly.kpxe`.
    Undionly,
}

/// What `std::path::Path::strip_prefix` leaves of the path `path` once the
/// leading components `prefix` are taken off, written back as text; `None`
/// where `prefix` does not lead `path`.
pub uninterp spec fn path_after_prefix(path: Seq<char>, prefix: Seq<char>) -> Option<Seq<char>>;

/// Calls `std::path::Path::strip_prefix` on `path` and `prefix`, both taken
/// as paths, and gives the rest back as text. Which paths a prefix leads,
/// and what is left, go by path components (so `//a` and `/./a` both lose
/// `/` to leave `a`); that is named by `path_after_prefix`, not spelled out.
/// The rest of a path that was text is text, so the conversion back loses
/// nothing.
#[verifier::external_body]
fn strip_path_prefix(path: &str, prefix: &str) -> (r: Option<String>)
    ensures
        match r {
            Some(rest) => path_after_prefix(path@, prefix@) == Some(rest@),
            None => path_after_prefix(path@, prefix@) is None,
        },
{
    match std::path::Path::new(path).strip_prefix(prefix) {
        Ok(rest) => rest.to_str().map(String::from),
        Err(_) => None,
    }
}

/// The name a request path asks for: the path without a leading `/`, or
/// else without a leading `./`, or else the path as it is.
pub open spec fn requested_name(path: Seq<char>) -> Seq<char> {
    match path_after_prefix(path, "/"@) {
        Some(rest) => rest,
        None => match path_after_prefix(path, "./"@) {
            Some(rest) => rest,
            None => path,
        },
    }
}

/// The boot file called `name`, if any.
pub open spec fn boot_file_named(name: Seq<char>) -> Option<BootFile> {
    if name == "ipxe.efi"@ {
        Some(BootFile::Ipxe)
    } else if name == "undionly.kpxe"@ {
        Some(BootFile::Undionly)
    } else {
        None
    }
}

/// The boot file called exactly `name`, if any.
pub fn boot_file(name: &str) -> (f: Option<BootFile>)
    ensures
        f == boot_file_named(name@),
{
    let name = String::from_str(name);
    if name == String::from_str("ipxe.efi") {
        Some(BootFile::Ipxe)
    } else if name == String::from_str("undionly.kpxe") {
        Some(BootFile::Undionly)
    } else {
        None
    }
}

/// The boot file a TFTP read request for `path` asks for: the path is taken
/// relative to the root (a leading `/` or `./` is dropped) and must then
/// name one of the boot files exactly. Any other path is not found.
pub fn requested_boot_file(path: &str) -> (f: Option<BootFile>)
    ensures
        f == boot_file_named(requested_name(path@)),
{
    match strip_path_prefix(path, "/") {
        Some(rest) => boot_file(rest.as_str()),
        None => match strip_path_prefix(path, "./") {
            Some(rest) => boot_file(rest.as_str()),
            None => boot_file(path),
        },
    }
}

} // verus!
