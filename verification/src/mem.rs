//! Sealing and mapping of anonymous memory files.
//!
//! A memory file can carry kernel-enforced seals; once the shrink seal is
//! installed the peer cannot truncate the region under a mapping, which is
//! what makes sharing it with an untrusted process safe.  This module
//! decides which seals a use case needs and installs them through the
//! `memfd` crate; mappings come from `memmap2`.

use vstd::prelude::*;

verus! {

use memfd::Error as MemfdError;
use std::io::Error as IoError;

/// A kernel-enforced seal on a memory file.  Seals are irrevocable
/// restrictions: once installed they cannot be removed.
#[derive(Clone, Copy, Debug, PartialEq, Eq, Structural)]
pub enum Seal {
    /// The file cannot be reduced in size.
    Shrink,
    /// The file cannot be grown in size.
    Grow,
    /// The file cannot be written.
    Write,
    /// The file cannot be written through new mappings.
    FutureWrite,
    /// No further seals can be installed.
    Sealing,
}

#[verifier::external_type_specification]
#[verifier::external_body]
pub struct ExMemfd(memfd::Memfd);

#[verifier::external_type_specification]
#[verifier::external_body]
pub struct ExMemfdError(MemfdError);

#[verifier::external_type_specification]
#[verifier::external_body]
pub struct ExIoError(IoError);

#[verifier::external_type_specification]
#[verifier::external_body]
pub struct ExMmapRaw(memmap2::MmapRaw);

/// Relies on memfd::Memfd::seals: reads the seals currently installed on
/// the file, converted variant for variant.
#[verifier::external_body]
fn memfd_seals(memfd: &memfd::Memfd) -> (r: Result<Vec<Seal>, crate::Error>) {
    match memfd.seals() {
        Err(e) => Err(crate::Error::Memfd(e)),
        Ok(s) => Ok(
            s.iter().map(
                |fs| match fs {
                    memfd::FileSeal::SealShrink => Seal::Shrink,
                    memfd::FileSeal::SealGrow => Seal::Grow,
                    memfd::FileSeal::SealWrite => Seal::Write,
                    memfd::FileSeal::SealFutureWrite => Seal::FutureWrite,
                    memfd::FileSeal::SealSeal => Seal::Sealing,
                },
            ).collect(),
        ),
    }
}

/// Relies on memfd::Memfd::add_seal: installs one seal on the file.
#[verifier::external_body]
fn memfd_add_seal(memfd: &memfd::Memfd, seal: Seal) -> (r: Result<(), crate::Error>) {
    let fs = match seal {
        Seal::Shrink => memfd::FileSeal::SealShrink,
        Seal::Grow => memfd::FileSeal::SealGrow,
        Seal::Write => memfd::FileSeal::SealWrite,
        Seal::FutureWrite => memfd::FileSeal::SealFutureWrite,
        Seal::Sealing => memfd::FileSeal::SealSeal,
    };
    memfd.add_seal(fs).map_err(crate::Error::Memfd)
}

/// Relies on memfd::MemfdOptions::create: a fresh anonymous memory file
/// that allows sealing, with close-on-exec set.
#[verifier::external_body]
fn memfd_create_sealable(name: &str) -> (r: Result<memfd::Memfd, crate::Error>) {
    memfd::MemfdOptions::new().allow_sealing(true).close_on_exec(true).create(name).map_err(
        crate::Error::Memfd,
    )
}

/// Relies on File::set_len, reached through memfd::Memfd::as_file: sizes
/// the file, zero-filling any new bytes.
#[verifier::external_body]
fn memfd_set_len(memfd: &memfd::Memfd, size: u64) -> (r: Result<(), crate::Error>) {
    memfd.as_file().set_len(size).map_err(crate::Error::Io)
}

/// Relies on memmap2::MmapOptions::map_raw: maps the whole file readable
/// and writable.
#[verifier::external_body]
fn map_raw_file(memfd: &memfd::Memfd) -> (r: Result<memmap2::MmapRaw, crate::Error>) {
    memmap2::MmapOptions::new().map_raw(memfd.as_file()).map_err(crate::Error::Io)
}

/// Whether `seal` occurs in `seals`.
fn seal_present(seals: &Vec<Seal>, seal: Seal) -> (r: bool)
    ensures
        r == seals@.contains(seal),
{
    let mut i: usize = 0;
    while i < seals.len()
        invariant
            i <= seals@.len(),
            forall|k: int| 0 <= k < i ==> seals@[k] != seal,
        decreases seals@.len() - i,
    {
        if seals[i] == seal {
            return true;
        }
        i += 1;
    }
    false
}

/// Ensure one seal is present on the file, installing it if missing.
fn verify_seal(memfd: &memfd::Memfd, seal: Seal) -> (r: Result<(), crate::Error>) {
    match memfd_seals(memfd) {
        Err(e) => Err(e),
        Ok(seals) => {
            if seal_present(&seals, seal) {
                Ok(())
            } else {
                memfd_add_seal(memfd, seal)
            }
        },
    }
}

/// Creates a raw writable memory map of a memfd, suitable for sharing with
/// another process.  The file is first sealed against shrinking, so the
/// peer cannot truncate the region under the mapping; if the file was
/// already sealed read-only, the mapping fails.
pub fn raw_memfd(memfd: &memfd::Memfd) -> (r: Result<memmap2::MmapRaw, crate::Error>) {
    match verify_seal(memfd, Seal::Shrink) {
        Err(e) => Err(e),
        Ok(_) => map_raw_file(memfd),
    }
}

/// The sealing half of a read-only sharing: ensure the file can neither
/// shrink (so mappings stay valid) nor be written (so readers cannot be
/// raced), installing whichever of the two seals is missing.
pub fn seal_read_only(memfd: &memfd::Memfd) -> (r: Result<(), crate::Error>) {
    match verify_seal(memfd, Seal::Shrink) {
        Err(e) => Err(e),
        Ok(_) => verify_seal(memfd, Seal::Write),
    }
}

/// The seal set applied to a one-shot blob once it is filled: it can no
/// longer grow, shrink, be written, or have its sealing changed.  The
/// seals are installed one at a time, so the seal against further sealing
/// comes last.
pub fn oneshot_seals() -> (v: Vec<Seal>)
    ensures
        v@ == seq![Seal::Grow, Seal::Shrink, Seal::Write, Seal::Sealing],
{
    let mut v: Vec<Seal> = Vec::new();
    v.push(Seal::Grow);
    v.push(Seal::Shrink);
    v.push(Seal::Write);
    v.push(Seal::Sealing);
    proof {
        assert(v@ =~= seq![Seal::Grow, Seal::Shrink, Seal::Write, Seal::Sealing]);
    }
    v
}

/// Install every seal of the list, stopping at the first failure.
pub fn add_seals(memfd: &memfd::Memfd, seals: &Vec<Seal>) -> (r: Result<(), crate::Error>) {
    let mut i: usize = 0;
    while i < seals.len()
        invariant
            i <= seals@.len(),
        decreases seals@.len() - i,
    {
        match memfd_add_seal(memfd, seals[i]) {
            Err(e) => {
                return Err(e);
            },
            Ok(_) => {},
        }
        i += 1;
    }
    Ok(())
}

/// Create an anonymous memory file of `size` zeroed bytes, ready to be
/// mapped: the creation and sizing steps shared by a one-shot blob and a
/// freshly created ring.
pub fn create_sized_memfd(name: &str, size: u64) -> (r: Result<memfd::Memfd, crate::Error>) {
    match memfd_create_sealable(name) {
        Err(e) => Err(e),
        Ok(m) => {
            match memfd_set_len(&m, size) {
                Err(e) => Err(e),
                Ok(_) => Ok(m),
            }
        },
    }
}

} // verus!
