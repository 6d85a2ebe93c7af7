//! The ten-character mode string of a long directory listing, such as
//! `drwxr-x---`: one character for the file type, then read, write and
//! execute for owner, group and others.

use vstd::prelude::*;
use vstd::string::*;

verus! {

/// `c` when the permission bit is set, `-` otherwise.
pub open spec fn perm_char(set: bool, c: char) -> char {
    if set {
        c
    } else {
        '-'
    }
}

/// The three characters for the low three permission bits of `v`.
pub open spec fn perm_chars(v: u32) -> Seq<char> {
    seq![perm_char(v & 4 != 0, 'r'), perm_char(v & 2 != 0, 'w'), perm_char(v & 1 != 0, 'x')]
}

/// The file-type character: `-` regular file, `d` directory, `c`
/// character device, `b` block device, `?` anything else.
pub open spec fn type_char(mode: u32) -> char {
    let t = mode & 0o170000;
    if t == 0o100000 {
        '-'
    } else if t == 0o040000 {
        'd'
    } else if t == 0o020000 {
        'c'
    } else if t == 0o060000 {
        'b'
    } else {
        '?'
    }
}

/// The full mode string of `mode`.
pub open spec fn mode_chars(mode: u32) -> Seq<char> {
    seq![type_char(mode)] + perm_chars(mode >> 6) + perm_chars(mode >> 3) + perm_chars(mode)
}

/// Relies on `libc::S_IFMT`: the mask of the file-type bits of a mode.
#[verifier::external_body]
fn type_mask() -> (r: u32)
    ensures
        r == 0o170000,
{
    libc::S_IFMT
}

/// Relies on `libc::S_IFREG`: the file-type bits of a regular file.
#[verifier::external_body]
fn regular_bits() -> (r: u32)
    ensures
        r == 0o100000,
{
    libc::S_IFREG
}

/// Relies on `libc::S_IFDIR`: the file-type bits of a directory.
#[verifier::external_body]
fn directory_bits() -> (r: u32)
    ensures
        r == 0o040000,
{
    libc::S_IFDIR
}

/// Relies on `libc::S_IFCHR`: the file-type bits of a character device.
#[verifier::external_body]
fn char_device_bits() -> (r: u32)
    ensures
        r == 0o020000,
{
    libc::S_IFCHR
}

/// Relies on `libc::S_IFBLK`: the file-type bits of a block device.
#[verifier::external_body]
fn block_device_bits() -> (r: u32)
    ensures
        r == 0o060000,
{
    libc::S_IFBLK
}

/// `rwx`-style characters for the low three bits of `permission_value`.
pub fn permbits_to_chars(permission_value: u32) -> (r: String)
    ensures
        r@ == perm_chars(permission_value),
{
    let mut s = String::new();
    if permission_value & 4 != 0 {
        s.append("r");
    } else {
        s.append("-");
    }
    if permission_value & 2 != 0 {
        s.append("w");
    } else {
        s.append("-");
    }
    if permission_value & 1 != 0 {
        s.append("x");
    } else {
        s.append("-");
    }
    proof {
        reveal_strlit("r");
        reveal_strlit("w");
        reveal_strlit("x");
        reveal_strlit("-");
        assert(s@ =~= perm_chars(permission_value));
    }
    s
}

/// The mode string of `mode`: file type, then owner, group and others.
pub fn get_file_mode(mode: u32) -> (r: String)
    ensures
        r@ == mode_chars(mode),
{
    let t = mode & type_mask();
    let kind = if t == regular_bits() {
        "-"
    } else if t == directory_bits() {
        "d"
    } else if t == char_device_bits() {
        "c"
    } else if t == block_device_bits() {
        "b"
    } else {
        "?"
    };
    proof {
        reveal_strlit("-");
        reveal_strlit("d");
        reveal_strlit("c");
        reveal_strlit("b");
        reveal_strlit("?");
        assert(kind@ =~= seq![type_char(mode)]);
    }
    let mut bits = String::new();
    bits.append(kind);
    let owner = permbits_to_chars(mode >> 6);
    bits.append(owner.as_str());
    let group = permbits_to_chars(mode >> 3);
    bits.append(group.as_str());
    let other = permbits_to_chars(mode);
    bits.append(other.as_str());
    proof {
        assert(bits@ =~= mode_chars(mode));
    }
    bits
}

} // verus!
