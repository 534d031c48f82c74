//! Path conventions and one-time sandbox preparation: the platform
//! descriptor's file names, the plan for which worker sandboxes still need
//! provisioning, and the one-off patch applied to a sandbox's init
//! configuration.

use vstd::prelude::*;

use crate::archive::lines_view;
use crate::text::{contains_bytes, contains_seq};
use crate::Platform;

verus! {

impl Platform {
    /// The identifier this platform contributes to file names.
    pub open spec fn name_spec(self) -> Seq<char> {
        match self {
            Platform::Linux => "linux"@,
            Platform::Macos => "macos"@,
            Platform::Windows => "windows"@,
            Platform::Unknown => "unknown"@,
        }
    }

    pub fn name(&self) -> (r: &'static str)
        ensures
            r@ == self.name_spec(),
    {
        match self {
            Platform::Linux => "linux",
            Platform::Macos => "macos",
            Platform::Windows => "windows",
            Platform::Unknown => "unknown",
        }
    }
}

/// The file name under which the platform's distribution archive is kept.
pub open spec fn archive_path_spec(p: Platform) -> Seq<char> {
    if p is Windows {
        "current.zip"@
    } else {
        "current.tar.bz2"@
    }
}

/// The platform's distribution-archive file name, relative to the base
/// directory. No archive name exists for an unknown platform.
pub fn archive_path(p: Platform) -> (r: &'static str)
    requires
        !(p is Unknown),
    ensures
        r@ == archive_path_spec(p),
{
    match p {
        Platform::Windows => "current.zip",
        _ => "current.tar.bz2",
    }
}

/// The worker slots among `0..n` that must still be provisioned: every slot
/// when `force` is set, else exactly those whose sandbox is missing.
pub open spec fn provision_plan(existing: Seq<bool>, force: bool, n: int) -> Seq<int>
    decreases n,
{
    if n <= 0 {
        Seq::empty()
    } else if force || !existing[n - 1] {
        provision_plan(existing, force, n - 1).push(n - 1)
    } else {
        provision_plan(existing, force, n - 1)
    }
}

/// Decide which of the `num` worker sandboxes must be provisioned before any
/// run: slot `k` is listed exactly when `force` is set or `existing[k]` says
/// its directory is missing, in increasing slot order.
pub fn ensure_worker_dirs(num: usize, force: bool, existing: &Vec<bool>) -> (r: Vec<usize>)
    requires
        existing@.len() == num,
    ensures
        r@.map_values(|x: usize| x as int) == provision_plan(existing@, force, num as int),
{
    let mut r: Vec<usize> = Vec::new();
    let mut i: usize = 0;
    while i < num
        invariant
            existing@.len() == num,
            0 <= i <= num,
            r@.map_values(|x: usize| x as int) == provision_plan(existing@, force, i as int),
        decreases num - i,
    {
        if force || !existing[i] {
            r.push(i);
            assert(r@.map_values(|x: usize| x as int) =~= provision_plan(
                existing@,
                force,
                i + 1,
            ));
        } else {
            assert(r@.map_values(|x: usize| x as int) =~= provision_plan(
                existing@,
                force,
                i + 1,
            ));
        }
        i += 1;
    }
    r
}

/// "[PRINT_MODE:2D]"
pub open spec fn print_mode_2d() -> Seq<u8> {
    seq![
        91u8,
        80u8,
        82u8,
        73u8,
        78u8,
        84u8,
        95u8,
        77u8,
        79u8,
        68u8,
        69u8,
        58u8,
        50u8,
        68u8,
        93u8,
    ]
}

/// "[PRINT_MODE:STANDARD]"
pub open spec fn print_mode_standard() -> Seq<u8> {
    seq![
        91u8,
        80u8,
        82u8,
        73u8,
        78u8,
        84u8,
        95u8,
        77u8,
        79u8,
        68u8,
        69u8,
        58u8,
        83u8,
        84u8,
        65u8,
        78u8,
        68u8,
        65u8,
        82u8,
        68u8,
        93u8,
    ]
}

/// One line of the patched init configuration: a line that sets the 2D print
/// mode is replaced by the standard print mode, every other line is kept.
pub open spec fn patched_line(line: Seq<u8>) -> Seq<u8> {
    if contains_seq(line, print_mode_2d()) {
        print_mode_standard()
    } else {
        line
    }
}

/// Patch a sandbox's init configuration: rewrite the print-mode line and copy
/// everything else verbatim.
pub fn patches(lines: &Vec<Vec<u8>>) -> (r: Vec<Vec<u8>>)
    ensures
        lines_view(r@).len() == lines@.len(),
        forall|i: int|
            0 <= i < lines@.len() ==> lines_view(r@)[i] == patched_line(lines_view(lines@)[i]),
{
    let marker = vec![
        91u8, 80u8, 82u8, 73u8, 78u8, 84u8, 95u8, 77u8, 79u8, 68u8, 69u8, 58u8, 50u8, 68u8, 93u8,
    ];
    let standard = vec![
        91u8, 80u8, 82u8, 73u8, 78u8, 84u8, 95u8, 77u8, 79u8, 68u8, 69u8, 58u8, 83u8, 84u8, 65u8,
        78u8, 68u8, 65u8, 82u8, 68u8, 93u8,
    ];
    assert(marker@ =~= print_mode_2d());
    assert(standard@ =~= print_mode_standard());
    let n = lines.len();
    let mut r: Vec<Vec<u8>> = Vec::new();
    let mut i: usize = 0;
    while i < n
        invariant
            marker@ == print_mode_2d(),
            standard@ == print_mode_standard(),
            n == lines@.len(),
            0 <= i <= n,
            r@.len() == i,
            forall|j: int| 0 <= j < i ==> lines_view(r@)[j] == patched_line(lines_view(lines@)[j]),
        decreases n - i,
    {
        let ghost before = r@;
        if contains_bytes(&lines[i], &marker) {
            r.push(crate::text::copy_all(&standard));
        } else {
            r.push(crate::text::copy_all(&lines[i]));
        }
        proof {
            assert(r@[i as int]@ == patched_line(lines_view(lines@)[i as int])) by {
                assert(lines_view(lines@)[i as int] == lines@[i as int]@);
            }
            assert forall|j: int| 0 <= j < i + 1 implies lines_view(r@)[j] == patched_line(
                lines_view(lines@)[j],
            ) by {
                assert(lines_view(r@)[j] == r@[j]@);
                if j < i {
                    assert(r@[j] == before[j]);
                    assert(lines_view(before)[j] == before[j]@);
                }
            }
        }
        i += 1;
    }
    r
}

} // verus!
