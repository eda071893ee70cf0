use vstd::prelude::*;

verus! {

#[derive(Clone, Copy, Debug, PartialEq, Eq, Structural)]
pub enum OperatingSystem {
    Linux,
    MacOS,
    Windows,
}

#[derive(Clone, Copy, Debug, PartialEq, Eq, Structural)]
pub enum Cpu {
    X86_64,
    Aarch64,
}

/// The key of a download row; `None` on an axis stands for "any".
#[derive(Clone, Copy, Debug, PartialEq, Eq, Structural)]
pub struct Platform {
    pub os: Option<OperatingSystem>,
    pub cpu: Option<Cpu>,
}

#[derive(Clone, Copy, Debug, PartialEq, Eq, Structural)]
pub enum DownloadFileType {
    Executable,
    Targz,
    Tarxz,
    Zip,
}

/// One row of a plugin's download matrix.
#[derive(Clone, Debug)]
pub struct System {
    pub platform: Platform,
    pub url: String,
    pub file_type: DownloadFileType,
    pub package_files: Vec<String>,
}

/// No row of a matrix fits the host.
#[derive(Clone, Debug)]
pub struct NoMatchingArtifact {
    pub os: OperatingSystem,
    pub cpu: Cpu,
    pub available: Vec<Platform>,
}

/// How well a key fits a host: 0 for exact OS and CPU, 1 for exact OS and any
/// CPU, 2 for any OS and exact CPU, 3 for any of both, 4 for no fit.
pub open spec fn match_tier(key: Platform, os: OperatingSystem, cpu: Cpu) -> nat {
    if key.os == Some(os) && key.cpu == Some(cpu) {
        0
    } else if key.os == Some(os) && key.cpu is None {
        1
    } else if key.os is None && key.cpu == Some(cpu) {
        2
    } else if key.os is None && key.cpu is None {
        3
    } else {
        4
    }
}

pub open spec fn row_tier(matrix: Seq<System>, i: int, os: OperatingSystem, cpu: Cpu) -> nat {
    match_tier(matrix[i].platform, os, cpu)
}

/// Row `i` is the one to download: it fits, no row fits better, and no earlier
/// row fits as well.
pub open spec fn is_selected(matrix: Seq<System>, i: int, os: OperatingSystem, cpu: Cpu) -> bool {
    &&& 0 <= i < matrix.len()
    &&& row_tier(matrix, i, os, cpu) < 4
    &&& forall|j: int| 0 <= j < matrix.len() ==> row_tier(matrix, i, os, cpu) <= #[trigger] row_tier(matrix, j, os, cpu)
    &&& forall|j: int| 0 <= j < i ==> row_tier(matrix, i, os, cpu) < #[trigger] row_tier(matrix, j, os, cpu)
}

pub open spec fn fits_nowhere(matrix: Seq<System>, os: OperatingSystem, cpu: Cpu) -> bool {
    forall|j: int| 0 <= j < matrix.len() ==> #[trigger] row_tier(matrix, j, os, cpu) == 4
}

pub open spec fn platforms_of(matrix: Seq<System>) -> Seq<Platform> {
    matrix.map_values(|s: System| s.platform)
}

/// At most one row is the selected one.
pub proof fn lemma_selected_unique(matrix: Seq<System>, i: int, j: int, os: OperatingSystem, cpu: Cpu)
    requires
        is_selected(matrix, i, os, cpu),
        is_selected(matrix, j, os, cpu),
    ensures
        i == j,
{
    assert(row_tier(matrix, i, os, cpu) <= row_tier(matrix, j, os, cpu));
    assert(row_tier(matrix, j, os, cpu) <= row_tier(matrix, i, os, cpu));
    if i < j {
        assert(row_tier(matrix, j, os, cpu) < row_tier(matrix, i, os, cpu));
    } else if j < i {
        assert(row_tier(matrix, i, os, cpu) < row_tier(matrix, j, os, cpu));
    }
}

pub open spec fn linux_x86_64() -> Platform {
    Platform { os: Some(OperatingSystem::Linux), cpu: Some(Cpu::X86_64) }
}

pub open spec fn linux_any() -> Platform {
    Platform { os: Some(OperatingSystem::Linux), cpu: None }
}

pub open spec fn any_any() -> Platform {
    Platform { os: None, cpu: None }
}

/// In a matrix of rows keyed (Linux, x86_64), (Linux, any) and (any, any), with
/// each key present, a Linux x86_64 host gets the exact row, a Linux arm64
/// host the (Linux, any) row and a macOS arm64 host the (any, any) row.
pub proof fn lemma_platform_match_determinism(matrix: Seq<System>, a: int, b: int, c: int)
    requires
        0 <= a < matrix.len() && matrix[a].platform == linux_x86_64(),
        0 <= b < matrix.len() && matrix[b].platform == linux_any(),
        0 <= c < matrix.len() && matrix[c].platform == any_any(),
        forall|j: int| 0 <= j < matrix.len() ==> {
            let k = #[trigger] matrix[j].platform;
            k == linux_x86_64() || k == linux_any() || k == any_any()
        },
    ensures
        !fits_nowhere(matrix, OperatingSystem::Linux, Cpu::X86_64),
        !fits_nowhere(matrix, OperatingSystem::Linux, Cpu::Aarch64),
        !fits_nowhere(matrix, OperatingSystem::MacOS, Cpu::Aarch64),
        forall|i: int| is_selected(matrix, i, OperatingSystem::Linux, Cpu::X86_64) ==> matrix[i].platform == linux_x86_64(),
        forall|i: int| is_selected(matrix, i, OperatingSystem::Linux, Cpu::Aarch64) ==> matrix[i].platform == linux_any(),
        forall|i: int| is_selected(matrix, i, OperatingSystem::MacOS, Cpu::Aarch64) ==> matrix[i].platform == any_any(),
{
    assert(row_tier(matrix, a, OperatingSystem::Linux, Cpu::X86_64) == 0);
    assert(row_tier(matrix, b, OperatingSystem::Linux, Cpu::Aarch64) == 1);
    assert(row_tier(matrix, c, OperatingSystem::MacOS, Cpu::Aarch64) == 3);
    assert forall|i: int| is_selected(matrix, i, OperatingSystem::Linux, Cpu::X86_64) implies matrix[i].platform == linux_x86_64() by {
        assert(row_tier(matrix, i, OperatingSystem::Linux, Cpu::X86_64) <= row_tier(matrix, a, OperatingSystem::Linux, Cpu::X86_64));
    }
    assert forall|i: int| is_selected(matrix, i, OperatingSystem::Linux, Cpu::Aarch64) implies matrix[i].platform == linux_any() by {
        assert(row_tier(matrix, i, OperatingSystem::Linux, Cpu::Aarch64) <= row_tier(matrix, b, OperatingSystem::Linux, Cpu::Aarch64));
    }
    assert forall|i: int| is_selected(matrix, i, OperatingSystem::MacOS, Cpu::Aarch64) implies matrix[i].platform == any_any() by {
        assert(row_tier(matrix, i, OperatingSystem::MacOS, Cpu::Aarch64) <= row_tier(matrix, c, OperatingSystem::MacOS, Cpu::Aarch64));
    }
}

/// A matrix that only has (Windows, x86_64) rows has nothing for a Linux
/// x86_64 host: no row is selected.
pub proof fn lemma_no_match_is_fatal(matrix: Seq<System>)
    requires
        forall|j: int| 0 <= j < matrix.len()
            ==> #[trigger] matrix[j].platform == (Platform { os: Some(OperatingSystem::Windows), cpu: Some(Cpu::X86_64) }),
    ensures
        fits_nowhere(matrix, OperatingSystem::Linux, Cpu::X86_64),
        forall|i: int| !is_selected(matrix, i, OperatingSystem::Linux, Cpu::X86_64),
{
    assert forall|j: int| 0 <= j < matrix.len() implies #[trigger] row_tier(matrix, j, OperatingSystem::Linux, Cpu::X86_64) == 4 by {
        assert(matrix[j].platform.os == Some(OperatingSystem::Windows));
    }
}

pub fn tier(key: Platform, os: OperatingSystem, cpu: Cpu) -> (t: u8)
    ensures
        t as nat == match_tier(key, os, cpu),
{
    let os_exact = match key.os {
        Some(o) => o == os,
        None => false,
    };
    let cpu_exact = match key.cpu {
        Some(c) => c == cpu,
        None => false,
    };
    if os_exact && cpu_exact {
        0
    } else if os_exact && key.cpu.is_none() {
        1
    } else if key.os.is_none() && cpu_exact {
        2
    } else if key.os.is_none() && key.cpu.is_none() {
        3
    } else {
        4
    }
}

/// Picks the download row for a host: the most specific tier that has a fit,
/// first row in declaration order within it.
pub fn select(matrix: &Vec<System>, os: OperatingSystem, cpu: Cpu) -> (r: Result<usize, NoMatchingArtifact>)
    ensures
        match r {
            Ok(i) => is_selected(matrix@, i as int, os, cpu),
            Err(e) => {
                &&& fits_nowhere(matrix@, os, cpu)
                &&& e.os == os
                &&& e.cpu == cpu
                &&& e.available@ == platforms_of(matrix@)
            },
        },
{
    let mut best: usize = 0;
    let mut best_tier: u8 = 4;
    let mut available: Vec<Platform> = Vec::new();
    let mut i: usize = 0;
    while i < matrix.len()
        invariant
            i <= matrix@.len(),
            best_tier <= 4,
            available@ == platforms_of(matrix@).subrange(0, i as int),
            best_tier < 4 ==> best < i && best_tier as nat == row_tier(matrix@, best as int, os, cpu),
            forall|j: int| 0 <= j < i ==> best_tier as nat <= #[trigger] row_tier(matrix@, j, os, cpu),
            best_tier < 4 ==> forall|j: int| 0 <= j < best ==> (best_tier as nat) < #[trigger] row_tier(matrix@, j, os, cpu),
        decreases matrix@.len() - i,
    {
        let t = tier(matrix[i].platform, os, cpu);
        if t < best_tier {
            best = i;
            best_tier = t;
        }
        available.push(matrix[i].platform);
        assert(available@ =~= platforms_of(matrix@).subrange(0, i + 1));
        i = i + 1;
    }
    if best_tier < 4 {
        Ok(best)
    } else {
        assert(available@ =~= platforms_of(matrix@));
        Err(NoMatchingArtifact { os, cpu, available })
    }
}

} // verus!
