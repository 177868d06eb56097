//! The hosts a job can target.

use vstd::prelude::*;
use crate::text::same_text;

verus! {

/// A kind of host that a job runs on.
#[derive(Clone, Copy, Debug, PartialEq, Eq, Structural)]
pub enum Platform {
    UbuntuLatest,
    MacOSLatest,
    WindowsLatest,
}

impl Platform {
    /// The name under which a workflow document asks for this platform.
    pub open spec fn label(self) -> Seq<char> {
        match self {
            Platform::UbuntuLatest => "ubuntu-latest"@,
            Platform::MacOSLatest => "macos-latest"@,
            Platform::WindowsLatest => "windows-latest"@,
        }
    }

    /// The operating-system identifier that a host of this platform reports.
    pub open spec fn os(self) -> Seq<char> {
        match self {
            Platform::UbuntuLatest => "linux"@,
            Platform::MacOSLatest => "macos"@,
            Platform::WindowsLatest => "windows"@,
        }
    }

    /// Every supported platform, in the order in which jobs are generated.
    pub open spec fn all() -> Seq<Platform> {
        seq![Platform::UbuntuLatest, Platform::MacOSLatest, Platform::WindowsLatest]
    }

    /// The supported platforms.
    pub fn latest() -> (platforms: Vec<Platform>)
        ensures
            platforms@ == Platform::all(),
    {
        let mut platforms: Vec<Platform> = Vec::new();
        platforms.push(Platform::UbuntuLatest);
        platforms.push(Platform::MacOSLatest);
        platforms.push(Platform::WindowsLatest);
        assert(platforms@ =~= Platform::all());
        platforms
    }

    /// Whether a host that reports the operating system `os` is of this
    /// platform.
    pub fn is_current(self, os: &str) -> (current: bool)
        ensures
            current == (os@ == self.os()),
    {
        match self {
            Platform::UbuntuLatest => same_text(os, "linux"),
            Platform::MacOSLatest => same_text(os, "macos"),
            Platform::WindowsLatest => same_text(os, "windows"),
        }
    }

    /// The platform's name in a workflow document.
    pub fn as_str(self) -> (name: &'static str)
        ensures
            name@ == self.label(),
    {
        match self {
            Platform::UbuntuLatest => "ubuntu-latest",
            Platform::MacOSLatest => "macos-latest",
            Platform::WindowsLatest => "windows-latest",
        }
    }
}

/// Different platforms carry different labels.
pub proof fn lemma_labels_differ(a: Platform, b: Platform)
    requires
        a != b,
    ensures
        a.label() != b.label(),
        a.label().len() != b.label().len(),
{
    reveal_strlit("ubuntu-latest");
    reveal_strlit("macos-latest");
    reveal_strlit("windows-latest");
}

/// A host is of at most one platform.
pub proof fn lemma_one_platform_per_host(a: Platform, b: Platform, os: Seq<char>)
    requires
        os == a.os(),
        os == b.os(),
    ensures
        a == b,
{
    reveal_strlit("linux");
    reveal_strlit("macos");
    reveal_strlit("windows");
    assert("linux"@[0] == 'l');
    assert("macos"@[0] == 'm');
    assert("windows"@.len() == 7);
    assert("linux"@.len() == 5);
    assert("macos"@.len() == 5);
}

} // verus!
