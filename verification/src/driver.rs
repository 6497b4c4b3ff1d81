//! The driver installation's layout: where it lives, which launcher script
//! starts it, and the stub that launcher must hold. Reading and writing the
//! files is the host's job; every decision about names, paths and content is
//! taken here.

use vstd::prelude::*;

use crate::json::str_eq;
use vstd::string::StringExecFns;

verus! {

/// The platforms a driver build targets.
#[derive(Clone, Copy, PartialEq, Eq, Structural, Debug)]
pub enum Platform {
    Linux,
    LinuxArm64,
    Win32,
    Win32x64,
    Mac,
    MacArm64,
}

/// The platform a build label names.
pub open spec fn platform_of_name(name: Seq<char>) -> Option<Platform> {
    if name == "linux"@ {
        Some(Platform::Linux)
    } else if name == "linux-arm64"@ {
        Some(Platform::LinuxArm64)
    } else if name == "mac"@ {
        Some(Platform::Mac)
    } else if name == "mac-arm64"@ {
        Some(Platform::MacArm64)
    } else if name == "win32"@ {
        Some(Platform::Win32)
    } else if name == "win32_x64"@ {
        Some(Platform::Win32x64)
    } else {
        None
    }
}

impl Platform {
    /// Map a build label to its platform; an unknown label maps to nothing.
    pub fn from_name(name: &str) -> (r: Option<Platform>)
        ensures
            r == platform_of_name(name@),
    {
        if str_eq(name, "linux") {
            Some(Platform::Linux)
        } else if str_eq(name, "linux-arm64") {
            Some(Platform::LinuxArm64)
        } else if str_eq(name, "mac") {
            Some(Platform::Mac)
        } else if str_eq(name, "mac-arm64") {
            Some(Platform::MacArm64)
        } else if str_eq(name, "win32") {
            Some(Platform::Win32)
        } else if str_eq(name, "win32_x64") {
            Some(Platform::Win32x64)
        } else {
            None
        }
    }

    /// Whether the platform starts the driver through a shell script rather
    /// than a command file.
    pub fn uses_shell(&self) -> (r: bool)
        ensures
            r == (*self == Platform::Linux || *self == Platform::LinuxArm64 || *self
                == Platform::Mac || *self == Platform::MacArm64),
    {
        match self {
            Platform::Linux => true,
            Platform::LinuxArm64 => true,
            Platform::Mac => true,
            Platform::MacArm64 => true,
            Platform::Win32 => false,
            Platform::Win32x64 => false,
        }
    }
}

/// The launcher file's name on a platform.
pub open spec fn launcher_name(p: Platform) -> Seq<char> {
    if p == Platform::Win32 || p == Platform::Win32x64 {
        "playwright.cmd"@
    } else {
        "playwright.sh"@
    }
}

/// The driver installation: where it was unpacked, and for which platform.
pub struct Driver {
    pub path: String,
    pub platform: Platform,
}

impl Driver {
    /// A driver at a path, without preparing anything.
    pub fn new(path: String, platform: Platform) -> (r: Driver)
        ensures
            r.path == path,
            r.platform == platform,
    {
        Driver { path, platform }
    }

    /// The platform this driver was built for.
    pub fn platform(&self) -> (r: Platform)
        ensures
            r == self.platform,
    {
        self.platform
    }

    /// The path of the launcher script that starts the driver.
    pub fn launcher_path(&self) -> (r: String)
        ensures
            r@ == self.path@ + "/"@ + launcher_name(self.platform),
    {
        let mut p = self.path.clone();
        p.append("/");
        if self.platform().uses_shell() {
            p.append("playwright.sh");
        } else {
            p.append("playwright.cmd");
        }
        proof {
            assert(p@ =~= self.path@ + "/"@ + launcher_name(self.platform));
        }
        p
    }

    /// The executable the connection spawns: the launcher.
    pub fn executable(&self) -> (r: String)
        ensures
            r@ == self.path@ + "/"@ + launcher_name(self.platform),
    {
        self.launcher_path()
    }

    /// Decide an installation: the driver lives at `dest`, and it must be
    /// unpacked first exactly when the directory is not already there.
    pub fn install(dest: String, platform: Platform, dest_is_dir: bool) -> (r: (Driver, bool))
        ensures
            r.0.path == dest,
            r.0.platform == platform,
            r.1 == !dest_is_dir,
    {
        (Driver { path: dest, platform }, !dest_is_dir)
    }

    /// Decide where the driver goes: an explicit override wins; otherwise
    /// the cache directory, or the temporary directory when no cache exists,
    /// under the driver's own folders — falling back wholesale to the
    /// temporary directory when that place cannot be written.
    pub fn default_dest(
        override_dir: Option<String>,
        cache_dir: Option<String>,
        temp_dir: &str,
        cache_writable: bool,
    ) -> (r: String)
        ensures
            override_dir matches Some(d) ==> r == d,
            override_dir is None && cache_writable ==> r@ == (match cache_dir {
                Some(c) => c@,
                None => temp_dir@,
            }) + "/ms-playwright/playwright-rust/driver"@,
            override_dir is None && !cache_writable ==> r@ == temp_dir@
                + "/playwright-rust/driver"@,
    {
        match override_dir {
            Some(d) => d,
            None => {
                if cache_writable {
                    let mut base = match cache_dir {
                        Some(c) => c,
                        None => temp_dir.to_owned(),
                    };
                    base.append("/ms-playwright/playwright-rust/driver");
                    base
                } else {
                    let mut base = temp_dir.to_owned();
                    base.append("/playwright-rust/driver");
                    base
                }
            },
        }
    }

    /// The text of the launcher stub for this platform. On shell platforms
    /// it starts the driver and parks the event loop; on command platforms
    /// the stub does the same through the given node executable name.
    pub fn launcher_stub(&self, node_name: &str) -> (r: String)
        ensures
            self.platform.uses_shell_spec() ==> r@ == unix_stub_text(),
            !self.platform.uses_shell_spec() ==> r@ == windows_stub_text(node_name@),
    {
        if self.platform().uses_shell() {
            let r = "#!/bin/sh\nset -e\nDIR=\"$(CDPATH= cd -- \"$(dirname \"$0\")\" && pwd)\"\nexport PW_DRIVER_DIR=\"$DIR\"\nif [ \"${1-}\" = \"run-driver\" ]; then\n  exec \"$DIR/node\" -e \"const path=require('path');const dir=process.env.PW_DRIVER_DIR;const driver=require(path.join(dir,'package','lib','cli','driver'));driver.runDriver();setInterval(()=>{},2147483647);\" \"$@\"\nelse\n  exec \"$DIR/node\" \"$DIR/package/cli.js\" \"$@\"\nfi\n".to_owned();
            proof {
                assert(r@ =~= unix_stub_text());
            }
            r
        } else {
            let mut r =
                "@echo off\r\nsetlocal\r\nset \"DIR=%~dp0\"\r\nset \"PW_DRIVER_DIR=%DIR%\"\r\nif \"%1\"==\"run-driver\" (\r\n  \"".to_owned();
            r.append(node_name);
            r.append(
                "\" -e \"const path=require('path');const dir=process.env.PW_DRIVER_DIR;const driver=require(path.join(dir,'package','lib','cli','driver'));driver.runDriver();setInterval(()=>{},2147483647);\" %*\r\n) else (\r\n  \"",
            );
            r.append(node_name);
            r.append("\" \"%DIR%package\\cli.js\" %*\r\n)\r\n");
            proof {
                assert(r@ =~= windows_stub_text(node_name@));
            }
            r
        }
    }
}

impl Platform {
    /// Whether the platform starts the driver through a shell script.
    pub open spec fn uses_shell_spec(&self) -> bool {
        *self == Platform::Linux || *self == Platform::LinuxArm64 || *self == Platform::Mac
            || *self == Platform::MacArm64
    }
}

/// The shell launcher stub.
pub open spec fn unix_stub_text() -> Seq<char> {
    "#!/bin/sh\nset -e\nDIR=\"$(CDPATH= cd -- \"$(dirname \"$0\")\" && pwd)\"\nexport PW_DRIVER_DIR=\"$DIR\"\nif [ \"${1-}\" = \"run-driver\" ]; then\n  exec \"$DIR/node\" -e \"const path=require('path');const dir=process.env.PW_DRIVER_DIR;const driver=require(path.join(dir,'package','lib','cli','driver'));driver.runDriver();setInterval(()=>{},2147483647);\" \"$@\"\nelse\n  exec \"$DIR/node\" \"$DIR/package/cli.js\" \"$@\"\nfi\n"@
}

/// The command-file launcher stub, around the node executable's name.
pub open spec fn windows_stub_text(node: Seq<char>) -> Seq<char> {
    "@echo off\r\nsetlocal\r\nset \"DIR=%~dp0\"\r\nset \"PW_DRIVER_DIR=%DIR%\"\r\nif \"%1\"==\"run-driver\" (\r\n  \""@
        + node
        + "\" -e \"const path=require('path');const dir=process.env.PW_DRIVER_DIR;const driver=require(path.join(dir,'package','lib','cli','driver'));driver.runDriver();setInterval(()=>{},2147483647);\" %*\r\n) else (\r\n  \""@
        + node + "\" \"%DIR%package\\cli.js\" %*\r\n)\r\n"@
}

} // verus!
