//! Which live event loop drives the process.

use vstd::prelude::*;

use crate::text::{own, str_eq};

verus! {

#[derive(Debug, Clone, Copy, PartialEq, Eq, Structural)]
pub enum Backend {
    /// Nested in a host session, in a window.
    Winit,
    /// A native DRM/KMS session.
    Udev,
}

/// Which backends were compiled in.
#[derive(Debug, Clone, Copy, PartialEq, Eq, Structural)]
pub struct Compiled {
    pub runtime: bool,
    pub udev: bool,
}

/// The native session when it was compiled in, otherwise the nested one.
pub fn default_backend(compiled: Compiled) -> (r: Backend)
    ensures
        r == (if compiled.udev {
            Backend::Udev
        } else {
            Backend::Winit
        }),
{
    if compiled.udev {
        Backend::Udev
    } else {
        Backend::Winit
    }
}

/// Choose a backend by `$BACAK_BACKEND` first, then by what was compiled in.
/// Unknown values fall back to the default.
pub fn select_backend(wanted: Option<&str>, compiled: Compiled) -> (r: Backend)
    ensures
        r == (match wanted {
            Some(w) if w@ == "udev"@ => Backend::Udev,
            Some(w) if w@ == "winit"@ => Backend::Winit,
            _ => if compiled.udev {
                Backend::Udev
            } else {
                Backend::Winit
            },
        }),
{
    if let Some(w) = wanted {
        if str_eq(w, "udev") {
            return Backend::Udev;
        }
        if str_eq(w, "winit") {
            return Backend::Winit;
        }
    }
    default_backend(compiled)
}

/// The backend to run, or why it cannot: it was not compiled in.
pub fn run_backend(backend: Backend, compiled: Compiled) -> (r: Result<Backend, String>)
    ensures
        match (r, backend) {
            (Ok(b), Backend::Winit) => b == backend && compiled.runtime,
            (Ok(b), Backend::Udev) => b == backend && compiled.udev,
            (Err(m), Backend::Winit) => !compiled.runtime && m@
                == "winit backend requested but `runtime` cargo feature is disabled"@,
            (Err(m), Backend::Udev) => !compiled.udev && m@
                == "udev backend requested but `udev` cargo feature is disabled"@,
        },
{
    match backend {
        Backend::Winit => {
            if compiled.runtime {
                Ok(backend)
            } else {
                Err(own("winit backend requested but `runtime` cargo feature is disabled"))
            }
        },
        Backend::Udev => {
            if compiled.udev {
                Ok(backend)
            } else {
                Err(own("udev backend requested but `udev` cargo feature is disabled"))
            }
        },
    }
}

} // verus!
