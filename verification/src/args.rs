//! What the command line asks for.

use vstd::prelude::*;

verus! {

/// The options of a run.
#[derive(Debug)]
pub struct Args {
    /// The connection string, if one is given.
    pub connect: Option<String>,
    /// The PX4 source checkout, if one is given.
    pub px4_source: Option<String>,
    /// The SSH target for VOXL discovery.
    pub voxl_ssh: Option<String>,
    /// Whether to discover over ADB, and the serial of the device.
    pub voxl_adb: Option<Option<String>>,
    /// The VOXL parameter checkout, if one is given.
    pub voxl_params_source: Option<String>,
    /// The airframe to compare against in place of the device's.
    pub sys_autostart: Option<i32>,
    /// The seconds to wait for the parameters.
    pub param_timeout: u64,
    /// Whether to say more.
    pub verbose: bool,
    /// Whether to print a table in place of the terminal interface.
    pub plain: bool,
    /// Whether to write every numeric diff.
    pub write_diffs: bool,
    /// Whether writes go without a confirmation.
    pub yes: bool,
    /// The seconds to wait for the confirmation of a write.
    pub write_timeout: u64,
    /// Whether to list the serial ports and stop.
    pub list_ports: bool,
}

impl Default for Args {
    fn default() -> (r: Args)
        ensures
            r.connect is None,
            r.px4_source is None,
            r.voxl_ssh is None,
            r.voxl_adb is None,
            r.voxl_params_source is None,
            r.sys_autostart is None,
            r.param_timeout == 15,
            !r.verbose,
            !r.plain,
            !r.write_diffs,
            !r.yes,
            r.write_timeout == 3,
            !r.list_ports,
    {
        Args {
            connect: None,
            px4_source: None,
            voxl_ssh: None,
            voxl_adb: None,
            voxl_params_source: None,
            sys_autostart: None,
            param_timeout: 15,
            verbose: false,
            plain: false,
            write_diffs: false,
            yes: false,
            write_timeout: 3,
            list_ports: false,
        }
    }
}

impl Args {
    /// Whether VOXL discovery is asked for.
    pub open spec fn asks_voxl(self) -> bool {
        self.voxl_ssh is Some || self.voxl_adb is Some
    }

    /// Whether VOXL discovery is asked for.
    pub fn voxl_requested(&self) -> (r: bool)
        ensures
            r == self.asks_voxl(),
    {
        self.voxl_ssh.is_some() || self.voxl_adb.is_some()
    }
}

} // verus!
