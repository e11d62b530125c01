//! What the device is asked for.

use vstd::prelude::*;

use crate::vehicle::VehicleIdentity;

verus! {

/// The number of the message that tells the version of an autopilot.
pub const AUTOPILOT_VERSION_ID: u16 = 148;

/// A request to a device.
#[derive(Debug, Clone, Copy, PartialEq, Eq, Structural)]
pub enum Request {
    /// To send a message of a kind once.
    Message {
        /// The system of the device.
        target_system: u8,
        /// The component of the device.
        target_component: u8,
        /// The number of the message.
        message_id: u16,
    },
    /// To send all parameters.
    ParamList {
        /// The system of the device.
        target_system: u8,
        /// The component of the device.
        target_component: u8,
    },
    /// To send the parameter with an index.
    ParamRead {
        /// The system of the device.
        target_system: u8,
        /// The component of the device.
        target_component: u8,
        /// The index of the parameter.
        param_index: i16,
    },
}

/// Asks a vehicle for the version of its autopilot.
pub fn request_autopilot_version(identity: &VehicleIdentity) -> (r: Request)
    ensures
        r == (Request::Message {
            target_system: identity.system_id,
            target_component: identity.component_id,
            message_id: AUTOPILOT_VERSION_ID,
        }),
{
    Request::Message {
        target_system: identity.system_id,
        target_component: identity.component_id,
        message_id: AUTOPILOT_VERSION_ID,
    }
}

/// Asks a vehicle for all its parameters.
pub fn request_params(identity: &VehicleIdentity) -> (r: Request)
    ensures
        r == (Request::ParamList {
            target_system: identity.system_id,
            target_component: identity.component_id,
        }),
{
    Request::ParamList {
        target_system: identity.system_id,
        target_component: identity.component_id,
    }
}

/// Asks a vehicle for the parameter with an index.
pub fn request_param_by_index(identity: &VehicleIdentity, index: i16) -> (r: Request)
    ensures
        r == (Request::ParamRead {
            target_system: identity.system_id,
            target_component: identity.component_id,
            param_index: index,
        }),
{
    Request::ParamRead {
        target_system: identity.system_id,
        target_component: identity.component_id,
        param_index: index,
    }
}

} // verus!
