use vstd::prelude::*;

use crate::backend::HostBackend;
use crate::errs::{capability_error, CapabilityError, CapabilityErrorCode};
use crate::provider::HostState;

verus! {

/// The capability families that have no vetted provider are deny-by-default:
/// every operation fails immediately with `Denied` and a descriptive
/// message, with no side effect at all. A capability without a vetted
/// implementation must never silently no-op or succeed.
impl<B: HostBackend> HostState<B> {
    /// Browser sessions are refused until a vetted provider backs them.
    pub fn open_session(&mut self) -> (r: Result<(), CapabilityError>)
        ensures
            *final(self) == *old(self),
            r matches Result::Err(e) && e.code == CapabilityErrorCode::Denied && e.message@
                == "browser capability is not implemented"@,
    {
        Result::Err(
            capability_error(CapabilityErrorCode::Denied, "browser capability is not implemented"),
        )
    }

    pub fn goto(&mut self) -> (r: Result<(), CapabilityError>)
        ensures
            *final(self) == *old(self),
            r matches Result::Err(e) && e.code == CapabilityErrorCode::Denied && e.message@
                == "browser capability is not implemented"@,
    {
        Result::Err(
            capability_error(CapabilityErrorCode::Denied, "browser capability is not implemented"),
        )
    }

    pub fn describe_page(&mut self) -> (r: Result<(), CapabilityError>)
        ensures
            *final(self) == *old(self),
            r matches Result::Err(e) && e.code == CapabilityErrorCode::Denied && e.message@
                == "browser capability is not implemented"@,
    {
        Result::Err(
            capability_error(CapabilityErrorCode::Denied, "browser capability is not implemented"),
        )
    }

    pub fn screenshot(&mut self) -> (r: Result<(), CapabilityError>)
        ensures
            *final(self) == *old(self),
            r matches Result::Err(e) && e.code == CapabilityErrorCode::Denied && e.message@
                == "browser capability is not implemented"@,
    {
        Result::Err(
            capability_error(CapabilityErrorCode::Denied, "browser capability is not implemented"),
        )
    }

    pub fn eval(&mut self) -> (r: Result<(), CapabilityError>)
        ensures
            *final(self) == *old(self),
            r matches Result::Err(e) && e.code == CapabilityErrorCode::Denied && e.message@
                == "browser capability is not implemented"@,
    {
        Result::Err(
            capability_error(CapabilityErrorCode::Denied, "browser capability is not implemented"),
        )
    }

    pub fn find(&mut self) -> (r: Result<(), CapabilityError>)
        ensures
            *final(self) == *old(self),
            r matches Result::Err(e) && e.code == CapabilityErrorCode::Denied && e.message@
                == "browser capability is not implemented"@,
    {
        Result::Err(
            capability_error(CapabilityErrorCode::Denied, "browser capability is not implemented"),
        )
    }

    pub fn query_all(&mut self) -> (r: Result<(), CapabilityError>)
        ensures
            *final(self) == *old(self),
            r matches Result::Err(e) && e.code == CapabilityErrorCode::Denied && e.message@
                == "browser capability is not implemented"@,
    {
        Result::Err(
            capability_error(CapabilityErrorCode::Denied, "browser capability is not implemented"),
        )
    }

    pub fn click(&mut self) -> (r: Result<(), CapabilityError>)
        ensures
            *final(self) == *old(self),
            r matches Result::Err(e) && e.code == CapabilityErrorCode::Denied && e.message@
                == "browser capability is not implemented"@,
    {
        Result::Err(
            capability_error(CapabilityErrorCode::Denied, "browser capability is not implemented"),
        )
    }

    pub fn type_text(&mut self) -> (r: Result<(), CapabilityError>)
        ensures
            *final(self) == *old(self),
            r matches Result::Err(e) && e.code == CapabilityErrorCode::Denied && e.message@
                == "browser capability is not implemented"@,
    {
        Result::Err(
            capability_error(CapabilityErrorCode::Denied, "browser capability is not implemented"),
        )
    }

    pub fn clear(&mut self) -> (r: Result<(), CapabilityError>)
        ensures
            *final(self) == *old(self),
            r matches Result::Err(e) && e.code == CapabilityErrorCode::Denied && e.message@
                == "browser capability is not implemented"@,
    {
        Result::Err(
            capability_error(CapabilityErrorCode::Denied, "browser capability is not implemented"),
        )
    }

    pub fn attribute(&mut self) -> (r: Result<(), CapabilityError>)
        ensures
            *final(self) == *old(self),
            r matches Result::Err(e) && e.code == CapabilityErrorCode::Denied && e.message@
                == "browser capability is not implemented"@,
    {
        Result::Err(
            capability_error(CapabilityErrorCode::Denied, "browser capability is not implemented"),
        )
    }

    pub fn inner_text(&mut self) -> (r: Result<(), CapabilityError>)
        ensures
            *final(self) == *old(self),
            r matches Result::Err(e) && e.code == CapabilityErrorCode::Denied && e.message@
                == "browser capability is not implemented"@,
    {
        Result::Err(
            capability_error(CapabilityErrorCode::Denied, "browser capability is not implemented"),
        )
    }

    pub fn html(&mut self) -> (r: Result<(), CapabilityError>)
        ensures
            *final(self) == *old(self),
            r matches Result::Err(e) && e.code == CapabilityErrorCode::Denied && e.message@
                == "browser capability is not implemented"@,
    {
        Result::Err(
            capability_error(CapabilityErrorCode::Denied, "browser capability is not implemented"),
        )
    }

    pub fn key_sequence(&mut self) -> (r: Result<(), CapabilityError>)
        ensures
            *final(self) == *old(self),
            r matches Result::Err(e) && e.code == CapabilityErrorCode::Denied && e.message@
                == "input capability is not implemented"@,
    {
        Result::Err(
            capability_error(CapabilityErrorCode::Denied, "input capability is not implemented"),
        )
    }

    pub fn send_key_chord(&mut self) -> (r: Result<(), CapabilityError>)
        ensures
            *final(self) == *old(self),
            r matches Result::Err(e) && e.code == CapabilityErrorCode::Denied && e.message@
                == "input capability is not implemented"@,
    {
        Result::Err(
            capability_error(CapabilityErrorCode::Denied, "input capability is not implemented"),
        )
    }

    pub fn mouse_move(&mut self) -> (r: Result<(), CapabilityError>)
        ensures
            *final(self) == *old(self),
            r matches Result::Err(e) && e.code == CapabilityErrorCode::Denied && e.message@
                == "input capability is not implemented"@,
    {
        Result::Err(
            capability_error(CapabilityErrorCode::Denied, "input capability is not implemented"),
        )
    }

    pub fn mouse_click(&mut self) -> (r: Result<(), CapabilityError>)
        ensures
            *final(self) == *old(self),
            r matches Result::Err(e) && e.code == CapabilityErrorCode::Denied && e.message@
                == "input capability is not implemented"@,
    {
        Result::Err(
            capability_error(CapabilityErrorCode::Denied, "input capability is not implemented"),
        )
    }

    pub fn mouse_scroll(&mut self) -> (r: Result<(), CapabilityError>)
        ensures
            *final(self) == *old(self),
            r matches Result::Err(e) && e.code == CapabilityErrorCode::Denied && e.message@
                == "input capability is not implemented"@,
    {
        Result::Err(
            capability_error(CapabilityErrorCode::Denied, "input capability is not implemented"),
        )
    }

    pub fn complete(&mut self) -> (r: Result<(), CapabilityError>)
        ensures
            *final(self) == *old(self),
            r matches Result::Err(e) && e.code == CapabilityErrorCode::Denied && e.message@
                == "llm capability is not implemented"@,
    {
        Result::Err(
            capability_error(CapabilityErrorCode::Denied, "llm capability is not implemented"),
        )
    }

    pub fn call_tools(&mut self) -> (r: Result<(), CapabilityError>)
        ensures
            *final(self) == *old(self),
            r matches Result::Err(e) && e.code == CapabilityErrorCode::Denied && e.message@
                == "llm capability is not implemented"@,
    {
        Result::Err(
            capability_error(CapabilityErrorCode::Denied, "llm capability is not implemented"),
        )
    }

    pub fn describe(&mut self) -> (r: Result<(), CapabilityError>)
        ensures
            *final(self) == *old(self),
            r matches Result::Err(e) && e.code == CapabilityErrorCode::Denied && e.message@
                == "policy capability is not implemented"@,
    {
        Result::Err(
            capability_error(CapabilityErrorCode::Denied, "policy capability is not implemented"),
        )
    }

    pub fn claim_budget(&mut self) -> (r: Result<(), CapabilityError>)
        ensures
            *final(self) == *old(self),
            r matches Result::Err(e) && e.code == CapabilityErrorCode::Denied && e.message@
                == "policy capability is not implemented"@,
    {
        Result::Err(
            capability_error(CapabilityErrorCode::Denied, "policy capability is not implemented"),
        )
    }

    pub fn request_capability(&mut self) -> (r: Result<(), CapabilityError>)
        ensures
            *final(self) == *old(self),
            r matches Result::Err(e) && e.code == CapabilityErrorCode::Denied && e.message@
                == "policy capability is not implemented"@,
    {
        Result::Err(
            capability_error(CapabilityErrorCode::Denied, "policy capability is not implemented"),
        )
    }

    pub fn log_event(&mut self) -> (r: Result<(), CapabilityError>)
        ensures
            *final(self) == *old(self),
            r matches Result::Err(e) && e.code == CapabilityErrorCode::Denied && e.message@
                == "policy capability is not implemented"@,
    {
        Result::Err(
            capability_error(CapabilityErrorCode::Denied, "policy capability is not implemented"),
        )
    }
}

} // verus!
