use vstd::prelude::*;

verus! {

/// The module name under which the guest is instantiated.
pub const ENTRY_MODULE: &'static str = "axum";

/// The guest's request-handling entry point, taking the four descriptors.
pub const ENTRY_POINT: &'static str = "__SHUTTLE_Axum_call";

/// The descriptor through which the guest writes its log records.
pub const LOGS_FD: u32 = 20;

/// The descriptor carrying request metadata in and response metadata out.
pub const PARTS_FD: u32 = 3;

/// The descriptor from which the guest reads the request body.
pub const BODY_WRITE_FD: u32 = 4;

/// The descriptor to which the guest writes the response body.
pub const BODY_READ_FD: u32 = 5;

/// The role of one of the four channels of a session.
#[derive(Clone, Copy, Debug, PartialEq, Eq, Structural)]
pub enum ChannelRole {
    Logs,
    Parts,
    BodyWrite,
    BodyRead,
}

pub open spec fn slot_spec(role: ChannelRole) -> u32 {
    match role {
        ChannelRole::Logs => LOGS_FD,
        ChannelRole::Parts => PARTS_FD,
        ChannelRole::BodyWrite => BODY_WRITE_FD,
        ChannelRole::BodyRead => BODY_READ_FD,
    }
}

/// The descriptor under which the guest finds the channel of `role`.
pub fn slot(role: ChannelRole) -> (r: u32)
    ensures
        r == slot_spec(role),
{
    match role {
        ChannelRole::Logs => LOGS_FD,
        ChannelRole::Parts => PARTS_FD,
        ChannelRole::BodyWrite => BODY_WRITE_FD,
        ChannelRole::BodyRead => BODY_READ_FD,
    }
}

/// Different roles never share a descriptor.
pub proof fn lemma_slots_distinct(a: ChannelRole, b: ChannelRole)
    requires
        a != b,
    ensures
        slot_spec(a) != slot_spec(b),
{
}

/// The four descriptors handed to the guest's entry point, in its argument order.
#[derive(Clone, Copy, Debug, PartialEq, Eq, Structural)]
pub struct ChannelTable {
    pub logs: u32,
    pub parts: u32,
    pub body_write: u32,
    pub body_read: u32,
}

impl ChannelTable {
    /// Four different descriptors, each one a valid guest argument.
    pub open spec fn wf(&self) -> bool {
        &&& self.logs <= i32::MAX && self.parts <= i32::MAX
        &&& self.body_write <= i32::MAX && self.body_read <= i32::MAX
        &&& self.logs != self.parts && self.logs != self.body_write && self.logs != self.body_read
        &&& self.parts != self.body_write && self.parts != self.body_read
        &&& self.body_write != self.body_read
    }

    pub open spec fn handle_spec(&self, role: ChannelRole) -> u32 {
        match role {
            ChannelRole::Logs => self.logs,
            ChannelRole::Parts => self.parts,
            ChannelRole::BodyWrite => self.body_write,
            ChannelRole::BodyRead => self.body_read,
        }
    }

    /// The table that every session uses.
    pub fn standard() -> (r: Self)
        ensures
            r.wf(),
            forall|role: ChannelRole| #[trigger] r.handle_spec(role) == slot_spec(role),
    {
        ChannelTable {
            logs: slot(ChannelRole::Logs),
            parts: slot(ChannelRole::Parts),
            body_write: slot(ChannelRole::BodyWrite),
            body_read: slot(ChannelRole::BodyRead),
        }
    }

    pub fn handle(&self, role: ChannelRole) -> (r: u32)
        ensures
            r == self.handle_spec(role),
    {
        match role {
            ChannelRole::Logs => self.logs,
            ChannelRole::Parts => self.parts,
            ChannelRole::BodyWrite => self.body_write,
            ChannelRole::BodyRead => self.body_read,
        }
    }

    /// The arguments of the guest's entry point: logs, parts, body-write, body-read.
    pub fn invoke_args(&self) -> (r: (i32, i32, i32, i32))
        requires
            self.wf(),
        ensures
            r.0 as int == self.logs as int,
            r.1 as int == self.parts as int,
            r.2 as int == self.body_write as int,
            r.3 as int == self.body_read as int,
    {
        (self.logs as i32, self.parts as i32, self.body_write as i32, self.body_read as i32)
    }
}

} // verus!
