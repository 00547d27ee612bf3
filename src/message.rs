//! The routed message: its kind, its addressing fields and its body.
use vstd::prelude::*;

verus! {

#[derive(Clone, Copy, Debug, PartialEq, Eq, Structural)]
pub enum MessageType {
    MethodCall,
    MethodReturn,
    Error,
    Signal,
}

/// The fields of a message that routing and matching look at.
#[derive(Debug)]
pub struct Header {
    pub msg_type: MessageType,
    pub serial: u32,
    pub sender: Option<Vec<u8>>,
    pub destination: Option<Vec<u8>>,
    pub path: Option<Vec<u8>>,
    pub interface: Option<Vec<u8>>,
    pub member: Option<Vec<u8>>,
    pub error_name: Option<Vec<u8>>,
    pub reply_serial: Option<u32>,
    /// The leading string arguments of the body, which match rules can test.
    pub args: Vec<Vec<u8>>,
}

pub struct HeaderView {
    pub msg_type: MessageType,
    pub serial: u32,
    pub sender: Option<Seq<u8>>,
    pub destination: Option<Seq<u8>>,
    pub path: Option<Seq<u8>>,
    pub interface: Option<Seq<u8>>,
    pub member: Option<Seq<u8>>,
    pub error_name: Option<Seq<u8>>,
    pub reply_serial: Option<u32>,
    pub args: Seq<Seq<u8>>,
}

pub open spec fn opt_bytes(o: Option<Vec<u8>>) -> Option<Seq<u8>> {
    match o {
        Some(v) => Some(v@),
        None => None,
    }
}

impl View for Header {
    type V = HeaderView;

    open spec fn view(&self) -> HeaderView {
        HeaderView {
            msg_type: self.msg_type,
            serial: self.serial,
            sender: opt_bytes(self.sender),
            destination: opt_bytes(self.destination),
            path: opt_bytes(self.path),
            interface: opt_bytes(self.interface),
            member: opt_bytes(self.member),
            error_name: opt_bytes(self.error_name),
            reply_serial: self.reply_serial,
            args: self.args@.map_values(|a: Vec<u8>| a@),
        }
    }
}

} // verus!
