//! The control protocol: message types and the frames that carry them.
pub mod message;
pub mod codec;

pub use codec::{MessageCodec, RawFrame};

pub use message::{
    CloseProxyMsg, LoginMsg, LoginRespMsg, Message, NatHoleClientMsg, NatHoleRespMsg,
    NatHoleVisitorMsg, NewProxyMsg, NewProxyRespMsg, NewWorkConnMsg, PingMsg, PongMsg,
    ReqWorkConnMsg, ServerShutdownMsg, StartWorkConnMsg, StcpVisitorConnMsg, UdpPacketMsg,
};
