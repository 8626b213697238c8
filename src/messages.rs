use vstd::prelude::*;

verus! {

/// A message from a chat client to the relay.
#[derive(Debug)]
pub enum ClientMessage {
    SetUsername(String),
    GetRooms,
    /// The room's id.
    JoinRoom(String),
    SendChatMessage(String),
}

/// A message from the relay to a chat client.
#[derive(Debug)]
pub enum ServerMessage {
    /// Seconds since the Unix epoch, the sender's username, the message.
    BroadcastChatMessage(u64, String, String),
    GetRoomsResponse(Vec<String>),
    JoinRoomResponse(Result<(), String>),
}

} // verus!
