//! The notices that the coordinator sends, and their text.

use crate::base36::GameID;
use crate::token::{hyphenated, id_text};
use vstd::prelude::*;

verus! {

/// The text that serde_json writes for an object whose members are the
/// pairs of `members`, each a name and a string value.
pub uninterp spec fn json_object_text(members: Seq<(Seq<char>, Seq<char>)>) -> Seq<char>;

/// `Value::to_string` of serde_json, on an object that holds each pair of
/// `members` as a name and a string value, put in one after the other: the
/// object's compact JSON text.
#[verifier::external_body]
fn object_to_string(members: &Vec<(String, String)>) -> (text: String)
    ensures
        text@ == json_object_text(members.deep_view()),
{
    let mut object = serde_json::Map::new();
    for (name, value) in members.iter() {
        object.insert(name.clone(), serde_json::Value::String(value.clone()));
    }
    serde_json::Value::Object(object).to_string()
}

/// A notice to a host or a joiner.
#[derive(Debug, PartialEq, Eq)]
pub enum Status {
    /// To a host: its room is open under `game_id`.
    Registered { game_id: GameID, host_id: u128 },
    /// To a host: no room can be opened, as many are open as may be.
    ServerFull,
    /// To a joiner: the room under `game_id` was found.
    RoomFoundJoin { game_id: GameID, join_id: u128 },
    /// To a host: a joiner has found its room.
    RoomFoundHost { game_id: GameID, host_id: u128 },
    /// To a joiner: no room is open under the code that was sent.
    RoomNotFound,
    /// To a joiner: what was sent is no text.
    Invalid,
    /// To either: the coordinator shuts down.
    ServerClosed,
}

impl Status {
    /// The members of the notice: its status, then the code and the token
    /// where it has them.
    pub open spec fn members(self) -> Seq<(Seq<char>, Seq<char>)> {
        match self {
            Status::Registered { game_id, host_id } => seq![
                ("status"@, "Registered"@),
                ("game-id"@, game_id@),
                ("host-id"@, id_text(host_id)),
            ],
            Status::ServerFull => seq![("status"@, "ServerFull"@)],
            Status::RoomFoundJoin { game_id, join_id } => seq![
                ("status"@, "RoomFound"@),
                ("game-id"@, game_id@),
                ("join-id"@, id_text(join_id)),
            ],
            Status::RoomFoundHost { game_id, host_id } => seq![
                ("status"@, "RoomFound"@),
                ("game-id"@, game_id@),
                ("host-id"@, id_text(host_id)),
            ],
            Status::RoomNotFound => seq![("status"@, "RoomNotFound"@)],
            Status::Invalid => seq![("status"@, "Invalid"@)],
            Status::ServerClosed => seq![("status"@, "ServerClosed"@)],
        }
    }

    /// The text of the notice.
    pub open spec fn text(self) -> Seq<char> {
        json_object_text(self.members())
    }

    /// Writes the notice as the text that is sent.
    pub fn to_json(&self) -> (text: String)
        ensures
            text@ == self.text(),
    {
        let mut members: Vec<(String, String)> = Vec::new();
        match self {
            Status::Registered { game_id, host_id } => {
                members.push(("status".to_owned(), "Registered".to_owned()));
                members.push(("game-id".to_owned(), game_id.to_string()));
                members.push(("host-id".to_owned(), hyphenated(*host_id)));
            },
            Status::ServerFull => {
                members.push(("status".to_owned(), "ServerFull".to_owned()));
            },
            Status::RoomFoundJoin { game_id, join_id } => {
                members.push(("status".to_owned(), "RoomFound".to_owned()));
                members.push(("game-id".to_owned(), game_id.to_string()));
                members.push(("join-id".to_owned(), hyphenated(*join_id)));
            },
            Status::RoomFoundHost { game_id, host_id } => {
                members.push(("status".to_owned(), "RoomFound".to_owned()));
                members.push(("game-id".to_owned(), game_id.to_string()));
                members.push(("host-id".to_owned(), hyphenated(*host_id)));
            },
            Status::RoomNotFound => {
                members.push(("status".to_owned(), "RoomNotFound".to_owned()));
            },
            Status::Invalid => {
                members.push(("status".to_owned(), "Invalid".to_owned()));
            },
            Status::ServerClosed => {
                members.push(("status".to_owned(), "ServerClosed".to_owned()));
            },
        }
        proof {
            assert(members.deep_view() =~= self.members());
        }
        object_to_string(&members)
    }
}

} // verus!
