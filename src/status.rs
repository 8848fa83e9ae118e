//! The Server List Ping status document.
//!
//! See: <https://minecraft.wiki/w/Java_Edition_protocol/Server_List_Ping#Status_Response>
use vstd::prelude::*;

use crate::data::{latest_supported_version, spec_latest_version, version_text, PROTOCOL_VERSION};

verus! {

/// The read-only configuration snapshot that the protocol engine consults.
#[derive(Clone, Debug)]
pub struct Settings {
    /// Whether the server answers status requests and legacy pings.
    pub status: bool,
    /// The Message of the Day.
    pub motd: String,
    /// The maximum number of players allowed on the server.
    pub max_players: u32,
    /// The server icon, as a base64 PNG data URL.
    pub favicon: Option<String>,
}

/// The version of Minecraft the server supports.
#[derive(Clone, Debug)]
pub struct Version {
    /// The name of the version, e.g. "1.21.1"
    pub name: String,
    /// The protocol version, e.g. 774
    pub protocol: u16,
}

/// A player who is currently online on the server.
#[derive(Clone, Debug)]
pub struct SamplePlayer {
    /// The player's username.
    pub name: String,
    /// The player's UUID.
    pub id: String,
}

/// Information about the players on the server.
#[derive(Clone, Debug)]
pub struct Players {
    /// How many players can the server support at once.
    pub max: u32,
    /// How many players are currently online.
    pub online: u32,
    /// A sample of the players currently online.
    pub sample: Vec<SamplePlayer>,
}

/// A text component containing the server's MOTD.
#[derive(Clone, Debug)]
pub struct Description {
    /// The text of the MOTD.
    pub text: String,
}

/// The status document that answers a status request.
#[derive(Clone, Debug)]
pub struct StatusResponsePayload {
    /// The version of Minecraft the server supports.
    pub version: Version,
    /// Information about the players on the server.
    pub players: Players,
    /// The server's MOTD.
    pub description: Description,
    /// The server's favicon, if it has one.
    pub favicon: Option<String>,
    /// Whether the server enforces secure chat.
    pub secure_chat: bool,
}

/// What a status document says.
pub struct StatusView {
    pub version_name: Seq<char>,
    pub protocol: u16,
    pub max: u32,
    pub online: u32,
    pub sample: Seq<(Seq<char>, Seq<char>)>,
    pub motd: Seq<char>,
    pub favicon: Option<Seq<char>>,
    pub secure_chat: bool,
}

/// The text of an optional string.
pub open spec fn opt_view(s: Option<String>) -> Option<Seq<char>> {
    match s {
        Some(t) => Some(t@),
        None => None,
    }
}

impl View for StatusResponsePayload {
    type V = StatusView;

    open spec fn view(&self) -> StatusView {
        StatusView {
            version_name: self.version.name@,
            protocol: self.version.protocol,
            max: self.players.max,
            online: self.players.online,
            sample: self.players.sample@.map_values(|p: SamplePlayer| (p.name@, p.id@)),
            motd: self.description.text@,
            favicon: opt_view(self.favicon),
            secure_chat: self.secure_chat,
        }
    }
}

/// The status document of a server with `settings` and `online` live connections:
/// the latest supported version, no player sample, secure chat not enforced.
pub open spec fn status_view(settings: Settings, online: u32) -> StatusView {
    StatusView {
        version_name: version_text(spec_latest_version()),
        protocol: PROTOCOL_VERSION,
        max: settings.max_players,
        online,
        sample: Seq::empty(),
        motd: settings.motd@,
        favicon: opt_view(settings.favicon),
        secure_chat: false,
    }
}

/// Builds the status document of a server with `settings` and `online` live connections.
pub fn build_status(settings: &Settings, online: u32) -> (r: StatusResponsePayload)
    ensures
        r@ == status_view(*settings, online),
{
    let favicon = match &settings.favicon {
        Some(f) => Some(f.clone()),
        None => None,
    };
    let sample: Vec<SamplePlayer> = Vec::new();
    let r = StatusResponsePayload {
        version: Version { name: latest_supported_version().name(), protocol: PROTOCOL_VERSION },
        players: Players { max: settings.max_players, online, sample },
        description: Description { text: settings.motd.clone() },
        favicon,
        secure_chat: false,
    };
    assert(r@.sample == Seq::<(Seq<char>, Seq<char>)>::empty());
    r
}

} // verus!
