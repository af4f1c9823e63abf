//! What the database holds, and the single-row changes that a transaction is made of.

use crate::storage::records::PlayerStats;
use vstd::prelude::*;

verus! {

/// The contents of the database.
#[verifier::ext_equal]
pub struct Tables {
    /// The bridged channel, its guild and the address of the Minecraft server.
    pub bridge: Option<(u64, u64, Seq<char>)>,
    /// Player name to UUID.
    pub username_uuid: Map<Seq<char>, Seq<char>>,
    /// UUID to what is known of the player.
    pub players: Map<Seq<char>, PlayerStats>,
    /// UUID and day to seconds played.
    pub daily_play_time: Map<(Seq<char>, Seq<char>), u64>,
    /// Discord user to player name.
    pub dc_to_mc: Map<u64, Seq<char>>,
    /// Player name to Discord user.
    pub mc_to_dc: Map<Seq<char>, u64>,
    pub join_leave_optout: Map<u64, bool>,
    pub mute_mention: Map<u64, bool>,
    /// Discord user to the second at which the mute ends, 0 for never.
    pub muted_users: Map<u64, u64>,
    pub privacy_enabled: Option<bool>,
    pub player_profile_enabled: Option<bool>,
}

/// A change of one row.
#[derive(Debug, PartialEq)]
pub enum RowWrite {
    PutBridge { channel_id: u64, guild_id: u64, mc_server_address: String },
    RemoveBridge,
    PutUuid { username: String, uuid: String },
    PutPlayer { uuid: String, stats: PlayerStats },
    PutDailyPlayTime { uuid: String, date: String, secs: u64 },
    PutDcToMc { discord_id: u64, mc_username: String },
    RemoveDcToMc { discord_id: u64 },
    PutMcToDc { mc_username: String, discord_id: u64 },
    RemoveMcToDc { mc_username: String },
    PutJoinLeaveOptout { discord_id: u64 },
    RemoveJoinLeaveOptout { discord_id: u64 },
    PutMuteMention { discord_id: u64 },
    RemoveMuteMention { discord_id: u64 },
    PutMutedUser { discord_id: u64, expiry_ts: u64 },
    RemoveMutedUser { discord_id: u64 },
    PutPrivacyEnabled { enabled: bool },
    PutPlayerProfileEnabled { enabled: bool },
}

/// The database after a change of one row.
pub open spec fn written(t: Tables, w: RowWrite) -> Tables {
    match w {
        RowWrite::PutBridge { channel_id, guild_id, mc_server_address } => Tables {
            bridge: Some((channel_id, guild_id, mc_server_address@)),
            ..t
        },
        RowWrite::RemoveBridge => Tables { bridge: None, ..t },
        RowWrite::PutUuid { username, uuid } => Tables {
            username_uuid: t.username_uuid.insert(username@, uuid@),
            ..t
        },
        RowWrite::PutPlayer { uuid, stats } => Tables {
            players: t.players.insert(uuid@, stats),
            ..t
        },
        RowWrite::PutDailyPlayTime { uuid, date, secs } => Tables {
            daily_play_time: t.daily_play_time.insert((uuid@, date@), secs),
            ..t
        },
        RowWrite::PutDcToMc { discord_id, mc_username } => Tables {
            dc_to_mc: t.dc_to_mc.insert(discord_id, mc_username@),
            ..t
        },
        RowWrite::RemoveDcToMc { discord_id } => Tables {
            dc_to_mc: t.dc_to_mc.remove(discord_id),
            ..t
        },
        RowWrite::PutMcToDc { mc_username, discord_id } => Tables {
            mc_to_dc: t.mc_to_dc.insert(mc_username@, discord_id),
            ..t
        },
        RowWrite::RemoveMcToDc { mc_username } => Tables {
            mc_to_dc: t.mc_to_dc.remove(mc_username@),
            ..t
        },
        RowWrite::PutJoinLeaveOptout { discord_id } => Tables {
            join_leave_optout: t.join_leave_optout.insert(discord_id, true),
            ..t
        },
        RowWrite::RemoveJoinLeaveOptout { discord_id } => Tables {
            join_leave_optout: t.join_leave_optout.remove(discord_id),
            ..t
        },
        RowWrite::PutMuteMention { discord_id } => Tables {
            mute_mention: t.mute_mention.insert(discord_id, true),
            ..t
        },
        RowWrite::RemoveMuteMention { discord_id } => Tables {
            mute_mention: t.mute_mention.remove(discord_id),
            ..t
        },
        RowWrite::PutMutedUser { discord_id, expiry_ts } => Tables {
            muted_users: t.muted_users.insert(discord_id, expiry_ts),
            ..t
        },
        RowWrite::RemoveMutedUser { discord_id } => Tables {
            muted_users: t.muted_users.remove(discord_id),
            ..t
        },
        RowWrite::PutPrivacyEnabled { enabled } => Tables { privacy_enabled: Some(enabled), ..t },
        RowWrite::PutPlayerProfileEnabled { enabled } => Tables {
            player_profile_enabled: Some(enabled),
            ..t
        },
    }
}

/// The database after a transaction.
pub open spec fn written_all(t: Tables, ws: Seq<RowWrite>) -> Tables
    decreases ws.len(),
{
    if ws.len() == 0 {
        t
    } else {
        written(written_all(t, ws.drop_last()), ws.last())
    }
}

/// A transaction with one more change.
pub proof fn lemma_written_push(t: Tables, ws: Seq<RowWrite>, w: RowWrite)
    ensures
        written_all(t, ws.push(w)) == written(written_all(t, ws), w),
{
    assert(ws.push(w).drop_last() =~= ws);
}

/// A transaction of one change.
pub fn one(w: RowWrite) -> (r: Vec<RowWrite>)
    ensures
        forall|t: Tables| #[trigger] written_all(t, r@) == written(t, w),
{
    let mut r: Vec<RowWrite> = Vec::new();
    r.push(w);
    proof {
        assert forall|t: Tables| #[trigger] written_all(t, r@) == written(t, w) by {
            lemma_written_push(t, Seq::empty(), w);
            assert(r@ =~= Seq::<RowWrite>::empty().push(w));
        }
    }
    r
}

} // verus!
