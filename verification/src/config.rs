//! The plugin's configuration and the filtering rules it defines.
use vstd::prelude::*;

use crate::channel_map::{first_name_for, ChannelMap};
use crate::text::{contains_str, views};

verus! {

/// Configuration of the Discord integration.
#[derive(Debug, Clone)]
pub struct Config {
    pub bot_token: String,
    pub guild_id: String,
    /// Names of the channels to listen in; empty means every channel.
    pub listen_channels: Vec<String>,
    /// IDs of the users whose messages are accepted; empty means every user.
    pub allowed_user_ids: Vec<String>,
    pub chat_endpoint: String,
    pub chat_secret: Option<String>,
    pub chat_channel_name: String,
    /// Friendly channel names mapped to Discord channel IDs.
    pub channels: ChannelMap,
}

/// The chat endpoint used when the configuration names none.
pub fn default_chat_endpoint() -> (endpoint: String)
    ensures
        endpoint@ == "http://127.0.0.1:3100/chat"@,
{
    "http://127.0.0.1:3100/chat".to_owned()
}

/// The chat channel name used when the configuration names none.
pub fn default_chat_channel() -> (name: String)
    ensures
        name@ == "discord"@,
{
    "discord".to_owned()
}

impl Config {
    /// The name that the reverse lookup gives for the channel ID `id`.
    pub open spec fn spec_channel_name(&self, id: Seq<char>) -> Option<Seq<char>> {
        first_name_for(self.channels.entries(), id)
    }

    /// Whether messages in the channel with ID `id` are listened to.
    pub open spec fn spec_is_listen_channel(&self, id: Seq<char>) -> bool {
        ||| self.listen_channels@.len() == 0
        ||| (self.spec_channel_name(id) matches Some(n) && views(self.listen_channels@).contains(n))
    }

    /// Whether messages from the user with ID `id` are accepted.
    pub open spec fn spec_is_allowed_user(&self, id: Seq<char>) -> bool {
        ||| self.allowed_user_ids@.len() == 0
        ||| views(self.allowed_user_ids@).contains(id)
    }

    /// Resolve a channel name to its Discord channel ID.
    pub fn channel_id(&self, name: &str) -> (id: Option<&str>)
        ensures
            id is Some <==> self.channels@.contains_key(name@),
            id matches Some(v) ==> v@ == self.channels@[name@],
    {
        self.channels.get(name)
    }

    /// Reverse lookup: Discord channel ID to channel name.
    pub fn channel_name(&self, id: &str) -> (name: Option<&str>)
        ensures
            name matches Some(n) ==> self.spec_channel_name(id@) == Some(n@),
            name is None ==> self.spec_channel_name(id@) is None,
            name matches Some(n) ==> self.channels@.contains_key(n@) && self.channels@[n@] == id@,
            name is None <==> forall|k: Seq<char>|
                #[trigger] self.channels@.contains_key(k) ==> self.channels@[k] != id@,
    {
        self.channels.name_for(id)
    }

    /// Check if a channel ID is in the listen list (an empty list allows every channel).
    pub fn is_listen_channel(&self, channel_id: &str) -> (listen: bool)
        ensures
            listen == self.spec_is_listen_channel(channel_id@),
    {
        if self.listen_channels.len() == 0 {
            return true;
        }
        match self.channel_name(channel_id) {
            Some(n) => contains_str(&self.listen_channels, n),
            None => false,
        }
    }

    /// Check if a user ID is allowed (an empty list allows every user).
    pub fn is_allowed_user(&self, user_id: &str) -> (allowed: bool)
        ensures
            allowed == self.spec_is_allowed_user(user_id@),
    {
        if self.allowed_user_ids.len() == 0 {
            return true;
        }
        contains_str(&self.allowed_user_ids, user_id)
    }
}

/// With a non-empty listen list, a channel whose name (by reverse lookup)
/// equals the entry at any position of the list is listened to; one whose name
/// equals no entry, or that has no name, is not.
pub proof fn law_listen_list_is_membership(config: &Config, id: Seq<char>)
    requires
        config.listen_channels@.len() > 0,
    ensures
        forall|i: int|
            0 <= i < config.listen_channels@.len() && config.spec_channel_name(id) == Some(
                (#[trigger] config.listen_channels@[i])@,
            ) ==> config.spec_is_listen_channel(id),
        config.spec_channel_name(id) is None ==> !config.spec_is_listen_channel(id),
        (config.spec_channel_name(id) matches Some(n) && forall|i: int|
            0 <= i < config.listen_channels@.len() ==> (#[trigger] config.listen_channels@[i])@
                != n) ==> !config.spec_is_listen_channel(id),
{
    let l = config.listen_channels@;
    assert forall|i: int|
        0 <= i < l.len() && config.spec_channel_name(id) == Some(
            (#[trigger] l[i])@,
        ) implies config.spec_is_listen_channel(id) by {
        assert(views(l)[i] == l[i]@);
    }
    if let Some(n) = config.spec_channel_name(id) {
        if forall|i: int| 0 <= i < l.len() ==> (#[trigger] l[i])@ != n {
            if views(l).contains(n) {
                let i = choose|i: int| 0 <= i < views(l).len() && views(l)[i] == n;
                assert(l[i]@ == n);
            }
        }
    }
}

/// With a non-empty allowed list, a user ID equal to the entry at any position
/// of the list is allowed, and one equal to no entry is refused.
pub proof fn law_allowed_list_is_membership(config: &Config, id: Seq<char>)
    requires
        config.allowed_user_ids@.len() > 0,
    ensures
        forall|i: int|
            0 <= i < config.allowed_user_ids@.len() && (#[trigger] config.allowed_user_ids@[i])@
                == id ==> config.spec_is_allowed_user(id),
        (forall|i: int|
            0 <= i < config.allowed_user_ids@.len() ==> (#[trigger] config.allowed_user_ids@[i])@
                != id) ==> !config.spec_is_allowed_user(id),
{
    let l = config.allowed_user_ids@;
    assert forall|i: int| 0 <= i < l.len() && (#[trigger] l[i])@ == id implies config.spec_is_allowed_user(
        id,
    ) by {
        assert(views(l)[i] == l[i]@);
    }
    if forall|i: int| 0 <= i < l.len() ==> (#[trigger] l[i])@ != id {
        if views(l).contains(id) {
            let i = choose|i: int| 0 <= i < views(l).len() && views(l)[i] == id;
            assert(l[i]@ == id);
        }
    }
}

} // verus!
