//! The `discord_post` tool: lets the entity post to a configured channel by name.
use std::sync::Arc;
use vstd::prelude::*;
use vstd::string::*;

use crate::client::{posts_pieces, ClientError, DiscordClient, PostRequest};
use crate::text::views;

verus! {

/// What the tool's JSON input holds: its `channel` and `message` fields, where
/// they are strings.
pub struct ToolInput {
    pub channel: Option<String>,
    pub message: Option<String>,
}

/// One property of the tool's input schema.
pub struct SchemaProperty {
    pub name: String,
    /// The JSON type of the property.
    pub kind: String,
    pub description: String,
}

/// The JSON schema of the tool's input: an object with the listed properties,
/// of which those in `required` must be given.
pub struct InputSchema {
    /// The JSON type of the input.
    pub kind: String,
    pub properties: Vec<SchemaProperty>,
    pub required: Vec<String>,
}

/// Discord posting tool. Provides the logic for posting messages to Discord
/// channels; the plugin adapter wraps it.
pub struct DiscordPostTool {
    client: Arc<DiscordClient>,
}

/// What the tool answers for an input that it refuses before posting, if it does.
pub open spec fn input_error(input: &ToolInput) -> Option<Seq<char>> {
    match (input.channel, input.message) {
        (None, _) => Some("Missing 'channel' parameter"@),
        (Some(_), None) => Some("Missing 'message' parameter"@),
        (Some(_), Some(m)) => if m@.len() == 0 {
            Some("Message cannot be empty"@)
        } else {
            None
        },
    }
}

/// What the tool answers once posting to `channel` is done.
pub open spec fn outcome_text(channel: Seq<char>, result: Result<(), ClientError>) -> Result<
    Seq<char>,
    Seq<char>,
> {
    match result {
        Ok(()) => Ok("Message posted to #"@ + channel),
        Err(e) => Err("Failed to post to #"@ + channel + ": "@ + e.spec_message()),
    }
}

impl DiscordPostTool {
    /// The client that the tool posts through.
    pub closed spec fn spec_client(&self) -> DiscordClient {
        *self.client
    }

    pub fn new(client: Arc<DiscordClient>) -> (tool: Self)
        ensures
            tool.spec_client() == *client,
    {
        DiscordPostTool { client }
    }

    pub fn name() -> (name: &'static str)
        ensures
            name@ == "discord_post"@,
    {
        "discord_post"
    }

    pub fn description() -> (text: &'static str)
        ensures
            text@
                == "Post a message to a Discord channel. Use channel names from your config (e.g. 'constellation', 'self-evolution'), not raw IDs."@,
    {
        "Post a message to a Discord channel. Use channel names from your config (e.g. 'constellation', 'self-evolution'), not raw IDs."
    }

    /// The schema of the tool's input: an object with the string properties
    /// `channel` and `message`, both required.
    pub fn input_schema() -> (schema: InputSchema)
        ensures
            schema.kind@ == "object"@,
            schema.properties@.len() == 2,
            schema.properties@[0].name@ == "channel"@,
            schema.properties@[0].kind@ == "string"@,
            schema.properties@[0].description@ == "Channel name (e.g. 'constellation', 'notes')"@,
            schema.properties@[1].name@ == "message"@,
            schema.properties@[1].kind@ == "string"@,
            schema.properties@[1].description@ == "Message content to post"@,
            views(schema.required@) == seq!["channel"@, "message"@],
    {
        let required = vec!["channel".to_owned(), "message".to_owned()];
        assert(views(required@) =~= seq!["channel"@, "message"@]);
        InputSchema {
            kind: "object".to_owned(),
            properties: vec![
                SchemaProperty {
                    name: "channel".to_owned(),
                    kind: "string".to_owned(),
                    description: "Channel name (e.g. 'constellation', 'notes')".to_owned(),
                },
                SchemaProperty {
                    name: "message".to_owned(),
                    kind: "string".to_owned(),
                    description: "Message content to post".to_owned(),
                },
            ],
            required,
        }
    }

    /// List available channel names for the tool description.
    pub fn available_channels(&self) -> (names: Vec<&str>)
        ensures
            names@.map_values(|n: &str| n@) == self.spec_client().channels().entries().map_values(
                |e: (Seq<char>, Seq<char>)| e.0,
            ),
            names@.map_values(|n: &str| n@).no_duplicates(),
            names@.map_values(|n: &str| n@).to_set() == self.spec_client().channels()@.dom(),
    {
        self.client.channel_names()
    }

    /// Checks the input: the channel and the message must be given, and the
    /// message must not be empty. Returns them, or the answer to give.
    pub fn check_input(input: &ToolInput) -> (res: Result<(String, String), String>)
        ensures
            res matches Err(e) ==> input_error(input) == Some(e@),
            res is Err <==> input_error(input) is Some,
            res matches Ok(p) ==> Some(p.0@) == crate::types::opt_view(input.channel) && Some(
                p.1@,
            ) == crate::types::opt_view(input.message),
    {
        let channel = match &input.channel {
            Some(c) => c,
            None => return Err("Missing 'channel' parameter".to_owned()),
        };
        let message = match &input.message {
            Some(m) => m,
            None => return Err("Missing 'message' parameter".to_owned()),
        };
        if message.as_str().is_empty() {
            return Err("Message cannot be empty".to_owned());
        }
        Ok((channel.clone(), message.clone()))
    }

    /// The requests that post `message` to the channel named `channel`, or
    /// `UnknownChannel`.
    pub fn post_requests(&self, channel: &str, message: &str) -> (res: Result<
        Vec<PostRequest>,
        ClientError,
    >)
        ensures
            res is Err <==> !self.spec_client().channels()@.contains_key(channel@),
            res matches Err(e) ==> e matches ClientError::UnknownChannel(n) && n@ == channel@,
            res matches Ok(requests) ==> posts_pieces(
                requests@,
                self.spec_client().token(),
                self.spec_client().channels()@[channel@],
                message@,
            ),
    {
        self.client.requests_by_name(channel, message)
    }

    /// The answer once posting to `channel` is done.
    pub fn outcome(channel: &str, result: Result<(), ClientError>) -> (answer: Result<
        String,
        String,
    >)
        ensures
            answer matches Ok(t) ==> outcome_text(channel@, result) == Ok::<Seq<char>, Seq<char>>(
                t@,
            ),
            answer matches Err(t) ==> outcome_text(channel@, result) == Err::<
                Seq<char>,
                Seq<char>,
            >(t@),
            answer is Ok <==> result is Ok,
    {
        match &result {
            Ok(()) => {
                let mut t = "Message posted to #".to_owned();
                t.append(channel);
                Ok(t)
            },
            Err(e) => {
                let mut t = "Failed to post to #".to_owned();
                t.append(channel);
                t.append(": ");
                let m = e.to_message();
                t.append(m.as_str());
                Err(t)
            },
        }
    }
}

} // verus!
