use vstd::prelude::*;

verus! {

/// Collections/entries request
///
/// # Resource Information
///
/// Response formats: **JSON**
///
/// Requires authentication?: **Yes (user context only)**
///
/// Rate limited?: **Yes**
///
/// Requests / 15-min window (user auth): **1000**
///
/// [Docs on Twitter](https://developer.twitter.com/en/docs/tweets/curate-a-collection/api-reference/get-collections-entries)
///
#[derive(Clone, Debug, PartialEq)]
pub struct EntriesRequest {
    /// The identifier of the Collection for which to return results.
    pub id: String,

    /// Specifies the maximum number of results to include in the response.
    /// Specify a count between 1 and 200. A next_cursor value will be provided
    /// in the response if additional results are available.
    pub count: Option<u8>,

    /// Returns results with a position value less than or equal to the specified position.
    pub max_position: Option<u64>,

    /// Returns results with a position greater than the specified position.
    pub min_position: Option<u64>,
}

/// Collections/entries response
///
/// [Docs on Twitter](https://developer.twitter.com/en/docs/tweets/curate-a-collection/api-reference/get-collections-entries)
#[derive(Clone, Debug, PartialEq)]
pub struct EntriesResponse {
    pub objects: EntryObjects,
}

#[derive(Clone, Debug, PartialEq)]
pub struct EntryObjects {
    pub timelines: std::collections::HashMap<String, Timeline>,
    pub tweets: std::collections::HashMap<String, Tweet>,
    pub response: EntryObjectsResponse,
}

#[derive(Clone, Debug, PartialEq)]
pub struct Timeline {
    pub collection_type: String,
    pub collection_url: String,
    pub description: String,
    pub name: String,
    pub timeline_order: String,
    pub url: String,
    pub user_id: String,
    pub visibility: String,
}

#[derive(Clone, Debug, PartialEq)]
pub struct Tweet {
    pub contributors: Option<Vec<Contributor>>,
    pub coordinates: Option<Vec<Coordinate>>,
    pub created_at: String,
    pub entities: TweetEntities,
    pub extended_entities: TweetExtendedEntities,
    pub favorite_count: u64,
    pub favorited: bool,
    pub geo: Option<Geo>,
    pub id: u64,
    pub id_str: String,
    pub in_reply_to_screen_name: Option<String>,
    pub in_reply_to_status_id: Option<u64>,
    pub in_reply_to_status_id_str: Option<String>,
    pub in_reply_to_user_id: Option<u64>,
    pub in_reply_to_user_id_str: Option<String>,
    pub is_quote_status: bool,
    pub lang: String,
    pub place: Option<Place>,
    pub possibly_sensitive: bool,
    pub retweet_count: u64,
    pub retweeted: bool,
    pub source: String,
    pub text: String,
    pub truncated: bool,
    pub user: User,
}

#[derive(Clone, Debug, PartialEq)]
pub struct Contributor {
}

#[derive(Clone, Debug, PartialEq)]
pub struct Coordinate {
}

#[derive(Clone, Debug, PartialEq)]
pub struct TweetEntities {
    pub hashtags: Vec<String>,
    pub media: Vec<Media>,
    pub symbols: Vec<String>,
    pub urls: Vec<String>,
    pub user_mentions: Vec<UserMention>,
}

#[derive(Clone, Debug, PartialEq)]
pub struct TweetExtendedEntities {
    pub media: Vec<Media>,
}

#[derive(Clone, Debug, PartialEq)]
pub struct Geo {
}

#[derive(Clone, Debug, PartialEq)]
pub struct Place {
}

#[derive(Clone, Debug, PartialEq)]
pub struct Media {
    pub display_url: String,
    pub expanded_url: String,
    pub id: u64,
    pub id_str: String,
    pub indices: Vec<u64>,
    pub media_url: String,
    pub media_url_https: String,
    pub sizes: Sizes,
    /// The `type` field of the payload.
    pub media_type: String,
    pub url: String,
}

#[derive(Clone, Debug, PartialEq)]
pub struct UserMention {
    pub id: u64,
    pub id_str: String,
    pub indices: Vec<u64>,
    pub name: String,
    pub screen_name: String,
}

#[derive(Clone, Debug, PartialEq)]
pub struct User {
    pub id: u64,
    pub id_str: String,
}

#[derive(Clone, Debug, PartialEq)]
pub struct Size {
    pub h: u16,
    pub w: u16,
    pub resize: String,
}

#[derive(Clone, Debug, PartialEq)]
pub struct Sizes {
    pub large: Size,
    pub medium: Size,
    pub small: Size,
    pub thumb: Size,
}

#[derive(Clone, Debug, PartialEq)]
pub struct EntryObjectsResponse {
    pub position: EntryObjectsResponsePosition,
    pub timeline: Vec<EntryObjectsResponseTimeline>,
    pub timeline_id: String,
}

#[derive(Clone, Debug, PartialEq)]
pub struct EntryObjectsResponseTimeline {
    pub feature_context: String,
    pub tweet: TweetReference,
}

#[derive(Clone, Debug, PartialEq)]
pub struct TweetReference {
    pub id: String,
    pub sort_index: String,
}

#[derive(Clone, Debug, PartialEq)]
pub struct EntryObjectsResponsePosition {
    pub max_position: String,
    pub min_position: String,
    pub was_truncated: bool,
}

} // verus!
