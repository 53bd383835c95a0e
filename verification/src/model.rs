//! Shared data model: taxonomy classes, link status, vote sources, and the
//! detected-language enumeration with its stable integer encoding.
use vstd::prelude::*;

verus! {

/// Taxonomy class a property value belongs to.
#[derive(Clone, Copy, Debug, PartialEq, Eq, Structural, Hash)]
pub enum Class {
    /// Anything like addon, overhaul, bugfix, patch.
    Type,
    /// Literary themes like mecha.
    Theme,
    /// Literary genres like cyberpunk.
    Genre,
    /// Item features, like "new scenario" or "new clothes".
    Feature,
}

/// Moderation status of a taxonomy link. Serialized as a small signed
/// integer; see [`Status::code`].
#[derive(Clone, Copy, Debug, PartialEq, Eq, Structural)]
pub enum Status {
    Rejected,
    Pending,
    Accepted,
}

impl Status {
    /// The stable integer encoding of a status.
    pub fn code(&self) -> (c: i8)
        ensures
            c == match self {
                Status::Rejected => -1,
                Status::Pending => 0,
                Status::Accepted => 1,
            },
    {
        match self {
            Status::Rejected => -1,
            Status::Pending => 0,
            Status::Accepted => 1,
        }
    }
}

/// Who recorded a taxonomy link or vote: the system pipeline or a user.
#[derive(Clone, Debug)]
pub enum Source<T> {
    /// Auto-generated by the extraction pipeline.
    System,
    /// Submitted by the identified user.
    User(T),
}

/// Crowdsourced metadata for an item: identity is the (class, value) pair.
#[derive(Clone, Debug)]
pub struct Property {
    pub class: Class,
    pub value: String,
}

impl Property {
    /// Whether this property has the given (class, value) identity.
    pub open spec fn is_pair(&self, class: Class, value: Seq<char>) -> bool {
        self.class == class && self.value@ == value
    }
}

/// A catalog tag attached to items of one app; identity is (app id, slug).
#[derive(Clone, Debug)]
pub struct Tag {
    pub app_id: u64,
    pub display_name: String,
    /// The slug that identifies the tag within its app.
    pub tag: String,
}

/// A catalog app whose items are crawled.
#[derive(Clone, Debug)]
pub struct App {
    pub id: u32,
    pub name: String,
    pub developer: String,
    pub description: String,
    pub banner: String,
    /// Eligible for downloading and voting.
    pub enabled: bool,
    /// Visible on the index.
    pub available: bool,
    pub default_tags: Vec<String>,
    pub tags: Vec<String>,
}

/// A user as shown beside their submissions.
#[derive(Clone, Debug)]
pub struct DisplayUser {
    pub id: u64,
    pub name: String,
}

/// Extra columns carried on a taxonomy link besides its endpoints.
#[derive(Clone, Debug)]
pub struct PropertyExt<SOURCE> {
    /// Reasoning or justification for an inclusion.
    pub note: Option<String>,
    pub status: Status,
    /// The signed sum of the scores of the currently recorded votes.
    pub upvote_count: i64,
    /// The number of currently recorded votes.
    pub vote_count: u64,
    pub source: Source<SOURCE>,
}

/// A taxonomy link as handed to clients: an item, the property it carries,
/// and the link's own columns.
#[derive(Clone, Debug)]
pub struct WorkshopItemProperties<CHILD, PROP> {
    pub workshop_item: CHILD,
    pub property: PROP,
    pub property_ext: PropertyExt<CHILD>,
    pub vote_state: Option<i32>,
}

/// Crowdsourced soft-dependency edge between two items.
#[derive(Clone, Debug)]
pub struct Companion<R, S> {
    pub id: String,
    pub source_item: R,
    pub target_item: R,
    pub note: Option<String>,
    pub status: Status,
    pub upvote_count: u64,
    pub vote_count: u64,
    pub source: Source<S>,
}

/// Sort orders offered by the item listing.
#[derive(Clone, Copy, Debug, PartialEq, Eq, Structural)]
pub enum OrderBy {
    Alphabetical,
    LastUpdated,
    Score,
    Dependents,
}

impl OrderBy {
    /// The stored column each sort order reads.
    pub fn column_name(&self) -> (r: &'static str)
        ensures
            r@ == match self {
                OrderBy::Alphabetical => "title"@,
                OrderBy::LastUpdated => "last_updated"@,
                OrderBy::Score => "score"@,
                OrderBy::Dependents => "dependencies_length"@,
            },
    {
        match self {
            OrderBy::Alphabetical => "title",
            OrderBy::LastUpdated => "last_updated",
            OrderBy::Score => "score",
            OrderBy::Dependents => "dependencies_length",
        }
    }
}

/// A language detected in an item description. Must serialize as a stable
/// small integer (never a name) because it is used inside indexed queries;
/// see [`DetectedLanguage::code`], which encodes Unknown as 0.
#[derive(Clone, Copy, Debug, PartialEq, Eq, Structural, Hash)]
pub enum DetectedLanguage {
    English,
    Russian,
    Chinese,
    Japanese,
    Korean,
    Spanish,
    Portuguese,
    Unknown,
}

impl DetectedLanguage {
    /// The stable integer encoding of a language; Unknown encodes as 0.
    pub fn code(&self) -> (c: u8)
        ensures
            c == self.spec_code(),
    {
        match self {
            DetectedLanguage::Unknown => 0,
            DetectedLanguage::English => 1,
            DetectedLanguage::Russian => 2,
            DetectedLanguage::Chinese => 3,
            DetectedLanguage::Japanese => 4,
            DetectedLanguage::Korean => 5,
            DetectedLanguage::Spanish => 6,
            DetectedLanguage::Portuguese => 7,
        }
    }

    /// The integer each language encodes to.
    pub open spec fn spec_code(&self) -> u8 {
        match self {
            DetectedLanguage::Unknown => 0,
            DetectedLanguage::English => 1,
            DetectedLanguage::Russian => 2,
            DetectedLanguage::Chinese => 3,
            DetectedLanguage::Japanese => 4,
            DetectedLanguage::Korean => 5,
            DetectedLanguage::Spanish => 6,
            DetectedLanguage::Portuguese => 7,
        }
    }

    /// Decode a stable integer back to its language; codes outside the
    /// enumeration decode to Unknown.
    pub fn decode(c: u8) -> (l: DetectedLanguage)
        ensures
            l == DetectedLanguage::spec_decode(c),
    {
        if c == 1 {
            DetectedLanguage::English
        } else if c == 2 {
            DetectedLanguage::Russian
        } else if c == 3 {
            DetectedLanguage::Chinese
        } else if c == 4 {
            DetectedLanguage::Japanese
        } else if c == 5 {
            DetectedLanguage::Korean
        } else if c == 6 {
            DetectedLanguage::Spanish
        } else if c == 7 {
            DetectedLanguage::Portuguese
        } else {
            DetectedLanguage::Unknown
        }
    }

    /// The language each integer decodes to.
    pub open spec fn spec_decode(c: u8) -> DetectedLanguage {
        if c == 1 {
            DetectedLanguage::English
        } else if c == 2 {
            DetectedLanguage::Russian
        } else if c == 3 {
            DetectedLanguage::Chinese
        } else if c == 4 {
            DetectedLanguage::Japanese
        } else if c == 5 {
            DetectedLanguage::Korean
        } else if c == 6 {
            DetectedLanguage::Spanish
        } else if c == 7 {
            DetectedLanguage::Portuguese
        } else {
            DetectedLanguage::Unknown
        }
    }
}

/// Decoding the code of a language yields the language back.
pub proof fn lemma_language_code_round_trip(l: DetectedLanguage)
    ensures
        DetectedLanguage::spec_decode(l.spec_code()) == l,
{
}

} // verus!
