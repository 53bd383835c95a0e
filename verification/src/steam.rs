//! Plain data shapes of the upstream catalog API: the query enumerations
//! with their wire codes, the paginated request, and the raw entry fields
//! the assembly pipeline reads.
use vstd::prelude::*;

verus! {

/// The catalog's published-file query orderings; [`Self::code`] gives the
/// wire value of each.
#[derive(Clone, Copy, Debug, PartialEq, Eq, Structural)]
pub enum EPublishedFileQueryType {
    RankedByVote,
    RankedByPublicationDate,
    AcceptedForGameRankedByAcceptanceDate,
    RankedByTrend,
    FavoritedByFriendsRankedByPublicationDate,
    CreatedByFriendsRankedByPublicationDate,
    RankedByNumTimesReported,
    CreatedByFollowedUsersRankedByPublicationDate,
    NotYetRated,
    RankedByTotalUniqueSubscriptions,
    RankedByTotalVotesAsc,
    RankedByVotesUp,
    RankedByTextSearch,
    RankedByPlaytimeTrend,
    RankedByTotalPlaytime,
    RankedByAveragePlaytimeTrend,
    RankedByLifetimeAveragePlaytime,
    RankedByPlaytimeSessionsTrend,
    RankedByLifetimePlaytimeSessions,
    RankedByInappropriateContentRating,
    RankedByBanContentCheck,
    RankedByLastUpdatedDate,
}

impl EPublishedFileQueryType {
    /// The integer this ordering is sent as.
    pub fn code(&self) -> (c: u8)
        ensures
            c == self.spec_code(),
    {
        match self {
            EPublishedFileQueryType::RankedByVote => 0,
            EPublishedFileQueryType::RankedByPublicationDate => 1,
            EPublishedFileQueryType::AcceptedForGameRankedByAcceptanceDate => 2,
            EPublishedFileQueryType::RankedByTrend => 3,
            EPublishedFileQueryType::FavoritedByFriendsRankedByPublicationDate => 4,
            EPublishedFileQueryType::CreatedByFriendsRankedByPublicationDate => 5,
            EPublishedFileQueryType::RankedByNumTimesReported => 6,
            EPublishedFileQueryType::CreatedByFollowedUsersRankedByPublicationDate => 7,
            EPublishedFileQueryType::NotYetRated => 8,
            EPublishedFileQueryType::RankedByTotalUniqueSubscriptions => 9,
            EPublishedFileQueryType::RankedByTotalVotesAsc => 10,
            EPublishedFileQueryType::RankedByVotesUp => 11,
            EPublishedFileQueryType::RankedByTextSearch => 12,
            EPublishedFileQueryType::RankedByPlaytimeTrend => 13,
            EPublishedFileQueryType::RankedByTotalPlaytime => 14,
            EPublishedFileQueryType::RankedByAveragePlaytimeTrend => 15,
            EPublishedFileQueryType::RankedByLifetimeAveragePlaytime => 16,
            EPublishedFileQueryType::RankedByPlaytimeSessionsTrend => 17,
            EPublishedFileQueryType::RankedByLifetimePlaytimeSessions => 18,
            EPublishedFileQueryType::RankedByInappropriateContentRating => 19,
            EPublishedFileQueryType::RankedByBanContentCheck => 20,
            EPublishedFileQueryType::RankedByLastUpdatedDate => 21,
        }
    }

    /// The wire code of each ordering.
    pub open spec fn spec_code(&self) -> u8 {
        match self {
            EPublishedFileQueryType::RankedByVote => 0,
            EPublishedFileQueryType::RankedByPublicationDate => 1,
            EPublishedFileQueryType::AcceptedForGameRankedByAcceptanceDate => 2,
            EPublishedFileQueryType::RankedByTrend => 3,
            EPublishedFileQueryType::FavoritedByFriendsRankedByPublicationDate => 4,
            EPublishedFileQueryType::CreatedByFriendsRankedByPublicationDate => 5,
            EPublishedFileQueryType::RankedByNumTimesReported => 6,
            EPublishedFileQueryType::CreatedByFollowedUsersRankedByPublicationDate => 7,
            EPublishedFileQueryType::NotYetRated => 8,
            EPublishedFileQueryType::RankedByTotalUniqueSubscriptions => 9,
            EPublishedFileQueryType::RankedByTotalVotesAsc => 10,
            EPublishedFileQueryType::RankedByVotesUp => 11,
            EPublishedFileQueryType::RankedByTextSearch => 12,
            EPublishedFileQueryType::RankedByPlaytimeTrend => 13,
            EPublishedFileQueryType::RankedByTotalPlaytime => 14,
            EPublishedFileQueryType::RankedByAveragePlaytimeTrend => 15,
            EPublishedFileQueryType::RankedByLifetimeAveragePlaytime => 16,
            EPublishedFileQueryType::RankedByPlaytimeSessionsTrend => 17,
            EPublishedFileQueryType::RankedByLifetimePlaytimeSessions => 18,
            EPublishedFileQueryType::RankedByInappropriateContentRating => 19,
            EPublishedFileQueryType::RankedByBanContentCheck => 20,
            EPublishedFileQueryType::RankedByLastUpdatedDate => 21,
        }
    }
}

/// The catalog's file-type filter; [`Self::code`] gives the wire value.
#[derive(Clone, Copy, Debug, PartialEq, Eq, Structural)]
pub enum EPublishedFileInfoMatchingFileType {
    Items,
    Collections,
    Art,
    Videos,
    Screenshots,
    CollectionEligible,
    Games,
    Software,
    Concepts,
    GreenlightItems,
    AllGuides,
    WebGuides,
    IntegratedGuides,
    UsableInGame,
    Merch,
    ControllerBindings,
    SteamworksAccessInvites,
    ItemsMtx,
    ItemsReadyToUse,
    WorkshopShowcase,
    GameManagedItems,
}

impl EPublishedFileInfoMatchingFileType {
    /// The integer this file type is sent as.
    pub fn code(&self) -> (c: u8)
        ensures
            c == self.spec_code(),
    {
        match self {
            EPublishedFileInfoMatchingFileType::Items => 0,
            EPublishedFileInfoMatchingFileType::Collections => 1,
            EPublishedFileInfoMatchingFileType::Art => 2,
            EPublishedFileInfoMatchingFileType::Videos => 3,
            EPublishedFileInfoMatchingFileType::Screenshots => 4,
            EPublishedFileInfoMatchingFileType::CollectionEligible => 5,
            EPublishedFileInfoMatchingFileType::Games => 6,
            EPublishedFileInfoMatchingFileType::Software => 7,
            EPublishedFileInfoMatchingFileType::Concepts => 8,
            EPublishedFileInfoMatchingFileType::GreenlightItems => 9,
            EPublishedFileInfoMatchingFileType::AllGuides => 10,
            EPublishedFileInfoMatchingFileType::WebGuides => 11,
            EPublishedFileInfoMatchingFileType::IntegratedGuides => 12,
            EPublishedFileInfoMatchingFileType::UsableInGame => 13,
            EPublishedFileInfoMatchingFileType::Merch => 14,
            EPublishedFileInfoMatchingFileType::ControllerBindings => 15,
            EPublishedFileInfoMatchingFileType::SteamworksAccessInvites => 16,
            EPublishedFileInfoMatchingFileType::ItemsMtx => 17,
            EPublishedFileInfoMatchingFileType::ItemsReadyToUse => 18,
            EPublishedFileInfoMatchingFileType::WorkshopShowcase => 19,
            EPublishedFileInfoMatchingFileType::GameManagedItems => 20,
        }
    }

    /// The wire code of each file type.
    pub open spec fn spec_code(&self) -> u8 {
        match self {
            EPublishedFileInfoMatchingFileType::Items => 0,
            EPublishedFileInfoMatchingFileType::Collections => 1,
            EPublishedFileInfoMatchingFileType::Art => 2,
            EPublishedFileInfoMatchingFileType::Videos => 3,
            EPublishedFileInfoMatchingFileType::Screenshots => 4,
            EPublishedFileInfoMatchingFileType::CollectionEligible => 5,
            EPublishedFileInfoMatchingFileType::Games => 6,
            EPublishedFileInfoMatchingFileType::Software => 7,
            EPublishedFileInfoMatchingFileType::Concepts => 8,
            EPublishedFileInfoMatchingFileType::GreenlightItems => 9,
            EPublishedFileInfoMatchingFileType::AllGuides => 10,
            EPublishedFileInfoMatchingFileType::WebGuides => 11,
            EPublishedFileInfoMatchingFileType::IntegratedGuides => 12,
            EPublishedFileInfoMatchingFileType::UsableInGame => 13,
            EPublishedFileInfoMatchingFileType::Merch => 14,
            EPublishedFileInfoMatchingFileType::ControllerBindings => 15,
            EPublishedFileInfoMatchingFileType::SteamworksAccessInvites => 16,
            EPublishedFileInfoMatchingFileType::ItemsMtx => 17,
            EPublishedFileInfoMatchingFileType::ItemsReadyToUse => 18,
            EPublishedFileInfoMatchingFileType::WorkshopShowcase => 19,
            EPublishedFileInfoMatchingFileType::GameManagedItems => 20,
        }
    }
}

/// One page request against the catalog's paginated query endpoint.
#[derive(Clone, Debug)]
pub struct GetPage {
    pub query_type: EPublishedFileQueryType,
    pub numperpage: u32,
    pub appid: u32,
    pub return_tags: bool,
    pub return_children: bool,
    pub return_details: bool,
    pub return_metadata: bool,
    pub return_previews: bool,
    pub return_vote_data: bool,
    pub return_short_description: bool,
    pub strip_description_bbcode: bool,
    pub admin_query: bool,
    /// Opaque continuation cursor; `*` asks for the first page.
    pub cursor: String,
}

/// The request fields every page of one run shares: full detail flags, a
/// fixed page size, ordering by last update.
pub open spec fn default_page_shape(p: GetPage) -> bool {
    &&& p.query_type == EPublishedFileQueryType::RankedByLastUpdatedDate
    &&& p.numperpage == 100
    &&& p.return_tags
    &&& p.return_children
    &&& p.return_details
    &&& p.return_metadata
    &&& p.return_previews
    &&& p.return_vote_data
    &&& p.return_short_description
    &&& !p.strip_description_bbcode
    &&& p.admin_query
}

impl Default for GetPage {
    /// The first-page request: default shape, app still unset, the
    /// first-page cursor.
    fn default() -> (p: GetPage)
        ensures
            default_page_shape(p),
            p.appid == 0,
            p.cursor@ == "*"@,
    {
        GetPage {
            query_type: EPublishedFileQueryType::RankedByLastUpdatedDate,
            numperpage: 100,
            appid: 0,
            return_tags: true,
            return_children: true,
            return_details: true,
            return_metadata: true,
            return_previews: true,
            return_vote_data: true,
            return_short_description: true,
            strip_description_bbcode: false,
            admin_query: true,
            cursor: String::from_str("*"),
        }
    }
}

impl GetPage {
    /// The follow-up request a page response calls for: the default shape
    /// again, continuing from the returned cursor.
    pub fn next_page(appid: u32, cursor: String) -> (p: GetPage)
        ensures
            default_page_shape(p),
            p.appid == appid,
            p.cursor == cursor,
    {
        let mut p = GetPage::default();
        p.appid = appid;
        p.cursor = cursor;
        p
    }
}

/// A declared dependency child of an entry.
#[derive(Clone, Debug)]
pub struct Child {
    pub publishedfileid: String,
    pub sortorder: i64,
    pub file_type: i64,
}

/// A tag as the catalog returns it on an entry.
#[derive(Clone, Debug)]
pub struct Tag {
    pub tag: String,
    pub display_name: String,
}

/// The envelope every catalog response arrives in.
#[derive(Clone, Debug)]
pub struct SteamRoot<T> {
    pub response: T,
}

/// An entry's vote aggregate. The catalog reports the quality score as a
/// fraction; it is carried here in thousandths so the store holds plain
/// integers, and the fetch layer converts.
#[derive(Clone, Copy, Debug)]
pub struct VoteData {
    pub score_milli: u32,
    pub votes_up: usize,
    pub votes_down: usize,
}

/// The fields of a raw catalog entry that the assembly pipeline reads,
/// already decoded to plain values by the fetch layer.
#[derive(Clone, Debug)]
pub struct IPublishedStruct {
    pub publishedfileid: String,
    pub result: i64,
    pub consumer_appid: Option<i64>,
    pub creator: Option<String>,
    pub title: Option<String>,
    pub preview_url: Option<String>,
    pub time_updated: Option<i64>,
    pub file_description: Option<String>,
    pub banned: bool,
    pub tags: Vec<Tag>,
    pub children: Vec<Child>,
    pub vote_data: Option<VoteData>,
}

} // verus!
