//! The per-item join worker: normalize the raw description through the
//! markup renderer, detect its languages, and assemble a catalog entry
//! into a [`WorkshopItem`], dropping entries that lack an app id, an
//! author, or a title.
use vstd::prelude::*;

use crate::item_update::WorkshopItem;
use crate::language::{detect_dominant, dominant_languages, lingua_segments_of};
use crate::model::{DetectedLanguage, Tag};
use crate::steam::{Child, IPublishedStruct};

verus! {

/// What the markup renderer returns for a text, with the extended tag set:
/// a function of the text alone.
pub uninterp spec fn bb_extended_of(text: Seq<char>) -> Seq<char>;

/// Relies on bbscope's `BBCode::from_config` and `BBCode::parse` with the
/// extended tag configuration: the parser is built from fixed, well-formed
/// expressions, so building it always succeeds, and the rendering depends
/// on the input text alone.
#[verifier::external_body]
fn render_markup(raw: &str) -> (r: String)
    ensures
        r@ == bb_extended_of(raw@),
{
    let bb = bbscope::BBCode::from_config(bbscope::BBCodeTagConfig::extended(), None)
        .expect("the extended tag configuration is well formed");
    bb.parse(raw)
}

/// Why an entry could not be assembled into an item.
#[derive(Clone, Copy, Debug, PartialEq, Eq, Structural)]
pub enum AssemblyError {
    /// The source entry names no app.
    MissingAppId,
    /// The source entry names no author.
    MissingAuthor,
    /// The source entry carries no title.
    MissingTitle,
}

impl WorkshopItem {
    /// Assemble a decoded entry, its detected languages and its normalized
    /// description into an item. Fails, in this order of checks, when the
    /// app id, the author, or the title is absent; everything else is
    /// carried over, with absent update times as zero and the tags rebound
    /// to the entry's app.
    pub fn try_new(
        data: IPublishedStruct,
        languages: Vec<DetectedLanguage>,
        description: String,
    ) -> (r: Result<WorkshopItem, AssemblyError>)
        ensures
            ({
                match r {
                    Err(e) => (data.consumer_appid is None && e == AssemblyError::MissingAppId) || (
                    data.consumer_appid is Some && data.creator is None && e
                        == AssemblyError::MissingAuthor) || ((data.consumer_appid is Some
                        && data.creator is Some) && data.title is None && e
                        == AssemblyError::MissingTitle),
                    Ok(item) => {
                        &&& data.consumer_appid matches Some(app) && item.appid == app as u64
                        &&& data.creator matches Some(a) && item.author == a
                        &&& data.title matches Some(t) && item.title == t
                        &&& item.description == description
                        &&& item.languages == languages
                        &&& item.id == data.publishedfileid
                        &&& item.preview_url == data.preview_url
                        &&& item.last_updated == (match data.time_updated {
                            Some(t) => t as u64,
                            None => 0u64,
                        })
                        &&& item.score_milli == (match data.vote_data {
                            Some(v) => v.score_milli,
                            None => 0u32,
                        })
                        &&& item.tags@.len() == data.tags@.len()
                        &&& forall|i: int|
                            0 <= i < data.tags@.len() ==> ((#[trigger] item.tags@[i]).app_id == (
                            data.consumer_appid->0 as u64) && item.tags@[i].tag@ == data.tags@[i].tag@
                                && item.tags@[i].display_name@ == data.tags@[i].display_name@)
                    },
                }
            }),
    {
        let app_id_raw = match data.consumer_appid {
            Some(a) => a,
            None => {
                return Err(AssemblyError::MissingAppId);
            },
        };
        #[verifier::truncate]
        let app_id = app_id_raw as u64;
        let author = match data.creator {
            Some(a) => a,
            None => {
                return Err(AssemblyError::MissingAuthor);
            },
        };
        let title = match data.title {
            Some(t) => t,
            None => {
                return Err(AssemblyError::MissingTitle);
            },
        };
        let tag_count = data.tags.len();
        let mut tags: Vec<Tag> = Vec::new();
        let mut i: usize = 0;
        while i < tag_count
            invariant
                i <= tag_count,
                tag_count == data.tags@.len(),
                tags@.len() == i,
                forall|j: int|
                    0 <= j < i ==> ((#[trigger] tags@[j]).app_id == app_id && tags@[j].tag@
                        == data.tags@[j].tag@ && tags@[j].display_name@
                        == data.tags@[j].display_name@),
            decreases tag_count - i,
        {
            tags.push(
                Tag {
                    app_id,
                    display_name: data.tags[i].display_name.clone(),
                    tag: data.tags[i].tag.clone(),
                },
            );
            i = i + 1;
        }
        let last_updated: u64 = match data.time_updated {
            Some(t) => {
                #[verifier::truncate]
                let v = t as u64;
                v
            },
            None => 0,
        };
        let score_milli: u32 = match data.vote_data {
            Some(v) => v.score_milli,
            None => 0,
        };
        Ok(
            WorkshopItem {
                appid: app_id,
                author,
                description,
                id: data.publishedfileid,
                languages,
                last_updated,
                preview_url: data.preview_url,
                title,
                tags,
                score_milli,
            },
        )
    }
}

/// Run one ephemeral worker's pipeline over a decoded entry: take the raw
/// description (absent as empty), detect the languages that pass the word
/// share threshold, render the markup to normalized text, and assemble the
/// item together with its declared dependency children.
pub fn process_entry(data: IPublishedStruct) -> (r: Result<
    (WorkshopItem, Vec<Child>),
    AssemblyError,
>)
    ensures
        ({
            let raw = match data.file_description {
                Some(d) => d@,
                None => Seq::<char>::empty(),
            };
            match r {
                Err(e) => (data.consumer_appid is None && e == AssemblyError::MissingAppId) || (
                data.consumer_appid is Some && data.creator is None && e
                    == AssemblyError::MissingAuthor) || ((data.consumer_appid is Some
                    && data.creator is Some) && data.title is None && e
                    == AssemblyError::MissingTitle),
                Ok(p) => {
                    &&& p.0.languages@ == dominant_languages(lingua_segments_of(raw))
                    &&& p.0.description@ == bb_extended_of(raw)
                    &&& p.1@ == data.children@
                    &&& data.consumer_appid matches Some(app) && p.0.appid == app as u64
                    &&& data.creator matches Some(a) && p.0.author == a
                    &&& data.title matches Some(t) && p.0.title == t
                    &&& p.0.id == data.publishedfileid
                },
            }
        }),
{
    let mut data = data;
    let mut raw_description: Option<String> = None;
    core::mem::swap(&mut data.file_description, &mut raw_description);
    let description = match raw_description {
        Some(d) => d,
        None => String::new(),
    };
    let languages = detect_dominant(description.as_str());
    let description = render_markup(description.as_str());
    let mut children: Vec<Child> = Vec::new();
    core::mem::swap(&mut data.children, &mut children);
    match WorkshopItem::try_new(data, languages, description) {
        Ok(item) => Ok((item, children)),
        Err(e) => Err(e),
    }
}

} // verus!
