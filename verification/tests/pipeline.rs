use workshop_walker::assembly::AssemblyError;
use workshop_walker::item_update::{ItemStore, WorkshopItem};
use workshop_walker::model::{DetectedLanguage, Tag};
use workshop_walker::scheduler::{DownloadRun, PageOutcome, SchedulerApps, should_trigger};
use workshop_walker::steam::{Child, GetPage, IPublishedStruct};
use workshop_walker::DOWNLOAD_PERIOD_SECS;

fn entry(id: &str) -> IPublishedStruct {
    IPublishedStruct {
        publishedfileid: id.to_string(),
        result: 1,
        consumer_appid: Some(294100),
        creator: Some("7656119".to_string()),
        title: Some("A Mod".to_string()),
        preview_url: None,
        time_updated: Some(1700000000),
        file_description: Some("Adds [b]things[/b] to the game.".to_string()),
        banned: false,
        tags: vec![],
        children: vec![],
        vote_data: None,
    }
}

fn item(id: &str, last_updated: u64, description: &str) -> WorkshopItem {
    WorkshopItem {
        appid: 294100,
        author: "7656119".to_string(),
        description: description.to_string(),
        id: id.to_string(),
        languages: vec![DetectedLanguage::English],
        last_updated,
        preview_url: None,
        title: "A Mod".to_string(),
        tags: vec![Tag {
            app_id: 294100,
            display_name: "Mod".to_string(),
            tag: "Mod".to_string(),
        }],
        score_milli: 970,
    }
}

#[test]
fn scheduler_triggers_only_past_the_period() {
    let now: u64 = 2_000_000_000;
    let thirteen_hours = 13 * 3600;
    let one_hour = 3600;
    assert!(should_trigger(now, Some(now - thirteen_hours), false));
    assert!(!should_trigger(now, Some(now - one_hour), false));
    assert!(should_trigger(now, Some(now - one_hour), true));
    assert!(should_trigger(now, None, false));
    assert!(DOWNLOAD_PERIOD_SECS == 12 * 3600);
}

#[test]
fn empty_page_finishes_a_run_without_error() {
    let mut run = DownloadRun::new(294100);
    // the advertised total says more entries exist, yet zero entries stop it
    let outcome = run.on_page(5000, "AAA=".to_string(), 0);
    assert!(matches!(outcome, PageOutcome::Finished));
    assert_eq!(run.downloaded, 0);
}

#[test]
fn pagination_follows_the_cursor_until_the_total() {
    let mut run = DownloadRun::new(294100);
    match run.on_page(250, "BBB=".to_string(), 100) {
        PageOutcome::Continue(p) => {
            assert_eq!(p.cursor, "BBB=");
            assert_eq!(p.appid, 294100);
            assert_eq!(p.numperpage, 100);
        }
        PageOutcome::Finished => panic!("run should continue"),
    }
    match run.on_page(250, "CCC=".to_string(), 100) {
        PageOutcome::Continue(p) => assert_eq!(p.cursor, "CCC="),
        PageOutcome::Finished => panic!("run should continue"),
    }
    let outcome = run.on_page(250, "DDD=".to_string(), 50);
    assert!(matches!(outcome, PageOutcome::Finished));
    assert_eq!(run.downloaded, 250);
}

#[test]
fn first_page_request_shape() {
    let p = GetPage::default();
    assert_eq!(p.cursor, "*");
    assert_eq!(p.numperpage, 100);
    assert!(p.return_tags && p.return_children && p.return_vote_data);
    assert!(!p.strip_description_bbcode);
}

#[test]
fn adding_a_scheduled_app_is_a_no_op() {
    let mut apps = SchedulerApps::new();
    assert!(apps.add_app(294100));
    assert!(!apps.add_app(294100));
    assert_eq!(apps.apps.len(), 1);
    assert!(apps.remove_app(294100));
    assert!(!apps.remove_app(294100));
    assert_eq!(apps.apps.len(), 0);
}

#[test]
fn unchanged_item_is_never_forwarded_to_the_gate() {
    let it = item("1", 1700000000, "same text");
    let stored = Some(Some((1700000000u64, "same text".to_string())));
    assert!(!workshop_walker::item_update::maybe_queue_ml(stored, &it));
    // even an eligible language does not help; only a real change does
    let stored_changed = Some(Some((1600000000u64, "old text".to_string())));
    assert!(workshop_walker::item_update::maybe_queue_ml(stored_changed, &it));
    // a failed lookup fails closed
    assert!(!workshop_walker::item_update::maybe_queue_ml(None, &it));
    // same description with a new timestamp is still not queued
    let stored_same_desc = Some(Some((1600000000u64, "same text".to_string())));
    assert!(!workshop_walker::item_update::maybe_queue_ml(stored_same_desc, &it));
}

#[test]
fn upsert_writes_tags_item_and_edges_once() {
    let mut store = ItemStore::new();
    let children = vec![
        Child { publishedfileid: "9".to_string(), sortorder: 0, file_type: 0 },
        Child { publishedfileid: "9".to_string(), sortorder: 1, file_type: 0 },
    ];
    store.insert_data(item("1", 10, "first"), children.clone());
    assert_eq!(store.items.len(), 1);
    assert_eq!(store.tags.len(), 1);
    assert_eq!(store.edges.len(), 1);
    // reprocessing overwrites the row and duplicates stay ignored
    store.insert_data(item("1", 20, "second"), children);
    assert_eq!(store.items.len(), 1);
    assert_eq!(store.items[0].last_updated, 20);
    assert_eq!(store.items[0].description, "second");
    assert_eq!(store.tags.len(), 1);
    assert_eq!(store.edges.len(), 1);
    let meta = store.stored_meta(&"1".to_string()).unwrap();
    assert_eq!(meta.0, 20);
    assert_eq!(meta.1, "second");
    assert!(store.stored_meta(&"404".to_string()).is_none());
}

#[test]
fn rerunning_the_same_upsert_changes_nothing() {
    let mut store = ItemStore::new();
    let children = vec![Child { publishedfileid: "9".to_string(), sortorder: 0, file_type: 0 }];
    store.insert_data(item("1", 10, "text"), children.clone());
    store.insert_data(item("1", 10, "text"), children);
    assert_eq!(store.items.len(), 1);
    assert_eq!(store.tags.len(), 1);
    assert_eq!(store.edges.len(), 1);
    assert_eq!(store.items[0].last_updated, 10);
    assert_eq!(store.items[0].description, "text");
    assert_eq!(store.tags[0].tag, "Mod");
    assert_eq!(store.edges[0].target, "9");
}

#[test]
fn assembly_requires_app_author_and_title() {
    let mut e = entry("1");
    e.consumer_appid = None;
    assert_eq!(
        workshop_walker::assembly::process_entry(e).unwrap_err(),
        AssemblyError::MissingAppId
    );
    let mut e = entry("1");
    e.creator = None;
    assert_eq!(
        workshop_walker::assembly::process_entry(e).unwrap_err(),
        AssemblyError::MissingAuthor
    );
    let mut e = entry("1");
    e.title = None;
    assert_eq!(
        workshop_walker::assembly::process_entry(e).unwrap_err(),
        AssemblyError::MissingTitle
    );
}

#[test]
fn assembly_normalizes_markup_and_detects_language() {
    let (item, children) = workshop_walker::assembly::process_entry(entry("42")).unwrap();
    assert!(children.is_empty());
    assert_eq!(item.id, "42");
    assert_eq!(item.appid, 294100);
    // the raw markup was rendered, not handed back unchanged
    assert_ne!(item.description, "Adds [b]things[/b] to the game.");
    assert!(item.description.contains("<b>things</b>"));
}
