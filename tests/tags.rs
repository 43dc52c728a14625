use lofty::tag::{Accessor, ItemKey, ItemValue, Tag, TagItem, TagType};
use sound_engine::cache::{BPM_TIMESTAMP_KEY, HOT_CUES_STORAGE_KEY};
use sound_engine::tags::{
    bpm_candidates, hot_cue_payloads, record_bpm_timestamp, store_hot_cue_payload,
    stored_timestamp, update_artist, update_title,
};

fn custom(tag: &mut Tag, key: &str, value: ItemValue) {
    tag.push_unchecked(TagItem::new(ItemKey::Unknown(key.to_string()), value));
}

fn custom_texts(tag: &Tag, key: &str) -> Vec<String> {
    tag.items()
        .filter_map(|item| match (item.key(), item.value()) {
            (ItemKey::Unknown(k), ItemValue::Text(t)) if k == key => Some(t.clone()),
            _ => None,
        })
        .collect()
}

#[test]
fn empty_tag_has_no_timestamp() {
    let tag = Tag::new(TagType::Id3v2);
    assert_eq!(stored_timestamp(&tag), None);
    assert!(hot_cue_payloads(&tag).is_empty());
}

#[test]
fn timestamp_is_first_readable_record() {
    let mut tag = Tag::new(TagType::Ape);
    custom(&mut tag, "OTHER", ItemValue::Text("5".to_string()));
    custom(&mut tag, BPM_TIMESTAMP_KEY, ItemValue::Binary(b"7".to_vec()));
    custom(&mut tag, BPM_TIMESTAMP_KEY, ItemValue::Text("soon".to_string()));
    custom(&mut tag, BPM_TIMESTAMP_KEY, ItemValue::Locator("1700000000".to_string()));
    custom(&mut tag, BPM_TIMESTAMP_KEY, ItemValue::Text("42".to_string()));
    assert_eq!(stored_timestamp(&tag), Some(1_700_000_000));
}

#[test]
fn recorded_timestamp_reads_back() {
    let mut tag = Tag::new(TagType::Id3v2);
    custom(&mut tag, BPM_TIMESTAMP_KEY, ItemValue::Text("12".to_string()));
    record_bpm_timestamp(&mut tag, 1_712_345_678);
    assert_eq!(stored_timestamp(&tag), Some(1_712_345_678));
    assert_eq!(custom_texts(&tag, BPM_TIMESTAMP_KEY), vec!["1712345678".to_string()]);
    record_bpm_timestamp(&mut tag, 0);
    assert_eq!(custom_texts(&tag, BPM_TIMESTAMP_KEY), vec!["0".to_string()]);
}

#[test]
fn hot_cue_payloads_in_order() {
    let mut tag = Tag::new(TagType::Ape);
    custom(&mut tag, HOT_CUES_STORAGE_KEY, ItemValue::Text("[1]".to_string()));
    custom(&mut tag, "X", ItemValue::Text("[2]".to_string()));
    custom(&mut tag, HOT_CUES_STORAGE_KEY, ItemValue::Binary(vec![1, 2]));
    custom(&mut tag, HOT_CUES_STORAGE_KEY, ItemValue::Locator("[3]".to_string()));
    assert_eq!(hot_cue_payloads(&tag), vec!["[1]".to_string(), "[3]".to_string()]);
}

#[test]
fn storing_hot_cues_replaces_previous() {
    let mut tag = Tag::new(TagType::Ape);
    custom(&mut tag, HOT_CUES_STORAGE_KEY, ItemValue::Text("old".to_string()));
    custom(&mut tag, HOT_CUES_STORAGE_KEY, ItemValue::Text("older".to_string()));
    custom(&mut tag, "KEEP", ItemValue::Text("k".to_string()));
    let payload = r#"[{"positionSeconds":12.5,"label":"drop"}]"#.to_string();
    store_hot_cue_payload(&mut tag, Some(payload.clone()));
    assert_eq!(hot_cue_payloads(&tag), vec![payload]);
    assert_eq!(custom_texts(&tag, "KEEP"), vec!["k".to_string()]);
    store_hot_cue_payload(&mut tag, None);
    assert!(hot_cue_payloads(&tag).is_empty());
    assert_eq!(custom_texts(&tag, "KEEP"), vec!["k".to_string()]);
}

#[test]
fn title_and_artist_updates() {
    let mut tag = Tag::new(TagType::Id3v2);
    update_title(&mut tag, Some("Night Drive".to_string()));
    update_artist(&mut tag, Some("Someone".to_string()));
    assert_eq!(tag.title().as_deref(), Some("Night Drive"));
    assert_eq!(tag.artist().as_deref(), Some("Someone"));
    update_title(&mut tag, None);
    update_artist(&mut tag, None);
    assert_eq!(tag.title().as_deref(), Some("Night Drive"));
    assert_eq!(tag.artist().as_deref(), Some("Someone"));
    update_title(&mut tag, Some("  \t".to_string()));
    update_artist(&mut tag, Some(String::new()));
    assert_eq!(tag.title(), None);
    assert_eq!(tag.artist(), None);
}

#[test]
fn title_update_on_every_tag_type() {
    for tag_type in [
        TagType::Ape,
        TagType::Id3v1,
        TagType::Id3v2,
        TagType::Mp4Ilst,
        TagType::VorbisComments,
        TagType::RiffInfo,
        TagType::AiffText,
    ] {
        let mut tag = Tag::new(tag_type);
        update_title(&mut tag, Some("X".to_string()));
        assert_eq!(tag.title().as_deref(), Some("X"));
        update_artist(&mut tag, Some("Y".to_string()));
        assert_eq!(tag.artist().as_deref(), Some("Y"));
    }
}

#[test]
fn tempo_sources_in_lookup_order() {
    let mut tag = Tag::new(TagType::Ape);
    custom(&mut tag, "tempo", ItemValue::Binary(b"99".to_vec()));
    tag.push_unchecked(TagItem::new(ItemKey::IntegerBpm, ItemValue::Text("128".to_string())));
    custom(&mut tag, "COMMENT", ItemValue::Text("1".to_string()));
    tag.push_unchecked(TagItem::new(ItemKey::Bpm, ItemValue::Text("127,9".to_string())));
    tag.push_unchecked(TagItem::new(ItemKey::Bpm, ItemValue::Text("50".to_string())));
    custom(&mut tag, "TBPM", ItemValue::Locator("130".to_string()));
    assert_eq!(
        bpm_candidates(&tag),
        vec![b"127,9".to_vec(), b"128".to_vec(), b"99".to_vec(), b"130".to_vec()]
    );
}

#[test]
fn no_tempo_sources_in_empty_tag() {
    let tag = Tag::new(TagType::Id3v2);
    assert!(bpm_candidates(&tag).is_empty());
}
