use vstd::prelude::*;
use vstd::string::StringSliceAdditionalSpecFns;
use vstd::utf8::encode_utf8;
use lofty::tag::{Accessor, ItemKey, ItemValue, Tag, TagItem};
use crate::cache::{
    all_digits, decimal_value, parse_bpm_timestamp, parsed_u64, BPM_TIMESTAMP_KEY,
    HOT_CUES_STORAGE_KEY,
};
use crate::deck::text_view;
use crate::text::{bpm_alias, is_blank, is_bpm_alias, same_ignoring_ascii_case, trimmed, BPM_ALIAS_COUNT};

verus! {

#[verifier::external_type_specification]
#[verifier::external_body]
pub struct ExTag(Tag);

/// One item of a tag as this library reads it: its custom key (absent for
/// the standard keys) and its text (absent for binary values).
pub type ItemModel = (Option<Seq<char>>, Option<Seq<char>>);

/// What the items of a tag hold, in order.
pub uninterp spec fn tag_items(t: Tag) -> Seq<(Option<Seq<char>>, Option<Seq<char>>)>;

/// The items that are not filed under the custom key `key`.
pub open spec fn without_key(items: Seq<ItemModel>, key: Seq<char>) -> Seq<ItemModel> {
    items.filter(|it: ItemModel| it.0 != Some(key))
}

/// Relies on `Tag::items`, `TagItem::key` and `TagItem::value`: every item
/// in order, its key when it is `ItemKey::Unknown`, its text when its value
/// is `Text` or `Locator`.
#[verifier::external_body]
fn item_views(tag: &Tag) -> (r: Vec<(Option<String>, Option<String>)>)
    ensures
        r@.len() == tag_items(*tag).len(),
        forall|i: int|
            0 <= i < r@.len() ==> (text_view(#[trigger] r@[i].0), text_view(r@[i].1))
                == tag_items(*tag)[i],
{
    let view = |item: &TagItem| {
        let key = match item.key() {
            ItemKey::Unknown(k) => Some(k.clone()),
            _ => None,
        };
        let text = match item.value() {
            ItemValue::Text(t) | ItemValue::Locator(t) => Some(t.clone()),
            ItemValue::Binary(_) => None,
        };
        (key, text)
    };
    tag.items().map(view).collect()
}

/// Relies on `Tag::remove_key`: drops every item whose key is
/// `ItemKey::Unknown(key)`, keeping the order of the others.
#[verifier::external_body]
fn remove_custom_key(tag: &mut Tag, key: String)
    ensures
        tag_items(*final(tag)) == without_key(tag_items(*old(tag)), key@),
{
    tag.remove_key(&ItemKey::Unknown(key))
}

/// Relies on `Tag::insert_unchecked`: drops the items with the same key,
/// then appends a text item under `ItemKey::Unknown(key)`.
#[verifier::external_body]
fn insert_custom_text(tag: &mut Tag, key: String, text: String)
    ensures
        tag_items(*final(tag)) == without_key(tag_items(*old(tag)), key@).push(
            (Some(key@), Some(text@)),
        ),
{
    tag.insert_unchecked(TagItem::new(ItemKey::Unknown(key), ItemValue::Text(text)))
}

/// The title a tag holds: the text of its first `ItemKey::TrackTitle` item,
/// as `Accessor::title` reads it.
pub uninterp spec fn tag_title(t: Tag) -> Option<Seq<char>>;

/// The artist a tag holds: the text of its first `ItemKey::TrackArtist`
/// item, as `Accessor::artist` reads it.
pub uninterp spec fn tag_artist(t: Tag) -> Option<Seq<char>>;

/// Relies on `Accessor::set_title` for `Tag`: it inserts a text item under
/// `ItemKey::TrackTitle` (a key every tag type maps), replacing the others.
#[verifier::external_body]
fn set_title(tag: &mut Tag, value: String)
    ensures
        tag_title(*final(tag)) == Some(value@),
{
    tag.set_title(value)
}

/// Relies on `Accessor::remove_title` for `Tag`: it drops every
/// `ItemKey::TrackTitle` item.
#[verifier::external_body]
fn remove_title(tag: &mut Tag)
    ensures
        tag_title(*final(tag)) is None,
{
    tag.remove_title()
}

/// Relies on `Accessor::set_artist` for `Tag`: it inserts a text item under
/// `ItemKey::TrackArtist` (a key every tag type maps), replacing the others.
#[verifier::external_body]
fn set_artist(tag: &mut Tag, value: String)
    ensures
        tag_artist(*final(tag)) == Some(value@),
{
    tag.set_artist(value)
}

/// Relies on `Accessor::remove_artist` for `Tag`: it drops every
/// `ItemKey::TrackArtist` item.
#[verifier::external_body]
fn remove_artist(tag: &mut Tag)
    ensures
        tag_artist(*final(tag)) is None,
{
    tag.remove_artist()
}

/// What a requested field update leaves: no request keeps the field, a blank
/// value removes it, any other value sets it.
pub open spec fn updated_field(before: Option<Seq<char>>, request: Option<Seq<char>>) -> Option<Seq<char>> {
    match request {
        None => before,
        Some(v) => if trimmed(v).len() == 0 {
            None
        } else {
            Some(v)
        },
    }
}

/// Applies a requested title to a tag.
pub fn update_title(tag: &mut Tag, value: Option<String>)
    ensures
        tag_title(*final(tag)) == updated_field(tag_title(*old(tag)), text_view(value)),
        value is None ==> *final(tag) == *old(tag),
{
    if let Some(v) = value {
        if is_blank(v.as_str()) {
            remove_title(tag);
        } else {
            set_title(tag, v);
        }
    }
}

/// Applies a requested artist to a tag.
pub fn update_artist(tag: &mut Tag, value: Option<String>)
    ensures
        tag_artist(*final(tag)) == updated_field(tag_artist(*old(tag)), text_view(value)),
        value is None ==> *final(tag) == *old(tag),
{
    if let Some(v) = value {
        if is_blank(v.as_str()) {
            remove_artist(tag);
        } else {
            set_artist(tag, v);
        }
    }
}

/// Kind of a tag item as the tempo lookup sees it.
#[derive(PartialEq, Eq, Structural, Clone, Copy, Debug)]
pub enum ItemKind {
    Bpm,
    IntegerBpm,
    Other,
}

/// One item of a tag as the tempo lookup reads it: its kind, its custom key
/// (absent for the standard keys) and the bytes of its value.
pub type ValueModel = (ItemKind, Option<Seq<char>>, Seq<u8>);

/// What the items of a tag hold for the tempo lookup, in order.
pub uninterp spec fn tag_values(t: Tag) -> Seq<(ItemKind, Option<Seq<char>>, Seq<u8>)>;

/// Relies on `Tag::items`, `TagItem::key` and `TagItem::value`: every item
/// in order; its kind (`ItemKey::Bpm`, `ItemKey::IntegerBpm` or another),
/// its key when it is `ItemKey::Unknown`, and the bytes of its value (the
/// UTF-8 of a `Text` or `Locator`, the content of a `Binary`).
#[verifier::external_body]
fn value_views(tag: &Tag) -> (r: Vec<(ItemKind, Option<String>, Vec<u8>)>)
    ensures
        r@.len() == tag_values(*tag).len(),
        forall|i: int|
            0 <= i < r@.len() ==> (#[trigger] r@[i].0, text_view(r@[i].1), r@[i].2@)
                == tag_values(*tag)[i],
{
    let view = |item: &TagItem| {
        let (kind, key) = match item.key() {
            ItemKey::Bpm => (ItemKind::Bpm, None),
            ItemKey::IntegerBpm => (ItemKind::IntegerBpm, None),
            ItemKey::Unknown(k) => (ItemKind::Other, Some(k.clone())),
            _ => (ItemKind::Other, None),
        };
        let bytes = match item.value() {
            ItemValue::Text(t) | ItemValue::Locator(t) => t.as_bytes().to_vec(),
            ItemValue::Binary(b) => b.clone(),
        };
        (kind, key, bytes)
    };
    tag.items().map(view).collect()
}

/// The value of the first item of a kind.
pub open spec fn first_of_kind(items: Seq<ValueModel>, kind: ItemKind) -> Option<Seq<u8>>
    decreases items.len(),
{
    if items.len() == 0 {
        None
    } else if items[0].0 == kind {
        Some(items[0].2)
    } else {
        first_of_kind(items.drop_first(), kind)
    }
}

pub open spec fn names_tempo(key: Option<Seq<char>>) -> bool {
    key is Some && exists|k: int|
        0 <= k < BPM_ALIAS_COUNT && same_ignoring_ascii_case(encode_utf8(key->0), #[trigger] bpm_alias(k))
}

/// The values of the custom items whose key names a tempo, in order.
pub open spec fn alias_values(items: Seq<ValueModel>) -> Seq<Seq<u8>>
    decreases items.len(),
{
    if items.len() == 0 {
        seq![]
    } else {
        let rest = alias_values(items.drop_last());
        if names_tempo(items.last().1) {
            rest.push(items.last().2)
        } else {
            rest
        }
    }
}

pub open spec fn opt_seq(o: Option<Seq<u8>>) -> Seq<Seq<u8>> {
    match o {
        Some(v) => seq![v],
        None => seq![],
    }
}

/// The texts a tempo is read from, in the order they are tried: the first
/// `Bpm` item, the first `IntegerBpm` item, then every custom item whose
/// key names a tempo.
pub open spec fn bpm_sources(items: Seq<ValueModel>) -> Seq<Seq<u8>> {
    opt_seq(first_of_kind(items, ItemKind::Bpm)) + opt_seq(first_of_kind(items, ItemKind::IntegerBpm))
        + alias_values(items)
}

fn first_of(views: &Vec<(ItemKind, Option<String>, Vec<u8>)>, kind: ItemKind, items: Ghost<Seq<ValueModel>>) -> (r: Option<Vec<u8>>)
    requires
        views@.len() == items@.len(),
        forall|i: int|
            0 <= i < views@.len() ==> (#[trigger] views@[i].0, text_view(views@[i].1), views@[i].2@)
                == items@[i],
    ensures
        match r {
            Some(v) => first_of_kind(items@, kind) == Some(v@),
            None => first_of_kind(items@, kind) is None,
        },
{
    let mut i: usize = 0;
    assert(items@.subrange(0, items@.len() as int) =~= items@);
    while i < views.len()
        invariant
            views@.len() == items@.len(),
            forall|j: int|
                0 <= j < views@.len() ==> (#[trigger] views@[j].0, text_view(views@[j].1), views@[j].2@)
                    == items@[j],
            i <= views@.len(),
            first_of_kind(items@, kind) == first_of_kind(items@.subrange(i as int, items@.len() as int), kind),
        decreases views@.len() - i,
    {
        let ghost rest = items@.subrange(i as int, items@.len() as int);
        assert(rest.drop_first() =~= items@.subrange(i + 1, items@.len() as int));
        assert(rest[0] == items@[i as int]);
        assert((views@[i as int].0, text_view(views@[i as int].1), views@[i as int].2@) == items@[i as int]);
        if views[i].0 == kind {
            return Some(views[i].2.clone());
        }
        i += 1;
    }
    None
}

/// The texts a tag offers for its tempo, in the order they are tried.
pub fn bpm_candidates(tag: &Tag) -> (r: Vec<Vec<u8>>)
    ensures
        r@.len() == bpm_sources(tag_values(*tag)).len(),
        forall|i: int| 0 <= i < r@.len() ==> #[trigger] r@[i]@ == bpm_sources(tag_values(*tag))[i],
{
    let views = value_views(tag);
    let ghost items = tag_values(*tag);
    let mut r: Vec<Vec<u8>> = Vec::new();
    match first_of(&views, ItemKind::Bpm, Ghost(items)) {
        Some(v) => {
            r.push(v);
        },
        None => {},
    }
    match first_of(&views, ItemKind::IntegerBpm, Ghost(items)) {
        Some(v) => {
            r.push(v);
        },
        None => {},
    }
    let ghost lead = opt_seq(first_of_kind(items, ItemKind::Bpm)) + opt_seq(first_of_kind(items, ItemKind::IntegerBpm));
    assert(r@.len() == lead.len());
    assert(forall|j: int| 0 <= j < r@.len() ==> #[trigger] r@[j]@ == lead[j]);
    let mut i: usize = 0;
    while i < views.len()
        invariant
            views@.len() == items.len(),
            forall|j: int|
                0 <= j < views@.len() ==> (#[trigger] views@[j].0, text_view(views@[j].1), views@[j].2@)
                    == items[j],
            items == tag_values(*tag),
            i <= views@.len(),
            r@.len() == (lead + alias_values(items.subrange(0, i as int))).len(),
            forall|j: int|
                0 <= j < r@.len() ==> #[trigger] r@[j]@ == (lead + alias_values(
                    items.subrange(0, i as int),
                ))[j],
        decreases views@.len() - i,
    {
        let ghost prefix = items.subrange(0, i + 1);
        assert(prefix.drop_last() =~= items.subrange(0, i as int));
        assert(prefix.last() == items[i as int]);
        assert((views@[i as int].0, text_view(views@[i as int].1), views@[i as int].2@) == items[i as int]);
        let named = match &views[i].1 {
            Some(k) => is_bpm_alias(k.as_str()),
            None => false,
        };
        if named {
            r.push(views[i].2.clone());
        }
        i += 1;
    }
    assert(items.subrange(0, items.len() as int) =~= items);
    r
}

/// The decimal spelling of a number: digits only, at least one.
pub open spec fn is_decimal_of(text: Seq<char>, n: u64) -> bool {
    let b = encode_utf8(text);
    b.len() > 0 && all_digits(b) && decimal_value(b) == n
}

/// Relies on `u64`'s `to_string`: the number in decimal digits.
#[verifier::external_body]
fn decimal_text(n: u64) -> (r: String)
    ensures
        is_decimal_of(r@, n),
{
    n.to_string()
}

/// Whether two texts are equal, compared through their bytes.
fn same_text(a: &str, b: &str) -> (r: bool)
    ensures
        r == (a@ == b@),
{
    let x = a.as_bytes();
    let y = b.as_bytes();
    proof {
        vstd::utf8::encode_utf8_decode_utf8(a@);
        vstd::utf8::encode_utf8_decode_utf8(b@);
    }
    if x.len() != y.len() {
        return false;
    }
    let mut i: usize = 0;
    while i < x.len()
        invariant
            x@ == a.spec_bytes(),
            y@ == b.spec_bytes(),
            x@.len() == y@.len(),
            i <= x@.len(),
            forall|j: int| 0 <= j < i ==> #[trigger] x@[j] == y@[j],
        decreases x@.len() - i,
    {
        if x[i] != y[i] {
            return false;
        }
        i += 1;
    }
    assert(x@ =~= y@);
    true
}

fn key_is(key: &Option<String>, name: &str) -> (r: bool)
    ensures
        r == (text_view(*key) == Some(name@)),
{
    match key {
        Some(k) => same_text(k.as_str(), name),
        None => false,
    }
}

/// The timestamp an item holds, if it is filed under the timestamp key and
/// its text reads as a `u64`.
pub open spec fn timestamp_of_item(it: ItemModel) -> Option<u64> {
    if it.0 == Some(BPM_TIMESTAMP_KEY@) && it.1 is Some {
        parsed_u64(encode_utf8(it.1->0))
    } else {
        None
    }
}

/// The first timestamp among the items.
pub open spec fn first_timestamp(items: Seq<ItemModel>) -> Option<u64>
    decreases items.len(),
{
    if items.len() == 0 {
        None
    } else if timestamp_of_item(items[0]) is Some {
        timestamp_of_item(items[0])
    } else {
        first_timestamp(items.drop_first())
    }
}

/// The texts filed under a custom key, in order.
pub open spec fn texts_under(items: Seq<ItemModel>, key: Seq<char>) -> Seq<Seq<char>>
    decreases items.len(),
{
    if items.len() == 0 {
        seq![]
    } else {
        let rest = texts_under(items.drop_last(), key);
        let it = items.last();
        if it.0 == Some(key) && it.1 is Some {
            rest.push(it.1->0)
        } else {
            rest
        }
    }
}

/// The time of the last tempo write recorded in a tag.
pub fn stored_timestamp(tag: &Tag) -> (r: Option<u64>)
    ensures
        r == first_timestamp(tag_items(*tag)),
{
    let views = item_views(tag);
    let ghost items = tag_items(*tag);
    assert(items.subrange(0, items.len() as int) =~= items);
    let mut i: usize = 0;
    while i < views.len()
        invariant
            views@.len() == items.len(),
            forall|j: int|
                0 <= j < views@.len() ==> (text_view(#[trigger] views@[j].0), text_view(
                    views@[j].1,
                )) == items[j],
            items == tag_items(*tag),
            i <= views@.len(),
            first_timestamp(items) == first_timestamp(items.subrange(i as int, items.len() as int)),
        decreases views@.len() - i,
    {
        let ghost rest = items.subrange(i as int, items.len() as int);
        assert(rest.drop_first() =~= items.subrange(i + 1, items.len() as int));
        assert(rest[0] == items[i as int]);
        assert((text_view(views@[i as int].0), text_view(views@[i as int].1)) == items[i as int]);
        let (key, text) = (&views[i].0, &views[i].1);
        if key_is(key, BPM_TIMESTAMP_KEY) {
            if let Some(t) = text {
                let parsed = parse_bpm_timestamp(t.as_str());
                if parsed.is_some() {
                    return parsed;
                }
            }
        }
        i += 1;
    }
    None
}

/// The hot-cue payloads kept in a tag, in order.
pub fn hot_cue_payloads(tag: &Tag) -> (r: Vec<String>)
    ensures
        r@.len() == texts_under(tag_items(*tag), HOT_CUES_STORAGE_KEY@).len(),
        forall|i: int|
            0 <= i < r@.len() ==> #[trigger] r@[i]@ == texts_under(
                tag_items(*tag),
                HOT_CUES_STORAGE_KEY@,
            )[i],
{
    let views = item_views(tag);
    let ghost items = tag_items(*tag);
    let ghost key = HOT_CUES_STORAGE_KEY@;
    let mut r: Vec<String> = Vec::new();
    let mut i: usize = 0;
    while i < views.len()
        invariant
            views@.len() == items.len(),
            forall|j: int|
                0 <= j < views@.len() ==> (text_view(#[trigger] views@[j].0), text_view(
                    views@[j].1,
                )) == items[j],
            items == tag_items(*tag),
            key == HOT_CUES_STORAGE_KEY@,
            i <= views@.len(),
            r@.len() == texts_under(items.subrange(0, i as int), key).len(),
            forall|j: int|
                0 <= j < r@.len() ==> #[trigger] r@[j]@ == texts_under(
                    items.subrange(0, i as int),
                    key,
                )[j],
        decreases views@.len() - i,
    {
        let ghost prefix = items.subrange(0, i + 1);
        assert(prefix.drop_last() =~= items.subrange(0, i as int));
        assert(prefix.last() == items[i as int]);
        assert((text_view(views@[i as int].0), text_view(views@[i as int].1)) == items[i as int]);
        if key_is(&views[i].0, HOT_CUES_STORAGE_KEY) {
            match &views[i].1 {
                Some(t) => {
                    r.push(t.clone());
                },
                None => {},
            }
        }
        i += 1;
    }
    assert(items.subrange(0, items.len() as int) =~= items);
    r
}

/// Replaces the hot-cue payload of a tag: earlier payloads are dropped, and
/// the given one, if any, is appended.
pub fn store_hot_cue_payload(tag: &mut Tag, payload: Option<String>)
    ensures
        payload is None ==> tag_items(*final(tag)) == without_key(
            tag_items(*old(tag)),
            HOT_CUES_STORAGE_KEY@,
        ),
        payload is Some ==> tag_items(*final(tag)) == without_key(
            tag_items(*old(tag)),
            HOT_CUES_STORAGE_KEY@,
        ).push((Some(HOT_CUES_STORAGE_KEY@), Some(payload->0@))),
{
    let key = String::from_str(HOT_CUES_STORAGE_KEY);
    match payload {
        Some(p) => insert_custom_text(tag, key, p),
        None => remove_custom_key(tag, key),
    }
}

/// Records in a tag the time of a tempo write, replacing earlier records.
pub fn record_bpm_timestamp(tag: &mut Tag, timestamp: u64)
    ensures
        tag_items(*final(tag)).len() > 0,
        tag_items(*final(tag)).drop_last() == without_key(tag_items(*old(tag)), BPM_TIMESTAMP_KEY@),
        tag_items(*final(tag)).last().0 == Some(BPM_TIMESTAMP_KEY@),
        tag_items(*final(tag)).last().1 is Some,
        is_decimal_of(tag_items(*final(tag)).last().1->0, timestamp),
{
    let key = String::from_str(BPM_TIMESTAMP_KEY);
    let text = decimal_text(timestamp);
    insert_custom_text(tag, key, text);
    assert(tag_items(*tag).drop_last() =~= without_key(tag_items(*old(tag)), BPM_TIMESTAMP_KEY@));
}

proof fn lemma_without_key_excludes(items: Seq<ItemModel>, key: Seq<char>)
    ensures
        forall|i: int|
            0 <= i < without_key(items, key).len() ==> (#[trigger] without_key(items, key)[i]).0
                != Some(key),
    decreases items.len(),
{
    reveal(Seq::filter);
    if items.len() > 0 {
        lemma_without_key_excludes(items.drop_last(), key);
    }
}

proof fn lemma_first_timestamp_after(w: Seq<ItemModel>, x: ItemModel)
    requires
        forall|i: int| 0 <= i < w.len() ==> (#[trigger] w[i]).0 != Some(BPM_TIMESTAMP_KEY@),
    ensures
        first_timestamp(w.push(x)) == first_timestamp(seq![x]),
    decreases w.len(),
{
    if w.len() > 0 {
        assert(w.push(x).drop_first() =~= w.drop_first().push(x));
        assert(w.push(x)[0] == w[0]);
        lemma_first_timestamp_after(w.drop_first(), x);
    } else {
        assert(w.push(x) =~= seq![x]);
    }
}

/// A recorded analysis timestamp reads back as itself: once the items of a
/// tag are those left after `record_bpm_timestamp`, `stored_timestamp`
/// finds the recorded value.
pub proof fn lemma_timestamp_round_trip(before: Seq<ItemModel>, after: Seq<ItemModel>, timestamp: u64)
    requires
        after.len() > 0,
        after.drop_last() == without_key(before, BPM_TIMESTAMP_KEY@),
        after.last().0 == Some(BPM_TIMESTAMP_KEY@),
        after.last().1 is Some,
        is_decimal_of(after.last().1->0, timestamp),
    ensures
        first_timestamp(after) == Some(timestamp),
{
    let b = encode_utf8(after.last().1->0);
    assert(!crate::cache::is_digit(43u8));
    assert(b[0] != 43);
    assert(crate::cache::unsigned_digits(b) == b);
    lemma_without_key_excludes(before, BPM_TIMESTAMP_KEY@);
    lemma_first_timestamp_after(after.drop_last(), after.last());
    assert(after.drop_last().push(after.last()) =~= after);
    assert(seq![after.last()].drop_first() =~= Seq::<ItemModel>::empty());
}

proof fn lemma_no_texts_under(w: Seq<ItemModel>, key: Seq<char>)
    requires
        forall|i: int| 0 <= i < w.len() ==> (#[trigger] w[i]).0 != Some(key),
    ensures
        texts_under(w, key) == Seq::<Seq<char>>::empty(),
    decreases w.len(),
{
    if w.len() > 0 {
        assert(w.last() == w[w.len() - 1]);
        lemma_no_texts_under(w.drop_last(), key);
    }
}

/// A stored hot-cue payload reads back alone: once the items of a tag are
/// those left by `store_hot_cue_payload` with a payload, `hot_cue_payloads`
/// gives exactly that payload.
pub proof fn lemma_hot_cue_round_trip(before: Seq<ItemModel>, payload: Seq<char>)
    ensures
        texts_under(
            without_key(before, HOT_CUES_STORAGE_KEY@).push(
                (Some(HOT_CUES_STORAGE_KEY@), Some(payload)),
            ),
            HOT_CUES_STORAGE_KEY@,
        ) == seq![payload],
{
    let key = HOT_CUES_STORAGE_KEY@;
    let w = without_key(before, key);
    let after = w.push((Some(key), Some(payload)));
    lemma_without_key_excludes(before, key);
    lemma_no_texts_under(w, key);
    assert(after.drop_last() =~= w);
    assert(texts_under(after, key) =~= seq![payload]);
}

} // verus!
