//! The snapshot's wire format: how a workspace record becomes a JSON document
//! tree and how a tree becomes a record again, with the round trip proved.
//!
//! Field names on the wire are stable and decoupled from the in-memory names.
//! Decoding default-fills missing optional fields exactly as the store's
//! schema prescribes; a missing watermark falls back to the time of the read.

use vstd::prelude::*;

use crate::data::AppDataV;
use crate::data::BoardV;
use crate::data::BookmarkV;
use crate::data::CardV;
use crate::data::ChecklistItemV;
use crate::data::CollectionV;
use crate::data::ColumnV;
use crate::data::CustomTagV;
use crate::data::NoteV;
use crate::data::SyncDataV;
use crate::data::spec_default_collections;
use crate::json::JsonV;
use crate::json::MemberV;

verus! {

// ------------------------------------------------------------------
// Encoding: record to document tree
// ------------------------------------------------------------------

/// An optional string on the wire: the string, or `null`.
pub open spec fn enc_opt_str(o: Option<Seq<char>>) -> JsonV {
    match o {
        Some(s) => JsonV::Str(s),
        None => JsonV::Null,
    }
}

/// An optional flag on the wire: the flag, or `null`.
pub open spec fn enc_opt_bool(o: Option<bool>) -> JsonV {
    match o {
        Some(b) => JsonV::Bool(b),
        None => JsonV::Null,
    }
}

/// A list of strings on the wire.
pub open spec fn enc_str_list(s: Seq<Seq<char>>) -> JsonV {
    JsonV::Arr(s.map_values(|x: Seq<char>| JsonV::Str(x)))
}

pub open spec fn enc_checklist_item(c: ChecklistItemV) -> JsonV {
    JsonV::Obj(
        seq![
            MemberV { key: "id"@, val: JsonV::Str(c.id) },
            MemberV { key: "text"@, val: JsonV::Str(c.text) },
            MemberV { key: "completed"@, val: JsonV::Bool(c.completed) },
        ],
    )
}

pub open spec fn enc_card(c: CardV) -> JsonV {
    JsonV::Obj(
        seq![
            MemberV { key: "id"@, val: JsonV::Str(c.id) },
            MemberV { key: "title"@, val: JsonV::Str(c.title) },
            MemberV { key: "description"@, val: JsonV::Str(c.description) },
            MemberV { key: "labels"@, val: enc_str_list(c.labels) },
            MemberV { key: "priority"@, val: enc_opt_str(c.priority) },
            MemberV {
                key: "checklist"@,
                val: JsonV::Arr(c.checklist.map_values(|x: ChecklistItemV| enc_checklist_item(x))),
            },
            MemberV { key: "createdAt"@, val: JsonV::Str(c.created_at) },
            MemberV { key: "archivedAt"@, val: enc_opt_str(c.archived_at) },
            MemberV { key: "originalColumnId"@, val: enc_opt_str(c.original_column_id) },
        ],
    )
}

pub open spec fn enc_cards(s: Seq<CardV>) -> JsonV {
    JsonV::Arr(s.map_values(|x: CardV| enc_card(x)))
}

pub open spec fn enc_column(c: ColumnV) -> JsonV {
    JsonV::Obj(
        seq![
            MemberV { key: "id"@, val: JsonV::Str(c.id) },
            MemberV { key: "title"@, val: JsonV::Str(c.title) },
            MemberV { key: "cards"@, val: enc_cards(c.cards) },
        ],
    )
}

pub open spec fn enc_board(b: BoardV) -> JsonV {
    JsonV::Obj(
        seq![
            MemberV { key: "id"@, val: JsonV::Str(b.id) },
            MemberV { key: "name"@, val: JsonV::Str(b.name) },
            MemberV {
                key: "columns"@,
                val: JsonV::Arr(b.columns.map_values(|x: ColumnV| enc_column(x))),
            },
            MemberV { key: "archivedCards"@, val: enc_cards(b.archived_cards) },
        ],
    )
}

pub open spec fn enc_collection(c: CollectionV) -> JsonV {
    JsonV::Obj(
        seq![
            MemberV { key: "id"@, val: JsonV::Str(c.id) },
            MemberV { key: "name"@, val: JsonV::Str(c.name) },
            MemberV { key: "icon"@, val: JsonV::Str(c.icon) },
            MemberV { key: "isCustom"@, val: enc_opt_bool(c.is_custom) },
        ],
    )
}

pub open spec fn enc_bookmark(b: BookmarkV) -> JsonV {
    JsonV::Obj(
        seq![
            MemberV { key: "id"@, val: JsonV::Str(b.id) },
            MemberV { key: "title"@, val: JsonV::Str(b.title) },
            MemberV { key: "url"@, val: JsonV::Str(b.url) },
            MemberV { key: "description"@, val: JsonV::Str(b.description) },
            MemberV { key: "favicon"@, val: enc_opt_str(b.favicon) },
            MemberV { key: "image"@, val: enc_opt_str(b.image) },
            MemberV { key: "tags"@, val: enc_str_list(b.tags) },
            MemberV { key: "collectionId"@, val: enc_opt_str(b.collection_id) },
            MemberV { key: "isFavorite"@, val: JsonV::Bool(b.is_favorite) },
            MemberV { key: "isArchived"@, val: JsonV::Bool(b.is_archived) },
            MemberV { key: "createdAt"@, val: JsonV::Str(b.created_at) },
        ],
    )
}

pub open spec fn enc_custom_tag(t: CustomTagV) -> JsonV {
    JsonV::Obj(
        seq![
            MemberV { key: "name"@, val: JsonV::Str(t.name) },
            MemberV { key: "color"@, val: JsonV::Str(t.color) },
        ],
    )
}

pub open spec fn enc_note(n: NoteV) -> JsonV {
    JsonV::Obj(
        seq![
            MemberV { key: "id"@, val: JsonV::Str(n.id) },
            MemberV { key: "title"@, val: JsonV::Str(n.title) },
            MemberV { key: "content"@, val: JsonV::Str(n.content) },
            MemberV { key: "isPinned"@, val: JsonV::Bool(n.is_pinned) },
            MemberV { key: "createdAt"@, val: JsonV::Str(n.created_at) },
            MemberV { key: "updatedAt"@, val: JsonV::Str(n.updated_at) },
        ],
    )
}

/// The custom-tag map on the wire: one member per tag, keyed by its map key.
pub open spec fn enc_tags(s: Seq<(Seq<char>, CustomTagV)>) -> JsonV {
    JsonV::Obj(
        s.map_values(
            |p: (Seq<char>, CustomTagV)| MemberV { key: p.0, val: enc_custom_tag(p.1) },
        ),
    )
}

/// The full local record as a document tree, under its stable field names.
pub open spec fn enc_app_data(d: AppDataV) -> JsonV {
    JsonV::Obj(
        seq![
            MemberV { key: "boards"@, val: JsonV::Arr(d.boards.map_values(|x: BoardV| enc_board(x))) },
            MemberV { key: "activeBoard"@, val: enc_opt_str(d.active_board) },
            MemberV { key: "theme"@, val: JsonV::Str(d.theme) },
            MemberV { key: "activeView"@, val: JsonV::Str(d.active_view) },
            MemberV {
                key: "bookmarks"@,
                val: JsonV::Arr(d.bookmarks.map_values(|x: BookmarkV| enc_bookmark(x))),
            },
            MemberV {
                key: "collections"@,
                val: JsonV::Arr(d.collections.map_values(|x: CollectionV| enc_collection(x))),
            },
            MemberV { key: "customTags"@, val: enc_tags(d.custom_tags) },
            MemberV { key: "notes"@, val: JsonV::Arr(d.notes.map_values(|x: NoteV| enc_note(x))) },
            MemberV { key: "lastModified"@, val: JsonV::Str(d.last_modified) },
            MemberV { key: "syncEnabled"@, val: JsonV::Bool(d.sync_enabled) },
        ],
    )
}

/// The synchronized projection as a document tree: the same wire fields,
/// without the local-only active view.
pub open spec fn enc_sync_data(d: SyncDataV) -> JsonV {
    JsonV::Obj(
        seq![
            MemberV { key: "boards"@, val: JsonV::Arr(d.boards.map_values(|x: BoardV| enc_board(x))) },
            MemberV { key: "activeBoard"@, val: enc_opt_str(d.active_board) },
            MemberV { key: "theme"@, val: JsonV::Str(d.theme) },
            MemberV {
                key: "bookmarks"@,
                val: JsonV::Arr(d.bookmarks.map_values(|x: BookmarkV| enc_bookmark(x))),
            },
            MemberV {
                key: "collections"@,
                val: JsonV::Arr(d.collections.map_values(|x: CollectionV| enc_collection(x))),
            },
            MemberV { key: "customTags"@, val: enc_tags(d.custom_tags) },
            MemberV { key: "notes"@, val: JsonV::Arr(d.notes.map_values(|x: NoteV| enc_note(x))) },
            MemberV { key: "lastModified"@, val: JsonV::Str(d.last_modified) },
            MemberV { key: "syncEnabled"@, val: JsonV::Bool(d.sync_enabled) },
        ],
    )
}

// ------------------------------------------------------------------
// Decoding: document tree to record
// ------------------------------------------------------------------

/// The value under the first occurrence of `key`, if any.
pub open spec fn obj_lookup(ms: Seq<MemberV>, key: Seq<char>) -> Option<JsonV>
    decreases ms.len(),
{
    if ms.len() == 0 {
        None
    } else if ms[0].key == key {
        Some(ms[0].val)
    } else {
        obj_lookup(ms.skip(1), key)
    }
}

/// A required string field.
pub open spec fn f_str(ms: Seq<MemberV>, key: Seq<char>) -> Option<Seq<char>> {
    match obj_lookup(ms, key) {
        Some(JsonV::Str(s)) => Some(s),
        _ => None,
    }
}

/// A defaulted string field: absent means the default.
pub open spec fn f_str_or(ms: Seq<MemberV>, key: Seq<char>, dflt: Seq<char>) -> Option<Seq<char>> {
    match obj_lookup(ms, key) {
        None => Some(dflt),
        Some(JsonV::Str(s)) => Some(s),
        Some(_) => None,
    }
}

/// A defaulted nullable string field: absent or `null` means none.
pub open spec fn f_opt_str(ms: Seq<MemberV>, key: Seq<char>) -> Option<Option<Seq<char>>> {
    match obj_lookup(ms, key) {
        None => Some(None),
        Some(JsonV::Null) => Some(None),
        Some(JsonV::Str(s)) => Some(Some(s)),
        Some(_) => None,
    }
}

/// A required nullable string field: it must be present, `null` or a string.
pub open spec fn f_opt_str_req(ms: Seq<MemberV>, key: Seq<char>) -> Option<Option<Seq<char>>> {
    match obj_lookup(ms, key) {
        None => None,
        Some(JsonV::Null) => Some(None),
        Some(JsonV::Str(s)) => Some(Some(s)),
        Some(_) => None,
    }
}

/// A required flag field.
pub open spec fn f_bool(ms: Seq<MemberV>, key: Seq<char>) -> Option<bool> {
    match obj_lookup(ms, key) {
        Some(JsonV::Bool(b)) => Some(b),
        _ => None,
    }
}

/// A defaulted flag field: absent means the default.
pub open spec fn f_bool_or(ms: Seq<MemberV>, key: Seq<char>, dflt: bool) -> Option<bool> {
    match obj_lookup(ms, key) {
        None => Some(dflt),
        Some(JsonV::Bool(b)) => Some(b),
        Some(_) => None,
    }
}

/// A defaulted nullable flag field: absent or `null` means none.
pub open spec fn f_opt_bool(ms: Seq<MemberV>, key: Seq<char>) -> Option<Option<bool>> {
    match obj_lookup(ms, key) {
        None => Some(None),
        Some(JsonV::Null) => Some(None),
        Some(JsonV::Bool(b)) => Some(Some(b)),
        Some(_) => None,
    }
}

/// Decodes every element of a list, failing if any element fails.
pub open spec fn dec_list<A>(items: Seq<JsonV>, dec: spec_fn(JsonV) -> Option<A>) -> Option<Seq<A>>
    decreases items.len(),
{
    if items.len() == 0 {
        Some(Seq::empty())
    } else {
        match dec(items[0]) {
            None => None,
            Some(x) => match dec_list(items.subrange(1, items.len() as int), dec) {
                None => None,
                Some(r) => Some(seq![x] + r),
            },
        }
    }
}

/// A list-valued field: absent means empty when not required; each element is
/// decoded with `dec`.
pub open spec fn f_list<A>(
    ms: Seq<MemberV>,
    key: Seq<char>,
    dec: spec_fn(JsonV) -> Option<A>,
    required: bool,
) -> Option<Seq<A>> {
    match obj_lookup(ms, key) {
        None => if required {
            None
        } else {
            Some(Seq::empty())
        },
        Some(JsonV::Arr(items)) => dec_list(items, dec),
        Some(_) => None,
    }
}

pub open spec fn dec_str(j: JsonV) -> Option<Seq<char>> {
    match j {
        JsonV::Str(s) => Some(s),
        _ => None,
    }
}

pub open spec fn dec_checklist_item(j: JsonV) -> Option<ChecklistItemV> {
    match j {
        JsonV::Obj(ms) => {
            let id = f_str(ms, "id"@);
            let text = f_str(ms, "text"@);
            let completed = f_bool(ms, "completed"@);
            if id is Some && text is Some && completed is Some {
                Some(
                    ChecklistItemV {
                        id: id.unwrap(),
                        text: text.unwrap(),
                        completed: completed.unwrap(),
                    },
                )
            } else {
                None
            }
        },
        _ => None,
    }
}

pub open spec fn dec_card(j: JsonV) -> Option<CardV> {
    match j {
        JsonV::Obj(ms) => {
            let id = f_str(ms, "id"@);
            let title = f_str(ms, "title"@);
            let description = f_str_or(ms, "description"@, Seq::empty());
            let labels = f_list(ms, "labels"@, |x: JsonV| dec_str(x), false);
            let priority = f_opt_str(ms, "priority"@);
            let checklist = f_list(ms, "checklist"@, |x: JsonV| dec_checklist_item(x), false);
            let created_at = f_str(ms, "createdAt"@);
            let archived_at = f_opt_str(ms, "archivedAt"@);
            let original_column_id = f_opt_str(ms, "originalColumnId"@);
            if id is Some && title is Some && description is Some && labels is Some && priority
                is Some && checklist is Some && created_at is Some && archived_at is Some
                && original_column_id is Some {
                Some(
                    CardV {
                        id: id.unwrap(),
                        title: title.unwrap(),
                        description: description.unwrap(),
                        labels: labels.unwrap(),
                        priority: priority.unwrap(),
                        checklist: checklist.unwrap(),
                        created_at: created_at.unwrap(),
                        archived_at: archived_at.unwrap(),
                        original_column_id: original_column_id.unwrap(),
                    },
                )
            } else {
                None
            }
        },
        _ => None,
    }
}

pub open spec fn dec_column(j: JsonV) -> Option<ColumnV> {
    match j {
        JsonV::Obj(ms) => {
            let id = f_str(ms, "id"@);
            let title = f_str(ms, "title"@);
            let cards = f_list(ms, "cards"@, |x: JsonV| dec_card(x), true);
            if id is Some && title is Some && cards is Some {
                Some(ColumnV { id: id.unwrap(), title: title.unwrap(), cards: cards.unwrap() })
            } else {
                None
            }
        },
        _ => None,
    }
}

pub open spec fn dec_board(j: JsonV) -> Option<BoardV> {
    match j {
        JsonV::Obj(ms) => {
            let id = f_str(ms, "id"@);
            let name = f_str(ms, "name"@);
            let columns = f_list(ms, "columns"@, |x: JsonV| dec_column(x), true);
            let archived_cards = f_list(ms, "archivedCards"@, |x: JsonV| dec_card(x), false);
            if id is Some && name is Some && columns is Some && archived_cards is Some {
                Some(
                    BoardV {
                        id: id.unwrap(),
                        name: name.unwrap(),
                        columns: columns.unwrap(),
                        archived_cards: archived_cards.unwrap(),
                    },
                )
            } else {
                None
            }
        },
        _ => None,
    }
}

pub open spec fn dec_collection(j: JsonV) -> Option<CollectionV> {
    match j {
        JsonV::Obj(ms) => {
            let id = f_str(ms, "id"@);
            let name = f_str(ms, "name"@);
            let icon = f_str(ms, "icon"@);
            let is_custom = f_opt_bool(ms, "isCustom"@);
            if id is Some && name is Some && icon is Some && is_custom is Some {
                Some(
                    CollectionV {
                        id: id.unwrap(),
                        name: name.unwrap(),
                        icon: icon.unwrap(),
                        is_custom: is_custom.unwrap(),
                    },
                )
            } else {
                None
            }
        },
        _ => None,
    }
}

pub open spec fn dec_bookmark(j: JsonV) -> Option<BookmarkV> {
    match j {
        JsonV::Obj(ms) => {
            let id = f_str(ms, "id"@);
            let title = f_str(ms, "title"@);
            let url = f_str(ms, "url"@);
            let description = f_str_or(ms, "description"@, Seq::empty());
            let favicon = f_opt_str(ms, "favicon"@);
            let image = f_opt_str(ms, "image"@);
            let tags = f_list(ms, "tags"@, |x: JsonV| dec_str(x), false);
            let collection_id = f_opt_str(ms, "collectionId"@);
            let is_favorite = f_bool_or(ms, "isFavorite"@, false);
            let is_archived = f_bool_or(ms, "isArchived"@, false);
            let created_at = f_str(ms, "createdAt"@);
            if id is Some && title is Some && url is Some && description is Some && favicon is Some
                && image is Some && tags is Some && collection_id is Some && is_favorite is Some
                && is_archived is Some && created_at is Some {
                Some(
                    BookmarkV {
                        id: id.unwrap(),
                        title: title.unwrap(),
                        url: url.unwrap(),
                        description: description.unwrap(),
                        favicon: favicon.unwrap(),
                        image: image.unwrap(),
                        tags: tags.unwrap(),
                        collection_id: collection_id.unwrap(),
                        is_favorite: is_favorite.unwrap(),
                        is_archived: is_archived.unwrap(),
                        created_at: created_at.unwrap(),
                    },
                )
            } else {
                None
            }
        },
        _ => None,
    }
}

pub open spec fn dec_custom_tag(j: JsonV) -> Option<CustomTagV> {
    match j {
        JsonV::Obj(ms) => {
            let name = f_str(ms, "name"@);
            let color = f_str(ms, "color"@);
            if name is Some && color is Some {
                Some(CustomTagV { name: name.unwrap(), color: color.unwrap() })
            } else {
                None
            }
        },
        _ => None,
    }
}

pub open spec fn dec_note(j: JsonV) -> Option<NoteV> {
    match j {
        JsonV::Obj(ms) => {
            let id = f_str(ms, "id"@);
            let title = f_str(ms, "title"@);
            let content = f_str_or(ms, "content"@, Seq::empty());
            let is_pinned = f_bool_or(ms, "isPinned"@, false);
            let created_at = f_str(ms, "createdAt"@);
            let updated_at = f_str(ms, "updatedAt"@);
            if id is Some && title is Some && content is Some && is_pinned is Some && created_at
                is Some && updated_at is Some {
                Some(
                    NoteV {
                        id: id.unwrap(),
                        title: title.unwrap(),
                        content: content.unwrap(),
                        is_pinned: is_pinned.unwrap(),
                        created_at: created_at.unwrap(),
                        updated_at: updated_at.unwrap(),
                    },
                )
            } else {
                None
            }
        },
        _ => None,
    }
}

/// Decodes the custom-tag map: each member's key with its decoded tag.
pub open spec fn dec_tag_members(ms: Seq<MemberV>) -> Option<Seq<(Seq<char>, CustomTagV)>>
    decreases ms.len(),
{
    if ms.len() == 0 {
        Some(Seq::empty())
    } else {
        match dec_custom_tag(ms[0].val) {
            None => None,
            Some(t) => match dec_tag_members(ms.subrange(1, ms.len() as int)) {
                None => None,
                Some(r) => Some(seq![(ms[0].key, t)] + r),
            },
        }
    }
}

/// The custom-tag field: absent means empty, else an object of tags.
pub open spec fn f_tags(ms: Seq<MemberV>, key: Seq<char>) -> Option<Seq<(Seq<char>, CustomTagV)>> {
    match obj_lookup(ms, key) {
        None => Some(Seq::empty()),
        Some(JsonV::Obj(tms)) => dec_tag_members(tms),
        Some(_) => None,
    }
}

/// The collections field: absent means the built-in collections.
pub open spec fn f_collections(ms: Seq<MemberV>, key: Seq<char>) -> Option<Seq<CollectionV>> {
    match obj_lookup(ms, key) {
        None => Some(spec_default_collections()),
        Some(JsonV::Arr(items)) => dec_list(items, |x: JsonV| dec_collection(x)),
        Some(_) => None,
    }
}

/// Decodes a full local record from a document tree. A missing theme falls
/// back to dark, a missing view to boards, missing collections to the
/// built-ins, and a missing watermark to `now`, the time of this read.
pub open spec fn dec_app_data(j: JsonV, now: Seq<char>) -> Option<AppDataV> {
    match j {
        JsonV::Obj(ms) => {
            let boards = f_list(ms, "boards"@, |x: JsonV| dec_board(x), true);
            let active_board = f_opt_str_req(ms, "activeBoard"@);
            let theme = f_str_or(ms, "theme"@, "dark"@);
            let active_view = f_str_or(ms, "activeView"@, "boards"@);
            let bookmarks = f_list(ms, "bookmarks"@, |x: JsonV| dec_bookmark(x), false);
            let collections = f_collections(ms, "collections"@);
            let custom_tags = f_tags(ms, "customTags"@);
            let notes = f_list(ms, "notes"@, |x: JsonV| dec_note(x), false);
            let last_modified = f_str_or(ms, "lastModified"@, now);
            let sync_enabled = f_bool_or(ms, "syncEnabled"@, false);
            if boards is Some && active_board is Some && theme is Some && active_view is Some
                && bookmarks is Some && collections is Some && custom_tags is Some && notes is Some
                && last_modified is Some && sync_enabled is Some {
                Some(
                    AppDataV {
                        boards: boards.unwrap(),
                        active_board: active_board.unwrap(),
                        theme: theme.unwrap(),
                        active_view: active_view.unwrap(),
                        bookmarks: bookmarks.unwrap(),
                        collections: collections.unwrap(),
                        custom_tags: custom_tags.unwrap(),
                        notes: notes.unwrap(),
                        last_modified: last_modified.unwrap(),
                        sync_enabled: sync_enabled.unwrap(),
                    },
                )
            } else {
                None
            }
        },
        _ => None,
    }
}

// ------------------------------------------------------------------
// The encode-then-decode round trip
// ------------------------------------------------------------------

/// Decoding every encoded element of a list yields the original list.
pub proof fn lemma_dec_list_enc<A>(
    s: Seq<A>,
    enc: spec_fn(A) -> JsonV,
    dec: spec_fn(JsonV) -> Option<A>,
)
    requires
        forall|i: int| 0 <= i < s.len() ==> #[trigger] dec(enc(s[i])) == Some(s[i]),
    ensures
        dec_list(s.map_values(enc), dec) == Some(s),
    decreases s.len(),
{
    let m = s.map_values(enc);
    if s.len() == 0 {
        assert(s =~= Seq::<A>::empty());
    } else {
        assert(m[0] == enc(s[0]));
        assert(dec(m[0]) == Some(s[0]));
        let st = s.subrange(1, s.len() as int);
        assert(m.subrange(1, m.len() as int) =~= st.map_values(enc));
        assert(forall|i: int| 0 <= i < st.len() ==> st[i] == s[i + 1]);
        lemma_dec_list_enc(st, enc, dec);
        assert(seq![s[0]] + st =~= s);
    }
}

/// The value under `key` is the first member whose key matches.
pub proof fn lemma_obj_lookup_at(ms: Seq<MemberV>, key: Seq<char>, k: int)
    requires
        0 <= k < ms.len(),
        ms[k].key == key,
        forall|i: int| 0 <= i < k ==> ms[i].key != key,
    ensures
        obj_lookup(ms, key) == Some(ms[k].val),
    decreases k,
{
    if k == 0 {
    } else {
        let t = ms.skip(1);
        assert(ms[0].key != key);
        assert(t[k - 1] == ms[k]);
        assert(forall|i: int| 0 <= i < k - 1 ==> #[trigger] t[i].key == ms[i + 1].key);
        lemma_obj_lookup_at(t, key, k - 1);
    }
}

pub proof fn lemma_dec_enc_checklist_item(c: ChecklistItemV)
    ensures
        dec_checklist_item(enc_checklist_item(c)) == Some(c),
{
    reveal_strlit("id");
    reveal_strlit("text");
    reveal_strlit("completed");
    let j = enc_checklist_item(c);
    let ms = j->Obj_0;
    assert(ms[0].key == "id"@ && ms[1].key == "text"@ && ms[2].key == "completed"@);
    assert(("id"@).len() == 2 && ("text"@).len() == 4 && ("completed"@).len() == 9);
    lemma_obj_lookup_at(ms, "id"@, 0);
    lemma_obj_lookup_at(ms, "text"@, 1);
    lemma_obj_lookup_at(ms, "completed"@, 2);
}

pub proof fn lemma_dec_enc_card(c: CardV)
    ensures
        dec_card(enc_card(c)) == Some(c),
{
    reveal_strlit("id");
    reveal_strlit("title");
    reveal_strlit("description");
    reveal_strlit("labels");
    reveal_strlit("priority");
    reveal_strlit("checklist");
    reveal_strlit("createdAt");
    reveal_strlit("archivedAt");
    reveal_strlit("originalColumnId");
    let j = enc_card(c);
    let ms = j->Obj_0;
    assert(ms[0].key == "id"@ && ms[1].key == "title"@ && ms[2].key == "description"@ && ms[3].key
        == "labels"@ && ms[4].key == "priority"@ && ms[5].key == "checklist"@ && ms[6].key
        == "createdAt"@ && ms[7].key == "archivedAt"@ && ms[8].key == "originalColumnId"@);
    lemma_obj_lookup_at(ms, "id"@, 0);
    lemma_obj_lookup_at(ms, "title"@, 1);
    lemma_obj_lookup_at(ms, "description"@, 2);
    lemma_obj_lookup_at(ms, "labels"@, 3);
    lemma_obj_lookup_at(ms, "priority"@, 4);
    lemma_obj_lookup_at(ms, "checklist"@, 5);
    assert(("checklist"@)[1] == 'h' && ("createdAt"@)[1] == 'r');
    lemma_obj_lookup_at(ms, "createdAt"@, 6);
    lemma_obj_lookup_at(ms, "archivedAt"@, 7);
    lemma_obj_lookup_at(ms, "originalColumnId"@, 8);
    lemma_dec_list_enc(
        c.labels,
        |x: Seq<char>| JsonV::Str(x),
        |x: JsonV| dec_str(x),
    );
    assert forall|i: int| 0 <= i < c.checklist.len() implies dec_checklist_item(
        enc_checklist_item(#[trigger] c.checklist[i]),
    ) == Some(c.checklist[i]) by {
        lemma_dec_enc_checklist_item(c.checklist[i]);
    }
    lemma_dec_list_enc(
        c.checklist,
        |x: ChecklistItemV| enc_checklist_item(x),
        |x: JsonV| dec_checklist_item(x),
    );
}

pub proof fn lemma_dec_enc_column(c: ColumnV)
    ensures
        dec_column(enc_column(c)) == Some(c),
{
    reveal_strlit("id");
    reveal_strlit("title");
    reveal_strlit("cards");
    let ms = enc_column(c)->Obj_0;
    assert(ms[0].key == "id"@ && ms[1].key == "title"@ && ms[2].key == "cards"@);
    assert(("title"@)[0] == 't' && ("cards"@)[0] == 'c');
    lemma_obj_lookup_at(ms, "id"@, 0);
    lemma_obj_lookup_at(ms, "title"@, 1);
    lemma_obj_lookup_at(ms, "cards"@, 2);
    assert forall|i: int| 0 <= i < c.cards.len() implies dec_card(
        enc_card(#[trigger] c.cards[i]),
    ) == Some(c.cards[i]) by {
        lemma_dec_enc_card(c.cards[i]);
    }
    lemma_dec_list_enc(c.cards, |x: CardV| enc_card(x), |x: JsonV| dec_card(x));
}

pub proof fn lemma_dec_enc_board(b: BoardV)
    ensures
        dec_board(enc_board(b)) == Some(b),
{
    reveal_strlit("id");
    reveal_strlit("name");
    reveal_strlit("columns");
    reveal_strlit("archivedCards");
    let ms = enc_board(b)->Obj_0;
    assert(ms[0].key == "id"@ && ms[1].key == "name"@ && ms[2].key == "columns"@ && ms[3].key
        == "archivedCards"@);
    lemma_obj_lookup_at(ms, "id"@, 0);
    lemma_obj_lookup_at(ms, "name"@, 1);
    lemma_obj_lookup_at(ms, "columns"@, 2);
    lemma_obj_lookup_at(ms, "archivedCards"@, 3);
    assert forall|i: int| 0 <= i < b.columns.len() implies dec_column(
        enc_column(#[trigger] b.columns[i]),
    ) == Some(b.columns[i]) by {
        lemma_dec_enc_column(b.columns[i]);
    }
    lemma_dec_list_enc(b.columns, |x: ColumnV| enc_column(x), |x: JsonV| dec_column(x));
    assert forall|i: int| 0 <= i < b.archived_cards.len() implies dec_card(
        enc_card(#[trigger] b.archived_cards[i]),
    ) == Some(b.archived_cards[i]) by {
        lemma_dec_enc_card(b.archived_cards[i]);
    }
    lemma_dec_list_enc(b.archived_cards, |x: CardV| enc_card(x), |x: JsonV| dec_card(x));
}

pub proof fn lemma_dec_enc_collection(c: CollectionV)
    ensures
        dec_collection(enc_collection(c)) == Some(c),
{
    reveal_strlit("id");
    reveal_strlit("name");
    reveal_strlit("icon");
    reveal_strlit("isCustom");
    let ms = enc_collection(c)->Obj_0;
    assert(ms[0].key == "id"@ && ms[1].key == "name"@ && ms[2].key == "icon"@ && ms[3].key
        == "isCustom"@);
    assert(("name"@)[0] == 'n' && ("icon"@)[0] == 'i');
    lemma_obj_lookup_at(ms, "id"@, 0);
    lemma_obj_lookup_at(ms, "name"@, 1);
    lemma_obj_lookup_at(ms, "icon"@, 2);
    lemma_obj_lookup_at(ms, "isCustom"@, 3);
}

pub proof fn lemma_dec_enc_bookmark(b: BookmarkV)
    ensures
        dec_bookmark(enc_bookmark(b)) == Some(b),
{
    reveal_strlit("id");
    reveal_strlit("title");
    reveal_strlit("url");
    reveal_strlit("description");
    reveal_strlit("favicon");
    reveal_strlit("image");
    reveal_strlit("tags");
    reveal_strlit("collectionId");
    reveal_strlit("isFavorite");
    reveal_strlit("isArchived");
    reveal_strlit("createdAt");
    let ms = enc_bookmark(b)->Obj_0;
    assert(ms[0].key == "id"@ && ms[1].key == "title"@ && ms[2].key == "url"@ && ms[3].key
        == "description"@ && ms[4].key == "favicon"@ && ms[5].key == "image"@ && ms[6].key
        == "tags"@ && ms[7].key == "collectionId"@ && ms[8].key == "isFavorite"@ && ms[9].key
        == "isArchived"@ && ms[10].key == "createdAt"@);
    assert(("title"@)[0] == 't' && ("image"@)[0] == 'i');
    assert(("isFavorite"@)[2] == 'F' && ("isArchived"@)[2] == 'A');
    lemma_obj_lookup_at(ms, "id"@, 0);
    lemma_obj_lookup_at(ms, "title"@, 1);
    lemma_obj_lookup_at(ms, "url"@, 2);
    lemma_obj_lookup_at(ms, "description"@, 3);
    lemma_obj_lookup_at(ms, "favicon"@, 4);
    lemma_obj_lookup_at(ms, "image"@, 5);
    lemma_obj_lookup_at(ms, "tags"@, 6);
    lemma_obj_lookup_at(ms, "collectionId"@, 7);
    lemma_obj_lookup_at(ms, "isFavorite"@, 8);
    lemma_obj_lookup_at(ms, "isArchived"@, 9);
    lemma_obj_lookup_at(ms, "createdAt"@, 10);
    lemma_dec_list_enc(b.tags, |x: Seq<char>| JsonV::Str(x), |x: JsonV| dec_str(x));
}

pub proof fn lemma_dec_enc_custom_tag(t: CustomTagV)
    ensures
        dec_custom_tag(enc_custom_tag(t)) == Some(t),
{
    reveal_strlit("name");
    reveal_strlit("color");
    let ms = enc_custom_tag(t)->Obj_0;
    assert(ms[0].key == "name"@ && ms[1].key == "color"@);
    lemma_obj_lookup_at(ms, "name"@, 0);
    lemma_obj_lookup_at(ms, "color"@, 1);
}

pub proof fn lemma_dec_enc_note(n: NoteV)
    ensures
        dec_note(enc_note(n)) == Some(n),
{
    reveal_strlit("id");
    reveal_strlit("title");
    reveal_strlit("content");
    reveal_strlit("isPinned");
    reveal_strlit("createdAt");
    reveal_strlit("updatedAt");
    let ms = enc_note(n)->Obj_0;
    assert(ms[0].key == "id"@ && ms[1].key == "title"@ && ms[2].key == "content"@ && ms[3].key
        == "isPinned"@ && ms[4].key == "createdAt"@ && ms[5].key == "updatedAt"@);
    assert(("createdAt"@)[0] == 'c' && ("updatedAt"@)[0] == 'u');
    lemma_obj_lookup_at(ms, "id"@, 0);
    lemma_obj_lookup_at(ms, "title"@, 1);
    lemma_obj_lookup_at(ms, "content"@, 2);
    lemma_obj_lookup_at(ms, "isPinned"@, 3);
    lemma_obj_lookup_at(ms, "createdAt"@, 4);
    lemma_obj_lookup_at(ms, "updatedAt"@, 5);
}

pub proof fn lemma_dec_enc_tag_members(s: Seq<(Seq<char>, CustomTagV)>)
    ensures
        dec_tag_members(
            s.map_values(|p: (Seq<char>, CustomTagV)| MemberV { key: p.0, val: enc_custom_tag(p.1) }),
        ) == Some(s),
    decreases s.len(),
{
    let m = s.map_values(
        |p: (Seq<char>, CustomTagV)| MemberV { key: p.0, val: enc_custom_tag(p.1) },
    );
    if s.len() == 0 {
        assert(s =~= Seq::<(Seq<char>, CustomTagV)>::empty());
    } else {
        lemma_dec_enc_custom_tag(s[0].1);
        let st = s.subrange(1, s.len() as int);
        assert(m.subrange(1, m.len() as int) =~= st.map_values(
            |p: (Seq<char>, CustomTagV)| MemberV { key: p.0, val: enc_custom_tag(p.1) },
        ));
        lemma_dec_enc_tag_members(st);
        assert(seq![(s[0].0, s[0].1)] + st =~= s);
    }
}

/// Decoding an encoded full record yields the record, whatever fallback
/// watermark the read would have used.
pub proof fn lemma_dec_enc_app_data(d: AppDataV, now: Seq<char>)
    ensures
        dec_app_data(enc_app_data(d), now) == Some(d),
{
    reveal_strlit("boards");
    reveal_strlit("activeBoard");
    reveal_strlit("theme");
    reveal_strlit("activeView");
    reveal_strlit("bookmarks");
    reveal_strlit("collections");
    reveal_strlit("customTags");
    reveal_strlit("notes");
    reveal_strlit("lastModified");
    reveal_strlit("syncEnabled");
    let ms = enc_app_data(d)->Obj_0;
    assert(ms[0].key == "boards"@ && ms[1].key == "activeBoard"@ && ms[2].key == "theme"@
        && ms[3].key == "activeView"@ && ms[4].key == "bookmarks"@ && ms[5].key == "collections"@
        && ms[6].key == "customTags"@ && ms[7].key == "notes"@ && ms[8].key == "lastModified"@
        && ms[9].key == "syncEnabled"@);
    assert(("activeBoard"@)[0] == 'a' && ("collections"@)[0] == 'c' && ("syncEnabled"@)[0] == 's');
    assert(("activeView"@)[0] == 'a' && ("customTags"@)[0] == 'c');
    assert(("theme"@)[0] == 't' && ("notes"@)[0] == 'n');
    lemma_obj_lookup_at(ms, "boards"@, 0);
    lemma_obj_lookup_at(ms, "activeBoard"@, 1);
    lemma_obj_lookup_at(ms, "theme"@, 2);
    lemma_obj_lookup_at(ms, "activeView"@, 3);
    lemma_obj_lookup_at(ms, "bookmarks"@, 4);
    lemma_obj_lookup_at(ms, "collections"@, 5);
    lemma_obj_lookup_at(ms, "customTags"@, 6);
    lemma_obj_lookup_at(ms, "notes"@, 7);
    lemma_obj_lookup_at(ms, "lastModified"@, 8);
    lemma_obj_lookup_at(ms, "syncEnabled"@, 9);
    assert forall|i: int| 0 <= i < d.boards.len() implies dec_board(
        enc_board(#[trigger] d.boards[i]),
    ) == Some(d.boards[i]) by {
        lemma_dec_enc_board(d.boards[i]);
    }
    lemma_dec_list_enc(d.boards, |x: BoardV| enc_board(x), |x: JsonV| dec_board(x));
    assert forall|i: int| 0 <= i < d.bookmarks.len() implies dec_bookmark(
        enc_bookmark(#[trigger] d.bookmarks[i]),
    ) == Some(d.bookmarks[i]) by {
        lemma_dec_enc_bookmark(d.bookmarks[i]);
    }
    lemma_dec_list_enc(d.bookmarks, |x: BookmarkV| enc_bookmark(x), |x: JsonV| dec_bookmark(x));
    assert forall|i: int| 0 <= i < d.collections.len() implies dec_collection(
        enc_collection(#[trigger] d.collections[i]),
    ) == Some(d.collections[i]) by {
        lemma_dec_enc_collection(d.collections[i]);
    }
    lemma_dec_list_enc(
        d.collections,
        |x: CollectionV| enc_collection(x),
        |x: JsonV| dec_collection(x),
    );
    lemma_dec_enc_tag_members(d.custom_tags);
    assert forall|i: int| 0 <= i < d.notes.len() implies dec_note(
        enc_note(#[trigger] d.notes[i]),
    ) == Some(d.notes[i]) by {
        lemma_dec_enc_note(d.notes[i]);
    }
    lemma_dec_list_enc(d.notes, |x: NoteV| enc_note(x), |x: JsonV| dec_note(x));
}

/// Decoding an encoded synchronized projection yields the projection.
pub proof fn lemma_dec_enc_sync_data(d: SyncDataV, now: Seq<char>)
    ensures
        dec_sync_data(enc_sync_data(d), now) == Some(d),
{
    reveal_strlit("boards");
    reveal_strlit("activeBoard");
    reveal_strlit("theme");
    reveal_strlit("bookmarks");
    reveal_strlit("collections");
    reveal_strlit("customTags");
    reveal_strlit("notes");
    reveal_strlit("lastModified");
    reveal_strlit("syncEnabled");
    let ms = enc_sync_data(d)->Obj_0;
    assert(ms[0].key == "boards"@ && ms[1].key == "activeBoard"@ && ms[2].key == "theme"@
        && ms[3].key == "bookmarks"@ && ms[4].key == "collections"@ && ms[5].key == "customTags"@
        && ms[6].key == "notes"@ && ms[7].key == "lastModified"@ && ms[8].key == "syncEnabled"@);
    assert(("activeBoard"@)[0] == 'a' && ("collections"@)[0] == 'c' && ("syncEnabled"@)[0] == 's');
    assert(("theme"@)[0] == 't' && ("notes"@)[0] == 'n');
    lemma_obj_lookup_at(ms, "boards"@, 0);
    lemma_obj_lookup_at(ms, "activeBoard"@, 1);
    lemma_obj_lookup_at(ms, "theme"@, 2);
    lemma_obj_lookup_at(ms, "bookmarks"@, 3);
    lemma_obj_lookup_at(ms, "collections"@, 4);
    lemma_obj_lookup_at(ms, "customTags"@, 5);
    lemma_obj_lookup_at(ms, "notes"@, 6);
    lemma_obj_lookup_at(ms, "lastModified"@, 7);
    lemma_obj_lookup_at(ms, "syncEnabled"@, 8);
    assert forall|i: int| 0 <= i < d.boards.len() implies dec_board(
        enc_board(#[trigger] d.boards[i]),
    ) == Some(d.boards[i]) by {
        lemma_dec_enc_board(d.boards[i]);
    }
    lemma_dec_list_enc(d.boards, |x: BoardV| enc_board(x), |x: JsonV| dec_board(x));
    assert forall|i: int| 0 <= i < d.bookmarks.len() implies dec_bookmark(
        enc_bookmark(#[trigger] d.bookmarks[i]),
    ) == Some(d.bookmarks[i]) by {
        lemma_dec_enc_bookmark(d.bookmarks[i]);
    }
    lemma_dec_list_enc(d.bookmarks, |x: BookmarkV| enc_bookmark(x), |x: JsonV| dec_bookmark(x));
    assert forall|i: int| 0 <= i < d.collections.len() implies dec_collection(
        enc_collection(#[trigger] d.collections[i]),
    ) == Some(d.collections[i]) by {
        lemma_dec_enc_collection(d.collections[i]);
    }
    lemma_dec_list_enc(
        d.collections,
        |x: CollectionV| enc_collection(x),
        |x: JsonV| dec_collection(x),
    );
    lemma_dec_enc_tag_members(d.custom_tags);
    assert forall|i: int| 0 <= i < d.notes.len() implies dec_note(
        enc_note(#[trigger] d.notes[i]),
    ) == Some(d.notes[i]) by {
        lemma_dec_enc_note(d.notes[i]);
    }
    lemma_dec_list_enc(d.notes, |x: NoteV| enc_note(x), |x: JsonV| dec_note(x));
}

/// Decodes a synchronized projection from a document tree, with the same
/// defaults as a full record.
pub open spec fn dec_sync_data(j: JsonV, now: Seq<char>) -> Option<SyncDataV> {
    match j {
        JsonV::Obj(ms) => {
            let boards = f_list(ms, "boards"@, |x: JsonV| dec_board(x), true);
            let active_board = f_opt_str_req(ms, "activeBoard"@);
            let theme = f_str_or(ms, "theme"@, "dark"@);
            let bookmarks = f_list(ms, "bookmarks"@, |x: JsonV| dec_bookmark(x), false);
            let collections = f_collections(ms, "collections"@);
            let custom_tags = f_tags(ms, "customTags"@);
            let notes = f_list(ms, "notes"@, |x: JsonV| dec_note(x), false);
            let last_modified = f_str_or(ms, "lastModified"@, now);
            let sync_enabled = f_bool_or(ms, "syncEnabled"@, false);
            if boards is Some && active_board is Some && theme is Some && bookmarks is Some
                && collections is Some && custom_tags is Some && notes is Some && last_modified
                is Some && sync_enabled is Some {
                Some(
                    SyncDataV {
                        boards: boards.unwrap(),
                        active_board: active_board.unwrap(),
                        theme: theme.unwrap(),
                        bookmarks: bookmarks.unwrap(),
                        collections: collections.unwrap(),
                        custom_tags: custom_tags.unwrap(),
                        notes: notes.unwrap(),
                        last_modified: last_modified.unwrap(),
                        sync_enabled: sync_enabled.unwrap(),
                    },
                )
            } else {
                None
            }
        },
        _ => None,
    }
}

// ------------------------------------------------------------------
// Encoded trees are printable: well-formed and of bounded height
// ------------------------------------------------------------------

use crate::json::json_height;
use crate::json::json_members_height;
use crate::json::json_members_wf;
use crate::json::json_seq_height;
use crate::json::json_seq_wf;
use crate::json::json_wf;

proof fn lemma_json_seq_wf_all(s: Seq<JsonV>)
    requires
        forall|i: int| 0 <= i < s.len() ==> json_wf(#[trigger] s[i]),
    ensures
        json_seq_wf(s),
    decreases s.len(),
{
    if s.len() > 0 {
        let st = s.subrange(1, s.len() as int);
        assert(forall|i: int| 0 <= i < st.len() ==> st[i] == s[i + 1]);
        lemma_json_seq_wf_all(st);
    }
}

proof fn lemma_json_members_wf_all(ms: Seq<MemberV>)
    requires
        forall|i: int| 0 <= i < ms.len() ==> json_wf(#[trigger] ms[i].val),
    ensures
        json_members_wf(ms),
    decreases ms.len(),
{
    if ms.len() > 0 {
        let st = ms.subrange(1, ms.len() as int);
        assert(forall|i: int| 0 <= i < st.len() ==> st[i] == ms[i + 1]);
        lemma_json_members_wf_all(st);
    }
}

proof fn lemma_json_seq_height_le(s: Seq<JsonV>, b: nat)
    requires
        forall|i: int| 0 <= i < s.len() ==> json_height(#[trigger] s[i]) <= b,
    ensures
        json_seq_height(s) <= b,
    decreases s.len(),
{
    if s.len() > 0 {
        let st = s.subrange(1, s.len() as int);
        assert(forall|i: int| 0 <= i < st.len() ==> st[i] == s[i + 1]);
        lemma_json_seq_height_le(st, b);
    }
}

proof fn lemma_json_members_height_le(ms: Seq<MemberV>, b: nat)
    requires
        forall|i: int| 0 <= i < ms.len() ==> json_height(#[trigger] ms[i].val) <= b,
    ensures
        json_members_height(ms) <= b,
    decreases ms.len(),
{
    if ms.len() > 0 {
        let st = ms.subrange(1, ms.len() as int);
        assert(forall|i: int| 0 <= i < st.len() ==> st[i] == ms[i + 1]);
        lemma_json_members_height_le(st, b);
    }
}

proof fn lemma_enc_checklist_item_printable(c: ChecklistItemV)
    ensures
        json_wf(enc_checklist_item(c)),
        json_height(enc_checklist_item(c)) <= 1,
{
    let ms = enc_checklist_item(c)->Obj_0;
    lemma_json_members_wf_all(ms);
    lemma_json_members_height_le(ms, 0);
}

proof fn lemma_enc_card_printable(c: CardV)
    ensures
        json_wf(enc_card(c)),
        json_height(enc_card(c)) <= 3,
{
    let ms = enc_card(c)->Obj_0;
    let labels = enc_str_list(c.labels)->Arr_0;
    lemma_json_seq_wf_all(labels);
    lemma_json_seq_height_le(labels, 0);
    let checklist = c.checklist.map_values(|x: ChecklistItemV| enc_checklist_item(x));
    assert forall|i: int| 0 <= i < checklist.len() implies json_wf(#[trigger] checklist[i])
        && json_height(checklist[i]) <= 1 by {
        lemma_enc_checklist_item_printable(c.checklist[i]);
    }
    lemma_json_seq_wf_all(checklist);
    lemma_json_seq_height_le(checklist, 1);
    lemma_json_members_wf_all(ms);
    lemma_json_members_height_le(ms, 2);
}

proof fn lemma_enc_cards_printable(s: Seq<CardV>)
    ensures
        json_wf(enc_cards(s)),
        json_height(enc_cards(s)) <= 4,
{
    let items = enc_cards(s)->Arr_0;
    assert forall|i: int| 0 <= i < items.len() implies json_wf(#[trigger] items[i]) && json_height(
        items[i],
    ) <= 3 by {
        lemma_enc_card_printable(s[i]);
    }
    lemma_json_seq_wf_all(items);
    lemma_json_seq_height_le(items, 3);
}

proof fn lemma_enc_column_printable(c: ColumnV)
    ensures
        json_wf(enc_column(c)),
        json_height(enc_column(c)) <= 5,
{
    let ms = enc_column(c)->Obj_0;
    lemma_enc_cards_printable(c.cards);
    lemma_json_members_wf_all(ms);
    lemma_json_members_height_le(ms, 4);
}

proof fn lemma_enc_board_printable(b: BoardV)
    ensures
        json_wf(enc_board(b)),
        json_height(enc_board(b)) <= 7,
{
    let ms = enc_board(b)->Obj_0;
    let cols = b.columns.map_values(|x: ColumnV| enc_column(x));
    assert forall|i: int| 0 <= i < cols.len() implies json_wf(#[trigger] cols[i]) && json_height(
        cols[i],
    ) <= 5 by {
        lemma_enc_column_printable(b.columns[i]);
    }
    lemma_json_seq_wf_all(cols);
    lemma_json_seq_height_le(cols, 5);
    lemma_enc_cards_printable(b.archived_cards);
    lemma_json_members_wf_all(ms);
    lemma_json_members_height_le(ms, 6);
}

proof fn lemma_enc_collection_printable(c: CollectionV)
    ensures
        json_wf(enc_collection(c)),
        json_height(enc_collection(c)) <= 1,
{
    let ms = enc_collection(c)->Obj_0;
    lemma_json_members_wf_all(ms);
    lemma_json_members_height_le(ms, 0);
}

proof fn lemma_enc_bookmark_printable(b: BookmarkV)
    ensures
        json_wf(enc_bookmark(b)),
        json_height(enc_bookmark(b)) <= 2,
{
    let ms = enc_bookmark(b)->Obj_0;
    let tags = enc_str_list(b.tags)->Arr_0;
    lemma_json_seq_wf_all(tags);
    lemma_json_seq_height_le(tags, 0);
    lemma_json_members_wf_all(ms);
    lemma_json_members_height_le(ms, 1);
}

proof fn lemma_enc_note_printable(n: NoteV)
    ensures
        json_wf(enc_note(n)),
        json_height(enc_note(n)) <= 1,
{
    let ms = enc_note(n)->Obj_0;
    lemma_json_members_wf_all(ms);
    lemma_json_members_height_le(ms, 0);
}

proof fn lemma_enc_tags_printable(s: Seq<(Seq<char>, CustomTagV)>)
    ensures
        json_wf(enc_tags(s)),
        json_height(enc_tags(s)) <= 2,
{
    let ms = enc_tags(s)->Obj_0;
    assert forall|i: int| 0 <= i < ms.len() implies json_wf(#[trigger] ms[i].val) && json_height(
        ms[i].val,
    ) <= 1 by {
        let t = enc_custom_tag(s[i].1);
        let tms = t->Obj_0;
        lemma_json_members_wf_all(tms);
        lemma_json_members_height_le(tms, 0);
    }
    lemma_json_members_wf_all(ms);
    lemma_json_members_height_le(ms, 1);
}

/// An encoded full record can be printed: it is well-formed and nests less
/// deeply than the parser's depth budget.
pub proof fn lemma_enc_app_data_printable(d: AppDataV)
    ensures
        json_wf(enc_app_data(d)),
        json_height(enc_app_data(d)) <= 9,
{
    let ms = enc_app_data(d)->Obj_0;
    let boards = d.boards.map_values(|x: BoardV| enc_board(x));
    assert forall|i: int| 0 <= i < boards.len() implies json_wf(#[trigger] boards[i])
        && json_height(boards[i]) <= 7 by {
        lemma_enc_board_printable(d.boards[i]);
    }
    lemma_json_seq_wf_all(boards);
    lemma_json_seq_height_le(boards, 7);
    let bms = d.bookmarks.map_values(|x: BookmarkV| enc_bookmark(x));
    assert forall|i: int| 0 <= i < bms.len() implies json_wf(#[trigger] bms[i]) && json_height(
        bms[i],
    ) <= 2 by {
        lemma_enc_bookmark_printable(d.bookmarks[i]);
    }
    lemma_json_seq_wf_all(bms);
    lemma_json_seq_height_le(bms, 2);
    let cols = d.collections.map_values(|x: CollectionV| enc_collection(x));
    assert forall|i: int| 0 <= i < cols.len() implies json_wf(#[trigger] cols[i]) && json_height(
        cols[i],
    ) <= 1 by {
        lemma_enc_collection_printable(d.collections[i]);
    }
    lemma_json_seq_wf_all(cols);
    lemma_json_seq_height_le(cols, 1);
    lemma_enc_tags_printable(d.custom_tags);
    let notes = d.notes.map_values(|x: NoteV| enc_note(x));
    assert forall|i: int| 0 <= i < notes.len() implies json_wf(#[trigger] notes[i]) && json_height(
        notes[i],
    ) <= 1 by {
        lemma_enc_note_printable(d.notes[i]);
    }
    lemma_json_seq_wf_all(notes);
    lemma_json_seq_height_le(notes, 1);
    lemma_json_members_wf_all(ms);
    lemma_json_members_height_le(ms, 8);
}

/// An encoded synchronized projection can be printed as well.
pub proof fn lemma_enc_sync_data_printable(d: SyncDataV)
    ensures
        json_wf(enc_sync_data(d)),
        json_height(enc_sync_data(d)) <= 9,
{
    let ms = enc_sync_data(d)->Obj_0;
    let boards = d.boards.map_values(|x: BoardV| enc_board(x));
    assert forall|i: int| 0 <= i < boards.len() implies json_wf(#[trigger] boards[i])
        && json_height(boards[i]) <= 7 by {
        lemma_enc_board_printable(d.boards[i]);
    }
    lemma_json_seq_wf_all(boards);
    lemma_json_seq_height_le(boards, 7);
    let bms = d.bookmarks.map_values(|x: BookmarkV| enc_bookmark(x));
    assert forall|i: int| 0 <= i < bms.len() implies json_wf(#[trigger] bms[i]) && json_height(
        bms[i],
    ) <= 2 by {
        lemma_enc_bookmark_printable(d.bookmarks[i]);
    }
    lemma_json_seq_wf_all(bms);
    lemma_json_seq_height_le(bms, 2);
    let cols = d.collections.map_values(|x: CollectionV| enc_collection(x));
    assert forall|i: int| 0 <= i < cols.len() implies json_wf(#[trigger] cols[i]) && json_height(
        cols[i],
    ) <= 1 by {
        lemma_enc_collection_printable(d.collections[i]);
    }
    lemma_json_seq_wf_all(cols);
    lemma_json_seq_height_le(cols, 1);
    lemma_enc_tags_printable(d.custom_tags);
    let notes = d.notes.map_values(|x: NoteV| enc_note(x));
    assert forall|i: int| 0 <= i < notes.len() implies json_wf(#[trigger] notes[i]) && json_height(
        notes[i],
    ) <= 1 by {
        lemma_enc_note_printable(d.notes[i]);
    }
    lemma_json_seq_wf_all(notes);
    lemma_json_seq_height_le(notes, 1);
    lemma_json_members_wf_all(ms);
    lemma_json_members_height_le(ms, 8);
}

// ------------------------------------------------------------------
// Building document trees from records
// ------------------------------------------------------------------

use crate::data::AppData;
use crate::data::Board;
use crate::data::Bookmark;
use crate::data::Card;
use crate::data::ChecklistItem;
use crate::data::Collection;
use crate::data::Column;
use crate::data::CustomTag;
use crate::data::Note;
use crate::data::SyncData;
use crate::json::Json;
use crate::json::Member;
use crate::json::json_members_view;
use crate::json::json_seq_view;
use crate::json::json_view;
use crate::json::lemma_json_members_view_index;
use crate::json::lemma_json_members_view_push;
use crate::json::lemma_json_seq_view_index;
use crate::json::lemma_json_seq_view_push;
use crate::text::str_to_chars;

/// A string value node.
fn jstr(s: &String) -> (j: Json)
    ensures
        json_view(j) == JsonV::Str(s@),
{
    Json::Str(str_to_chars(s.as_str()))
}

/// An optional string: the string, or `null`.
fn jopt_str(o: &Option<String>) -> (j: Json)
    ensures
        json_view(j) == enc_opt_str(o.deep_view()),
{
    match o {
        Some(s) => jstr(s),
        None => Json::Null,
    }
}

/// An optional flag: the flag, or `null`.
fn jopt_bool(o: &Option<bool>) -> (j: Json)
    ensures
        json_view(j) == enc_opt_bool(*o),
{
    match o {
        Some(b) => Json::Bool(*b),
        None => Json::Null,
    }
}

/// A list of string values.
fn jstr_list(v: &Vec<String>) -> (j: Json)
    ensures
        json_view(j) == enc_str_list(v.deep_view()),
{
    let mut items: Vec<Json> = Vec::new();
    let mut i: usize = 0;
    while i < v.len()
        invariant
            i <= v@.len(),
            json_seq_view(items@) == v.deep_view().take(i as int).map_values(
                |x: Seq<char>| JsonV::Str(x),
            ),
        decreases v@.len() - i,
    {
        let e = jstr(&v[i]);
        proof {
            lemma_json_seq_view_push(items@, e);
            assert(v.deep_view().take((i + 1) as int).map_values(|x: Seq<char>| JsonV::Str(x)) =~=
                v.deep_view().take(i as int).map_values(|x: Seq<char>| JsonV::Str(x)).push(
                JsonV::Str(v@[i as int]@),
            ));
        }
        items.push(e);
        i += 1;
    }
    proof {
        assert(v.deep_view().take(v@.len() as int) =~= v.deep_view());
    }
    Json::Arr(items)
}

/// One object member under a wire-format key.
fn mk_member(key: &str, val: Json) -> (m: Member)
    ensures
        m.key@ == key@,
        m.val == val,
{
    Member { key: str_to_chars(key), val }
}

pub fn checklist_item_to_json(c: &ChecklistItem) -> (j: Json)
    ensures
        json_view(j) == enc_checklist_item(c.deep_view()),
{
    let mut ms: Vec<Member> = Vec::new();
    ms.push(mk_member("id", jstr(&c.id)));
    ms.push(mk_member("text", jstr(&c.text)));
    ms.push(mk_member("completed", Json::Bool(c.completed)));
    proof {
        lemma_json_members_view_index(ms@);
        assert(json_members_view(ms@) =~= enc_checklist_item(c.deep_view())->Obj_0);
    }
    Json::Obj(ms)
}

fn checklist_to_json(v: &Vec<ChecklistItem>) -> (j: Json)
    ensures
        json_view(j) == JsonV::Arr(
            v.deep_view().map_values(|x: ChecklistItemV| enc_checklist_item(x)),
        ),
{
    let mut items: Vec<Json> = Vec::new();
    let mut i: usize = 0;
    while i < v.len()
        invariant
            i <= v@.len(),
            json_seq_view(items@) == v.deep_view().take(i as int).map_values(
                |x: ChecklistItemV| enc_checklist_item(x),
            ),
        decreases v@.len() - i,
    {
        let e = checklist_item_to_json(&v[i]);
        proof {
            lemma_json_seq_view_push(items@, e);
            assert(v.deep_view().take((i + 1) as int).map_values(
                |x: ChecklistItemV| enc_checklist_item(x),
            ) =~= v.deep_view().take(i as int).map_values(
                |x: ChecklistItemV| enc_checklist_item(x),
            ).push(enc_checklist_item(v@[i as int].deep_view())));
        }
        items.push(e);
        i += 1;
    }
    proof {
        assert(v.deep_view().take(v@.len() as int) =~= v.deep_view());
    }
    Json::Arr(items)
}

pub fn card_to_json(c: &Card) -> (j: Json)
    ensures
        json_view(j) == enc_card(c.deep_view()),
{
    let mut ms: Vec<Member> = Vec::new();
    ms.push(mk_member("id", jstr(&c.id)));
    ms.push(mk_member("title", jstr(&c.title)));
    ms.push(mk_member("description", jstr(&c.description)));
    ms.push(mk_member("labels", jstr_list(&c.labels)));
    ms.push(mk_member("priority", jopt_str(&c.priority)));
    ms.push(mk_member("checklist", checklist_to_json(&c.checklist)));
    ms.push(mk_member("createdAt", jstr(&c.created_at)));
    ms.push(mk_member("archivedAt", jopt_str(&c.archived_at)));
    ms.push(mk_member("originalColumnId", jopt_str(&c.original_column_id)));
    proof {
        lemma_json_members_view_index(ms@);
        assert(json_members_view(ms@) =~= enc_card(c.deep_view())->Obj_0);
    }
    Json::Obj(ms)
}

fn cards_to_json(v: &Vec<Card>) -> (j: Json)
    ensures
        json_view(j) == enc_cards(v.deep_view()),
{
    let mut items: Vec<Json> = Vec::new();
    let mut i: usize = 0;
    while i < v.len()
        invariant
            i <= v@.len(),
            json_seq_view(items@) == v.deep_view().take(i as int).map_values(
                |x: CardV| enc_card(x),
            ),
        decreases v@.len() - i,
    {
        let e = card_to_json(&v[i]);
        proof {
            lemma_json_seq_view_push(items@, e);
            assert(v.deep_view().take((i + 1) as int).map_values(|x: CardV| enc_card(x)) =~=
                v.deep_view().take(i as int).map_values(|x: CardV| enc_card(x)).push(
                enc_card(v@[i as int].deep_view()),
            ));
        }
        items.push(e);
        i += 1;
    }
    proof {
        assert(v.deep_view().take(v@.len() as int) =~= v.deep_view());
    }
    Json::Arr(items)
}

pub fn column_to_json(c: &Column) -> (j: Json)
    ensures
        json_view(j) == enc_column(c.deep_view()),
{
    let mut ms: Vec<Member> = Vec::new();
    ms.push(mk_member("id", jstr(&c.id)));
    ms.push(mk_member("title", jstr(&c.title)));
    ms.push(mk_member("cards", cards_to_json(&c.cards)));
    proof {
        lemma_json_members_view_index(ms@);
        assert(json_members_view(ms@) =~= enc_column(c.deep_view())->Obj_0);
    }
    Json::Obj(ms)
}

fn columns_to_json(v: &Vec<Column>) -> (j: Json)
    ensures
        json_view(j) == JsonV::Arr(v.deep_view().map_values(|x: ColumnV| enc_column(x))),
{
    let mut items: Vec<Json> = Vec::new();
    let mut i: usize = 0;
    while i < v.len()
        invariant
            i <= v@.len(),
            json_seq_view(items@) == v.deep_view().take(i as int).map_values(
                |x: ColumnV| enc_column(x),
            ),
        decreases v@.len() - i,
    {
        let e = column_to_json(&v[i]);
        proof {
            lemma_json_seq_view_push(items@, e);
            assert(v.deep_view().take((i + 1) as int).map_values(|x: ColumnV| enc_column(x)) =~=
                v.deep_view().take(i as int).map_values(|x: ColumnV| enc_column(x)).push(
                enc_column(v@[i as int].deep_view()),
            ));
        }
        items.push(e);
        i += 1;
    }
    proof {
        assert(v.deep_view().take(v@.len() as int) =~= v.deep_view());
    }
    Json::Arr(items)
}

pub fn board_to_json(b: &Board) -> (j: Json)
    ensures
        json_view(j) == enc_board(b.deep_view()),
{
    let mut ms: Vec<Member> = Vec::new();
    ms.push(mk_member("id", jstr(&b.id)));
    ms.push(mk_member("name", jstr(&b.name)));
    ms.push(mk_member("columns", columns_to_json(&b.columns)));
    ms.push(mk_member("archivedCards", cards_to_json(&b.archived_cards)));
    proof {
        lemma_json_members_view_index(ms@);
        assert(json_members_view(ms@) =~= enc_board(b.deep_view())->Obj_0);
    }
    Json::Obj(ms)
}

fn boards_to_json(v: &Vec<Board>) -> (j: Json)
    ensures
        json_view(j) == JsonV::Arr(v.deep_view().map_values(|x: BoardV| enc_board(x))),
{
    let mut items: Vec<Json> = Vec::new();
    let mut i: usize = 0;
    while i < v.len()
        invariant
            i <= v@.len(),
            json_seq_view(items@) == v.deep_view().take(i as int).map_values(
                |x: BoardV| enc_board(x),
            ),
        decreases v@.len() - i,
    {
        let e = board_to_json(&v[i]);
        proof {
            lemma_json_seq_view_push(items@, e);
            assert(v.deep_view().take((i + 1) as int).map_values(|x: BoardV| enc_board(x)) =~=
                v.deep_view().take(i as int).map_values(|x: BoardV| enc_board(x)).push(
                enc_board(v@[i as int].deep_view()),
            ));
        }
        items.push(e);
        i += 1;
    }
    proof {
        assert(v.deep_view().take(v@.len() as int) =~= v.deep_view());
    }
    Json::Arr(items)
}

pub fn collection_to_json(c: &Collection) -> (j: Json)
    ensures
        json_view(j) == enc_collection(c.deep_view()),
{
    let mut ms: Vec<Member> = Vec::new();
    ms.push(mk_member("id", jstr(&c.id)));
    ms.push(mk_member("name", jstr(&c.name)));
    ms.push(mk_member("icon", jstr(&c.icon)));
    ms.push(mk_member("isCustom", jopt_bool(&c.is_custom)));
    proof {
        lemma_json_members_view_index(ms@);
        assert(json_members_view(ms@) =~= enc_collection(c.deep_view())->Obj_0);
    }
    Json::Obj(ms)
}

fn collections_to_json(v: &Vec<Collection>) -> (j: Json)
    ensures
        json_view(j) == JsonV::Arr(v.deep_view().map_values(|x: CollectionV| enc_collection(x))),
{
    let mut items: Vec<Json> = Vec::new();
    let mut i: usize = 0;
    while i < v.len()
        invariant
            i <= v@.len(),
            json_seq_view(items@) == v.deep_view().take(i as int).map_values(
                |x: CollectionV| enc_collection(x),
            ),
        decreases v@.len() - i,
    {
        let e = collection_to_json(&v[i]);
        proof {
            lemma_json_seq_view_push(items@, e);
            assert(v.deep_view().take((i + 1) as int).map_values(
                |x: CollectionV| enc_collection(x),
            ) =~= v.deep_view().take(i as int).map_values(|x: CollectionV| enc_collection(x)).push(
                enc_collection(v@[i as int].deep_view()),
            ));
        }
        items.push(e);
        i += 1;
    }
    proof {
        assert(v.deep_view().take(v@.len() as int) =~= v.deep_view());
    }
    Json::Arr(items)
}

pub fn bookmark_to_json(b: &Bookmark) -> (j: Json)
    ensures
        json_view(j) == enc_bookmark(b.deep_view()),
{
    let mut ms: Vec<Member> = Vec::new();
    ms.push(mk_member("id", jstr(&b.id)));
    ms.push(mk_member("title", jstr(&b.title)));
    ms.push(mk_member("url", jstr(&b.url)));
    ms.push(mk_member("description", jstr(&b.description)));
    ms.push(mk_member("favicon", jopt_str(&b.favicon)));
    ms.push(mk_member("image", jopt_str(&b.image)));
    ms.push(mk_member("tags", jstr_list(&b.tags)));
    ms.push(mk_member("collectionId", jopt_str(&b.collection_id)));
    ms.push(mk_member("isFavorite", Json::Bool(b.is_favorite)));
    ms.push(mk_member("isArchived", Json::Bool(b.is_archived)));
    ms.push(mk_member("createdAt", jstr(&b.created_at)));
    proof {
        lemma_json_members_view_index(ms@);
        assert(json_members_view(ms@) =~= enc_bookmark(b.deep_view())->Obj_0);
    }
    Json::Obj(ms)
}

fn bookmarks_to_json(v: &Vec<Bookmark>) -> (j: Json)
    ensures
        json_view(j) == JsonV::Arr(v.deep_view().map_values(|x: BookmarkV| enc_bookmark(x))),
{
    let mut items: Vec<Json> = Vec::new();
    let mut i: usize = 0;
    while i < v.len()
        invariant
            i <= v@.len(),
            json_seq_view(items@) == v.deep_view().take(i as int).map_values(
                |x: BookmarkV| enc_bookmark(x),
            ),
        decreases v@.len() - i,
    {
        let e = bookmark_to_json(&v[i]);
        proof {
            lemma_json_seq_view_push(items@, e);
            assert(v.deep_view().take((i + 1) as int).map_values(|x: BookmarkV| enc_bookmark(x))
                =~= v.deep_view().take(i as int).map_values(|x: BookmarkV| enc_bookmark(x)).push(
                enc_bookmark(v@[i as int].deep_view()),
            ));
        }
        items.push(e);
        i += 1;
    }
    proof {
        assert(v.deep_view().take(v@.len() as int) =~= v.deep_view());
    }
    Json::Arr(items)
}

pub fn custom_tag_to_json(t: &CustomTag) -> (j: Json)
    ensures
        json_view(j) == enc_custom_tag(t.deep_view()),
{
    let mut ms: Vec<Member> = Vec::new();
    ms.push(mk_member("name", jstr(&t.name)));
    ms.push(mk_member("color", jstr(&t.color)));
    proof {
        lemma_json_members_view_index(ms@);
        assert(json_members_view(ms@) =~= enc_custom_tag(t.deep_view())->Obj_0);
    }
    Json::Obj(ms)
}

fn tags_to_json(v: &Vec<(String, CustomTag)>) -> (j: Json)
    ensures
        json_view(j) == enc_tags(v.deep_view()),
{
    let mut ms: Vec<Member> = Vec::new();
    let mut i: usize = 0;
    while i < v.len()
        invariant
            i <= v@.len(),
            json_members_view(ms@) == v.deep_view().take(i as int).map_values(
                |p: (Seq<char>, CustomTagV)| MemberV { key: p.0, val: enc_custom_tag(p.1) },
            ),
        decreases v@.len() - i,
    {
        let val = custom_tag_to_json(&v[i].1);
        let m = Member { key: str_to_chars(v[i].0.as_str()), val };
        proof {
            lemma_json_members_view_push(ms@, m);
            assert(v.deep_view().take((i + 1) as int).map_values(
                |p: (Seq<char>, CustomTagV)| MemberV { key: p.0, val: enc_custom_tag(p.1) },
            ) =~= v.deep_view().take(i as int).map_values(
                |p: (Seq<char>, CustomTagV)| MemberV { key: p.0, val: enc_custom_tag(p.1) },
            ).push(MemberV { key: v@[i as int].0@, val: enc_custom_tag(v@[i as int].1.deep_view()) }));
        }
        ms.push(m);
        i += 1;
    }
    proof {
        assert(v.deep_view().take(v@.len() as int) =~= v.deep_view());
    }
    Json::Obj(ms)
}

fn notes_to_json(v: &Vec<Note>) -> (j: Json)
    ensures
        json_view(j) == JsonV::Arr(v.deep_view().map_values(|x: NoteV| enc_note(x))),
{
    let mut items: Vec<Json> = Vec::new();
    let mut i: usize = 0;
    while i < v.len()
        invariant
            i <= v@.len(),
            json_seq_view(items@) == v.deep_view().take(i as int).map_values(
                |x: NoteV| enc_note(x),
            ),
        decreases v@.len() - i,
    {
        let e = note_to_json(&v[i]);
        proof {
            lemma_json_seq_view_push(items@, e);
            assert(v.deep_view().take((i + 1) as int).map_values(|x: NoteV| enc_note(x)) =~=
                v.deep_view().take(i as int).map_values(|x: NoteV| enc_note(x)).push(
                enc_note(v@[i as int].deep_view()),
            ));
        }
        items.push(e);
        i += 1;
    }
    proof {
        assert(v.deep_view().take(v@.len() as int) =~= v.deep_view());
    }
    Json::Arr(items)
}

pub fn note_to_json(n: &Note) -> (j: Json)
    ensures
        json_view(j) == enc_note(n.deep_view()),
{
    let mut ms: Vec<Member> = Vec::new();
    ms.push(mk_member("id", jstr(&n.id)));
    ms.push(mk_member("title", jstr(&n.title)));
    ms.push(mk_member("content", jstr(&n.content)));
    ms.push(mk_member("isPinned", Json::Bool(n.is_pinned)));
    ms.push(mk_member("createdAt", jstr(&n.created_at)));
    ms.push(mk_member("updatedAt", jstr(&n.updated_at)));
    proof {
        lemma_json_members_view_index(ms@);
        assert(json_members_view(ms@) =~= enc_note(n.deep_view())->Obj_0);
    }
    Json::Obj(ms)
}

/// The full local record as a document tree.
pub fn app_data_to_json(d: &AppData) -> (j: Json)
    ensures
        json_view(j) == enc_app_data(d.deep_view()),
{
    let mut ms: Vec<Member> = Vec::new();
    ms.push(mk_member("boards", boards_to_json(&d.boards)));
    ms.push(mk_member("activeBoard", jopt_str(&d.active_board)));
    ms.push(mk_member("theme", jstr(&d.theme)));
    ms.push(mk_member("activeView", jstr(&d.active_view)));
    ms.push(mk_member("bookmarks", bookmarks_to_json(&d.bookmarks)));
    ms.push(mk_member("collections", collections_to_json(&d.collections)));
    ms.push(mk_member("customTags", tags_to_json(&d.custom_tags)));
    ms.push(mk_member("notes", notes_to_json(&d.notes)));
    ms.push(mk_member("lastModified", jstr(&d.last_modified)));
    ms.push(mk_member("syncEnabled", Json::Bool(d.sync_enabled)));
    proof {
        lemma_json_members_view_index(ms@);
        assert(json_members_view(ms@) =~= enc_app_data(d.deep_view())->Obj_0);
    }
    Json::Obj(ms)
}

/// The synchronized projection as a document tree.
pub fn sync_data_to_json(d: &SyncData) -> (j: Json)
    ensures
        json_view(j) == enc_sync_data(d.deep_view()),
{
    let mut ms: Vec<Member> = Vec::new();
    ms.push(mk_member("boards", boards_to_json(&d.boards)));
    ms.push(mk_member("activeBoard", jopt_str(&d.active_board)));
    ms.push(mk_member("theme", jstr(&d.theme)));
    ms.push(mk_member("bookmarks", bookmarks_to_json(&d.bookmarks)));
    ms.push(mk_member("collections", collections_to_json(&d.collections)));
    ms.push(mk_member("customTags", tags_to_json(&d.custom_tags)));
    ms.push(mk_member("notes", notes_to_json(&d.notes)));
    ms.push(mk_member("lastModified", jstr(&d.last_modified)));
    ms.push(mk_member("syncEnabled", Json::Bool(d.sync_enabled)));
    proof {
        lemma_json_members_view_index(ms@);
        assert(json_members_view(ms@) =~= enc_sync_data(d.deep_view())->Obj_0);
    }
    Json::Obj(ms)
}

// ------------------------------------------------------------------
// Reading records back out of document trees
// ------------------------------------------------------------------

use crate::text::chars_to_string;
use crate::text::match_at;

/// Whether two character vectors hold the same characters.
fn seq_eq_chars(a: &Vec<char>, b: &Vec<char>) -> (r: bool)
    ensures
        r == (a@ == b@),
{
    if a.len() != b.len() {
        return false;
    }
    let r = match_at(a, b, 0);
    proof {
        assert(a@.subrange(0, b@.len() as int) =~= a@);
    }
    r
}

/// The value under the first member whose key matches, if any.
fn obj_get<'a>(ms: &'a Vec<Member>, key: &str) -> (r: Option<&'a Json>)
    ensures
        r matches Some(j) ==> obj_lookup(json_members_view(ms@), key@) == Some(json_view(*j)),
        r is None ==> obj_lookup(json_members_view(ms@), key@) is None,
{
    let kc = str_to_chars(key);
    let ghost mv = json_members_view(ms@);
    proof {
        lemma_json_members_view_index(ms@);
        assert(mv.skip(0) =~= mv);
    }
    let n = ms.len();
    let mut i: usize = 0;
    loop
        invariant
            i <= n,
            n == ms@.len(),
            kc@ == key@,
            mv == json_members_view(ms@),
            mv.len() == n,
            forall|k: int|
                0 <= k < n ==> mv[k] == (MemberV {
                    key: ms@[k].key@,
                    val: json_view(ms@[k].val),
                }),
            obj_lookup(mv, key@) == obj_lookup(mv.skip(i as int), key@),
        decreases n - i,
    {
        if i == n {
            proof {
                assert(mv.skip(n as int) =~= Seq::<MemberV>::empty());
            }
            return None;
        }
        proof {
            assert(mv.skip(i as int)[0] == mv[i as int]);
        }
        if seq_eq_chars(&ms[i].key, &kc) {
            return Some(&ms[i].val);
        }
        proof {
            assert(mv.skip(i as int).skip(1) =~= mv.skip(i as int + 1));
        }
        i += 1;
    }
}

/// A required string field.
fn get_str(ms: &Vec<Member>, key: &str) -> (r: Option<String>)
    ensures
        r matches Some(s) ==> f_str(json_members_view(ms@), key@) == Some(s@),
        r is None ==> f_str(json_members_view(ms@), key@) is None,
{
    match obj_get(ms, key) {
        Some(j) => match j {
            Json::Str(v) => Some(chars_to_string(v)),
            _ => None,
        },
        None => None,
    }
}

/// A defaulted string field.
fn get_str_or(ms: &Vec<Member>, key: &str, dflt: &str) -> (r: Option<String>)
    ensures
        r matches Some(s) ==> f_str_or(json_members_view(ms@), key@, dflt@) == Some(s@),
        r is None ==> f_str_or(json_members_view(ms@), key@, dflt@) is None,
{
    match obj_get(ms, key) {
        Some(j) => match j {
            Json::Str(v) => Some(chars_to_string(v)),
            _ => None,
        },
        None => Some(dflt.to_owned()),
    }
}

/// A defaulted nullable string field.
fn get_opt_str(ms: &Vec<Member>, key: &str) -> (r: Option<Option<String>>)
    ensures
        r matches Some(o) ==> f_opt_str(json_members_view(ms@), key@) == Some(o.deep_view()),
        r is None ==> f_opt_str(json_members_view(ms@), key@) is None,
{
    match obj_get(ms, key) {
        Some(j) => match j {
            Json::Null => Some(None),
            Json::Str(v) => Some(Some(chars_to_string(v))),
            _ => None,
        },
        None => Some(None),
    }
}

/// A required nullable string field.
fn get_opt_str_req(ms: &Vec<Member>, key: &str) -> (r: Option<Option<String>>)
    ensures
        r matches Some(o) ==> f_opt_str_req(json_members_view(ms@), key@) == Some(o.deep_view()),
        r is None ==> f_opt_str_req(json_members_view(ms@), key@) is None,
{
    match obj_get(ms, key) {
        Some(j) => match j {
            Json::Null => Some(None),
            Json::Str(v) => Some(Some(chars_to_string(v))),
            _ => None,
        },
        None => None,
    }
}

/// A required flag field.
fn get_bool(ms: &Vec<Member>, key: &str) -> (r: Option<bool>)
    ensures
        r matches Some(b) ==> f_bool(json_members_view(ms@), key@) == Some(b),
        r is None ==> f_bool(json_members_view(ms@), key@) is None,
{
    match obj_get(ms, key) {
        Some(j) => match j {
            Json::Bool(b) => Some(*b),
            _ => None,
        },
        None => None,
    }
}

/// A defaulted flag field.
fn get_bool_or(ms: &Vec<Member>, key: &str, dflt: bool) -> (r: Option<bool>)
    ensures
        r matches Some(b) ==> f_bool_or(json_members_view(ms@), key@, dflt) == Some(b),
        r is None ==> f_bool_or(json_members_view(ms@), key@, dflt) is None,
{
    match obj_get(ms, key) {
        Some(j) => match j {
            Json::Bool(b) => Some(*b),
            _ => None,
        },
        None => Some(dflt),
    }
}

/// A defaulted nullable flag field.
fn get_opt_bool(ms: &Vec<Member>, key: &str) -> (r: Option<Option<bool>>)
    ensures
        r matches Some(o) ==> f_opt_bool(json_members_view(ms@), key@) == Some(o),
        r is None ==> f_opt_bool(json_members_view(ms@), key@) is None,
{
    match obj_get(ms, key) {
        Some(j) => match j {
            Json::Null => Some(None),
            Json::Bool(b) => Some(Some(*b)),
            _ => None,
        },
        None => Some(None),
    }
}

fn dec_str_list_exec(items: &Vec<Json>) -> (r: Option<Vec<String>>)
    ensures
        r matches Some(v) ==> dec_list(json_seq_view(items@), |x: JsonV| dec_str(x)) == Some(
            v.deep_view(),
        ),
        r is None ==> dec_list(json_seq_view(items@), |x: JsonV| dec_str(x)) is None,
{
    let ghost f = |x: JsonV| dec_str(x);
    let ghost jv = json_seq_view(items@);
    proof {
        lemma_json_seq_view_index(items@);
        assert(jv.skip(0) =~= jv);
    }
    let n = items.len();
    let mut acc: Vec<String> = Vec::new();
    let mut i: usize = 0;
    loop
        invariant
            i <= n,
            n == items@.len(),
            jv == json_seq_view(items@),
            jv.len() == n,
            f == (|x: JsonV| dec_str(x)),
            forall|k: int| 0 <= k < n ==> jv[k] == json_view(items@[k]),
            dec_list(jv, f) == (match dec_list(jv.skip(i as int), f) {
                Some(r2) => Some(acc.deep_view() + r2),
                None => None::<Seq<Seq<char>>>,
            }),
        decreases n - i,
    {
        if i == n {
            proof {
                assert(jv.skip(n as int) =~= Seq::<JsonV>::empty());
                assert(acc.deep_view() + Seq::<Seq<char>>::empty() =~= acc.deep_view());
            }
            return Some(acc);
        }
        proof {
            assert(jv.skip(i as int)[0] == jv[i as int]);
            assert(jv.skip(i as int).subrange(1, jv.skip(i as int).len() as int) =~= jv.skip(
                i as int + 1,
            ));
        }
        let e = match &items[i] {
            Json::Str(v) => chars_to_string(v),
            _ => {
                return None;
            },
        };
        let ghost pre = acc.deep_view();
        acc.push(e);
        proof {
            assert(acc.deep_view() =~= pre.push(e@));
            assert(f(jv.skip(i as int)[0]) == Some(e@));
            let rest = dec_list(jv.skip(i as int + 1), f);
            if rest is Some {
                assert(pre + (seq![e@] + rest.unwrap()) =~= acc.deep_view() + rest.unwrap());
            }
        }
        i += 1;
    }
}

fn dec_checklist_list_exec(items: &Vec<Json>) -> (r: Option<Vec<ChecklistItem>>)
    ensures
        r matches Some(v) ==> dec_list(json_seq_view(items@), |x: JsonV| dec_checklist_item(x)) == Some(
            v.deep_view(),
        ),
        r is None ==> dec_list(json_seq_view(items@), |x: JsonV| dec_checklist_item(x)) is None,
{
    let ghost f = |x: JsonV| dec_checklist_item(x);
    let ghost jv = json_seq_view(items@);
    proof {
        lemma_json_seq_view_index(items@);
        assert(jv.skip(0) =~= jv);
    }
    let n = items.len();
    let mut acc: Vec<ChecklistItem> = Vec::new();
    let mut i: usize = 0;
    loop
        invariant
            i <= n,
            n == items@.len(),
            jv == json_seq_view(items@),
            jv.len() == n,
            f == (|x: JsonV| dec_checklist_item(x)),
            forall|k: int| 0 <= k < n ==> jv[k] == json_view(items@[k]),
            dec_list(jv, f) == (match dec_list(jv.skip(i as int), f) {
                Some(r2) => Some(acc.deep_view() + r2),
                None => None::<Seq<ChecklistItemV>>,
            }),
        decreases n - i,
    {
        if i == n {
            proof {
                assert(jv.skip(n as int) =~= Seq::<JsonV>::empty());
                assert(acc.deep_view() + Seq::<ChecklistItemV>::empty() =~= acc.deep_view());
            }
            return Some(acc);
        }
        proof {
            assert(jv.skip(i as int)[0] == jv[i as int]);
            assert(jv.skip(i as int).subrange(1, jv.skip(i as int).len() as int) =~= jv.skip(
                i as int + 1,
            ));
        }
        let e = match dec_checklist_item_exec(&items[i]) {
            Some(e) => e,
            None => {
                return None;
            },
        };
        let ghost pre = acc.deep_view();
        acc.push(e);
        proof {
            assert(acc.deep_view() =~= pre.push(e.deep_view()));
            assert(f(jv.skip(i as int)[0]) == Some(e.deep_view()));
            let rest = dec_list(jv.skip(i as int + 1), f);
            if rest is Some {
                assert(pre + (seq![e.deep_view()] + rest.unwrap()) =~= acc.deep_view() + rest.unwrap());
            }
        }
        i += 1;
    }
}

fn dec_card_list_exec(items: &Vec<Json>) -> (r: Option<Vec<Card>>)
    ensures
        r matches Some(v) ==> dec_list(json_seq_view(items@), |x: JsonV| dec_card(x)) == Some(
            v.deep_view(),
        ),
        r is None ==> dec_list(json_seq_view(items@), |x: JsonV| dec_card(x)) is None,
{
    let ghost f = |x: JsonV| dec_card(x);
    let ghost jv = json_seq_view(items@);
    proof {
        lemma_json_seq_view_index(items@);
        assert(jv.skip(0) =~= jv);
    }
    let n = items.len();
    let mut acc: Vec<Card> = Vec::new();
    let mut i: usize = 0;
    loop
        invariant
            i <= n,
            n == items@.len(),
            jv == json_seq_view(items@),
            jv.len() == n,
            f == (|x: JsonV| dec_card(x)),
            forall|k: int| 0 <= k < n ==> jv[k] == json_view(items@[k]),
            dec_list(jv, f) == (match dec_list(jv.skip(i as int), f) {
                Some(r2) => Some(acc.deep_view() + r2),
                None => None::<Seq<CardV>>,
            }),
        decreases n - i,
    {
        if i == n {
            proof {
                assert(jv.skip(n as int) =~= Seq::<JsonV>::empty());
                assert(acc.deep_view() + Seq::<CardV>::empty() =~= acc.deep_view());
            }
            return Some(acc);
        }
        proof {
            assert(jv.skip(i as int)[0] == jv[i as int]);
            assert(jv.skip(i as int).subrange(1, jv.skip(i as int).len() as int) =~= jv.skip(
                i as int + 1,
            ));
        }
        let e = match dec_card_exec(&items[i]) {
            Some(e) => e,
            None => {
                return None;
            },
        };
        let ghost pre = acc.deep_view();
        acc.push(e);
        proof {
            assert(acc.deep_view() =~= pre.push(e.deep_view()));
            assert(f(jv.skip(i as int)[0]) == Some(e.deep_view()));
            let rest = dec_list(jv.skip(i as int + 1), f);
            if rest is Some {
                assert(pre + (seq![e.deep_view()] + rest.unwrap()) =~= acc.deep_view() + rest.unwrap());
            }
        }
        i += 1;
    }
}

fn dec_column_list_exec(items: &Vec<Json>) -> (r: Option<Vec<Column>>)
    ensures
        r matches Some(v) ==> dec_list(json_seq_view(items@), |x: JsonV| dec_column(x)) == Some(
            v.deep_view(),
        ),
        r is None ==> dec_list(json_seq_view(items@), |x: JsonV| dec_column(x)) is None,
{
    let ghost f = |x: JsonV| dec_column(x);
    let ghost jv = json_seq_view(items@);
    proof {
        lemma_json_seq_view_index(items@);
        assert(jv.skip(0) =~= jv);
    }
    let n = items.len();
    let mut acc: Vec<Column> = Vec::new();
    let mut i: usize = 0;
    loop
        invariant
            i <= n,
            n == items@.len(),
            jv == json_seq_view(items@),
            jv.len() == n,
            f == (|x: JsonV| dec_column(x)),
            forall|k: int| 0 <= k < n ==> jv[k] == json_view(items@[k]),
            dec_list(jv, f) == (match dec_list(jv.skip(i as int), f) {
                Some(r2) => Some(acc.deep_view() + r2),
                None => None::<Seq<ColumnV>>,
            }),
        decreases n - i,
    {
        if i == n {
            proof {
                assert(jv.skip(n as int) =~= Seq::<JsonV>::empty());
                assert(acc.deep_view() + Seq::<ColumnV>::empty() =~= acc.deep_view());
            }
            return Some(acc);
        }
        proof {
            assert(jv.skip(i as int)[0] == jv[i as int]);
            assert(jv.skip(i as int).subrange(1, jv.skip(i as int).len() as int) =~= jv.skip(
                i as int + 1,
            ));
        }
        let e = match dec_column_exec(&items[i]) {
            Some(e) => e,
            None => {
                return None;
            },
        };
        let ghost pre = acc.deep_view();
        acc.push(e);
        proof {
            assert(acc.deep_view() =~= pre.push(e.deep_view()));
            assert(f(jv.skip(i as int)[0]) == Some(e.deep_view()));
            let rest = dec_list(jv.skip(i as int + 1), f);
            if rest is Some {
                assert(pre + (seq![e.deep_view()] + rest.unwrap()) =~= acc.deep_view() + rest.unwrap());
            }
        }
        i += 1;
    }
}

fn dec_board_list_exec(items: &Vec<Json>) -> (r: Option<Vec<Board>>)
    ensures
        r matches Some(v) ==> dec_list(json_seq_view(items@), |x: JsonV| dec_board(x)) == Some(
            v.deep_view(),
        ),
        r is None ==> dec_list(json_seq_view(items@), |x: JsonV| dec_board(x)) is None,
{
    let ghost f = |x: JsonV| dec_board(x);
    let ghost jv = json_seq_view(items@);
    proof {
        lemma_json_seq_view_index(items@);
        assert(jv.skip(0) =~= jv);
    }
    let n = items.len();
    let mut acc: Vec<Board> = Vec::new();
    let mut i: usize = 0;
    loop
        invariant
            i <= n,
            n == items@.len(),
            jv == json_seq_view(items@),
            jv.len() == n,
            f == (|x: JsonV| dec_board(x)),
            forall|k: int| 0 <= k < n ==> jv[k] == json_view(items@[k]),
            dec_list(jv, f) == (match dec_list(jv.skip(i as int), f) {
                Some(r2) => Some(acc.deep_view() + r2),
                None => None::<Seq<BoardV>>,
            }),
        decreases n - i,
    {
        if i == n {
            proof {
                assert(jv.skip(n as int) =~= Seq::<JsonV>::empty());
                assert(acc.deep_view() + Seq::<BoardV>::empty() =~= acc.deep_view());
            }
            return Some(acc);
        }
        proof {
            assert(jv.skip(i as int)[0] == jv[i as int]);
            assert(jv.skip(i as int).subrange(1, jv.skip(i as int).len() as int) =~= jv.skip(
                i as int + 1,
            ));
        }
        let e = match dec_board_exec(&items[i]) {
            Some(e) => e,
            None => {
                return None;
            },
        };
        let ghost pre = acc.deep_view();
        acc.push(e);
        proof {
            assert(acc.deep_view() =~= pre.push(e.deep_view()));
            assert(f(jv.skip(i as int)[0]) == Some(e.deep_view()));
            let rest = dec_list(jv.skip(i as int + 1), f);
            if rest is Some {
                assert(pre + (seq![e.deep_view()] + rest.unwrap()) =~= acc.deep_view() + rest.unwrap());
            }
        }
        i += 1;
    }
}

fn dec_collection_list_exec(items: &Vec<Json>) -> (r: Option<Vec<Collection>>)
    ensures
        r matches Some(v) ==> dec_list(json_seq_view(items@), |x: JsonV| dec_collection(x)) == Some(
            v.deep_view(),
        ),
        r is None ==> dec_list(json_seq_view(items@), |x: JsonV| dec_collection(x)) is None,
{
    let ghost f = |x: JsonV| dec_collection(x);
    let ghost jv = json_seq_view(items@);
    proof {
        lemma_json_seq_view_index(items@);
        assert(jv.skip(0) =~= jv);
    }
    let n = items.len();
    let mut acc: Vec<Collection> = Vec::new();
    let mut i: usize = 0;
    loop
        invariant
            i <= n,
            n == items@.len(),
            jv == json_seq_view(items@),
            jv.len() == n,
            f == (|x: JsonV| dec_collection(x)),
            forall|k: int| 0 <= k < n ==> jv[k] == json_view(items@[k]),
            dec_list(jv, f) == (match dec_list(jv.skip(i as int), f) {
                Some(r2) => Some(acc.deep_view() + r2),
                None => None::<Seq<CollectionV>>,
            }),
        decreases n - i,
    {
        if i == n {
            proof {
                assert(jv.skip(n as int) =~= Seq::<JsonV>::empty());
                assert(acc.deep_view() + Seq::<CollectionV>::empty() =~= acc.deep_view());
            }
            return Some(acc);
        }
        proof {
            assert(jv.skip(i as int)[0] == jv[i as int]);
            assert(jv.skip(i as int).subrange(1, jv.skip(i as int).len() as int) =~= jv.skip(
                i as int + 1,
            ));
        }
        let e = match dec_collection_exec(&items[i]) {
            Some(e) => e,
            None => {
                return None;
            },
        };
        let ghost pre = acc.deep_view();
        acc.push(e);
        proof {
            assert(acc.deep_view() =~= pre.push(e.deep_view()));
            assert(f(jv.skip(i as int)[0]) == Some(e.deep_view()));
            let rest = dec_list(jv.skip(i as int + 1), f);
            if rest is Some {
                assert(pre + (seq![e.deep_view()] + rest.unwrap()) =~= acc.deep_view() + rest.unwrap());
            }
        }
        i += 1;
    }
}

fn dec_bookmark_list_exec(items: &Vec<Json>) -> (r: Option<Vec<Bookmark>>)
    ensures
        r matches Some(v) ==> dec_list(json_seq_view(items@), |x: JsonV| dec_bookmark(x)) == Some(
            v.deep_view(),
        ),
        r is None ==> dec_list(json_seq_view(items@), |x: JsonV| dec_bookmark(x)) is None,
{
    let ghost f = |x: JsonV| dec_bookmark(x);
    let ghost jv = json_seq_view(items@);
    proof {
        lemma_json_seq_view_index(items@);
        assert(jv.skip(0) =~= jv);
    }
    let n = items.len();
    let mut acc: Vec<Bookmark> = Vec::new();
    let mut i: usize = 0;
    loop
        invariant
            i <= n,
            n == items@.len(),
            jv == json_seq_view(items@),
            jv.len() == n,
            f == (|x: JsonV| dec_bookmark(x)),
            forall|k: int| 0 <= k < n ==> jv[k] == json_view(items@[k]),
            dec_list(jv, f) == (match dec_list(jv.skip(i as int), f) {
                Some(r2) => Some(acc.deep_view() + r2),
                None => None::<Seq<BookmarkV>>,
            }),
        decreases n - i,
    {
        if i == n {
            proof {
                assert(jv.skip(n as int) =~= Seq::<JsonV>::empty());
                assert(acc.deep_view() + Seq::<BookmarkV>::empty() =~= acc.deep_view());
            }
            return Some(acc);
        }
        proof {
            assert(jv.skip(i as int)[0] == jv[i as int]);
            assert(jv.skip(i as int).subrange(1, jv.skip(i as int).len() as int) =~= jv.skip(
                i as int + 1,
            ));
        }
        let e = match dec_bookmark_exec(&items[i]) {
            Some(e) => e,
            None => {
                return None;
            },
        };
        let ghost pre = acc.deep_view();
        acc.push(e);
        proof {
            assert(acc.deep_view() =~= pre.push(e.deep_view()));
            assert(f(jv.skip(i as int)[0]) == Some(e.deep_view()));
            let rest = dec_list(jv.skip(i as int + 1), f);
            if rest is Some {
                assert(pre + (seq![e.deep_view()] + rest.unwrap()) =~= acc.deep_view() + rest.unwrap());
            }
        }
        i += 1;
    }
}

fn dec_note_list_exec(items: &Vec<Json>) -> (r: Option<Vec<Note>>)
    ensures
        r matches Some(v) ==> dec_list(json_seq_view(items@), |x: JsonV| dec_note(x)) == Some(
            v.deep_view(),
        ),
        r is None ==> dec_list(json_seq_view(items@), |x: JsonV| dec_note(x)) is None,
{
    let ghost f = |x: JsonV| dec_note(x);
    let ghost jv = json_seq_view(items@);
    proof {
        lemma_json_seq_view_index(items@);
        assert(jv.skip(0) =~= jv);
    }
    let n = items.len();
    let mut acc: Vec<Note> = Vec::new();
    let mut i: usize = 0;
    loop
        invariant
            i <= n,
            n == items@.len(),
            jv == json_seq_view(items@),
            jv.len() == n,
            f == (|x: JsonV| dec_note(x)),
            forall|k: int| 0 <= k < n ==> jv[k] == json_view(items@[k]),
            dec_list(jv, f) == (match dec_list(jv.skip(i as int), f) {
                Some(r2) => Some(acc.deep_view() + r2),
                None => None::<Seq<NoteV>>,
            }),
        decreases n - i,
    {
        if i == n {
            proof {
                assert(jv.skip(n as int) =~= Seq::<JsonV>::empty());
                assert(acc.deep_view() + Seq::<NoteV>::empty() =~= acc.deep_view());
            }
            return Some(acc);
        }
        proof {
            assert(jv.skip(i as int)[0] == jv[i as int]);
            assert(jv.skip(i as int).subrange(1, jv.skip(i as int).len() as int) =~= jv.skip(
                i as int + 1,
            ));
        }
        let e = match dec_note_exec(&items[i]) {
            Some(e) => e,
            None => {
                return None;
            },
        };
        let ghost pre = acc.deep_view();
        acc.push(e);
        proof {
            assert(acc.deep_view() =~= pre.push(e.deep_view()));
            assert(f(jv.skip(i as int)[0]) == Some(e.deep_view()));
            let rest = dec_list(jv.skip(i as int + 1), f);
            if rest is Some {
                assert(pre + (seq![e.deep_view()] + rest.unwrap()) =~= acc.deep_view() + rest.unwrap());
            }
        }
        i += 1;
    }
}

pub fn dec_checklist_item_exec(j: &Json) -> (r: Option<ChecklistItem>)
    ensures
        r matches Some(c) ==> dec_checklist_item(json_view(*j)) == Some(c.deep_view()),
        r is None ==> dec_checklist_item(json_view(*j)) is None,
{
    let ms = match j {
        Json::Obj(ms) => ms,
        _ => {
            return None;
        },
    };
    let id = match get_str(ms, "id") {
        Some(x) => x,
        None => {
            return None;
        },
    };
    let text = match get_str(ms, "text") {
        Some(x) => x,
        None => {
            return None;
        },
    };
    let completed = match get_bool(ms, "completed") {
        Some(x) => x,
        None => {
            return None;
        },
    };
    Some(ChecklistItem { id, text, completed })
}

pub fn dec_card_exec(j: &Json) -> (r: Option<Card>)
    ensures
        r matches Some(c) ==> dec_card(json_view(*j)) == Some(c.deep_view()),
        r is None ==> dec_card(json_view(*j)) is None,
{
    let ms = match j {
        Json::Obj(ms) => ms,
        _ => {
            return None;
        },
    };
    let id = match get_str(ms, "id") {
        Some(x) => x,
        None => {
            return None;
        },
    };
    let title = match get_str(ms, "title") {
        Some(x) => x,
        None => {
            return None;
        },
    };
    let description = match get_str_or(ms, "description", "") {
        Some(x) => x,
        None => {
            return None;
        },
    };
    let labels = match obj_get(ms, "labels") {
        None => {
            let v: Vec<String> = Vec::new();
            proof {
                assert(v.deep_view() =~= Seq::<Seq<char>>::empty());
            }
            v
        },
        Some(Json::Arr(items)) => match dec_str_list_exec(items) {
            Some(v) => v,
            None => {
                return None;
            },
        },
        Some(_) => {
            return None;
        },
    };
    let priority = match get_opt_str(ms, "priority") {
        Some(x) => x,
        None => {
            return None;
        },
    };
    let checklist = match obj_get(ms, "checklist") {
        None => {
            let v: Vec<ChecklistItem> = Vec::new();
            proof {
                assert(v.deep_view() =~= Seq::<ChecklistItemV>::empty());
            }
            v
        },
        Some(Json::Arr(items)) => match dec_checklist_list_exec(items) {
            Some(v) => v,
            None => {
                return None;
            },
        },
        Some(_) => {
            return None;
        },
    };
    let created_at = match get_str(ms, "createdAt") {
        Some(x) => x,
        None => {
            return None;
        },
    };
    let archived_at = match get_opt_str(ms, "archivedAt") {
        Some(x) => x,
        None => {
            return None;
        },
    };
    let original_column_id = match get_opt_str(ms, "originalColumnId") {
        Some(x) => x,
        None => {
            return None;
        },
    };
    proof {
        reveal_strlit("");
        assert(""@ =~= Seq::<char>::empty());
    }
    Some(
        Card {
            id,
            title,
            description,
            labels,
            priority,
            checklist,
            created_at,
            archived_at,
            original_column_id,
        },
    )
}

pub fn dec_column_exec(j: &Json) -> (r: Option<Column>)
    ensures
        r matches Some(c) ==> dec_column(json_view(*j)) == Some(c.deep_view()),
        r is None ==> dec_column(json_view(*j)) is None,
{
    let ms = match j {
        Json::Obj(ms) => ms,
        _ => {
            return None;
        },
    };
    let id = match get_str(ms, "id") {
        Some(x) => x,
        None => {
            return None;
        },
    };
    let title = match get_str(ms, "title") {
        Some(x) => x,
        None => {
            return None;
        },
    };
    let cards = match obj_get(ms, "cards") {
        None => {
            return None;
        },
        Some(Json::Arr(items)) => match dec_card_list_exec(items) {
            Some(v) => v,
            None => {
                return None;
            },
        },
        Some(_) => {
            return None;
        },
    };
    Some(Column { id, title, cards })
}

pub fn dec_board_exec(j: &Json) -> (r: Option<Board>)
    ensures
        r matches Some(b) ==> dec_board(json_view(*j)) == Some(b.deep_view()),
        r is None ==> dec_board(json_view(*j)) is None,
{
    let ms = match j {
        Json::Obj(ms) => ms,
        _ => {
            return None;
        },
    };
    let id = match get_str(ms, "id") {
        Some(x) => x,
        None => {
            return None;
        },
    };
    let name = match get_str(ms, "name") {
        Some(x) => x,
        None => {
            return None;
        },
    };
    let columns = match obj_get(ms, "columns") {
        None => {
            return None;
        },
        Some(Json::Arr(items)) => match dec_column_list_exec(items) {
            Some(v) => v,
            None => {
                return None;
            },
        },
        Some(_) => {
            return None;
        },
    };
    let archived_cards = match obj_get(ms, "archivedCards") {
        None => {
            let v: Vec<Card> = Vec::new();
            proof {
                assert(v.deep_view() =~= Seq::<CardV>::empty());
            }
            v
        },
        Some(Json::Arr(items)) => match dec_card_list_exec(items) {
            Some(v) => v,
            None => {
                return None;
            },
        },
        Some(_) => {
            return None;
        },
    };
    Some(Board { id, name, columns, archived_cards })
}

pub fn dec_collection_exec(j: &Json) -> (r: Option<Collection>)
    ensures
        r matches Some(c) ==> dec_collection(json_view(*j)) == Some(c.deep_view()),
        r is None ==> dec_collection(json_view(*j)) is None,
{
    let ms = match j {
        Json::Obj(ms) => ms,
        _ => {
            return None;
        },
    };
    let id = match get_str(ms, "id") {
        Some(x) => x,
        None => {
            return None;
        },
    };
    let name = match get_str(ms, "name") {
        Some(x) => x,
        None => {
            return None;
        },
    };
    let icon = match get_str(ms, "icon") {
        Some(x) => x,
        None => {
            return None;
        },
    };
    let is_custom = match get_opt_bool(ms, "isCustom") {
        Some(x) => x,
        None => {
            return None;
        },
    };
    Some(Collection { id, name, icon, is_custom })
}

pub fn dec_bookmark_exec(j: &Json) -> (r: Option<Bookmark>)
    ensures
        r matches Some(b) ==> dec_bookmark(json_view(*j)) == Some(b.deep_view()),
        r is None ==> dec_bookmark(json_view(*j)) is None,
{
    let ms = match j {
        Json::Obj(ms) => ms,
        _ => {
            return None;
        },
    };
    let id = match get_str(ms, "id") {
        Some(x) => x,
        None => {
            return None;
        },
    };
    let title = match get_str(ms, "title") {
        Some(x) => x,
        None => {
            return None;
        },
    };
    let url = match get_str(ms, "url") {
        Some(x) => x,
        None => {
            return None;
        },
    };
    let description = match get_str_or(ms, "description", "") {
        Some(x) => x,
        None => {
            return None;
        },
    };
    let favicon = match get_opt_str(ms, "favicon") {
        Some(x) => x,
        None => {
            return None;
        },
    };
    let image = match get_opt_str(ms, "image") {
        Some(x) => x,
        None => {
            return None;
        },
    };
    let tags = match obj_get(ms, "tags") {
        None => {
            let v: Vec<String> = Vec::new();
            proof {
                assert(v.deep_view() =~= Seq::<Seq<char>>::empty());
            }
            v
        },
        Some(Json::Arr(items)) => match dec_str_list_exec(items) {
            Some(v) => v,
            None => {
                return None;
            },
        },
        Some(_) => {
            return None;
        },
    };
    let collection_id = match get_opt_str(ms, "collectionId") {
        Some(x) => x,
        None => {
            return None;
        },
    };
    let is_favorite = match get_bool_or(ms, "isFavorite", false) {
        Some(x) => x,
        None => {
            return None;
        },
    };
    let is_archived = match get_bool_or(ms, "isArchived", false) {
        Some(x) => x,
        None => {
            return None;
        },
    };
    let created_at = match get_str(ms, "createdAt") {
        Some(x) => x,
        None => {
            return None;
        },
    };
    proof {
        reveal_strlit("");
        assert(""@ =~= Seq::<char>::empty());
    }
    Some(
        Bookmark {
            id,
            title,
            url,
            description,
            favicon,
            image,
            tags,
            collection_id,
            is_favorite,
            is_archived,
            created_at,
        },
    )
}

pub fn dec_custom_tag_exec(j: &Json) -> (r: Option<CustomTag>)
    ensures
        r matches Some(t) ==> dec_custom_tag(json_view(*j)) == Some(t.deep_view()),
        r is None ==> dec_custom_tag(json_view(*j)) is None,
{
    let ms = match j {
        Json::Obj(ms) => ms,
        _ => {
            return None;
        },
    };
    let name = match get_str(ms, "name") {
        Some(x) => x,
        None => {
            return None;
        },
    };
    let color = match get_str(ms, "color") {
        Some(x) => x,
        None => {
            return None;
        },
    };
    Some(CustomTag { name, color })
}

pub fn dec_note_exec(j: &Json) -> (r: Option<Note>)
    ensures
        r matches Some(n) ==> dec_note(json_view(*j)) == Some(n.deep_view()),
        r is None ==> dec_note(json_view(*j)) is None,
{
    let ms = match j {
        Json::Obj(ms) => ms,
        _ => {
            return None;
        },
    };
    let id = match get_str(ms, "id") {
        Some(x) => x,
        None => {
            return None;
        },
    };
    let title = match get_str(ms, "title") {
        Some(x) => x,
        None => {
            return None;
        },
    };
    let content = match get_str_or(ms, "content", "") {
        Some(x) => x,
        None => {
            return None;
        },
    };
    let is_pinned = match get_bool_or(ms, "isPinned", false) {
        Some(x) => x,
        None => {
            return None;
        },
    };
    let created_at = match get_str(ms, "createdAt") {
        Some(x) => x,
        None => {
            return None;
        },
    };
    let updated_at = match get_str(ms, "updatedAt") {
        Some(x) => x,
        None => {
            return None;
        },
    };
    proof {
        reveal_strlit("");
        assert(""@ =~= Seq::<char>::empty());
    }
    Some(Note { id, title, content, is_pinned, created_at, updated_at })
}

fn dec_tag_members_exec(tms: &Vec<Member>) -> (r: Option<Vec<(String, CustomTag)>>)
    ensures
        r matches Some(v) ==> dec_tag_members(json_members_view(tms@)) == Some(v.deep_view()),
        r is None ==> dec_tag_members(json_members_view(tms@)) is None,
{
    let ghost mv = json_members_view(tms@);
    proof {
        lemma_json_members_view_index(tms@);
        assert(mv.skip(0) =~= mv);
    }
    let n = tms.len();
    let mut acc: Vec<(String, CustomTag)> = Vec::new();
    let mut i: usize = 0;
    loop
        invariant
            i <= n,
            n == tms@.len(),
            mv == json_members_view(tms@),
            mv.len() == n,
            forall|k: int|
                0 <= k < n ==> mv[k] == (MemberV {
                    key: tms@[k].key@,
                    val: json_view(tms@[k].val),
                }),
            dec_tag_members(mv) == (match dec_tag_members(mv.skip(i as int)) {
                Some(r2) => Some(acc.deep_view() + r2),
                None => None::<Seq<(Seq<char>, CustomTagV)>>,
            }),
        decreases n - i,
    {
        if i == n {
            proof {
                assert(mv.skip(n as int) =~= Seq::<MemberV>::empty());
                assert(acc.deep_view() + Seq::<(Seq<char>, CustomTagV)>::empty() =~= acc.deep_view());
            }
            return Some(acc);
        }
        proof {
            assert(mv.skip(i as int)[0] == mv[i as int]);
            assert(mv.skip(i as int).subrange(1, mv.skip(i as int).len() as int) =~= mv.skip(
                i as int + 1,
            ));
        }
        let t = match dec_custom_tag_exec(&tms[i].val) {
            Some(t) => t,
            None => {
                return None;
            },
        };
        let key = chars_to_string(&tms[i].key);
        let e = (key, t);
        let ghost pre = acc.deep_view();
        let ghost ev = (tms@[i as int].key@, t.deep_view());
        acc.push(e);
        proof {
            assert(e.deep_view() == ev);
            assert(acc.deep_view() =~= pre.push(ev));
            let rest = dec_tag_members(mv.skip(i as int + 1));
            if rest is Some {
                assert(pre + (seq![ev] + rest.unwrap()) =~= acc.deep_view() + rest.unwrap());
            }
        }
        i += 1;
    }
}

/// Reads a full local record out of a document tree; `now` is the fallback
/// watermark for a document that lacks one.
pub fn dec_app_data_exec(j: &Json, now: &str) -> (r: Option<AppData>)
    ensures
        r matches Some(d) ==> dec_app_data(json_view(*j), now@) == Some(d.deep_view()),
        r is None ==> dec_app_data(json_view(*j), now@) is None,
{
    let ms = match j {
        Json::Obj(ms) => ms,
        _ => {
            return None;
        },
    };
    let boards = match obj_get(ms, "boards") {
        None => {
            return None;
        },
        Some(Json::Arr(items)) => match dec_board_list_exec(items) {
            Some(v) => v,
            None => {
                return None;
            },
        },
        Some(_) => {
            return None;
        },
    };
    let active_board = match get_opt_str_req(ms, "activeBoard") {
        Some(x) => x,
        None => {
            return None;
        },
    };
    let theme = match get_str_or(ms, "theme", "dark") {
        Some(x) => x,
        None => {
            return None;
        },
    };
    let active_view = match get_str_or(ms, "activeView", "boards") {
        Some(x) => x,
        None => {
            return None;
        },
    };
    let bookmarks = match obj_get(ms, "bookmarks") {
        None => {
            let v: Vec<Bookmark> = Vec::new();
            proof {
                assert(v.deep_view() =~= Seq::<BookmarkV>::empty());
            }
            v
        },
        Some(Json::Arr(items)) => match dec_bookmark_list_exec(items) {
            Some(v) => v,
            None => {
                return None;
            },
        },
        Some(_) => {
            return None;
        },
    };
    let collections = match obj_get(ms, "collections") {
        None => crate::data::default_collections(),
        Some(Json::Arr(items)) => match dec_collection_list_exec(items) {
            Some(v) => v,
            None => {
                return None;
            },
        },
        Some(_) => {
            return None;
        },
    };
    let custom_tags = match obj_get(ms, "customTags") {
        None => {
            let v: Vec<(String, CustomTag)> = Vec::new();
            proof {
                assert(v.deep_view() =~= Seq::<(Seq<char>, CustomTagV)>::empty());
            }
            v
        },
        Some(Json::Obj(tms)) => match dec_tag_members_exec(tms) {
            Some(v) => v,
            None => {
                return None;
            },
        },
        Some(_) => {
            return None;
        },
    };
    let notes = match obj_get(ms, "notes") {
        None => {
            let v: Vec<Note> = Vec::new();
            proof {
                assert(v.deep_view() =~= Seq::<NoteV>::empty());
            }
            v
        },
        Some(Json::Arr(items)) => match dec_note_list_exec(items) {
            Some(v) => v,
            None => {
                return None;
            },
        },
        Some(_) => {
            return None;
        },
    };
    let last_modified = match get_str_or(ms, "lastModified", now) {
        Some(x) => x,
        None => {
            return None;
        },
    };
    let sync_enabled = match get_bool_or(ms, "syncEnabled", false) {
        Some(x) => x,
        None => {
            return None;
        },
    };
    Some(
        AppData {
            boards,
            active_board,
            theme,
            active_view,
            bookmarks,
            collections,
            custom_tags,
            notes,
            last_modified,
            sync_enabled,
        },
    )
}

/// Reads a synchronized projection out of a document tree.
pub fn dec_sync_data_exec(j: &Json, now: &str) -> (r: Option<SyncData>)
    ensures
        r matches Some(d) ==> dec_sync_data(json_view(*j), now@) == Some(d.deep_view()),
        r is None ==> dec_sync_data(json_view(*j), now@) is None,
{
    let ms = match j {
        Json::Obj(ms) => ms,
        _ => {
            return None;
        },
    };
    let boards = match obj_get(ms, "boards") {
        None => {
            return None;
        },
        Some(Json::Arr(items)) => match dec_board_list_exec(items) {
            Some(v) => v,
            None => {
                return None;
            },
        },
        Some(_) => {
            return None;
        },
    };
    let active_board = match get_opt_str_req(ms, "activeBoard") {
        Some(x) => x,
        None => {
            return None;
        },
    };
    let theme = match get_str_or(ms, "theme", "dark") {
        Some(x) => x,
        None => {
            return None;
        },
    };
    let bookmarks = match obj_get(ms, "bookmarks") {
        None => {
            let v: Vec<Bookmark> = Vec::new();
            proof {
                assert(v.deep_view() =~= Seq::<BookmarkV>::empty());
            }
            v
        },
        Some(Json::Arr(items)) => match dec_bookmark_list_exec(items) {
            Some(v) => v,
            None => {
                return None;
            },
        },
        Some(_) => {
            return None;
        },
    };
    let collections = match obj_get(ms, "collections") {
        None => crate::data::default_collections(),
        Some(Json::Arr(items)) => match dec_collection_list_exec(items) {
            Some(v) => v,
            None => {
                return None;
            },
        },
        Some(_) => {
            return None;
        },
    };
    let custom_tags = match obj_get(ms, "customTags") {
        None => {
            let v: Vec<(String, CustomTag)> = Vec::new();
            proof {
                assert(v.deep_view() =~= Seq::<(Seq<char>, CustomTagV)>::empty());
            }
            v
        },
        Some(Json::Obj(tms)) => match dec_tag_members_exec(tms) {
            Some(v) => v,
            None => {
                return None;
            },
        },
        Some(_) => {
            return None;
        },
    };
    let notes = match obj_get(ms, "notes") {
        None => {
            let v: Vec<Note> = Vec::new();
            proof {
                assert(v.deep_view() =~= Seq::<NoteV>::empty());
            }
            v
        },
        Some(Json::Arr(items)) => match dec_note_list_exec(items) {
            Some(v) => v,
            None => {
                return None;
            },
        },
        Some(_) => {
            return None;
        },
    };
    let last_modified = match get_str_or(ms, "lastModified", now) {
        Some(x) => x,
        None => {
            return None;
        },
    };
    let sync_enabled = match get_bool_or(ms, "syncEnabled", false) {
        Some(x) => x,
        None => {
            return None;
        },
    };
    Some(
        SyncData {
            boards,
            active_board,
            theme,
            bookmarks,
            collections,
            custom_tags,
            notes,
            last_modified,
            sync_enabled,
        },
    )
}

} // verus!
