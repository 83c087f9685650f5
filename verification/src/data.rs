//! The workspace snapshot: boards of columns of cards, bookmarks, collections,
//! custom tags and notes, and the synchronized projection of it.
//!
//! `last_modified` is the sole conflict-resolution watermark: the owner bumps
//! it on every mutation that will be persisted or synced. The synchronized
//! projection (`SyncData`) is a strict subset of the full local record: purely
//! local UI state (the active view) stays behind.

use vstd::prelude::*;

verus! {

/// One checklist entry of a card.
#[derive(Debug, Clone, PartialEq)]
pub struct ChecklistItem {
    pub id: String,
    pub text: String,
    pub completed: bool,
}

/// Mathematical model of a `ChecklistItem`.
#[verifier::ext_equal]
pub struct ChecklistItemV {
    pub id: Seq<char>,
    pub text: Seq<char>,
    pub completed: bool,
}

impl DeepView for ChecklistItem {
    type V = ChecklistItemV;

    open spec fn deep_view(&self) -> ChecklistItemV {
        ChecklistItemV { id: self.id@, text: self.text@, completed: self.completed }
    }
}

/// One card on a board.
#[derive(Debug, Clone, PartialEq)]
pub struct Card {
    pub id: String,
    pub title: String,
    pub description: String,
    pub labels: Vec<String>,
    pub priority: Option<String>,
    pub checklist: Vec<ChecklistItem>,
    pub created_at: String,
    pub archived_at: Option<String>,
    pub original_column_id: Option<String>,
}

/// Mathematical model of a `Card`.
#[verifier::ext_equal]
pub struct CardV {
    pub id: Seq<char>,
    pub title: Seq<char>,
    pub description: Seq<char>,
    pub labels: Seq<Seq<char>>,
    pub priority: Option<Seq<char>>,
    pub checklist: Seq<ChecklistItemV>,
    pub created_at: Seq<char>,
    pub archived_at: Option<Seq<char>>,
    pub original_column_id: Option<Seq<char>>,
}

impl DeepView for Card {
    type V = CardV;

    open spec fn deep_view(&self) -> CardV {
        CardV {
            id: self.id@,
            title: self.title@,
            description: self.description@,
            labels: self.labels.deep_view(),
            priority: self.priority.deep_view(),
            checklist: self.checklist.deep_view(),
            created_at: self.created_at@,
            archived_at: self.archived_at.deep_view(),
            original_column_id: self.original_column_id.deep_view(),
        }
    }
}

/// One column of a board, an ordered sequence of cards.
#[derive(Debug, Clone, PartialEq)]
pub struct Column {
    pub id: String,
    pub title: String,
    pub cards: Vec<Card>,
}

/// Mathematical model of a `Column`.
#[verifier::ext_equal]
pub struct ColumnV {
    pub id: Seq<char>,
    pub title: Seq<char>,
    pub cards: Seq<CardV>,
}

impl DeepView for Column {
    type V = ColumnV;

    open spec fn deep_view(&self) -> ColumnV {
        ColumnV { id: self.id@, title: self.title@, cards: self.cards.deep_view() }
    }
}

/// One kanban board.
#[derive(Debug, Clone, PartialEq)]
pub struct Board {
    pub id: String,
    pub name: String,
    pub columns: Vec<Column>,
    pub archived_cards: Vec<Card>,
}

/// Mathematical model of a `Board`.
#[verifier::ext_equal]
pub struct BoardV {
    pub id: Seq<char>,
    pub name: Seq<char>,
    pub columns: Seq<ColumnV>,
    pub archived_cards: Seq<CardV>,
}

impl DeepView for Board {
    type V = BoardV;

    open spec fn deep_view(&self) -> BoardV {
        BoardV {
            id: self.id@,
            name: self.name@,
            columns: self.columns.deep_view(),
            archived_cards: self.archived_cards.deep_view(),
        }
    }
}

/// One bookmark collection.
#[derive(Debug, Clone, PartialEq)]
pub struct Collection {
    pub id: String,
    pub name: String,
    pub icon: String,
    pub is_custom: Option<bool>,
}

/// Mathematical model of a `Collection`.
#[verifier::ext_equal]
pub struct CollectionV {
    pub id: Seq<char>,
    pub name: Seq<char>,
    pub icon: Seq<char>,
    pub is_custom: Option<bool>,
}

impl DeepView for Collection {
    type V = CollectionV;

    open spec fn deep_view(&self) -> CollectionV {
        CollectionV {
            id: self.id@,
            name: self.name@,
            icon: self.icon@,
            is_custom: self.is_custom,
        }
    }
}

/// One saved bookmark.
#[derive(Debug, Clone, PartialEq)]
pub struct Bookmark {
    pub id: String,
    pub title: String,
    pub url: String,
    pub description: String,
    pub favicon: Option<String>,
    pub image: Option<String>,
    pub tags: Vec<String>,
    pub collection_id: Option<String>,
    pub is_favorite: bool,
    pub is_archived: bool,
    pub created_at: String,
}

/// Mathematical model of a `Bookmark`.
#[verifier::ext_equal]
pub struct BookmarkV {
    pub id: Seq<char>,
    pub title: Seq<char>,
    pub url: Seq<char>,
    pub description: Seq<char>,
    pub favicon: Option<Seq<char>>,
    pub image: Option<Seq<char>>,
    pub tags: Seq<Seq<char>>,
    pub collection_id: Option<Seq<char>>,
    pub is_favorite: bool,
    pub is_archived: bool,
    pub created_at: Seq<char>,
}

impl DeepView for Bookmark {
    type V = BookmarkV;

    open spec fn deep_view(&self) -> BookmarkV {
        BookmarkV {
            id: self.id@,
            title: self.title@,
            url: self.url@,
            description: self.description@,
            favicon: self.favicon.deep_view(),
            image: self.image.deep_view(),
            tags: self.tags.deep_view(),
            collection_id: self.collection_id.deep_view(),
            is_favorite: self.is_favorite,
            is_archived: self.is_archived,
            created_at: self.created_at@,
        }
    }
}

/// One user-defined tag: its display name and its color.
#[derive(Debug, Clone, PartialEq)]
pub struct CustomTag {
    pub name: String,
    pub color: String,
}

/// Mathematical model of a `CustomTag`.
#[verifier::ext_equal]
pub struct CustomTagV {
    pub name: Seq<char>,
    pub color: Seq<char>,
}

impl DeepView for CustomTag {
    type V = CustomTagV;

    open spec fn deep_view(&self) -> CustomTagV {
        CustomTagV { name: self.name@, color: self.color@ }
    }
}

/// One note.
#[derive(Debug, Clone, PartialEq)]
pub struct Note {
    pub id: String,
    pub title: String,
    pub content: String,
    pub is_pinned: bool,
    pub created_at: String,
    pub updated_at: String,
}

/// Mathematical model of a `Note`.
#[verifier::ext_equal]
pub struct NoteV {
    pub id: Seq<char>,
    pub title: Seq<char>,
    pub content: Seq<char>,
    pub is_pinned: bool,
    pub created_at: Seq<char>,
    pub updated_at: Seq<char>,
}

impl DeepView for Note {
    type V = NoteV;

    open spec fn deep_view(&self) -> NoteV {
        NoteV {
            id: self.id@,
            title: self.title@,
            content: self.content@,
            is_pinned: self.is_pinned,
            created_at: self.created_at@,
            updated_at: self.updated_at@,
        }
    }
}

/// The full local workspace record, persisted as one JSON document.
/// Custom tags are kept as ordered key-tag pairs under their wire-format keys.
#[derive(Debug, Clone, PartialEq)]
pub struct AppData {
    pub boards: Vec<Board>,
    pub active_board: Option<String>,
    pub theme: String,
    pub active_view: String,
    pub bookmarks: Vec<Bookmark>,
    pub collections: Vec<Collection>,
    pub custom_tags: Vec<(String, CustomTag)>,
    pub notes: Vec<Note>,
    pub last_modified: String,
    pub sync_enabled: bool,
}

/// Mathematical model of an `AppData`.
#[verifier::ext_equal]
pub struct AppDataV {
    pub boards: Seq<BoardV>,
    pub active_board: Option<Seq<char>>,
    pub theme: Seq<char>,
    pub active_view: Seq<char>,
    pub bookmarks: Seq<BookmarkV>,
    pub collections: Seq<CollectionV>,
    pub custom_tags: Seq<(Seq<char>, CustomTagV)>,
    pub notes: Seq<NoteV>,
    pub last_modified: Seq<char>,
    pub sync_enabled: bool,
}

impl DeepView for AppData {
    type V = AppDataV;

    open spec fn deep_view(&self) -> AppDataV {
        AppDataV {
            boards: self.boards.deep_view(),
            active_board: self.active_board.deep_view(),
            theme: self.theme@,
            active_view: self.active_view@,
            bookmarks: self.bookmarks.deep_view(),
            collections: self.collections.deep_view(),
            custom_tags: self.custom_tags.deep_view(),
            notes: self.notes.deep_view(),
            last_modified: self.last_modified@,
            sync_enabled: self.sync_enabled,
        }
    }
}

/// The synchronized projection of the workspace: everything of `AppData` but
/// the purely local active view.
#[derive(Debug, Clone, PartialEq)]
pub struct SyncData {
    pub boards: Vec<Board>,
    pub active_board: Option<String>,
    pub theme: String,
    pub bookmarks: Vec<Bookmark>,
    pub collections: Vec<Collection>,
    pub custom_tags: Vec<(String, CustomTag)>,
    pub notes: Vec<Note>,
    pub last_modified: String,
    pub sync_enabled: bool,
}

/// Mathematical model of a `SyncData`.
#[verifier::ext_equal]
pub struct SyncDataV {
    pub boards: Seq<BoardV>,
    pub active_board: Option<Seq<char>>,
    pub theme: Seq<char>,
    pub bookmarks: Seq<BookmarkV>,
    pub collections: Seq<CollectionV>,
    pub custom_tags: Seq<(Seq<char>, CustomTagV)>,
    pub notes: Seq<NoteV>,
    pub last_modified: Seq<char>,
    pub sync_enabled: bool,
}

impl DeepView for SyncData {
    type V = SyncDataV;

    open spec fn deep_view(&self) -> SyncDataV {
        SyncDataV {
            boards: self.boards.deep_view(),
            active_board: self.active_board.deep_view(),
            theme: self.theme@,
            bookmarks: self.bookmarks.deep_view(),
            collections: self.collections.deep_view(),
            custom_tags: self.custom_tags.deep_view(),
            notes: self.notes.deep_view(),
            last_modified: self.last_modified@,
            sync_enabled: self.sync_enabled,
        }
    }
}

/// The synchronized projection of a full record: the same in every shared
/// field, with the local-only active view left behind.
pub open spec fn spec_sync_projection(d: AppDataV) -> SyncDataV {
    SyncDataV {
        boards: d.boards,
        active_board: d.active_board,
        theme: d.theme,
        bookmarks: d.bookmarks,
        collections: d.collections,
        custom_tags: d.custom_tags,
        notes: d.notes,
        last_modified: d.last_modified,
        sync_enabled: d.sync_enabled,
    }
}

impl AppData {
    /// The synchronized projection of this record.
    pub fn to_sync_data(self) -> (s: SyncData)
        ensures
            s.deep_view() == spec_sync_projection(self.deep_view()),
    {
        SyncData {
            boards: self.boards,
            active_board: self.active_board,
            theme: self.theme,
            bookmarks: self.bookmarks,
            collections: self.collections,
            custom_tags: self.custom_tags,
            notes: self.notes,
            last_modified: self.last_modified,
            sync_enabled: self.sync_enabled,
        }
    }
}

impl SyncData {
    /// Merges remote synchronized state into a full local record, keeping the
    /// local-only active view.
    pub fn into_app_data(self, active_view: String) -> (d: AppData)
        ensures
            spec_sync_projection(d.deep_view()) == self.deep_view(),
            d.deep_view().active_view == active_view@,
    {
        AppData {
            boards: self.boards,
            active_board: self.active_board,
            theme: self.theme,
            active_view,
            bookmarks: self.bookmarks,
            collections: self.collections,
            custom_tags: self.custom_tags,
            notes: self.notes,
            last_modified: self.last_modified,
            sync_enabled: self.sync_enabled,
        }
    }
}

/// The theme a fresh record starts with.
pub fn default_theme() -> (r: String)
    ensures
        r@ == "dark"@,
{
    "dark".to_owned()
}

/// The view a fresh record starts with.
pub fn default_view() -> (r: String)
    ensures
        r@ == "boards"@,
{
    "boards".to_owned()
}

/// The three built-in bookmark collections.
pub open spec fn spec_default_collections() -> Seq<CollectionV> {
    seq![
        CollectionV { id: "all"@, name: "All Bookmarks"@, icon: "bookmark"@, is_custom: None },
        CollectionV { id: "favorites"@, name: "Favorites"@, icon: "star"@, is_custom: None },
        CollectionV { id: "archive"@, name: "Archive"@, icon: "archive"@, is_custom: None },
    ]
}

/// The three built-in bookmark collections a fresh record starts with.
pub fn default_collections() -> (r: Vec<Collection>)
    ensures
        r.deep_view() == spec_default_collections(),
{
    let mut r: Vec<Collection> = Vec::new();
    r.push(
        Collection {
            id: "all".to_owned(),
            name: "All Bookmarks".to_owned(),
            icon: "bookmark".to_owned(),
            is_custom: None,
        },
    );
    r.push(
        Collection {
            id: "favorites".to_owned(),
            name: "Favorites".to_owned(),
            icon: "star".to_owned(),
            is_custom: None,
        },
    );
    r.push(
        Collection {
            id: "archive".to_owned(),
            name: "Archive".to_owned(),
            icon: "archive".to_owned(),
            is_custom: None,
        },
    );
    assert(r.deep_view() =~= spec_default_collections());
    r
}

/// Relies on chrono's `Utc::now().to_rfc3339()`: the current wall-clock time
/// as a non-empty RFC 3339 timestamp. Assumes the system clock is at or after
/// the Unix epoch.
#[verifier::external_body]
pub(crate) fn now_rfc3339() -> (r: String)
    ensures
        r@.len() > 0,
{
    chrono::Utc::now().to_rfc3339()
}

/// The seeded default snapshot at creation time `now`: one starter board with
/// a welcome card, empty bookmarks and notes, the built-in collections, sync
/// off, and `now` as both the card's creation time and the watermark.
pub open spec fn spec_default_app_data(now: Seq<char>) -> AppDataV {
    AppDataV {
        boards: seq![
            BoardV {
                id: "default-board"@,
                name: "My First Project"@,
                columns: seq![
                    ColumnV {
                        id: "col-backlog"@,
                        title: "Backlog"@,
                        cards: seq![
                            CardV {
                                id: "card-1"@,
                                title: "Welcome!"@,
                                description: "This is your first card. Drag it to another column or create new cards to get started."@,
                                labels: Seq::empty(),
                                priority: None,
                                checklist: Seq::empty(),
                                created_at: now,
                                archived_at: None,
                                original_column_id: None,
                            },
                        ],
                    },
                    ColumnV { id: "col-todo"@, title: "To Do"@, cards: Seq::empty() },
                    ColumnV { id: "col-progress"@, title: "In Progress"@, cards: Seq::empty() },
                    ColumnV { id: "col-done"@, title: "Done"@, cards: Seq::empty() },
                ],
                archived_cards: Seq::empty(),
            },
        ],
        active_board: Some("default-board"@),
        theme: "dark"@,
        active_view: "boards"@,
        bookmarks: Seq::empty(),
        collections: spec_default_collections(),
        custom_tags: Seq::empty(),
        notes: Seq::empty(),
        last_modified: now,
        sync_enabled: false,
    }
}

/// Builds the seeded default snapshot with the given creation time.
pub fn default_app_data(now: &str) -> (d: AppData)
    ensures
        d.deep_view() == spec_default_app_data(now@),
{
    let mut cards: Vec<Card> = Vec::new();
    cards.push(
        Card {
            id: "card-1".to_owned(),
            title: "Welcome!".to_owned(),
            description:
                "This is your first card. Drag it to another column or create new cards to get started.".to_owned(),
            labels: Vec::new(),
            priority: None,
            checklist: Vec::new(),
            created_at: now.to_owned(),
            archived_at: None,
            original_column_id: None,
        },
    );
    let mut columns: Vec<Column> = Vec::new();
    columns.push(Column { id: "col-backlog".to_owned(), title: "Backlog".to_owned(), cards });
    columns.push(Column { id: "col-todo".to_owned(), title: "To Do".to_owned(), cards: Vec::new() });
    columns.push(
        Column { id: "col-progress".to_owned(), title: "In Progress".to_owned(), cards: Vec::new() },
    );
    columns.push(Column { id: "col-done".to_owned(), title: "Done".to_owned(), cards: Vec::new() });
    let mut boards: Vec<Board> = Vec::new();
    boards.push(
        Board {
            id: "default-board".to_owned(),
            name: "My First Project".to_owned(),
            columns,
            archived_cards: Vec::new(),
        },
    );
    let d = AppData {
        boards,
        active_board: Some("default-board".to_owned()),
        theme: default_theme(),
        active_view: default_view(),
        bookmarks: Vec::new(),
        collections: default_collections(),
        custom_tags: Vec::new(),
        notes: Vec::new(),
        last_modified: now.to_owned(),
        sync_enabled: false,
    };
    assert(d.deep_view() =~~= spec_default_app_data(now@));
    d
}

/// The seeded default snapshot, stamped with the current time.
pub fn get_default_data() -> (d: AppData)
    ensures
        exists|now: Seq<char>| d.deep_view() == spec_default_app_data(now),
{
    let now = now_rfc3339();
    let d = default_app_data(now.as_str());
    proof {
        assert(d.deep_view() == spec_default_app_data(now@));
    }
    d
}

} // verus!
