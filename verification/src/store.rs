//! The snapshot store: turns the workspace record into its persisted document
//! text and back, and decides what a load yields for every state of the local
//! blob — absent, unreadable, corrupt, or intact.
//!
//! A read never surfaces a hard failure: corruption falls back to the seeded
//! default so that the UI shell always has something to render, and the
//! corrupted file is left untouched.

use vstd::prelude::*;

use crate::codec::dec_app_data;
use crate::codec::dec_app_data_exec;
use crate::codec::dec_sync_data;
use crate::codec::dec_sync_data_exec;
use crate::codec::enc_app_data;
use crate::codec::enc_sync_data;
use crate::codec::lemma_dec_enc_app_data;
use crate::codec::lemma_dec_enc_sync_data;
use crate::codec::lemma_enc_app_data_printable;
use crate::codec::lemma_enc_sync_data_printable;
use crate::codec::app_data_to_json;
use crate::codec::sync_data_to_json;
use crate::data::AppData;
use crate::data::AppDataV;
use crate::data::SyncData;
use crate::data::SyncDataV;
use crate::data::default_app_data;
use crate::data::now_rfc3339;
use crate::data::spec_default_app_data;
use crate::json::json_to_string;
use crate::json::lemma_print_parse_document;
use crate::json::parse_document;
use crate::json::parse_json_text;
use crate::json::print_document;
use crate::text::str_to_chars;

verus! {

/// The persisted document text of a full record.
pub open spec fn spec_serialize_app_data(d: AppDataV) -> Seq<char> {
    print_document(enc_app_data(d))
}

/// The wire text of a synchronized projection, as handed to the bridge.
pub open spec fn spec_serialize_sync_data(d: SyncDataV) -> Seq<char> {
    print_document(enc_sync_data(d))
}

/// What document text decodes to: the record, if the text parses and decodes;
/// `now` is the fallback watermark.
pub open spec fn spec_parse_app_data(text: Seq<char>, now: Seq<char>) -> Option<AppDataV> {
    match parse_document(text) {
        None => None,
        Some(j) => dec_app_data(j, now),
    }
}

/// What wire text decodes to as a synchronized projection.
pub open spec fn spec_parse_sync_data(text: Seq<char>, now: Seq<char>) -> Option<SyncDataV> {
    match parse_document(text) {
        None => None,
        Some(j) => dec_sync_data(j, now),
    }
}

/// Serializes a full record to its persisted document text.
pub fn serialize_app_data(d: &AppData) -> (s: String)
    ensures
        s@ == spec_serialize_app_data(d.deep_view()),
{
    let tree = app_data_to_json(d);
    proof {
        lemma_enc_app_data_printable(d.deep_view());
    }
    json_to_string(&tree)
}

/// Serializes a synchronized projection to its wire text.
pub fn serialize_sync_data(d: &SyncData) -> (s: String)
    ensures
        s@ == spec_serialize_sync_data(d.deep_view()),
{
    let tree = sync_data_to_json(d);
    proof {
        lemma_enc_sync_data_printable(d.deep_view());
    }
    json_to_string(&tree)
}

/// Parses persisted document text into a full record.
pub fn parse_app_data(text: &str, now: &str) -> (r: Option<AppData>)
    ensures
        r matches Some(d) ==> spec_parse_app_data(text@, now@) == Some(d.deep_view()),
        r is None ==> spec_parse_app_data(text@, now@) is None,
{
    let chars = str_to_chars(text);
    match parse_json_text(&chars) {
        None => None,
        Some(tree) => dec_app_data_exec(&tree, now),
    }
}

/// Parses wire text into a synchronized projection.
pub fn parse_sync_data(text: &str, now: &str) -> (r: Option<SyncData>)
    ensures
        r matches Some(d) ==> spec_parse_sync_data(text@, now@) == Some(d.deep_view()),
        r is None ==> spec_parse_sync_data(text@, now@) is None,
{
    let chars = str_to_chars(text);
    match parse_json_text(&chars) {
        None => None,
        Some(tree) => dec_sync_data_exec(&tree, now),
    }
}

/// Round trip: serializing a record and parsing the text back yields the
/// record, equal in every field — the synchronized ones and the local-only
/// active view alike — whatever fallback watermark the read would have used.
pub proof fn lemma_save_then_load(d: AppDataV, now: Seq<char>)
    ensures
        spec_parse_app_data(spec_serialize_app_data(d), now) == Some(d),
{
    lemma_enc_app_data_printable(d);
    lemma_print_parse_document(enc_app_data(d));
    lemma_dec_enc_app_data(d, now);
}

/// Round trip for the synchronized projection: what one replica pushes,
/// another reads back unchanged.
pub proof fn lemma_push_then_pull_payload(d: SyncDataV, now: Seq<char>)
    ensures
        spec_parse_sync_data(spec_serialize_sync_data(d), now) == Some(d),
{
    lemma_enc_sync_data_printable(d);
    lemma_print_parse_document(enc_sync_data(d));
    lemma_dec_enc_sync_data(d, now);
}

/// What a read of the persisted blob produced.
pub enum LocalRead {
    /// No file exists yet.
    Missing,
    /// A file exists but could not be read.
    Unreadable,
    /// The file's text.
    Content(String),
}

/// Mathematical model of a `LocalRead`.
pub enum LocalReadV {
    Missing,
    Unreadable,
    Content(Seq<char>),
}

impl View for LocalRead {
    type V = LocalReadV;

    open spec fn view(&self) -> LocalReadV {
        match self {
            LocalRead::Missing => LocalReadV::Missing,
            LocalRead::Unreadable => LocalReadV::Unreadable,
            LocalRead::Content(s) => LocalReadV::Content(s@),
        }
    }
}

/// What a load yields: the record to work with, and, where a fresh default
/// was seeded for a missing file, the text to persist now.
pub struct LoadResult {
    pub data: AppData,
    pub persist: Option<String>,
}

/// The store's load policy. A missing blob is replaced by the seeded default,
/// which is persisted at once; an unreadable or unparsable blob falls back to
/// the default without touching the file; intact text yields its record.
pub open spec fn spec_load_snapshot(read: LocalReadV, now: Seq<char>) -> (AppDataV, Option<
    Seq<char>,
>) {
    match read {
        LocalReadV::Missing => (
            spec_default_app_data(now),
            Some(spec_serialize_app_data(spec_default_app_data(now))),
        ),
        LocalReadV::Unreadable => (spec_default_app_data(now), None),
        LocalReadV::Content(text) => match spec_parse_app_data(text, now) {
            Some(d) => (d, None),
            None => (spec_default_app_data(now), None),
        },
    }
}

/// Loads the record from whatever the read of the blob produced, stamping a
/// fresh default with `now` where one is needed.
pub fn load_snapshot(read: LocalRead, now: &str) -> (r: LoadResult)
    ensures
        r.data.deep_view() == spec_load_snapshot(read@, now@).0,
        r.persist.deep_view() == spec_load_snapshot(read@, now@).1,
{
    match read {
        LocalRead::Missing => {
            let d = default_app_data(now);
            let text = serialize_app_data(&d);
            LoadResult { data: d, persist: Some(text) }
        },
        LocalRead::Unreadable => {
            LoadResult { data: default_app_data(now), persist: None }
        },
        LocalRead::Content(text) => match parse_app_data(text.as_str(), now) {
            Some(d) => LoadResult { data: d, persist: None },
            None => LoadResult { data: default_app_data(now), persist: None },
        },
    }
}

/// Loads the record, stamping any fresh default with the current time.
pub fn load_snapshot_now(read: LocalRead) -> (r: LoadResult)
    ensures
        exists|now: Seq<char>|
            r.data.deep_view() == #[trigger] spec_load_snapshot(read@, now).0
                && r.persist.deep_view() == spec_load_snapshot(read@, now).1,
{
    let now = now_rfc3339();
    let r = load_snapshot(read, now.as_str());
    proof {
        assert(r.data.deep_view() == spec_load_snapshot(read@, now@).0 && r.persist.deep_view()
            == spec_load_snapshot(read@, now@).1);
    }
    r
}

/// A fresh default is seeded and persisted when no file exists: the load
/// yields the seeded default, and the text to write is exactly that default's
/// own serialization.
pub proof fn lemma_load_missing_bootstraps(now: Seq<char>)
    ensures
        spec_load_snapshot(LocalReadV::Missing, now).0 == spec_default_app_data(now),
        spec_load_snapshot(LocalReadV::Missing, now).1 == Some(
            spec_serialize_app_data(spec_default_app_data(now)),
        ),
        spec_parse_app_data(spec_load_snapshot(LocalReadV::Missing, now).1.unwrap(), now) == Some(
            spec_default_app_data(now),
        ),
{
    lemma_save_then_load(spec_default_app_data(now), now);
}

/// Round trip through the store itself: loading a file that holds a record's
/// own serialization yields that record, with nothing re-persisted.
pub proof fn lemma_load_after_save(d: AppDataV, now: Seq<char>)
    ensures
        spec_load_snapshot(LocalReadV::Content(spec_serialize_app_data(d)), now).0 == d,
        spec_load_snapshot(LocalReadV::Content(spec_serialize_app_data(d)), now).1 is None,
{
    lemma_save_then_load(d, now);
}

/// Corrupt text never propagates and never overwrites the file: the load
/// falls back to the seeded default and persists nothing.
pub proof fn lemma_load_corrupt_falls_back(text: Seq<char>, now: Seq<char>)
    requires
        spec_parse_app_data(text, now) is None,
    ensures
        spec_load_snapshot(LocalReadV::Content(text), now).0 == spec_default_app_data(now),
        spec_load_snapshot(LocalReadV::Content(text), now).1 is None,
{
}

} // verus!
