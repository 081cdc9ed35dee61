use crate::text::{encode_text, escape_text};
use vstd::prelude::*;

verus! {

/// A visit as the history sidebar lists it: its record's identifier, and
/// its title, address and time, kept HTML-escaped for display.
pub struct HistoryItem {
    pub(crate) id: u128,
    pub(crate) title: String,
    pub(crate) uri: String,
    pub(crate) timestamp: String,
}

/// The plain values a history item holds.
pub struct HistoryItemView {
    pub id: u128,
    pub title: Seq<char>,
    pub uri: Seq<char>,
    pub timestamp: Seq<char>,
}

impl View for HistoryItem {
    type V = HistoryItemView;

    closed spec fn view(&self) -> HistoryItemView {
        HistoryItemView { id: self.id, title: self.title@, uri: self.uri@, timestamp: self.timestamp@ }
    }
}

impl HistoryItem {
    /// A new item. `uri` is the visited address as it is displayed and
    /// `timestamp` the time of the visit as text; the texts are stored
    /// HTML-escaped.
    pub fn new(id: u128, title: String, uri: String, timestamp: String) -> (r: Self)
        ensures
            r@.id == id,
            r@.title == escape_text(title@),
            r@.uri == escape_text(uri@),
            r@.timestamp == escape_text(timestamp@),
    {
        HistoryItem {
            id,
            title: encode_text(title.as_str()),
            uri: encode_text(uri.as_str()),
            timestamp: encode_text(timestamp.as_str()),
        }
    }

    /// The identifier of the visit's record.
    pub fn id(&self) -> (r: u128)
        ensures
            r == self@.id,
    {
        self.id
    }

    /// The title, as escaped for display.
    pub fn title(&self) -> (r: String)
        ensures
            r@ == self@.title,
    {
        self.title.clone()
    }

    /// The address, as escaped for display.
    pub fn uri(&self) -> (r: String)
        ensures
            r@ == self@.uri,
    {
        self.uri.clone()
    }

    /// The time of the visit, as escaped for display.
    pub fn timestamp(&self) -> (r: String)
        ensures
            r@ == self@.timestamp,
    {
        self.timestamp.clone()
    }
}

} // verus!
