//! What is decided when a histogram is sent to a search index in bulk: the
//! records that its entries become, the batches they are sent in, whether a
//! batch was taken, and the name of the index, the connection and the login
//! to use.

use vstd::prelude::*;
use crate::chars::chars_of;
use crate::histo::{Entry, EntryView};
use crate::source::HistogramWithTimestamp;
use crate::timestamp::Timestamp;

verus! {

/// One entry of a histogram with the moment the histogram was taken, as a
/// record of the index.
#[derive(Debug, PartialEq, Eq)]
pub struct HistoEntry {
    pub timestamp: Timestamp,
    pub rank: usize,
    pub instances_count: usize,
    pub bytes: usize,
    pub class_name: String,
}

/// A record as a mathematical value.
pub struct HistoEntryView {
    pub timestamp: Timestamp,
    pub entry: EntryView,
}

impl View for HistoEntry {
    type V = HistoEntryView;

    open spec fn view(&self) -> HistoEntryView {
        HistoEntryView {
            timestamp: self.timestamp,
            entry: EntryView {
                rank: self.rank as nat,
                instances_count: self.instances_count as nat,
                bytes: self.bytes as nat,
                class_name: self.class_name@,
            },
        }
    }
}

/// The records of the entries `entries[from..to]`, each with `timestamp`.
pub open spec fn records_of(timestamp: Timestamp, entries: Seq<EntryView>, from: int, to: int) -> Seq<
    HistoEntryView,
> {
    Seq::new((to - from) as nat, |k: int| HistoEntryView { timestamp, entry: entries[from + k] })
}

/// The views of records.
pub open spec fn record_views(records: Seq<HistoEntry>) -> Seq<HistoEntryView> {
    Seq::new(records.len(), |k: int| records[k]@)
}

/// The number of batches of at most `size` that `count` records are sent in.
pub open spec fn batch_count(count: nat, size: nat) -> nat
    recommends
        size > 0,
{
    ((count + size - 1) / (size as int)) as nat
}

/// Where the batch `k` starts among the records, with `size` in a batch.
pub open spec fn batch_start(k: int, size: nat) -> int {
    k * size
}

/// Where the batch `k` ends among `count` records, with `size` in a batch.
pub open spec fn batch_end(k: int, count: nat, size: nat) -> int {
    if (k + 1) * size < count {
        (k + 1) * size
    } else {
        count as int
    }
}

/// Whether `batch` is the batch `k` of the entries of a histogram taken at
/// `timestamp`: it is not empty, and holds the records of the entries from
/// where the batch starts to where it ends, in their order.
pub open spec fn is_batch(
    batch: Seq<HistoEntry>,
    k: int,
    timestamp: Timestamp,
    entries: Seq<EntryView>,
    size: nat,
) -> bool {
    &&& 0 <= batch_start(k, size)
    &&& batch_start(k, size) < batch_end(k, entries.len(), size)
    &&& batch_end(k, entries.len(), size) <= entries.len()
    &&& record_views(batch) == records_of(
        timestamp,
        entries,
        batch_start(k, size),
        batch_end(k, entries.len(), size),
    )
}

/// Whether `batches` are the batches that the entries of a histogram taken at
/// `timestamp` are sent in: every batch but the last holds `size` records, the
/// last holds what is left, and the records stand in the order of the entries.
pub open spec fn are_batches(
    batches: Seq<Vec<HistoEntry>>,
    timestamp: Timestamp,
    entries: Seq<EntryView>,
    size: nat,
) -> bool {
    &&& batches.len() == batch_count(entries.len(), size)
    &&& forall|k: int|
        0 <= k < batches.len() ==> is_batch((#[trigger] batches[k])@, k, timestamp, entries, size)
}

/// The record of `entry` in a histogram taken at `timestamp`.
pub fn record_of(timestamp: Timestamp, entry: &Entry) -> (record: HistoEntry)
    ensures
        record@ == (HistoEntryView { timestamp, entry: entry@ }),
{
    HistoEntry {
        timestamp,
        rank: entry.rank,
        instances_count: entry.instances_count,
        bytes: entry.bytes,
        class_name: entry.class_name.clone(),
    }
}

/// The batches that the entries of `histogram` are sent in: records in the
/// order of the entries, `size` of them in every batch but the last.
pub fn bulk_batches(histogram: &HistogramWithTimestamp, size: usize) -> (batches: Vec<
    Vec<HistoEntry>,
>)
    requires
        size > 0,
    ensures
        are_batches(batches@, histogram.timestamp, histogram.histogram@, size as nat),
{
    let entries = &histogram.histogram.0;
    let count = entries.len();
    let mut batches: Vec<Vec<HistoEntry>> = Vec::new();
    let mut start: usize = 0;
    assert(0 * size == 0) by (nonlinear_arith);
    while start < count
        invariant
            size > 0,
            count == entries@.len(),
            entries@ == histogram.histogram.0@,
            start <= count,
            start == if batches@.len() * size < count {
                batches@.len() * size
            } else {
                count as int
            },
            batches@.len() == 0 || (batches@.len() - 1) * size < count,
            forall|k: int|
                0 <= k < batches@.len() ==> is_batch(
                    (#[trigger] batches@[k])@,
                    k,
                    histogram.timestamp,
                    histogram.histogram@,
                    size as nat,
                ),
        decreases count - start,
    {
        let end = if count - start <= size {
            count
        } else {
            start + size
        };
        let ghost index = batches@.len() as int;
        proof {
            assert((index + 1) * size == index * size + size) by (nonlinear_arith);
            assert((index + 1 - 1) * size == index * size);
            assert(batch_start(index, size as nat) == start);
            assert(batch_end(index, count as nat, size as nat) == end);
        }
        let mut batch: Vec<HistoEntry> = Vec::new();
        let mut i: usize = start;
        while i < end
            invariant
                start <= i <= end <= count,
                count == entries@.len(),
                entries@ == histogram.histogram.0@,
                record_views(batch@) == records_of(
                    histogram.timestamp,
                    histogram.histogram@,
                    start as int,
                    i as int,
                ),
            decreases end - i,
        {
            let record = record_of(histogram.timestamp, &entries[i]);
            let ghost before = batch@;
            batch.push(record);
            proof {
                assert(record_views(batch@) =~= record_views(before).push(record@));
                assert(record_views(batch@) =~= records_of(
                    histogram.timestamp,
                    histogram.histogram@,
                    start as int,
                    i + 1,
                ));
            }
            i = i + 1;
        }
        let ghost done = batches@;
        batches.push(batch);
        proof {
            assert forall|k: int| 0 <= k < batches@.len() implies is_batch(
                (#[trigger] batches@[k])@,
                k,
                histogram.timestamp,
                histogram.histogram@,
                size as nat,
            ) by {
                if k < index {
                    assert(batches@[k] == done[k]);
                }
            }
        }
        start = end;
    }
    proof {
        lemma_batch_count(count as nat, size as nat, batches@.len());
    }
    batches
}

/// As many full batches as fill `count` records, or one less than that and a
/// last batch that is not empty, are the batches of `count` records.
pub proof fn lemma_batch_count(count: nat, size: nat, batches: nat)
    requires
        size > 0,
        count == batches * size || (batches > 0 && (batches - 1) * size < count < batches * size),
    ensures
        batch_count(count, size) == batches,
{
    assert(batch_count(count, size) == batches) by (nonlinear_arith)
        requires
            size > 0,
            count == batches * size || (batches > 0 && (batches - 1) * size < count < batches
                * size),
            batch_count(count, size) == ((count + size - 1) / (size as int)) as nat,
    ;
}

/// Whether the index refused a batch: the request failed, or the answer says
/// that there were errors among its records. An answer that does not say
/// whether there were errors counts as one without.
pub fn bulk_failed(status_is_success: bool, errors: Option<bool>) -> (failed: bool)
    ensures
        failed == (!status_is_success || errors == Some(true)),
{
    let errors_in_body = match errors {
        Some(flag) => flag,
        None => false,
    };
    !status_is_success || errors_in_body
}

/// How the index is reached.
#[derive(Debug, PartialEq, Eq)]
pub enum Connection {
    /// A cluster in the cloud, by its cloud id.
    Cloud(String),
    /// A single node, by its URL.
    Node(String),
    /// The node that the client reaches when it is told nothing.
    Default,
}

/// How the client logs in.
#[derive(Debug, PartialEq, Eq)]
pub enum Login {
    /// With the id of an API key and the key.
    ApiKey(String, String),
    /// With a user name and a password.
    Basic(String, String),
    /// Not at all.
    Anonymous,
}

/// Picks the connection: the cloud id where there is one, else the URL where
/// there is one, else the default.
pub fn choose_connection(cloud_id: Option<String>, url: Option<String>) -> (connection: Connection)
    ensures
        connection == match (cloud_id, url) {
            (Some(id), _) => Connection::Cloud(id),
            (None, Some(u)) => Connection::Node(u),
            (None, None) => Connection::Default,
        },
{
    match cloud_id {
        Some(id) => Connection::Cloud(id),
        None => match url {
            Some(u) => Connection::Node(u),
            None => Connection::Default,
        },
    }
}

/// Picks the login: the API key where both its id and the key are given, else
/// user name and password where both are given, else none.
pub fn choose_login(
    api_key_id: Option<String>,
    api_key: Option<String>,
    user: Option<String>,
    password: Option<String>,
) -> (login: Login)
    ensures
        login == match (api_key_id, api_key, user, password) {
            (Some(id), Some(key), _, _) => Login::ApiKey(id, key),
            (_, _, Some(name), Some(word)) => Login::Basic(name, word),
            _ => Login::Anonymous,
        },
{
    match (api_key_id, api_key) {
        (Some(id), Some(key)) => Login::ApiKey(id, key),
        _ => match (user, password) {
            (Some(name), Some(word)) => Login::Basic(name, word),
            _ => Login::Anonymous,
        },
    }
}

/// What std's `str::to_lowercase` makes of `s`.
pub uninterp spec fn lowercase_of(s: Seq<char>) -> Seq<char>;

/// `str::to_lowercase` of std, by the name above.
pub assume_specification[ str::to_lowercase ](s: &str) -> (lower: String)
    ensures
        lower@ == lowercase_of(s@),
;

/// `text` with a `-` in place of every `:`.
pub open spec fn without_colons(text: Seq<char>) -> Seq<char> {
    Seq::new(text.len(), |k: int| if text[k] == ':' { '-' } else { text[k] })
}

/// The first part of the name of every index that is named here.
pub open spec fn index_name_base() -> Seq<char> {
    seq![
        'j',
        'h',
        'e',
        'a',
        'p',
        '-',
        'h',
        'i',
        's',
        't',
        'o',
        '-',
        'i',
        'n',
        'g',
        'e',
        's',
        't',
    ]
}

/// The name of the index for `lower`, a date and time in lowercase: the base
/// of the name, `_`, and `lower` with `-` for every `:`.
pub open spec fn index_name_from(lower: Seq<char>) -> Seq<char> {
    index_name_base() + seq!['_'] + without_colons(lower)
}

/// Names the index after `lower`, a date and time in lowercase: the base of
/// the name, `_`, and `lower` with `-` for every `:`, which an index name may
/// not hold.
pub fn index_name_of(lower: &str) -> (name: String)
    ensures
        name@ == index_name_from(lower@),
{
    let base = vec![
        'j',
        'h',
        'e',
        'a',
        'p',
        '-',
        'h',
        'i',
        's',
        't',
        'o',
        '-',
        'i',
        'n',
        'g',
        'e',
        's',
        't',
    ];
    let mut name = String::new();
    let mut i: usize = 0;
    while i < base.len()
        invariant
            i <= base@.len(),
            base@ == index_name_base(),
            name@ == base@.subrange(0, i as int),
        decreases base@.len() - i,
    {
        name.push(base[i]);
        i = i + 1;
    }
    name.push('_');
    let text = chars_of(lower);
    let ghost head = name@;
    assert(head =~= index_name_base() + seq!['_']);
    let mut k: usize = 0;
    while k < text.len()
        invariant
            k <= text@.len(),
            text@ == lower@,
            name@ == head + without_colons(text@).subrange(0, k as int),
        decreases text@.len() - k,
    {
        let c = text[k];
        if c == ':' {
            name.push('-');
        } else {
            name.push(c);
        }
        k = k + 1;
    }
    assert(without_colons(text@).subrange(0, text@.len() as int) =~= without_colons(text@));
    name
}

/// Names the index after the moment `stamp`, written in RFC 3339: the base of
/// the name, `_`, and `stamp` in lowercase with `-` for every `:`.
pub fn default_index_name(stamp: &str) -> (name: String)
    ensures
        name@ == index_name_from(lowercase_of(stamp@)),
{
    let lower = stamp.to_lowercase();
    index_name_of(lower.as_str())
}

} // verus!
