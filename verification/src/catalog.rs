//! Rebuilding the event history from the stored files.
//!
//! The file system is the database: a scan hands this module one entry
//! per file (its path, its file name and, if it could be read, its
//! bytes), and the catalog derives the ordered event list from nothing
//! else.  A file whose name does not decode is skipped; a file whose
//! payload cannot be parsed still yields an event, with no loudness
//! summary and duration zero.  The result is sorted ascending by
//! timestamp, ties broken by path, so that scanning the same directory
//! contents twice — in whatever order the walk enumerates them — yields
//! the same sequence ([`lemma_scan_deterministic`]).

use vstd::prelude::*;
use vstd::relations::sorted_by;
use crate::codec::{decode, decode_spec, Timestamp};
use crate::stats::{analyze, five_number_summary, AudioStats};
use crate::wav::{parse_wav_bytes, wav_parse};

verus! {

/// One file met by the directory walk.
#[derive(Clone, Debug)]
pub struct ScanEntry {
    /// The full path, as bytes, used as the event's storage handle and
    /// as the tie-breaking sort key.
    pub path: Vec<u8>,
    /// The file name alone, which the codec decodes.
    pub name: Vec<u8>,
    /// The file's bytes, or `None` when reading them failed.
    pub payload: Option<Vec<u8>>,
}

/// One detected acoustic occurrence, reconstructed from its stored file.
#[derive(Clone, Debug)]
pub struct AudioEvent {
    /// When the event started, decoded from the file name.
    pub timestamp: Timestamp,
    /// The stored payload's path, as bytes.
    pub path: Vec<u8>,
    /// The payload's duration in milliseconds: sample frames divided by
    /// the sample rate; zero when the payload was unreadable.
    pub duration_ms: u64,
    /// The five-number loudness summary, or `None` when the payload was
    /// unreadable or empty.
    pub stats: Option<AudioStats>,
}

/// Byte-wise lexicographic order on paths.
pub open spec fn lex_le(a: Seq<u8>, b: Seq<u8>) -> bool
    decreases a.len(),
{
    if a.len() == 0 {
        true
    } else if b.len() == 0 {
        false
    } else if a[0] < b[0] {
        true
    } else if a[0] > b[0] {
        false
    } else {
        lex_le(a.drop_first(), b.drop_first())
    }
}

/// The catalog's order: ascending timestamp, ties broken by path.
pub open spec fn event_le(a: AudioEvent, b: AudioEvent) -> bool {
    if a.timestamp.key_spec() != b.timestamp.key_spec() {
        a.timestamp.key_spec() < b.timestamp.key_spec()
    } else {
        lex_le(a.path@, b.path@)
    }
}

pub open spec fn event_le_fn() -> spec_fn(AudioEvent, AudioEvent) -> bool {
    |a: AudioEvent, b: AudioEvent| event_le(a, b)
}

/// Whether the entry's file name decodes as an event name.
pub open spec fn decodes(e: ScanEntry) -> bool {
    decode_spec(e.name@) is Ok
}

/// The duration in milliseconds, clamped to the machine range: frame
/// count (samples over channels) times a thousand over the sample rate,
/// zero for a rate or channel count of zero.
pub open spec fn duration_ms_spec(rate: u32, channels: u16, n_samples: int) -> int {
    if rate == 0 || channels == 0 {
        0
    } else {
        let ms = ((n_samples / (channels as int)) * 1000) / (rate as int);
        if ms > u64::MAX {
            u64::MAX as int
        } else {
            ms
        }
    }
}

/// The event one decodable entry yields.
pub open spec fn event_of(e: ScanEntry) -> AudioEvent {
    let ts = decode_spec(e.name@)->Ok_0;
    match e.payload {
        Some(b) => match wav_parse(b@) {
            Some(w) => AudioEvent {
                timestamp: ts,
                path: e.path,
                duration_ms: duration_ms_spec(w.0, w.1, w.2.len() as int) as u64,
                stats: if w.2.len() == 0 {
                    None
                } else {
                    Some(five_number_summary(w.2))
                },
            },
            None => AudioEvent { timestamp: ts, path: e.path, duration_ms: 0, stats: None },
        },
        None => AudioEvent { timestamp: ts, path: e.path, duration_ms: 0, stats: None },
    }
}

/// The events of a sequence of entries, in entry order: one event per
/// decodable entry.
pub open spec fn events_of(entries: Seq<ScanEntry>) -> Seq<AudioEvent>
    decreases entries.len(),
{
    if entries.len() == 0 {
        Seq::empty()
    } else {
        let prefix = events_of(entries.drop_last());
        if decodes(entries.last()) {
            prefix.push(event_of(entries.last()))
        } else {
            prefix
        }
    }
}

/// Byte-wise lexicographic comparison of two paths.
pub fn lex_le_bytes(a: &Vec<u8>, b: &Vec<u8>) -> (r: bool)
    ensures
        r == lex_le(a@, b@),
{
    let mut i: usize = 0;
    proof {
        assert(a@.skip(0) =~= a@);
        assert(b@.skip(0) =~= b@);
    }
    loop
        invariant
            i <= a@.len(),
            i <= b@.len(),
            lex_le(a@, b@) == lex_le(a@.skip(i as int), b@.skip(i as int)),
        decreases a@.len() - i,
    {
        if i == a.len() {
            assert(a@.skip(i as int).len() == 0);
            return true;
        }
        if i == b.len() {
            assert(b@.skip(i as int).len() == 0 && a@.skip(i as int).len() > 0);
            return false;
        }
        let ca = a[i];
        let cb = b[i];
        assert(a@.skip(i as int)[0] == ca && b@.skip(i as int)[0] == cb);
        if ca < cb {
            return true;
        }
        if ca > cb {
            return false;
        }
        proof {
            assert(a@.skip(i as int).drop_first() =~= a@.skip(i + 1));
            assert(b@.skip(i as int).drop_first() =~= b@.skip(i + 1));
        }
        i = i + 1;
    }
}

/// Whether `a` comes before `b` (or equals it) in catalog order.
pub fn event_le_exec(a: &AudioEvent, b: &AudioEvent) -> (r: bool)
    ensures
        r == event_le(*a, *b),
{
    let ka = a.timestamp.key();
    let kb = b.timestamp.key();
    if ka != kb {
        ka < kb
    } else {
        lex_le_bytes(&a.path, &b.path)
    }
}

/// `lex_le` is total: one of the two directions always holds.
pub proof fn lemma_lex_le_total(a: Seq<u8>, b: Seq<u8>)
    ensures
        lex_le(a, b) || lex_le(b, a),
    decreases a.len(),
{
    if a.len() == 0 || b.len() == 0 {
    } else if a[0] == b[0] {
        lemma_lex_le_total(a.drop_first(), b.drop_first());
    }
}

/// `lex_le` is transitive.
pub proof fn lemma_lex_le_trans(a: Seq<u8>, b: Seq<u8>, c: Seq<u8>)
    requires
        lex_le(a, b),
        lex_le(b, c),
    ensures
        lex_le(a, c),
    decreases a.len(),
{
    if a.len() == 0 {
    } else {
        if b.len() == 0 {
        } else if c.len() == 0 {
        } else {
            if a[0] == b[0] && b[0] == c[0] {
                lemma_lex_le_trans(a.drop_first(), b.drop_first(), c.drop_first());
            }
        }
    }
}

/// `lex_le` both ways means the sequences are equal.
pub proof fn lemma_lex_le_antisym(a: Seq<u8>, b: Seq<u8>)
    requires
        lex_le(a, b),
        lex_le(b, a),
    ensures
        a == b,
    decreases a.len(),
{
    if a.len() == 0 {
        assert(b.len() == 0);
        assert(a =~= b);
    } else {
        assert(b.len() > 0);
        assert(a[0] == b[0]);
        lemma_lex_le_antisym(a.drop_first(), b.drop_first());
        assert(a.len() == b.len());
        assert forall|i: int| 0 <= i < a.len() implies a[i] == b[i] by {
            if i > 0 {
                assert(a.drop_first()[i - 1] == b.drop_first()[i - 1]);
                assert(a.drop_first()[i - 1] == a[i]);
                assert(b.drop_first()[i - 1] == b[i]);
            }
        }
        assert(a =~= b);
    }
}

/// The catalog order always relates any two events, one way or the other.
pub proof fn lemma_event_le_total(a: AudioEvent, b: AudioEvent)
    ensures
        event_le(a, b) || event_le(b, a),
{
    if a.timestamp.key_spec() == b.timestamp.key_spec() {
        lemma_lex_le_total(a.path@, b.path@);
    }
}

/// The catalog order is transitive.
pub proof fn lemma_event_le_trans(a: AudioEvent, b: AudioEvent, c: AudioEvent)
    requires
        event_le(a, b),
        event_le(b, c),
    ensures
        event_le(a, c),
{
    if a.timestamp.key_spec() == b.timestamp.key_spec() && b.timestamp.key_spec()
        == c.timestamp.key_spec() {
        lemma_lex_le_trans(a.path@, b.path@, c.path@);
    }
}

/// Sorts events into catalog order in place.
fn sort_events(v: &mut Vec<AudioEvent>)
    ensures
        final(v)@.len() == old(v)@.len(),
        final(v)@.to_multiset() == old(v)@.to_multiset(),
        sorted_by(final(v)@, event_le_fn()),
{
    broadcast use vstd::seq_lib::group_to_multiset_ensures;
    broadcast use vstd::seq_lib::to_multiset_insert;
    broadcast use vstd::seq_lib::to_multiset_remove;
    broadcast use vstd::multiset::group_multiset_axioms;

    let n = v.len();
    if n <= 1 {
        return;
    }
    let mut i: usize = 1;
    while i < n
        invariant
            1 <= i <= n,
            n == v@.len(),
            v@.to_multiset() == old(v)@.to_multiset(),
            sorted_by(v@.take(i as int), event_le_fn()),
        decreases n - i,
    {
        let mut j: usize = 0;
        while j < i && event_le_exec(&v[j], &v[i])
            invariant
                j <= i < n == v@.len(),
                forall|k: int| 0 <= k < j ==> event_le(#[trigger] v@[k], v@[i as int]),
            decreases i - j,
        {
            j = j + 1;
        }
        let ghost s = v@;
        let ghost x = v@[i as int];
        let moved = v.remove(i);
        v.insert(j, moved);
        proof {
            let u = s.remove(i as int);
            let w = u.insert(j as int, x);
            assert(v@ == w);
            s.remove_ensures(i as int);
            u.insert_ensures(j as int, x);
            assert(s.contains(x)) by {
                assert(s[i as int] == x);
            }
            vstd::seq_lib::to_multiset_remove::<AudioEvent>(s, i as int);
            vstd::seq_lib::to_multiset_insert::<AudioEvent>(u, j as int, x);
            vstd::seq_lib::to_multiset_contains::<AudioEvent>(s, x);
            assert(s.to_multiset().count(x) > 0);
            assert(u.to_multiset() == s.to_multiset().remove(x));
            assert(w.to_multiset() == u.to_multiset().insert(x));
            assert(w.to_multiset() =~= s.to_multiset());
            assert forall|p: int, q: int| 0 <= p < q <= i implies #[trigger] event_le_fn()(
                v@.take(i + 1)[p],
                v@.take(i + 1)[q],
            ) by {
                assert(v@.take(i + 1)[p] == w[p] && v@.take(i + 1)[q] == w[q]);
                if q < j {
                    assert(w[p] == s[p] && w[q] == s[q]);
                    assert(event_le_fn()(s.take(i as int)[p], s.take(i as int)[q]));
                } else if p < j && q == j {
                    assert(w[p] == s[p] && w[q] == x);
                } else if p == j && q > j {
                    assert(w[p] == x && w[q] == s[q - 1]);
                    assert(j < i);
                    assert(event_le(x, s[j as int])) by {
                        lemma_event_le_total(x, s[j as int]);
                    }
                    if j < q - 1 {
                        assert(event_le_fn()(s.take(i as int)[j as int], s.take(i as int)[q - 1]));
                        lemma_event_le_trans(x, s[j as int], s[q - 1]);
                    }
                } else if p < j && q > j {
                    assert(w[p] == s[p] && w[q] == s[q - 1]);
                    assert(event_le_fn()(s.take(i as int)[p], s.take(i as int)[q - 1]));
                } else {
                    assert(j < p < q);
                    assert(w[p] == s[p - 1] && w[q] == s[q - 1]);
                    assert(event_le_fn()(s.take(i as int)[p - 1], s.take(i as int)[q - 1]));
                }
            }
            assert(sorted_by(v@.take(i + 1), event_le_fn()));
        }
        i = i + 1;
    }
    proof {
        assert(v@.take(n as int) =~= v@);
    }
}

/// Rebuilds the ordered event list from the entries a directory walk
/// found: one event per entry whose name decodes, sorted ascending by
/// timestamp with ties broken by path.  Entries whose names do not
/// decode are skipped; an unreadable payload leaves the event in place
/// with duration zero and no summary.  Zero matching files yield the
/// empty catalog.
pub fn build_catalog(entries: Vec<ScanEntry>) -> (r: Vec<AudioEvent>)
    ensures
        r@.to_multiset() == events_of(entries@).to_multiset(),
        sorted_by(r@, event_le_fn()),
{
    let ghost all = entries@;
    let mut rest = entries;
    let mut out: Vec<AudioEvent> = Vec::new();
    let ghost mut k: int = 0;
    while rest.len() > 0
        invariant
            0 <= k <= all.len(),
            rest@ == all.skip(k),
            out@ == events_of(all.take(k)),
        decreases rest@.len(),
    {
        proof {
            assert(rest@[0] == all[k]);
        }
        let e = rest.remove(0);
        let ScanEntry { path, name, payload } = e;
        match decode(&name) {
            Ok(timestamp) => {
                let event = match payload {
                    Some(bytes) => {
                        match parse_wav_bytes(&bytes) {
                            Some((rate, channels, samples)) => {
                                let duration_ms = duration_from_shape(
                                    rate,
                                    channels,
                                    samples.len(),
                                );
                                let stats = analyze(&samples);
                                AudioEvent { timestamp, path, duration_ms, stats }
                            },
                            None => AudioEvent { timestamp, path, duration_ms: 0, stats: None },
                        }
                    },
                    None => AudioEvent { timestamp, path, duration_ms: 0, stats: None },
                };
                proof {
                    assert(event == event_of(all[k]));
                }
                out.push(event);
            },
            Err(_) => {},
        }
        proof {
            assert(all.take(k + 1).drop_last() =~= all.take(k));
            assert(all.take(k + 1).last() == all[k]);
            assert(rest@ =~= all.skip(k + 1));
        }
        proof {
            k = k + 1;
        }
    }
    proof {
        assert(all.take(k) =~= all);
    }
    sort_events(&mut out);
    out
}

/// Every event of a sequence of entries stems from one decodable entry.
proof fn lemma_events_member_source(entries: Seq<ScanEntry>, a: AudioEvent)
    requires
        events_of(entries).contains(a),
    ensures
        exists|i: int|
            0 <= i < entries.len() && decodes(#[trigger] entries[i]) && a == event_of(entries[i]),
    decreases entries.len(),
{
    if entries.len() > 0 {
        let prefix = events_of(entries.drop_last());
        if decodes(entries.last()) && a == event_of(entries.last()) {
            assert(entries[entries.len() - 1] == entries.last());
        } else {
            assert(prefix.contains(a)) by {
                let evs = events_of(entries);
                let k = choose|k: int| 0 <= k < evs.len() && evs[k] == a;
                if decodes(entries.last()) {
                    assert(evs == prefix.push(event_of(entries.last())));
                    assert(k < prefix.len());
                    assert(prefix[k] == a);
                }
            }
            lemma_events_member_source(entries.drop_last(), a);
            let i = choose|i: int|
                0 <= i < entries.drop_last().len() && decodes(#[trigger] entries.drop_last()[i])
                    && a == event_of(entries.drop_last()[i]);
            assert(entries[i] == entries.drop_last()[i]);
        }
    }
}

/// Removing one entry removes exactly its event (if it decodes) from the
/// multiset of events.
proof fn lemma_events_of_remove(s: Seq<ScanEntry>, j: int)
    requires
        0 <= j < s.len(),
    ensures
        events_of(s).to_multiset() == if decodes(s[j]) {
            events_of(s.remove(j)).to_multiset().insert(event_of(s[j]))
        } else {
            events_of(s.remove(j)).to_multiset()
        },
    decreases s.len(),
{
    broadcast use vstd::multiset::group_multiset_axioms;

    if j == s.len() - 1 {
        assert(s.remove(j) =~= s.drop_last());
        if decodes(s[j]) {
            vstd::seq_lib::to_multiset_build(events_of(s.drop_last()), event_of(s[j]));
            assert(s.last() == s[j]);
        }
    } else {
        let t = s.drop_last();
        lemma_events_of_remove(t, j);
        assert(s.remove(j).drop_last() =~= t.remove(j));
        assert(s.remove(j).last() == s.last());
        assert(t[j] == s[j]);
        if decodes(s.last()) {
            let el = event_of(s.last());
            assert(events_of(s) == events_of(t).push(el));
            assert(events_of(s.remove(j)) == events_of(t.remove(j)).push(el));
            vstd::seq_lib::to_multiset_build(events_of(t), el);
            vstd::seq_lib::to_multiset_build(events_of(t.remove(j)), el);
            if decodes(s[j]) {
                assert(events_of(s).to_multiset() =~= events_of(s.remove(j)).to_multiset().insert(
                    event_of(s[j]),
                ));
            } else {
                assert(events_of(s).to_multiset() =~= events_of(s.remove(j)).to_multiset());
            }
        } else {
            assert(events_of(s) == events_of(t));
            assert(events_of(s.remove(j)) == events_of(t.remove(j)));
        }
    }
}

/// Entry sequences with the same contents yield the same events, up to
/// order.
proof fn lemma_events_of_multiset(e1: Seq<ScanEntry>, e2: Seq<ScanEntry>)
    requires
        e1.to_multiset() == e2.to_multiset(),
    ensures
        events_of(e1).to_multiset() == events_of(e2).to_multiset(),
    decreases e1.len(),
{
    broadcast use vstd::multiset::group_multiset_axioms;

    vstd::seq_lib::to_multiset_len(e1);
    vstd::seq_lib::to_multiset_len(e2);
    if e1.len() == 0 {
        assert(e2.len() == 0);
    } else {
        let last = e1.last();
        assert(e1.contains(last)) by {
            assert(e1[e1.len() - 1] == last);
        }
        vstd::seq_lib::to_multiset_contains(e1, last);
        vstd::seq_lib::to_multiset_contains(e2, last);
        assert(e2.contains(last));
        let j = choose|j: int| 0 <= j < e2.len() && e2[j] == last;
        vstd::seq_lib::to_multiset_remove(e1, e1.len() - 1);
        vstd::seq_lib::to_multiset_remove(e2, j);
        assert(e1.remove(e1.len() - 1) =~= e1.drop_last());
        assert(e1.drop_last().to_multiset() == e2.remove(j).to_multiset());
        lemma_events_of_multiset(e1.drop_last(), e2.remove(j));
        lemma_events_of_remove(e2, j);
        if decodes(last) {
            vstd::seq_lib::to_multiset_build(events_of(e1.drop_last()), event_of(last));
            assert(events_of(e1) == events_of(e1.drop_last()).push(event_of(last)));
            assert(events_of(e1).to_multiset() =~= events_of(e2).to_multiset());
        } else {
            assert(events_of(e1) == events_of(e1.drop_last()));
            assert(events_of(e1).to_multiset() =~= events_of(e2).to_multiset());
        }
    }
}

/// Two sequences sorted in catalog order with the same contents are
/// equal, provided no two distinct members compare equal both ways.
proof fn lemma_sorted_unique_events(x: Seq<AudioEvent>, y: Seq<AudioEvent>)
    requires
        sorted_by(x, event_le_fn()),
        sorted_by(y, event_le_fn()),
        x.to_multiset() == y.to_multiset(),
        forall|a: AudioEvent, b: AudioEvent|
            x.to_multiset().contains(a) && x.to_multiset().contains(b) && #[trigger] event_le(a, b)
                && #[trigger] event_le(b, a) ==> a == b,
    ensures
        x == y,
    decreases x.len(),
{
    broadcast use vstd::multiset::group_multiset_axioms;

    vstd::seq_lib::to_multiset_len(x);
    vstd::seq_lib::to_multiset_len(y);
    if x.len() == 0 {
        assert(y.len() == 0);
        assert(x =~= y);
    } else {
        assert(y.len() == x.len());
        assert(x.contains(x[0]) && y.contains(y[0]));
        vstd::seq_lib::to_multiset_contains(x, x[0]);
        vstd::seq_lib::to_multiset_contains(y, x[0]);
        vstd::seq_lib::to_multiset_contains(x, y[0]);
        vstd::seq_lib::to_multiset_contains(y, y[0]);
        assert(y.contains(x[0]) && x.contains(y[0]));
        let i = choose|i: int| 0 <= i < x.len() && x[i] == y[0];
        let j = choose|j: int| 0 <= j < y.len() && y[j] == x[0];
        assert(event_le(x[0], y[0])) by {
            if i == 0 {
                lemma_event_le_total(x[0], x[0]);
            } else {
                assert(event_le_fn()(x[0], x[i]));
            }
        }
        assert(event_le(y[0], x[0])) by {
            if j == 0 {
                lemma_event_le_total(y[0], y[0]);
            } else {
                assert(event_le_fn()(y[0], y[j]));
            }
        }
        assert(x[0] == y[0]);
        vstd::seq_lib::to_multiset_remove(x, 0);
        vstd::seq_lib::to_multiset_remove(y, 0);
        assert(x.remove(0) =~= x.drop_first());
        assert(y.remove(0) =~= y.drop_first());
        assert(x.drop_first().to_multiset() == y.drop_first().to_multiset());
        assert(sorted_by(x.drop_first(), event_le_fn())) by {
            assert forall|p: int, q: int| 0 <= p < q < x.drop_first().len() implies
                #[trigger] event_le_fn()(x.drop_first()[p], x.drop_first()[q]) by {
                assert(event_le_fn()(x[p + 1], x[q + 1]));
            }
        }
        assert(sorted_by(y.drop_first(), event_le_fn())) by {
            assert forall|p: int, q: int| 0 <= p < q < y.drop_first().len() implies
                #[trigger] event_le_fn()(y.drop_first()[p], y.drop_first()[q]) by {
                assert(event_le_fn()(y[p + 1], y[q + 1]));
            }
        }
        assert forall|a: AudioEvent, b: AudioEvent|
            x.drop_first().to_multiset().contains(a) && x.drop_first().to_multiset().contains(b)
                && #[trigger] event_le(a, b) && #[trigger] event_le(b, a) implies a == b by {
            assert(x.to_multiset().contains(a) && x.to_multiset().contains(b));
        }
        lemma_sorted_unique_events(x.drop_first(), y.drop_first());
        assert forall|k: int| 0 <= k < x.len() implies x[k] == y[k] by {
            if k > 0 {
                assert(x.drop_first()[k - 1] == y.drop_first()[k - 1]);
            }
        }
        assert(x =~= y);
    }
}

/// The scan is deterministic: two walks over the same directory contents
/// — the same set of files, met in whatever order — yield the same
/// ordered event sequence, whenever both results are sorted in catalog
/// order and carry exactly the entries' events, as [`build_catalog`]
/// guarantees.  The walk meets each path at most once.
pub proof fn lemma_scan_deterministic(
    entries1: Seq<ScanEntry>,
    entries2: Seq<ScanEntry>,
    out1: Seq<AudioEvent>,
    out2: Seq<AudioEvent>,
)
    requires
        entries1.to_multiset() == entries2.to_multiset(),
        forall|i: int, j: int|
            0 <= i < j < entries1.len() ==> entries1[i].path@ != entries1[j].path@,
        out1.to_multiset() == events_of(entries1).to_multiset(),
        sorted_by(out1, event_le_fn()),
        out2.to_multiset() == events_of(entries2).to_multiset(),
        sorted_by(out2, event_le_fn()),
    ensures
        out1 == out2,
{
    broadcast use vstd::multiset::group_multiset_axioms;

    lemma_events_of_multiset(entries1, entries2);
    assert forall|a: AudioEvent, b: AudioEvent|
        out1.to_multiset().contains(a) && out1.to_multiset().contains(b) && #[trigger] event_le(
            a,
            b,
        ) && #[trigger] event_le(b, a) implies a == b by {
        vstd::seq_lib::to_multiset_contains(events_of(entries1), a);
        vstd::seq_lib::to_multiset_contains(events_of(entries1), b);
        lemma_events_member_source(entries1, a);
        lemma_events_member_source(entries1, b);
        let ia = choose|i: int|
            0 <= i < entries1.len() && decodes(#[trigger] entries1[i]) && a == event_of(
                entries1[i],
            );
        let ib = choose|i: int|
            0 <= i < entries1.len() && decodes(#[trigger] entries1[i]) && b == event_of(
                entries1[i],
            );
        lemma_lex_le_antisym(a.path@, b.path@);
        assert(a.path@ == b.path@);
        assert(a.path@ == entries1[ia].path@ && b.path@ == entries1[ib].path@);
        assert(ia == ib);
    }
    lemma_sorted_unique_events(out1, out2);
}

/// The payload duration in milliseconds from its shape: frames (samples
/// over channels) times a thousand over the rate, clamped to the machine
/// range; zero for a zero rate or channel count.
pub fn duration_from_shape(rate: u32, channels: u16, n_samples: usize) -> (r: u64)
    ensures
        r == duration_ms_spec(rate, channels, n_samples as int),
{
    if rate == 0 || channels == 0 {
        return 0;
    }
    let frames: usize = n_samples / (channels as usize);
    let ms: u128 = (frames as u128) * 1000 / (rate as u128);
    if ms > u64::MAX as u128 {
        u64::MAX
    } else {
        ms as u64
    }
}

} // verus!
