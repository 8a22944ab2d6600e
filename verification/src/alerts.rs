//! Alert kinds and the text form in which alerts are stored: the kind's name,
//! the notifier names joined by commas, and the time as RFC 3339 text.
use vstd::prelude::*;
use crate::time::{
    UtcInstant, utc_now, parse_rfc3339, format_rfc3339, rfc3339_text, rfc3339_instant,
    RFC3339_FOUR_DIGIT_MIN_SECS, RFC3339_FOUR_DIGIT_MAX_SECS,
};

verus! {

/// What an alert reports.
#[derive(Clone, Copy, Debug, PartialEq, Eq, Structural)]
pub enum AlertType {
    AuroraVisible,
    KpThresholdExceeded,
}

/// The name under which an alert kind is displayed and stored.
pub open spec fn alert_type_text(t: AlertType) -> Seq<char> {
    match t {
        AlertType::AuroraVisible => "aurora_visible"@,
        AlertType::KpThresholdExceeded => "kp_threshold_exceeded"@,
    }
}

/// The alert kind that a stored name stands for: the threshold kind for its
/// own name, the visibility kind for any other text.
pub open spec fn alert_type_from_text(text: Seq<char>) -> AlertType {
    if text == "kp_threshold_exceeded"@ {
        AlertType::KpThresholdExceeded
    } else {
        AlertType::AuroraVisible
    }
}

impl AlertType {
    /// The kind's name: `aurora_visible` or `kp_threshold_exceeded`.
    pub fn to_string(&self) -> (s: String)
        ensures
            s@ == alert_type_text(*self),
    {
        match self {
            AlertType::AuroraVisible => String::from_str("aurora_visible"),
            AlertType::KpThresholdExceeded => String::from_str("kp_threshold_exceeded"),
        }
    }

    /// Reads a stored kind name back; unknown names read as `AuroraVisible`.
    pub fn from_stored(text: &str) -> (t: AlertType)
        ensures
            t == alert_type_from_text(text@),
    {
        let given = String::from_str(text);
        let threshold = String::from_str("kp_threshold_exceeded");
        if given == threshold {
            AlertType::KpThresholdExceeded
        } else {
            AlertType::AuroraVisible
        }
    }
}

/// Title of a notification about an alert of the given kind.
pub fn alert_title(t: AlertType) -> (s: String)
    ensures
        s@ == "Aurora Alert — "@ + alert_type_text(t),
{
    let name = t.to_string();
    let title = String::from_str("Aurora Alert — ");
    title.concat(name.as_str())
}

/// Law: reading back the stored name of an alert kind gives that kind.
pub proof fn lemma_alert_type_round_trip(t: AlertType)
    ensures
        alert_type_from_text(alert_type_text(t)) == t,
{
    reveal_strlit("aurora_visible");
    reveal_strlit("kp_threshold_exceeded");
    if t == AlertType::AuroraVisible {
        assert(alert_type_text(t).len() != "kp_threshold_exceeded"@.len());
    }
}

/// The views of a vector of strings.
pub open spec fn string_views(v: Seq<String>) -> Seq<Seq<char>> {
    v.map_values(|s: String| s@)
}

/// Names separated by single commas.
pub open spec fn join_with_commas(names: Seq<Seq<char>>) -> Seq<char>
    decreases names.len(),
{
    if names.len() == 0 {
        Seq::empty()
    } else if names.len() == 1 {
        names[0]
    } else {
        join_with_commas(names.drop_last()) + seq![','] + names.last()
    }
}

/// The pieces of a text between its commas, empty pieces included: a text
/// with `k` commas has `k + 1` pieces.
pub open spec fn comma_segments(s: Seq<char>) -> Seq<Seq<char>>
    decreases s.len(),
{
    if s.len() == 0 {
        seq![Seq::empty()]
    } else {
        let prev = comma_segments(s.drop_last());
        if s.last() == ',' {
            prev.push(Seq::empty())
        } else {
            prev.update(prev.len() - 1, prev.last().push(s.last()))
        }
    }
}

/// The non-empty pieces of a text between its commas, in order.
pub open spec fn split_on_commas(s: Seq<char>) -> Seq<Seq<char>> {
    comma_segments(s).filter(|seg: Seq<char>| seg.len() > 0)
}

proof fn lemma_segments_nonempty(s: Seq<char>)
    ensures
        comma_segments(s).len() >= 1,
    decreases s.len(),
{
    if s.len() > 0 {
        lemma_segments_nonempty(s.drop_last());
    }
}

/// Appending comma-free text extends the last piece.
proof fn lemma_segments_append_plain(s: Seq<char>, b: Seq<char>)
    requires
        !b.contains(','),
    ensures
        comma_segments(s + b) == ({
            let p = comma_segments(s);
            p.update(p.len() - 1, p.last() + b)
        }),
    decreases b.len(),
{
    lemma_segments_nonempty(s);
    let p = comma_segments(s);
    if b.len() == 0 {
        assert(s + b =~= s);
        assert(p.last() + b =~= p.last());
        assert(p.update(p.len() - 1, p.last() + b) =~= p);
    } else {
        let b0 = b.drop_last();
        assert(!b0.contains(',')) by {
            if b0.contains(',') {
                let k = choose|k: int| 0 <= k < b0.len() && b0[k] == ',';
                assert(b[k] == ',');
            }
        }
        lemma_segments_append_plain(s, b0);
        assert((s + b).drop_last() =~= s + b0);
        assert((s + b).last() == b.last());
        assert(b.last() != ',') by {
            assert(b[b.len() - 1] == b.last());
        }
        let q = comma_segments(s + b0);
        assert(q.len() == p.len());
        assert((p.last() + b0).push(b.last()) =~= p.last() + b);
        assert(comma_segments(s + b) =~= p.update(p.len() - 1, p.last() + b));
    }
}

/// Comma-free names joined by commas split back into exactly those names.
proof fn lemma_segments_of_join(names: Seq<Seq<char>>)
    requires
        names.len() >= 1,
        forall|k: int| 0 <= k < names.len() ==> !(#[trigger] names[k]).contains(','),
    ensures
        comma_segments(join_with_commas(names)) == names,
    decreases names.len(),
{
    if names.len() == 1 {
        let e: Seq<char> = Seq::empty();
        lemma_segments_append_plain(e, names[0]);
        assert(e + names[0] =~= names[0]);
        assert(comma_segments(e) =~= seq![e]);
        assert(e + names[0] =~= names[0]);
        assert(seq![e].update(0, e + names[0]) =~= names);
    } else {
        let init = names.drop_last();
        assert forall|k: int| 0 <= k < init.len() implies !(#[trigger] init[k]).contains(',') by {
            assert(init[k] == names[k]);
        }
        lemma_segments_of_join(init);
        let head = join_with_commas(init) + seq![','];
        assert(head.drop_last() =~= join_with_commas(init));
        assert(comma_segments(head) =~= init.push(Seq::empty()));
        assert(!names.last().contains(',')) by {
            assert(names[names.len() - 1] == names.last());
        }
        lemma_segments_append_plain(head, names.last());
        let e: Seq<char> = Seq::empty();
        assert(e + names.last() =~= names.last());
        assert(init.push(e).update(init.len() as int, e + names.last()) =~= names);
    }
}

/// Law: notifier names that are non-empty and hold no comma survive being
/// joined by commas and split again.
pub proof fn lemma_join_split_round_trip(names: Seq<Seq<char>>)
    requires
        forall|k: int|
            0 <= k < names.len() ==> (#[trigger] names[k]).len() > 0 && !names[k].contains(','),
    ensures
        split_on_commas(join_with_commas(names)) == names,
{
    let p = |seg: Seq<char>| seg.len() > 0;
    if names.len() == 0 {
        let e: Seq<char> = Seq::empty();
        assert(comma_segments(e) =~= seq![e]);
        reveal_with_fuel(Seq::filter, 2);
        assert(seq![e].drop_last() =~= Seq::<Seq<char>>::empty());
        assert(seq![e].filter(p) =~= names);
    } else {
        lemma_segments_of_join(names);
        lemma_filter_keeps_all(names);
    }
}

proof fn lemma_filter_keeps_all(names: Seq<Seq<char>>)
    requires
        forall|k: int| 0 <= k < names.len() ==> (#[trigger] names[k]).len() > 0,
    ensures
        names.filter(|seg: Seq<char>| seg.len() > 0) == names,
    decreases names.len(),
{
    reveal(Seq::filter);
    if names.len() > 0 {
        let init = names.drop_last();
        assert forall|k: int| 0 <= k < init.len() implies (#[trigger] init[k]).len() > 0 by {
            assert(init[k] == names[k]);
        }
        lemma_filter_keeps_all(init);
        assert(names.last().len() > 0) by {
            assert(names[names.len() - 1] == names.last());
        }
        assert(init.push(names.last()) =~= names);
    }
}

/// Joins notifier names with commas, as alerts store them.
pub fn join_notified_via(names: &Vec<String>) -> (s: String)
    ensures
        s@ == join_with_commas(string_views(names@)),
{
    let ghost views = string_views(names@);
    let mut s = String::new();
    let mut i: usize = 0;
    while i < names.len()
        invariant
            i <= names.len(),
            views == string_views(names@),
            s@ == join_with_commas(views.take(i as int)),
        decreases names.len() - i,
    {
        assert(views.take(i + 1).drop_last() =~= views.take(i as int));
        assert(views[i as int] == names@[i as int]@);
        assert(views.take(i + 1).last() == names@[i as int]@);
        if i == 0 {
            assert(s@ =~= Seq::<char>::empty());
            s.append(names[i].as_str());
            assert(s@ =~= views.take(1)[0]);
        } else {
            let ghost before = s@;
            s.append(",");
            s.append(names[i].as_str());
            proof {
                reveal_strlit(",");
            }
            assert(","@ =~= seq![',']);
            assert(s@ =~= before + seq![','] + views.take(i + 1).last());
        }
        i = i + 1;
    }
    assert(views.take(names.len() as int) =~= views);
    s
}

/// Splits stored notifier names at commas, dropping empty pieces, as alerts
/// are read back.
pub fn split_notified_via(text: &str) -> (names: Vec<String>)
    ensures
        string_views(names@) == split_on_commas(text@),
{
    let n = text.unicode_len();
    let mut out: Vec<String> = Vec::new();
    let mut start: usize = 0;
    let mut i: usize = 0;
    let ghost mut done: Seq<Seq<char>> = Seq::empty();
    let ghost p = |seg: Seq<char>| seg.len() > 0;
    assert(text@.take(0) =~= Seq::<char>::empty());
    while i < n
        invariant
            n == text@.len(),
            start <= i <= n,
            p == (|seg: Seq<char>| seg.len() > 0),
            comma_segments(text@.take(i as int)) == done.push(text@.subrange(start as int, i as int)),
            string_views(out@) == done.filter(p),
        decreases n - i,
    {
        let c = text.get_char(i);
        let ghost cur = text@.subrange(start as int, i as int);
        assert(text@.take(i + 1).drop_last() =~= text@.take(i as int));
        assert(text@.take(i + 1).last() == c);
        if c == ',' {
            if start < i {
                let piece = String::from_str(text.substring_char(start, i));
                out.push(piece);
            }
            proof {
                done.lemma_filter_push(cur, p);
                done = done.push(cur);
                assert(string_views(out@) =~= done.filter(p));
                assert(text@.subrange(i + 1, i + 1) =~= Seq::<char>::empty());
            }
            start = i + 1;
        } else {
            proof {
                assert(cur.push(c) =~= text@.subrange(start as int, i + 1));
                assert(done.push(cur).update(done.len() as int, cur.push(c)) =~= done.push(
                    cur.push(c),
                ));
            }
        }
        i = i + 1;
    }
    let ghost cur = text@.subrange(start as int, n as int);
    assert(text@.take(n as int) =~= text@);
    if start < n {
        let piece = String::from_str(text.substring_char(start, n));
        out.push(piece);
    }
    proof {
        done.lemma_filter_push(cur, p);
        assert(string_views(out@) =~= done.push(cur).filter(p));
    }
    out
}

/// An alert as it is stored: when it was raised, its kind and the notifiers
/// that delivered it. The readings it was raised on are stored beside it.
#[derive(Clone, Debug)]
pub struct AlertRecord {
    pub timestamp: UtcInstant,
    pub alert_type: AlertType,
    pub notified_via: Vec<String>,
}

/// The text columns of a stored alert.
#[derive(Clone, Debug)]
pub struct StoredAlertText {
    pub timestamp: String,
    pub alert_type: String,
    pub notified_via: String,
}

/// The instant falls in the years 0000 to 9999, whose RFC 3339 text reads
/// back as the same instant.
pub open spec fn has_four_digit_year(t: UtcInstant) -> bool {
    RFC3339_FOUR_DIGIT_MIN_SECS <= t.secs <= RFC3339_FOUR_DIGIT_MAX_SECS
}

/// `row` is the stored text of `record`: its time in RFC 3339 (which reads
/// back as that time when the year has four digits), its kind's name, and its
/// notifier names joined by commas.
pub open spec fn is_stored_text_of(row: StoredAlertText, record: AlertRecord) -> bool {
    &&& row.timestamp@ == rfc3339_text(record.timestamp.secs, record.timestamp.nanos)
    &&& has_four_digit_year(record.timestamp) ==> rfc3339_instant(row.timestamp@) == Some(
        (record.timestamp.secs, record.timestamp.nanos),
    )
    &&& row.alert_type@ == alert_type_text(record.alert_type)
    &&& row.notified_via@ == join_with_commas(string_views(record.notified_via@))
}

/// `record` is what `row` reads back as, when the clock read `now` in case the
/// time text does not parse: the parsed time or else `now`, the kind its name
/// stands for, and the non-empty comma-separated notifier names.
pub open spec fn is_read_back_from(record: AlertRecord, row: StoredAlertText, now: UtcInstant) -> bool {
    &&& record.timestamp == (match rfc3339_instant(row.timestamp@) {
        Some(p) => UtcInstant { secs: p.0, nanos: p.1 },
        None => now,
    })
    &&& record.alert_type == alert_type_from_text(row.alert_type@)
    &&& string_views(record.notified_via@) == split_on_commas(row.notified_via@)
}

/// Writes an alert's time, kind and notifiers as the text stored for it.
pub fn encode_alert(record: &AlertRecord) -> (row: StoredAlertText)
    requires
        record.timestamp.is_valid(),
    ensures
        is_stored_text_of(row, *record),
{
    StoredAlertText {
        timestamp: format_rfc3339(record.timestamp),
        alert_type: record.alert_type.to_string(),
        notified_via: join_notified_via(&record.notified_via),
    }
}

/// Reads a stored alert back, given what its time text parsed to and the
/// instant to use when it did not parse.
pub fn decode_alert_with(
    parsed_time: Option<UtcInstant>,
    fallback_time: UtcInstant,
    alert_type: &str,
    notified_via: &str,
) -> (record: AlertRecord)
    ensures
        record.timestamp == (match parsed_time {
            Some(t) => t,
            None => fallback_time,
        }),
        record.alert_type == alert_type_from_text(alert_type@),
        string_views(record.notified_via@) == split_on_commas(notified_via@),
{
    let timestamp = match parsed_time {
        Some(t) => t,
        None => fallback_time,
    };
    AlertRecord {
        timestamp,
        alert_type: AlertType::from_stored(alert_type),
        notified_via: split_notified_via(notified_via),
    }
}

/// Reads a stored alert back. A time text that is not RFC 3339 reads as the
/// current time, which is returned beside the alert (the clock is read only
/// in that case; otherwise the parsed time is returned there too).
pub fn decode_alert(row: &StoredAlertText) -> (r: (AlertRecord, UtcInstant))
    ensures
        is_read_back_from(r.0, *row, r.1),
        r.0.timestamp.is_valid(),
        rfc3339_instant(row.timestamp@) is None ==> r.1.is_regular() && r.1.secs >= 0,
{
    let parsed = parse_rfc3339(row.timestamp.as_str());
    let fallback = match parsed {
        Some(t) => t,
        None => utc_now(),
    };
    (decode_alert_with(parsed, fallback, row.alert_type.as_str(), row.notified_via.as_str()), fallback)
}

/// Law: an alert stored as text reads back as the same alert, when its time
/// falls in the years 0000 to 9999 and its notifier names are non-empty and
/// hold no comma.
pub proof fn lemma_stored_alert_reads_back(
    record: AlertRecord,
    row: StoredAlertText,
    back: AlertRecord,
    now: UtcInstant,
)
    requires
        has_four_digit_year(record.timestamp),
        forall|k: int|
            0 <= k < record.notified_via@.len() ==> (#[trigger] record.notified_via@[k])@.len() > 0
                && !record.notified_via@[k]@.contains(','),
        is_stored_text_of(row, record),
        is_read_back_from(back, row, now),
    ensures
        back.timestamp == record.timestamp,
        back.alert_type == record.alert_type,
        string_views(back.notified_via@) == string_views(record.notified_via@),
{
    lemma_alert_type_round_trip(record.alert_type);
    let names = string_views(record.notified_via@);
    assert forall|k: int| 0 <= k < names.len() implies (#[trigger] names[k]).len() > 0
        && !names[k].contains(',') by {
        assert(names[k] == record.notified_via@[k]@);
    }
    lemma_join_split_round_trip(names);
}

} // verus!
